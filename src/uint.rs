//! A 256-bit unsigned integer held as two 128-bit halves, with the few
//! operations that admission and scheduling read: comparison, saturating
//! arithmetic, big-endian bytes and decimal text.
use vstd::prelude::*;
use vstd::string::*;

verus! {

/// 2^128, the weight of the upper half.
pub open spec fn half_base() -> nat {
    0x1_0000_0000_0000_0000_0000_0000_0000_0000nat
}

/// 2^256 - 1, the largest value a `U256` holds.
pub open spec fn u256_max() -> nat {
    (half_base() * half_base() - 1) as nat
}

/// The `len` low bytes of `n`, most significant first.
pub open spec fn be_bytes(n: nat, len: nat) -> Seq<u8>
    decreases len,
{
    if len == 0 {
        Seq::empty()
    } else {
        be_bytes(n / 256, (len - 1) as nat).push((n % 256) as u8)
    }
}

pub proof fn lemma_be_bytes_len(n: nat, len: nat)
    ensures
        be_bytes(n, len).len() == len,
    decreases len,
{
    if len > 0 {
        lemma_be_bytes_len(n / 256, (len - 1) as nat);
    }
}

/// 256 to the power `n`.
pub open spec fn pow256(n: nat) -> nat
    decreases n,
{
    if n == 0 {
        1
    } else {
        256 * pow256((n - 1) as nat)
    }
}

pub proof fn lemma_pow256_widths()
    ensures
        pow256(8) == 0x1_0000_0000_0000_0000,
        pow256(32) == half_base() * half_base(),
{
    reveal_with_fuel(pow256, 33);
}

/// Numbers below `pow256(len)` have distinct `len`-byte encodings.
pub proof fn lemma_be_bytes_injective(n: nat, m: nat, len: nat)
    requires
        be_bytes(n, len) == be_bytes(m, len),
        n < pow256(len),
        m < pow256(len),
    ensures
        n == m,
    decreases len,
{
    if len > 0 {
        let p = pow256((len - 1) as nat);
        let bn = be_bytes(n, len);
        let bm = be_bytes(m, len);
        assert(bn.last() == (n % 256) as u8);
        assert(bm.last() == (m % 256) as u8);
        assert(bn.drop_last() == be_bytes(n / 256, (len - 1) as nat));
        assert(bm.drop_last() == be_bytes(m / 256, (len - 1) as nat));
        assert(n / 256 < p) by (nonlinear_arith)
            requires
                n < 256 * p,
        ;
        assert(m / 256 < p) by (nonlinear_arith)
            requires
                m < 256 * p,
        ;
        lemma_be_bytes_injective(n / 256, m / 256, (len - 1) as nat);
    }
}

pub open spec fn digit_char(d: nat) -> char {
    seq!['0', '1', '2', '3', '4', '5', '6', '7', '8', '9'][d as int]
}

/// The decimal digits of `n`, without leading zeros.
pub open spec fn decimal(n: nat) -> Seq<char>
    decreases n,
{
    if n < 10 {
        seq![digit_char(n)]
    } else {
        decimal(n / 10).push(digit_char(n % 10))
    }
}

/// The eight big-endian bytes of `x`.
pub fn u64_be_bytes(x: u64) -> (r: Vec<u8>)
    ensures
        r@ == be_bytes(x as nat, 8),
{
    let mut out: Vec<u8> = vec![0u8; 8];
    let mut v: u64 = x;
    let mut j: usize = 8;
    while j > 0
        invariant
            j <= 8,
            out@.len() == 8,
            be_bytes(x as nat, 8) == be_bytes(v as nat, j as nat) + out@.subrange(j as int, 8),
        decreases j,
    {
        let b: u8 = (v % 256) as u8;
        let ghost old_out = out@;
        out.set(j - 1, b);
        proof {
            assert(out@.subrange(j - 1, 8) =~= seq![b] + old_out.subrange(j as int, 8));
            assert(be_bytes(v as nat, j as nat) == be_bytes((v / 256) as nat, (j - 1) as nat).push(b));
            assert(be_bytes((v / 256) as nat, (j - 1) as nat).push(b) + old_out.subrange(j as int, 8)
                =~= be_bytes((v / 256) as nat, (j - 1) as nat) + out@.subrange(j - 1, 8));
        }
        v = v / 256;
        j = j - 1;
    }
    proof {
        assert(out@.subrange(0, 8) =~= out@);
    }
    out
}

/// The text of one decimal digit.
pub fn digit_str(d: u8) -> (r: &'static str)
    requires
        d < 10,
    ensures
        r@ == seq![digit_char(d as nat)],
{
    proof {
        reveal_strlit("0");
        reveal_strlit("1");
        reveal_strlit("2");
        reveal_strlit("3");
        reveal_strlit("4");
        reveal_strlit("5");
        reveal_strlit("6");
        reveal_strlit("7");
        reveal_strlit("8");
        reveal_strlit("9");
    }
    let r = if d == 0 {
        "0"
    } else if d == 1 {
        "1"
    } else if d == 2 {
        "2"
    } else if d == 3 {
        "3"
    } else if d == 4 {
        "4"
    } else if d == 5 {
        "5"
    } else if d == 6 {
        "6"
    } else if d == 7 {
        "7"
    } else if d == 8 {
        "8"
    } else {
        "9"
    };
    proof {
        assert(r@ =~= seq![digit_char(d as nat)]);
    }
    r
}

#[derive(Clone, Copy, Debug, PartialEq, Eq, Structural)]
pub struct U256 {
    pub hi: u128,
    pub lo: u128,
}

impl View for U256 {
    type V = nat;

    open spec fn view(&self) -> nat {
        self.hi as nat * half_base() + self.lo as nat
    }
}

/// The value whose number is `n`, for `n` at most `u256_max()`.
pub open spec fn u256_of(n: nat) -> U256 {
    U256 { hi: (n / half_base()) as u128, lo: (n % half_base()) as u128 }
}

/// A value is the one that its number names.
pub proof fn lemma_u256_of_view(x: U256)
    ensures
        u256_of(x@) == x,
{
    vstd::arithmetic::div_mod::lemma_fundamental_div_mod_converse(
        x@ as int,
        half_base() as int,
        x.hi as int,
        x.lo as int,
    );
}

impl U256 {

    /// Quotient and remainder of division by 256.
    fn div_rem_256(&self) -> (r: (U256, u8))
        ensures
            r.0@ == self@ / 256,
            r.1 as nat == self@ % 256,
    {
        let qh: u128 = self.hi / 256;
        let rh: u128 = self.hi % 256;
        let ql: u128 = self.lo / 256 + rh * 0x1_0000_0000_0000_0000_0000_0000_0000_00;
        let rem: u8 = (self.lo % 256) as u8;
        let q = U256 { hi: qh, lo: ql };
        proof {
            assert(self@ == q@ * 256 + rem as nat);
            vstd::arithmetic::div_mod::lemma_fundamental_div_mod_converse(
                self@ as int, 256, q@ as int, rem as int);
        }
        (q, rem)
    }

    /// Quotient and remainder of division by ten.
    fn div_rem_10(&self) -> (r: (U256, u8))
        ensures
            r.0@ == self@ / 10,
            r.1 as nat == self@ % 10,
            r.1 < 10,
    {
        let w: u128 = 0x1_0000_0000_0000_0000;
        let qh: u128 = self.hi / 10;
        let r0: u128 = self.hi % 10;
        let lh: u128 = self.lo / w;
        let ll: u128 = self.lo % w;
        let t1: u128 = r0 * w + lh;
        let q1: u128 = t1 / 10;
        let r1: u128 = t1 % 10;
        let t2: u128 = r1 * w + ll;
        let q2: u128 = t2 / 10;
        let r2: u128 = t2 % 10;
        let q = U256 { hi: qh, lo: q1 * w + q2 };
        proof {
            assert(self@ == q@ * 10 + r2);
            vstd::arithmetic::div_mod::lemma_fundamental_div_mod_converse(
                self@ as int, 10, q@ as int, r2 as int);
        }
        (q, r2 as u8)
    }

    /// The 32 big-endian bytes of the value.
    pub fn to_be_bytes(&self) -> (r: Vec<u8>)
        ensures
            r@ == be_bytes(self@, 32),
    {
        let mut out: Vec<u8> = vec![0u8; 32];
        let mut v: U256 = *self;
        let mut j: usize = 32;
        while j > 0
            invariant
                j <= 32,
                out@.len() == 32,
                be_bytes(self@, 32) == be_bytes(v@, j as nat) + out@.subrange(j as int, 32),
            decreases j,
        {
            let (q, b) = v.div_rem_256();
            let ghost old_out = out@;
            out.set(j - 1, b);
            proof {
                assert(out@.subrange(j - 1, 32) =~= seq![b] + old_out.subrange(j as int, 32));
                assert(be_bytes(v@, j as nat) == be_bytes(q@, (j - 1) as nat).push(b));
                assert(be_bytes(q@, (j - 1) as nat).push(b) + old_out.subrange(j as int, 32)
                    =~= be_bytes(q@, (j - 1) as nat) + out@.subrange(j - 1, 32));
            }
            v = q;
            j = j - 1;
        }
        proof {
            assert(out@.subrange(0, 32) =~= out@);
        }
        out
    }

    /// The value in decimal.
    pub fn to_decimal(&self) -> (r: String)
        ensures
            r@ == decimal(self@),
    {
        let ten = U256::from_u64(10);
        let mut digits: Vec<u8> = Vec::new();
        let mut v: U256 = *self;
        let ghost mut tail: Seq<char> = Seq::empty();
        while !v.lt(&ten)
            invariant
                ten@ == 10,
                decimal(self@) == decimal(v@) + tail,
                tail.len() == digits@.len(),
                forall|i: int| 0 <= i < digits@.len() ==> digits@[i] < 10,
                forall|i: int|
                    0 <= i < tail.len() ==> tail[i] == digit_char(
                        digits@[digits@.len() - 1 - i] as nat,
                    ),
            decreases v@,
        {
            let (q, d) = v.div_rem_10();
            proof {
                assert(decimal(v@) == decimal(q@).push(digit_char(d as nat)));
                assert(decimal(q@).push(digit_char(d as nat)) + tail =~= decimal(q@) + (seq![
                    digit_char(d as nat),
                ] + tail));
                tail = seq![digit_char(d as nat)] + tail;
            }
            digits.push(d);
            v = q;
        }
        let first: u8 = v.lo as u8;
        digits.push(first);
        proof {
            assert(decimal(v@) == seq![digit_char(first as nat)]);
            tail = seq![digit_char(first as nat)] + tail;
        }
        let mut out = String::new();
        let mut i: usize = digits.len();
        while i > 0
            invariant
                i <= digits@.len(),
                digits@.len() == tail.len(),
                decimal(self@) == tail,
                forall|k: int| 0 <= k < digits@.len() ==> digits@[k] < 10,
                forall|k: int|
                    0 <= k < tail.len() ==> tail[k] == digit_char(
                        digits@[digits@.len() - 1 - k] as nat,
                    ),
                out@ == tail.subrange(0, (digits@.len() - i) as int),
            decreases i,
        {
            let s = digit_str(digits[i - 1]);
            let ghost before = out@;
            out.append(s);
            proof {
                assert(out@ =~= tail.subrange(0, (digits@.len() - (i - 1)) as int));
            }
            i = i - 1;
        }
        proof {
            assert(tail.subrange(0, tail.len() as int) =~= tail);
        }
        out
    }
    pub fn zero() -> (r: U256)
        ensures
            r@ == 0,
    {
        U256 { hi: 0, lo: 0 }
    }

    pub fn max_value() -> (r: U256)
        ensures
            r@ == u256_max(),
    {
        U256 { hi: u128::MAX, lo: u128::MAX }
    }

    pub fn from_u64(n: u64) -> (r: U256)
        ensures
            r@ == n as nat,
    {
        U256 { hi: 0, lo: n as u128 }
    }

    /// Builds the value `hi * 2^128 + lo`.
    pub fn from_halves(hi: u128, lo: u128) -> (r: U256)
        ensures
            r@ == hi as nat * half_base() + lo as nat,
    {
        U256 { hi, lo }
    }

    pub fn high_half(&self) -> (r: u128)
        ensures
            r as nat == self@ / half_base(),
    {
        self.hi
    }

    pub fn low_half(&self) -> (r: u128)
        ensures
            r as nat == self@ % half_base(),
    {
        self.lo
    }

    pub fn lt(&self, other: &U256) -> (r: bool)
        ensures
            r == (self@ < other@),
    {
        if self.hi != other.hi {
            self.hi < other.hi
        } else {
            self.lo < other.lo
        }
    }

    pub fn le(&self, other: &U256) -> (r: bool)
        ensures
            r == (self@ <= other@),
    {
        !other.lt(self)
    }

    /// The sum, or `None` where it does not fit.
    pub fn checked_add(&self, other: &U256) -> (r: Option<U256>)
        ensures
            match r {
                Some(v) => v@ == self@ + other@,
                None => self@ + other@ > u256_max(),
            },
    {
        let (lo, carry): (u128, u128) = if self.lo <= u128::MAX - other.lo {
            (self.lo + other.lo, 0)
        } else {
            (self.lo - (u128::MAX - other.lo) - 1, 1)
        };
        if self.hi <= u128::MAX - other.hi && self.hi + other.hi <= u128::MAX - carry {
            Some(U256 { hi: self.hi + other.hi + carry, lo })
        } else {
            None
        }
    }

    /// The sum, or the largest value where the sum does not fit.
    pub fn saturating_add(&self, other: &U256) -> (r: U256)
        ensures
            r@ == if self@ + other@ <= u256_max() { self@ + other@ } else { u256_max() },
    {
        match self.checked_add(other) {
            Some(v) => v,
            None => U256::max_value(),
        }
    }

    /// The product with `k`, or the largest value where it does not fit.
    pub fn saturating_mul_u64(&self, k: u64) -> (r: U256)
        ensures
            r@ == if self@ * k <= u256_max() { self@ * k } else { u256_max() as int },
    {
        match self.checked_mul_u64(k) {
            Some(v) => v,
            None => U256::max_value(),
        }
    }

    /// The product with `k`, or `None` where it does not fit.
    pub fn checked_mul_u64(&self, k: u64) -> (r: Option<U256>)
        ensures
            match r {
                Some(v) => v@ == self@ * k,
                None => self@ * k > u256_max(),
            },
    {
        let w: u128 = 0x1_0000_0000_0000_0000;
        let kk: u128 = k as u128;
        let lh: u128 = self.lo / w;
        let ll: u128 = self.lo % w;
        proof {
            assert(self.lo == lh * w + ll);
            assert(lh < w);
            assert(lh * kk < w * w) by (nonlinear_arith)
                requires lh < w, kk < w, w == 0x1_0000_0000_0000_0000u128;
            assert(ll * kk < w * w) by (nonlinear_arith)
                requires ll < w, kk < w, w == 0x1_0000_0000_0000_0000u128;
        }
        let mid: u128 = lh * kk;
        let low: u128 = ll * kk;
        let mid_hi: u128 = mid / w;
        let mid_lo: u128 = mid % w;
        proof {
            assert(mid == mid_hi * w + mid_lo);
            assert(mid_lo * w <= (w - 1) * w) by (nonlinear_arith)
                requires mid_lo < w, w == 0x1_0000_0000_0000_0000u128;
        }
        let a: u128 = mid_lo * w;
        let (lo, carry): (u128, u128) = if a <= u128::MAX - low {
            (a + low, 0)
        } else {
            (low - (u128::MAX - a) - 1, 1)
        };
        proof {
            // lo * k is mid_hi * 2^128 plus a + low, which may carry once past 2^128.
            assert(self.lo as int * k == mid as int * w + low) by (nonlinear_arith)
                requires self.lo == lh * w + ll, mid == lh * kk, low == ll * kk, kk == k;
            assert(mid as int * w == mid_hi as int * (w * w) + a) by (nonlinear_arith)
                requires mid == mid_hi * w + mid_lo, a == mid_lo * w;
            assert(self@ * k == (self.hi as int * k) * half_base() + self.lo as int * k)
                by (nonlinear_arith);
        }
        match (self.hi).checked_mul(kk) {
            Some(hk) => {
                if hk <= u128::MAX - mid_hi && hk + mid_hi <= u128::MAX - carry {
                    Some(U256 { hi: hk + mid_hi + carry, lo })
                } else {
                    None
                }
            },
            None => {
                proof {
                    assert(self@ * k >= (self.hi as int * k) * half_base()) by (nonlinear_arith)
                        requires self@ * k == (self.hi as int * k) * half_base() + self.lo as int * k, k >= 0;
                }
                None
            },
        }
    }
}

impl From<u64> for U256 {
    fn from(n: u64) -> (r: U256) {
        U256 { hi: 0, lo: n as u128 }
    }
}

impl vstd::std_specs::convert::FromSpecImpl<u64> for U256 {
    open spec fn obeys_from_spec() -> bool {
        true
    }

    open spec fn from_spec(n: u64) -> U256 {
        U256 { hi: 0, lo: n as u128 }
    }
}

} // verus!
