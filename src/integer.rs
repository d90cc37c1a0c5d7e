use vstd::prelude::*;

verus! {

#[verifier::external_type_specification]
#[verifier::external_body]
pub struct ExBigInt(num_bigint::BigInt);

/// The value of little-endian base 2^32 digits.
pub open spec fn digits_value(d: Seq<u32>) -> nat
    decreases d.len(),
{
    if d.len() == 0 {
        0
    } else {
        d[0] as nat + 0x1_0000_0000 * digits_value(d.drop_first())
    }
}

/// Digits without a most significant zero.
pub open spec fn digits_canonical(d: Seq<u32>) -> bool {
    d.len() == 0 || d.last() != 0
}

/// The value of a sign and a magnitude in base 2^32 digits.
pub open spec fn signed_digits_value(negative: bool, d: Seq<u32>) -> int {
    if negative {
        -digits_value(d)
    } else {
        digits_value(d) as int
    }
}

/// What `num_bigint::BigInt::to_u32_digits` gives for `b`: whether the sign
/// is `Minus`, and the base 2^32 digits of the magnitude, least significant
/// first.
pub uninterp spec fn big_int_digits_of(b: num_bigint::BigInt) -> (bool, Seq<u32>);

/// Relies on num_bigint::BigInt::to_u32_digits: the sign and the base 2^32
/// digits of the magnitude, least significant first. The magnitude is kept
/// normalized (no most significant zero digit), and the sign is `NoSign`
/// exactly for zero.
#[verifier::external_body]
fn big_int_digits(b: &num_bigint::BigInt) -> (r: (bool, Vec<u32>))
    ensures
        (r.0, r.1@) == big_int_digits_of(*b),
        digits_canonical(r.1@),
        r.0 ==> r.1@.len() > 0,
{
    let (sign, digits) = b.to_u32_digits();
    (sign == num_bigint::Sign::Minus, digits)
}

/// An arbitrary-precision integer in sign and magnitude form.
#[derive(Debug)]
pub struct BigInteger {
    negative: bool,
    digits: Vec<u32>,
}

impl BigInteger {
    #[verifier::type_invariant]
    spec fn canonical(self) -> bool {
        digits_canonical(self.digits@) && (self.negative ==> self.digits@.len() > 0)
    }

    pub closed spec fn value(self) -> int {
        signed_digits_value(self.negative, self.digits@)
    }
}

/// An Ion integer: a fixed-width one or an arbitrary-precision one. Integers
/// compare by value, whichever form holds them.
#[derive(Debug)]
pub enum Int {
    I64(i64),
    BigInt(BigInteger),
}

impl Int {
    pub open spec fn value(self) -> int {
        match self {
            Int::I64(v) => v as int,
            Int::BigInt(b) => b.value(),
        }
    }
}

proof fn lemma_trailing_zero(d: Seq<u32>)
    ensures
        digits_value(d.push(0)) == digits_value(d),
    decreases d.len(),
{
    if d.len() > 0 {
        lemma_trailing_zero(d.drop_first());
        assert(d.push(0).drop_first() =~= d.drop_first().push(0));
        assert(d.push(0)[0] == d[0]);
    } else {
        assert(d.push(0).drop_first() =~= Seq::<u32>::empty());
        assert(digits_value(d.push(0).drop_first()) == 0);
        assert(d.push(0)[0] == 0);
    }
}

proof fn lemma_nonempty_positive(d: Seq<u32>)
    requires
        digits_canonical(d),
        d.len() > 0,
    ensures
        digits_value(d) > 0,
    decreases d.len(),
{
    if d.len() > 1 {
        lemma_nonempty_positive(d.drop_first());
    }
}

proof fn lemma_digits_unique(a: Seq<u32>, b: Seq<u32>)
    requires
        digits_canonical(a),
        digits_canonical(b),
        digits_value(a) == digits_value(b),
    ensures
        a == b,
    decreases a.len(),
{
    if a.len() == 0 {
        if b.len() > 0 {
            lemma_nonempty_positive(b);
        }
        assert(a =~= b);
    } else if b.len() == 0 {
        lemma_nonempty_positive(a);
    } else {
        let x = digits_value(a.drop_first());
        let y = digits_value(b.drop_first());
        let p = a[0] as int;
        let q = b[0] as int;
        assert(p + 0x1_0000_0000 * x == q + 0x1_0000_0000 * y);
        assert(p == q && x == y) by (nonlinear_arith)
            requires
                p + 0x1_0000_0000 * x == q + 0x1_0000_0000 * y,
                0 <= p < 0x1_0000_0000,
                0 <= q < 0x1_0000_0000,
                x >= 0,
                y >= 0,
        ;
        lemma_digits_unique(a.drop_first(), b.drop_first());
        assert(a =~= seq![a[0]] + a.drop_first());
        assert(b =~= seq![b[0]] + b.drop_first());
    }
}

fn digits_equal(a: &Vec<u32>, b: &Vec<u32>) -> (r: bool)
    ensures
        r == (a@ == b@),
{
    if a.len() != b.len() {
        return false;
    }
    let mut i: usize = 0;
    while i < a.len()
        invariant
            a@.len() == b@.len(),
            i <= a@.len(),
            forall|j: int| 0 <= j < i ==> a@[j] == b@[j],
        decreases a@.len() - i,
    {
        if a[i] != b[i] {
            return false;
        }
        i = i + 1;
    }
    assert(a@ =~= b@);
    true
}

impl BigInteger {
    /// The digits of an `i64` in this form.
    fn from_i64(v: i64) -> (r: BigInteger)
        ensures
            r.value() == v,
    {
        let m: u64 = if v < 0 {
            (0i128 - v as i128) as u64
        } else {
            v as u64
        };
        let lo: u32 = (m % 0x1_0000_0000) as u32;
        let hi: u32 = (m / 0x1_0000_0000) as u32;
        assert(m as int == lo as int + 0x1_0000_0000 * hi as int) by (nonlinear_arith)
            requires
                lo as int == m as int % 0x1_0000_0000,
                hi as int == m as int / 0x1_0000_0000,
        ;
        let mut digits: Vec<u32> = Vec::new();
        if hi != 0 {
            digits.push(lo);
            digits.push(hi);
            assert(digits@.drop_first().drop_first() =~= Seq::<u32>::empty());
        } else if lo != 0 {
            digits.push(lo);
            assert(digits@.drop_first() =~= Seq::<u32>::empty());
        }
        proof {
            reveal_with_fuel(digits_value, 3);
        }
        assert(digits_value(digits@) == m);
        BigInteger { negative: v < 0, digits }
    }

    fn equals(&self, other: &BigInteger) -> (r: bool)
        ensures
            r == (self.value() == other.value()),
    {
        proof {
            use_type_invariant(self);
            use_type_invariant(other);
            if self.value() == other.value() {
                if self.digits@.len() > 0 {
                    lemma_nonempty_positive(self.digits@);
                }
                if other.digits@.len() > 0 {
                    lemma_nonempty_positive(other.digits@);
                }
                lemma_digits_unique(self.digits@, other.digits@);
            }
        }
        self.negative == other.negative && digits_equal(&self.digits, &other.digits)
    }
}

impl BigInteger {
    /// The integer `(-1)^negative * digits`, the digits in base 2^32, least
    /// significant first. Most significant zero digits are dropped, and a
    /// zero is never negative.
    pub fn from_digits(negative: bool, digits: Vec<u32>) -> (r: BigInteger)
        ensures
            r.value() == signed_digits_value(negative, digits@),
    {
        let ghost original = digits@;
        let mut digits = digits;
        while digits.len() > 0 && digits[digits.len() - 1] == 0
            invariant
                digits_value(digits@) == digits_value(original),
            decreases digits@.len(),
        {
            let ghost before = digits@;
            digits.pop();
            proof {
                assert(before =~= digits@.push(0));
                lemma_trailing_zero(digits@);
            }
        }
        let negative = negative && digits.len() > 0;
        BigInteger { negative, digits }
    }
}

impl Clone for BigInteger {
    fn clone(&self) -> (r: Self)
        ensures
            r.value() == self.value(),
    {
        proof {
            use_type_invariant(self);
        }
        let mut digits: Vec<u32> = Vec::new();
        let mut i: usize = 0;
        while i < self.digits.len()
            invariant
                i <= self.digits@.len(),
                digits@ == self.digits@.subrange(0, i as int),
            decreases self.digits@.len() - i,
        {
            digits.push(self.digits[i]);
            i = i + 1;
            assert(digits@ =~= self.digits@.subrange(0, i as int));
        }
        assert(digits@ =~= self.digits@);
        BigInteger { negative: self.negative, digits }
    }
}

impl Clone for Int {
    fn clone(&self) -> (r: Self)
        ensures
            r.value() == self.value(),
    {
        match self {
            Int::I64(v) => Int::I64(*v),
            Int::BigInt(b) => Int::BigInt(b.clone()),
        }
    }
}

impl Int {
    /// The integer held by a `num_bigint::BigInt`, in arbitrary-precision form.
    pub fn from_big_int(b: &num_bigint::BigInt) -> (r: Int)
        ensures
            r is BigInt,
            r.value() == signed_digits_value(big_int_digits_of(*b).0, big_int_digits_of(*b).1),
    {
        let (negative, digits) = big_int_digits(b);
        Int::BigInt(BigInteger { negative, digits })
    }

    /// Equality by value.
    pub fn equals(&self, other: &Int) -> (r: bool)
        ensures
            r == (self.value() == other.value()),
    {
        match (self, other) {
            (Int::I64(a), Int::I64(b)) => *a == *b,
            (Int::BigInt(a), Int::BigInt(b)) => a.equals(b),
            (Int::I64(a), Int::BigInt(b)) => BigInteger::from_i64(*a).equals(b),
            (Int::BigInt(a), Int::I64(b)) => a.equals(&BigInteger::from_i64(*b)),
        }
    }
}

} // verus!
