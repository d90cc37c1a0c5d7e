use vstd::prelude::*;

verus! {

/// The kinds of Ion value. A null value carries one of these to record which
/// kind of value is null.
#[derive(Debug, Clone, Copy, PartialEq, Eq, Structural)]
pub enum IonType {
    Null,
    Bool,
    Int,
    Float,
    Decimal,
    Timestamp,
    Symbol,
    String,
    Clob,
    Blob,
    List,
    SExp,
    Struct,
}

/// A 64-bit IEEE 754 floating-point number, held as its bit pattern.
#[derive(Debug, Clone, Copy, PartialEq, Eq, Structural)]
pub struct Float64 {
    pub bits: u64,
}

pub const EXPONENT_MASK: u64 = 0x7ff0_0000_0000_0000;

pub const MANTISSA_MASK: u64 = 0x000f_ffff_ffff_ffff;

pub const MAGNITUDE_MASK: u64 = 0x7fff_ffff_ffff_ffff;

/// The bit pattern is a NaN: all exponent bits set and a nonzero mantissa.
pub open spec fn bits_are_nan(b: u64) -> bool {
    b & EXPONENT_MASK == EXPONENT_MASK && b & MANTISSA_MASK != 0
}

/// The bit pattern is positive or negative zero.
pub open spec fn bits_are_zero(b: u64) -> bool {
    b & MAGNITUDE_MASK == 0
}

/// IEEE 754 equality: a NaN equals nothing, the two zeros are equal, and
/// otherwise equal numbers have equal bit patterns.
pub open spec fn float_eq(a: Float64, b: Float64) -> bool {
    !bits_are_nan(a.bits) && !bits_are_nan(b.bits) && (a.bits == b.bits || (bits_are_zero(
        a.bits,
    ) && bits_are_zero(b.bits)))
}

/// Ion equivalence of floats: IEEE equality, except that a NaN is equivalent
/// to any NaN.
pub open spec fn float_ion_eq(a: Float64, b: Float64) -> bool {
    if bits_are_nan(a.bits) {
        bits_are_nan(b.bits)
    } else {
        float_eq(a, b)
    }
}

impl Float64 {
    /// The float with the given IEEE 754 bit pattern.
    pub fn from_bits(bits: u64) -> (r: Float64)
        ensures
            r.bits == bits,
    {
        Float64 { bits }
    }

    /// The IEEE 754 bit pattern of this float.
    pub fn to_bits(self) -> (r: u64)
        ensures
            r == self.bits,
    {
        self.bits
    }

    pub fn is_nan(self) -> (r: bool)
        ensures
            r == bits_are_nan(self.bits),
    {
        self.bits & EXPONENT_MASK == EXPONENT_MASK && self.bits & MANTISSA_MASK != 0
    }

    pub fn is_zero(self) -> (r: bool)
        ensures
            r == bits_are_zero(self.bits),
    {
        self.bits & MAGNITUDE_MASK == 0
    }

    /// IEEE 754 equality.
    pub fn float_equals(self, other: Float64) -> (r: bool)
        ensures
            r == float_eq(self, other),
    {
        !self.is_nan() && !other.is_nan() && (self.bits == other.bits || (self.is_zero()
            && other.is_zero()))
    }

    /// Ion equivalence: IEEE equality, with every NaN equivalent to every NaN.
    pub fn float_ion_equals(self, other: Float64) -> (r: bool)
        ensures
            r == float_ion_eq(self, other),
    {
        if self.is_nan() {
            other.is_nan()
        } else {
            self.float_equals(other)
        }
    }
}

/// An exact decimal number `(-1)^negative * magnitude * 10^exponent`.
///
/// The representation is kept as given: `1.0` (magnitude 10, exponent -1) and
/// `1` (magnitude 1, exponent 0) are different decimals, and so are `0` and
/// `-0`.
#[derive(Debug, Clone, Copy, PartialEq, Eq, Structural)]
pub struct Decimal {
    pub negative: bool,
    pub magnitude: u64,
    pub exponent: i64,
}

/// Ion equivalence of decimals: same coefficient (sign of zero included) and
/// same exponent.
pub open spec fn decimal_ion_eq(a: Decimal, b: Decimal) -> bool {
    a.negative == b.negative && a.magnitude == b.magnitude && a.exponent == b.exponent
}

impl Decimal {
    /// The decimal `coefficient * 10^exponent`.
    pub fn new(coefficient: i64, exponent: i64) -> (r: Decimal)
        ensures
            r.negative == (coefficient < 0),
            r.magnitude == if coefficient < 0 {
                -coefficient
            } else {
                coefficient as int
            },
            r.exponent == exponent,
    {
        let magnitude: u64 = if coefficient < 0 {
            (0i128 - coefficient as i128) as u64
        } else {
            coefficient as u64
        };
        Decimal { negative: coefficient < 0, magnitude, exponent }
    }

    /// Negative zero with the given exponent.
    pub fn negative_zero(exponent: i64) -> (r: Decimal)
        ensures
            r.negative,
            r.magnitude == 0,
            r.exponent == exponent,
    {
        Decimal { negative: true, magnitude: 0, exponent }
    }

    /// Ion equivalence.
    pub fn decimal_ion_equals(&self, other: &Decimal) -> (r: bool)
        ensures
            r == decimal_ion_eq(*self, *other),
    {
        self.negative == other.negative && self.magnitude == other.magnitude && self.exponent
            == other.exponent
    }
}

/// How many of a timestamp's fields are significant.
#[derive(Debug, Clone, Copy, PartialEq, Eq, Structural)]
pub enum TimestampPrecision {
    Year,
    Month,
    Day,
    Minute,
    Second,
    /// Seconds with this many fractional digits.
    FractionalSeconds(u8),
}

/// A point in time with a precision and an optional offset from UTC in
/// minutes (`None`: the offset is unknown).
#[derive(Debug, Clone, Copy, PartialEq, Eq, Structural)]
pub struct Timestamp {
    pub precision: TimestampPrecision,
    pub year: u16,
    pub month: u8,
    pub day: u8,
    pub hour: u8,
    pub minute: u8,
    pub second: u8,
    pub nanosecond: u32,
    pub offset_minutes: Option<i16>,
}

/// Ordinal of a precision, from coarsest to finest.
pub open spec fn precision_rank(p: TimestampPrecision) -> int {
    match p {
        TimestampPrecision::Year => 0,
        TimestampPrecision::Month => 1,
        TimestampPrecision::Day => 2,
        TimestampPrecision::Minute => 3,
        TimestampPrecision::Second => 4,
        TimestampPrecision::FractionalSeconds(_) => 5,
    }
}

/// Ion equivalence of timestamps: same precision and offset, and the same
/// value in each field that the precision makes significant.
pub open spec fn timestamp_ion_eq(a: Timestamp, b: Timestamp) -> bool {
    let r = precision_rank(a.precision);
    &&& a.precision == b.precision
    &&& a.offset_minutes == b.offset_minutes
    &&& a.year == b.year
    &&& r >= 1 ==> a.month == b.month
    &&& r >= 2 ==> a.day == b.day
    &&& r >= 3 ==> a.hour == b.hour && a.minute == b.minute
    &&& r >= 4 ==> a.second == b.second
    &&& r >= 5 ==> a.nanosecond == b.nanosecond
}

impl TimestampPrecision {
    pub fn rank(self) -> (r: u8)
        ensures
            r == precision_rank(self),
    {
        match self {
            TimestampPrecision::Year => 0,
            TimestampPrecision::Month => 1,
            TimestampPrecision::Day => 2,
            TimestampPrecision::Minute => 3,
            TimestampPrecision::Second => 4,
            TimestampPrecision::FractionalSeconds(_) => 5,
        }
    }
}

impl Timestamp {
    /// A timestamp with year precision; the finer fields are zero.
    pub fn with_year(year: u16) -> (r: Timestamp)
        ensures
            r.precision == TimestampPrecision::Year,
            r.year == year,
            r.month == 1 && r.day == 1,
            r.hour == 0 && r.minute == 0 && r.second == 0 && r.nanosecond == 0,
            r.offset_minutes is None,
    {
        Timestamp {
            precision: TimestampPrecision::Year,
            year,
            month: 1,
            day: 1,
            hour: 0,
            minute: 0,
            second: 0,
            nanosecond: 0,
            offset_minutes: None,
        }
    }

    /// A timestamp with day precision; the finer fields are zero.
    pub fn with_ymd(year: u16, month: u8, day: u8) -> (r: Timestamp)
        ensures
            r.precision == TimestampPrecision::Day,
            r.year == year && r.month == month && r.day == day,
            r.hour == 0 && r.minute == 0 && r.second == 0 && r.nanosecond == 0,
            r.offset_minutes is None,
    {
        Timestamp {
            precision: TimestampPrecision::Day,
            year,
            month,
            day,
            hour: 0,
            minute: 0,
            second: 0,
            nanosecond: 0,
            offset_minutes: None,
        }
    }

    /// Ion equivalence.
    pub fn timestamp_ion_equals(&self, other: &Timestamp) -> (r: bool)
        ensures
            r == timestamp_ion_eq(*self, *other),
    {
        let r = self.precision.rank();
        self.precision == other.precision && self.offset_minutes == other.offset_minutes
            && self.year == other.year && (r < 1 || self.month == other.month) && (r < 2
            || self.day == other.day) && (r < 3 || (self.hour == other.hour && self.minute
            == other.minute)) && (r < 4 || self.second == other.second) && (r < 5
            || self.nanosecond == other.nanosecond)
    }
}

} // verus!
