//! [`Power`] and [`Temperature`]: physical quantities carried as the IEEE 754
//! bit pattern of a single-precision value, so that every comparison the
//! library makes on them is exact.

use vstd::prelude::*;

verus! {

/// Bit pattern of the sign bit of a single-precision value.
pub const SIGN_BIT: u32 = 0x8000_0000;

/// Bit pattern of `-inf`, the most negative single-precision value.
pub const NEGATIVE_INFINITY_BITS: u32 = 0xff80_0000;

/// Bit pattern of `20.0`.
pub const TWENTY_BITS: u32 = 0x41a0_0000;

/// The bits that remain of `bits` once the sign bit is cleared.
pub open spec fn magnitude_bits(bits: u32) -> nat {
    (bits % 0x8000_0000) as nat
}

/// The biased exponent field (0 ..= 255).
pub open spec fn exponent_field(bits: u32) -> nat {
    magnitude_bits(bits) / 0x80_0000
}

/// The 23-bit fraction field.
pub open spec fn fraction_field(bits: u32) -> nat {
    magnitude_bits(bits) % 0x80_0000
}

/// The sign bit is set (this includes `-0.0` and NaNs with the sign bit).
pub open spec fn sign_set(bits: u32) -> bool {
    bits >= 0x8000_0000
}

/// `bits` encodes a NaN.
pub open spec fn is_nan_bits(bits: u32) -> bool {
    magnitude_bits(bits) > 0x7f80_0000
}

/// `bits` encodes `+inf` or `-inf`.
pub open spec fn is_infinite_bits(bits: u32) -> bool {
    magnitude_bits(bits) == 0x7f80_0000
}

/// `bits` encodes `+0.0` or `-0.0`.
pub open spec fn is_zero_bits(bits: u32) -> bool {
    magnitude_bits(bits) == 0
}

/// IEEE 754 `x < 0.0`: the sign bit is set, the value is not a zero and not a NaN.
pub open spec fn is_negative_bits(bits: u32) -> bool {
    0x8000_0000 < bits && bits <= 0xff80_0000
}

/// `bits` encodes a power: a number (not NaN) that is not below zero.
pub open spec fn is_power_bits(bits: u32) -> bool {
    !is_negative_bits(bits) && !is_nan_bits(bits)
}

/// IEEE 754 equality: NaN equals nothing, `+0.0` equals `-0.0`,
/// every other value equals exactly itself.
pub open spec fn float_eq(a: u32, b: u32) -> bool {
    &&& !is_nan_bits(a)
    &&& !is_nan_bits(b)
    &&& (a == b || (is_zero_bits(a) && is_zero_bits(b)))
}

/// Decides `is_negative_bits`.
pub fn negative_bits(bits: u32) -> (r: bool)
    ensures
        r == is_negative_bits(bits),
{
    SIGN_BIT < bits && bits <= NEGATIVE_INFINITY_BITS
}

/// Decides `is_nan_bits`.
pub fn nan_bits(bits: u32) -> (r: bool)
    ensures
        r == is_nan_bits(bits),
{
    bits % SIGN_BIT > 0x7f80_0000
}

/// Decides `float_eq`.
pub fn bits_eq(a: u32, b: u32) -> (r: bool)
    ensures
        r == float_eq(a, b),
{
    !nan_bits(a) && !nan_bits(b) && (a == b || (a % SIGN_BIT == 0 && b % SIGN_BIT == 0))
}

/// Device power in watts: a number, never negative.
#[derive(Debug, Clone, Copy)]
pub struct Power {
    watts: u32,
}

impl View for Power {
    type V = u32;

    /// The bit pattern of the power in watts.
    closed spec fn view(&self) -> u32 {
        self.watts
    }
}

impl Power {
    /// The invariant of a power: a number that is not negative.
    pub open spec fn wf(self) -> bool {
        is_power_bits(self@)
    }

    /// Creates a power from the bit pattern of its value in watts; a
    /// negative value or NaN is refused.
    pub fn new(watts: u32) -> (r: Result<Power, String>)
        ensures
            match r {
                Ok(p) => is_power_bits(watts) && p@ == watts,
                Err(e) => !is_power_bits(watts) && e@ == power_error_text(),
            },
    {
        if negative_bits(watts) || nan_bits(watts) {
            let msg = "Power cannot be negative";
            proof {
                reveal_strlit("Power cannot be negative");
            }
            return Err(msg.to_string());
        }
        Ok(Power { watts })
    }

    /// Creates a power without the sign check; the caller has checked it.
    pub(crate) fn new_unchecked(watts: u32) -> (r: Power)
        requires
            is_power_bits(watts),
        ensures
            r@ == watts,
    {
        Power { watts }
    }

    /// The bit pattern of the power in watts.
    pub fn watts(&self) -> (r: u32)
        ensures
            r == self@,
    {
        self.watts
    }

    /// Zero watts.
    pub fn zero() -> (r: Power)
        ensures
            r@ == 0,
    {
        Power { watts: 0 }
    }
}

/// The message with which [`Power::new`] refuses a negative value or NaN.
pub open spec fn power_error_text() -> Seq<char> {
    seq!['P', 'o', 'w', 'e', 'r', ' ', 'c', 'a', 'n', 'n', 'o', 't', ' ', 'b', 'e', ' ', 'n', 'e', 'g', 'a', 't', 'i', 'v', 'e']
}

impl Default for Power {
    fn default() -> (r: Power)
        ensures
            r@ == 0,
    {
        Power::zero()
    }
}

/// Powers compare as IEEE 754 values.
pub open spec fn power_eq(a: Power, b: Power) -> bool {
    float_eq(a@, b@)
}

impl PartialEq for Power {
    fn eq(&self, other: &Power) -> (r: bool) {
        let r = bits_eq(self.watts, other.watts);
        assert(r == float_eq(self@, other@));
        r
    }
}

impl vstd::std_specs::cmp::PartialEqSpecImpl for Power {
    open spec fn obeys_eq_spec() -> bool {
        true
    }

    open spec fn eq_spec(&self, other: &Power) -> bool {
        power_eq(*self, *other)
    }
}

/// Temperature in degrees Celsius.
#[derive(Debug, Clone, Copy)]
pub struct Temperature {
    celsius: u32,
}

impl View for Temperature {
    type V = u32;

    /// The bit pattern of the temperature in degrees Celsius.
    closed spec fn view(&self) -> u32 {
        self.celsius
    }
}

impl Temperature {
    /// A temperature from the bit pattern of its value in degrees Celsius.
    pub fn celsius(celsius: u32) -> (r: Temperature)
        ensures
            r@ == celsius,
    {
        Temperature { celsius }
    }

    /// The bit pattern of the temperature in degrees Celsius.
    pub fn as_celsius(&self) -> (r: u32)
        ensures
            r == self@,
    {
        self.celsius
    }
}

impl Default for Temperature {
    /// Room temperature, 20 degrees Celsius.
    fn default() -> (r: Temperature)
        ensures
            r@ == TWENTY_BITS,
    {
        Temperature { celsius: TWENTY_BITS }
    }
}

/// Temperatures compare as IEEE 754 values.
pub open spec fn temperature_eq(a: Temperature, b: Temperature) -> bool {
    float_eq(a@, b@)
}

impl PartialEq for Temperature {
    fn eq(&self, other: &Temperature) -> (r: bool) {
        let r = bits_eq(self.celsius, other.celsius);
        assert(r == float_eq(self@, other@));
        r
    }
}

impl vstd::std_specs::cmp::PartialEqSpecImpl for Temperature {
    open spec fn obeys_eq_spec() -> bool {
        true
    }

    open spec fn eq_spec(&self, other: &Temperature) -> bool {
        temperature_eq(*self, *other)
    }
}

} // verus!
