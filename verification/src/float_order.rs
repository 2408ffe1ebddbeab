use vstd::prelude::*;

verus! {

/// The sign bit of an IEEE 754 double.
pub const SIGN_BIT: u64 = 0x8000_0000_0000_0000;

/// The magnitude bits (all but the sign) of an infinite double.
pub const INFINITY_MAGNITUDE: u64 = 0x7ff0_0000_0000_0000;

/// Whether the sign bit of the double with these bits is set.
pub open spec fn sign_negative(bits: u64) -> bool {
    bits >= SIGN_BIT
}

/// The bits of the double without its sign bit: the magnitude, ordered as the
/// absolute values of the non-NaN doubles are.
pub open spec fn magnitude(bits: u64) -> int {
    if sign_negative(bits) {
        bits - SIGN_BIT
    } else {
        bits as int
    }
}

/// Whether the double with these bits is a NaN.
pub open spec fn bits_nan(bits: u64) -> bool {
    magnitude(bits) > INFINITY_MAGNITUDE
}

/// Whether the double with these bits is finite (zero, subnormal or normal).
pub open spec fn bits_finite(bits: u64) -> bool {
    magnitude(bits) < INFINITY_MAGNITUDE
}

/// IEEE 754 `<` between the doubles with bit patterns `a` and `b`.
pub open spec fn ieee_lt(a: u64, b: u64) -> bool {
    &&& !bits_nan(a)
    &&& !bits_nan(b)
    &&& if !sign_negative(a) && !sign_negative(b) {
        magnitude(a) < magnitude(b)
    } else if sign_negative(a) && sign_negative(b) {
        magnitude(a) > magnitude(b)
    } else if sign_negative(a) {
        // a negative and b positive: only the two zeros compare equal
        !(magnitude(a) == 0 && magnitude(b) == 0)
    } else {
        false
    }
}

/// IEEE 754 `==` between the doubles with bit patterns `a` and `b`.
pub open spec fn ieee_eq(a: u64, b: u64) -> bool {
    &&& !bits_nan(a)
    &&& !bits_nan(b)
    &&& (a == b || (magnitude(a) == 0 && magnitude(b) == 0))
}

/// IEEE 754 `<=` between the doubles with bit patterns `a` and `b`.
pub open spec fn ieee_le(a: u64, b: u64) -> bool {
    ieee_lt(a, b) || ieee_eq(a, b)
}

/// An ordering key for a double: NaN, which compares with nothing, or the
/// signed magnitude of the value, which orders as the doubles do.
#[derive(Debug, Clone, Copy, PartialEq, Eq)]
pub enum FloatKey {
    NotANumber,
    Ordered(i64),
}

/// `a < b` on keys: false as soon as one of them is NaN.
pub open spec fn key_lt(a: FloatKey, b: FloatKey) -> bool {
    match (a, b) {
        (FloatKey::Ordered(x), FloatKey::Ordered(y)) => x < y,
        _ => false,
    }
}

/// `a <= b` on keys: false as soon as one of them is NaN.
pub open spec fn key_le(a: FloatKey, b: FloatKey) -> bool {
    match (a, b) {
        (FloatKey::Ordered(x), FloatKey::Ordered(y)) => x <= y,
        _ => false,
    }
}

/// The key of the double with bit pattern `bits`.
pub open spec fn key_of_bits(bits: u64) -> FloatKey {
    if bits_nan(bits) {
        FloatKey::NotANumber
    } else if sign_negative(bits) {
        FloatKey::Ordered((-magnitude(bits)) as i64)
    } else {
        FloatKey::Ordered(magnitude(bits) as i64)
    }
}

/// The key of negative infinity.
pub open spec fn neg_infinity_key() -> FloatKey {
    FloatKey::Ordered(-(INFINITY_MAGNITUDE as int) as i64)
}

impl FloatKey {
    /// The key of the double whose bit pattern (`f64::to_bits`) is `bits`.
    pub fn from_bits(bits: u64) -> (key: FloatKey)
        ensures
            key == key_of_bits(bits),
    {
        if bits >= SIGN_BIT {
            let m = bits - SIGN_BIT;
            if m > INFINITY_MAGNITUDE {
                FloatKey::NotANumber
            } else {
                FloatKey::Ordered(-(m as i64))
            }
        } else if bits > INFINITY_MAGNITUDE {
            FloatKey::NotANumber
        } else {
            FloatKey::Ordered(bits as i64)
        }
    }

    /// The key of negative infinity.
    pub fn neg_infinity() -> (key: FloatKey)
        ensures
            key == neg_infinity_key(),
            key == key_of_bits(0xfff0_0000_0000_0000),
    {
        FloatKey::Ordered(-0x7ff0_0000_0000_0000i64)
    }

    /// Whether this key belongs to a NaN.
    pub fn is_nan(&self) -> (r: bool)
        ensures
            r == (*self == FloatKey::NotANumber),
    {
        match self {
            FloatKey::NotANumber => true,
            FloatKey::Ordered(_) => false,
        }
    }

    /// `self < other`, as the doubles compare.
    pub fn lt(&self, other: &FloatKey) -> (r: bool)
        ensures
            r == key_lt(*self, *other),
    {
        match (self, other) {
            (FloatKey::Ordered(x), FloatKey::Ordered(y)) => *x < *y,
            _ => false,
        }
    }

    /// `self <= other`, as the doubles compare.
    pub fn le(&self, other: &FloatKey) -> (r: bool)
        ensures
            r == key_le(*self, *other),
    {
        match (self, other) {
            (FloatKey::Ordered(x), FloatKey::Ordered(y)) => *x <= *y,
            _ => false,
        }
    }
}

/// Whether the double with bit pattern `bits` is finite.
pub fn is_finite_bits(bits: u64) -> (r: bool)
    ensures
        r == bits_finite(bits),
{
    if bits >= SIGN_BIT {
        bits - SIGN_BIT < INFINITY_MAGNITUDE
    } else {
        bits < INFINITY_MAGNITUDE
    }
}

/// Keys compare exactly as the doubles do: `<`, `<=` and `==` of IEEE 754,
/// with NaN comparing with nothing.
pub proof fn lemma_key_order_is_ieee_order(a: u64, b: u64)
    ensures
        key_lt(key_of_bits(a), key_of_bits(b)) == ieee_lt(a, b),
        key_le(key_of_bits(a), key_of_bits(b)) == ieee_le(a, b),
        (key_le(key_of_bits(a), key_of_bits(b)) && key_le(key_of_bits(b), key_of_bits(a)))
            == ieee_eq(a, b),
{
}

} // verus!

verus! {

/// `r` is the first position of the largest comparable (non-NaN) key of `keys`.
pub open spec fn is_first_maximum(keys: Seq<FloatKey>, r: int) -> bool {
    &&& 0 <= r < keys.len()
    &&& keys[r] is Ordered
    &&& forall|j: int| 0 <= j < keys.len() && keys[j] is Ordered ==> key_le(keys[j], keys[r])
    &&& forall|j: int| 0 <= j < r && keys[j] is Ordered ==> key_lt(keys[j], keys[r])
}

/// There is at most one first position of the largest comparable key.
pub proof fn lemma_first_maximum_unique(keys: Seq<FloatKey>, r: int, s: int)
    requires
        is_first_maximum(keys, r),
        is_first_maximum(keys, s),
    ensures
        r == s,
{
    if r < s {
        assert(key_lt(keys[r], keys[s]));
        assert(key_le(keys[s], keys[r]));
    } else if s < r {
        assert(key_lt(keys[s], keys[r]));
        assert(key_le(keys[r], keys[s]));
    }
}

/// The keys of a sequence of doubles, given by their bit patterns.
pub open spec fn keys_of_bits(values: Seq<u64>) -> Seq<FloatKey> {
    values.map_values(|b: u64| key_of_bits(b))
}

/// Choosing the first largest key chooses the first greatest double in IEEE
/// order: it is not NaN, no comparable double exceeds it, and every
/// comparable double before it is smaller.
pub proof fn lemma_first_maximum_of_doubles(values: Seq<u64>, r: int)
    requires
        is_first_maximum(keys_of_bits(values), r),
    ensures
        !bits_nan(values[r]),
        forall|j: int|
            0 <= j < values.len() && !bits_nan(values[j]) ==> ieee_le(values[j], values[r]),
        forall|j: int| 0 <= j < r && !bits_nan(values[j]) ==> ieee_lt(values[j], values[r]),
{
    let keys = keys_of_bits(values);
    assert(keys[r] == key_of_bits(values[r]));
    assert forall|j: int| 0 <= j < values.len() && !bits_nan(values[j]) implies ieee_le(
        values[j],
        values[r],
    ) by {
        assert(keys[j] == key_of_bits(values[j]));
        lemma_key_order_is_ieee_order(values[j], values[r]);
    }
    assert forall|j: int| 0 <= j < r && !bits_nan(values[j]) implies ieee_lt(
        values[j],
        values[r],
    ) by {
        assert(keys[j] == key_of_bits(values[j]));
        lemma_key_order_is_ieee_order(values[j], values[r]);
    }
}

} // verus!
