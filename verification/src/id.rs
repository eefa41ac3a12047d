//! ID and index primitives.

use vstd::prelude::*;

verus! {

/// The raw value of a null ID, whatever its salt.
pub const NULL_ID: u32 = 0xFFFF_FFFF;

/// The raw value of a null index.
pub const NULL_INDEX: u16 = 0xFFFF;

/// The upper half of the ID of `value` under `salt`: the salt mixed with the value, with the
/// uppermost bit set.
pub open spec fn salted(salt: u16, value: u16) -> u16 {
    (salt ^ value) | 0x8000u16
}

/// The raw value of the ID of `value` under `salt`: the salted half above the value.
pub open spec fn raw_id(salt: u16, value: u16) -> u32 {
    (salted(salt, value) * 0x1_0000 + value) as u32
}

/// Whether `id` is the raw value of an ID under `salt`.
pub open spec fn has_salt(salt: u16, id: u32) -> bool {
    id == raw_id(salt, (id % 0x1_0000) as u16)
}

/// ID primitive.
///
/// Can address up to 65536 items. `SALT` tells IDs of different tables apart: the upper half
/// of a raw ID is the salt mixed with the lower half, so a raw ID of one table is not one of
/// another. `0xFFFFFFFF` ([`NULL_ID`]) is the null ID for any salt.
#[derive(Copy, Clone, PartialEq, Eq, Debug)]
pub struct ID<const SALT: u16>(u32);

/// Represents a tag ID.
pub type TagID = ID<0x6174>;

/// Represents a script node ID.
pub type ScriptNodeID = ID<0x6373>;

/// Index type.
///
/// Can address up to 65535 elements. `0xFFFF` is treated as null.
#[derive(Copy, Clone, PartialEq, Eq, Structural, Debug)]
pub struct Index(pub u16);

/// Shifting the upper half into place and joining it with the lower half is the same as
/// multiplying and adding.
proof fn lemma_join_halves(upper: u16, lower: u16)
    ensures
        (upper as u32) << 16 | (lower as u32) == upper * 0x1_0000 + lower,
        upper * 0x1_0000 + lower <= u32::MAX,
{
    assert((upper as u32) << 16 | (lower as u32) == (upper as u32) * 0x1_0000u32 + (lower as u32))
        by (bit_vector);
}

/// The lower 16 bits of a raw value are its remainder by 65536, and keeping them is what a
/// cast to 16 bits does.
proof fn lemma_lower_half(raw: u32)
    ensures
        raw & 0xFFFFu32 == raw % 0x1_0000,
        raw as u16 == raw % 0x1_0000,
{
    assert(raw & 0xFFFFu32 == raw % 0x1_0000u32) by (bit_vector);
    assert(raw as u16 == raw % 0x1_0000u32) by (bit_vector);
}

/// A raw value is an ID under two salts only if the salts differ in nothing but the uppermost
/// bit.
pub proof fn lemma_salts_tell_apart(first: u16, second: u16, id: u32)
    requires
        has_salt(first, id),
        has_salt(second, id),
    ensures
        first % 0x8000 == second % 0x8000,
{
    let value = (id % 0x1_0000) as u16;
    let upper_first = salted(first, value);
    let upper_second = salted(second, value);
    assert(upper_first * 0x1_0000 + value == upper_second * 0x1_0000 + value);
    assert(upper_first == upper_second);
    assert(((first ^ value) | 0x8000u16) == ((second ^ value) | 0x8000u16) ==> first % 0x8000u16
        == second % 0x8000u16) by (bit_vector);
}

impl<const SALT: u16> ID<SALT> {
    /// The raw value of the ID.
    pub closed spec fn raw(self) -> u32 {
        self.0
    }

    /// Whether the ID is the null ID, or the ID of a value under `SALT`. Every ID is.
    pub open spec fn is_valid(self) -> bool {
        self.raw() == NULL_ID || has_salt(SALT, self.raw())
    }

    #[verifier::type_invariant]
    closed spec fn holds_valid(self) -> bool {
        self.0 == NULL_ID || has_salt(SALT, self.0)
    }

    /// What [`ID::from_u32`] makes of a raw value: the raw value of the ID, if there is one.
    pub open spec fn spec_from_u32(id: u32) -> Option<u32> {
        if id == 0 || id == NULL_ID {
            Some(NULL_ID)
        } else if has_salt(SALT, id) {
            Some(id)
        } else {
            None
        }
    }

    /// The position that the ID addresses: none for the null ID, else the lower half.
    pub open spec fn spec_index(self) -> Option<usize> {
        if self.raw() == NULL_ID {
            None
        } else {
            Some((self.raw() % 0x1_0000) as usize)
        }
    }

    /// Instantiate a null ID.
    pub fn new() -> (r: Self)
        ensures
            r.raw() == NULL_ID,
    {
        Self(NULL_ID)
    }

    /// Create an ID from an [`Index`].
    ///
    /// A null index will result in a null ID.
    pub fn from_index(index: Index) -> (r: Self)
        ensures
            r.raw() == match index.spec_index() {
                None => NULL_ID,
                Some(i) => raw_id(SALT, i as u16),
            },
            r.spec_index() == index.spec_index(),
            r.is_valid(),
    {
        let id = match index.index() {
            None => Self(NULL_ID),
            Some(i) => Self::id_from_index_value(i as u16),
        };
        proof {
            id.lemma_from_index_index(index);
        }
        id
    }

    /// Create an ID from a [`usize`].
    ///
    /// Returns `None` if `index` is out-of-bounds for an id.
    pub fn from_usize(index: usize) -> (r: Option<Self>)
        ensures
            r is Some <==> index <= u16::MAX,
            r matches Some(id) ==> id.raw() == raw_id(SALT, index as u16) && id.is_valid(),
            r matches Some(id) ==> id.spec_index() == if index == 0xFFFF && (SALT == 0 || SALT
                == 0x8000) {
                None
            } else {
                Some(index)
            },
    {
        if index > u16::MAX as usize {
            return None;
        }
        proof {
            Self::lemma_raw_id_index(index as u16);
        }
        Some(Self::id_from_index_value(index as u16))
    }

    /// Create an ID from a [`u32`].
    ///
    /// Zero and [`NULL_ID`] give the null ID. Returns `None` if `id` is neither and has the
    /// wrong salt.
    pub fn from_u32(id: u32) -> (r: Option<Self>)
        ensures
            match r {
                Some(x) => Self::spec_from_u32(id) == Some(x.raw()) && x.is_valid(),
                None => Self::spec_from_u32(id) is None,
            },
    {
        if id == 0 || id == NULL_ID {
            return Some(Self(NULL_ID));
        }
        proof {
            lemma_lower_half(id);
        }
        let index = Self::id_from_index_value(#[verifier::truncate] (id as u16));
        if index.as_u32() == id {
            Some(index)
        } else {
            None
        }
    }

    /// Returns the binary representation of the ID.
    pub fn as_u32(self) -> (r: u32)
        ensures
            r == self.raw(),
            self.is_valid(),
    {
        proof {
            use_type_invariant(self);
        }
        self.0
    }

    /// Returns true if null.
    pub fn is_null(self) -> (r: bool)
        ensures
            r == (self.raw() == NULL_ID),
    {
        self.0 == NULL_ID
    }

    /// Returns the ID as a [`usize`] index.
    pub fn index(self) -> (r: Option<usize>)
        ensures
            r == self.spec_index(),
    {
        if self.0 == NULL_ID {
            None
        } else {
            proof {
                lemma_lower_half(self.0);
            }
            Some((self.0 & 0xFFFF) as usize)
        }
    }

    /// The ID of `value` under `SALT`.
    fn id_from_index_value(value: u16) -> (r: Self)
        ensures
            r.raw() == raw_id(SALT, value),
            r.is_valid(),
    {
        let salt: u16 = (SALT ^ value) | 0x8000;
        proof {
            lemma_join_halves(salt, value);
        }
        Self((salt as u32) << 16 | (value as u32))
    }

    /// An ID made from a position addresses that position again, unless it came out as the
    /// null ID, which only the last position under the salts `0` and `0x8000` does.
    pub proof fn lemma_raw_id_index(value: u16)
        ensures
            raw_id(SALT, value) % 0x1_0000 == value,
            raw_id(SALT, value) / 0x1_0000 == salted(SALT, value),
            raw_id(SALT, value) >= 0x8000_0000,
            has_salt(SALT, raw_id(SALT, value)),
            raw_id(SALT, value) == NULL_ID <==> value == 0xFFFF && (SALT == 0 || SALT == 0x8000),
    {
        let upper = salted(SALT, value);
        assert(upper >= 0x8000 && (upper == 0xFFFF <==> (SALT ^ value) == 0xFFFF || (SALT ^ value)
            == 0x7FFF)) by {
            let mixed: u16 = SALT ^ value;
            assert(mixed | 0x8000u16 >= 0x8000u16) by (bit_vector);
            assert((mixed | 0x8000u16 == 0xFFFFu16) <==> (mixed == 0xFFFFu16 || mixed == 0x7FFFu16))
                by (bit_vector);
        }
        let salt: u16 = SALT;
        assert(value == 0xFFFFu16 ==> ((salt ^ value == 0xFFFFu16) <==> salt == 0u16) && ((salt
            ^ value == 0x7FFFu16) <==> salt == 0x8000u16)) by (bit_vector);
    }

    /// The raw value of an ID is taken back by [`ID::from_u32`] as it is.
    pub proof fn lemma_as_u32_from_u32(self)
        requires
            self.is_valid(),
        ensures
            Self::spec_from_u32(self.raw()) == Some(self.raw()),
    {
        if self.raw() != NULL_ID {
            Self::lemma_raw_id_index((self.raw() % 0x1_0000) as u16);
        }
    }

    /// An ID made from an index addresses the position that the index addresses.
    pub proof fn lemma_from_index_index(self, index: Index)
        requires
            self.raw() == match index.spec_index() {
                None => NULL_ID,
                Some(i) => raw_id(SALT, i as u16),
            },
        ensures
            self.spec_index() == index.spec_index(),
    {
        if index.spec_index() is Some {
            Self::lemma_raw_id_index(index.0);
        }
    }
}

impl<const SALT: u16> Default for ID<SALT> {
    /// The null ID.
    fn default() -> (r: Self)
        ensures
            r.raw() == NULL_ID,
    {
        Self::new()
    }
}

impl Index {
    /// The position that the index addresses: none for the null index.
    pub open spec fn spec_index(self) -> Option<usize> {
        if self.0 == NULL_INDEX {
            None
        } else {
            Some(self.0 as usize)
        }
    }

    /// Create a null index.
    pub fn new() -> (r: Self)
        ensures
            r == Index(NULL_INDEX),
    {
        Self(0xFFFF)
    }

    /// Instantiate an index from a [`usize`] index.
    ///
    /// Returns `None` if `index` is 65535 or more: 65535 is the null index, and anything
    /// higher does not fit in 16 bits.
    pub fn from_usize(index: usize) -> (r: Option<Self>)
        ensures
            r == if index < NULL_INDEX {
                Some(Index(index as u16))
            } else {
                None
            },
            r matches Some(i) ==> i.spec_index() == Some(index),
    {
        if index >= u16::MAX as usize {
            return None;
        }
        Some(Self(index as u16))
    }

    /// Returns true if null.
    pub fn is_null(self) -> (r: bool)
        ensures
            r == (self.0 == NULL_INDEX),
            r == (self.spec_index() is None),
    {
        self.0 == u16::MAX
    }

    /// Returns the value as a [`usize`] index.
    pub fn index(self) -> (r: Option<usize>)
        ensures
            r == self.spec_index(),
    {
        if self.is_null() {
            None
        } else {
            Some(self.0 as usize)
        }
    }
}

impl Default for Index {
    /// The null index.
    fn default() -> (r: Self)
        ensures
            r == Index(NULL_INDEX),
    {
        Self::new()
    }
}

} // verus!
