//! Fixed-length ASCII strings.

use vstd::prelude::*;
use vstd::string::StringSliceAdditionalSpecFns;

verus! {

/// Whether a byte may stand in a string: an ASCII character that is no control character.
pub open spec fn is_text_byte(byte: u8) -> bool {
    0x20 <= byte <= 0x7E
}

/// The position of the first zero byte from `from` on, or the length if there is none.
pub open spec fn text_len_from(bytes: Seq<u8>, from: int) -> int
    decreases bytes.len() - from,
{
    if from < 0 || from >= bytes.len() || bytes[from] == 0 {
        from
    } else {
        text_len_from(bytes, from + 1)
    }
}

/// The length of the text in a buffer: the position of its first zero byte, or the length of
/// the buffer if there is none.
pub open spec fn text_len(bytes: Seq<u8>) -> int {
    text_len_from(bytes, 0)
}

/// The text in a buffer: the bytes before its first zero byte.
pub open spec fn text_of(bytes: Seq<u8>) -> Seq<u8> {
    Seq::new(text_len(bytes) as nat, |i: int| bytes[i])
}

/// Whether every byte of a text may stand in a string.
pub open spec fn is_text(text: Seq<u8>) -> bool {
    forall|i: int| 0 <= i < text.len() ==> is_text_byte(#[trigger] text[i])
}

/// The buffer of `len` bytes that holds `text`: the text, then zeros.
pub open spec fn held(text: Seq<u8>, len: int) -> Seq<u8> {
    Seq::new(
        len as nat,
        |i: int|
            if i < text.len() {
                text[i]
            } else {
                0u8
            },
    )
}

/// Whether a buffer holds a string: text of characters that may stand in one, then at least
/// one zero, and nothing but zeros up to the end.
pub open spec fn is_string(bytes: Seq<u8>) -> bool {
    &&& text_len(bytes) < bytes.len()
    &&& is_text(text_of(bytes))
    &&& bytes == held(text_of(bytes), bytes.len() as int)
}

/// The first zero byte from `from` on lies between `from` and the end of the buffer, no byte
/// before it is zero, and it is zero unless it is the end.
pub proof fn lemma_text_len_from(bytes: Seq<u8>, from: int)
    requires
        0 <= from <= bytes.len(),
    ensures
        from <= text_len_from(bytes, from) <= bytes.len(),
        forall|i: int| from <= i < text_len_from(bytes, from) ==> #[trigger] bytes[i] != 0,
        text_len_from(bytes, from) < bytes.len() ==> bytes[text_len_from(bytes, from)] == 0,
    decreases bytes.len() - from,
{
    if from < bytes.len() && bytes[from] != 0 {
        lemma_text_len_from(bytes, from + 1);
    }
}

/// A position with a zero byte and none before it is the length of the text.
pub proof fn lemma_text_len_is(bytes: Seq<u8>, n: int)
    requires
        0 <= n <= bytes.len(),
        forall|i: int| 0 <= i < n ==> #[trigger] bytes[i] != 0,
        n < bytes.len() ==> bytes[n] == 0,
    ensures
        text_len(bytes) == n,
{
    lemma_text_len_skip(bytes, 0, n);
}

/// Bytes that are not zero are passed over.
proof fn lemma_text_len_skip(bytes: Seq<u8>, from: int, to: int)
    requires
        0 <= from <= to <= bytes.len(),
        forall|i: int| from <= i < to ==> #[trigger] bytes[i] != 0,
    ensures
        text_len_from(bytes, from) == text_len_from(bytes, to),
    decreases to - from,
{
    if from < to {
        lemma_text_len_skip(bytes, from + 1, to);
    }
}

/// A buffer that holds text without a zero byte, and is longer than the text, has that text
/// again.
pub proof fn lemma_held_text(text: Seq<u8>, len: int)
    requires
        text.len() < len,
        forall|i: int| 0 <= i < text.len() ==> #[trigger] text[i] != 0,
    ensures
        text_len(held(text, len)) == text.len(),
        text_of(held(text, len)) == text,
        is_text(text) ==> is_string(held(text, len)),
{
    let buffer = held(text, len);
    lemma_text_len_is(buffer, text.len() as int);
    assert(text_of(buffer) =~= text);
}

/// The text of a buffer, held in a buffer that is longer than the text, is the text of that
/// buffer too.
pub proof fn lemma_text_of_held(bytes: Seq<u8>, len: int)
    requires
        text_len(bytes) < len,
    ensures
        text_of(held(text_of(bytes), len)) == text_of(bytes),
        is_text(text_of(bytes)) ==> is_string(held(text_of(bytes), len)),
{
    lemma_text_len_from(bytes, 0);
    lemma_held_text(text_of(bytes), len);
}

/// Null-terminated multi character ASCII string.
///
/// The buffer holds ASCII characters without control characters, then zeros: the text is
/// shorter than `LEN`, so that the last byte is always zero.
#[derive(Copy, Clone, Eq, PartialOrd, Ord, Debug)]
pub struct ASCIIString<const LEN: usize>([u8; LEN]);

/// Common string type used in tag data.
pub type String32 = ASCIIString<32>;

impl<const LEN: usize> View for ASCIIString<LEN> {
    type V = Seq<u8>;

    /// The `LEN` bytes of the buffer.
    closed spec fn view(&self) -> Seq<u8> {
        self.0@
    }
}

/// `core::str::from_utf8`: bytes that are valid UTF-8 are handed back as a string with those
/// bytes, and bytes below 128 are valid.
#[verifier::external_body]
fn str_from_utf8(bytes: &[u8]) -> (r: Option<&str>)
    ensures
        r matches Some(s) ==> s.spec_bytes() == bytes@,
        (forall|i: int| 0 <= i < bytes@.len() ==> bytes@[i] < 0x80) ==> r is Some,
{
    core::str::from_utf8(bytes).ok()
}

impl<const LEN: usize> ASCIIString<LEN> {
    #[verifier::type_invariant]
    closed spec fn holds_string(self) -> bool {
        LEN > 0 && is_string(self.0@)
    }

    /// The text of the string: the bytes before the first zero.
    pub open spec fn text(self) -> Seq<u8> {
        text_of(self@)
    }

    /// Instantiate an empty ASCIIString.
    pub fn new() -> (r: Self)
        requires
            LEN > 0,
        ensures
            r@ == held(Seq::<u8>::empty(), LEN as int),
            is_string(r@),
    {
        let bytes: [u8; LEN] = vstd::array::array_fill_for_copy_types(0u8);
        proof {
            lemma_held_text(Seq::<u8>::empty(), LEN as int);
            assert(bytes@ =~= held(Seq::<u8>::empty(), LEN as int));
        }
        Self(bytes)
    }

    /// Instantiate an ASCIIString from bytes.
    ///
    /// The text ends at the first zero byte, and what follows it is cleared. Returns `None`
    /// if the last byte is not zero, or if the text holds a control character or a byte that
    /// is not ASCII.
    pub fn from_bytes(bytes: [u8; LEN]) -> (r: Option<Self>)
        requires
            LEN > 0,
        ensures
            r is Some <==> bytes@[LEN - 1] == 0 && is_text(text_of(bytes@)),
            r matches Some(s) ==> s@ == held(text_of(bytes@), LEN as int) && is_string(s@),
            r matches Some(s) ==> s.text() == text_of(bytes@),
    {
        let mut buffer = bytes;
        if buffer[LEN - 1] != 0 {
            return None;
        }
        let mut q: usize = 0;
        while q < LEN && buffer[q] != 0
            invariant
                q <= LEN,
                buffer@ == bytes@,
                bytes@.len() == LEN,
                bytes@[LEN - 1] == 0,
                forall|i: int| 0 <= i < q ==> is_text_byte(#[trigger] bytes@[i]),
            decreases LEN - q,
        {
            let byte = buffer[q];
            if byte < 0x20 || byte > 0x7E {
                proof {
                    lemma_text_len_is_at_least(bytes@, q as int);
                    assert(text_of(bytes@)[q as int] == byte);
                }
                return None;
            }
            q += 1;
        }
        proof {
            lemma_text_len_is(bytes@, q as int);
        }
        let ghost text = text_of(bytes@);
        let end = q;
        while q < LEN
            invariant
                end <= q <= LEN,
                end < LEN,
                buffer@.len() == LEN,
                text.len() == end,
                forall|i: int| 0 <= i < end ==> text[i] == bytes@[i],
                forall|i: int| 0 <= i < end ==> buffer@[i] == bytes@[i],
                forall|i: int| end <= i < q ==> buffer@[i] == 0,
            decreases LEN - q,
        {
            buffer[q] = 0;
            q += 1;
        }
        proof {
            assert(buffer@ =~= held(text, LEN as int));
            lemma_text_of_held(bytes@, LEN as int);
        }
        Some(Self(buffer))
    }

    /// Instantiate an ASCIIString from a string.
    ///
    /// Returns `None` if the string does not leave room for the zero at the end, or if its
    /// text, which ends at its first zero byte, holds a control character or a byte that is
    /// not ASCII.
    pub fn from_str(str: &str) -> (r: Option<Self>)
        requires
            LEN > 0,
        ensures
            r is Some <==> str.spec_bytes().len() < LEN && is_text(text_of(str.spec_bytes())),
            r matches Some(s) ==> s@ == held(text_of(str.spec_bytes()), LEN as int) && is_string(
                s@,
            ),
            r matches Some(s) ==> s.text() == text_of(str.spec_bytes()),
    {
        let str_bytes = str.as_bytes();
        let len = str_bytes.len();
        if len >= LEN {
            return None;
        }
        let mut bytes: [u8; LEN] = vstd::array::array_fill_for_copy_types(0u8);
        let mut q: usize = 0;
        while q < len
            invariant
                q <= len,
                len == str_bytes@.len(),
                len < LEN,
                bytes@.len() == LEN,
                forall|i: int| 0 <= i < q ==> bytes@[i] == str_bytes@[i],
                forall|i: int| q <= i < LEN ==> bytes@[i] == 0,
            decreases len - q,
        {
            bytes[q] = str_bytes[q];
            q += 1;
        }
        proof {
            let given = str_bytes@;
            lemma_text_len_from(given, 0);
            let n = text_len(given);
            assert(bytes@ =~= held(given, LEN as int));
            assert forall|i: int| 0 <= i < n implies #[trigger] bytes@[i] != 0 by {
                assert(given[i] != 0);
            }
            lemma_text_len_is(bytes@, n);
            assert(text_of(bytes@) =~= text_of(given));
            lemma_text_of_held(given, LEN as int);
        }
        Self::from_bytes(bytes)
    }

    /// Get the full bytes buffer.
    pub fn bytes(&self) -> (r: &[u8; LEN])
        ensures
            r@ == self@,
    {
        &self.0
    }

    /// Get the length of the string.
    pub fn string_len(&self) -> (r: usize)
        ensures
            r == text_len(self@),
            r < LEN,
    {
        proof {
            use_type_invariant(self);
        }
        let mut q: usize = 0;
        while q < LEN && self.0[q] != 0
            invariant
                q <= LEN,
                self.0@.len() == LEN,
                forall|i: int| 0 <= i < q ==> #[trigger] self.0@[i] != 0,
            decreases LEN - q,
        {
            q += 1;
        }
        proof {
            lemma_text_len_is(self.0@, q as int);
        }
        q
    }

    /// Get the string data as a string.
    pub fn as_str(&self) -> (r: &str)
        ensures
            r.spec_bytes() == self.text(),
    {
        proof {
            use_type_invariant(self);
        }
        let len = self.string_len();
        let text = vstd::slice::slice_subrange(vstd::array::array_as_slice(&self.0), 0, len);
        proof {
            assert(text@ =~= self.text());
        }
        match str_from_utf8(text) {
            Some(s) => s,
            None => "",
        }
    }
}

impl<const LEN: usize> ASCIIString<LEN> {
    /// Tests whether the text of the string is the given string.
    pub fn eq_str(&self, other: &str) -> (r: bool)
        ensures
            r == (self.text() == other.spec_bytes()),
    {
        proof {
            use_type_invariant(self);
        }
        let len = self.string_len();
        let other_bytes = other.as_bytes();
        if other_bytes.len() != len {
            return false;
        }
        let mut q: usize = 0;
        while q < len
            invariant
                q <= len,
                len == text_len(self@),
                len < LEN,
                self.0@.len() == LEN,
                self@ == self.0@,
                other_bytes@ == other.spec_bytes(),
                other_bytes@.len() == len,
                forall|i: int| 0 <= i < q ==> self.0@[i] == other_bytes@[i],
            decreases len - q,
        {
            if self.0[q] != other_bytes[q] {
                proof {
                    assert(self.text()[q as int] != other.spec_bytes()[q as int]);
                }
                return false;
            }
            q += 1;
        }
        proof {
            assert(self.text() =~= other.spec_bytes());
        }
        true
    }
}

impl<const LEN: usize> PartialEq for ASCIIString<LEN> {
    /// Two strings are equal when their buffers are.
    fn eq(&self, other: &Self) -> (r: bool) {
        let mut q: usize = 0;
        while q < LEN
            invariant
                q <= LEN,
                self.0@.len() == LEN,
                other.0@.len() == LEN,
                forall|i: int| 0 <= i < q ==> self.0@[i] == other.0@[i],
            decreases LEN - q,
        {
            if self.0[q] != other.0[q] {
                return false;
            }
            q += 1;
        }
        proof {
            assert(self.0@ =~= other.0@);
        }
        true
    }
}

impl<const LEN: usize> vstd::std_specs::cmp::PartialEqSpecImpl for ASCIIString<LEN> {
    open spec fn obeys_eq_spec() -> bool {
        true
    }

    open spec fn eq_spec(&self, other: &Self) -> bool {
        self@ == other@
    }
}

impl<const LEN: usize> PartialEq<&str> for ASCIIString<LEN> {
    /// A string is equal to a `&str` when its text is the same.
    fn eq(&self, other: &&str) -> (r: bool) {
        self.eq_str(*other)
    }
}

impl<const LEN: usize> vstd::std_specs::cmp::PartialEqSpecImpl<&str> for ASCIIString<LEN> {
    open spec fn obeys_eq_spec() -> bool {
        true
    }

    open spec fn eq_spec(&self, other: &&str) -> bool {
        self.text() == other.spec_bytes()
    }
}

impl<const LEN: usize> PartialEq<str> for ASCIIString<LEN> {
    /// A string is equal to a `str` when its text is the same.
    fn eq(&self, other: &str) -> (r: bool) {
        self.eq_str(other)
    }
}

impl<const LEN: usize> vstd::std_specs::cmp::PartialEqSpecImpl<str> for ASCIIString<LEN> {
    open spec fn obeys_eq_spec() -> bool {
        true
    }

    open spec fn eq_spec(&self, other: &str) -> bool {
        self.text() == other.spec_bytes()
    }
}

impl<const LEN: usize> PartialEq<String> for ASCIIString<LEN> {
    /// A string is equal to a `String` when its text is the same.
    fn eq(&self, other: &String) -> (r: bool) {
        self.eq_str(other.as_str())
    }
}

impl<const LEN: usize> vstd::std_specs::cmp::PartialEqSpecImpl<String> for ASCIIString<LEN> {
    open spec fn obeys_eq_spec() -> bool {
        true
    }

    open spec fn eq_spec(&self, other: &String) -> bool {
        self.text() == vstd::utf8::encode_utf8(other@)
    }
}

/// No text is shorter than a run of bytes that are not zero.
proof fn lemma_text_len_is_at_least(bytes: Seq<u8>, n: int)
    requires
        0 <= n < bytes.len(),
        forall|i: int| 0 <= i <= n ==> #[trigger] bytes[i] != 0,
    ensures
        text_len(bytes) > n,
{
    lemma_text_len_skip(bytes, 0, n + 1);
    lemma_text_len_from(bytes, n + 1);
}

} // verus!
