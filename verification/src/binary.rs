//! Fixed-width fields of the on-disk formats: little-endian integers and
//! zero-terminated names.

use byteorder::{LittleEndian, ReadBytesExt};
use vstd::prelude::*;
use vstd::slice::slice_subrange;
use vstd::utf8::{encode_utf8, valid_utf8};

verus! {

/// The unsigned number that four bytes hold, lowest byte first.
pub open spec fn le_u32(b: Seq<u8>) -> int
    recommends
        b.len() >= 4,
{
    b[0] as int + 256 * (b[1] as int) + 65536 * (b[2] as int) + 16777216 * (b[3] as int)
}

/// The signed number that four bytes hold, lowest byte first, in two's complement.
pub open spec fn le_i32(b: Seq<u8>) -> int
    recommends
        b.len() >= 4,
{
    if le_u32(b) < 0x8000_0000 {
        le_u32(b)
    } else {
        le_u32(b) - 0x1_0000_0000
    }
}

/// The bytes of a fixed-width name field up to its first zero byte, or
/// `None` where the field holds no zero byte.
pub open spec fn terminated_prefix(field: Seq<u8>) -> Option<Seq<u8>> {
    match field.index_of_first(0u8) {
        Some(end) => Some(field.take(end)),
        None => None,
    }
}

/// The name that a fixed-width field holds: the text before its first zero
/// byte. `None` where the field has no zero byte or the bytes before it are
/// not UTF-8.
pub open spec fn field_name(field: Seq<u8>) -> Option<Seq<char>> {
    match terminated_prefix(field) {
        Some(raw) => if valid_utf8(raw) {
            Some(vstd::utf8::decode_utf8(raw))
        } else {
            None
        },
        None => None,
    }
}

/// `ReadBytesExt::read_u32::<LittleEndian>` of byteorder, on a slice: the
/// first four bytes as an unsigned little-endian number, and nothing where
/// the slice is shorter than that.
#[verifier::external_body]
pub(crate) fn read_u32_le(bytes: &[u8]) -> (r: Option<u32>)
    ensures
        bytes@.len() >= 4 ==> r == Some(le_u32(bytes@) as u32),
        bytes@.len() < 4 ==> r is None,
{
    let mut source: &[u8] = bytes;
    source.read_u32::<LittleEndian>().ok()
}

/// `ReadBytesExt::read_i32::<LittleEndian>` of byteorder, on a slice: the
/// first four bytes as a signed little-endian number, and nothing where the
/// slice is shorter than that.
#[verifier::external_body]
pub(crate) fn read_i32_le(bytes: &[u8]) -> (r: Option<i32>)
    ensures
        bytes@.len() >= 4 ==> r == Some(le_i32(bytes@) as i32),
        bytes@.len() < 4 ==> r is None,
{
    let mut source: &[u8] = bytes;
    source.read_i32::<LittleEndian>().ok()
}

/// `ReadBytesExt::read_u8` of byteorder, on a slice: its first byte, and
/// nothing where the slice is empty.
#[verifier::external_body]
pub(crate) fn read_byte(bytes: &[u8]) -> (r: Option<u8>)
    ensures
        bytes@.len() >= 1 ==> r == Some(bytes@[0]),
        bytes@.len() < 1 ==> r is None,
{
    let mut source: &[u8] = bytes;
    source.read_u8().ok()
}

/// `std::str::from_utf8`, with the text copied into a `String`: the bytes
/// as text where they are valid UTF-8, and nothing where they are not.
#[verifier::external_body]
pub(crate) fn utf8_text(bytes: &[u8]) -> (r: Option<String>)
    ensures
        r is Some <==> valid_utf8(bytes@),
        r matches Some(text) ==> encode_utf8(text@) == bytes@,
{
    match std::str::from_utf8(bytes) {
        Ok(text) => Some(text.to_owned()),
        Err(_) => None,
    }
}

/// An element's first place in a sequence is the one before which it does
/// not occur.
pub(crate) proof fn lemma_index_of_first<T>(s: Seq<T>, needle: T, i: int)
    requires
        0 <= i < s.len(),
        s[i] == needle,
        forall|j: int| 0 <= j < i ==> s[j] != needle,
    ensures
        s.index_of_first(needle) == Some(i),
{
    s.index_of_first_ensures(needle);
    assert(s.contains(needle));
    let k = s.index_of_first(needle).unwrap();
    if k < i {
        assert(s[k] != needle);
    }
    if i < k {
        assert(s[i] != needle);
    }
}

/// An element that occurs nowhere in a sequence has no first place in it.
pub(crate) proof fn lemma_index_of_first_none<T>(s: Seq<T>, needle: T)
    requires
        forall|j: int| 0 <= j < s.len() ==> s[j] != needle,
    ensures
        s.index_of_first(needle) is None,
{
    s.index_of_first_ensures(needle);
}

/// An element's last place in a sequence is the one behind which it does
/// not occur.
pub(crate) proof fn lemma_index_of_last<T>(s: Seq<T>, needle: T, i: int)
    requires
        0 <= i < s.len(),
        s[i] == needle,
        forall|j: int| i < j < s.len() ==> s[j] != needle,
    ensures
        s.index_of_last(needle) == Some(i),
{
    s.index_of_last_ensures(needle);
    assert(s.contains(needle));
    let k = s.index_of_last(needle).unwrap();
    if k < i {
        assert(s[i] != needle);
    }
    if i < k {
        assert(s[k] != needle);
    }
}

/// An element that occurs nowhere in a sequence has no last place in it.
pub(crate) proof fn lemma_index_of_last_none<T>(s: Seq<T>, needle: T)
    requires
        forall|j: int| 0 <= j < s.len() ==> s[j] != needle,
    ensures
        s.index_of_last(needle) is None,
{
    s.index_of_last_ensures(needle);
}

/// In UTF-8, a character starts at every byte below 0x80 and directly
/// behind it.
pub(crate) proof fn lemma_boundary_at_ascii(bytes: Seq<u8>, i: int)
    requires
        valid_utf8(bytes),
        0 <= i < bytes.len(),
        bytes[i] < 0x80,
    ensures
        vstd::utf8::is_char_boundary(bytes, i),
        vstd::utf8::is_char_boundary(bytes, i + 1),
    decreases bytes.len(),
{
    vstd::utf8::is_char_boundary_iff_not_is_continuation_byte(bytes, i);
    if i < vstd::utf8::length_of_first_scalar(bytes) {
        reveal_with_fuel(vstd::utf8::is_char_boundary, 3);
        assert(i == 0);
    } else {
        lemma_boundary_at_ascii(
            vstd::utf8::pop_first_scalar(bytes),
            i - vstd::utf8::length_of_first_scalar(bytes),
        );
    }
}

/// Reads the name that a fixed-width field holds.
pub(crate) fn parse_name(field: &[u8]) -> (r: Option<String>)
    ensures
        match r {
            Some(name) => field_name(field@) == Some(name@),
            None => field_name(field@) is None,
        },
{
    let mut end: usize = 0;
    while end < field.len() && field[end] != 0
        invariant
            end <= field@.len(),
            forall|j: int| 0 <= j < end ==> field@[j] != 0,
        decreases field@.len() - end,
    {
        end = end + 1;
    }
    if end == field.len() {
        proof {
            lemma_index_of_first_none(field@, 0u8);
        }
        return None;
    }
    proof {
        lemma_index_of_first(field@, 0u8, end as int);
    }
    let raw = slice_subrange(field, 0, end);
    match utf8_text(raw) {
        Some(name) => {
            proof {
                vstd::utf8::encode_utf8_decode_utf8(name@);
            }
            Some(name)
        },
        None => None,
    }
}

/// Whether two texts are the same, character by character.
pub(crate) fn same_text(a: &str, b: &str) -> (r: bool)
    ensures
        r == (a@ == b@),
{
    let x = a.as_bytes();
    let y = b.as_bytes();
    proof {
        vstd::utf8::encode_utf8_decode_utf8(a@);
        vstd::utf8::encode_utf8_decode_utf8(b@);
    }
    if x.len() != y.len() {
        return false;
    }
    let mut i: usize = 0;
    while i < x.len()
        invariant
            i <= x@.len(),
            x@.len() == y@.len(),
            x@ == encode_utf8(a@),
            y@ == encode_utf8(b@),
            forall|j: int| 0 <= j < i ==> x@[j] == y@[j],
        decreases x@.len() - i,
    {
        if x[i] != y[i] {
            return false;
        }
        i = i + 1;
    }
    assert(x@ =~= y@);
    true
}

} // verus!
