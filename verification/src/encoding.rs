//! The byte layout of what gets hashed.
//!
//! Integers are written little-endian at their full width. An identifier is
//! written as the length of its UTF-8 text, a 64-bit integer, and then the
//! text itself. An optional identifier is one byte, 0 or 1, and the
//! identifier where there is one. Every value therefore says where it ends,
//! and a sequence of them can be read back in one way only.

use vstd::prelude::*;
use vstd::bytes::{
    lemma_auto_spec_u32_to_from_le_bytes, lemma_auto_spec_u64_to_from_le_bytes,
    spec_u32_to_le_bytes, spec_u64_to_le_bytes, u32_to_le_bytes, u64_to_le_bytes,
};
use vstd::utf8::{encode_utf8, encode_utf8_decode_utf8};
use crate::id::Id;

verus! {

/// An identifier as bytes: the length of its UTF-8 text, then the text.
pub open spec fn id_bytes(id: Seq<char>) -> Seq<u8> {
    spec_u64_to_le_bytes(encode_utf8(id).len() as u64) + encode_utf8(id)
}

/// An optional identifier as bytes: 0 for none, 1 and the identifier for one.
pub open spec fn optional_id_bytes(id: Option<Seq<char>>) -> Seq<u8> {
    match id {
        None => seq![0u8],
        Some(id) => seq![1u8] + id_bytes(id),
    }
}

/// Whether the UTF-8 text of an identifier is short enough for its length to
/// be written in 64 bits. Every identifier that fits in memory is.
pub open spec fn id_fits(id: Seq<char>) -> bool {
    encode_utf8(id).len() <= u64::MAX
}

/// Whether an optional identifier is none, or one that fits.
pub open spec fn optional_id_fits(id: Option<Seq<char>>) -> bool {
    match id {
        None => true,
        Some(id) => id_fits(id),
    }
}

/// Two byte sequences that are equal and start with parts of one length
/// start with the same part and go on with the same rest.
pub proof fn lemma_same_parts(a: Seq<u8>, after_a: Seq<u8>, b: Seq<u8>, after_b: Seq<u8>)
    requires
        a + after_a == b + after_b,
        a.len() == b.len(),
    ensures
        a == b,
        after_a == after_b,
{
    let whole = a + after_a;
    assert(a =~= whole.subrange(0, a.len() as int));
    assert(b =~= whole.subrange(0, a.len() as int));
    assert(after_a =~= whole.subrange(a.len() as int, whole.len() as int));
    assert(after_b =~= whole.subrange(a.len() as int, whole.len() as int));
}

/// A 32-bit integer can be read back from the front of the bytes that start
/// with it.
pub proof fn lemma_u32_delimited(x: u32, after_x: Seq<u8>, y: u32, after_y: Seq<u8>)
    requires
        spec_u32_to_le_bytes(x) + after_x == spec_u32_to_le_bytes(y) + after_y,
    ensures
        x == y,
        after_x == after_y,
{
    lemma_auto_spec_u32_to_from_le_bytes();
    lemma_same_parts(spec_u32_to_le_bytes(x), after_x, spec_u32_to_le_bytes(y), after_y);
}

/// A 64-bit integer can be read back from the front of the bytes that start
/// with it.
pub proof fn lemma_u64_delimited(x: u64, after_x: Seq<u8>, y: u64, after_y: Seq<u8>)
    requires
        spec_u64_to_le_bytes(x) + after_x == spec_u64_to_le_bytes(y) + after_y,
    ensures
        x == y,
        after_x == after_y,
{
    lemma_auto_spec_u64_to_from_le_bytes();
    lemma_same_parts(spec_u64_to_le_bytes(x), after_x, spec_u64_to_le_bytes(y), after_y);
}

/// An identifier can be read back from the front of the bytes that start
/// with it.
pub proof fn lemma_id_delimited(x: Seq<char>, after_x: Seq<u8>, y: Seq<char>, after_y: Seq<u8>)
    requires
        id_fits(x),
        id_fits(y),
        id_bytes(x) + after_x == id_bytes(y) + after_y,
    ensures
        x == y,
        after_x == after_y,
{
    let text_x = encode_utf8(x);
    let text_y = encode_utf8(y);
    assert(id_bytes(x) + after_x =~= spec_u64_to_le_bytes(text_x.len() as u64) + (text_x
        + after_x));
    assert(id_bytes(y) + after_y =~= spec_u64_to_le_bytes(text_y.len() as u64) + (text_y
        + after_y));
    lemma_u64_delimited(
        text_x.len() as u64,
        text_x + after_x,
        text_y.len() as u64,
        text_y + after_y,
    );
    lemma_same_parts(text_x, after_x, text_y, after_y);
    encode_utf8_decode_utf8(x);
    encode_utf8_decode_utf8(y);
}

/// An optional identifier can be read back from the front of the bytes that
/// start with it.
pub proof fn lemma_optional_id_delimited(
    x: Option<Seq<char>>,
    after_x: Seq<u8>,
    y: Option<Seq<char>>,
    after_y: Seq<u8>,
)
    requires
        optional_id_fits(x),
        optional_id_fits(y),
        optional_id_bytes(x) + after_x == optional_id_bytes(y) + after_y,
    ensures
        x == y,
        after_x == after_y,
{
    let whole = optional_id_bytes(x) + after_x;
    assert(whole[0] == optional_id_bytes(x)[0]);
    assert(whole[0] == optional_id_bytes(y)[0]);
    match (x, y) {
        (None, None) => {
            lemma_same_parts(seq![0u8], after_x, seq![0u8], after_y);
        },
        (Some(x), Some(y)) => {
            assert(whole =~= seq![1u8] + (id_bytes(x) + after_x));
            assert(whole =~= seq![1u8] + (id_bytes(y) + after_y));
            lemma_same_parts(seq![1u8], id_bytes(x) + after_x, seq![1u8], id_bytes(y) + after_y);
            lemma_id_delimited(x, after_x, y, after_y);
        },
        _ => {},
    }
}

/// Appends a 32-bit integer, little-endian.
pub(crate) fn put_u32(out: &mut Vec<u8>, x: u32)
    ensures
        final(out)@ == old(out)@ + spec_u32_to_le_bytes(x),
{
    let mut bytes = u32_to_le_bytes(x);
    out.append(&mut bytes);
}

/// Appends a 64-bit integer, little-endian.
pub(crate) fn put_u64(out: &mut Vec<u8>, x: u64)
    ensures
        final(out)@ == old(out)@ + spec_u64_to_le_bytes(x),
{
    let mut bytes = u64_to_le_bytes(x);
    out.append(&mut bytes);
}

/// Appends an identifier.
pub(crate) fn put_id(out: &mut Vec<u8>, id: &Id)
    ensures
        final(out)@ == old(out)@ + id_bytes(id@),
        id_fits(id@),
{
    let mut text = id.to_bytes();
    put_u64(out, text.len() as u64);
    out.append(&mut text);
    assert(out@ =~= old(out)@ + id_bytes(id@));
}

/// Appends an optional identifier.
pub(crate) fn put_optional_id(out: &mut Vec<u8>, id: &Option<Id>)
    ensures
        final(out)@ == old(out)@ + optional_id_bytes(
            match *id {
                Some(id) => Some(id@),
                None => None,
            },
        ),
        optional_id_fits(
            match *id {
                Some(id) => Some(id@),
                None => None,
            },
        ),
{
    match id {
        None => {
            out.push(0u8);
            assert(out@ =~= old(out)@ + seq![0u8]);
        },
        Some(id) => {
            out.push(1u8);
            put_id(out, id);
            assert(out@ =~= old(out)@ + (seq![1u8] + id_bytes(id@)));
        },
    }
}

} // verus!
