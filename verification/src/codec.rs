//! The Borsh encoding of the values that are hashed and signed.

use vstd::bytes::{spec_u16_to_le_bytes, spec_u32_to_le_bytes, spec_u64_to_le_bytes};
use vstd::prelude::*;
use vstd::utf8::encode_utf8;

verus! {

/// The encoding of a byte string: its length as a 32-bit number, then its bytes.
pub open spec fn bytes_encoding(b: Seq<u8>) -> Seq<u8> {
    spec_u32_to_le_bytes(b.len() as u32) + b
}

/// The encoding of a string: that of its UTF-8 bytes.
pub open spec fn string_encoding(s: Seq<char>) -> Seq<u8> {
    bytes_encoding(encode_utf8(s))
}

/// The encoding of an optional string: a byte that says whether there is one,
/// then the string.
pub open spec fn option_string_encoding(s: Option<Seq<char>>) -> Seq<u8> {
    match s {
        None => seq![0u8],
        Some(s) => seq![1u8] + string_encoding(s),
    }
}

/// Whether a string is short enough to be encoded.
pub open spec fn string_fits(s: Seq<char>) -> bool {
    encode_utf8(s).len() <= u32::MAX
}

/// Whether an optional string is short enough to be encoded.
pub open spec fn option_string_fits(s: Option<Seq<char>>) -> bool {
    s matches Some(s) ==> string_fits(s)
}

/// The contents of an optional string.
pub open spec fn option_chars(s: Option<String>) -> Option<Seq<char>> {
    match s {
        None => None,
        Some(s) => Some(s@),
    }
}

/// A type with a Borsh encoding.
pub trait Encode {
    /// The bytes that stand for the value.
    spec fn encoding(&self) -> Seq<u8>;

    /// Whether every length in the value fits into the 32 bits that it gets.
    spec fn fits(&self) -> bool;

    /// Writes the value out as bytes.
    fn serialize_to_vec(&self) -> (r: Vec<u8>)
        requires
            self.fits(),
        ensures
            r@ == self.encoding(),
    ;
}

/// `borsh::to_vec` on a `u8`: the byte itself.
#[verifier::external_body]
pub(crate) fn u8_to_vec(x: u8) -> (r: Vec<u8>)
    ensures
        r@ == seq![x],
{
    borsh::to_vec(&x).unwrap()
}

/// `borsh::to_vec` on a `u16`: its bytes, the least significant first.
#[verifier::external_body]
pub(crate) fn u16_to_vec(x: u16) -> (r: Vec<u8>)
    ensures
        r@ == spec_u16_to_le_bytes(x),
{
    borsh::to_vec(&x).unwrap()
}

/// `borsh::to_vec` on a `u32`: its bytes, the least significant first.
#[verifier::external_body]
pub(crate) fn u32_to_vec(x: u32) -> (r: Vec<u8>)
    ensures
        r@ == spec_u32_to_le_bytes(x),
{
    borsh::to_vec(&x).unwrap()
}

/// `borsh::to_vec` on a `u64`: its bytes, the least significant first.
#[verifier::external_body]
pub(crate) fn u64_to_vec(x: u64) -> (r: Vec<u8>)
    ensures
        r@ == spec_u64_to_le_bytes(x),
{
    borsh::to_vec(&x).unwrap()
}

/// `borsh::to_vec` on an array of bytes: the bytes, without their number.
#[verifier::external_body]
pub(crate) fn array_to_vec<const N: usize>(x: &[u8; N]) -> (r: Vec<u8>)
    ensures
        r@ == x@,
{
    borsh::to_vec(x).unwrap()
}

/// `borsh::to_vec` on a vector of bytes: their number as a `u32`, then the bytes.
/// It is an error, and so left out, where the number does not fit.
#[verifier::external_body]
fn bytes_to_vec(x: &Vec<u8>) -> (r: Vec<u8>)
    requires
        x@.len() <= u32::MAX,
    ensures
        r@ == bytes_encoding(x@),
{
    borsh::to_vec(x).unwrap()
}

impl Encode for Vec<u8> {
    open spec fn encoding(&self) -> Seq<u8> {
        bytes_encoding(self@)
    }

    open spec fn fits(&self) -> bool {
        self@.len() <= u32::MAX
    }

    fn serialize_to_vec(&self) -> (r: Vec<u8>) {
        bytes_to_vec(self)
    }
}

/// `borsh::to_vec` on a `String`: the number of its UTF-8 bytes as a `u32`, then
/// these bytes. It is an error, and so left out, where the number does not fit.
#[verifier::external_body]
pub(crate) fn string_to_vec(x: &String) -> (r: Vec<u8>)
    requires
        string_fits(x@),
    ensures
        r@ == string_encoding(x@),
{
    borsh::to_vec(x).unwrap()
}

/// `borsh::to_vec` on an `Option<String>`: the byte 0, or the byte 1 and then the
/// string. It is an error, and so left out, where the string is too long.
#[verifier::external_body]
pub(crate) fn option_string_to_vec(x: &Option<String>) -> (r: Vec<u8>)
    requires
        option_string_fits(option_chars(*x)),
    ensures
        r@ == option_string_encoding(option_chars(*x)),
{
    borsh::to_vec(x).unwrap()
}

/// The bytes of `head`, then those of `tail`.
pub(crate) fn concat(head: Vec<u8>, tail: Vec<u8>) -> (r: Vec<u8>)
    ensures
        r@ == head@ + tail@,
{
    let mut head: Vec<u8> = head;
    let mut tail: Vec<u8> = tail;
    head.append(&mut tail);
    head
}

/// Where two sequences with equal starts are equal, so are what follows.
pub proof fn lemma_split<A>(a: Seq<A>, x: Seq<A>, b: Seq<A>, y: Seq<A>)
    requires
        a + x == b + y,
        a.len() == b.len(),
    ensures
        a == b,
        x == y,
{
    assert(a =~= (a + x).subrange(0, a.len() as int));
    assert(b =~= (b + y).subrange(0, b.len() as int));
    assert(x =~= (a + x).subrange(a.len() as int, (a + x).len() as int));
    assert(y =~= (b + y).subrange(b.len() as int, (b + y).len() as int));
}

/// The encoding of a byte string ends where its length says.
pub proof fn lemma_bytes_encoding_splits(a: Seq<u8>, x: Seq<u8>, b: Seq<u8>, y: Seq<u8>)
    requires
        a.len() <= u32::MAX,
        b.len() <= u32::MAX,
        bytes_encoding(a) + x == bytes_encoding(b) + y,
    ensures
        a == b,
        x == y,
{
    vstd::bytes::lemma_auto_spec_u32_to_from_le_bytes();
    let la = spec_u32_to_le_bytes(a.len() as u32);
    let lb = spec_u32_to_le_bytes(b.len() as u32);
    assert(bytes_encoding(a) + x =~= la + (a + x));
    assert(bytes_encoding(b) + y =~= lb + (b + y));
    lemma_split(la, a + x, lb, b + y);
    assert(vstd::bytes::spec_u32_from_le_bytes(la) == a.len() as u32);
    lemma_split(a, x, b, y);
}

/// The encoding of a string ends where its length says.
pub proof fn lemma_string_encoding_splits(a: Seq<char>, x: Seq<u8>, b: Seq<char>, y: Seq<u8>)
    requires
        string_fits(a),
        string_fits(b),
        string_encoding(a) + x == string_encoding(b) + y,
    ensures
        a == b,
        x == y,
{
    lemma_bytes_encoding_splits(encode_utf8(a), x, encode_utf8(b), y);
    vstd::utf8::encode_utf8_decode_utf8(a);
    vstd::utf8::encode_utf8_decode_utf8(b);
}

/// The encoding of an optional string ends where its first byte and its length say.
pub proof fn lemma_option_string_encoding_splits(
    a: Option<Seq<char>>,
    x: Seq<u8>,
    b: Option<Seq<char>>,
    y: Seq<u8>,
)
    requires
        option_string_fits(a),
        option_string_fits(b),
        option_string_encoding(a) + x == option_string_encoding(b) + y,
    ensures
        a == b,
        x == y,
{
    assert((option_string_encoding(a) + x)[0] == option_string_encoding(a)[0]);
    assert((option_string_encoding(b) + y)[0] == option_string_encoding(b)[0]);
    match (a, b) {
        (Some(s), Some(t)) => {
            let sx = string_encoding(s) + x;
            let ty = string_encoding(t) + y;
            assert(option_string_encoding(a) + x =~= seq![1u8] + sx);
            assert(option_string_encoding(b) + y =~= seq![1u8] + ty);
            lemma_split(seq![1u8], sx, seq![1u8], ty);
            lemma_string_encoding_splits(s, x, t, y);
        },
        (None, None) => {
            lemma_split(seq![0u8], x, seq![0u8], y);
        },
        _ => {},
    }
}

} // verus!
