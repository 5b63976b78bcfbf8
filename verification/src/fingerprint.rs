//! Content fingerprints (ETags) for resources.
//!
//! A resource's fingerprint is an opaque quoted tag derived deterministically
//! from its canonical serialized form: every API-visible field is encoded
//! into a byte sequence (strings as length-prefixed UTF-8, integers as
//! fixed-width little-endian words, optional fields behind a presence byte),
//! the bytes are checksummed, and the checksum is rendered as eight
//! lowercase hex digits between double quotes.
//!
//! The canonical encoding itself is injective (see
//! [`lemma_event_canon_injective`]); the only possible tag collisions are
//! checksum collisions, which this design accepts at its low volumes.

use vstd::prelude::*;
use vstd::bytes::{lemma_auto_spec_u64_to_from_le_bytes, spec_u64_to_le_bytes, u64_to_le_bytes};
use vstd::utf8::{encode_utf8, encode_utf8_decode_utf8};
use crate::models::event::{Event, EventView};
use crate::models::merges::{TimelineMerge, TimelineMergeView};

verus! {

/// The CRC-32 checksum of a byte sequence, as the checksum routine
/// computes it. The result depends on the bytes alone; no short formula
/// states it, so it is only named here.
pub uninterp spec fn crc32_of(bytes: Seq<u8>) -> u32;

/// Relies on crc32fast::hash: the CRC-32 checksum of exactly the given
/// bytes, a pure function of its input.
#[verifier::external_body]
fn crc32(bytes: &Vec<u8>) -> (r: u32)
    ensures
        r == crc32_of(bytes@),
{
    crc32fast::hash(bytes.as_slice())
}

/// A string field in canonical form: the length of its UTF-8 encoding as
/// eight little-endian bytes, then the encoding itself.
pub open spec fn str_field(s: Seq<char>) -> Seq<u8> {
    spec_u64_to_le_bytes(encode_utf8(s).len() as u64) + encode_utf8(s)
}

/// An optional string field in canonical form: a presence byte, then the
/// field itself when present.
pub open spec fn opt_str_field(o: Option<Seq<char>>) -> Seq<u8> {
    match o {
        None => seq![0u8],
        Some(s) => seq![1u8] + str_field(s),
    }
}

/// A signed integer field in canonical form: its eight little-endian bytes.
pub open spec fn int_field(v: int) -> Seq<u8> {
    spec_u64_to_le_bytes(v as u64)
}

/// The canonical serialized form of an event: its API-visible fields in
/// declaration order.
pub open spec fn event_canon(v: EventView) -> Seq<u8> {
    int_field(v.id) + str_field(v.name) + str_field(v.description) + str_field(v.reference)
        + opt_str_field(v.image) + opt_str_field(v.thumbnail) + int_field(v.author_id)
}

/// A resource that has a canonical serialized form and can produce it.
pub trait Fingerprintable {
    /// The canonical serialized form of this resource.
    spec fn canon(&self) -> Seq<u8>;

    /// Produce the canonical serialized form.
    fn canonical_bytes(&self) -> (out: Vec<u8>)
        ensures
            out@ == self.canon(),
    ;
}

/// Append a `u64` as eight little-endian bytes.
fn push_u64_le(out: &mut Vec<u8>, v: u64)
    ensures
        final(out)@ == old(out)@ + spec_u64_to_le_bytes(v),
{
    let mut bytes = u64_to_le_bytes(v);
    out.append(&mut bytes);
}

/// Append a string field in canonical form.
fn push_str_field(out: &mut Vec<u8>, s: &String)
    ensures
        final(out)@ == old(out)@ + str_field(s@),
{
    let bytes: &[u8] = s.as_str().as_bytes();
    push_u64_le(out, bytes.len() as u64);
    out.extend_from_slice(bytes);
}

/// Append an optional string field in canonical form.
fn push_opt_str_field(out: &mut Vec<u8>, o: &Option<String>)
    ensures
        final(out)@ == old(out)@ + opt_str_field(crate::models::event::opt_string_view(*o)),
{
    match o {
        None => {
            out.push(0u8);
            proof {
                assert(final(out)@ =~= old(out)@ + seq![0u8]);
            }
        },
        Some(s) => {
            out.push(1u8);
            proof {
                assert(out@ =~= old(out)@ + seq![1u8]);
            }
            push_str_field(out, s);
            proof {
                assert(final(out)@ =~= old(out)@ + (seq![1u8] + str_field(s@)));
            }
        },
    }
}

impl Fingerprintable for Event {
    open spec fn canon(&self) -> Seq<u8> {
        event_canon(self@)
    }

    fn canonical_bytes(&self) -> (out: Vec<u8>)
        ensures
            out@ == self.canon(),
    {
        let mut out: Vec<u8> = Vec::new();
        push_u64_le(&mut out, self.id as u64);
        push_str_field(&mut out, &self.name);
        push_str_field(&mut out, &self.description);
        push_str_field(&mut out, &self.reference);
        push_opt_str_field(&mut out, &self.image);
        push_opt_str_field(&mut out, &self.thumbnail);
        push_u64_le(&mut out, self.author_id as u64);
        proof {
            assert(out@ =~= event_canon(self@));
        }
        out
    }
}

/// The canonical serialized form of a merge record, for the tag a merge
/// response exposes.
pub open spec fn merge_canon(v: TimelineMergeView) -> Seq<u8> {
    int_field(v.id) + int_field(v.source_timeline_id) + int_field(v.target_timeline_id)
        + str_field(v.merged_at)
}

impl Fingerprintable for TimelineMerge {
    open spec fn canon(&self) -> Seq<u8> {
        merge_canon(self@)
    }

    fn canonical_bytes(&self) -> (out: Vec<u8>)
        ensures
            out@ == self.canon(),
    {
        let mut out: Vec<u8> = Vec::new();
        push_u64_le(&mut out, self.id as u64);
        push_u64_le(&mut out, self.source_timeline_id as u64);
        push_u64_le(&mut out, self.target_timeline_id as u64);
        push_str_field(&mut out, &self.merged_at);
        proof {
            assert(out@ =~= merge_canon(self@));
        }
        out
    }
}

/// The hex digit for a nibble.
pub open spec fn hex_char(n: u32) -> char {
    if n == 0 { '0' } else if n == 1 { '1' } else if n == 2 { '2' } else if n == 3 { '3' }
    else if n == 4 { '4' } else if n == 5 { '5' } else if n == 6 { '6' } else if n == 7 { '7' }
    else if n == 8 { '8' } else if n == 9 { '9' } else if n == 10 { 'a' } else if n == 11 { 'b' }
    else if n == 12 { 'c' } else if n == 13 { 'd' } else if n == 14 { 'e' } else { 'f' }
}

/// The tag text for a checksum: eight hex digits, most significant nibble
/// first, between double quotes.
pub open spec fn tag_chars(crc: u32) -> Seq<char> {
    seq![
        '"',
        hex_char((crc >> 28) & 0xf),
        hex_char((crc >> 24) & 0xf),
        hex_char((crc >> 20) & 0xf),
        hex_char((crc >> 16) & 0xf),
        hex_char((crc >> 12) & 0xf),
        hex_char((crc >> 8) & 0xf),
        hex_char((crc >> 4) & 0xf),
        hex_char(crc & 0xf),
        '"',
    ]
}

/// The fingerprint tag of a canonical byte sequence.
pub open spec fn spec_etag(bytes: Seq<u8>) -> Seq<char> {
    tag_chars(crc32_of(bytes))
}

/// One lowercase hex digit as a string slice.
fn hex_str(n: u32) -> (s: &'static str)
    requires
        n < 16,
    ensures
        s@ == seq![hex_char(n)],
{
    proof {
        reveal_strlit("0");
        reveal_strlit("1");
        reveal_strlit("2");
        reveal_strlit("3");
        reveal_strlit("4");
        reveal_strlit("5");
        reveal_strlit("6");
        reveal_strlit("7");
        reveal_strlit("8");
        reveal_strlit("9");
        reveal_strlit("a");
        reveal_strlit("b");
        reveal_strlit("c");
        reveal_strlit("d");
        reveal_strlit("e");
        reveal_strlit("f");
    }
    let s: &'static str = if n == 0 { "0" } else if n == 1 { "1" } else if n == 2 { "2" }
    else if n == 3 { "3" } else if n == 4 { "4" } else if n == 5 { "5" } else if n == 6 { "6" }
    else if n == 7 { "7" } else if n == 8 { "8" } else if n == 9 { "9" } else if n == 10 { "a" }
    else if n == 11 { "b" } else if n == 12 { "c" } else if n == 13 { "d" } else if n == 14 { "e" }
    else { "f" };
    proof {
        assert(s@ =~= seq![hex_char(n)]);
    }
    s
}

/// Render a checksum as its quoted tag text.
fn tag_string(crc: u32) -> (t: String)
    ensures
        t@ == tag_chars(crc),
{
    proof {
        reveal_strlit("\"");
        assert((crc >> 28) & 0xf < 16 && (crc >> 24) & 0xf < 16 && (crc >> 20) & 0xf < 16
            && (crc >> 16) & 0xf < 16 && (crc >> 12) & 0xf < 16 && (crc >> 8) & 0xf < 16
            && (crc >> 4) & 0xf < 16 && crc & 0xf < 16) by (bit_vector);
    }
    let mut t = String::from_str("\"");
    t.append(hex_str((crc >> 28) & 0xf));
    t.append(hex_str((crc >> 24) & 0xf));
    t.append(hex_str((crc >> 20) & 0xf));
    t.append(hex_str((crc >> 16) & 0xf));
    t.append(hex_str((crc >> 12) & 0xf));
    t.append(hex_str((crc >> 8) & 0xf));
    t.append(hex_str((crc >> 4) & 0xf));
    t.append(hex_str(crc & 0xf));
    t.append("\"");
    proof {
        assert(t@ =~= tag_chars(crc));
    }
    t
}

/// Compute the fingerprint tag of a resource from its current content.
///
/// Deterministic and side-effect-free: the result is a function of the
/// resource's canonical serialized form alone.
pub fn make_etag<T: Fingerprintable>(value: &T) -> (etag: String)
    ensures
        etag@ == spec_etag(value.canon()),
{
    let bytes = value.canonical_bytes();
    let crc = crc32(&bytes);
    tag_string(crc)
}

/// Fingerprint determinism: structurally identical resources have
/// identical canonical forms, and therefore identical fingerprint tags,
/// on every call and in every process.
pub proof fn lemma_fingerprint_deterministic(a: Event, b: Event)
    requires
        a@ == b@,
    ensures
        event_canon(a@) == event_canon(b@),
        spec_etag(event_canon(a@)) == spec_etag(event_canon(b@)),
{
}

/// The machine-size side conditions under which the canonical encoding
/// is injective: integer fields fit in 64 bits and each string's UTF-8
/// encoding fits the 64-bit length prefix. Every value the executable
/// types can hold satisfies them.
pub open spec fn canon_bounded(v: EventView) -> bool {
    &&& -0x8000000000000000 <= v.id < 0x8000000000000000
    &&& -0x8000000000000000 <= v.author_id < 0x8000000000000000
    &&& encode_utf8(v.name).len() < 0x10000000000000000
    &&& encode_utf8(v.description).len() < 0x10000000000000000
    &&& encode_utf8(v.reference).len() < 0x10000000000000000
    &&& (v.image is Some ==> encode_utf8(v.image->0).len() < 0x10000000000000000)
    &&& (v.thumbnail is Some ==> encode_utf8(v.thumbnail->0).len() < 0x10000000000000000)
}

/// Two equal byte streams that both start with an eight-byte word carry
/// the same word and the same remainder.
proof fn lemma_le64_cancel(x: u64, y: u64, r1: Seq<u8>, r2: Seq<u8>)
    requires
        spec_u64_to_le_bytes(x) + r1 == spec_u64_to_le_bytes(y) + r2,
    ensures
        x == y,
        r1 == r2,
{
    lemma_auto_spec_u64_to_from_le_bytes();
    let s1 = spec_u64_to_le_bytes(x);
    let s2 = spec_u64_to_le_bytes(y);
    assert(s1 =~= (s1 + r1).subrange(0, 8));
    assert(s2 =~= (s2 + r2).subrange(0, 8));
    assert(s1 == s2);
    assert(r1 =~= (s1 + r1).subrange(8, (s1 + r1).len() as int));
    assert(r2 =~= (s2 + r2).subrange(8, (s2 + r2).len() as int));
}

/// Two equal byte streams that both start with an integer field carry
/// the same integer and the same remainder.
proof fn lemma_int_field_cancel(x: int, y: int, r1: Seq<u8>, r2: Seq<u8>)
    requires
        int_field(x) + r1 == int_field(y) + r2,
        -0x8000000000000000 <= x < 0x8000000000000000,
        -0x8000000000000000 <= y < 0x8000000000000000,
    ensures
        x == y,
        r1 == r2,
{
    lemma_le64_cancel(x as u64, y as u64, r1, r2);
    let xi: i64 = x as i64;
    let yi: i64 = y as i64;
    assert(xi == x && yi == y);
    assert(xi as u64 == x as u64 && yi as u64 == y as u64);
    assert(xi as u64 == yi as u64 ==> xi == yi) by (bit_vector);
}

/// Two equal byte streams that both start with a length-prefixed string
/// field carry the same string and the same remainder.
proof fn lemma_str_field_cancel(s1: Seq<char>, s2: Seq<char>, r1: Seq<u8>, r2: Seq<u8>)
    requires
        str_field(s1) + r1 == str_field(s2) + r2,
        encode_utf8(s1).len() < 0x10000000000000000,
        encode_utf8(s2).len() < 0x10000000000000000,
    ensures
        s1 == s2,
        r1 == r2,
{
    let e1 = encode_utf8(s1);
    let e2 = encode_utf8(s2);
    let n1 = e1.len() as u64;
    let n2 = e2.len() as u64;
    assert(str_field(s1) + r1 =~= spec_u64_to_le_bytes(n1) + (e1 + r1));
    assert(str_field(s2) + r2 =~= spec_u64_to_le_bytes(n2) + (e2 + r2));
    lemma_le64_cancel(n1, n2, e1 + r1, e2 + r2);
    assert(e1.len() == e2.len());
    assert(e1 =~= (e1 + r1).subrange(0, e1.len() as int));
    assert(e2 =~= (e2 + r2).subrange(0, e2.len() as int));
    assert(e1 == e2);
    encode_utf8_decode_utf8(s1);
    encode_utf8_decode_utf8(s2);
    assert(r1 =~= (e1 + r1).subrange(e1.len() as int, (e1 + r1).len() as int));
    assert(r2 =~= (e2 + r2).subrange(e2.len() as int, (e2 + r2).len() as int));
}

/// Two equal byte streams that both start with an optional string field
/// carry the same option and the same remainder.
proof fn lemma_opt_str_field_cancel(
    o1: Option<Seq<char>>,
    o2: Option<Seq<char>>,
    r1: Seq<u8>,
    r2: Seq<u8>,
)
    requires
        opt_str_field(o1) + r1 == opt_str_field(o2) + r2,
        o1 is Some ==> encode_utf8(o1->0).len() < 0x10000000000000000,
        o2 is Some ==> encode_utf8(o2->0).len() < 0x10000000000000000,
    ensures
        o1 == o2,
        r1 == r2,
{
    let a = opt_str_field(o1) + r1;
    let b = opt_str_field(o2) + r2;
    match (o1, o2) {
        (Option::None, Option::None) => {
            assert(r1 =~= a.subrange(1, a.len() as int));
            assert(r2 =~= b.subrange(1, b.len() as int));
        },
        (Option::None, Option::Some(s2)) => {
            assert(a[0] == 0u8 && b[0] == 1u8);
        },
        (Option::Some(s1), Option::None) => {
            assert(a[0] == 1u8 && b[0] == 0u8);
        },
        (Option::Some(s1), Option::Some(s2)) => {
            assert(str_field(s1) + r1 =~= a.subrange(1, a.len() as int));
            assert(str_field(s2) + r2 =~= b.subrange(1, b.len() as int));
            lemma_str_field_cancel(s1, s2, r1, r2);
        },
    }
}

/// The canonical encoding is injective: two resources with the same
/// canonical serialized form agree on every API-visible field. A
/// fingerprint can therefore only collide where the checksum itself
/// collides.
#[verifier::rlimit(60)]
#[verifier::spinoff_prover]
pub proof fn lemma_event_canon_injective(a: EventView, b: EventView)
    requires
        event_canon(a) == event_canon(b),
        canon_bounded(a),
        canon_bounded(b),
    ensures
        a == b,
{
    let ra = str_field(a.name) + (str_field(a.description) + (str_field(a.reference) + (
    opt_str_field(a.image) + (opt_str_field(a.thumbnail) + int_field(a.author_id)))));
    let rb = str_field(b.name) + (str_field(b.description) + (str_field(b.reference) + (
    opt_str_field(b.image) + (opt_str_field(b.thumbnail) + int_field(b.author_id)))));
    assert(event_canon(a) =~= int_field(a.id) + ra);
    assert(event_canon(b) =~= int_field(b.id) + rb);
    lemma_int_field_cancel(a.id, b.id, ra, rb);
    let ra2 = str_field(a.description) + (str_field(a.reference) + (opt_str_field(a.image) + (
    opt_str_field(a.thumbnail) + int_field(a.author_id))));
    let rb2 = str_field(b.description) + (str_field(b.reference) + (opt_str_field(b.image) + (
    opt_str_field(b.thumbnail) + int_field(b.author_id))));
    lemma_str_field_cancel(a.name, b.name, ra2, rb2);
    let ra3 = str_field(a.reference) + (opt_str_field(a.image) + (opt_str_field(a.thumbnail)
        + int_field(a.author_id)));
    let rb3 = str_field(b.reference) + (opt_str_field(b.image) + (opt_str_field(b.thumbnail)
        + int_field(b.author_id)));
    lemma_str_field_cancel(a.description, b.description, ra3, rb3);
    let ra4 = opt_str_field(a.image) + (opt_str_field(a.thumbnail) + int_field(a.author_id));
    let rb4 = opt_str_field(b.image) + (opt_str_field(b.thumbnail) + int_field(b.author_id));
    lemma_str_field_cancel(a.reference, b.reference, ra4, rb4);
    let ra5 = opt_str_field(a.thumbnail) + int_field(a.author_id);
    let rb5 = opt_str_field(b.thumbnail) + int_field(b.author_id);
    lemma_opt_str_field_cancel(a.image, b.image, ra5, rb5);
    lemma_opt_str_field_cancel(a.thumbnail, b.thumbnail, int_field(a.author_id), int_field(
        b.author_id,
    ));
    let empty = Seq::<u8>::empty();
    assert(int_field(a.author_id) + empty =~= int_field(a.author_id));
    assert(int_field(b.author_id) + empty =~= int_field(b.author_id));
    lemma_int_field_cancel(a.author_id, b.author_id, empty, empty);
    assert(a =~= b);
}

} // verus!
