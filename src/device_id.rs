//! Device identifiers: UUIDs held as their sixteen bytes.
use vstd::prelude::*;

verus! {

/// What `uuid::Uuid::parse_str` makes of a text: its sixteen bytes, or `None`
/// where the text is no UUID.
pub uninterp spec fn parsed_uuid(s: Seq<char>) -> Option<Seq<u8>>;

/// Relies on `uuid::Uuid::parse_str` to read a UUID in any of the textual
/// forms that crate accepts, and on `Uuid::as_bytes` for its bytes.
#[verifier::external_body]
fn parse_uuid_bytes(s: &str) -> (r: Option<[u8; 16]>)
    ensures
        r is Some <==> parsed_uuid(s@) is Some,
        r is Some ==> r->0@ == parsed_uuid(s@)->0,
{
    uuid::Uuid::parse_str(s).ok().map(|u| *u.as_bytes())
}

/// The lowercase hexadecimal digit for `n < 16`.
pub open spec fn hex_char(n: u8) -> char {
    if n < 10 {
        (n + 48) as char
    } else {
        (n + 87) as char
    }
}

/// The two lowercase hexadecimal digits of the bytes `b[i..j]`, in order.
pub open spec fn hex_run(b: Seq<u8>, i: int, j: int) -> Seq<char>
    decreases j - i,
{
    if j <= i {
        Seq::empty()
    } else {
        hex_run(b, i, j - 1) + seq![hex_char(b[j - 1] / 16), hex_char(b[j - 1] % 16)]
    }
}

/// The canonical hyphenated form `xxxxxxxx-xxxx-xxxx-xxxx-xxxxxxxxxxxx`.
pub open spec fn canonical_text(b: Seq<u8>) -> Seq<char> {
    hex_run(b, 0, 4) + seq!['-'] + hex_run(b, 4, 6) + seq!['-'] + hex_run(b, 6, 8) + seq!['-']
        + hex_run(b, 8, 10) + seq!['-'] + hex_run(b, 10, 16)
}

/// A character of the canonical form: a digit, a lowercase hex letter or a hyphen.
pub open spec fn is_canonical_char(c: char) -> bool {
    ('0' <= c <= '9') || ('a' <= c <= 'f') || c == '-'
}

/// Relies on `uuid::Uuid`'s `Display`, which writes the lowercase hyphenated form.
#[verifier::external_body]
fn hyphenated(b: &[u8; 16]) -> (r: String)
    ensures
        r@ == canonical_text(b@),
{
    uuid::Uuid::from_bytes(*b).to_string()
}

/// A device identifier, as the sixteen bytes of its UUID.
#[derive(Clone, Copy, Debug, PartialEq, Eq)]
pub struct DeviceId {
    pub bytes: [u8; 16],
}

/// The version field of a UUID: the high nibble of its seventh byte.
pub open spec fn version_of(b: Seq<u8>) -> u8 {
    b[6] / 16
}

impl DeviceId {
    /// Reads a device identifier from any textual form of a UUID.
    pub fn parse(s: &str) -> (r: Option<DeviceId>)
        ensures
            r is Some <==> parsed_uuid(s@) is Some,
            r is Some ==> r->0.bytes@ == parsed_uuid(s@)->0,
    {
        match parse_uuid_bytes(s) {
            Some(bytes) => Some(DeviceId { bytes }),
            None => None,
        }
    }

    /// The UUID version number of the identifier.
    pub fn version_num(&self) -> (r: u8)
        ensures
            r == version_of(self.bytes@),
    {
        self.bytes[6] / 16
    }

    /// The canonical lowercase hyphenated text of the identifier.
    pub fn to_string(&self) -> (r: String)
        ensures
            r@ == canonical_text(self.bytes@),
    {
        hyphenated(&self.bytes)
    }
}

proof fn lemma_hex_run_canonical(b: Seq<u8>, i: int, j: int)
    ensures
        forall|k: int| 0 <= k < hex_run(b, i, j).len() ==> is_canonical_char(#[trigger] hex_run(b, i, j)[k]),
    decreases j - i,
{
    if j > i {
        lemma_hex_run_canonical(b, i, j - 1);
        let hi = b[j - 1] / 16;
        let lo = b[j - 1] % 16;
        assert(is_canonical_char(hex_char(hi)));
        assert(is_canonical_char(hex_char(lo)));
        let r = hex_run(b, i, j);
        let p = hex_run(b, i, j - 1);
        assert forall|k: int| 0 <= k < r.len() implies is_canonical_char(#[trigger] r[k]) by {
            if k < p.len() {
                assert(r[k] == p[k]);
            }
        }
    }
}

/// The canonical text of every identifier is in lowercase: it holds only
/// decimal digits, the letters `a` to `f` and hyphens.
pub proof fn lemma_canonical_text_is_lowercase(b: Seq<u8>)
    ensures
        forall|k: int| 0 <= k < canonical_text(b).len() ==> is_canonical_char(#[trigger] canonical_text(b)[k]),
{
    lemma_hex_run_canonical(b, 0, 4);
    lemma_hex_run_canonical(b, 4, 6);
    lemma_hex_run_canonical(b, 6, 8);
    lemma_hex_run_canonical(b, 8, 10);
    lemma_hex_run_canonical(b, 10, 16);
    let t = canonical_text(b);
    assert forall|k: int| 0 <= k < t.len() implies is_canonical_char(#[trigger] t[k]) by {
        let s1 = hex_run(b, 0, 4);
        let s2 = hex_run(b, 4, 6);
        let s3 = hex_run(b, 6, 8);
        let s4 = hex_run(b, 8, 10);
        let s5 = hex_run(b, 10, 16);
        let h = seq!['-'];
        assert(is_canonical_char(h[0]));
        assert(t == s1 + h + s2 + h + s3 + h + s4 + h + s5);
    }
}

} // verus!
