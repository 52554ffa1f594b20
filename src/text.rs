use vstd::prelude::*;

verus! {

/// A continuation byte of a multi-byte UTF-8 sequence.
pub open spec fn is_continuation(b: u8) -> bool {
    0x80 <= b <= 0xBF
}

/// The number of bytes of the encoded scalar value whose first byte is `b`,
/// or 0 where `b` cannot start one.
pub open spec fn lead_width(b: u8) -> nat {
    if b <= 0x7F {
        1
    } else if 0xC2 <= b <= 0xDF {
        2
    } else if 0xE0 <= b <= 0xEF {
        3
    } else if 0xF0 <= b <= 0xF4 {
        4
    } else {
        0
    }
}

/// The bytes `b[0..lead_width(b[0])]` form one well-formed scalar encoding:
/// no overlong form, no surrogate, nothing above U+10FFFF.
pub open spec fn valid_scalar_at_start(b: Seq<u8>) -> bool {
    let w = lead_width(b[0]);
    &&& b.len() > 0
    &&& w > 0
    &&& w <= b.len()
    &&& w >= 2 ==> if b[0] == 0xE0 {
        0xA0 <= b[1] <= 0xBF
    } else if b[0] == 0xED {
        0x80 <= b[1] <= 0x9F
    } else if b[0] == 0xF0 {
        0x90 <= b[1] <= 0xBF
    } else if b[0] == 0xF4 {
        0x80 <= b[1] <= 0x8F
    } else {
        is_continuation(b[1])
    }
    &&& w >= 3 ==> is_continuation(b[2])
    &&& w >= 4 ==> is_continuation(b[3])
}

/// `b` is a well-formed UTF-8 byte sequence.
pub open spec fn valid_utf8(b: Seq<u8>) -> bool
    decreases b.len(),
{
    if b.len() == 0 {
        true
    } else if valid_scalar_at_start(b) {
        valid_utf8(b.subrange(lead_width(b[0]) as int, b.len() as int))
    } else {
        false
    }
}

/// The characters that the well-formed UTF-8 sequence `b` encodes.
pub uninterp spec fn utf8_text(b: Seq<u8>) -> Seq<char>;

/// `b` is ASCII, and `t` holds the same code points, one per byte.
pub open spec fn same_ascii(b: Seq<u8>, t: Seq<char>) -> bool {
    &&& t.len() == b.len()
    &&& forall|i: int| 0 <= i < b.len() ==> (t[i] as u32) == (b[i] as u32)
}

pub open spec fn is_ascii(b: Seq<u8>) -> bool {
    forall|i: int| 0 <= i < b.len() ==> b[i] < 0x80
}

/// Relies on `String::from_utf8`: it succeeds exactly on well-formed UTF-8 and
/// then holds the characters that the bytes encode; each ASCII byte encodes
/// the character of the same code point.
#[verifier::external_body]
fn string_from_utf8(b: Vec<u8>) -> (r: Option<String>)
    ensures
        r.is_some() <==> valid_utf8(b@),
        r matches Some(s) ==> s@ == utf8_text(b@),
        r matches Some(s) ==> (is_ascii(b@) ==> same_ascii(b@, s@)),
{
    String::from_utf8(b).ok()
}

/// Copies engine-owned bytes out as text; `None` where they are not UTF-8.
pub fn decode_text(b: &[u8]) -> (r: Option<String>)
    ensures
        r.is_some() <==> valid_utf8(b@),
        r matches Some(s) ==> s@ == utf8_text(b@),
        r matches Some(s) ==> (is_ascii(b@) ==> same_ascii(b@, s@)),
{
    let mut copy: Vec<u8> = Vec::with_capacity(b.len());
    let mut i: usize = 0;
    while i < b.len()
        invariant
            i <= b.len(),
            copy@ == b@.subrange(0, i as int),
        decreases b.len() - i,
    {
        copy.push(b[i]);
        i = i + 1;
    }
    assert(copy@ =~= b@);
    string_from_utf8(copy)
}

/// ASCII bytes are well-formed UTF-8.
pub proof fn lemma_ascii_valid(b: Seq<u8>)
    requires
        is_ascii(b),
    ensures
        valid_utf8(b),
    decreases b.len(),
{
    if b.len() > 0 {
        let rest = b.subrange(1, b.len() as int);
        assert(is_ascii(rest)) by {
            assert forall|i: int| 0 <= i < rest.len() implies rest[i] < 0x80 by {
                assert(rest[i] == b[i + 1]);
            }
        }
        lemma_ascii_valid(rest);
    }
}

} // verus!
