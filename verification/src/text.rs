//! Text as the operating system wants it: comparison of identifiers and
//! UTF-16 code units.

use vstd::prelude::*;
use vstd::utf8::{decode_utf8, encode_utf8, encode_utf8_decode_utf8};

verus! {

/// Whether two strings hold the same characters.
pub fn same_text(a: &str, b: &str) -> (r: bool)
    ensures
        r == (a@ == b@),
{
    let x = a.as_bytes();
    let y = b.as_bytes();
    proof {
        encode_utf8_decode_utf8(a@);
        encode_utf8_decode_utf8(b@);
    }
    if x.len() != y.len() {
        return false;
    }
    let mut i: usize = 0;
    while i < x.len()
        invariant
            i <= x.len(),
            x.len() == y.len(),
            x@ == encode_utf8(a@),
            y@ == encode_utf8(b@),
            forall|j: int| 0 <= j < i ==> x@[j] == y@[j],
            decode_utf8(encode_utf8(a@)) == a@,
            decode_utf8(encode_utf8(b@)) == b@,
        decreases x.len() - i,
    {
        if x[i] != y[i] {
            return false;
        }
        i = i + 1;
    }
    assert(x@ =~= y@);
    true
}

/// The UTF-16 code units of one character: itself below U+10000, a high and a
/// low surrogate above.
pub open spec fn utf16_of_char(c: char) -> Seq<u16> {
    let v = c as u32 as int;
    if v < 0x10000 {
        seq![v as u16]
    } else {
        seq![(0xD800 + (v - 0x10000) / 0x400) as u16, (0xDC00 + (v - 0x10000) % 0x400) as u16]
    }
}

/// The UTF-16 code units of a string, character by character.
pub open spec fn utf16_units(s: Seq<char>) -> Seq<u16>
    decreases s.len(),
{
    if s.len() == 0 {
        Seq::empty()
    } else {
        utf16_units(s.drop_last()) + utf16_of_char(s.last())
    }
}

/// The UTF-16 code units of `s`, as `str::encode_utf16` yields them.
pub fn encode_utf16(s: &str) -> (units: Vec<u16>)
    ensures
        units@ == utf16_units(s@),
{
    let mut units: Vec<u16> = Vec::new();
    for c in it: s.chars()
        invariant
            it.seq() == s@,
            units@ == utf16_units(it.seq().take(it.index() as int)),
    {
        let ghost before = it.seq().take(it.index() as int);
        let ghost after = it.seq().take(it.index() as int + 1);
        proof {
            assert(after.drop_last() =~= before);
            assert(after.last() == c);
        }
        let v: u32 = c as u32;
        if v < 0x10000 {
            units.push(v as u16);
        } else {
            let w: u32 = v - 0x10000;
            let high: u32 = 0xD800 + w / 0x400;
            let low: u32 = 0xDC00 + w % 0x400;
            units.push(high as u16);
            units.push(low as u16);
        }
        assert(units@ =~= utf16_units(before) + utf16_of_char(c));
    }
    assert(s@.take(s@.len() as int) =~= s@);
    units
}

/// The UTF-16 code units of `s` with a closing zero, as the operating
/// system takes strings.
pub fn to_wide(s: &str) -> (wide: Vec<u16>)
    ensures
        wide@ == utf16_units(s@).push(0u16),
{
    let mut wide = encode_utf16(s);
    wide.push(0);
    wide
}

/// The number of code units a tooltip holds, the closing zero included.
pub const TIP_LEN: usize = 128;

/// The tooltip that shows `s`: its UTF-16 code units, then zeros up to the
/// tooltip's fixed length.
///
/// The text has to leave room for one closing zero.
pub fn string_to_tip(s: &str) -> (tip: [u16; 128])
    requires
        utf16_units(s@).len() < TIP_LEN,
    ensures
        forall|i: int| 0 <= i < utf16_units(s@).len() ==> tip@[i] == utf16_units(s@)[i],
        forall|i: int| utf16_units(s@).len() <= i < TIP_LEN ==> tip@[i] == 0,
{
    let mut tip: [u16; 128] = [0u16; 128];
    let encoded = encode_utf16(s);
    let mut i: usize = 0;
    while i < encoded.len()
        invariant
            i <= encoded.len(),
            encoded@ == utf16_units(s@),
            encoded.len() < TIP_LEN,
            forall|j: int| 0 <= j < i ==> tip@[j] == encoded@[j],
            forall|j: int| i <= j < TIP_LEN ==> tip@[j] == 0,
        decreases encoded.len() - i,
    {
        tip[i] = encoded[i];
        i = i + 1;
    }
    tip
}

} // verus!
