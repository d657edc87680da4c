//! Text as an NTLM message and its header carry it.
//!
//! A name stands in the message as UTF-16, or as one byte for each
//! character. A header's scheme is compared without regard to ASCII case,
//! and what a transport kept is freed of the blanks around it.

use vstd::prelude::*;

verus! {

/// Whether `unit` is one half of a surrogate pair.
pub open spec fn is_surrogate(unit: u16) -> bool {
    0xD800 <= unit <= 0xDFFF
}

/// Whether `unit` opens a surrogate pair.
pub open spec fn is_high_surrogate(unit: u16) -> bool {
    0xD800 <= unit <= 0xDBFF
}

/// Whether `unit` closes a surrogate pair.
pub open spec fn is_low_surrogate(unit: u16) -> bool {
    0xDC00 <= unit <= 0xDFFF
}

/// The scalar value that a surrogate pair stands for.
pub open spec fn paired(high: u16, low: u16) -> u32 {
    (0x10000 + (high - 0xD800) * 0x400 + (low - 0xDC00)) as u32
}

/// The text that `units` are the UTF-16 form of, and `None` where a
/// surrogate stands unpaired.
pub open spec fn utf16_text(units: Seq<u16>) -> Option<Seq<char>>
    decreases units.len(),
{
    if units.len() == 0 {
        Some(Seq::empty())
    } else if !is_surrogate(units[0]) {
        preceded((units[0] as u32) as char, utf16_text(units.skip(1)))
    } else if is_high_surrogate(units[0]) && units.len() >= 2 && is_low_surrogate(units[1]) {
        preceded(paired(units[0], units[1]) as char, utf16_text(units.skip(2)))
    } else {
        None
    }
}

/// `text` with `first` in front, where there is a text.
pub open spec fn preceded(first: char, text: Option<Seq<char>>) -> Option<Seq<char>> {
    match text {
        Some(rest) => Some(seq![first] + rest),
        None => None,
    }
}

/// The one or two units that stand for `c` in UTF-16.
pub open spec fn utf16_units_of(c: char) -> Seq<u16> {
    let value = c as u32;
    if value < 0x10000 {
        seq![value as u16]
    } else {
        seq![
            (0xD800 + (value - 0x10000) / 0x400) as u16,
            (0xDC00 + (value - 0x10000) % 0x400) as u16,
        ]
    }
}

/// The UTF-16 form of `text`.
pub open spec fn utf16_of(text: Seq<char>) -> Seq<u16>
    decreases text.len(),
{
    if text.len() == 0 {
        Seq::empty()
    } else {
        utf16_units_of(text[0]) + utf16_of(text.skip(1))
    }
}

/// The little-endian units of `payload`; a last odd byte belongs to none.
pub open spec fn units_of(payload: Seq<u8>) -> Seq<u16> {
    Seq::new(payload.len() / 2, |i: int| (payload[2 * i] + 256 * payload[2 * i + 1]) as u16)
}

/// The bytes of `units`, each with its lower byte first.
pub open spec fn bytes_of(units: Seq<u16>) -> Seq<u8> {
    Seq::new(
        2 * units.len(),
        |i: int| (if i % 2 == 0 { units[i / 2] as int % 256 } else { units[i / 2] as int / 256 }) as u8,
    )
}

/// The text that stands in `payload` with one byte for each character.
pub open spec fn single_byte_text(payload: Seq<u8>) -> Seq<char> {
    payload.map_values(|byte: u8| byte as char)
}

/// `c` in lower case where it is an ASCII letter, and else `c`.
pub open spec fn ascii_lower(c: char) -> char {
    if 'A' <= c && c <= 'Z' {
        ((c as u32 + 32) as u32) as char
    } else {
        c
    }
}

/// `text` with its ASCII letters in lower case.
pub open spec fn ascii_lowered(text: Seq<char>) -> Seq<char> {
    text.map_values(|c: char| ascii_lower(c))
}

/// Whether Unicode gives `c` the property White_Space.
pub open spec fn is_white_space(c: char) -> bool {
    let value = c as u32;
    ||| 0x9 <= value <= 0xD
    ||| value == 0x20
    ||| value == 0x85
    ||| value == 0xA0
    ||| value == 0x1680
    ||| 0x2000 <= value <= 0x200A
    ||| 0x2028 <= value <= 0x2029
    ||| value == 0x202F
    ||| value == 0x205F
    ||| value == 0x3000
}

/// `text` without the white space at its two ends.
pub open spec fn trimmed(text: Seq<char>) -> Seq<char>
    decreases text.len(),
{
    if text.len() > 0 && is_white_space(text.first()) {
        trimmed(text.drop_first())
    } else if text.len() > 0 && is_white_space(text.last()) {
        trimmed(text.drop_last())
    } else {
        text
    }
}

/// `char::from_u32`: the character of that scalar value, and `None` for a
/// surrogate or a value above U+10FFFF.
pub assume_specification[ char::from_u32 ](i: u32) -> (c: Option<char>)
    ensures
        c == (if i < 0xD800 || 0xDFFF < i <= 0x10FFFF {
            Some(i as char)
        } else {
            None
        }),
;

/// `String::push`: the character is appended to the text.
pub assume_specification[ String::push ](s: &mut String, ch: char)
    ensures
        final(s)@ == old(s)@.push(ch),
;

/// `str::eq_ignore_ascii_case`: whether the two texts are the same once
/// their ASCII letters are in lower case.
pub assume_specification[ str::eq_ignore_ascii_case ](s: &str, other: &str) -> (same: bool)
    ensures
        same == (ascii_lowered(s@) == ascii_lowered(other@)),
;

/// `str::trim`: the text without the leading and the trailing white space,
/// which is that of Unicode's property White_Space.
pub assume_specification[ str::trim ](s: &str) -> (rest: &str)
    ensures
        rest@ == trimmed(s@),
;

/// Take `payload` two bytes at a time, the lower byte first.
pub fn utf16_units(payload: &[u8]) -> (units: Vec<u16>)
    ensures
        units@ == units_of(payload@),
{
    let mut units: Vec<u16> = Vec::new();
    let count: usize = payload.len() / 2;
    for i in 0..count
        invariant
            count == payload@.len() / 2,
            payload@.len() <= usize::MAX,
            units@ == units_of(payload@).take(i as int),
    {
        units.push(payload[2 * i] as u16 + 256 * payload[2 * i + 1] as u16);
        assert(units@ =~= units_of(payload@).take(i + 1));
    }
    assert(units_of(payload@).take(count as int) =~= units_of(payload@));
    units
}

/// Read `units` as UTF-16; `None` where a surrogate stands unpaired.
pub fn utf16_to_string(units: &[u16]) -> (text: Option<String>)
    ensures
        text.deep_view() == utf16_text(units@),
{
    let mut text = String::new();
    let mut i: usize = 0;
    assert(units@.skip(0) =~= units@);
    while i < units.len()
        invariant
            i <= units.len(),
            utf16_text(units@) == (match utf16_text(units@.skip(i as int)) {
                Some(rest) => Some(text@ + rest),
                None => None,
            }),
        decreases units.len() - i,
    {
        let first = units[i];
        let ghost rest = units@.skip(i as int);
        let ghost before = text@;
        if first < 0xD800 || first > 0xDFFF {
            match char::from_u32(first as u32) {
                Some(c) => text.push(c),
                None => return None,
            }
            assert(rest.skip(1) =~= units@.skip(i + 1));
            i = i + 1;
        } else if first <= 0xDBFF && units.len() - i >= 2 && 0xDC00 <= units[i + 1] && units[i + 1]
            <= 0xDFFF {
            let second = units[i + 1];
            let value: u32 = 0x10000 + (first as u32 - 0xD800) * 0x400 + (second as u32 - 0xDC00);
            match char::from_u32(value) {
                Some(c) => text.push(c),
                None => return None,
            }
            assert(rest.skip(2) =~= units@.skip(i + 2));
            i = i + 2;
        } else {
            return None;
        }
        proof {
            if let Some(tail) = utf16_text(units@.skip(i as int)) {
                assert(before + (seq![text@.last()] + tail) =~= text@ + tail);
            }
        }
    }
    assert(units@.skip(i as int) =~= Seq::<u16>::empty());
    assert(text@ + Seq::<char>::empty() =~= text@);
    Some(text)
}

/// Read `payload` with one byte for each character.
pub fn single_bytes_to_string(payload: &[u8]) -> (text: String)
    ensures
        text@ == single_byte_text(payload@),
{
    let mut text = String::new();
    for i in 0..payload.len()
        invariant
            text@ == single_byte_text(payload@).take(i as int),
    {
        text.push(payload[i] as char);
        assert(text@ =~= single_byte_text(payload@).take(i + 1));
    }
    assert(single_byte_text(payload@).take(payload@.len() as int) =~= single_byte_text(payload@));
    text
}

/// A text is what its UTF-16 form reads as.
pub proof fn utf16_reads_back(text: Seq<char>)
    ensures
        utf16_text(utf16_of(text)) == Some(text),
    decreases text.len(),
{
    if text.len() > 0 {
        let units = utf16_of(text);
        let rest = text.skip(1);
        utf16_reads_back(rest);
        vstd::utf8::char_is_scalar(text[0]);
        vstd::utf8::char_u32_cast(text[0], text[0] as u32);
        if (text[0] as u32) < 0x10000 {
            assert(units.skip(1) =~= utf16_of(rest));
        } else {
            assert(units.skip(2) =~= utf16_of(rest));
            assert(paired(units[0], units[1]) == text[0] as u32);
        }
        assert(seq![text[0]] + rest =~= text);
    }
}

/// Units that read as a text are the UTF-16 form of that text.
pub proof fn utf16_writes_back(units: Seq<u16>)
    ensures
        utf16_text(units) matches Some(text) ==> utf16_of(text) == units,
    decreases units.len(),
{
    if let Some(text) = utf16_text(units) {
        if units.len() > 0 {
            if !is_surrogate(units[0]) {
                utf16_writes_back(units.skip(1));
                assert(text.skip(1) =~= utf16_text(units.skip(1))->0);
                assert(utf16_units_of(text[0]) =~= seq![units[0]]);
                assert(units =~= seq![units[0]] + units.skip(1));
            } else {
                utf16_writes_back(units.skip(2));
                assert(text.skip(1) =~= utf16_text(units.skip(2))->0);
                assert(utf16_units_of(text[0]) =~= seq![units[0], units[1]]);
                assert(units =~= seq![units[0], units[1]] + units.skip(2));
            }
        }
    }
}

/// What is trimmed is a piece of the text that neither starts nor ends with
/// white space, and only white space was around it.
pub proof fn trimmed_is_a_piece(text: Seq<char>) -> (piece: (int, int))
    ensures
        0 <= piece.0 <= piece.1 <= text.len(),
        trimmed(text) == text.subrange(piece.0, piece.1),
        forall|i: int|
            0 <= i < piece.0 || piece.1 <= i < text.len() ==> is_white_space(#[trigger] text[i]),
        trimmed(text).len() > 0 ==> !is_white_space(trimmed(text).first()) && !is_white_space(
            trimmed(text).last(),
        ),
    decreases text.len(),
{
    if text.len() > 0 && is_white_space(text.first()) {
        let rest = text.drop_first();
        let (from, to) = trimmed_is_a_piece(rest);
        assert(rest.subrange(from, to) =~= text.subrange(from + 1, to + 1));
        assert forall|i: int| 0 <= i < from + 1 || to + 1 <= i < text.len() implies is_white_space(
            #[trigger] text[i],
        ) by {
            if i > 0 {
                assert(text[i] == rest[i - 1]);
            }
        }
        (from + 1, to + 1)
    } else if text.len() > 0 && is_white_space(text.last()) {
        let rest = text.drop_last();
        let (from, to) = trimmed_is_a_piece(rest);
        assert(rest.subrange(from, to) =~= text.subrange(from, to));
        assert forall|i: int| 0 <= i < from || to <= i < text.len() implies is_white_space(
            #[trigger] text[i],
        ) by {
            if i < text.len() - 1 {
                assert(text[i] == rest[i]);
            }
        }
        (from, to)
    } else {
        assert(text.subrange(0, text.len() as int) =~= text);
        (0, text.len() as int)
    }
}

/// Units are what their little-endian bytes are taken as.
pub proof fn units_read_back(units: Seq<u16>)
    ensures
        units_of(bytes_of(units)) == units,
{
    assert forall|i: int| 0 <= i < units.len() implies units_of(bytes_of(units))[i] == units[i] by {
        let bytes = bytes_of(units);
        assert((2 * i) / 2 == i && (2 * i + 1) / 2 == i);
        assert(bytes[2 * i] == units[i] as int % 256);
        assert(bytes[2 * i + 1] == units[i] as int / 256);
    }
    assert(units_of(bytes_of(units)) =~= units);
}

} // verus!
