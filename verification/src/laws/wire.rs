//! What holds of a message byte by byte: every position, number and letter
//! is written out here, and nothing is taken from the layout that the
//! library reads by.

use vstd::prelude::*;

use crate::message;
use crate::text;

verus! {

/// The number in two bytes, the lower first.
pub open spec fn word(bytes: Seq<u8>, at: int) -> int {
    bytes[at] + 0x100 * bytes[at + 1]
}

/// The number in four bytes, the lowest first.
pub open spec fn dword(bytes: Seq<u8>, at: int) -> int {
    word(bytes, at) + 0x1_0000 * word(bytes, at + 2)
}

/// The one or two numbers that stand for a character in UTF-16.
pub open spec fn code_units(c: char) -> Seq<int> {
    let value = c as int;
    if value < 0x1_0000 {
        seq![value]
    } else {
        seq![0xD800 + (value - 0x1_0000) / 0x400, 0xDC00 + (value - 0x1_0000) % 0x400]
    }
}

/// The numbers that stand for a text in UTF-16, one character after the
/// other.
pub open spec fn spelling(text: Seq<char>) -> Seq<int>
    decreases text.len(),
{
    if text.len() == 0 {
        Seq::empty()
    } else {
        spelling(text.drop_last()) + code_units(text.last())
    }
}

/// Whether `payload` spells `text` in UTF-16, but for a last odd byte.
pub open spec fn spells_wide(payload: Seq<u8>, text: Seq<char>) -> bool {
    &&& spelling(text).len() == payload.len() / 2
    &&& forall|i: int|
        0 <= i < payload.len() / 2 ==> #[trigger] spelling(text)[i] == word(payload, 2 * i)
}

/// Whether `payload` spells `text` with one byte for each character.
pub open spec fn spells_narrow(payload: Seq<u8>, text: Seq<char>) -> bool {
    &&& text.len() == payload.len()
    &&& forall|i: int| 0 <= i < text.len() ==> (#[trigger] text[i]) as int == payload[i]
}

/// Whether `payload` spells `text` one way or the other.
pub open spec fn spells(payload: Seq<u8>, wide: bool, text: Seq<char>) -> bool {
    if wide {
        spells_wide(payload, text)
    } else {
        spells_narrow(payload, text)
    }
}

proof fn spelling_from_the_front(first: char, rest: Seq<char>)
    ensures
        spelling(seq![first] + rest) == code_units(first) + spelling(rest),
    decreases rest.len(),
{
    let text = seq![first] + rest;
    if rest.len() == 0 {
        assert(text.drop_last() =~= Seq::empty());
        assert(spelling(text.drop_last()) =~= Seq::empty());
        assert(spelling(rest) =~= Seq::empty());
        assert(spelling(text) =~= code_units(first) + spelling(rest));
    } else {
        spelling_from_the_front(first, rest.drop_last());
        assert(text.drop_last() =~= seq![first] + rest.drop_last());
        assert(spelling(text) =~= code_units(first) + spelling(rest));
    }
}

proof fn spelling_is_utf16(text: Seq<char>)
    ensures
        spelling(text).len() == text::utf16_of(text).len(),
        forall|i: int|
            0 <= i < spelling(text).len() ==> #[trigger] spelling(text)[i] == text::utf16_of(
                text,
            )[i],
    decreases text.len(),
{
    if text.len() > 0 {
        let rest = text.skip(1);
        spelling_is_utf16(rest);
        spelling_from_the_front(text[0], rest);
        assert(seq![text[0]] + rest =~= text);
        vstd::utf8::char_is_scalar(text[0]);
        vstd::utf8::char_u32_cast(text[0], text[0] as u32);
        let value = text[0] as u32;
        assert(text[0] as int == value as int);
        let units = text::utf16_units_of(text[0]);
        assert(code_units(text[0]).len() == units.len());
        assert forall|i: int| 0 <= i < spelling(text).len() implies #[trigger] spelling(text)[i]
            == text::utf16_of(text)[i] by {
            if i >= units.len() {
                assert(spelling(rest)[i - units.len()] == text::utf16_of(rest)[i - units.len()]);
            }
        }
    }
}

/// Units read as a text exactly where they are its spelling; where they are
/// no text's spelling, they read as none.
pub proof fn units_read_as_what_they_spell(units: Seq<u16>, text: Seq<char>)
    ensures
        text::utf16_text(units) == Some(text) <==> {
            &&& spelling(text).len() == units.len()
            &&& forall|i: int|
                0 <= i < units.len() ==> #[trigger] spelling(text)[i] == units[i] as int
        },
{
    spelling_is_utf16(text);
    if text::utf16_text(units) == Some(text) {
        text::utf16_writes_back(units);
    }
    if spelling(text).len() == units.len() && forall|i: int|
        0 <= i < units.len() ==> #[trigger] spelling(text)[i] == units[i] as int {
        assert forall|i: int| 0 <= i < units.len() implies text::utf16_of(text)[i] == units[i] by {
            assert(spelling(text)[i] == units[i] as int);
        }
        assert(text::utf16_of(text) =~= units);
        text::utf16_reads_back(text);
    }
}

/// A payload is taken two bytes at a time, the lower byte first, and a last
/// odd byte is left.
pub proof fn units_are_pairs_of_bytes(payload: Seq<u8>)
    ensures
        text::units_of(payload).len() == payload.len() / 2,
        forall|i: int|
            0 <= i < payload.len() / 2 ==> #[trigger] text::units_of(payload)[i] as int == word(
                payload,
                2 * i,
            ),
{
}

/// A payload reads as the text that it spells, with one byte for each
/// character.
pub proof fn bytes_read_as_what_they_spell(payload: Seq<u8>, text: Seq<char>)
    ensures
        text::single_byte_text(payload) == text <==> spells_narrow(payload, text),
{
    let read = text::single_byte_text(payload);
    assert forall|i: int| 0 <= i < payload.len() implies (#[trigger] read[i]) as int
        == payload[i] by {}
    if spells_narrow(payload, text) {
        assert forall|i: int| 0 <= i < text.len() implies text[i] == read[i] by {
            vstd::utf8::char_u32_cast(text[i], text[i] as u32);
            vstd::utf8::char_is_scalar(text[i]);
            assert(text[i] as int == payload[i]);
        }
        assert(text =~= read);
    }
}

proof fn name_reads_as_what_it_spells(payload: Seq<u8>, wide: bool, text: Seq<char>)
    ensures
        message::name_in(payload, wide) == Some(text) <==> spells(payload, wide, text),
{
    if wide {
        let units = text::units_of(payload);
        units_read_as_what_they_spell(units, text);
        if spells_wide(payload, text) {
            assert forall|i: int| 0 <= i < units.len() implies #[trigger] spelling(text)[i]
                == units[i] as int by {
                assert(units[i] as int == word(payload, 2 * i));
            }
        }
        if message::name_in(payload, wide) == Some(text) {
            assert forall|i: int| 0 <= i < payload.len() / 2 implies #[trigger] spelling(text)[i]
                == word(payload, 2 * i) by {
                assert(units[i] as int == word(payload, 2 * i));
            }
        }
    } else {
        bytes_read_as_what_they_spell(payload, text);
    }
}

/// A number is read exactly where the bytes hold it whole, with the lower
/// byte first.
pub proof fn numbers_are_whole_or_none(bytes: Seq<u8>, at: int)
    requires
        0 <= at,
    ensures
        match message::u16_le(bytes, at) {
            Some(number) => at + 2 <= bytes.len() && number as int == word(bytes, at),
            None => bytes.len() < at + 2,
        },
        match message::u32_le(bytes, at) {
            Some(number) => at + 4 <= bytes.len() && number as int == dword(bytes, at),
            None => bytes.len() < at + 4,
        },
{
}

/// Whether `bytes` open with the letters `NTLMSSP` and a zero.
pub open spec fn opens_ntlmssp(bytes: Seq<u8>) -> bool {
    &&& bytes.len() >= 8
    &&& bytes[0] == 'N' as u8
    &&& bytes[1] == 'T' as u8
    &&& bytes[2] == 'L' as u8
    &&& bytes[3] == 'M' as u8
    &&& bytes[4] == 'S' as u8
    &&& bytes[5] == 'S' as u8
    &&& bytes[6] == 'P' as u8
    &&& bytes[7] == 0
}

/// The signature is the letters `NTLMSSP` and a zero.
pub proof fn signature_is_ntlmssp(bytes: Seq<u8>)
    ensures
        message::is_signed(bytes) <==> opens_ntlmssp(bytes),
{
    let signature = message::SIGNATURE@;
    assert(signature =~= seq![0x4Eu8, 0x54, 0x4C, 0x4D, 0x53, 0x53, 0x50, 0x00]);
    if opens_ntlmssp(bytes) {
        assert(bytes.take(8) =~= signature);
    }
    if message::is_signed(bytes) {
        assert(bytes.take(8) =~= signature);
        assert forall|i: int| 0 <= i < 8 implies bytes[i] == #[trigger] signature[i] by {
            assert(bytes.take(8)[i] == bytes[i]);
        }
        assert(bytes[0] == signature[0] && bytes[1] == signature[1] && bytes[2] == signature[2]
            && bytes[3] == signature[3] && bytes[4] == signature[4] && bytes[5] == signature[5]
            && bytes[6] == signature[6] && bytes[7] == signature[7]);
    }
}

/// Whether the eight bytes of the field at `at` point within `bytes`: its
/// first two are the length, its last four the offset.
pub open spec fn points_within(bytes: Seq<u8>, at: int) -> bool {
    dword(bytes, at + 4) + word(bytes, at) <= bytes.len()
}

/// The bytes that the field at `at` points at.
pub open spec fn pointed_at(bytes: Seq<u8>, at: int) -> Seq<u8> {
    bytes.subrange(dword(bytes, at + 4), dword(bytes, at + 4) + word(bytes, at))
}

/// Whether the field at `at` points within `bytes` at the spelling of
/// `text`.
pub open spec fn shows(bytes: Seq<u8>, at: int, wide: bool, text: Seq<char>) -> bool {
    points_within(bytes, at) && spells(pointed_at(bytes, at), wide, text)
}

/// Whether the field at `at` points within `bytes` at what spells nothing.
pub open spec fn is_garbled(bytes: Seq<u8>, at: int, wide: bool) -> bool {
    points_within(bytes, at) && forall|text: Seq<char>|
        !#[trigger] spells(pointed_at(bytes, at), wide, text)
}

/// A field reads as the text that it points at, wherever that stands; and
/// otherwise it says which of three things is wrong: the field is not
/// there, it points outside, or what it points at is no text.
pub proof fn field_reads_what_it_points_at(
    bytes: Seq<u8>,
    at: int,
    wide: bool,
    name: Seq<char>,
    text: Seq<char>,
)
    requires
        0 <= at,
    ensures
        at + 8 > bytes.len() ==> message::field_text(bytes, at, wide, name) == Err::<
            Seq<char>,
            _,
        >("the NTLM AUTHENTICATE message is truncated before its "@ + name + " field"@),
        at + 8 <= bytes.len() && !points_within(bytes, at) ==> message::field_text(
            bytes,
            at,
            wide,
            name,
        ) == Err::<Seq<char>, _>(
            "the NTLM AUTHENTICATE message's "@ + name + " points outside the message"@,
        ),
        at + 8 <= bytes.len() && is_garbled(bytes, at, wide) ==> message::field_text(
            bytes,
            at,
            wide,
            name,
        ) == Err::<Seq<char>, _>("the NTLM "@ + name + " is not UTF-16"@),
        at + 8 <= bytes.len() ==> (message::field_text(bytes, at, wide, name) == Ok::<
            _,
            Seq<char>,
        >(text) <==> shows(bytes, at, wide, text)),
{
    numbers_are_whole_or_none(bytes, at);
    numbers_are_whole_or_none(bytes, at + 4);
    if at + 8 <= bytes.len() && points_within(bytes, at) {
        let payload = pointed_at(bytes, at);
        let buffer = message::buffer_at(bytes, at)->0;
        assert(message::payload(bytes, buffer) == payload);
        name_reads_as_what_it_spells(payload, wide, text);
        if is_garbled(bytes, at, wide) {
            if let Some(read) = message::name_in(payload, wide) {
                name_reads_as_what_it_spells(payload, wide, read);
                assert(spells(payload, wide, read));
            }
        }
    }
}

/// What spells one text spells no other.
pub proof fn spelling_is_of_one_text(
    payload: Seq<u8>,
    wide: bool,
    one: Seq<char>,
    other: Seq<char>,
)
    requires
        spells(payload, wide, one),
        spells(payload, wide, other),
    ensures
        one == other,
{
    name_reads_as_what_it_spells(payload, wide, one);
    name_reads_as_what_it_spells(payload, wide, other);
}

/// Names are UTF-16 exactly under the lowest flag, whatever the others are.
pub proof fn lowest_flag_makes_names_wide(flags: u32)
    ensures
        message::is_unicode(flags) <==> flags & 0x0000_0001u32 != 0,
        message::is_unicode(flags) <==> flags & message::NEGOTIATE_UNICODE != 0,
{
    assert((flags & 0x0000_0001u32 != 0) == (flags % 2 == 1)) by (bit_vector);
}

/// Whether `bytes` hold a message type: twelve bytes that open with the
/// signature.
pub open spec fn is_typed(bytes: Seq<u8>) -> bool {
    opens_ntlmssp(bytes) && bytes.len() >= 12
}

/// The type decides what a message is: a NEGOTIATE says nothing, and
/// whatever is no AUTHENTICATE, or is one that ends before its flags do, is
/// refused for the reason that holds.
pub proof fn type_decides(bytes: Seq<u8>)
    ensures
        !is_typed(bytes) ==> message::parsed(bytes) == Err::<Option<message::Names>, _>(
            "the NTLM message has no NTLMSSP signature"@,
        ),
        is_typed(bytes) && dword(bytes, 8) == 1 ==> message::parsed(bytes) == Ok::<_, Seq<char>>(
            None::<message::Names>,
        ),
        is_typed(bytes) && dword(bytes, 8) == 2 ==> message::parsed(bytes) == Err::<
            Option<message::Names>,
            _,
        >("the NTLM message is a CHALLENGE: the server's, not a credential"@),
        is_typed(bytes) && dword(bytes, 8) == 3 && bytes.len() < 64 ==> message::parsed(bytes)
            == Err::<Option<message::Names>, _>(
            "the NTLM AUTHENTICATE message is truncated before its flags"@,
        ),
        is_typed(bytes) && !(1 <= dword(bytes, 8) <= 3) ==> message::parsed(bytes) == Err::<
            Option<message::Names>,
            _,
        >("the NTLM message type is not 1, 2 or 3"@),
        is_typed(bytes) && dword(bytes, 8) == 3 ==> message::parsed(bytes) != Ok::<_, Seq<char>>(
            None::<message::Names>,
        ),
{
    signature_is_ntlmssp(bytes);
    numbers_are_whole_or_none(bytes, 8);
    numbers_are_whole_or_none(bytes, 60);
}

/// Whether `bytes` are an AUTHENTICATE message of at least 64 bytes.
pub open spec fn is_whole(bytes: Seq<u8>) -> bool {
    is_typed(bytes) && dword(bytes, 8) == 3 && bytes.len() >= 64
}

/// Whether the lowest bit of the flags, which stand at 60, is set.
pub open spec fn is_wide(bytes: Seq<u8>) -> bool {
    bytes[60] % 2 == 1
}

proof fn flags_of_a_whole_message(bytes: Seq<u8>)
    requires
        bytes.len() >= 64,
    ensures
        message::u32_le(bytes, 60) is Some,
        message::is_unicode(message::u32_le(bytes, 60)->0) == is_wide(bytes),
{
    numbers_are_whole_or_none(bytes, 60);
    let flags = message::u32_le(bytes, 60)->0;
    let half = 0x80 * bytes[61] + 0x8000 * bytes[62] + 0x80_0000 * bytes[63];
    assert(flags as int == bytes[60] + 2 * half);
    assert(flags as int % 2 == bytes[60] as int % 2);
}

proof fn fields_of_a_whole_message(bytes: Seq<u8>)
    requires
        is_whole(bytes),
    ensures
        message::parsed(bytes) == (match message::names_in(
            bytes,
            message::u32_le(bytes, 60)->0,
        ) {
            Err(why) => Err(why),
            Ok(names) => Ok(Some(names)),
        }),
{
    signature_is_ntlmssp(bytes);
    numbers_are_whole_or_none(bytes, 8);
    numbers_are_whole_or_none(bytes, 60);
    assert(message::is_message(bytes));
    assert(message::u32_le(bytes, message::TYPE as int) == Some(3u32));
}

/// An AUTHENTICATE reads as names exactly where its three fields show them:
/// the user at 36, which is not empty, the domain at 28 and the workstation
/// at 44, in UTF-16 under the lowest flag and else with one byte for each
/// character.
pub proof fn authenticate_reads_what_it_shows(bytes: Seq<u8>, names: message::Names)
    requires
        is_whole(bytes),
    ensures
        message::parsed(bytes) == Ok::<_, Seq<char>>(Some(names)) <==> {
            &&& names.user.len() > 0
            &&& shows(bytes, 36, is_wide(bytes), names.user)
            &&& shows(bytes, 28, is_wide(bytes), names.domain)
            &&& shows(bytes, 44, is_wide(bytes), names.workstation)
        },
{
    fields_of_a_whole_message(bytes);
    flags_of_a_whole_message(bytes);
    let wide = is_wide(bytes);
    field_reads_what_it_points_at(bytes, 36, wide, "UserName"@, names.user);
    field_reads_what_it_points_at(bytes, 28, wide, "DomainName"@, names.domain);
    field_reads_what_it_points_at(bytes, 44, wide, "Workstation"@, names.workstation);
}

/// An AUTHENTICATE is refused for the first of its faults: those of the
/// user first, that there is none, then those of the domain, then those of
/// the workstation.
pub proof fn authenticate_is_refused_for_its_first_fault(
    bytes: Seq<u8>,
    user: Seq<char>,
    domain: Seq<char>,
)
    requires
        is_whole(bytes),
    ensures
        ({
            let wide = is_wide(bytes);
            let read = message::parsed(bytes);
            let named = user.len() > 0 && shows(bytes, 36, wide, user);
            let placed = named && shows(bytes, 28, wide, domain);
            &&& !points_within(bytes, 36) ==> read == Err::<Option<message::Names>, _>(
                "the NTLM AUTHENTICATE message's "@ + "UserName"@
                    + " points outside the message"@,
            )
            &&& is_garbled(bytes, 36, wide) ==> read == Err::<Option<message::Names>, _>(
                "the NTLM "@ + "UserName"@ + " is not UTF-16"@,
            )
            &&& shows(bytes, 36, wide, Seq::empty()) ==> read == Err::<
                Option<message::Names>,
                _,
            >("the NTLM AUTHENTICATE message names no user"@)
            &&& named && !points_within(bytes, 28) ==> read == Err::<Option<message::Names>, _>(
                "the NTLM AUTHENTICATE message's "@ + "DomainName"@
                    + " points outside the message"@,
            )
            &&& named && is_garbled(bytes, 28, wide) ==> read == Err::<
                Option<message::Names>,
                _,
            >("the NTLM "@ + "DomainName"@ + " is not UTF-16"@)
            &&& placed && !points_within(bytes, 44) ==> read == Err::<Option<message::Names>, _>(
                "the NTLM AUTHENTICATE message's "@ + "Workstation"@
                    + " points outside the message"@,
            )
            &&& placed && is_garbled(bytes, 44, wide) ==> read == Err::<
                Option<message::Names>,
                _,
            >("the NTLM "@ + "Workstation"@ + " is not UTF-16"@)
        }),
{
    fields_of_a_whole_message(bytes);
    flags_of_a_whole_message(bytes);
    let wide = is_wide(bytes);
    field_reads_what_it_points_at(bytes, 36, wide, "UserName"@, user);
    field_reads_what_it_points_at(bytes, 36, wide, "UserName"@, Seq::empty());
    field_reads_what_it_points_at(bytes, 28, wide, "DomainName"@, domain);
    field_reads_what_it_points_at(bytes, 44, wide, "Workstation"@, domain);
}

/// The client's half of the NT response is what follows its sixteen bytes of
/// proof, wherever the field at 20 points: byte for byte, and none where
/// the field is not there or the response is no longer than the proof. A
/// longer one that points outside is refused.
pub proof fn client_half_follows_the_proof(bytes: Seq<u8>, half: Seq<u8>)
    ensures
        bytes.len() < 28 || word(bytes, 20) <= 16 ==> message::client_challenge_in(bytes) == Ok::<
            _,
            Seq<char>,
        >(None::<Seq<u8>>),
        bytes.len() >= 28 && word(bytes, 20) > 16 && !points_within(bytes, 20)
            ==> message::client_challenge_in(bytes) == Err::<Option<Seq<u8>>, _>(
            "the NTLM AUTHENTICATE message's NtChallengeResponse points outside the message"@,
        ),
        bytes.len() >= 28 && word(bytes, 20) > 16 && points_within(bytes, 20) ==> (
        message::client_challenge_in(bytes) == Ok::<_, Seq<char>>(Some(half)) <==> {
            &&& half.len() == word(bytes, 20) - 16
            &&& forall|i: int|
                0 <= i < half.len() ==> #[trigger] half[i] == bytes[dword(bytes, 24) + 16 + i]
        }),
{
    numbers_are_whole_or_none(bytes, 20);
    numbers_are_whole_or_none(bytes, 24);
    if bytes.len() >= 28 && word(bytes, 20) > 16 && points_within(bytes, 20) {
        let read = message::client_challenge_in(bytes)->Ok_0->0;
        assert(read.len() == word(bytes, 20) - 16);
        assert forall|i: int| 0 <= i < read.len() implies #[trigger] read[i] == bytes[dword(
            bytes,
            24,
        ) + 16 + i] by {}
        if half.len() == word(bytes, 20) - 16 && forall|i: int|
            0 <= i < half.len() ==> #[trigger] half[i] == bytes[dword(bytes, 24) + 16 + i] {
            assert(half =~= read);
        }
    }
}

} // verus!
