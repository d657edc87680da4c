//! What holds of reading a message.

use vstd::prelude::*;

use crate::laws::wire;
use crate::message::{
    self, DOMAIN_FIELDS, FLAGS, NEGOTIATE_UNICODE, NT_RESPONSE_FIELDS, PROOF, SIGNATURE, TYPE,
    USER_FIELDS, WORKSTATION_FIELDS,
};
use crate::text;

verus! {

/// The bytes that `name` is written as: UTF-16 with the lower byte first,
/// or one byte for each character.
pub open spec fn written(name: Seq<char>, unicode: bool) -> Seq<u8> {
    if unicode {
        text::bytes_of(text::utf16_of(name))
    } else {
        name.map_values(|c: char| c as u8)
    }
}

/// Whether `name` can be written: any can as UTF-16, and one of characters
/// up to U+00FF with one byte for each.
pub open spec fn writable(name: Seq<char>, unicode: bool) -> bool {
    unicode || forall|i: int| 0 <= i < name.len() ==> (#[trigger] name[i] as u32) <= 0xFF
}

/// Whether the field at `at` points within `bytes` at `name` as it is
/// written.
pub open spec fn carries(bytes: Seq<u8>, at: int, unicode: bool, name: Seq<char>) -> bool {
    match message::buffer_at(bytes, at) {
        Some(buffer) => {
            &&& message::lies_within(buffer, bytes)
            &&& message::payload(bytes, buffer) == written(name, unicode)
        },
        None => false,
    }
}

/// Whether `bytes` are an AUTHENTICATE message, whole up to its flags.
pub open spec fn is_authenticate(bytes: Seq<u8>) -> bool {
    &&& message::is_message(bytes)
    &&& message::u32_le(bytes, TYPE as int) == Some(3u32)
    &&& bytes.len() >= FLAGS + 4
}

/// Whether the flag for UTF-16 is among `flags`.
pub open spec fn asks_unicode(flags: u32) -> bool {
    flags & NEGOTIATE_UNICODE != 0
}

/// Whether the flags of an AUTHENTICATE message ask for UTF-16.
pub open spec fn has_unicode(bytes: Seq<u8>) -> bool {
    asks_unicode(message::u32_le(bytes, FLAGS as int)->0)
}

proof fn written_name_reads_back(name: Seq<char>, unicode: bool)
    requires
        writable(name, unicode),
    ensures
        message::name_in(written(name, unicode), unicode) == Some(name),
{
    if unicode {
        text::units_read_back(text::utf16_of(name));
        text::utf16_reads_back(name);
    } else {
        let read = text::single_byte_text(written(name, false));
        assert forall|i: int| 0 <= i < name.len() implies read[i] == name[i] by {
            let value = name[i] as u32;
            vstd::utf8::char_u32_cast(name[i], value);
            assert(value <= 0xFF);
        }
        assert(read =~= name);
    }
}

/// An AUTHENTICATE message reads as the names that are written where its
/// fields point, wherever in the message that is.
pub proof fn names_read_back(bytes: Seq<u8>, names: message::Names)
    requires
        is_authenticate(bytes),
        names.user.len() > 0,
        writable(names.user, has_unicode(bytes)),
        writable(names.domain, has_unicode(bytes)),
        writable(names.workstation, has_unicode(bytes)),
        carries(bytes, USER_FIELDS as int, has_unicode(bytes), names.user),
        carries(bytes, DOMAIN_FIELDS as int, has_unicode(bytes), names.domain),
        carries(bytes, WORKSTATION_FIELDS as int, has_unicode(bytes), names.workstation),
    ensures
        message::parsed(bytes) == Ok::<_, Seq<char>>(Some(names)),
{
    wire::lowest_flag_makes_names_wide(message::u32_le(bytes, FLAGS as int)->0);
    written_name_reads_back(names.user, has_unicode(bytes));
    written_name_reads_back(names.domain, has_unicode(bytes));
    written_name_reads_back(names.workstation, has_unicode(bytes));
}

/// Whether the field at `at` points within `bytes` at `name` as it is
/// written, up to a last odd byte that is no half of a UTF-16 unit.
pub open spec fn bears(bytes: Seq<u8>, at: int, unicode: bool, name: Seq<char>) -> bool {
    match message::buffer_at(bytes, at) {
        Some(buffer) => {
            &&& message::lies_within(buffer, bytes)
            &&& writable(name, unicode)
            &&& written(name, unicode).is_prefix_of(message::payload(bytes, buffer))
            &&& buffer.length <= written(name, unicode).len() + (if unicode {
                1int
            } else {
                0
            })
        },
        None => false,
    }
}

proof fn read_name_was_written(payload: Seq<u8>, unicode: bool)
    ensures
        message::name_in(payload, unicode) matches Some(name) ==> {
            &&& writable(name, unicode)
            &&& written(name, unicode).is_prefix_of(payload)
            &&& payload.len() <= written(name, unicode).len() + (if unicode {
                1int
            } else {
                0
            })
        },
{
    if let Some(name) = message::name_in(payload, unicode) {
        let again = written(name, unicode);
        if unicode {
            let units = text::units_of(payload);
            text::utf16_writes_back(units);
            assert forall|i: int| 0 <= i < again.len() implies again[i] == payload[i] by {
                let j = i / 2;
                assert(units[j] == payload[2 * j] + 256 * payload[2 * j + 1]);
                assert(i == 2 * j || i == 2 * j + 1);
            }
        } else {
            assert forall|i: int| 0 <= i < name.len() implies (#[trigger] name[i] as u32) <= 0xFF
                && again[i] == payload[i] by {
                assert(name[i] == payload[i] as char);
            }
        }
        assert(again =~= payload.take(again.len() as int));
    }
}

/// Nothing is read that the message does not carry: where names are read,
/// the message is an AUTHENTICATE, it names a user, and each name is
/// written where its field points.
pub proof fn names_were_written(bytes: Seq<u8>, names: message::Names)
    requires
        message::parsed(bytes) == Ok::<_, Seq<char>>(Some(names)),
    ensures
        is_authenticate(bytes),
        names.user.len() > 0,
        bears(bytes, USER_FIELDS as int, has_unicode(bytes), names.user),
        bears(bytes, DOMAIN_FIELDS as int, has_unicode(bytes), names.domain),
        bears(bytes, WORKSTATION_FIELDS as int, has_unicode(bytes), names.workstation),
{
    wire::lowest_flag_makes_names_wide(message::u32_le(bytes, FLAGS as int)->0);
    let unicode = has_unicode(bytes);
    let user = message::buffer_at(bytes, USER_FIELDS as int)->0;
    let domain = message::buffer_at(bytes, DOMAIN_FIELDS as int)->0;
    let workstation = message::buffer_at(bytes, WORKSTATION_FIELDS as int)->0;
    read_name_was_written(message::payload(bytes, user), unicode);
    read_name_was_written(message::payload(bytes, domain), unicode);
    read_name_was_written(message::payload(bytes, workstation), unicode);
}

/// A NEGOTIATE claims nothing, whatever follows its type.
pub proof fn negotiate_claims_nothing(bytes: Seq<u8>)
    requires
        message::is_message(bytes),
        message::u32_le(bytes, TYPE as int) == Some(1u32),
    ensures
        message::parsed(bytes) == Ok::<_, Seq<char>>(None::<message::Names>),
{
}

/// A CHALLENGE is no credential, whatever follows its type.
pub proof fn challenge_is_refused(bytes: Seq<u8>)
    requires
        message::is_message(bytes),
        message::u32_le(bytes, TYPE as int) == Some(2u32),
    ensures
        message::parsed(bytes) == Err::<Option<message::Names>, _>(
            "the NTLM message is a CHALLENGE: the server's, not a credential"@,
        ),
{
}

/// Bytes that are cut off before the type, or do not open with the
/// signature, are no message.
pub proof fn unsigned_is_refused(bytes: Seq<u8>)
    requires
        !message::is_signed(bytes) || bytes.len() < 12,
    ensures
        message::parsed(bytes) == Err::<Option<message::Names>, _>(
            "the NTLM message has no NTLMSSP signature"@,
        ),
{
}

/// An AUTHENTICATE that stops before its flags end is refused, and the error
/// says where it stopped.
pub proof fn truncated_is_refused(bytes: Seq<u8>)
    requires
        message::is_message(bytes),
        message::u32_le(bytes, TYPE as int) == Some(3u32),
        bytes.len() < FLAGS + 4,
    ensures
        message::parsed(bytes) == Err::<Option<message::Names>, _>(
            "the NTLM AUTHENTICATE message is truncated before its flags"@,
        ),
{
}

/// Whether `a` and `b` hold the same bytes from `from` up to `to`, as far as
/// `a` goes.
pub open spec fn agree(a: Seq<u8>, b: Seq<u8>, from: int, to: int) -> bool {
    forall|i: int| from <= i < to && i < a.len() ==> a[i] == b[i]
}

/// Whether `a` and `b` hold the same bytes where the field at `at` points
/// within them.
pub open spec fn agree_on_field(a: Seq<u8>, b: Seq<u8>, at: int) -> bool {
    match message::buffer_at(a, at) {
        Some(buffer) => message::lies_within(buffer, a) ==> agree(
            a,
            b,
            buffer.offset,
            buffer.offset + buffer.length,
        ),
        None => true,
    }
}

/// Whether `a` and `b` hold the same length and the same offset in the field
/// at `at`.
pub open spec fn agree_on_pointer(a: Seq<u8>, b: Seq<u8>, at: int) -> bool {
    agree(a, b, at, at + 2) && agree(a, b, at + 4, at + 8)
}

proof fn same_buffer(a: Seq<u8>, b: Seq<u8>, at: int)
    requires
        0 <= at,
        at + 8 <= a.len(),
        at + 8 <= b.len(),
        agree_on_pointer(a, b, at),
    ensures
        message::buffer_at(a, at) == message::buffer_at(b, at),
{
}

proof fn same_field(a: Seq<u8>, b: Seq<u8>, at: int, unicode: bool, name: Seq<char>)
    requires
        a.len() == b.len(),
        0 <= at,
        at + 8 <= a.len(),
        agree_on_pointer(a, b, at),
        agree_on_field(a, b, at),
    ensures
        message::field_text(a, at, unicode, name) == message::field_text(b, at, unicode, name),
{
    same_buffer(a, b, at);
    let buffer = message::buffer_at(a, at)->0;
    if message::lies_within(buffer, a) {
        assert(message::payload(a, buffer) =~= message::payload(b, buffer));
    }
}

/// The names depend on nothing but the signature, the type, the flags, the
/// length and the offset in each of the three fields, and what these point
/// at: two messages of one length that hold the same bytes there read the
/// same. The NT response is not among them, nor is any `MaxLen`.
pub proof fn names_ignore_the_rest(a: Seq<u8>, b: Seq<u8>)
    requires
        a.len() == b.len(),
        agree(a, b, 0, TYPE + 4),
        agree(a, b, FLAGS as int, FLAGS + 4),
        agree_on_pointer(a, b, USER_FIELDS as int),
        agree_on_pointer(a, b, DOMAIN_FIELDS as int),
        agree_on_pointer(a, b, WORKSTATION_FIELDS as int),
        agree_on_field(a, b, USER_FIELDS as int),
        agree_on_field(a, b, DOMAIN_FIELDS as int),
        agree_on_field(a, b, WORKSTATION_FIELDS as int),
    ensures
        message::parsed(a) == message::parsed(b),
{
    if a.len() >= 8 {
        assert(a.take(8) =~= b.take(8));
    }
    if a.len() >= FLAGS + 4 {
        wire::lowest_flag_makes_names_wide(message::u32_le(a, FLAGS as int)->0);
        let unicode = has_unicode(a);
        same_field(a, b, USER_FIELDS as int, unicode, "UserName"@);
        same_field(a, b, DOMAIN_FIELDS as int, unicode, "DomainName"@);
        same_field(a, b, WORKSTATION_FIELDS as int, unicode, "Workstation"@);
    }
}

proof fn longer_field(bytes: Seq<u8>, more: Seq<u8>, at: int, unicode: bool, name: Seq<char>)
    requires
        0 <= at,
        at + 8 <= bytes.len(),
        message::field_text(bytes, at, unicode, name) is Ok,
    ensures
        message::field_text(bytes + more, at, unicode, name) == message::field_text(
            bytes,
            at,
            unicode,
            name,
        ),
{
    same_buffer(bytes, bytes + more, at);
    let buffer = message::buffer_at(bytes, at)->0;
    assert(message::payload(bytes + more, buffer) =~= message::payload(bytes, buffer));
}

/// What stands behind a message changes nothing of what is read in it.
pub proof fn names_stand_whatever_follows(bytes: Seq<u8>, more: Seq<u8>, names: message::Names)
    requires
        message::parsed(bytes) == Ok::<_, Seq<char>>(Some(names)),
    ensures
        message::parsed(bytes + more) == Ok::<_, Seq<char>>(Some(names)),
{
    wire::lowest_flag_makes_names_wide(message::u32_le(bytes, FLAGS as int)->0);
    let unicode = has_unicode(bytes);
    assert((bytes + more).take(8) =~= bytes.take(8));
    longer_field(bytes, more, USER_FIELDS as int, unicode, "UserName"@);
    longer_field(bytes, more, DOMAIN_FIELDS as int, unicode, "DomainName"@);
    longer_field(bytes, more, WORKSTATION_FIELDS as int, unicode, "Workstation"@);
}

/// A message that is cut short is never misread: it is refused, or it still
/// reads as the whole did.
pub proof fn cut_short_is_never_misread(bytes: Seq<u8>, length: int, names: message::Names)
    requires
        message::parsed(bytes) == Ok::<_, Seq<char>>(Some(names)),
        0 <= length <= bytes.len(),
    ensures
        message::parsed(bytes.take(length)) is Err || message::parsed(bytes.take(length))
            == Ok::<_, Seq<char>>(Some(names)),
{
    let cut = bytes.take(length);
    match message::parsed(cut) {
        Ok(Some(fewer)) => {
            names_stand_whatever_follows(cut, bytes.skip(length), fewer);
            assert(cut + bytes.skip(length) =~= bytes);
        },
        Ok(None) => {
            assert(message::u32_le(cut, TYPE as int) == message::u32_le(bytes, TYPE as int));
        },
        Err(_) => {},
    }
}

/// `number` in two bytes, the lower first.
pub open spec fn two_bytes(number: int) -> Seq<u8> {
    seq![(number % 0x100) as u8, (number / 0x100) as u8]
}

/// `number` in four bytes, the lowest first.
#[verifier::opaque]
pub open spec fn four_bytes(number: int) -> Seq<u8> {
    seq![
        (number % 0x100) as u8,
        (number / 0x100 % 0x100) as u8,
        (number / 0x1_0000 % 0x100) as u8,
        (number / 0x100_0000) as u8,
    ]
}

/// A `Len, MaxLen, BufferOffset` field that points at `length` bytes from
/// `offset` on.
#[verifier::opaque]
pub open spec fn pointer(length: int, offset: int) -> Seq<u8> {
    two_bytes(length) + two_bytes(length) + four_bytes(offset)
}

/// The 64 bytes that an AUTHENTICATE message opens with, where the NT
/// response and the names follow in this order: response, domain, user,
/// workstation.
pub open spec fn opening(response: int, domain: int, user: int, workstation: int, flags: u32) -> Seq<
    u8,
> {
    SIGNATURE@ + four_bytes(3) + pointer(0, 64) + pointer(response, 64) + pointer(
        domain,
        64 + response,
    ) + pointer(user, 64 + response + domain) + pointer(
        workstation,
        64 + response + domain + user,
    ) + pointer(0, 64 + response + domain + user + workstation) + four_bytes(flags as int)
}

/// The AUTHENTICATE message with these names, flags and NT response, and no
/// other payload.
pub open spec fn authenticate_message(
    names: message::Names,
    response: Seq<u8>,
    flags: u32,
) -> Seq<u8> {
    let unicode = asks_unicode(flags);
    let domain = written(names.domain, unicode);
    let user = written(names.user, unicode);
    let workstation = written(names.workstation, unicode);
    opening(
        response.len() as int,
        domain.len() as int,
        user.len() as int,
        workstation.len() as int,
        flags,
    ) + response + domain + user + workstation
}

/// Whether `name` is short enough for the length of a field.
pub open spec fn fits(name: Seq<char>, unicode: bool) -> bool {
    writable(name, unicode) && written(name, unicode).len() <= u16::MAX
}

proof fn four_bytes_read_back(bytes: Seq<u8>, at: int, number: u32)
    requires
        0 <= at,
        at + 4 <= bytes.len(),
        bytes.subrange(at, at + 4) == four_bytes(number as int),
    ensures
        message::u32_le(bytes, at) == Some(number),
{
    reveal(four_bytes);
    let part = bytes.subrange(at, at + 4);
    assert(bytes[at] == part[0] && bytes[at + 1] == part[1] && bytes[at + 2] == part[2] && bytes[at
        + 3] == part[3]);
}

proof fn pointer_reads_back(bytes: Seq<u8>, at: int, length: int, offset: int)
    requires
        0 <= at,
        at + 8 <= bytes.len(),
        0 <= length <= u16::MAX,
        0 <= offset <= u32::MAX,
        bytes.subrange(at, at + 8) == pointer(length, offset),
    ensures
        message::buffer_at(bytes, at) == Some(message::Buffer { length, offset }),
{
    part_lengths(length, offset);
    let part = bytes.subrange(at, at + 8);
    assert(part[0] == (length % 0x100) as u8 && part[1] == (length / 0x100) as u8) by {
        reveal(pointer);
    }
    assert(part.subrange(4, 8) =~= four_bytes(offset)) by {
        reveal(pointer);
    }
    assert(bytes[at] == part[0] && bytes[at + 1] == part[1]);
    assert(bytes.subrange(at + 4, at + 8) =~= part.subrange(4, 8));
    four_bytes_read_back(bytes, at + 4, offset as u32);
}

proof fn part_lengths(length: int, offset: int)
    ensures
        pointer(length, offset).len() == 8,
        four_bytes(offset).len() == 4,
{
    reveal(pointer);
    reveal(four_bytes);
}

proof fn opening_points(
    response: int,
    domain: int,
    user: int,
    workstation: int,
    flags: u32,
    rest: Seq<u8>,
)
    requires
        0 <= response <= u16::MAX,
        0 <= domain <= u16::MAX,
        0 <= user <= u16::MAX,
        0 <= workstation <= u16::MAX,
    ensures
        ({
            let bytes = opening(response, domain, user, workstation, flags) + rest;
            &&& opening(response, domain, user, workstation, flags).len() == 64
            &&& message::is_message(bytes)
            &&& message::u32_le(bytes, TYPE as int) == Some(3u32)
            &&& message::u32_le(bytes, FLAGS as int) == Some(flags)
            &&& message::buffer_at(bytes, NT_RESPONSE_FIELDS as int) == Some(
                message::Buffer { length: response, offset: 64 },
            )
            &&& message::buffer_at(bytes, DOMAIN_FIELDS as int) == Some(
                message::Buffer { length: domain, offset: 64 + response },
            )
            &&& message::buffer_at(bytes, USER_FIELDS as int) == Some(
                message::Buffer { length: user, offset: 64 + response + domain },
            )
            &&& message::buffer_at(bytes, WORKSTATION_FIELDS as int) == Some(
                message::Buffer {
                    length: workstation,
                    offset: 64 + response + domain + user,
                },
            )
        }),
{
    let bytes = opening(response, domain, user, workstation, flags) + rest;
    let to_domain = 64 + response;
    let to_user = to_domain + domain;
    let to_workstation = to_user + user;
    part_lengths(0, 64);
    part_lengths(0, 3);
    part_lengths(0, flags as int);
    part_lengths(response, 64);
    part_lengths(domain, to_domain);
    part_lengths(user, to_user);
    part_lengths(workstation, to_workstation);
    part_lengths(0, to_workstation + workstation);
    assert(bytes.take(8) =~= SIGNATURE@);
    assert(bytes.subrange(8, 12) =~= four_bytes(3));
    four_bytes_read_back(bytes, 8, 3);
    assert(bytes.subrange(20, 28) =~= pointer(response, 64));
    pointer_reads_back(bytes, 20, response, 64);
    assert(bytes.subrange(28, 36) =~= pointer(domain, to_domain));
    pointer_reads_back(bytes, 28, domain, to_domain);
    assert(bytes.subrange(36, 44) =~= pointer(user, to_user));
    pointer_reads_back(bytes, 36, user, to_user);
    assert(bytes.subrange(44, 52) =~= pointer(workstation, to_workstation));
    pointer_reads_back(bytes, 44, workstation, to_workstation);
    assert(bytes.subrange(60, 64) =~= four_bytes(flags as int));
    four_bytes_read_back(bytes, 60, flags);
}

/// What is written as an AUTHENTICATE message is read back from it: the
/// names, and what follows the proof of its NT response.
pub proof fn message_reads_back(names: message::Names, response: Seq<u8>, flags: u32)
    requires
        names.user.len() > 0,
        fits(names.user, asks_unicode(flags)),
        fits(names.domain, asks_unicode(flags)),
        fits(names.workstation, asks_unicode(flags)),
        response.len() <= u16::MAX,
    ensures
        message::parsed(authenticate_message(names, response, flags)) == Ok::<_, Seq<char>>(
            Some(names),
        ),
        message::client_challenge_in(authenticate_message(names, response, flags)) == Ok::<
            _,
            Seq<char>,
        >(
            if response.len() <= PROOF {
                None
            } else {
                Some(response.skip(PROOF as int))
            },
        ),
{
    let unicode = asks_unicode(flags);
    let domain = written(names.domain, unicode);
    let user = written(names.user, unicode);
    let workstation = written(names.workstation, unicode);
    let rest = response + domain + user + workstation;
    let bytes = authenticate_message(names, response, flags);
    let to_domain = 64 + response.len() as int;
    let to_user = to_domain + domain.len();
    let to_workstation = to_user + user.len();
    opening_points(
        response.len() as int,
        domain.len() as int,
        user.len() as int,
        workstation.len() as int,
        flags,
        rest,
    );
    assert(bytes =~= opening(
        response.len() as int,
        domain.len() as int,
        user.len() as int,
        workstation.len() as int,
        flags,
    ) + rest);
    assert(bytes.subrange(64, to_domain) =~= response);
    assert(bytes.subrange(to_domain, to_user) =~= domain);
    assert(bytes.subrange(to_user, to_workstation) =~= user);
    assert(bytes.subrange(to_workstation, to_workstation + workstation.len()) =~= workstation);
    names_read_back(bytes, names);
}

} // verus!
