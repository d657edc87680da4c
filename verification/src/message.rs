//! The layout of an NTLMSSP message, and the names that an AUTHENTICATE
//! message carries in the clear.

use vstd::prelude::*;
use vstd::slice::slice_subrange;

use crate::error::{self, IdentifyError};
use crate::text;

verus! {

/// The bytes that every message opens with: `NTLMSSP` and a zero.
pub const SIGNATURE: [u8; 8] = [0x4E, 0x54, 0x4C, 0x4D, 0x53, 0x53, 0x50, 0x00];

/// Where the message type stands.
pub const TYPE: usize = 8;

/// Where the fields of the NT response stand.
pub const NT_RESPONSE_FIELDS: usize = 20;

/// Where the fields of the domain stand.
pub const DOMAIN_FIELDS: usize = 28;

/// Where the fields of the user stand.
pub const USER_FIELDS: usize = 36;

/// Where the fields of the workstation stand.
pub const WORKSTATION_FIELDS: usize = 44;

/// Where the negotiated flags stand.
pub const FLAGS: usize = 60;

/// The flag under which names are UTF-16.
pub const NEGOTIATE_UNICODE: u32 = 0x0000_0001;

/// The length of the proof that an `NTLMv2` response opens with.
pub const PROOF: usize = 16;

/// Whether `bytes` open with the signature.
pub open spec fn is_signed(bytes: Seq<u8>) -> bool {
    SIGNATURE@.is_prefix_of(bytes)
}

/// Whether `bytes` are long enough for a message type and open with the
/// signature.
pub open spec fn is_message(bytes: Seq<u8>) -> bool {
    is_signed(bytes) && bytes.len() >= TYPE + 4
}

/// The little-endian number in the two bytes from `at` on, where `bytes`
/// hold them.
pub open spec fn u16_le(bytes: Seq<u8>, at: int) -> Option<u16> {
    if 0 <= at && at + 2 <= bytes.len() {
        Some((bytes[at] + 0x100 * bytes[at + 1]) as u16)
    } else {
        None
    }
}

/// The little-endian number in the four bytes from `at` on, where `bytes`
/// hold them.
pub open spec fn u32_le(bytes: Seq<u8>, at: int) -> Option<u32> {
    if 0 <= at && at + 4 <= bytes.len() {
        Some(
            (bytes[at] + 0x100 * bytes[at + 1] + 0x1_0000 * bytes[at + 2] + 0x100_0000 * bytes[at
                + 3]) as u32,
        )
    } else {
        None
    }
}

/// Where a `Len, MaxLen, BufferOffset` field points.
pub struct Buffer {
    pub length: int,
    pub offset: int,
}

/// The field at `at`, where `bytes` hold it whole.
pub open spec fn buffer_at(bytes: Seq<u8>, at: int) -> Option<Buffer> {
    match (u16_le(bytes, at), u32_le(bytes, at + 4)) {
        (Some(length), Some(offset)) => Some(
            Buffer { length: length as int, offset: offset as int },
        ),
        _ => None,
    }
}

/// Whether `buffer` lies within `bytes`.
pub open spec fn lies_within(buffer: Buffer, bytes: Seq<u8>) -> bool {
    buffer.offset + buffer.length <= bytes.len()
}

/// The bytes that `buffer` points at.
pub open spec fn payload(bytes: Seq<u8>, buffer: Buffer) -> Seq<u8> {
    bytes.subrange(buffer.offset, buffer.offset + buffer.length)
}

/// The text that stands in `payload`, and `None` where it is not UTF-16
/// and has to be.
pub open spec fn name_in(payload: Seq<u8>, unicode: bool) -> Option<Seq<char>> {
    if unicode {
        text::utf16_text(text::units_of(payload))
    } else {
        Some(text::single_byte_text(payload))
    }
}

/// The text that the field at `at` points at, or why there is none.
pub open spec fn field_text(bytes: Seq<u8>, at: int, unicode: bool, name: Seq<char>) -> Result<
    Seq<char>,
    Seq<char>,
> {
    match buffer_at(bytes, at) {
        None => Err("the NTLM AUTHENTICATE message is truncated before its "@ + name + " field"@),
        Some(buffer) => if !lies_within(buffer, bytes) {
            Err("the NTLM AUTHENTICATE message's "@ + name + " points outside the message"@)
        } else {
            match name_in(payload(bytes, buffer), unicode) {
                None => Err("the NTLM "@ + name + " is not UTF-16"@),
                Some(found) => Ok(found),
            }
        },
    }
}

/// Whether the flags of an AUTHENTICATE message make its names UTF-16.
pub open spec fn is_unicode(flags: u32) -> bool {
    flags % 2 == 1
}

/// The names that an AUTHENTICATE message carries in the clear.
#[derive(Clone, Debug, Eq, PartialEq)]
pub struct Authenticate {
    pub user: String,
    pub domain: String,
    pub workstation: String,
}

/// The names as values of the model.
#[verifier::ext_equal]
pub struct Names {
    pub user: Seq<char>,
    pub domain: Seq<char>,
    pub workstation: Seq<char>,
}

impl DeepView for Authenticate {
    type V = Names;

    open spec fn deep_view(&self) -> Names {
        Names { user: self.user@, domain: self.domain@, workstation: self.workstation@ }
    }
}

/// The names in an AUTHENTICATE message whose flags are `flags`, or why
/// they cannot be read. The user is read first, then the domain, then the
/// workstation, and the first that fails says why.
pub open spec fn names_in(bytes: Seq<u8>, flags: u32) -> Result<Names, Seq<char>> {
    let unicode = is_unicode(flags);
    let user = field_text(bytes, USER_FIELDS as int, unicode, "UserName"@);
    let domain = field_text(bytes, DOMAIN_FIELDS as int, unicode, "DomainName"@);
    let workstation = field_text(bytes, WORKSTATION_FIELDS as int, unicode, "Workstation"@);
    match (user, domain, workstation) {
        (Err(why), _, _) => Err(why),
        (Ok(user), _, _) if user.len() == 0 => Err(
            "the NTLM AUTHENTICATE message names no user"@,
        ),
        (_, Err(why), _) => Err(why),
        (_, _, Err(why)) => Err(why),
        (Ok(user), Ok(domain), Ok(workstation)) => Ok(Names { user, domain, workstation }),
    }
}

/// What `bytes` say as an NTLMSSP message: nothing for a NEGOTIATE, the
/// names for an AUTHENTICATE, and for anything else why it is refused.
pub open spec fn parsed(bytes: Seq<u8>) -> Result<Option<Names>, Seq<char>> {
    if !is_message(bytes) {
        Err("the NTLM message has no NTLMSSP signature"@)
    } else {
        match u32_le(bytes, TYPE as int)->0 {
            1 => Ok(None),
            2 => Err("the NTLM message is a CHALLENGE: the server's, not a credential"@),
            3 => match u32_le(bytes, FLAGS as int) {
                None => Err("the NTLM AUTHENTICATE message is truncated before its flags"@),
                Some(flags) => match names_in(bytes, flags) {
                    Err(why) => Err(why),
                    Ok(names) => Ok(Some(names)),
                },
            },
            _ => Err("the NTLM message type is not 1, 2 or 3"@),
        }
    }
}

/// The client's half of the NT response: what follows the proof, where the
/// message carries a response that is longer than a proof.
pub open spec fn client_challenge_in(bytes: Seq<u8>) -> Result<Option<Seq<u8>>, Seq<char>> {
    match buffer_at(bytes, NT_RESPONSE_FIELDS as int) {
        None => Ok(None),
        Some(response) => if response.length <= PROOF {
            Ok(None)
        } else if !lies_within(response, bytes) {
            Err(
                "the NTLM AUTHENTICATE message's NtChallengeResponse points outside the message"@,
            )
        } else {
            Ok(Some(payload(bytes, response).skip(PROOF as int)))
        },
    }
}

/// Whether `bytes` open with the signature.
pub fn has_signature(bytes: &[u8]) -> (signed: bool)
    ensures
        signed == is_signed(bytes@),
{
    if bytes.len() < 8 {
        return false;
    }
    for i in 0..8usize
        invariant
            bytes@.len() >= 8,
            forall|j: int| 0 <= j < i ==> bytes@[j] == SIGNATURE@[j],
    {
        if bytes[i] != SIGNATURE[i] {
            return false;
        }
    }
    assert(bytes@.take(8) =~= SIGNATURE@);
    true
}

/// The little-endian number in the two bytes from `at` on.
pub fn u16_at(bytes: &[u8], at: usize) -> (number: Option<u16>)
    requires
        at + 2 <= usize::MAX,
    ensures
        number == u16_le(bytes@, at as int),
{
    if at + 2 <= bytes.len() {
        Some(bytes[at] as u16 + 0x100 * bytes[at + 1] as u16)
    } else {
        None
    }
}

/// The little-endian number in the four bytes from `at` on.
pub fn u32_at(bytes: &[u8], at: usize) -> (number: Option<u32>)
    requires
        at + 4 <= usize::MAX,
    ensures
        number == u32_le(bytes@, at as int),
{
    if at + 4 <= bytes.len() {
        Some(
            bytes[at] as u32 + 0x100 * bytes[at + 1] as u32 + 0x1_0000 * bytes[at + 2] as u32
                + 0x100_0000 * bytes[at + 3] as u32,
        )
    } else {
        None
    }
}

/// The `length` bytes from `offset` on, where `bytes` hold them.
fn range(bytes: &[u8], offset: u32, length: u16) -> (found: Option<&[u8]>)
    ensures
        match found {
            Some(found) => offset + length <= bytes@.len() && found@ == bytes@.subrange(
                offset as int,
                offset + length,
            ),
            None => offset + length > bytes@.len(),
        },
{
    let end: u64 = offset as u64 + length as u64;
    if end <= bytes.len() as u64 {
        Some(slice_subrange(bytes, offset as usize, end as usize))
    } else {
        None
    }
}

/// One `Len, MaxLen, BufferOffset` field, and the text it points at.
pub fn field(bytes: &[u8], at: usize, unicode: bool, name: &str) -> (found: Result<
    String,
    IdentifyError,
>)
    requires
        at + 8 <= usize::MAX,
    ensures
        error::outcome(found) == field_text(bytes@, at as int, unicode, name@),
{
    let (Some(length), Some(offset)) = (u16_at(bytes, at), u32_at(bytes, at + 4)) else {
        return Err(
            IdentifyError::naming(
                "the NTLM AUTHENTICATE message is truncated before its ",
                name,
                " field",
            ),
        );
    };
    let Some(payload) = range(bytes, offset, length) else {
        return Err(
            IdentifyError::naming(
                "the NTLM AUTHENTICATE message's ",
                name,
                " points outside the message",
            ),
        );
    };
    if unicode {
        let units = text::utf16_units(payload);
        match text::utf16_to_string(units.as_slice()) {
            Some(found) => Ok(found),
            None => Err(IdentifyError::naming("the NTLM ", name, " is not UTF-16")),
        }
    } else {
        Ok(text::single_bytes_to_string(payload))
    }
}

impl Authenticate {
    /// Read the names out of an NTLMSSP message.
    ///
    /// `None` for a NEGOTIATE, which claims nothing yet. An error where the
    /// bytes are not an NTLMSSP message, are a CHALLENGE, are truncated, or
    /// name no user.
    pub fn parse(bytes: &[u8]) -> (read: Result<Option<Self>, IdentifyError>)
        ensures
            error::outcome(read) == parsed(bytes@),
    {
        if !has_signature(bytes) || bytes.len() < 12 {
            return Err(IdentifyError::new("the NTLM message has no NTLMSSP signature"));
        }
        match u32_at(bytes, TYPE) {
            Some(1) => return Ok(None),
            Some(2) => {
                return Err(
                    IdentifyError::new(
                        "the NTLM message is a CHALLENGE: the server's, not a credential",
                    ),
                );
            },
            Some(3) => {},
            _ => return Err(IdentifyError::new("the NTLM message type is not 1, 2 or 3")),
        }
        let Some(flags) = u32_at(bytes, FLAGS) else {
            return Err(
                IdentifyError::new("the NTLM AUTHENTICATE message is truncated before its flags"),
            );
        };
        let unicode = flags & NEGOTIATE_UNICODE != 0;
        assert((flags & 1u32 != 0) == (flags % 2 == 1)) by (bit_vector);
        let user = match field(bytes, USER_FIELDS, unicode, "UserName") {
            Ok(user) => user,
            Err(why) => return Err(why),
        };
        if user.as_str().is_empty() {
            return Err(IdentifyError::new("the NTLM AUTHENTICATE message names no user"));
        }
        let domain = match field(bytes, DOMAIN_FIELDS, unicode, "DomainName") {
            Ok(domain) => domain,
            Err(why) => return Err(why),
        };
        let workstation = match field(bytes, WORKSTATION_FIELDS, unicode, "Workstation") {
            Ok(workstation) => workstation,
            Err(why) => return Err(why),
        };
        Ok(Some(Authenticate { user, domain, workstation }))
    }
}

/// The client's half of the NT response, where the message carries an
/// `NTLMv2` one: what follows the sixteen bytes of proof.
pub fn client_challenge(bytes: &[u8]) -> (half: Result<Option<&[u8]>, IdentifyError>)
    ensures
        error::outcome(half) == client_challenge_in(bytes@),
{
    let (Some(length), Some(offset)) = (
        u16_at(bytes, NT_RESPONSE_FIELDS),
        u32_at(bytes, NT_RESPONSE_FIELDS + 4),
    ) else {
        return Ok(None);
    };
    if length as usize <= PROOF {
        return Ok(None);
    }
    let Some(response) = range(bytes, offset, length) else {
        return Err(
            IdentifyError::new(
                "the NTLM AUTHENTICATE message's NtChallengeResponse points outside the message",
            ),
        );
    };
    let half = slice_subrange(response, PROOF, response.len());
    assert(half.deep_view() =~= response@.skip(PROOF as int));
    Ok(Some(half))
}

} // verus!
