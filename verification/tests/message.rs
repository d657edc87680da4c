use identify_ntlm::message::{
    client_challenge, field, has_signature, u16_at, u32_at, FLAGS, NT_RESPONSE_FIELDS, SIGNATURE,
    USER_FIELDS,
};
use identify_ntlm::text::{single_bytes_to_string, utf16_to_string, utf16_units};
use identify_ntlm::Authenticate;

fn utf16(text: &str) -> Vec<u8> {
    text.encode_utf16().flat_map(u16::to_le_bytes).collect()
}

/// The field that points at `length` bytes from `offset` on.
fn pointer(length: u16, offset: u32) -> Vec<u8> {
    let mut field = Vec::new();
    field.extend_from_slice(&length.to_le_bytes());
    field.extend_from_slice(&length.to_le_bytes());
    field.extend_from_slice(&offset.to_le_bytes());
    field
}

/// An AUTHENTICATE with these payloads, in the order of their fields.
fn message(response: &[u8], domain: &[u8], user: &[u8], workstation: &[u8], flags: u32) -> Vec<u8> {
    let payloads: [&[u8]; 6] = [&[], response, domain, user, workstation, &[]];
    let mut bytes = SIGNATURE.to_vec();
    bytes.extend_from_slice(&3u32.to_le_bytes());
    let mut offset = 64u32;
    for payload in payloads {
        bytes.extend_from_slice(&pointer(payload.len() as u16, offset));
        offset += payload.len() as u32;
    }
    bytes.extend_from_slice(&flags.to_le_bytes());
    for payload in payloads {
        bytes.extend_from_slice(payload);
    }
    bytes
}

fn unicode(user: &str, domain: &str, workstation: &str) -> Vec<u8> {
    message(&[], &utf16(domain), &utf16(user), &utf16(workstation), 1)
}

fn names(user: &str, domain: &str, workstation: &str) -> Authenticate {
    Authenticate {
        user: user.to_string(),
        domain: domain.to_string(),
        workstation: workstation.to_string(),
    }
}

fn of_type(number: u32) -> Vec<u8> {
    let mut bytes = SIGNATURE.to_vec();
    bytes.extend_from_slice(&number.to_le_bytes());
    bytes
}

fn failure(bytes: &[u8]) -> String {
    Authenticate::parse(bytes).expect_err("refused").message
}

#[test]
fn the_signature_is_ntlmssp_and_a_zero() {
    assert_eq!(&SIGNATURE, b"NTLMSSP\0");
    assert!(has_signature(b"NTLMSSP\0"));
    assert!(has_signature(b"NTLMSSP\0more"));
    assert!(!has_signature(b"NTLMSSP"));
    assert!(!has_signature(b"NTLMSSP1"));
    assert!(!has_signature(b"ntlmssp\0"));
}

#[test]
fn numbers_are_little_endian_and_whole_or_none() {
    let bytes = [0x01, 0x02, 0x03, 0x04, 0xFF];
    assert_eq!(u16_at(&bytes, 0), Some(0x0201));
    assert_eq!(u16_at(&bytes, 3), Some(0xFF04));
    assert_eq!(u16_at(&bytes, 4), None);
    assert_eq!(u16_at(&bytes, 5), None);
    assert_eq!(u32_at(&bytes, 0), Some(0x0403_0201));
    assert_eq!(u32_at(&bytes, 1), Some(0xFF04_0302));
    assert_eq!(u32_at(&bytes, 2), None);
    assert_eq!(u32_at(&[], 0), None);
}

#[test]
fn a_message_reads_back_as_the_names_written_in_it() {
    for (user, domain, workstation) in [
        ("jane", "PARTNERX", "WS01"),
        ("j", "", ""),
        ("zo\u{eb}", "\u{65e5}\u{672c}", "\u{1f600}"),
    ] {
        let read = Authenticate::parse(&unicode(user, domain, workstation));
        assert_eq!(read.expect("read"), Some(names(user, domain, workstation)));
    }
}

#[test]
fn without_the_flag_each_byte_is_a_character() {
    let bytes = message(&[], b"PARTNERX", &[0x6A, 0xE9], b"WS01", 0xFFFF_FFFE);
    let read = Authenticate::parse(&bytes).expect("read");
    assert_eq!(read, Some(names("j\u{e9}", "PARTNERX", "WS01")));
}

#[test]
fn a_negotiate_claims_nothing_and_other_types_are_refused() {
    assert_eq!(Authenticate::parse(&of_type(1)).expect("read"), None);
    assert_eq!(
        failure(&of_type(2)),
        "the NTLM message is a CHALLENGE: the server's, not a credential"
    );
    for number in [0, 4, 0x0100_0003] {
        assert_eq!(
            failure(&of_type(number)),
            "the NTLM message type is not 1, 2 or 3"
        );
    }
}

#[test]
fn what_is_cut_short_is_refused_or_reads_as_the_whole() {
    let whole = unicode("jane", "PARTNERX", "WS01");
    for length in 0..whole.len() {
        let why = failure(&whole[..length]);
        if length < 12 {
            assert_eq!(why, "the NTLM message has no NTLMSSP signature");
        } else if length < 64 {
            assert_eq!(
                why,
                "the NTLM AUTHENTICATE message is truncated before its flags"
            );
        } else {
            assert!(why.contains("points outside the message"), "{why}");
        }
    }
    let mut longer = whole.clone();
    longer.extend_from_slice(b"and more");
    assert_eq!(
        Authenticate::parse(&longer).expect("read"),
        Authenticate::parse(&whole).expect("read")
    );
}

#[test]
fn a_message_that_names_no_user_is_refused() {
    let why = "the NTLM AUTHENTICATE message names no user";
    assert_eq!(failure(&unicode("", "PARTNERX", "WS01")), why);
    // One odd byte is no half of a UTF-16 unit.
    assert_eq!(failure(&message(&[], &[], b"j", &[], 1)), why);
}

#[test]
fn a_name_that_is_not_utf16_is_refused_by_its_name() {
    let lone = 0xD800u16.to_le_bytes();
    let user = utf16("jane");
    assert_eq!(
        failure(&message(&[], &[], &lone, &[], 1)),
        "the NTLM UserName is not UTF-16"
    );
    assert_eq!(
        failure(&message(&[], &lone, &user, &[], 1)),
        "the NTLM DomainName is not UTF-16"
    );
    assert_eq!(
        failure(&message(&[], &[], &user, &lone, 1)),
        "the NTLM Workstation is not UTF-16"
    );
}

#[test]
fn a_field_says_where_it_fails() {
    let bytes = unicode("jane", "PARTNERX", "WS01");
    let read = field(&bytes, USER_FIELDS, true, "UserName").expect("read");
    assert_eq!(read, "jane");
    let why = field(&bytes[..43], USER_FIELDS, true, "UserName").expect_err("truncated");
    assert_eq!(
        why.message,
        "the NTLM AUTHENTICATE message is truncated before its UserName field"
    );
    let why = field(&bytes[..64], USER_FIELDS, true, "UserName").expect_err("astray");
    assert_eq!(
        why.message,
        "the NTLM AUTHENTICATE message's UserName points outside the message"
    );
    // An empty field may point at the end of the message, and no further.
    let end = pointer(0, 8);
    assert_eq!(field(&end, 0, true, "Empty").expect("read"), "");
    let beyond = pointer(0, 9);
    assert!(field(&beyond, 0, true, "Empty").is_err());
    let far = pointer(u16::MAX, u32::MAX);
    assert!(field(&far, 0, true, "Far").is_err());
}

#[test]
fn the_names_do_not_depend_on_the_nt_response() {
    let bytes = unicode("jane", "PARTNERX", "WS01");
    let mut other = bytes.clone();
    for byte in &mut other[12..28] {
        *byte = 0xEE;
    }
    // Nor on any MaxLen.
    for at in [30, 31, 38, 39, 46, 47] {
        other[at] = 0xEE;
    }
    assert_eq!(
        Authenticate::parse(&other).expect("read"),
        Authenticate::parse(&bytes).expect("read")
    );
}

#[test]
fn the_clients_half_follows_the_proof() {
    let user = utf16("jane");
    let response: Vec<u8> = (0..40).collect();
    let half = |response: &[u8]| {
        let bytes = message(response, &[], &user, &[], 1);
        client_challenge(&bytes).expect("read").map(<[u8]>::to_vec)
    };
    assert_eq!(half(&response), Some(response[16..].to_vec()));
    assert_eq!(half(&response[..17]), Some(vec![16]));
    assert_eq!(half(&response[..16]), None);
    assert_eq!(half(&[]), None);
    assert_eq!(client_challenge(&[0; 27]).expect("read"), None);
}

#[test]
fn a_response_outside_the_message_is_refused_unless_it_is_short() {
    let mut bytes = message(&[0; 17], &[], &utf16("jane"), &[], 1);
    bytes[NT_RESPONSE_FIELDS + 4..NT_RESPONSE_FIELDS + 8].copy_from_slice(&u32::MAX.to_le_bytes());
    assert_eq!(
        client_challenge(&bytes).expect_err("astray").message,
        "the NTLM AUTHENTICATE message's NtChallengeResponse points outside the message"
    );
    bytes[NT_RESPONSE_FIELDS] = 16;
    assert_eq!(client_challenge(&bytes).expect("read"), None);
}

#[test]
fn only_the_lowest_flag_makes_names_utf16() {
    let mut bytes = unicode("jane", "", "");
    bytes[FLAGS..FLAGS + 4].copy_from_slice(&0xFFFF_FFFFu32.to_le_bytes());
    let read = Authenticate::parse(&bytes).expect("read").expect("names");
    assert_eq!(read.user, "jane");
    bytes[FLAGS..FLAGS + 4].copy_from_slice(&0xFFFF_FFFEu32.to_le_bytes());
    let read = Authenticate::parse(&bytes).expect("read").expect("names");
    assert_eq!(read.user, "j\0a\0n\0e\0");
}

#[test]
fn utf16_is_read_as_the_standard_library_reads_it() {
    let edges = [
        0x0000, 0x0041, 0xD7FF, 0xD800, 0xDBFF, 0xDC00, 0xDFFF, 0xE000, 0xFFFF,
    ];
    for first in edges {
        assert_eq!(
            utf16_to_string(&[first]),
            String::from_utf16(&[first]).ok(),
            "{first:x}"
        );
        for second in edges {
            for third in edges {
                let units = [first, second, third];
                assert_eq!(
                    utf16_to_string(&units),
                    String::from_utf16(&units).ok(),
                    "{units:x?}"
                );
            }
        }
    }
    for unit in 0..=u16::MAX {
        assert_eq!(utf16_to_string(&[unit]), String::from_utf16(&[unit]).ok());
    }
    assert_eq!(
        utf16_to_string(&[0xD83D, 0xDE00]),
        Some("\u{1f600}".to_string())
    );
    assert_eq!(utf16_to_string(&[]), Some(String::new()));
}

#[test]
fn units_are_taken_two_bytes_at_a_time() {
    assert_eq!(utf16_units(&[0x34, 0x12, 0xFF, 0x00]), vec![0x1234, 0x00FF]);
    assert_eq!(utf16_units(&[0x34, 0x12, 0xFF]), vec![0x1234]);
    assert_eq!(utf16_units(&[0x34]), Vec::<u16>::new());
}

#[test]
fn every_byte_stands_for_its_character() {
    let bytes: Vec<u8> = (0..=255).collect();
    let text: String = bytes.iter().map(|byte| char::from(*byte)).collect();
    assert_eq!(single_bytes_to_string(&bytes), text);
}
