use base64::engine::general_purpose::STANDARD;
use base64::Engine;
use identify_ntlm::message::SIGNATURE;
use identify_ntlm::{
    Arriving, Authenticate, Authorization, ClientChallenge, IdentifyError, Mechanism, Ntlm,
    Presented, Reading, Scheme, StreamArrival, AUTHENTICATE_PROOF, AUTHORIZATION, CHALLENGE_PROOF,
    DOMAIN, NEGOTIATE_PROOF, PRINCIPAL_SERVICE, PRINCIPAL_USER, TARGET, TARGET_UNTRUSTED,
    WORKSTATION,
};

/// An AUTHENTICATE by `user`, one byte for each character, with this domain
/// and NT response.
fn message(user: &str, domain: &str, response: &[u8]) -> Vec<u8> {
    let payloads: [&[u8]; 6] = [&[], response, domain.as_bytes(), user.as_bytes(), &[], &[]];
    let mut bytes = SIGNATURE.to_vec();
    bytes.extend_from_slice(&3u32.to_le_bytes());
    let mut offset = 64u32;
    for payload in payloads {
        let length = payload.len() as u16;
        bytes.extend_from_slice(&length.to_le_bytes());
        bytes.extend_from_slice(&length.to_le_bytes());
        bytes.extend_from_slice(&offset.to_le_bytes());
        offset += u32::from(length);
    }
    bytes.extend_from_slice(&0u32.to_le_bytes());
    for payload in payloads {
        bytes.extend_from_slice(payload);
    }
    bytes
}

fn offering(scheme: &str, encoded: &str) -> StreamArrival {
    StreamArrival {
        arriving: Arriving::Pushed,
        authorization: Some(Authorization {
            scheme: scheme.to_string(),
            encoded: encoded.to_string(),
        }),
        negotiate: None,
        challenge: None,
    }
}

fn knows_every_user(user: &str, domain: &str) -> Option<String> {
    Some(format!("{user}@{domain}"))
}

fn knows_every_service(target: &str) -> Option<String> {
    Some(format!("service of {target}"))
}

fn says_nothing(_: &[u8]) -> Result<Option<ClientChallenge>, IdentifyError> {
    Ok(None)
}

fn identify(arrival: &StreamArrival) -> Result<Option<Presented>, IdentifyError> {
    Ntlm.identify(arrival, knows_every_user, says_nothing, knows_every_service)
}

fn pair(name: &str, value: &str) -> (String, String) {
    (name.to_string(), value.to_string())
}

fn reading(domain: &str, workstation: &str) -> Reading {
    Reading {
        authenticate: Authenticate {
            user: "jane".to_string(),
            domain: domain.to_string(),
            workstation: workstation.to_string(),
        },
        half: None,
        encoded: "TlRM".to_string(),
        negotiate: None,
        challenge: None,
    }
}

fn aiming(target: Option<&str>, untrusted: bool) -> Option<ClientChallenge> {
    Some(ClientChallenge {
        target: target.map(str::to_string),
        untrusted,
    })
}

#[test]
fn the_names_are_those_of_the_documentation() {
    assert_eq!(AUTHORIZATION, "http.header.authorization");
    assert_eq!(DOMAIN, "ntlm.domain");
    assert_eq!(WORKSTATION, "ntlm.workstation");
    assert_eq!(PRINCIPAL_USER, "principal.user");
    assert_eq!(TARGET, "ntlm.target");
    assert_eq!(TARGET_UNTRUSTED, "ntlm.target.untrusted");
    assert_eq!(PRINCIPAL_SERVICE, "principal.service");
    assert_eq!(AUTHENTICATE_PROOF, "ntlm.authenticate");
    assert_eq!(NEGOTIATE_PROOF, "ntlm.negotiate");
    assert_eq!(CHALLENGE_PROOF, "ntlm.challenge");
    assert_eq!(Ntlm.mechanism().name(), "ntlm");
}

#[test]
fn a_scheme_has_no_case_and_no_other_letters() {
    for name in ["NTLM", "ntlm", "nTlM"] {
        assert_eq!(Scheme::named(name), Some(Scheme::Ntlm), "{name}");
    }
    for name in ["Negotiate", "NEGOTIATE", "negotiate"] {
        assert_eq!(Scheme::named(name), Some(Scheme::Negotiate), "{name}");
    }
    for name in ["", "NTL", "NTLM ", "NTLMv2", "\u{ff2e}TLM", "Bearer"] {
        assert_eq!(Scheme::named(name), None, "{name}");
    }
}

#[test]
fn what_is_not_base64_is_refused_under_ntlm_alone() {
    for encoded in ["!!!", "not base64", "TlRMTVNTUA", "\u{e9}"] {
        let failure = identify(&offering("NTLM", encoded)).expect_err("refused");
        assert_eq!(failure.message, "the NTLM message is not base64");
        let negotiate = identify(&offering("Negotiate", encoded)).expect("read");
        assert!(negotiate.is_none(), "{encoded}");
    }
}

#[test]
fn base64_is_decoded_before_the_message_is_read() {
    let arrival = offering("NTLM", "TlRMTVNTUAABAAAA");
    assert!(identify(&arrival).expect("read").is_none());
    let arrival = offering("NTLM", "TlRMTVNTUAACAAAA");
    let failure = identify(&arrival).expect_err("refused");
    assert!(failure.message.contains("CHALLENGE"), "{failure:?}");
}

#[test]
fn both_schemes_read_a_message_the_same() {
    let encoded = STANDARD.encode(message("jane", "PARTNERX", &[]));
    let ntlm = identify(&offering("NTLM", &encoded)).expect("read").expect("a claim");
    let negotiate = identify(&offering("negotiate", &encoded)).expect("read").expect("a claim");
    assert_eq!(ntlm.value, negotiate.value);
    assert_eq!(ntlm.evidence, negotiate.evidence);
    assert_eq!(ntlm.proofs, negotiate.proofs);
}

#[test]
fn bytes_of_another_mechanism_are_refused_under_ntlm_alone() {
    let encoded = STANDARD.encode([0x60, 0x06]);
    assert!(identify(&offering("Negotiate", &encoded)).expect("read").is_none());
    let failure = identify(&offering("NTLM", &encoded)).expect_err("refused");
    assert_eq!(failure.message, "the NTLM message has no NTLMSSP signature");
    // Signed and cut off before its type, it is this mechanism's to refuse.
    let encoded = STANDARD.encode(SIGNATURE);
    assert!(identify(&offering("Negotiate", &encoded)).is_err());
}

#[test]
fn nothing_is_read_without_a_push_or_an_authorization() {
    let mut arrival = offering("NTLM", "not base64");
    arrival.arriving = Arriving::Scheduled;
    assert!(identify(&arrival).expect("nothing").is_none());
    arrival.arriving = Arriving::Pushed;
    arrival.authorization = None;
    assert!(identify(&arrival).expect("nothing").is_none());
}

#[test]
fn the_proof_is_the_message_as_it_was_sent() {
    let bytes = message("jane", "PARTNERX", &[]);
    let encoded = STANDARD.encode(&bytes);
    let claim = identify(&offering("NTLM", &encoded)).expect("read").expect("a claim");
    let proof = claim.proof_of(AUTHENTICATE_PROOF).expect("proof");
    assert_eq!(STANDARD.decode(proof).expect("base64"), bytes);
    let read = Authenticate::parse(&bytes).expect("read").expect("names");
    assert_eq!(read.user, claim.value);
}

#[test]
fn a_user_principal_name_is_asked_for_within_a_domain() {
    let encoded = STANDARD.encode(message("jane", "PARTNERX", &[]));
    let claim = identify(&offering("NTLM", &encoded)).expect("read").expect("a claim");
    assert_eq!(
        claim.evidence,
        vec![pair(DOMAIN, "PARTNERX"), pair(PRINCIPAL_USER, "jane@PARTNERX")]
    );
    let encoded = STANDARD.encode(message("jane", "", &[]));
    let claim = identify(&offering("NTLM", &encoded)).expect("read").expect("a claim");
    assert!(claim.evidence.is_empty());
}

#[test]
fn a_response_that_cannot_be_read_stops_the_claim() {
    let encoded = STANDARD.encode(message("jane", "PARTNERX", &[7; 20]));
    let failure = Ntlm
        .identify(
            &offering("NTLM", &encoded),
            knows_every_user,
            |bytes: &[u8]| {
                assert_eq!(bytes, [7; 4]);
                Err(IdentifyError::new("the pairs are cut off"))
            },
            knows_every_service,
        )
        .expect_err("refused");
    assert_eq!(failure.message, "the pairs are cut off");
}

#[test]
fn a_short_response_is_not_asked_about() {
    let encoded = STANDARD.encode(message("jane", "", &[7; 16]));
    let claim = Ntlm
        .identify(
            &offering("NTLM", &encoded),
            knows_every_user,
            |_: &[u8]| Err(IdentifyError::new("asked")),
            knows_every_service,
        )
        .expect("read")
        .expect("a claim");
    assert_eq!(claim.value, "jane");
}

#[test]
fn all_evidence_is_written_in_its_order() {
    let claim = reading("PARTNERX", "WS01").present(
        Some("jane@partnerx".to_string()),
        aiming(Some("HTTP/x"), false),
        Some("HTTP/X".to_string()),
    );
    assert_eq!(
        claim.evidence,
        vec![
            pair(DOMAIN, "PARTNERX"),
            pair(WORKSTATION, "WS01"),
            pair(PRINCIPAL_USER, "jane@partnerx"),
            pair(TARGET, "HTTP/x"),
            pair(PRINCIPAL_SERVICE, "HTTP/X"),
        ]
    );
    assert_eq!(claim.proofs, vec![pair(AUTHENTICATE_PROOF, "TlRM")]);
}

#[test]
fn an_untrusted_target_is_no_service_whatever_is_answered() {
    let claim = reading("", "").present(
        Some("jane@".to_string()),
        aiming(Some("HTTP/x"), true),
        Some("HTTP/X".to_string()),
    );
    assert_eq!(
        claim.evidence,
        vec![pair(TARGET, "HTTP/x"), pair(TARGET_UNTRUSTED, "true")]
    );
}

#[test]
fn without_a_target_nothing_is_said_of_one() {
    for challenge in [None, aiming(None, false), aiming(None, true)] {
        let claim = reading("", "").present(None, challenge, Some("HTTP/X".to_string()));
        assert!(claim.evidence.is_empty());
    }
}

#[test]
fn only_a_trusted_target_is_supplied() {
    let supplied = |challenge: Option<ClientChallenge>| {
        challenge
            .expect("a challenge")
            .supplied_target()
            .map(str::to_string)
    };
    assert_eq!(supplied(aiming(Some("x"), false)), Some("x".to_string()));
    assert_eq!(supplied(aiming(Some("x"), true)), None);
    assert_eq!(supplied(aiming(None, false)), None);
}

#[test]
fn what_the_transport_kept_is_freed_of_white_space() {
    let blanks: String = ('\0'..=char::MAX).filter(|c| c.is_whitespace()).collect();
    assert_eq!(blanks.chars().count(), 25);
    let mut kept = reading("", "");
    kept.negotiate = Some(format!("{blanks}a b{blanks}"));
    kept.challenge = Some(blanks);
    let claim = kept.present(None, None, None);
    assert_eq!(
        claim.proofs,
        vec![
            pair(NEGOTIATE_PROOF, "a b"),
            pair(CHALLENGE_PROOF, ""),
            pair(AUTHENTICATE_PROOF, "TlRM"),
        ]
    );
}

#[test]
fn a_proof_is_found_by_its_name() {
    let claim = Presented::passed(Mechanism::new("ntlm"), "jane".to_string())
        .with_proof("a", "1")
        .with_proof("b", "2")
        .with_proof("a", "3")
        .with_evidence("c", "4");
    assert_eq!(claim.proof_of("a"), Some("1"));
    assert_eq!(claim.proof_of("b"), Some("2"));
    assert_eq!(claim.proof_of("c"), None);
    assert_eq!(claim.evidence, vec![pair("c", "4")]);
}

#[test]
fn what_was_decoded_is_read_as_its_bytes() {
    let arrival = offering("Negotiate", "TlRM");
    let read = Reading::of(&arrival, Some(message("jane", "PARTNERX", &[9; 18])))
        .expect("read")
        .expect("names");
    assert_eq!(read.authenticate.user, "jane");
    assert_eq!(read.half, Some(vec![9, 9]));
    assert_eq!(read.encoded, "TlRM");
    assert!(Reading::of(&arrival, Some(vec![0x60])).expect("read").is_none());
    assert!(Reading::of(&arrival, None).expect("read").is_none());
    assert!(Reading::of(&offering("NTLM", "TlRM"), None).is_err());
}
