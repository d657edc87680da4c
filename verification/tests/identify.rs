use base64::engine::general_purpose::STANDARD;
use base64::Engine;
use identify_ntlm::message::{NEGOTIATE_UNICODE, NT_RESPONSE_FIELDS, PROOF, SIGNATURE};
use identify_ntlm::{
    Arriving, Authorization, ClientChallenge, Established, IdentifyError, Layer, Ntlm, Presented,
    StreamArrival, AUTHENTICATE_PROOF, AUTHORIZATION, CHALLENGE_PROOF, DOMAIN, NEGOTIATE_PROOF,
    PRINCIPAL_SERVICE, PRINCIPAL_USER, TARGET, TARGET_UNTRUSTED, WORKSTATION,
};

fn utf16(text: &str) -> Vec<u8> {
    text.encode_utf16().flat_map(u16::to_le_bytes).collect()
}

/// An AUTHENTICATE message with the three names, Unicode, and empty
/// responses: the shape MS-NLMP 2.2.1.3 gives it.
fn authenticate(user: &str, domain: &str, workstation: &str) -> Vec<u8> {
    authenticate_answering(user, domain, workstation, Vec::new())
}

/// What stands for the client's half of a response in these tests.
const BLOB: &[u8] = b"the client's half";

/// An `NTLMv2` response: sixteen bytes of proof, then the client's half.
fn answering() -> Vec<u8> {
    let mut response = vec![0xAB; PROOF];
    response.extend_from_slice(BLOB);
    response
}

/// The same message carrying an NT response.
fn authenticate_answering(
    user: &str,
    domain: &str,
    workstation: &str,
    nt_response: Vec<u8>,
) -> Vec<u8> {
    let mut message = Vec::new();
    message.extend_from_slice(&SIGNATURE);
    message.extend_from_slice(&3u32.to_le_bytes());
    let payloads = [
        Vec::new(),
        nt_response,
        utf16(domain),
        utf16(user),
        utf16(workstation),
        Vec::new(),
    ];
    let mut offset = 64u32;
    for payload in &payloads {
        let length = u16::try_from(payload.len()).expect("short");
        message.extend_from_slice(&length.to_le_bytes());
        message.extend_from_slice(&length.to_le_bytes());
        message.extend_from_slice(&offset.to_le_bytes());
        offset += u32::from(length);
    }
    message.extend_from_slice(&NEGOTIATE_UNICODE.to_le_bytes());
    for payload in &payloads {
        message.extend_from_slice(payload);
    }
    message
}

fn authorization(scheme: &str, bytes: &[u8]) -> Vec<(String, String)> {
    vec![(
        AUTHORIZATION.to_string(),
        format!("{scheme} {}", STANDARD.encode(bytes)),
    )]
}

fn property(properties: &[(String, String)], name: &str) -> Option<String> {
    properties
        .iter()
        .find(|(property, _)| property == name)
        .map(|(_, value)| value.clone())
}

fn arrival(arriving: Arriving, properties: &[(String, String)]) -> StreamArrival {
    StreamArrival {
        arriving,
        authorization: property(properties, AUTHORIZATION).map(|value| {
            let (scheme, encoded) = value.split_once(' ').expect("a scheme");
            Authorization {
                scheme: scheme.to_string(),
                encoded: encoded.to_string(),
            }
        }),
        negotiate: property(properties, NEGOTIATE_PROOF),
        challenge: property(properties, CHALLENGE_PROOF),
    }
}

/// The user principal names that these tests know.
fn user_principal(user: &str, domain: &str) -> Option<String> {
    match (user, domain) {
        ("jane", "PARTNERX") => Some("jane@partnerx".to_string()),
        ("Jane", "Partner-X.Example") => Some("Jane@partner-x.example".to_string()),
        _ => None,
    }
}

/// The service principal names that these tests know.
fn service_principal(target: &str) -> Option<String> {
    match target {
        "HTTP/Xmip.Example" | "HTTP/xmip.example" => Some("HTTP/xmip.example".to_string()),
        _ => None,
    }
}

/// A response of another kind than `NTLMv2` says nothing.
fn says_nothing(_: &[u8]) -> Result<Option<ClientChallenge>, IdentifyError> {
    Ok(None)
}

fn identify(arrival: &StreamArrival) -> Result<Option<Presented>, IdentifyError> {
    Ntlm.identify(arrival, user_principal, says_nothing, service_principal)
}

/// Identify where the client's half of the response says `target`.
fn identify_aiming(
    arrival: &StreamArrival,
    target: Option<&str>,
    flags: u32,
) -> Result<Option<Presented>, IdentifyError> {
    Ntlm.identify(
        arrival,
        user_principal,
        |bytes: &[u8]| {
            assert_eq!(bytes, BLOB);
            Ok(Some(ClientChallenge {
                target: target.map(str::to_string),
                untrusted: flags & 0x4 != 0,
            }))
        },
        service_principal,
    )
}

#[test]
fn a_type_3_is_presented_by_its_user_with_domain_and_workstation_beside() {
    let properties = authorization("NTLM", &authenticate("jane", "PARTNERX", "WS01"));
    let arrival = arrival(Arriving::Pushed, &properties);

    let claim = identify(&arrival).expect("read").expect("a claim");

    assert_eq!(claim.value, "jane");
    assert_eq!(claim.established, Established::Passed);
    assert_eq!(claim.layer(), Layer::Transport);
    assert_eq!(claim.mechanism.name(), "ntlm");
    assert_eq!(
        claim.evidence,
        vec![
            (DOMAIN.to_string(), "PARTNERX".to_string()),
            (WORKSTATION.to_string(), "WS01".to_string()),
            (PRINCIPAL_USER.to_string(), "jane@partnerx".to_string()),
        ]
    );
    let proof = claim.proof_of(AUTHENTICATE_PROOF).expect("proof");
    assert_eq!(properties[0].1, format!("NTLM {proof}"));
}

#[test]
fn a_type_3_under_negotiate_reads_the_same_and_a_kerberos_token_does_not() {
    let properties = authorization("Negotiate", &authenticate("jane", "", ""));
    let pushed = arrival(Arriving::Pushed, &properties);

    let claim = identify(&pushed).expect("read").expect("a claim");
    assert_eq!(claim.value, "jane");
    assert!(claim.evidence.is_empty());

    let properties = authorization("Negotiate", &[0x60, 0x06, 0x06, 0x04, 0x2b, 0x06]);
    let pushed = arrival(Arriving::Pushed, &properties);
    assert!(identify(&pushed).expect("read").is_none());
}

#[test]
fn the_user_within_the_domain_is_written_as_a_principal_name_in_canonical_form() {
    let properties = authorization("NTLM", &authenticate("Jane", "Partner-X.Example", ""));
    let arrival = arrival(Arriving::Pushed, &properties);

    let claim = identify(&arrival).expect("read").expect("a claim");

    assert_eq!(claim.value, "Jane", "the value stays the user");
    assert_eq!(
        claim.evidence,
        vec![
            (DOMAIN.to_string(), "Partner-X.Example".to_string()),
            (
                PRINCIPAL_USER.to_string(),
                "Jane@partner-x.example".to_string()
            ),
        ]
    );
}

#[test]
fn a_user_without_a_domain_or_within_no_real_one_gains_no_principal_evidence() {
    for domain in ["", "not a domain"] {
        let properties = authorization("NTLM", &authenticate("jane", domain, "WS01"));
        let arrival = arrival(Arriving::Pushed, &properties);

        let claim = identify(&arrival).expect("read").expect("a claim");

        assert!(
            claim
                .evidence
                .iter()
                .all(|(name, _)| name != PRINCIPAL_USER && name != PRINCIPAL_SERVICE),
            "{domain}"
        );
    }
}

#[test]
fn the_target_the_client_named_is_written_as_a_service_principal_name() {
    // MS-NLMP 2.2.2.1: MsvAvTargetName, among the pairs of the response.
    let bytes = authenticate_answering("jane", "PARTNERX", "WS01", answering());
    let properties = authorization("NTLM", &bytes);
    let arrival = arrival(Arriving::Pushed, &properties);

    let claim = identify_aiming(&arrival, Some("HTTP/Xmip.Example"), 0x2)
        .expect("read")
        .expect("a claim");
    let said = |name: &str| {
        claim
            .evidence
            .iter()
            .find(|(evidence, _)| evidence == name)
            .map(|(_, value)| value.as_str())
    };

    assert_eq!(claim.value, "jane");
    assert_eq!(said(TARGET), Some("HTTP/Xmip.Example"));
    assert_eq!(said(PRINCIPAL_SERVICE), Some("HTTP/xmip.example"));
    assert_eq!(said(PRINCIPAL_USER), Some("jane@partnerx"));
    assert_eq!(said(TARGET_UNTRUSTED), None);
}

#[test]
fn a_target_from_an_untrusted_source_is_written_and_not_as_a_principal_name() {
    let bytes = authenticate_answering("jane", "PARTNERX", "WS01", answering());
    let properties = authorization("NTLM", &bytes);
    let arrival = arrival(Arriving::Pushed, &properties);

    let claim = identify_aiming(&arrival, Some("HTTP/xmip.example"), 0x2 | 0x4)
        .expect("read")
        .expect("a claim");
    let names: Vec<&str> = claim
        .evidence
        .iter()
        .map(|(name, _)| name.as_str())
        .collect();

    assert!(names.contains(&TARGET), "{names:?}");
    assert!(names.contains(&TARGET_UNTRUSTED), "{names:?}");
    assert!(!names.contains(&PRINCIPAL_SERVICE), "{names:?}");
}

#[test]
fn an_ntlmv1_response_names_no_target_and_one_outside_the_message_is_an_error() {
    let older = authenticate_answering("jane", "PARTNERX", "WS01", vec![0x5A; 24]);
    let properties = authorization("NTLM", &older);
    let pushed = arrival(Arriving::Pushed, &properties);
    let claim = identify(&pushed).expect("read").expect("a claim");
    assert!(claim.evidence.iter().all(|(name, _)| name != TARGET));

    // The names read whole; only the NT response is made to point away.
    let mut astray = authenticate_answering("jane", "PARTNERX", "WS01", answering());
    astray[NT_RESPONSE_FIELDS + 4..NT_RESPONSE_FIELDS + 8]
        .copy_from_slice(&0x00FF_FFFFu32.to_le_bytes());
    let properties = authorization("NTLM", &astray);
    let pushed = arrival(Arriving::Pushed, &properties);
    let failure = identify_aiming(&pushed, None, 0).expect_err("astray");
    assert!(failure.message.contains("NtChallengeResponse"), "{failure:?}");
}

#[test]
fn the_handshakes_first_two_legs_ride_on_as_proofs_where_the_transport_kept_them() {
    let mut properties = authorization("NTLM", &authenticate("jane", "PARTNERX", "WS01"));
    let pushed = arrival(Arriving::Pushed, &properties);
    let claim = identify(&pushed).expect("read").expect("a claim");
    assert_eq!(claim.proof_of(NEGOTIATE_PROOF), None);

    properties.push((NEGOTIATE_PROOF.to_string(), "TlRMTVNTUAAB".to_string()));
    properties.push((CHALLENGE_PROOF.to_string(), " TlRMTVNTUAAC ".to_string()));
    let pushed = arrival(Arriving::Pushed, &properties);
    let claim = identify(&pushed).expect("read").expect("a claim");

    assert_eq!(claim.proof_of(NEGOTIATE_PROOF), Some("TlRMTVNTUAAB"));
    assert_eq!(claim.proof_of(CHALLENGE_PROOF), Some("TlRMTVNTUAAC"));
    assert!(claim.proof_of(AUTHENTICATE_PROOF).is_some());
}

#[test]
fn a_type_1_claims_nothing_yet_and_another_scheme_is_not_this_mechanism() {
    let mut negotiate = SIGNATURE.to_vec();
    negotiate.extend_from_slice(&1u32.to_le_bytes());
    negotiate.extend_from_slice(&[0; 20]);
    let properties = authorization("NTLM", &negotiate);
    let pushed = arrival(Arriving::Pushed, &properties);
    assert!(identify(&pushed).expect("read").is_none());

    let properties = [(AUTHORIZATION.to_string(), "Bearer abc".to_string())];
    let pushed = arrival(Arriving::Pushed, &properties);
    assert!(identify(&pushed).expect("read").is_none());
}

#[test]
fn a_truncated_type_3_is_an_error_naming_where_it_stopped() {
    let properties = authorization("NTLM", &authenticate("jane", "PARTNERX", "WS01")[..40]);
    let arrival = arrival(Arriving::Pushed, &properties);

    let failure = identify(&arrival).expect_err("truncated");

    assert!(failure.message.contains("truncated"), "{failure:?}");
}

#[test]
fn a_message_that_is_not_ntlmssp_is_an_error_naming_why() {
    let properties = authorization("NTLM", b"not an NTLM message at all");
    let arrival = arrival(Arriving::Pushed, &properties);

    let failure = identify(&arrival).expect_err("no signature");

    assert!(failure.message.contains("NTLMSSP signature"), "{failure:?}");
}

#[test]
fn a_scheduled_pickup_presents_nothing_because_the_credential_was_xmips_own() {
    let properties = authorization("NTLM", &authenticate("xmip", "", ""));
    let arrival = arrival(Arriving::Scheduled, &properties);

    assert!(identify(&arrival).expect("read").is_none());
}
