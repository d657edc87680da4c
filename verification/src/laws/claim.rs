//! What holds of presenting a claim.

use vstd::prelude::*;

use crate::arrival::{self, Arriving, Scheme};
use crate::challenge::{self, ClientChallenge};
use crate::claim;
use crate::encoding;
use crate::error::IdentifyError;
use crate::identify;
use crate::laws::message as laws;
use crate::laws::plain;
use crate::message;
use crate::names::{
    AUTHENTICATE_PROOF, CHALLENGE_PROOF, DOMAIN, NEGOTIATE_PROOF, PRINCIPAL_SERVICE,
    PRINCIPAL_USER, TARGET, TARGET_UNTRUSTED, WORKSTATION,
};
use crate::text;

verus! {

/// Only a pushed arrival presents anything: of another nothing is read,
/// not even an error, whatever it carries.
pub proof fn only_a_pushed_arrival_presents(arrived: arrival::Arrived, decoded: Option<Seq<u8>>)
    requires
        arrived.arriving != Arriving::Pushed,
    ensures
        identify::reading(arrived, decoded) == Ok::<_, Seq<char>>(None::<identify::Read>),
{
}

/// An arrival without an authorization, or with one under another scheme,
/// presents nothing.
pub proof fn another_scheme_presents_nothing(arrived: arrival::Arrived, decoded: Option<Seq<u8>>)
    requires
        match arrived.authorization {
            Some(header) => {
                &&& text::ascii_lowered(header.scheme) != "ntlm"@
                &&& text::ascii_lowered(header.scheme) != "negotiate"@
            },
            None => true,
        },
    ensures
        identify::reading(arrived, decoded) == Ok::<_, Seq<char>>(None::<identify::Read>),
{
    if let Some(header) = arrived.authorization {
        plain::scheme_is_known_by_its_letters(header.scheme);
    }
}

/// The case of its letters makes no difference to a scheme.
pub proof fn scheme_has_no_case(name: Seq<char>, other: Seq<char>)
    requires
        text::ascii_lowered(name) == text::ascii_lowered(other),
    ensures
        arrival::scheme_named(name) == arrival::scheme_named(other),
{
}

/// What is not base64 is not NTLMSSP either: it presents nothing under
/// `Negotiate`, and is refused under `NTLM`.
pub proof fn undecodable_is_another_mechanisms(arrived: arrival::Arrived)
    ensures
        arrival::offered(arrived) matches Some((Scheme::Negotiate, _)) ==> identify::reading(
            arrived,
            None,
        ) == Ok::<_, Seq<char>>(None::<identify::Read>),
        arrival::offered(arrived) matches Some((Scheme::Ntlm, _)) ==> identify::reading(
            arrived,
            None,
        ) == Err::<Option<identify::Read>, _>("the NTLM message is not base64"@),
{
}

/// Bytes that are not NTLMSSP present nothing under `Negotiate`, where they
/// may be a Kerberos token, and are refused under `NTLM`.
pub proof fn unsigned_is_another_mechanisms(arrived: arrival::Arrived, bytes: Seq<u8>)
    requires
        !message::is_signed(bytes),
    ensures
        arrival::offered(arrived) matches Some((Scheme::Negotiate, _)) ==> identify::reading(
            arrived,
            Some(bytes),
        ) == Ok::<_, Seq<char>>(None::<identify::Read>),
        arrival::offered(arrived) matches Some((Scheme::Ntlm, _)) ==> identify::reading(
            arrived,
            Some(bytes),
        ) == Err::<Option<identify::Read>, _>("the NTLM message has no NTLMSSP signature"@),
{
}

/// A message that is NTLMSSP reads the same under either scheme.
pub proof fn schemes_read_the_same(
    one: arrival::Arrived,
    other: arrival::Arrived,
    scheme: Seq<char>,
    bytes: Seq<u8>,
)
    requires
        message::is_signed(bytes),
        arrival::offered(one) is Some,
        arrival::scheme_named(scheme) is Some,
        other == (arrival::Arrived {
            authorization: Some(
                arrival::Header { scheme, encoded: one.authorization->0.encoded },
            ),
            ..one
        }),
    ensures
        identify::reading(one, Some(bytes)) == identify::reading(other, Some(bytes)),
{
}

/// A NEGOTIATE presents nothing, under either scheme.
pub proof fn negotiate_presents_nothing(arrived: arrival::Arrived, bytes: Seq<u8>)
    requires
        arrival::offered(arrived) is Some,
        message::is_message(bytes),
        message::u32_le(bytes, message::TYPE as int) == Some(1u32),
    ensures
        identify::reading(arrived, Some(bytes)) == Ok::<_, Seq<char>>(None::<identify::Read>),
{
}

/// The proof that rides beside a claim is the message that the claim was
/// read from, as the client sent it: it decodes to a message that carries
/// the claimed names, and the user among them is not empty.
pub proof fn claim_is_what_the_proof_carries(arrived: arrival::Arrived, read: identify::Read)
    requires
        identify::reading(arrived, identify::message_offered(arrived)) == Ok::<_, Seq<char>>(
            Some(read),
        ),
    ensures
        arrived.arriving == Arriving::Pushed,
        arrived.authorization matches Some(header) && header.encoded == read.encoded,
        encoding::decoded(read.encoded) matches Some(bytes) && {
            &&& message::parsed(bytes) == Ok::<_, Seq<char>>(Some(read.names))
            &&& message::client_challenge_in(bytes) == Ok::<_, Seq<char>>(read.half)
        },
        read.names.user.len() > 0,
{
}

/// An AUTHENTICATE that is written and offered under either scheme is read:
/// with its names, with what follows the proof of its NT response, and with
/// what the transport kept.
pub proof fn authenticate_is_read(
    arrived: arrival::Arrived,
    names: message::Names,
    response: Seq<u8>,
    flags: u32,
)
    requires
        arrival::offered(arrived) is Some,
        names.user.len() > 0,
        laws::fits(names.user, laws::asks_unicode(flags)),
        laws::fits(names.domain, laws::asks_unicode(flags)),
        laws::fits(names.workstation, laws::asks_unicode(flags)),
        response.len() <= u16::MAX,
    ensures
        identify::reading(
            arrived,
            Some(laws::authenticate_message(names, response, flags)),
        ) == Ok::<_, Seq<char>>(
            Some(
                identify::Read {
                    names,
                    half: if response.len() <= message::PROOF {
                        None
                    } else {
                        Some(response.skip(message::PROOF as int))
                    },
                    encoded: arrived.authorization->0.encoded,
                    negotiate: arrived.negotiate,
                    challenge: arrived.challenge,
                },
            ),
        ),
{
    laws::message_reads_back(names, response, flags);
}

proof fn said_in_parts(
    first: Seq<(Seq<char>, Seq<char>)>,
    second: Seq<(Seq<char>, Seq<char>)>,
    name: Seq<char>,
)
    ensures
        claim::said(first + second, name) == (match claim::said(first, name) {
            Some(value) => Some(value),
            None => claim::said(second, name),
        }),
    decreases first.len(),
{
    if first.len() == 0 {
        assert(first + second =~= second);
    } else {
        said_in_parts(first.skip(1), second, name);
        assert((first + second).skip(1) =~= first.skip(1) + second);
    }
}

proof fn said_in_note(noted: Seq<char>, value: Option<Seq<char>>, name: Seq<char>)
    ensures
        claim::said(identify::noted(noted, value), name) == (if noted == name {
            value
        } else {
            None
        }),
{
    reveal_with_fuel(claim::said, 2);
}

pub(crate) proof fn evidence_names_differ()
    ensures
        DOMAIN@ != WORKSTATION@,
        DOMAIN@ != PRINCIPAL_USER@,
        DOMAIN@ != TARGET@,
        DOMAIN@ != TARGET_UNTRUSTED@,
        DOMAIN@ != PRINCIPAL_SERVICE@,
        WORKSTATION@ != PRINCIPAL_USER@,
        WORKSTATION@ != TARGET@,
        WORKSTATION@ != TARGET_UNTRUSTED@,
        WORKSTATION@ != PRINCIPAL_SERVICE@,
        PRINCIPAL_USER@ != TARGET@,
        PRINCIPAL_USER@ != TARGET_UNTRUSTED@,
        PRINCIPAL_USER@ != PRINCIPAL_SERVICE@,
        TARGET@ != TARGET_UNTRUSTED@,
        TARGET@ != PRINCIPAL_SERVICE@,
        TARGET_UNTRUSTED@ != PRINCIPAL_SERVICE@,
{
    reveal_strlit("ntlm.domain");
    reveal_strlit("ntlm.workstation");
    reveal_strlit("principal.user");
    reveal_strlit("ntlm.target");
    reveal_strlit("ntlm.target.untrusted");
    reveal_strlit("principal.service");
    assert(DOMAIN@.len() == 11 && TARGET@.len() == 11);
    assert(DOMAIN@[5] != TARGET@[5]);
    assert(WORKSTATION@.len() == 16);
    assert(PRINCIPAL_USER@.len() == 14);
    assert(TARGET_UNTRUSTED@.len() == 21);
    assert(PRINCIPAL_SERVICE@.len() == 17);
}

pub(crate) proof fn proof_names_differ()
    ensures
        NEGOTIATE_PROOF@ != CHALLENGE_PROOF@,
        NEGOTIATE_PROOF@ != AUTHENTICATE_PROOF@,
        CHALLENGE_PROOF@ != AUTHENTICATE_PROOF@,
{
    reveal_strlit("ntlm.negotiate");
    reveal_strlit("ntlm.challenge");
    reveal_strlit("ntlm.authenticate");
    assert(NEGOTIATE_PROOF@[5] != CHALLENGE_PROOF@[5]);
}

/// The evidence of a name is what its rule says, and there is no other: the
/// domain and the workstation where the message names them, the user
/// principal name where there is a domain and the two make one, the target
/// where the client named one, `true` where it flags that target, and the
/// service principal name where the target is trusted and is one.
pub proof fn evidence_says(
    names: message::Names,
    principal: Option<Seq<char>>,
    aim: Option<challenge::Aim>,
    service: Option<Seq<char>>,
    name: Seq<char>,
)
    ensures
        claim::said(identify::evidence(names, principal, aim, service), name) == (if name
            == DOMAIN@ {
            identify::unless_empty(names.domain)
        } else if name == WORKSTATION@ {
            identify::unless_empty(names.workstation)
        } else if name == PRINCIPAL_USER@ && names.domain.len() > 0 {
            principal
        } else if name == TARGET@ {
            identify::target_of(aim)
        } else if name == TARGET_UNTRUSTED@ {
            identify::flag_of(aim)
        } else if name == PRINCIPAL_SERVICE@ && identify::supplied_of(aim) is Some {
            service
        } else {
            None
        }),
{
    evidence_names_differ();
    let first = identify::noted(DOMAIN@, identify::unless_empty(names.domain));
    let second = identify::noted(WORKSTATION@, identify::unless_empty(names.workstation));
    let user = if names.domain.len() == 0 {
        None
    } else {
        principal
    };
    let third = identify::noted(PRINCIPAL_USER@, user);
    let fourth = identify::noted(TARGET@, identify::target_of(aim));
    let fifth = identify::noted(TARGET_UNTRUSTED@, identify::flag_of(aim));
    let trusted = if identify::supplied_of(aim) is None {
        None
    } else {
        service
    };
    let sixth = identify::noted(PRINCIPAL_SERVICE@, trusted);
    said_in_note(DOMAIN@, identify::unless_empty(names.domain), name);
    said_in_note(WORKSTATION@, identify::unless_empty(names.workstation), name);
    said_in_note(PRINCIPAL_USER@, user, name);
    said_in_note(TARGET@, identify::target_of(aim), name);
    said_in_note(TARGET_UNTRUSTED@, identify::flag_of(aim), name);
    said_in_note(PRINCIPAL_SERVICE@, trusted, name);
    said_in_parts(first, second, name);
    said_in_parts(first + second, third, name);
    said_in_parts(first + second + third, fourth, name);
    said_in_parts(first + second + third + fourth, fifth, name);
    said_in_parts(first + second + third + fourth + fifth, sixth, name);
}

/// The proof of a name is what its rule says, and there is no other: the
/// two messages that the transport kept, without the white space around
/// them, and the client's message just as it came.
pub proof fn proofs_say(read: identify::Read, name: Seq<char>)
    ensures
        claim::said(identify::proofs(read), name) == (if name == NEGOTIATE_PROOF@ {
            identify::freed(read.negotiate)
        } else if name == CHALLENGE_PROOF@ {
            identify::freed(read.challenge)
        } else if name == AUTHENTICATE_PROOF@ {
            Some(read.encoded)
        } else {
            None
        }),
{
    proof_names_differ();
    let first = identify::noted(NEGOTIATE_PROOF@, identify::freed(read.negotiate));
    let second = identify::noted(CHALLENGE_PROOF@, identify::freed(read.challenge));
    let third = identify::noted(AUTHENTICATE_PROOF@, Some(read.encoded));
    said_in_note(NEGOTIATE_PROOF@, identify::freed(read.negotiate), name);
    said_in_note(CHALLENGE_PROOF@, identify::freed(read.challenge), name);
    said_in_note(AUTHENTICATE_PROOF@, Some(read.encoded), name);
    said_in_parts(first, second, name);
    said_in_parts(first + second, third, name);
}

/// A target from an untrusted source is written as the client wrote it and
/// flagged, and never as a service principal name, whatever is answered
/// about it.
pub proof fn untrusted_target_is_no_service(
    read: identify::Read,
    principal: Option<Seq<char>>,
    target: Seq<char>,
    service: Option<Seq<char>>,
)
    ensures
        ({
            let aim = challenge::Aim { target: Some(target), untrusted: true };
            let pairs = identify::presented(read, principal, Some(aim), service).evidence;
            &&& claim::said(pairs, TARGET@) == Some(target)
            &&& claim::said(pairs, TARGET_UNTRUSTED@) == Some("true"@)
            &&& claim::said(pairs, PRINCIPAL_SERVICE@) is None
        }),
{
    let aim = challenge::Aim { target: Some(target), untrusted: true };
    evidence_names_differ();
    evidence_says(read.names, principal, Some(aim), service, TARGET@);
    evidence_says(read.names, principal, Some(aim), service, TARGET_UNTRUSTED@);
    evidence_says(read.names, principal, Some(aim), service, PRINCIPAL_SERVICE@);
}

/// Where the client names no target, nothing is said of one.
pub proof fn no_target_says_nothing(
    read: identify::Read,
    principal: Option<Seq<char>>,
    aim: Option<challenge::Aim>,
    service: Option<Seq<char>>,
)
    requires
        identify::target_of(aim) is None,
    ensures
        ({
            let pairs = identify::presented(read, principal, aim, service).evidence;
            &&& claim::said(pairs, TARGET@) is None
            &&& claim::said(pairs, TARGET_UNTRUSTED@) is None
            &&& claim::said(pairs, PRINCIPAL_SERVICE@) is None
        }),
{
    evidence_names_differ();
    evidence_says(read.names, principal, aim, service, TARGET@);
    evidence_says(read.names, principal, aim, service, TARGET_UNTRUSTED@);
    evidence_says(read.names, principal, aim, service, PRINCIPAL_SERVICE@);
}

/// A user without a domain gains no user principal name, whatever is
/// answered about it.
pub proof fn no_domain_gives_no_principal(
    read: identify::Read,
    principal: Option<Seq<char>>,
    aim: Option<challenge::Aim>,
    service: Option<Seq<char>>,
)
    requires
        read.names.domain.len() == 0,
    ensures
        claim::said(
            identify::presented(read, principal, aim, service).evidence,
            PRINCIPAL_USER@,
        ) is None,
{
    evidence_names_differ();
    evidence_says(read.names, principal, aim, service, PRINCIPAL_USER@);
}

/// Whether no name stands twice among `pairs`.
pub open spec fn unrepeated(pairs: Seq<(Seq<char>, Seq<char>)>) -> bool {
    forall|i: int, j: int|
        0 <= i < j < pairs.len() ==> (#[trigger] pairs[i]).0 != (#[trigger] pairs[j]).0
}

proof fn unsaid_is_absent(pairs: Seq<(Seq<char>, Seq<char>)>, name: Seq<char>)
    requires
        claim::said(pairs, name) is None,
    ensures
        forall|i: int| 0 <= i < pairs.len() ==> (#[trigger] pairs[i]).0 != name,
    decreases pairs.len(),
{
    if pairs.len() > 0 {
        unsaid_is_absent(pairs.skip(1), name);
        assert forall|i: int| 0 <= i < pairs.len() implies (#[trigger] pairs[i]).0 != name by {
            if i > 0 {
                assert(pairs[i] == pairs.skip(1)[i - 1]);
            }
        }
    }
}

proof fn one_more_note(
    pairs: Seq<(Seq<char>, Seq<char>)>,
    name: Seq<char>,
    value: Option<Seq<char>>,
)
    requires
        unrepeated(pairs),
        claim::said(pairs, name) is None,
    ensures
        unrepeated(pairs + identify::noted(name, value)),
{
    unsaid_is_absent(pairs, name);
}

proof fn still_unsaid(
    pairs: Seq<(Seq<char>, Seq<char>)>,
    name: Seq<char>,
    value: Option<Seq<char>>,
    other: Seq<char>,
)
    requires
        claim::said(pairs, other) is None,
        name != other,
    ensures
        claim::said(pairs + identify::noted(name, value), other) is None,
{
    said_in_parts(pairs, identify::noted(name, value), other);
    said_in_note(name, value, other);
}

/// No evidence and no proof is written twice under one name.
pub proof fn nothing_is_written_twice(
    read: identify::Read,
    principal: Option<Seq<char>>,
    aim: Option<challenge::Aim>,
    service: Option<Seq<char>>,
)
    ensures
        unrepeated(identify::presented(read, principal, aim, service).evidence),
        unrepeated(identify::presented(read, principal, aim, service).proofs),
{
    evidence_names_differ();
    proof_names_differ();

    let domain = identify::unless_empty(read.names.domain);
    let workstation = identify::unless_empty(read.names.workstation);
    let user = if read.names.domain.len() == 0 {
        None
    } else {
        principal
    };
    let target = identify::target_of(aim);
    let flag = identify::flag_of(aim);
    let trusted = if identify::supplied_of(aim) is None {
        None
    } else {
        service
    };
    let one = identify::noted(DOMAIN@, domain);
    let two = one + identify::noted(WORKSTATION@, workstation);
    let three = two + identify::noted(PRINCIPAL_USER@, user);
    let four = three + identify::noted(TARGET@, target);
    let five = four + identify::noted(TARGET_UNTRUSTED@, flag);

    said_in_note(DOMAIN@, domain, WORKSTATION@);
    one_more_note(one, WORKSTATION@, workstation);

    said_in_note(DOMAIN@, domain, PRINCIPAL_USER@);
    still_unsaid(one, WORKSTATION@, workstation, PRINCIPAL_USER@);
    one_more_note(two, PRINCIPAL_USER@, user);

    said_in_note(DOMAIN@, domain, TARGET@);
    still_unsaid(one, WORKSTATION@, workstation, TARGET@);
    still_unsaid(two, PRINCIPAL_USER@, user, TARGET@);
    one_more_note(three, TARGET@, target);

    said_in_note(DOMAIN@, domain, TARGET_UNTRUSTED@);
    still_unsaid(one, WORKSTATION@, workstation, TARGET_UNTRUSTED@);
    still_unsaid(two, PRINCIPAL_USER@, user, TARGET_UNTRUSTED@);
    still_unsaid(three, TARGET@, target, TARGET_UNTRUSTED@);
    one_more_note(four, TARGET_UNTRUSTED@, flag);

    said_in_note(DOMAIN@, domain, PRINCIPAL_SERVICE@);
    still_unsaid(one, WORKSTATION@, workstation, PRINCIPAL_SERVICE@);
    still_unsaid(two, PRINCIPAL_USER@, user, PRINCIPAL_SERVICE@);
    still_unsaid(three, TARGET@, target, PRINCIPAL_SERVICE@);
    still_unsaid(four, TARGET_UNTRUSTED@, flag, PRINCIPAL_SERVICE@);
    one_more_note(five, PRINCIPAL_SERVICE@, trusted);

    let negotiate = identify::freed(read.negotiate);
    let challenge = identify::freed(read.challenge);
    let first = identify::noted(NEGOTIATE_PROOF@, negotiate);
    said_in_note(NEGOTIATE_PROOF@, negotiate, CHALLENGE_PROOF@);
    one_more_note(first, CHALLENGE_PROOF@, challenge);
    said_in_note(NEGOTIATE_PROOF@, negotiate, AUTHENTICATE_PROOF@);
    still_unsaid(first, CHALLENGE_PROOF@, challenge, AUTHENTICATE_PROOF@);
    one_more_note(
        first + identify::noted(CHALLENGE_PROOF@, challenge),
        AUTHENTICATE_PROOF@,
        Some(read.encoded),
    );
}

/// A message without a client's half is presented, whoever is there to ask
/// about one.
pub proof fn without_a_half_is_presented<U, C, S>(
    user_principal: U,
    read_challenge: C,
    service_principal: S,
    read: identify::Read,
    answers: identify::Answers,
) where
    U: Fn(&str, &str) -> Option<String>,
    C: Fn(&[u8]) -> Result<Option<ClientChallenge>, IdentifyError>,
    S: Fn(&str) -> Option<String>,

    requires
        read.half is None,
        identify::answered(user_principal, read_challenge, service_principal, read, answers),
    ensures
        identify::concluded(read, answers) == Ok::<_, Seq<char>>(
            Some(identify::presented(read, answers.principal, None, None)),
        ),
{
}

/// An NT response no longer than a proof has no client's half, wherever it
/// points, and stops nothing.
pub proof fn short_response_is_left_alone(bytes: Seq<u8>)
    requires
        match message::buffer_at(bytes, message::NT_RESPONSE_FIELDS as int) {
            Some(response) => response.length <= message::PROOF,
            None => true,
        },
    ensures
        message::client_challenge_in(bytes) == Ok::<_, Seq<char>>(None::<Seq<u8>>),
{
}

/// An NT response that points outside the message is refused, though the
/// names read whole.
pub proof fn response_astray_is_refused(
    arrived: arrival::Arrived,
    bytes: Seq<u8>,
    response: message::Buffer,
)
    requires
        arrival::offered(arrived) is Some,
        message::parsed(bytes) matches Ok(Some(_)),
        message::buffer_at(bytes, message::NT_RESPONSE_FIELDS as int) == Some(response),
        response.length > message::PROOF,
        !message::lies_within(response, bytes),
    ensures
        identify::reading(arrived, Some(bytes)) == Err::<Option<identify::Read>, _>(
            "the NTLM AUTHENTICATE message's NtChallengeResponse points outside the message"@,
        ),
{
}

} // verus!
