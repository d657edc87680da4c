//! Reading the names out of the AUTHENTICATE message a client sent.

use vstd::prelude::*;
use vstd::slice::slice_to_vec;

use crate::arrival::{self, Arriving, Scheme, StreamArrival};
use crate::challenge::{self, ClientChallenge};
use crate::claim::{self, Established, Mechanism, Presented};
use crate::encoding;
use crate::error::{self, IdentifyError};
use crate::laws::{plain, wire};
use crate::message::{self, Authenticate};
use crate::names::{
    AUTHENTICATE_PROOF, CHALLENGE_PROOF, DOMAIN, NEGOTIATE_PROOF, PRINCIPAL_SERVICE,
    PRINCIPAL_USER, TARGET, TARGET_UNTRUSTED, WORKSTATION,
};
use crate::text;

verus! {

/// The bytes of the message that an arrival offers, where it decodes.
pub open spec fn message_offered(arrived: arrival::Arrived) -> Option<Seq<u8>> {
    match arrival::offered(arrived) {
        Some((_, encoded)) => encoding::decoded(encoded),
        None => None,
    }
}

/// The message in what was decoded. What is not NTLMSSP, because it does not
/// decode or opens with other bytes, holds none under `Negotiate`; under
/// `NTLM` it is an error that it does not decode.
pub open spec fn message_in(scheme: Scheme, decoded: Option<Seq<u8>>) -> Result<
    Option<Seq<u8>>,
    Seq<char>,
> {
    match decoded {
        None => if scheme == Scheme::Negotiate {
            Ok(None)
        } else {
            Err("the NTLM message is not base64"@)
        },
        Some(bytes) => if scheme == Scheme::Negotiate && !message::is_signed(bytes) {
            Ok(None)
        } else {
            Ok(Some(bytes))
        },
    }
}

/// What an arrival gave to read, as a value of the model.
#[verifier::ext_equal]
pub struct Read {
    pub names: message::Names,
    pub half: Option<Seq<u8>>,
    pub encoded: Seq<char>,
    pub negotiate: Option<Seq<char>>,
    pub challenge: Option<Seq<char>>,
}

/// What an arrival gives to read, where its encoded message decodes to
/// `decoded`: nothing where it offers no message, or one that claims
/// nothing, and why where the message is refused.
pub open spec fn reading(arrived: arrival::Arrived, decoded: Option<Seq<u8>>) -> Result<
    Option<Read>,
    Seq<char>,
> {
    match arrival::offered(arrived) {
        None => Ok(None),
        Some((scheme, encoded)) => match message_in(scheme, decoded) {
            Err(why) => Err(why),
            Ok(None) => Ok(None),
            Ok(Some(bytes)) => match (message::parsed(bytes), message::client_challenge_in(bytes)) {
                (Err(why), _) => Err(why),
                (Ok(None), _) => Ok(None),
                (Ok(Some(_)), Err(why)) => Err(why),
                (Ok(Some(names)), Ok(half)) => Ok(
                    Some(
                        Read {
                            names,
                            half,
                            encoded,
                            negotiate: arrived.negotiate,
                            challenge: arrived.challenge,
                        },
                    ),
                ),
            },
        },
    }
}

/// One pair, where there is a value, and else none.
pub open spec fn noted(name: Seq<char>, value: Option<Seq<char>>) -> Seq<(Seq<char>, Seq<char>)> {
    match value {
        Some(value) => seq![(name, value)],
        None => Seq::empty(),
    }
}

/// `text`, where it is not empty.
pub open spec fn unless_empty(text: Seq<char>) -> Option<Seq<char>> {
    if text.len() == 0 {
        None
    } else {
        Some(text)
    }
}

/// `text` without the white space at its ends, where there is a text.
pub open spec fn freed(text: Option<Seq<char>>) -> Option<Seq<char>> {
    match text {
        Some(text) => Some(text::trimmed(text)),
        None => None,
    }
}

/// What is to be said of the target, where the client named one.
pub open spec fn target_of(aim: Option<challenge::Aim>) -> Option<Seq<char>> {
    match aim {
        Some(aim) => aim.target,
        None => None,
    }
}

/// The target that a server may take for one.
pub open spec fn supplied_of(aim: Option<challenge::Aim>) -> Option<Seq<char>> {
    match aim {
        Some(aim) => challenge::supplied(aim),
        None => None,
    }
}

/// `true`, where the client named a target and flags it.
pub open spec fn flag_of(aim: Option<challenge::Aim>) -> Option<Seq<char>> {
    match aim {
        Some(aim) => if aim.target is Some && aim.untrusted {
            Some("true"@)
        } else {
            None
        },
        None => None,
    }
}

/// The evidence beside a claim: the domain and the workstation where the
/// message names them; the user principal name where there is a domain and
/// the two make one; and of the target that the client named, the name,
/// whether it is untrusted, and the service principal name where it is
/// trusted and is one.
pub open spec fn evidence(
    names: message::Names,
    principal: Option<Seq<char>>,
    aim: Option<challenge::Aim>,
    service: Option<Seq<char>>,
) -> Seq<(Seq<char>, Seq<char>)> {
    noted(DOMAIN@, unless_empty(names.domain)) + noted(
        WORKSTATION@,
        unless_empty(names.workstation),
    ) + noted(
        PRINCIPAL_USER@,
        if names.domain.len() == 0 {
            None
        } else {
            principal
        },
    ) + noted(TARGET@, target_of(aim)) + noted(TARGET_UNTRUSTED@, flag_of(aim)) + noted(
        PRINCIPAL_SERVICE@,
        if supplied_of(aim) is None {
            None
        } else {
            service
        },
    )
}

/// The proofs beside a claim: the first two messages of the handshake where
/// the transport kept them, and the third as the client sent it.
pub open spec fn proofs(read: Read) -> Seq<(Seq<char>, Seq<char>)> {
    noted(NEGOTIATE_PROOF@, freed(read.negotiate)) + noted(
        CHALLENGE_PROOF@,
        freed(read.challenge),
    ) + noted(AUTHENTICATE_PROOF@, Some(read.encoded))
}

/// The claim that `read` makes: its user, passed on, with the evidence and
/// the proofs beside it.
pub open spec fn presented(
    read: Read,
    principal: Option<Seq<char>>,
    aim: Option<challenge::Aim>,
    service: Option<Seq<char>>,
) -> claim::Claim {
    claim::Claim {
        mechanism: "ntlm"@,
        value: read.names.user,
        established: Established::Passed,
        evidence: evidence(read.names, principal, aim, service),
        proofs: proofs(read),
    }
}

/// What was read of an arrival whose message names a user, before anything
/// is asked about it.
#[derive(Clone, Debug)]
pub struct Reading {
    pub authenticate: Authenticate,
    /// The client's half of the NT response, where there is one.
    pub half: Option<Vec<u8>>,
    /// The message as the client sent it.
    pub encoded: String,
    pub negotiate: Option<String>,
    pub challenge: Option<String>,
}

impl DeepView for Reading {
    type V = Read;

    open spec fn deep_view(&self) -> Read {
        Read {
            names: self.authenticate.deep_view(),
            half: self.half.deep_view(),
            encoded: self.encoded@,
            negotiate: self.negotiate.deep_view(),
            challenge: self.challenge.deep_view(),
        }
    }
}

/// A copy of `text`, where there is one.
fn copied(text: &Option<String>) -> (copy: Option<String>)
    ensures
        copy.deep_view() == text.deep_view(),
{
    match text {
        Some(text) => Some(text.as_str().to_owned()),
        None => None,
    }
}

impl Reading {
    /// What an arrival gives to read, where its encoded message decodes to
    /// `decoded`.
    pub fn of(arrival: &StreamArrival, decoded: Option<Vec<u8>>) -> (read: Result<
        Option<Self>,
        IdentifyError,
    >)
        ensures
            error::outcome(read) == reading(
                arrival.deep_view(),
                match decoded {
                    Some(bytes) => Some(bytes@),
                    None => None,
                },
            ),
    {
        let Some((scheme, encoded)) = arrival.offer() else {
            return Ok(None);
        };
        let Some(bytes) = decoded else {
            if scheme == Scheme::Negotiate {
                return Ok(None);
            }
            return Err(IdentifyError::new("the NTLM message is not base64"));
        };
        if scheme == Scheme::Negotiate && !message::has_signature(bytes.as_slice()) {
            return Ok(None);
        }
        let authenticate = match Authenticate::parse(bytes.as_slice()) {
            Ok(Some(authenticate)) => authenticate,
            Ok(None) => return Ok(None),
            Err(why) => return Err(why),
        };
        let half = match message::client_challenge(bytes.as_slice()) {
            Ok(Some(half)) => Some(slice_to_vec(half)),
            Ok(None) => None,
            Err(why) => return Err(why),
        };
        Ok(
            Some(
                Reading {
                    authenticate,
                    half,
                    encoded: encoded.to_owned(),
                    negotiate: copied(&arrival.negotiate),
                    challenge: copied(&arrival.challenge),
                },
            ),
        )
    }

    /// The claim that was read, given what was answered about it: the user
    /// principal name of the user within the domain, what the client's half
    /// of the response says, and the service principal name of the target.
    pub fn present(
        self,
        principal: Option<String>,
        challenge: Option<ClientChallenge>,
        service: Option<String>,
    ) -> (claim: Presented)
        ensures
            claim.deep_view() == presented(
                self.deep_view(),
                principal.deep_view(),
                challenge.deep_view(),
                service.deep_view(),
            ),
    {
        let ghost read = self.deep_view();
        let Reading { authenticate, half: _, encoded, negotiate, challenge: kept } = self;
        let named = !authenticate.domain.as_str().is_empty();
        let mut claim = Presented::passed(Ntlm.mechanism(), authenticate.user);
        if named {
            claim = claim.with_evidence(DOMAIN, authenticate.domain.as_str());
        }
        if !authenticate.workstation.as_str().is_empty() {
            claim = claim.with_evidence(WORKSTATION, authenticate.workstation.as_str());
        }
        if named {
            if let Some(principal) = &principal {
                claim = claim.with_evidence(PRINCIPAL_USER, principal.as_str());
            }
        }
        if let Some(challenge) = &challenge {
            if let Some(name) = &challenge.target {
                claim = claim.with_evidence(TARGET, name.as_str());
                if challenge.untrusted {
                    claim = claim.with_evidence(TARGET_UNTRUSTED, "true");
                }
            }
            if challenge.supplied_target().is_some() {
                if let Some(service) = &service {
                    claim = claim.with_evidence(PRINCIPAL_SERVICE, service.as_str());
                }
            }
        }
        assert(claim.deep_view().evidence =~= evidence(
            read.names,
            principal.deep_view(),
            challenge.deep_view(),
            service.deep_view(),
        ));
        if let Some(message) = &negotiate {
            claim = claim.with_proof(NEGOTIATE_PROOF, message.as_str().trim());
        }
        if let Some(message) = &kept {
            claim = claim.with_proof(CHALLENGE_PROOF, message.as_str().trim());
        }
        claim = claim.with_proof(AUTHENTICATE_PROOF, encoded.as_str());
        assert(claim.deep_view().proofs =~= proofs(read));
        claim
    }
}

/// The answers of those who know principal names and the client's half of a
/// response.
#[verifier::ext_equal]
pub struct Answers {
    pub principal: Option<Seq<char>>,
    pub challenge: Result<Option<challenge::Aim>, Seq<char>>,
    pub service: Option<Seq<char>>,
}

/// Whether `answers` are what the three functions answered about `read`:
/// the first about the user and the domain, where there is a domain; the
/// second about the client's half of the response, where there is one; the
/// third about the target that it supplies. Where one is not asked, it
/// answers nothing.
pub open spec fn answered<U, C, S>(
    user_principal: U,
    read_challenge: C,
    service_principal: S,
    read: Read,
    answers: Answers,
) -> bool where
    U: Fn(&str, &str) -> Option<String>,
    C: Fn(&[u8]) -> Result<Option<ClientChallenge>, IdentifyError>,
    S: Fn(&str) -> Option<String>,
 {
    &&& if read.names.domain.len() == 0 {
        answers.principal is None
    } else {
        exists|user: &str, domain: &str, answer: Option<String>|
            {
                &&& user@ == read.names.user
                &&& domain@ == read.names.domain
                &&& #[trigger] call_ensures(user_principal, (user, domain), answer)
                &&& answers.principal == answer.deep_view()
            }
    }
    &&& match read.half {
        None => answers.challenge matches Ok(None),
        Some(half) => exists|bytes: &[u8], answer: Result<Option<ClientChallenge>, IdentifyError>|
            {
                &&& bytes@ == half
                &&& #[trigger] call_ensures(read_challenge, (bytes,), answer)
                &&& answers.challenge == error::outcome(answer)
            },
    }
    &&& match answers.challenge {
        Ok(aim) => match supplied_of(aim) {
            None => answers.service is None,
            Some(supplied) => exists|target: &str, answer: Option<String>|
                {
                    &&& target@ == supplied
                    &&& #[trigger] call_ensures(service_principal, (target,), answer)
                    &&& answers.service == answer.deep_view()
                },
        },
        Err(_) => true,
    }
}

/// What comes of `read` once it was answered: the claim, or why the
/// client's half of the response could not be read.
pub open spec fn concluded(read: Read, answers: Answers) -> Result<
    Option<claim::Claim>,
    Seq<char>,
> {
    match answers.challenge {
        Err(why) => Err(why),
        Ok(aim) => Ok(Some(presented(read, answers.principal, aim, answers.service))),
    }
}

/// Reads the names out of the AUTHENTICATE message the client sent.
#[derive(Clone, Copy, Debug, Default)]
pub struct Ntlm;

impl Ntlm {
    /// The mechanism that the claims come by.
    pub fn mechanism(&self) -> (mechanism: Mechanism)
        ensures
            mechanism@ == "ntlm"@,
    {
        Mechanism::new("ntlm")
    }

    /// The claim that an arrival presents: none where it was not pushed,
    /// comes under another scheme or carries a message that claims nothing
    /// here, and an error where the message is refused. What is claimed is
    /// the user that the decoded message shows.
    ///
    /// `user_principal` gives the user principal name of a user within a
    /// domain, `read_challenge` reads what follows the proof of an NT
    /// response, and `service_principal` gives the service principal name
    /// of a target. Where the message gives one of them nothing to answer
    /// about, the claim does not depend on it.
    pub fn identify<U, C, S>(
        &self,
        arrival: &StreamArrival,
        user_principal: U,
        read_challenge: C,
        service_principal: S,
    ) -> (claim: Result<Option<Presented>, IdentifyError>) where
        U: Fn(&str, &str) -> Option<String>,
        C: Fn(&[u8]) -> Result<Option<ClientChallenge>, IdentifyError>,
        S: Fn(&str) -> Option<String>,

        requires
            forall|user: &str, domain: &str| call_requires(user_principal, (user, domain)),
            forall|bytes: &[u8]| call_requires(read_challenge, (bytes,)),
            forall|target: &str| call_requires(service_principal, (target,)),
        ensures
            match reading(arrival.deep_view(), message_offered(arrival.deep_view())) {
                Err(why) => claim matches Err(error) && error.message@ == why,
                Ok(None) => claim matches Ok(None),
                Ok(Some(read)) => exists|answers: Answers|
                    {
                        &&& #[trigger] answered(
                            user_principal,
                            read_challenge,
                            service_principal,
                            read,
                            answers,
                        )
                        &&& error::outcome(claim) == concluded(read, answers)
                    },
            },
            match claim {
                Ok(Some(claim)) => {
                    &&& arrival.arriving == Arriving::Pushed
                    &&& arrival.authorization matches Some(header)
                    &&& encoding::decoded(header.encoded@) matches Some(bytes)
                    &&& wire::is_whole(bytes)
                    &&& claim.value@.len() > 0
                    &&& wire::shows(bytes, 36, wire::is_wide(bytes), claim.value@)
                    &&& claim.mechanism@ == "ntlm"@
                    &&& claim.established == Established::Passed
                },
                _ => true,
            },
    {
        let decoded = match arrival.offer() {
            Some((_, encoded)) => match encoding::decode(encoded) {
                Ok(bytes) => Some(bytes),
                Err(_) => None,
            },
            None => None,
        };
        let reading = match Reading::of(arrival, decoded) {
            Ok(Some(reading)) => reading,
            Ok(None) => return Ok(None),
            Err(why) => return Err(why),
        };
        let ghost read = reading.deep_view();
        let user = reading.authenticate.user.as_str();
        let domain = reading.authenticate.domain.as_str();
        let principal = if domain.is_empty() {
            None
        } else {
            user_principal(user, domain)
        };
        let answer = match &reading.half {
            None => Ok(None),
            Some(half) => {
                assert(half.deep_view() =~= half@);
                read_challenge(half.as_slice())
            },
        };
        let ghost aim = error::outcome(answer);
        let challenge = match answer {
            Ok(challenge) => challenge,
            Err(why) => {
                proof {
                    let answers = Answers {
                        principal: principal.deep_view(),
                        challenge: aim,
                        service: None,
                    };
                    assert(answered(
                        user_principal,
                        read_challenge,
                        service_principal,
                        read,
                        answers,
                    ));
                }
                return Err(why);
            },
        };
        let service = match &challenge {
            None => None,
            Some(challenge) => match challenge.supplied_target() {
                None => None,
                Some(target) => service_principal(target),
            },
        };
        proof {
            let answers = Answers {
                principal: principal.deep_view(),
                challenge: aim,
                service: service.deep_view(),
            };
            assert(answered(user_principal, read_challenge, service_principal, read, answers));
            plain::read_names_are_shown(arrival.deep_view(), read);
        }
        Ok(Some(reading.present(principal, challenge, service)))
    }
}

} // verus!
