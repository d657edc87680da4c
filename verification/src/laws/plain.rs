//! What holds of identifying, with every scheme, name and reason written
//! out: nothing is taken from the rules that the library identifies by.

use vstd::prelude::*;

use crate::arrival::{self, Arriving, Scheme};
use crate::challenge::{self, ClientChallenge};
use crate::claim::{self, Established};
use crate::encoding;
use crate::error::{self, IdentifyError};
use crate::identify;
use crate::laws::claim as by_name;
use crate::laws::wire;
use crate::message;
use crate::names;
use crate::text;

verus! {

/// Whether `name` is `lower`, which is in lower case, but for the case of
/// its letters.
pub open spec fn is_but_for_case(name: Seq<char>, lower: Seq<char>) -> bool {
    &&& name.len() == lower.len()
    &&& forall|i: int|
        0 <= i < name.len() ==> (#[trigger] name[i]) == lower[i] || name[i] as int + 32
            == lower[i] as int
}

/// Whether `name` is `ntlm` in any case.
pub open spec fn names_ntlm(name: Seq<char>) -> bool {
    is_but_for_case(name, seq!['n', 't', 'l', 'm'])
}

/// Whether `name` is `negotiate` in any case.
pub open spec fn names_negotiate(name: Seq<char>) -> bool {
    is_but_for_case(name, seq!['n', 'e', 'g', 'o', 't', 'i', 'a', 't', 'e'])
}

/// Lower case is that of the ASCII letters, 32 further on; every other
/// character stays.
pub proof fn lower_case_is_ascii(text: Seq<char>)
    ensures
        text::ascii_lowered(text).len() == text.len(),
        forall|i: int|
            0 <= i < text.len() ==> (if 65 <= text[i] as int <= 90 {
                (#[trigger] text::ascii_lowered(text)[i]) as int == text[i] as int + 32
            } else {
                text::ascii_lowered(text)[i] == text[i]
            }),
{
}

proof fn lowered_letters(name: Seq<char>, lower: Seq<char>)
    requires
        forall|i: int| 0 <= i < lower.len() ==> 97 <= (#[trigger] lower[i]) as int <= 122,
    ensures
        text::ascii_lowered(name) == lower <==> is_but_for_case(name, lower),
{
    let lowered = text::ascii_lowered(name);
    lower_case_is_ascii(name);
    if lowered == lower {
        assert forall|i: int| 0 <= i < name.len() implies (#[trigger] name[i]) == lower[i]
            || name[i] as int + 32 == lower[i] as int by {
            assert(lowered[i] == lower[i]);
        }
    }
    if is_but_for_case(name, lower) {
        assert forall|i: int| 0 <= i < name.len() implies lowered[i] == lower[i] by {
            assert(97 <= lower[i] as int <= 122);
            assert(name[i] == lower[i] || name[i] as int + 32 == lower[i] as int);
            vstd::utf8::char_u32_cast(lower[i], lower[i] as u32);
            vstd::utf8::char_u32_cast(lowered[i], lowered[i] as u32);
        }
        assert(lowered =~= lower);
    }
}

/// A scheme is known by its letters: `ntlm` and `negotiate`, in any case,
/// and there is no other.
pub proof fn scheme_is_known_by_its_letters(name: Seq<char>)
    ensures
        arrival::scheme_named(name) == Some(Scheme::Ntlm) <==> names_ntlm(name),
        arrival::scheme_named(name) == Some(Scheme::Negotiate) <==> names_negotiate(name),
        arrival::scheme_named(name) == Some(Scheme::Ntlm) <==> text::ascii_lowered(name)
            == "ntlm"@,
        arrival::scheme_named(name) == Some(Scheme::Negotiate) <==> text::ascii_lowered(name)
            == "negotiate"@,
        arrival::scheme_named(name) is None <==> !names_ntlm(name) && !names_negotiate(name),
{
    let ntlm = seq!['n', 't', 'l', 'm'];
    let negotiate = seq!['n', 'e', 'g', 'o', 't', 'i', 'a', 't', 'e'];
    reveal_strlit("ntlm");
    reveal_strlit("negotiate");
    assert("ntlm"@ =~= ntlm);
    assert("negotiate"@ =~= negotiate);
    lowered_letters(name, ntlm);
    lowered_letters(name, negotiate);
    lowered_letters(ntlm, ntlm);
    lowered_letters(negotiate, negotiate);
    assert(text::ascii_lowered(name).len() == name.len());
}

/// A message is offered exactly by a pushed arrival whose authorization
/// comes under one of the two schemes, and it is what follows the scheme.
pub proof fn offer_is_the_header_of_a_push(arrived: arrival::Arrived, encoded: Seq<char>)
    ensures
        arrival::offered(arrived) == Some((Scheme::Ntlm, encoded)) <==> {
            &&& arrived.arriving == Arriving::Pushed
            &&& arrived.authorization matches Some(header)
            &&& names_ntlm(header.scheme)
            &&& header.encoded == encoded
        },
        arrival::offered(arrived) == Some((Scheme::Negotiate, encoded)) <==> {
            &&& arrived.arriving == Arriving::Pushed
            &&& arrived.authorization matches Some(header)
            &&& names_negotiate(header.scheme)
            &&& header.encoded == encoded
        },
        arrival::offered(arrived) is None <==> !{
            &&& arrived.arriving == Arriving::Pushed
            &&& arrived.authorization matches Some(header)
            &&& names_ntlm(header.scheme) || names_negotiate(header.scheme)
        },
        match arrived.authorization {
            Some(header) => arrived.arriving == Arriving::Pushed && (names_ntlm(header.scheme)
                || names_negotiate(header.scheme)) ==> identify::message_offered(arrived)
                == encoding::decoded(header.encoded),
            None => true,
        },
{
    if let Some(header) = arrived.authorization {
        scheme_is_known_by_its_letters(header.scheme);
    }
}

/// What is read of an arrival, case by case. Without a push, an
/// authorization and one of the two schemes, nothing is. What does not
/// decode is refused under `NTLM`, and is nothing under `Negotiate`, as is
/// what decodes to bytes without the signature. Of everything else the
/// message decides, and then its NT response; and where both can be read,
/// the names, the client's half, the message as it was sent and what the
/// transport kept are handed on as they are.
pub proof fn reading_case_by_case(
    arrived: arrival::Arrived,
    decoded: Option<Seq<u8>>,
    header: arrival::Header,
    bytes: Seq<u8>,
)
    ensures
        arrived.arriving != Arriving::Pushed || arrived.authorization is None
            ==> identify::reading(arrived, decoded) == Ok::<_, Seq<char>>(None::<identify::Read>),
        arrived.authorization == Some(header) && !names_ntlm(header.scheme) && !names_negotiate(
            header.scheme,
        ) ==> identify::reading(arrived, decoded) == Ok::<_, Seq<char>>(None::<identify::Read>),
        arrived.arriving == Arriving::Pushed && arrived.authorization == Some(header)
            && names_ntlm(header.scheme) ==> identify::reading(arrived, None) == Err::<
            Option<identify::Read>,
            _,
        >("the NTLM message is not base64"@),
        arrived.arriving == Arriving::Pushed && arrived.authorization == Some(header)
            && names_negotiate(header.scheme) ==> identify::reading(arrived, None) == Ok::<
            _,
            Seq<char>,
        >(None::<identify::Read>),
        arrived.arriving == Arriving::Pushed && arrived.authorization == Some(header)
            && names_negotiate(header.scheme) && !wire::opens_ntlmssp(bytes)
            ==> identify::reading(arrived, Some(bytes)) == Ok::<_, Seq<char>>(
            None::<identify::Read>,
        ),
        arrived.arriving == Arriving::Pushed && arrived.authorization == Some(header) && (
        names_ntlm(header.scheme) || names_negotiate(header.scheme) && wire::opens_ntlmssp(bytes))
            ==> {
            let read = identify::reading(arrived, Some(bytes));
            &&& message::parsed(bytes) matches Err(why) ==> read == Err::<
                Option<identify::Read>,
                _,
            >(why)
            &&& message::parsed(bytes) matches Ok(None) ==> read == Ok::<_, Seq<char>>(
                None::<identify::Read>,
            )
            &&& message::parsed(bytes) matches Ok(Some(names)) ==> {
                &&& message::client_challenge_in(bytes) matches Err(why) ==> read == Err::<
                    Option<identify::Read>,
                    _,
                >(why)
                &&& message::client_challenge_in(bytes) matches Ok(half) ==> {
                    &&& read matches Ok(Some(read))
                    &&& read.names == names
                    &&& read.half == half
                    &&& read.encoded == header.encoded
                    &&& read.negotiate == arrived.negotiate
                    &&& read.challenge == arrived.challenge
                }
            }
        },
{
    scheme_is_known_by_its_letters(header.scheme);
    wire::signature_is_ntlmssp(bytes);
}

/// The first pair of a name gives its value, and where no pair has the name
/// there is none.
pub proof fn first_of_a_name_is_said(
    pairs: Seq<(Seq<char>, Seq<char>)>,
    name: Seq<char>,
    value: Seq<char>,
)
    ensures
        claim::said(pairs, name) == Some(value) <==> exists|i: int|
            {
                &&& 0 <= i < pairs.len()
                &&& #[trigger] pairs[i] == (name, value)
                &&& forall|j: int| 0 <= j < i ==> (#[trigger] pairs[j]).0 != name
            },
        claim::said(pairs, name) is None <==> forall|i: int|
            0 <= i < pairs.len() ==> (#[trigger] pairs[i]).0 != name,
    decreases pairs.len(),
{
    if pairs.len() > 0 {
        let rest = pairs.skip(1);
        first_of_a_name_is_said(rest, name, value);
        if pairs[0].0 == name {
            if claim::said(pairs, name) == Some(value) {
                assert(pairs[0] == (name, value));
            }
            if exists|i: int|
                {
                    &&& 0 <= i < pairs.len()
                    &&& #[trigger] pairs[i] == (name, value)
                    &&& forall|j: int| 0 <= j < i ==> (#[trigger] pairs[j]).0 != name
                } {
                let i = choose|i: int|
                    {
                        &&& 0 <= i < pairs.len()
                        &&& #[trigger] pairs[i] == (name, value)
                        &&& forall|j: int| 0 <= j < i ==> (#[trigger] pairs[j]).0 != name
                    };
                if i > 0 {
                    assert(pairs[0].0 != name);
                }
            }
        } else {
            if claim::said(pairs, name) == Some(value) {
                let k = choose|i: int|
                    {
                        &&& 0 <= i < rest.len()
                        &&& #[trigger] rest[i] == (name, value)
                        &&& forall|j: int| 0 <= j < i ==> (#[trigger] rest[j]).0 != name
                    };
                assert(pairs[k + 1] == (name, value));
                assert forall|j: int| 0 <= j < k + 1 implies (#[trigger] pairs[j]).0 != name by {
                    if j > 0 {
                        assert(rest[j - 1].0 != name);
                    }
                }
            }
            if exists|i: int|
                {
                    &&& 0 <= i < pairs.len()
                    &&& #[trigger] pairs[i] == (name, value)
                    &&& forall|j: int| 0 <= j < i ==> (#[trigger] pairs[j]).0 != name
                } {
                let i = choose|i: int|
                    {
                        &&& 0 <= i < pairs.len()
                        &&& #[trigger] pairs[i] == (name, value)
                        &&& forall|j: int| 0 <= j < i ==> (#[trigger] pairs[j]).0 != name
                    };
                assert(rest[i - 1] == (name, value));
                assert forall|j: int| 0 <= j < i - 1 implies (#[trigger] rest[j]).0 != name by {
                    assert(pairs[j + 1].0 != name);
                }
            }
            if claim::said(rest, name) is None {
                assert forall|i: int| 0 <= i < pairs.len() implies (#[trigger] pairs[i]).0
                    != name by {
                    if i > 0 {
                        assert(rest[i - 1].0 != name);
                    }
                }
            }
            if forall|i: int| 0 <= i < pairs.len() ==> (#[trigger] pairs[i]).0 != name {
                assert forall|i: int| 0 <= i < rest.len() implies (#[trigger] rest[i]).0
                    != name by {
                    assert(pairs[i + 1].0 != name);
                }
            }
        }
    }
}

/// The names under which properties are read, and evidence and proofs are
/// written.
pub proof fn names_are_these()
    ensures
        names::AUTHORIZATION@ == "http.header.authorization"@,
        names::DOMAIN@ == "ntlm.domain"@,
        names::WORKSTATION@ == "ntlm.workstation"@,
        names::PRINCIPAL_USER@ == "principal.user"@,
        names::TARGET@ == "ntlm.target"@,
        names::TARGET_UNTRUSTED@ == "ntlm.target.untrusted"@,
        names::PRINCIPAL_SERVICE@ == "principal.service"@,
        names::NEGOTIATE_PROOF@ == "ntlm.negotiate"@,
        names::CHALLENGE_PROOF@ == "ntlm.challenge"@,
        names::AUTHENTICATE_PROOF@ == "ntlm.authenticate"@,
{
}

/// The user is the claim, whatever the domain, the workstation, the target
/// and the answers are; it comes by the mechanism `ntlm`, and it is passed
/// on and no more.
pub proof fn user_is_the_claim(
    read: identify::Read,
    principal: Option<Seq<char>>,
    aim: Option<challenge::Aim>,
    service: Option<Seq<char>>,
)
    ensures
        identify::presented(read, principal, aim, service).value == read.names.user,
        identify::presented(read, principal, aim, service).mechanism == "ntlm"@,
        identify::presented(read, principal, aim, service).established == Established::Passed,
{
}

/// The domain and the workstation ride beside the claim exactly where the
/// message names them, whatever they are.
pub proof fn named_places_ride_as_evidence(
    read: identify::Read,
    principal: Option<Seq<char>>,
    aim: Option<challenge::Aim>,
    service: Option<Seq<char>>,
)
    ensures
        ({
            let pairs = identify::presented(read, principal, aim, service).evidence;
            &&& read.names.domain.len() > 0 ==> claim::said(pairs, "ntlm.domain"@) == Some(
                read.names.domain,
            )
            &&& read.names.domain.len() == 0 ==> claim::said(pairs, "ntlm.domain"@) is None
            &&& read.names.workstation.len() > 0 ==> claim::said(pairs, "ntlm.workstation"@)
                == Some(read.names.workstation)
            &&& read.names.workstation.len() == 0 ==> claim::said(pairs, "ntlm.workstation"@)
                is None
        }),
{
    by_name::evidence_names_differ();
    by_name::evidence_says(read.names, principal, aim, service, names::DOMAIN@);
    by_name::evidence_says(read.names, principal, aim, service, names::WORKSTATION@);
}

/// The user principal name rides as it was answered, wherever there is a
/// domain, and nowhere else.
pub proof fn user_principal_rides_within_a_domain(
    read: identify::Read,
    principal: Option<Seq<char>>,
    aim: Option<challenge::Aim>,
    service: Option<Seq<char>>,
)
    ensures
        ({
            let pairs = identify::presented(read, principal, aim, service).evidence;
            &&& read.names.domain.len() > 0 ==> claim::said(pairs, "principal.user"@) == principal
            &&& read.names.domain.len() == 0 ==> claim::said(pairs, "principal.user"@) is None
        }),
{
    by_name::evidence_names_differ();
    by_name::evidence_says(read.names, principal, aim, service, names::PRINCIPAL_USER@);
}

/// A target that the client names rides as the client wrote it, flagged
/// where it is untrusted; where it is trusted, the service principal name
/// rides as it was answered.
pub proof fn target_rides_as_it_was_written(
    read: identify::Read,
    principal: Option<Seq<char>>,
    target: Seq<char>,
    service: Option<Seq<char>>,
)
    ensures
        ({
            let trusted = challenge::Aim { target: Some(target), untrusted: false };
            let pairs = identify::presented(read, principal, Some(trusted), service).evidence;
            &&& claim::said(pairs, "ntlm.target"@) == Some(target)
            &&& claim::said(pairs, "ntlm.target.untrusted"@) is None
            &&& claim::said(pairs, "principal.service"@) == service
        }),
        ({
            let untrusted = challenge::Aim { target: Some(target), untrusted: true };
            let pairs = identify::presented(read, principal, Some(untrusted), service).evidence;
            &&& claim::said(pairs, "ntlm.target"@) == Some(target)
            &&& claim::said(pairs, "ntlm.target.untrusted"@) == Some("true"@)
            &&& claim::said(pairs, "principal.service"@) is None
        }),
{
    by_name::evidence_names_differ();
    let trusted = Some(challenge::Aim { target: Some(target), untrusted: false });
    let untrusted = Some(challenge::Aim { target: Some(target), untrusted: true });
    by_name::evidence_says(read.names, principal, trusted, service, names::TARGET@);
    by_name::evidence_says(read.names, principal, trusted, service, names::TARGET_UNTRUSTED@);
    by_name::evidence_says(read.names, principal, trusted, service, names::PRINCIPAL_SERVICE@);
    by_name::evidence_says(read.names, principal, untrusted, service, names::TARGET@);
    by_name::evidence_says(read.names, principal, untrusted, service, names::TARGET_UNTRUSTED@);
    by_name::evidence_says(read.names, principal, untrusted, service, names::PRINCIPAL_SERVICE@);
}

/// Where no target is named, whether or not the client's half was there and
/// flagged, nothing is said of one.
pub proof fn nothing_rides_without_a_target(
    read: identify::Read,
    principal: Option<Seq<char>>,
    untrusted: bool,
    service: Option<Seq<char>>,
    name: Seq<char>,
)
    requires
        name == "ntlm.target"@ || name == "ntlm.target.untrusted"@ || name
            == "principal.service"@,
    ensures
        claim::said(identify::presented(read, principal, None, service).evidence, name) is None,
        claim::said(
            identify::presented(
                read,
                principal,
                Some(challenge::Aim { target: None, untrusted }),
                service,
            ).evidence,
            name,
        ) is None,
{
    by_name::evidence_names_differ();
    let aim = Some(challenge::Aim { target: None, untrusted });
    by_name::evidence_says(read.names, principal, None, service, name);
    by_name::evidence_says(read.names, principal, aim, service, name);
}

/// The place of an evidence name among the others.
pub open spec fn evidence_place(name: Seq<char>) -> int {
    if name == "ntlm.domain"@ {
        0
    } else if name == "ntlm.workstation"@ {
        1
    } else if name == "principal.user"@ {
        2
    } else if name == "ntlm.target"@ {
        3
    } else if name == "ntlm.target.untrusted"@ {
        4
    } else if name == "principal.service"@ {
        5
    } else {
        6
    }
}

/// The place of a proof name among the others.
pub open spec fn proof_place(name: Seq<char>) -> int {
    if name == "ntlm.negotiate"@ {
        0
    } else if name == "ntlm.challenge"@ {
        1
    } else if name == "ntlm.authenticate"@ {
        2
    } else {
        3
    }
}

/// Whether `pairs` stand in the order of their places, which all lie below
/// `end`.
pub open spec fn in_order(
    pairs: Seq<(Seq<char>, Seq<char>)>,
    place: spec_fn(Seq<char>) -> int,
    end: int,
) -> bool {
    &&& forall|i: int| 0 <= i < pairs.len() ==> place((#[trigger] pairs[i]).0) < end
    &&& forall|i: int, j: int|
        0 <= i < j < pairs.len() ==> place((#[trigger] pairs[i]).0) < place(
            (#[trigger] pairs[j]).0,
        )
}

proof fn one_more_in_order(
    pairs: Seq<(Seq<char>, Seq<char>)>,
    place: spec_fn(Seq<char>) -> int,
    end: int,
    name: Seq<char>,
    value: Option<Seq<char>>,
)
    requires
        in_order(pairs, place, end),
        place(name) == end,
    ensures
        in_order(pairs + identify::noted(name, value), place, end + 1),
{
}

/// Evidence and proofs stand in the order of the documentation, under its
/// names and no others, and none of them twice.
pub proof fn everything_stands_in_its_place(
    read: identify::Read,
    principal: Option<Seq<char>>,
    aim: Option<challenge::Aim>,
    service: Option<Seq<char>>,
)
    ensures
        in_order(
            identify::presented(read, principal, aim, service).evidence,
            |name: Seq<char>| evidence_place(name),
            6,
        ),
        in_order(
            identify::presented(read, principal, aim, service).proofs,
            |name: Seq<char>| proof_place(name),
            3,
        ),
{
    by_name::evidence_names_differ();
    by_name::proof_names_differ();
    let place = |name: Seq<char>| evidence_place(name);
    let user = if read.names.domain.len() == 0 {
        None
    } else {
        principal
    };
    let trusted = if identify::supplied_of(aim) is None {
        None
    } else {
        service
    };
    let domain = identify::unless_empty(read.names.domain);
    let workstation = identify::unless_empty(read.names.workstation);
    let none: Seq<(Seq<char>, Seq<char>)> = Seq::empty();
    let one = none + identify::noted(names::DOMAIN@, domain);
    let two = one + identify::noted(names::WORKSTATION@, workstation);
    let three = two + identify::noted(names::PRINCIPAL_USER@, user);
    let four = three + identify::noted(names::TARGET@, identify::target_of(aim));
    let five = four + identify::noted(names::TARGET_UNTRUSTED@, identify::flag_of(aim));
    assert(one =~= identify::noted(names::DOMAIN@, domain));
    one_more_in_order(none, place, 0, names::DOMAIN@, domain);
    one_more_in_order(one, place, 1, names::WORKSTATION@, workstation);
    one_more_in_order(two, place, 2, names::PRINCIPAL_USER@, user);
    one_more_in_order(three, place, 3, names::TARGET@, identify::target_of(aim));
    one_more_in_order(four, place, 4, names::TARGET_UNTRUSTED@, identify::flag_of(aim));
    one_more_in_order(five, place, 5, names::PRINCIPAL_SERVICE@, trusted);

    let place = |name: Seq<char>| proof_place(name);
    let negotiate = identify::freed(read.negotiate);
    let challenge = identify::freed(read.challenge);
    let first = none + identify::noted(names::NEGOTIATE_PROOF@, negotiate);
    let second = first + identify::noted(names::CHALLENGE_PROOF@, challenge);
    assert(first =~= identify::noted(names::NEGOTIATE_PROOF@, negotiate));
    one_more_in_order(none, place, 0, names::NEGOTIATE_PROOF@, negotiate);
    one_more_in_order(first, place, 1, names::CHALLENGE_PROOF@, challenge);
    one_more_in_order(second, place, 2, names::AUTHENTICATE_PROOF@, Some(read.encoded));
}

/// Where the transport kept a leg of the handshake, it rides on whatever it
/// is, without the white space around it; where it kept none, none rides.
/// The client's message rides in any case, just as it came.
pub proof fn kept_legs_ride_on(
    read: identify::Read,
    principal: Option<Seq<char>>,
    aim: Option<challenge::Aim>,
    service: Option<Seq<char>>,
)
    ensures
        ({
            let pairs = identify::presented(read, principal, aim, service).proofs;
            &&& match read.negotiate {
                Some(text) => claim::said(pairs, "ntlm.negotiate"@) == Some(text::trimmed(text)),
                None => claim::said(pairs, "ntlm.negotiate"@) is None,
            }
            &&& match read.challenge {
                Some(text) => claim::said(pairs, "ntlm.challenge"@) == Some(text::trimmed(text)),
                None => claim::said(pairs, "ntlm.challenge"@) is None,
            }
            &&& claim::said(pairs, "ntlm.authenticate"@) == Some(read.encoded)
        }),
{
    by_name::proof_names_differ();
    by_name::proofs_say(read, names::NEGOTIATE_PROOF@);
    by_name::proofs_say(read, names::CHALLENGE_PROOF@);
    by_name::proofs_say(read, names::AUTHENTICATE_PROOF@);
}

/// White space is these 25 characters.
pub proof fn white_space_is_these(c: char)
    ensures
        text::is_white_space(c) <==> {
            ||| c == '\t' || c == '\n' || c == '\u{b}' || c == '\u{c}' || c == '\r' || c == ' '
            ||| c == '\u{85}' || c == '\u{a0}' || c == '\u{1680}'
            ||| c == '\u{2000}' || c == '\u{2001}' || c == '\u{2002}' || c == '\u{2003}'
            ||| c == '\u{2004}' || c == '\u{2005}' || c == '\u{2006}' || c == '\u{2007}'
            ||| c == '\u{2008}' || c == '\u{2009}' || c == '\u{200a}'
            ||| c == '\u{2028}' || c == '\u{2029}' || c == '\u{202f}' || c == '\u{205f}'
            ||| c == '\u{3000}'
        },
{
    vstd::utf8::char_u32_cast(c, c as u32);
}

/// A text with nothing but white space around a piece that neither starts
/// nor ends with it is trimmed to that piece.
pub proof fn white_space_around_is_trimmed(before: Seq<char>, piece: Seq<char>, after: Seq<char>)
    requires
        forall|i: int| 0 <= i < before.len() ==> text::is_white_space(#[trigger] before[i]),
        forall|i: int| 0 <= i < after.len() ==> text::is_white_space(#[trigger] after[i]),
        piece.len() > 0 ==> !text::is_white_space(piece.first()) && !text::is_white_space(
            piece.last(),
        ),
    ensures
        text::trimmed(before + piece + after) == piece,
    decreases before.len() + after.len(),
{
    let whole = before + piece + after;
    if before.len() > 0 {
        white_space_around_is_trimmed(before.drop_first(), piece, after);
        assert(whole.drop_first() =~= before.drop_first() + piece + after);
        assert(whole.first() == before[0]);
    } else if after.len() > 0 {
        white_space_around_is_trimmed(before, piece, after.drop_last());
        assert(whole.drop_last() =~= before + piece + after.drop_last());
        assert(whole.last() == after[after.len() - 1]);
        if piece.len() == 0 {
            assert(whole =~= after);
            white_space_around_is_trimmed(before, piece, after.drop_first());
            assert(whole.drop_first() =~= before + piece + after.drop_first());
        }
    } else {
        assert(whole =~= piece);
    }
}

/// A target is supplied exactly where it is named and not flagged.
pub proof fn trusted_target_is_supplied(aim: challenge::Aim, target: Seq<char>)
    ensures
        challenge::supplied(aim) == Some(target) <==> !aim.untrusted && aim.target == Some(target),
{
}

/// The answers are those of the functions that were handed in, on what the
/// message gives: `user_principal` on the user and the domain, wherever
/// there is a domain; `read_challenge` on the client's half, wherever there
/// is one; `service_principal` on the target, wherever one is named and
/// trusted. So where a function can answer only one thing there, that is
/// the answer.
pub proof fn answers_are_of_those_asked<U, C, S>(
    user_principal: U,
    read_challenge: C,
    service_principal: S,
    read: identify::Read,
    answers: identify::Answers,
    principal: Option<Seq<char>>,
    challenge: Result<Option<challenge::Aim>, Seq<char>>,
    service: Option<Seq<char>>,
) where
    U: Fn(&str, &str) -> Option<String>,
    C: Fn(&[u8]) -> Result<Option<ClientChallenge>, IdentifyError>,
    S: Fn(&str) -> Option<String>,

    requires
        identify::answered(user_principal, read_challenge, service_principal, read, answers),
    ensures
        read.names.domain.len() > 0 && (forall|user: &str, domain: &str, answer: Option<String>|
            user@ == read.names.user && domain@ == read.names.domain && #[trigger] call_ensures(
                user_principal,
                (user, domain),
                answer,
            ) ==> answer.deep_view() == principal) ==> answers.principal == principal,
        read.half is None ==> answers.challenge == Ok::<_, Seq<char>>(None::<challenge::Aim>),
        read.half is Some && (forall|
            bytes: &[u8],
            answer: Result<Option<ClientChallenge>, IdentifyError>,
        |
            bytes@ == read.half->0 && #[trigger] call_ensures(read_challenge, (bytes,), answer)
                ==> error::outcome(answer) == challenge) ==> answers.challenge == challenge,
        match answers.challenge {
            Ok(Some(aim)) => aim.target is Some && !aim.untrusted && (forall|
                target: &str,
                answer: Option<String>,
            |
                target@ == aim.target->0 && #[trigger] call_ensures(
                    service_principal,
                    (target,),
                    answer,
                ) ==> answer.deep_view() == service) ==> answers.service == service,
            _ => true,
        },
{
}

/// Once it was answered, a message that names a user is presented with the
/// answers, unless the client's half could not be read: then the reason is
/// handed on.
pub proof fn answers_are_presented(read: identify::Read, answers: identify::Answers)
    ensures
        match answers.challenge {
            Ok(aim) => identify::concluded(read, answers) == Ok::<_, Seq<char>>(
                Some(identify::presented(read, answers.principal, aim, answers.service)),
            ),
            Err(why) => identify::concluded(read, answers) == Err::<Option<claim::Claim>, _>(why),
        },
{
}

/// What is read was there: a pushed arrival carries, under one of the two
/// schemes, what decodes to an AUTHENTICATE message, and the message shows
/// the user at 36, the domain at 28 and the workstation at 44.
pub proof fn read_names_are_shown(arrived: arrival::Arrived, read: identify::Read)
    requires
        identify::reading(arrived, identify::message_offered(arrived)) == Ok::<_, Seq<char>>(
            Some(read),
        ),
    ensures
        arrived.arriving == Arriving::Pushed,
        arrived.authorization matches Some(header) && {
            &&& names_ntlm(header.scheme) || names_negotiate(header.scheme)
            &&& header.encoded == read.encoded
        },
        encoding::decoded(read.encoded) matches Some(bytes) && {
            &&& wire::is_whole(bytes)
            &&& read.names.user.len() > 0
            &&& wire::shows(bytes, 36, wire::is_wide(bytes), read.names.user)
            &&& wire::shows(bytes, 28, wire::is_wide(bytes), read.names.domain)
            &&& wire::shows(bytes, 44, wire::is_wide(bytes), read.names.workstation)
        },
{
    by_name::claim_is_what_the_proof_carries(arrived, read);
    offer_is_the_header_of_a_push(arrived, read.encoded);
    let bytes = encoding::decoded(read.encoded)->0;
    wire::type_decides(bytes);
    wire::authenticate_reads_what_it_shows(bytes, read.names);
}

} // verus!
