//! What the model sees of a value: its fields, each as it is.

use vstd::prelude::*;

use crate::arrival::{Authorization, StreamArrival};
use crate::challenge::ClientChallenge;
use crate::claim::Presented;
use crate::error::{self, IdentifyError};
use crate::identify::Reading;
use crate::message::Authenticate;

verus! {

/// Whether a text that may be missing is seen as it is.
pub open spec fn is_seen(text: Option<String>, seen: Option<Seq<char>>) -> bool {
    match text {
        Some(text) => seen == Some(text@),
        None => seen is None,
    }
}

/// Whether pairs of texts are seen one by one and in their order.
pub open spec fn are_seen(pairs: Seq<(String, String)>, seen: Seq<(Seq<char>, Seq<char>)>) -> bool {
    &&& seen.len() == pairs.len()
    &&& forall|i: int|
        0 <= i < pairs.len() ==> (#[trigger] seen[i]).0 == pairs[i].0@ && seen[i].1 == pairs[i].1@
}

/// A result is seen as its value, or as the words of its error.
pub proof fn outcome_is_seen<T: DeepView>(value: T, error: IdentifyError)
    ensures
        error::outcome(Ok::<T, IdentifyError>(value)) == Ok::<T::V, Seq<char>>(value.deep_view()),
        error::outcome(Err::<T, IdentifyError>(error)) == Err::<T::V, Seq<char>>(error.message@),
{
}

/// Names are seen as the message names them.
pub proof fn names_are_seen(names: Authenticate)
    ensures
        names.deep_view().user == names.user@,
        names.deep_view().domain == names.domain@,
        names.deep_view().workstation == names.workstation@,
{
}

/// An arrival is seen as it came.
pub proof fn arrival_is_seen(arrival: StreamArrival)
    ensures
        arrival.deep_view().arriving == arrival.arriving,
        match arrival.authorization {
            Some(header) => {
                &&& arrival.deep_view().authorization matches Some(seen)
                &&& seen.scheme == header.scheme@
                &&& seen.encoded == header.encoded@
            },
            None => arrival.deep_view().authorization is None,
        },
        is_seen(arrival.negotiate, arrival.deep_view().negotiate),
        is_seen(arrival.challenge, arrival.deep_view().challenge),
{
}

/// A header is seen as it came.
pub proof fn header_is_seen(header: Authorization)
    ensures
        header.deep_view().scheme == header.scheme@,
        header.deep_view().encoded == header.encoded@,
{
}

/// What the client's half of a response says is seen as it says it.
pub proof fn challenge_is_seen(challenge: ClientChallenge)
    ensures
        is_seen(challenge.target, challenge.deep_view().target),
        challenge.deep_view().untrusted == challenge.untrusted,
{
}

/// What was read is seen as it was read.
pub proof fn reading_is_seen(reading: Reading)
    ensures
        reading.deep_view().names.user == reading.authenticate.user@,
        reading.deep_view().names.domain == reading.authenticate.domain@,
        reading.deep_view().names.workstation == reading.authenticate.workstation@,
        match reading.half {
            Some(half) => reading.deep_view().half == Some(half@),
            None => reading.deep_view().half is None,
        },
        reading.deep_view().encoded == reading.encoded@,
        is_seen(reading.negotiate, reading.deep_view().negotiate),
        is_seen(reading.challenge, reading.deep_view().challenge),
{
    if let Some(half) = reading.half {
        assert(half.deep_view() =~= half@);
    }
}

/// A claim is seen as it is presented.
pub proof fn claim_is_seen(claim: Presented)
    ensures
        claim.deep_view().mechanism == claim.mechanism@,
        claim.deep_view().value == claim.value@,
        claim.deep_view().established == claim.established,
        are_seen(claim.evidence@, claim.deep_view().evidence),
        are_seen(claim.proofs@, claim.deep_view().proofs),
{
}

} // verus!
