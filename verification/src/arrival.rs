//! How a stream came in, and the properties of it that are read here.

use vstd::prelude::*;

use crate::text;

verus! {

/// Who started the transfer.
#[derive(Clone, Copy, Debug, PartialEq, Eq, Structural)]
pub enum Arriving {
    /// The sender pushed the stream.
    Pushed,
    /// The stream was fetched, under a credential that is not the sender's.
    Scheduled,
}

/// A header `Authorization`, taken apart: its scheme, and what follows it.
#[derive(Clone, Debug)]
pub struct Authorization {
    pub scheme: String,
    pub encoded: String,
}

/// A stream as it arrived: who started it, its authorization where it has
/// one, and the first two messages of its handshake where the transport
/// kept them.
#[derive(Clone, Debug)]
pub struct StreamArrival {
    pub arriving: Arriving,
    /// The property `AUTHORIZATION`.
    pub authorization: Option<Authorization>,
    /// The property `NEGOTIATE_PROOF`.
    pub negotiate: Option<String>,
    /// The property `CHALLENGE_PROOF`.
    pub challenge: Option<String>,
}

/// An authorization as a value of the model.
#[verifier::ext_equal]
pub struct Header {
    pub scheme: Seq<char>,
    pub encoded: Seq<char>,
}

/// An arrival as a value of the model.
#[verifier::ext_equal]
pub struct Arrived {
    pub arriving: Arriving,
    pub authorization: Option<Header>,
    pub negotiate: Option<Seq<char>>,
    pub challenge: Option<Seq<char>>,
}

impl DeepView for Authorization {
    type V = Header;

    open spec fn deep_view(&self) -> Header {
        Header { scheme: self.scheme@, encoded: self.encoded@ }
    }
}

impl DeepView for StreamArrival {
    type V = Arrived;

    open spec fn deep_view(&self) -> Arrived {
        Arrived {
            arriving: self.arriving,
            authorization: self.authorization.deep_view(),
            negotiate: self.negotiate.deep_view(),
            challenge: self.challenge.deep_view(),
        }
    }
}

/// A scheme that an NTLM message comes under.
#[derive(Clone, Copy, Debug, PartialEq, Eq, Structural)]
pub enum Scheme {
    /// `NTLM`, under which nothing else comes.
    Ntlm,
    /// `Negotiate`, under which a Kerberos token may come as well.
    Negotiate,
}

/// The scheme of that name, whatever the case of its letters.
pub open spec fn scheme_named(name: Seq<char>) -> Option<Scheme> {
    if text::ascii_lowered(name) == text::ascii_lowered("negotiate"@) {
        Some(Scheme::Negotiate)
    } else if text::ascii_lowered(name) == text::ascii_lowered("ntlm"@) {
        Some(Scheme::Ntlm)
    } else {
        None
    }
}

/// The scheme and the encoded message that an arrival offers: those of its
/// authorization, where it was pushed and the scheme is one of the two.
pub open spec fn offered(arrived: Arrived) -> Option<(Scheme, Seq<char>)> {
    match (arrived.arriving, arrived.authorization) {
        (Arriving::Pushed, Some(header)) => match scheme_named(header.scheme) {
            Some(scheme) => Some((scheme, header.encoded)),
            None => None,
        },
        _ => None,
    }
}

impl Scheme {
    /// The scheme of that name, whatever the case of its letters.
    pub fn named(name: &str) -> (scheme: Option<Scheme>)
        ensures
            scheme == scheme_named(name@),
    {
        if name.eq_ignore_ascii_case("negotiate") {
            Some(Scheme::Negotiate)
        } else if name.eq_ignore_ascii_case("ntlm") {
            Some(Scheme::Ntlm)
        } else {
            None
        }
    }
}

impl StreamArrival {
    /// The scheme and the encoded message that the arrival offers.
    pub fn offer(&self) -> (offer: Option<(Scheme, &str)>)
        ensures
            match offer {
                Some((scheme, encoded)) => offered(self.deep_view()) == Some((scheme, encoded@)),
                None => offered(self.deep_view()) is None,
            },
    {
        if self.arriving != Arriving::Pushed {
            return None;
        }
        let Some(authorization) = &self.authorization else {
            return None;
        };
        match Scheme::named(authorization.scheme.as_str()) {
            Some(scheme) => Some((scheme, authorization.encoded.as_str())),
            None => None,
        }
    }
}

} // verus!
