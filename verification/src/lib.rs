//! Identify by NTLM: the user and domain of an NTLM AUTHENTICATE message,
//! read and not verified.
//!
//! MS-NLMP runs in three messages: the client's NEGOTIATE (type 1), the
//! server's CHALLENGE (type 2), and the client's AUTHENTICATE (type 3),
//! which names the user, the domain and the workstation in the clear and
//! carries the `NTLMv2` response over the challenge. This library reads the
//! names out of a type 3 and calls the user the claim: the domain and the
//! workstation ride beside it as evidence, and the whole message rides as
//! proof, for whoever can check the response against the stored hash.
//! Nothing here checks it. A type 1 claims nothing yet and presents nothing;
//! a type 2 is the server's and cannot be a credential.
//!
//! RFC 4559 carries the message as `Authorization: NTLM <base64>`, and the
//! `Negotiate` scheme carries the same bytes when the client chose NTLM
//! under SPNEGO: the `NTLMSSP` signature tells. A `Negotiate` value that is
//! not NTLMSSP is Kerberos's business and presents nothing here.
//!
//! What this reads and writes:
//!
//! ```text
//! http.header.authorization   NTLM <base64> or Negotiate <base64>   the property
//! ntlm.domain                 the DomainName field                  evidence, where present
//! ntlm.workstation            the Workstation field                 evidence, where present
//! principal.user              the user within the domain            evidence, where a domain
//! ntlm.target                 the target name, as the client wrote it    evidence
//! ntlm.target.untrusted       true                                  evidence, where flagged
//! principal.service           the target, canonical                 evidence, where trusted
//! ntlm.authenticate           the type 3 message, base64            proof
//! ntlm.negotiate              the type 1 message, base64            proof, where the transport
//! ntlm.challenge              the type 2 message, base64            proof, where the transport
//! ```
//!
//! The last two are not the client's to send again: they are the first two
//! legs of this connection's handshake, which only the transport saw. Where
//! the transport keeps them as properties of those names, they ride on as
//! proofs, so that the MIC can be checked which the client computed over
//! all three messages. Where it keeps neither, neither rides.
//!
//! What makes a principal name, and what the attribute and value pairs of a
//! response say, is known elsewhere: [`Ntlm::identify`] is handed three
//! functions that answer it, and holds for whatever they answer. Only the
//! service principal name of a target that the client does not flag as taken
//! from an untrusted source is asked for, and only the user principal name
//! of a user within a domain.
//!
//! Each executable function states its result over a model of plain
//! sequences; the module [`laws`] proves what holds across them.

pub mod arrival;
pub mod challenge;
pub mod claim;
pub mod encoding;
pub mod error;
pub mod identify;
pub mod laws;
pub mod message;
pub mod names;
pub mod text;

pub use arrival::{Arriving, Authorization, Scheme, StreamArrival};
pub use challenge::ClientChallenge;
pub use claim::{Established, Layer, Mechanism, Presented};
pub use error::IdentifyError;
pub use identify::{Ntlm, Reading};
pub use message::Authenticate;
pub use names::{
    AUTHENTICATE_PROOF, AUTHORIZATION, CHALLENGE_PROOF, DOMAIN, NEGOTIATE_PROOF,
    PRINCIPAL_SERVICE, PRINCIPAL_USER, TARGET, TARGET_UNTRUSTED, WORKSTATION,
};
