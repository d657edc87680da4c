//! The names under which properties are read, and evidence and proofs are
//! written.

use vstd::prelude::*;

verus! {

/// The property that carries the header `Authorization`.
pub const AUTHORIZATION: &'static str = "http.header.authorization";

/// The evidence name carrying the domain.
pub const DOMAIN: &'static str = "ntlm.domain";

/// The evidence name carrying the workstation.
pub const WORKSTATION: &'static str = "ntlm.workstation";

/// The evidence name carrying the user within the domain, canonical.
pub const PRINCIPAL_USER: &'static str = "principal.user";

/// The evidence name carrying the target name, as the client wrote it.
pub const TARGET: &'static str = "ntlm.target";

/// The evidence name saying the client took the target from an untrusted
/// source.
pub const TARGET_UNTRUSTED: &'static str = "ntlm.target.untrusted";

/// The evidence name carrying the target, canonical.
pub const PRINCIPAL_SERVICE: &'static str = "principal.service";

/// The property a transport writes the handshake's type 1 message under,
/// and the proof it rides on as.
pub const NEGOTIATE_PROOF: &'static str = "ntlm.negotiate";

/// The same for the type 2 message the node answered with.
pub const CHALLENGE_PROOF: &'static str = "ntlm.challenge";

/// The proof name the base64 message rides under.
pub const AUTHENTICATE_PROOF: &'static str = "ntlm.authenticate";

} // verus!
