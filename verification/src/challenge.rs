//! The client's half of an `NTLMv2` response, as far as it is read here.

use vstd::prelude::*;

verus! {

/// The target among the attribute and value pairs of the response, and
/// whether the client flags it as taken from an untrusted source.
#[derive(Clone, Debug)]
pub struct ClientChallenge {
    pub target: Option<String>,
    pub untrusted: bool,
}

/// The same as a value of the model.
#[verifier::ext_equal]
pub struct Aim {
    pub target: Option<Seq<char>>,
    pub untrusted: bool,
}

impl DeepView for ClientChallenge {
    type V = Aim;

    open spec fn deep_view(&self) -> Aim {
        Aim { target: self.target.deep_view(), untrusted: self.untrusted }
    }
}

/// The target that a server may take for one: an untrusted one is no name.
pub open spec fn supplied(aim: Aim) -> Option<Seq<char>> {
    if aim.untrusted {
        None
    } else {
        aim.target
    }
}

impl ClientChallenge {
    /// The target that a server may take for one: an untrusted one is no
    /// name.
    pub fn supplied_target(&self) -> (target: Option<&str>)
        ensures
            target.deep_view() == supplied(self.deep_view()),
    {
        if self.untrusted {
            return None;
        }
        match &self.target {
            Some(target) => Some(target.as_str()),
            None => None,
        }
    }
}

} // verus!
