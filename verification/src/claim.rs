//! What an identification presents: a claim, and what rides beside it.

use vstd::prelude::*;

verus! {

/// How a claim is made.
#[derive(Clone, Debug)]
pub struct Mechanism {
    name: String,
}

impl View for Mechanism {
    type V = Seq<char>;

    closed spec fn view(&self) -> Seq<char> {
        self.name@
    }
}

impl Mechanism {
    /// The mechanism of that name.
    pub fn new(name: &str) -> (mechanism: Self)
        ensures
            mechanism@ == name@,
    {
        Mechanism { name: name.to_owned() }
    }

    /// Its name.
    pub fn name(&self) -> (name: &str)
        ensures
            name@ == self@,
    {
        self.name.as_str()
    }
}

/// How far a claim has come: it was passed on, and nothing has checked it.
#[derive(Clone, Copy, Debug, PartialEq, Eq, Structural)]
pub enum Established {
    Passed,
}

/// Where a claim was read.
#[derive(Clone, Copy, Debug, PartialEq, Eq, Structural)]
pub enum Layer {
    Transport,
}

/// A claim that was read and not verified, with its evidence and its proofs
/// in the order in which they were added.
#[derive(Clone, Debug)]
pub struct Presented {
    pub mechanism: Mechanism,
    pub value: String,
    pub established: Established,
    pub evidence: Vec<(String, String)>,
    pub proofs: Vec<(String, String)>,
}

/// A claim as a value of the model.
#[verifier::ext_equal]
pub struct Claim {
    pub mechanism: Seq<char>,
    pub value: Seq<char>,
    pub established: Established,
    pub evidence: Seq<(Seq<char>, Seq<char>)>,
    pub proofs: Seq<(Seq<char>, Seq<char>)>,
}

impl DeepView for Presented {
    type V = Claim;

    open spec fn deep_view(&self) -> Claim {
        Claim {
            mechanism: self.mechanism@,
            value: self.value@,
            established: self.established,
            evidence: self.evidence.deep_view(),
            proofs: self.proofs.deep_view(),
        }
    }
}

/// The value of the first pair of that name.
pub open spec fn said(pairs: Seq<(Seq<char>, Seq<char>)>, name: Seq<char>) -> Option<Seq<char>>
    decreases pairs.len(),
{
    if pairs.len() == 0 {
        None
    } else if pairs[0].0 == name {
        Some(pairs[0].1)
    } else {
        said(pairs.skip(1), name)
    }
}

impl Presented {
    /// A claim passed on by `mechanism`, with nothing beside it.
    pub fn passed(mechanism: Mechanism, value: String) -> (claim: Self)
        ensures
            claim.deep_view() == (Claim {
                mechanism: mechanism@,
                value: value@,
                established: Established::Passed,
                evidence: Seq::empty(),
                proofs: Seq::empty(),
            }),
    {
        let claim = Presented {
            mechanism,
            value,
            established: Established::Passed,
            evidence: Vec::new(),
            proofs: Vec::new(),
        };
        assert(claim.evidence.deep_view() =~= Seq::empty());
        assert(claim.proofs.deep_view() =~= Seq::empty());
        claim
    }

    /// The claim with one more piece of evidence.
    pub fn with_evidence(self, name: &str, value: &str) -> (claim: Self)
        ensures
            claim.deep_view() == (Claim {
                evidence: self.deep_view().evidence.push((name@, value@)),
                ..self.deep_view()
            }),
    {
        let mut claim = self;
        claim.evidence.push((name.to_owned(), value.to_owned()));
        assert(claim.evidence.deep_view() =~= self.evidence.deep_view().push((name@, value@)));
        claim
    }

    /// The claim with one more proof.
    pub fn with_proof(self, name: &str, value: &str) -> (claim: Self)
        ensures
            claim.deep_view() == (Claim {
                proofs: self.deep_view().proofs.push((name@, value@)),
                ..self.deep_view()
            }),
    {
        let mut claim = self;
        claim.proofs.push((name.to_owned(), value.to_owned()));
        assert(claim.proofs.deep_view() =~= self.proofs.deep_view().push((name@, value@)));
        claim
    }

    /// The proof of that name.
    pub fn proof_of(&self, name: &str) -> (value: Option<&str>)
        ensures
            value.deep_view() == said(self.deep_view().proofs, name@),
    {
        let ghost pairs = self.proofs.deep_view();
        let wanted = name.to_owned();
        let mut i: usize = 0;
        assert(pairs.skip(0) =~= pairs);
        while i < self.proofs.len()
            invariant
                i <= self.proofs.len(),
                pairs == self.proofs.deep_view(),
                wanted@ == name@,
                said(pairs, name@) == said(pairs.skip(i as int), name@),
            decreases self.proofs.len() - i,
        {
            assert(pairs.skip(i as int)[0] == self.proofs@[i as int].deep_view());
            assert(pairs.skip(i as int).skip(1) =~= pairs.skip(i + 1));
            if self.proofs[i].0 == wanted {
                return Some(self.proofs[i].1.as_str());
            }
            i = i + 1;
        }
        None
    }

    /// Where the claim was read.
    pub fn layer(&self) -> (layer: Layer)
        ensures
            layer == Layer::Transport,
    {
        Layer::Transport
    }
}

} // verus!
