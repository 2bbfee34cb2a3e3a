//! The closed set of resource kinds that a condition may name.

use vstd::prelude::*;

verus! {

/// A kind of listable object.
#[derive(Debug, Clone, Copy, Hash, PartialEq, Eq, Structural)]
pub enum ResourceType {
    Deployment,
    Pod,
}

/// An ASCII capital letter as its small letter; any other character as it is.
pub open spec fn ascii_lowered(c: char) -> char {
    if 'A' <= c && c <= 'Z' {
        ((c as int) + 32) as char
    } else {
        c
    }
}

/// `s` with its ASCII capital letters made small.
pub open spec fn lowered(s: Seq<char>) -> Seq<char> {
    Seq::new(s.len(), |i: int| ascii_lowered(s[i]))
}

/// Calls `str::eq_ignore_ascii_case`. Trusted: the answer is whether the two
/// strings are equal once the ASCII capital letters of both are made small.
#[verifier::external_body]
fn eq_ignore_ascii_case(a: &str, b: &str) -> (r: bool)
    ensures
        r == (lowered(a@) == lowered(b@)),
{
    a.eq_ignore_ascii_case(b)
}

impl ResourceType {
    /// The lowercase name of the kind, as it stands in a condition and in
    /// the first column of the result table.
    pub open spec fn name(self) -> Seq<char> {
        match self {
            ResourceType::Deployment => "deployment"@,
            ResourceType::Pod => "pod"@,
        }
    }

    /// The kind that `s` names, whatever the case of its ASCII letters.
    pub open spec fn named(s: Seq<char>) -> Option<ResourceType> {
        if lowered(s) == lowered("deployment"@) {
            Some(ResourceType::Deployment)
        } else if lowered(s) == lowered("pod"@) {
            Some(ResourceType::Pod)
        } else {
            None
        }
    }

    /// The lowercase name of the kind.
    pub fn to_string(&self) -> (r: String)
        ensures
            r@ == self.name(),
    {
        match self {
            ResourceType::Deployment => String::from_str("deployment"),
            ResourceType::Pod => String::from_str("pod"),
        }
    }

    /// Reads a kind from its name, matching ASCII letters in either case.
    pub fn from_str(input: &str) -> (r: Result<ResourceType, ()>)
        ensures
            r == match ResourceType::named(input@) {
                Some(kind) => Ok::<ResourceType, ()>(kind),
                None => Err(()),
            },
    {
        if eq_ignore_ascii_case(input, "deployment") {
            Ok(ResourceType::Deployment)
        } else if eq_ignore_ascii_case(input, "pod") {
            Ok(ResourceType::Pod)
        } else {
            Err(())
        }
    }
}

/// Every kind is read back from its own name.
pub proof fn lemma_name_round_trip(kind: ResourceType)
    ensures
        ResourceType::named(kind.name()) == Some(kind),
{
    reveal_strlit("deployment");
    reveal_strlit("pod");
    assert(lowered("pod"@).len() != lowered("deployment"@).len());
}

} // verus!
