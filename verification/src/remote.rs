//! Picking the default branch of a remote repository from the references it advertises.

use vstd::prelude::*;
use crate::text::{replaced, replace_all};

verus! {

/// A reference that a remote advertises.
pub struct RemoteHead {
    /// The reference name, such as `HEAD` or `refs/heads/main`.
    pub name: String,
    /// The reference it points to, when it is symbolic.
    pub symref_target: Option<String>,
}

/// The name of the symbolic reference to the default branch.
pub open spec fn head_name() -> Seq<char> {
    seq!['H', 'E', 'A', 'D']
}

/// The prefix of branch references.
pub open spec fn branch_prefix() -> Seq<char> {
    seq!['r', 'e', 'f', 's', '/', 'h', 'e', 'a', 'd', 's', '/']
}

/// The branch used when no advertised `HEAD` names one.
pub open spec fn fallback_branch() -> Seq<char> {
    seq!['m', 'a', 'i', 'n']
}

/// The default branch: the target of the first symbolic `HEAD`, with every
/// `refs/heads/` taken out (`refs/heads/main` gives `main`), else `main`.
pub open spec fn spec_default_branch(heads: Seq<RemoteHead>) -> Seq<char>
    decreases heads.len(),
{
    if heads.len() == 0 {
        fallback_branch()
    } else if heads[0].name@ == head_name() && heads[0].symref_target is Some {
        replaced(heads[0].symref_target->0@, branch_prefix(), Seq::<char>::empty())
    } else {
        spec_default_branch(heads.skip(1))
    }
}

/// The default branch of a remote that advertised `heads` (see [`spec_default_branch`]).
pub fn default_branch(heads: &Vec<RemoteHead>) -> (branch: String)
    ensures
        branch@ == spec_default_branch(heads@),
{
    let head = "HEAD";
    let prefix = "refs/heads/";
    let nothing = "";
    let fallback = "main";
    proof {
        reveal_strlit("HEAD");
        reveal_strlit("refs/heads/");
        reveal_strlit("");
        reveal_strlit("main");
        assert(head@ =~= head_name());
        assert(prefix@ =~= branch_prefix());
        assert(nothing@ =~= Seq::<char>::empty());
        assert(fallback@ =~= fallback_branch());
    }
    let head_string = String::from_str(head);
    let mut i: usize = 0;
    assert(heads@.skip(0) =~= heads@);
    while i < heads.len()
        invariant
            i <= heads@.len(),
            head_string@ == head_name(),
            prefix@ == branch_prefix(),
            nothing@ == Seq::<char>::empty(),
            fallback@ == fallback_branch(),
            spec_default_branch(heads@) == spec_default_branch(heads@.skip(i as int)),
        decreases heads@.len() - i,
    {
        assert(heads@.skip(i as int)[0] == heads@[i as int]);
        if heads[i].name == head_string {
            if let Some(target) = &heads[i].symref_target {
                return replace_all(target.as_str(), prefix, nothing);
            }
        }
        assert(heads@.skip(i as int).skip(1) =~= heads@.skip(i + 1));
        i = i + 1;
    }
    String::from_str(fallback)
}

} // verus!
