//! What the two routes do once a delivery is accepted: redeploy every
//! service in ascending order of names (`/`) or the one named service
//! (`/<service>`), going on after a failure, then open an issue with the
//! captured log if any redeployment failed, or close the issues it fixes
//! otherwise.
//!
//! Redeploying a service is left to the caller: a `Redeployment` says which
//! service to redeploy next and is told whether it succeeded.

use vstd::prelude::*;
use crate::config::{Config, entry_names};

verus! {

/// What follows the redeployments.
#[derive(Debug)]
pub enum FollowUp {
    OpenIssue,
    CloseIssues,
}

/// What to do next.
#[derive(Debug)]
pub enum DeployStep {
    /// Redeploy the service of this name.
    Restart(String),
    /// Every redeployment is done; this follows.
    Finish(FollowUp),
}

/// The redeployments that an accepted delivery calls for.
pub struct Redeployment {
    names: Vec<String>,
    next: usize,
    failed: bool,
}

/// Texts of a list of strings.
pub open spec fn name_texts(v: Seq<String>) -> Seq<Seq<char>> {
    v.map_values(|s: String| s@)
}

impl Redeployment {
    /// The services still to redeploy, in order.
    pub closed spec fn remaining(&self) -> Seq<Seq<char>> {
        name_texts(self.names@).skip(self.next as int)
    }

    /// Whether a redeployment has failed.
    pub closed spec fn any_failed(&self) -> bool {
        self.failed
    }

    #[verifier::type_invariant]
    spec fn next_in_range(&self) -> bool {
        self.next <= self.names@.len()
    }

    /// Redeploy the first service that remains; once none does, finish by
    /// opening an issue if a redeployment failed, or by closing the fixed
    /// issues otherwise.
    pub fn next(&mut self) -> (res: DeployStep)
        ensures
            final(self).any_failed() == old(self).any_failed(),
            old(self).remaining().len() > 0 ==> (res matches DeployStep::Restart(n) && n@ == old(
                self,
            ).remaining()[0]) && final(self).remaining() == old(self).remaining().drop_first(),
            old(self).remaining().len() == 0 ==> res == DeployStep::Finish(
                if old(self).any_failed() {
                    FollowUp::OpenIssue
                } else {
                    FollowUp::CloseIssues
                },
            ) && final(self).remaining() == old(self).remaining(),
    {
        proof {
            use_type_invariant(&*self);
        }
        if self.next < self.names.len() {
            let n = self.names[self.next].clone();
            assert(name_texts(self.names@).skip(self.next as int).drop_first() =~= name_texts(
                self.names@,
            ).skip(self.next + 1));
            self.next = self.next + 1;
            DeployStep::Restart(n)
        } else if self.failed {
            DeployStep::Finish(FollowUp::OpenIssue)
        } else {
            DeployStep::Finish(FollowUp::CloseIssues)
        }
    }

    /// Records whether the redeployment last handed out succeeded.
    pub fn report(&mut self, ok: bool)
        ensures
            final(self).any_failed() == (old(self).any_failed() || !ok),
            final(self).remaining() == old(self).remaining(),
    {
        proof {
            use_type_invariant(&*self);
        }
        if !ok {
            self.failed = true;
        }
    }
}

/// Redeploys every service of the configuration, in ascending order of
/// names.
pub fn all(config: &Config) -> (res: Redeployment)
    ensures
        res.remaining() == entry_names(config.services.entries()),
        !res.any_failed(),
{
    let n = config.services.len();
    let ghost e = config.services.entries();
    let mut names: Vec<String> = Vec::new();
    let mut i: usize = 0;
    while i < n
        invariant
            n == e.len(),
            e == config.services.entries(),
            i <= n,
            name_texts(names@) == entry_names(e).take(i as int),
        decreases n - i,
    {
        let (name, _) = config.services.entry(i);
        let c = name.clone();
        let ghost before = names@;
        names.push(c);
        assert(name_texts(names@) =~= name_texts(before).push(c@));
        assert(entry_names(e).take(i + 1) =~= entry_names(e).take(i as int).push(e[i as int].0));
        assert(name_texts(names@) =~= entry_names(e).take(i + 1));
        i = i + 1;
    }
    let res = Redeployment { names, next: 0, failed: false };
    assert(name_texts(res.names@).skip(0) =~= entry_names(e));
    res
}

/// Redeploys the service called `name`, or nothing when the configuration
/// has no such service.
pub fn one(config: &Config, name: &str) -> (res: Redeployment)
    ensures
        res.remaining() == if config.services@.contains_key(name@) {
            seq![name@]
        } else {
            Seq::<Seq<char>>::empty()
        },
        !res.any_failed(),
{
    let mut names: Vec<String> = Vec::new();
    let known = config.services.contains_key(name);
    if known {
        names.push(name.to_owned());
    }
    let res = Redeployment { names, next: 0, failed: false };
    assert(name_texts(res.names@).skip(0) =~= name_texts(res.names@));
    proof {
        if known {
            assert(name_texts(res.names@) =~= seq![name@]);
        } else {
            assert(name_texts(res.names@) =~= Seq::<Seq<char>>::empty());
        }
    }
    res
}

} // verus!
