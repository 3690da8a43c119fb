//! The configuration the core consumes: which owners to mirror,
//! which full names to ignore, and the optional credential pair.
//!
//! Loading the configuration from disk is the shell's business; the
//! core receives it as plain values and plans the run's work from
//! it.

use vstd::prelude::*;

verus! {

/// The explicit repositories requested for one owner.
#[derive(Clone, Debug)]
pub struct OwnerOpts {
    /// The repository names to mirror, without duplicates.
    pub repos: Vec<String>,
}

/// One run's configuration.
#[derive(Clone, Debug)]
pub struct Config {
    /// Organizations whose public repositories are mirrored.
    pub organizations: Option<Vec<String>>,
    /// Users whose public repositories are mirrored.
    pub users: Option<Vec<String>>,
    /// Explicit owner/name targets, one entry per owner, owners
    /// without duplicates.
    pub owner: Option<Vec<(String, OwnerOpts)>>,
    /// Full names never to mirror.
    pub ignore: Option<Vec<String>>,
    /// User name of the credential pair.
    pub user: Option<String>,
    /// Token of the credential pair.
    pub token: Option<String>,
}

/// The owner/name pairs one owner entry asks for, in order.
pub open spec fn owner_pairs(e: (String, OwnerOpts)) -> Seq<(String, String)> {
    Seq::new(e.1.repos@.len(), |i: int| (e.0, e.1.repos@[i]))
}

/// Every owner/name pair the owner entries ask for, owner by owner,
/// in order.
pub open spec fn spec_targets(entries: Seq<(String, OwnerOpts)>) -> Seq<(String, String)>
    decreases entries.len(),
{
    if entries.len() == 0 {
        Seq::empty()
    } else {
        spec_targets(entries.drop_last()) + owner_pairs(entries.last())
    }
}

impl Config {
    /// The explicit owner/name targets of the run: each owner's
    /// requested repositories, owner by owner, in the configured
    /// order.
    pub fn explicit_targets(&self) -> (ts: Vec<(String, String)>)
        ensures
            ts@ == (match self.owner {
                Some(entries) => spec_targets(entries@),
                None => Seq::<(String, String)>::empty(),
            }),
    {
        let mut ts: Vec<(String, String)> = Vec::new();
        match &self.owner {
            None => {
                proof {
                    assert(ts@ =~= Seq::<(String, String)>::empty());
                }
            },
            Some(entries) => {
                let n = entries.len();
                let mut i: usize = 0;
                proof {
                    assert(entries@.take(0) =~= Seq::<(String, OwnerOpts)>::empty());
                }
                while i < n
                    invariant
                        0 <= i <= n == entries@.len(),
                        ts@ == spec_targets(entries@.take(i as int)),
                    decreases n - i,
                {
                    let m = entries[i].1.repos.len();
                    let mut j: usize = 0;
                    while j < m
                        invariant
                            0 <= i < n == entries@.len(),
                            0 <= j <= m == entries@[i as int].1.repos@.len(),
                            ts@ == spec_targets(entries@.take(i as int)) + owner_pairs(
                                entries@[i as int],
                            ).take(j as int),
                        decreases m - j,
                    {
                        let name = entries[i].1.repos[j].clone();
                        let own = entries[i].0.clone();
                        ts.push((own, name));
                        proof {
                            assert(owner_pairs(entries@[i as int]).take(j as int + 1)
                                =~= owner_pairs(entries@[i as int]).take(j as int).push(
                                (entries@[i as int].0, entries@[i as int].1.repos@[j as int]),
                            ));
                        }
                        j += 1;
                    }
                    proof {
                        assert(entries@.take(i as int + 1).drop_last() =~= entries@.take(i as int));
                        assert(entries@.take(i as int + 1).last() == entries@[i as int]);
                        assert(owner_pairs(entries@[i as int]).take(m as int) =~= owner_pairs(
                            entries@[i as int],
                        ));
                    }
                    i += 1;
                }
                proof {
                    assert(entries@.take(n as int) =~= entries@);
                }
            },
        }
        ts
    }

    /// The ignore list as a plain list of full names; empty when
    /// none is configured.
    pub fn ignore_names(&self) -> (v: Vec<String>)
        ensures
            v@ == (match self.ignore {
                Some(names) => names@,
                None => Seq::<String>::empty(),
            }),
    {
        let mut v: Vec<String> = Vec::new();
        match &self.ignore {
            None => {
                proof {
                    assert(v@ =~= Seq::<String>::empty());
                }
            },
            Some(names) => {
                let n = names.len();
                let mut i: usize = 0;
                while i < n
                    invariant
                        0 <= i <= n == names@.len(),
                        v@ == names@.take(i as int),
                    decreases n - i,
                {
                    v.push(names[i].clone());
                    proof {
                        assert(names@.take(i as int + 1) =~= names@.take(i as int).push(
                            names@[i as int],
                        ));
                    }
                    i += 1;
                }
                proof {
                    assert(names@.take(n as int) =~= names@);
                }
            },
        }
        v
    }
}

} // verus!
