//! The deployment configuration: the secret shared with GitHub, the default
//! commands, and the commands of each service.

use vstd::prelude::*;
use crate::text::{chars_of, lex_lt, lex_order, lemma_lex_lt_transitive, lemma_lex_lt_irreflexive};

verus! {

/// Commands used to redeploy one service; a missing command falls back to
/// the default configuration's, and is skipped when that is missing too.
pub struct Service {
    pub pre_start_command: Option<String>,
    pub start_command: Option<String>,
    pub post_start_command: Option<String>,
    pub stop_command: Option<String>,
}

impl Service {
    /// A service that sets none of its commands.
    pub fn empty() -> (res: Service)
        ensures
            res.pre_start_command is None,
            res.start_command is None,
            res.post_start_command is None,
            res.stop_command is None,
    {
        Service {
            pre_start_command: None,
            start_command: None,
            post_start_command: None,
            stop_command: None,
        }
    }
}

/// The services of a configuration, keyed by name and kept in ascending
/// order of names (the order in which they are redeployed).
pub struct ServiceMap {
    entries: Vec<(String, Service)>,
}

/// Names of the entries, in order.
pub open spec fn entry_names(e: Seq<(Seq<char>, Service)>) -> Seq<Seq<char>> {
    e.map_values(|p: (Seq<char>, Service)| p.0)
}

/// Names strictly ascend: each name occurs once and the order is the
/// order of names.
pub open spec fn names_ascending(e: Seq<(Seq<char>, Service)>) -> bool {
    forall|i: int, j: int| 0 <= i < j < e.len() ==> lex_lt(#[trigger] e[i].0, #[trigger] e[j].0)
}

/// Whether some entry has name `k`.
pub open spec fn has_name(e: Seq<(Seq<char>, Service)>, k: Seq<char>) -> bool {
    exists|i: int| 0 <= i < e.len() && #[trigger] e[i].0 == k
}

/// The map from names to services that the entries describe.
pub open spec fn entries_map(e: Seq<(Seq<char>, Service)>) -> Map<Seq<char>, Service> {
    Map::new(
        |k: Seq<char>| has_name(e, k),
        |k: Seq<char>| e[choose|i: int| 0 <= i < e.len() && #[trigger] e[i].0 == k].1,
    )
}

/// In ascending entries, the entry at `i` is what the map gives for its name.
pub proof fn lemma_entries_map_at(e: Seq<(Seq<char>, Service)>, i: int)
    requires
        names_ascending(e),
        0 <= i < e.len(),
    ensures
        entries_map(e).contains_key(e[i].0),
        entries_map(e)[e[i].0] == e[i].1,
{
    let k = e[i].0;
    assert(has_name(e, k));
    let j = choose|j: int| 0 <= j < e.len() && #[trigger] e[j].0 == k;
    if j < i {
        lemma_lex_lt_irreflexive(e[j].0, e[i].0);
    } else if i < j {
        lemma_lex_lt_irreflexive(e[i].0, e[j].0);
    }
}

/// The pairs of names and services, names read as text.
pub open spec fn view_entries(v: Seq<(String, Service)>) -> Seq<(Seq<char>, Service)> {
    v.map_values(|p: (String, Service)| (p.0@, p.1))
}

impl View for ServiceMap {
    type V = Map<Seq<char>, Service>;

    open spec fn view(&self) -> Map<Seq<char>, Service> {
        entries_map(self.entries())
    }
}

impl ServiceMap {
    /// The (name, service) pairs, in the order of the map.
    pub closed spec fn entries(&self) -> Seq<(Seq<char>, Service)> {
        view_entries(self.entries@)
    }

    /// Names strictly ascend.
    #[verifier::type_invariant]
    spec fn names_ascend(&self) -> bool {
        names_ascending(self.entries())
    }

    /// A map with no service.
    pub fn new() -> (res: ServiceMap)
        ensures
            res.entries() == Seq::<(Seq<char>, Service)>::empty(),
            res@ == Map::<Seq<char>, Service>::empty(),
    {
        let res = ServiceMap { entries: Vec::new() };
        assert(res.entries() =~= Seq::<(Seq<char>, Service)>::empty());
        assert(res@ =~= Map::<Seq<char>, Service>::empty());
        res
    }

    /// Number of services; the names of the services strictly ascend.
    pub fn len(&self) -> (res: usize)
        ensures
            res == self.entries().len(),
            names_ascending(self.entries()),
            self@ == entries_map(self.entries()),
    {
        proof {
            use_type_invariant(self);
        }
        self.entries.len()
    }

    /// The `i`-th service in ascending order of names, with its name.
    pub fn entry(&self, i: usize) -> (res: (&String, &Service))
        requires
            i < self.entries().len(),
        ensures
            res.0@ == self.entries()[i as int].0,
            *res.1 == self.entries()[i as int].1,
    {
        let e = &self.entries[i];
        (&e.0, &e.1)
    }

    /// Position of `name` among the entries, if it is there.
    fn position(&self, name: &str) -> (res: Option<usize>)
        ensures
            match res {
                Some(i) => i < self.entries().len() && self.entries()[i as int].0 == name@,
                None => !has_name(self.entries(), name@),
            },
    {
        let target = chars_of(name);
        let mut i: usize = 0;
        while i < self.entries.len()
            invariant
                i <= self.entries@.len(),
                target@ == name@,
                forall|j: int| 0 <= j < i ==> self.entries()[j].0 != name@,
            decreases self.entries@.len() - i,
        {
            let key = chars_of(self.entries[i].0.as_str());
            if lex_order(&key, &target) == 0 {
                return Some(i);
            }
            i = i + 1;
        }
        None
    }

    /// Whether a service of that name exists.
    pub fn contains_key(&self, name: &str) -> (res: bool)
        ensures
            res == self@.contains_key(name@),
    {
        self.position(name).is_some()
    }

    /// The service of that name, if any.
    pub fn get(&self, name: &str) -> (res: Option<&Service>)
        ensures
            match res {
                Some(s) => self@.contains_key(name@) && *s == self@[name@],
                None => !self@.contains_key(name@),
            },
    {
        proof {
            use_type_invariant(self);
        }
        match self.position(name) {
            Some(i) => {
                proof {
                    lemma_entries_map_at(self.entries(), i as int);
                }
                Some(&self.entries[i].1)
            },
            None => None,
        }
    }

    /// Where `target` stands among the names: the number of names before it,
    /// and whether the next one is equal to it.
    fn locate(entries: &Vec<(String, Service)>, target: &Vec<char>) -> (res: (usize, bool))
        ensures
            res.0 <= entries@.len(),
            forall|j: int| 0 <= j < res.0 ==> lex_lt(#[trigger] view_entries(entries@)[j].0, target@),
            res.1 ==> res.0 < entries@.len() && view_entries(entries@)[res.0 as int].0 == target@,
            !res.1 && res.0 < entries@.len() ==> lex_lt(target@, view_entries(entries@)[res.0 as int].0),
    {
        let mut i: usize = 0;
        while i < entries.len()
            invariant
                i <= entries@.len(),
                forall|j: int| 0 <= j < i ==> lex_lt(#[trigger] view_entries(entries@)[j].0, target@),
            decreases entries@.len() - i,
        {
            let key = chars_of(entries[i].0.as_str());
            let o = lex_order(&key, target);
            if o == 0 {
                return (i, true);
            }
            if o == 1 {
                return (i, false);
            }
            i = i + 1;
        }
        (i, false)
    }

    /// Adds a service, replacing the one of the same name if there is one:
    /// looking it up afterwards gives what was added, and no other service
    /// changes.
    pub fn insert(&mut self, name: String, service: Service)
        ensures
            final(self)@ == old(self)@.insert(name@, service),
            final(self)@.contains_key(name@),
            final(self)@[name@] == service,
            forall|other: Seq<char>|
                other != name@ ==> (#[trigger] final(self)@.contains_key(other) == old(self)@.contains_key(other)),
            forall|other: Seq<char>|
                other != name@ && old(self)@.contains_key(other) ==> #[trigger] final(self)@[other] == old(
                    self,
                )@[other],
    {
        proof {
            use_type_invariant(&*self);
        }
        let target = chars_of(name.as_str());
        let ghost old_e = self.entries();
        let mut entries: Vec<(String, Service)> = Vec::new();
        std::mem::swap(&mut entries, &mut self.entries);
        assert(view_entries(entries@) == old_e);
        let (i, found) = Self::locate(&entries, &target);
        if found {
            entries.set(i, (name, service));
            proof {
                let e = view_entries(entries@);
                assert(e =~= old_e.update(i as int, (name@, service)));
                assert(names_ascending(e)) by {
                    assert forall|a: int, b: int| 0 <= a < b < e.len() implies lex_lt(
                        #[trigger] e[a].0,
                        #[trigger] e[b].0,
                    ) by {
                        assert(e[a].0 == old_e[a].0);
                        assert(e[b].0 == old_e[b].0);
                    }
                }
                assert forall|k: Seq<char>| has_name(e, k) <==> has_name(old_e, k) by {
                    if has_name(e, k) {
                        let j = choose|j: int| 0 <= j < e.len() && #[trigger] e[j].0 == k;
                        assert(old_e[j].0 == k);
                    }
                    if has_name(old_e, k) {
                        let j = choose|j: int| 0 <= j < old_e.len() && #[trigger] old_e[j].0 == k;
                        assert(e[j].0 == k);
                    }
                }
                lemma_entries_map_at(old_e, i as int);
                assert forall|k: Seq<char>| #[trigger] has_name(e, k) implies entries_map(e)[k]
                    == map_with(old_e, name@, service)[k] by {
                    let j = choose|j: int| 0 <= j < e.len() && #[trigger] e[j].0 == k;
                    lemma_entries_map_at(e, j);
                    if j < i {
                        lemma_entries_map_at(old_e, j);
                        lemma_lex_lt_irreflexive(old_e[j].0, old_e[i as int].0);
                    } else if j > i {
                        lemma_entries_map_at(old_e, j);
                        lemma_lex_lt_irreflexive(old_e[j].0, old_e[i as int].0);
                    }
                }
                assert(entries_map(e) =~= entries_map(old_e).insert(name@, service));
            }
            self.entries = entries;
            return;
        }
        entries.insert(i, (name, service));
        proof {
            let e = view_entries(entries@);
            assert(e =~= old_e.insert(i as int, (name@, service)));
            assert(names_ascending(e)) by {
                assert forall|a: int, b: int| 0 <= a < b < e.len() implies lex_lt(
                    #[trigger] e[a].0,
                    #[trigger] e[b].0,
                ) by {
                    if a < i && b == i {
                    } else if a < i && b > i {
                        assert(e[b].0 == old_e[b - 1].0);
                        if b - 1 > a {
                            assert(lex_lt(old_e[a].0, old_e[b - 1].0));
                        }
                    } else if a == i {
                        assert(e[b].0 == old_e[b - 1].0);
                        if b - 1 > i {
                            assert(lex_lt(old_e[i as int].0, old_e[b - 1].0));
                            lemma_lex_lt_transitive(name@, old_e[i as int].0, old_e[b - 1].0);
                        }
                    } else if a > i {
                        assert(e[a].0 == old_e[a - 1].0);
                        assert(e[b].0 == old_e[b - 1].0);
                        assert(lex_lt(old_e[a - 1].0, old_e[b - 1].0));
                    } else {
                        assert(lex_lt(old_e[a].0, old_e[b].0));
                    }
                }
            }
            assert(!has_name(old_e, name@)) by {
                if has_name(old_e, name@) {
                    let j = choose|j: int| 0 <= j < old_e.len() && #[trigger] old_e[j].0 == name@;
                    if j < i {
                        lemma_lex_lt_irreflexive(name@, name@);
                    } else if j > i {
                        assert(lex_lt(old_e[i as int].0, old_e[j].0));
                        lemma_lex_lt_transitive(name@, old_e[i as int].0, old_e[j].0);
                        lemma_lex_lt_irreflexive(name@, name@);
                    } else {
                        lemma_lex_lt_irreflexive(name@, name@);
                    }
                }
            }
            assert forall|k: Seq<char>| has_name(e, k) <==> (has_name(old_e, k) || k == name@) by {
                if has_name(e, k) {
                    let j = choose|j: int| 0 <= j < e.len() && #[trigger] e[j].0 == k;
                    if j < i {
                        assert(old_e[j].0 == k);
                    } else if j > i {
                        assert(old_e[j - 1].0 == k);
                    }
                }
                if has_name(old_e, k) {
                    let j = choose|j: int| 0 <= j < old_e.len() && #[trigger] old_e[j].0 == k;
                    if j < i {
                        assert(e[j].0 == k);
                    } else {
                        assert(e[j + 1].0 == k);
                    }
                }
                if k == name@ {
                    assert(e[i as int].0 == k);
                }
            }
            assert forall|k: Seq<char>| #[trigger] has_name(e, k) implies entries_map(e)[k]
                == map_with(old_e, name@, service)[k] by {
                let j = choose|j: int| 0 <= j < e.len() && #[trigger] e[j].0 == k;
                lemma_entries_map_at(e, j);
                if j < i {
                    lemma_entries_map_at(old_e, j);
                } else if j > i {
                    lemma_entries_map_at(old_e, j - 1);
                }
            }
            assert(entries_map(e) =~= entries_map(old_e).insert(name@, service));
        }
        self.entries = entries;
    }
}

spec fn map_with(e: Seq<(Seq<char>, Service)>, k: Seq<char>, s: Service) -> Map<Seq<char>, Service> {
    entries_map(e).insert(k, s)
}

/// The whole configuration of the webhook.
pub struct Config {
    /// Secret used to sign the payloads; also set on GitHub.
    pub secret: String,
    /// Commands used by services that do not set their own.
    pub default: Service,
    /// The deployable services, each of which must be listed here.
    pub services: ServiceMap,
    /// Token used to call GitHub's API.
    pub github_access_token: String,
    /// Users to whom issues about failed deployments are assigned.
    pub github_assignees: Vec<String>,
}

} // verus!
