use vstd::prelude::*;

use super::actor_reference::{ActorPath, ActorRef};
use super::message::Message;

verus! {

/// An envelope: a message together with the path of the actor that sent it.
#[derive(Debug)]
pub struct MessageWrapper(pub Message, pub ActorPath);

/// An envelope waiting to be enqueued into the mailbox that `target` names.
#[derive(Debug)]
pub struct Outgoing {
    pub target: ActorRef,
    pub envelope: MessageWrapper,
}

/// Why a registration was refused.
#[derive(Debug, Clone, Copy, PartialEq, Eq, Structural)]
pub enum RegisterError {
    /// The path is already bound to a handle; the binding is left as it was.
    DuplicatePath,
}

/// The directory from actor paths to mailbox handles.
///
/// Entries are only ever added, each under a path that was not bound before.
pub struct Registry {
    entries: Vec<(ActorPath, ActorRef)>,
}

/// The map that a list of entries describes, later entries taking precedence.
pub open spec fn entries_map(s: Seq<(ActorPath, ActorRef)>) -> Map<Seq<char>, ActorRef>
    decreases s.len(),
{
    if s.len() == 0 {
        Map::empty()
    } else {
        entries_map(s.drop_last()).insert(s.last().0@, s.last().1)
    }
}

/// No path occurs twice among the entries.
pub open spec fn paths_unique(s: Seq<(ActorPath, ActorRef)>) -> bool {
    forall|i: int, j: int| 0 <= i < j < s.len() ==> s[i].0@ != s[j].0@
}

proof fn lemma_entries_map_domain(s: Seq<(ActorPath, ActorRef)>, k: Seq<char>)
    ensures
        entries_map(s).contains_key(k) <==> exists|i: int| 0 <= i < s.len() && s[i].0@ == k,
    decreases s.len(),
{
    if s.len() > 0 {
        let p = s.drop_last();
        lemma_entries_map_domain(p, k);
        if entries_map(s).contains_key(k) && s.last().0@ != k {
            let i = choose|i: int| 0 <= i < p.len() && p[i].0@ == k;
            assert(s[i] == p[i]);
        }
        if exists|i: int| 0 <= i < s.len() && s[i].0@ == k {
            let i = choose|i: int| 0 <= i < s.len() && s[i].0@ == k;
            if i < p.len() {
                assert(p[i] == s[i]);
            }
        }
    }
}

proof fn lemma_entries_map_value(s: Seq<(ActorPath, ActorRef)>, i: int)
    requires
        paths_unique(s),
        0 <= i < s.len(),
    ensures
        entries_map(s).contains_key(s[i].0@),
        entries_map(s)[s[i].0@] == s[i].1,
    decreases s.len(),
{
    let p = s.drop_last();
    if i < s.len() - 1 {
        assert(p[i] == s[i]);
        assert(paths_unique(p)) by {
            assert forall|a: int, b: int| 0 <= a < b < p.len() implies p[a].0@ != p[b].0@ by {
                assert(p[a] == s[a] && p[b] == s[b]);
            }
        }
        lemma_entries_map_value(p, i);
        assert(s[i].0@ != s.last().0@);
    }
}

impl Registry {
    /// What the registry maps each registered path to.
    pub closed spec fn view(&self) -> Map<Seq<char>, ActorRef> {
        entries_map(self.entries@)
    }

    /// No path is bound twice.
    #[verifier::type_invariant]
    spec fn wf(&self) -> bool {
        paths_unique(self.entries@)
    }

    /// The handle bound to `path`, if any.
    pub open spec fn lookup(&self, path: Seq<char>) -> Option<ActorRef> {
        if self.view().contains_key(path) {
            Some(self.view()[path])
        } else {
            None
        }
    }

    pub fn new() -> (r: Registry)
        ensures
            r.view() == Map::<Seq<char>, ActorRef>::empty(),
    {
        Registry { entries: Vec::new() }
    }

    /// The number of registered paths.
    pub fn len(&self) -> (r: usize)
        ensures
            r == self.view().len(),
    {
        proof {
            use_type_invariant(self);
            self.lemma_len();
        }
        self.entries.len()
    }

    proof fn lemma_len(&self)
        requires
            self.wf(),
        ensures
            self.view().len() == self.entries@.len(),
    {
        let s = self.entries@;
        let ps = s.map_values(|e: (ActorPath, ActorRef)| e.0@);
        assert(self.view().dom() =~= ps.to_set()) by {
            assert forall|k: Seq<char>| #[trigger] self.view().dom().contains(k) <==> ps.to_set().contains(k) by {
                lemma_entries_map_domain(s, k);
                if self.view().dom().contains(k) {
                    let i = choose|i: int| 0 <= i < s.len() && s[i].0@ == k;
                    assert(ps[i] == k);
                }
                if ps.to_set().contains(k) {
                    let i = choose|i: int| 0 <= i < ps.len() && #[trigger] ps[i] == k;
                    assert(s[i].0@ == k);
                }
            }
        }
        assert(ps.no_duplicates());
        ps.unique_seq_to_set();
    }

    /// Binds `path` to `actorRef`; a path that is already bound is refused and
    /// keeps its binding.
    pub fn register(&mut self, path: ActorPath, actorRef: ActorRef) -> (r: Result<
        (),
        RegisterError,
    >)
        ensures
            old(self).view().contains_key(path@) ==> r == Err::<(), RegisterError>(
                RegisterError::DuplicatePath,
            ) && final(self).view() == old(self).view(),
            !old(self).view().contains_key(path@) ==> r == Ok::<(), RegisterError>(())
                && final(self).view() == old(self).view().insert(path@, actorRef),
    {
        if self.resolve(&path).is_some() {
            return Err(RegisterError::DuplicatePath);
        }
        proof {
            lemma_entries_map_domain(self.entries@, path@);
        }
        proof {
            use_type_invariant(&*self);
        }
        let mut entries: Vec<(ActorPath, ActorRef)> = Vec::new();
        std::mem::swap(&mut self.entries, &mut entries);
        let ghost prev = entries@;
        entries.push((path, actorRef));
        proof {
            assert(entries@.drop_last() =~= prev);
        }
        std::mem::swap(&mut self.entries, &mut entries);
        Ok(())
    }

    /// The handle bound to `path`, or `None` where the path was never registered.
    pub fn resolve(&self, path: &ActorPath) -> (r: Option<ActorRef>)
        ensures
            r == self.lookup(path@),
    {
        proof {
            use_type_invariant(self);
        }
        let n = self.entries.len();
        let mut i: usize = 0;
        while i < n
            invariant
                paths_unique(self.entries@),
                n == self.entries@.len(),
                i <= n,
                forall|j: int| 0 <= j < i ==> self.entries@[j].0@ != path@,
            decreases n - i,
        {
            if self.entries[i].0 == *path {
                proof {
                    lemma_entries_map_value(self.entries@, i as int);
                }
                return Some(self.entries[i].1);
            }
            i = i + 1;
        }
        proof {
            lemma_entries_map_domain(self.entries@, path@);
        }
        None
    }
}

} // verus!
