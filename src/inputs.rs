//! Named input sessions.
use vstd::prelude::*;

use crate::assoc::{
    assoc, keys_unique, lemma_assoc_absent, lemma_assoc_entry, lemma_assoc_key_has_entry,
    lemma_assoc_latest,
};
use crate::time::{may_advance, Time};

verus! {

/// The identity of an input session held by the engine.
pub type SessionId = usize;

/// A second registration under a name that is already in use.
#[derive(Debug, PartialEq, Eq, Structural, Clone, Copy)]
pub enum InputError {
    DuplicateName,
}

/// Manages input sessions by name.
pub struct InputManager {
    /// Input sessions by name.
    sessions: Vec<(String, SessionId)>,
    /// The latest time every session was advanced to.
    time: Option<Time>,
}

impl InputManager {
    pub closed spec fn entries(&self) -> Seq<(Seq<char>, SessionId)> {
        self.sessions@.map_values(|e: (String, SessionId)| (e.0@, e.1))
    }

    /// The registered sessions, by name.
    pub closed spec fn sessions(&self) -> Map<Seq<char>, SessionId> {
        assoc(self.entries())
    }

    /// The latest time the sessions were advanced to, if any.
    pub closed spec fn time(&self) -> Option<Time> {
        self.time
    }

    /// At most one session per name.
    pub closed spec fn wf(&self) -> bool {
        keys_unique(self.entries())
    }

    /// Creates a new empty input manager.
    pub fn new() -> (r: InputManager)
        ensures
            r.wf(),
            r.sessions() == Map::<Seq<char>, SessionId>::empty(),
            r.time() is None,
    {
        let r = InputManager { sessions: Vec::new(), time: None };
        assert(r.entries().len() == 0);
        r
    }

    /// Drops every session.
    pub fn clear(&mut self)
        ensures
            final(self).wf(),
            final(self).sessions() == Map::<Seq<char>, SessionId>::empty(),
            final(self).time() == old(self).time(),
    {
        self.sessions.clear();
        assert(self.entries().len() == 0);
    }

    /// The session registered under `name`, if any.
    pub fn get(&self, name: &String) -> (r: Option<SessionId>)
        ensures
            r == (if self.sessions().contains_key(name@) {
                Some(self.sessions()[name@])
            } else {
                None
            }),
    {
        let ghost s = self.entries();
        let mut i: usize = self.sessions.len();
        while i > 0
            invariant
                i <= self.sessions@.len(),
                s == self.entries(),
                forall|l: int| i <= l < s.len() ==> s[l].0 != name@,
            decreases i,
        {
            i = i - 1;
            if self.sessions[i].0.eq(name) {
                proof {
                    lemma_assoc_latest(s, i as int, name@);
                }
                return Some(self.sessions[i].1);
            }
        }
        proof {
            lemma_assoc_absent(s, name@);
        }
        None
    }

    /// Registers `session` under `name`; a name already in use is refused
    /// and nothing changes.
    pub fn register(&mut self, name: String, session: SessionId) -> (r: Result<(), InputError>)
        requires
            old(self).wf(),
        ensures
            final(self).wf(),
            final(self).time() == old(self).time(),
            r is Err <==> old(self).sessions().contains_key(name@),
            r is Err ==> final(self).sessions() == old(self).sessions(),
            r is Ok ==> final(self).sessions() == old(self).sessions().insert(name@, session),
    {
        if self.get(&name).is_some() {
            return Err(InputError::DuplicateName);
        }
        let ghost s = self.entries();
        proof {
            assert forall|l: int| 0 <= l < s.len() implies s[l].0 != name@ by {
                if s[l].0 == name@ {
                    lemma_assoc_entry(s, l);
                }
            }
        }
        self.sessions.push((name, session));
        proof {
            let t = self.entries();
            assert(t.drop_last() =~= s);
            assert(forall|l: int| 0 <= l < s.len() ==> t[l] == s[l]);
            assert(keys_unique(t));
        }
        Ok(())
    }

    /// Records that every session is advanced to `time` and flushed.
    pub fn advance_time(&mut self, time: Time)
        requires
            may_advance(old(self).time(), time),
        ensures
            final(self).time() == Some(time),
            final(self).sessions() == old(self).sessions(),
            final(self).wf() == old(self).wf(),
    {
        self.time = Some(time);
    }

    /// The latest time the sessions were advanced to, if any.
    pub fn current_time(&self) -> (r: Option<Time>)
        ensures
            r == self.time(),
    {
        self.time
    }

    /// Every registered session: exactly the values of the name map.
    pub fn session_ids(&self) -> (r: Vec<SessionId>)
        requires
            self.wf(),
        ensures
            forall|n: Seq<char>| #[trigger]
                self.sessions().contains_key(n) ==> r@.contains(self.sessions()[n]),
            forall|i: int| 0 <= i < r@.len() ==> #[trigger] self.is_registered(r@[i]),
    {
        let ghost s = self.entries();
        let mut r: Vec<SessionId> = Vec::new();
        let mut i: usize = 0;
        while i < self.sessions.len()
            invariant
                i <= self.sessions@.len(),
                s == self.entries(),
                keys_unique(s),
                r@.len() == i,
                forall|l: int| 0 <= l < i ==> r@[l] == s[l].1,
            decreases self.sessions@.len() - i,
        {
            r.push(self.sessions[i].1);
            i = i + 1;
        }
        proof {
            assert forall|n: Seq<char>| #[trigger]
                self.sessions().contains_key(n) implies r@.contains(self.sessions()[n]) by {
                lemma_assoc_key_has_entry(s, n);
                let l = choose|l: int| 0 <= l < s.len() && s[l].0 == n && s[l].1 == assoc(s)[n];
                assert(r@[l] == self.sessions()[n]);
            }
            assert forall|i: int| 0 <= i < r@.len() implies #[trigger] self.is_registered(r@[i]) by {
                lemma_assoc_entry(s, i);
                assert(self.sessions().contains_key(s[i].0));
            }
        }
        r
    }

    /// Whether `id` is registered under some name.
    pub open spec fn is_registered(&self, id: SessionId) -> bool {
        exists|n: Seq<char>| #[trigger] self.sessions().contains_key(n) && self.sessions()[n] == id
    }
}

} // verus!
