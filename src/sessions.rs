//! Named profiling sessions that are open between a start and an end.

use vstd::prelude::*;

verus! {

/// A decimal digit.
pub open spec fn digit_char(d: nat) -> char {
    if d == 0 { '0' } else if d == 1 { '1' } else if d == 2 { '2' } else if d == 3 { '3' }
    else if d == 4 { '4' } else if d == 5 { '5' } else if d == 6 { '6' } else if d == 7 { '7' }
    else if d == 8 { '8' } else { '9' }
}

/// The decimal digits of `n`, without leading zeros.
pub open spec fn decimal(n: nat) -> Seq<char>
    decreases n,
{
    if n < 10 {
        seq![digit_char(n)]
    } else {
        decimal(n / 10).push(digit_char(n % 10))
    }
}

/// Relies on `ToString` of `u64`, which writes the number in decimal.
#[verifier::external_body]
fn decimal_string(n: u64) -> (r: String)
    ensures
        r@ == decimal(n as nat),
{
    n.to_string()
}

/// The identifier of the session started with counter value `n`.
pub open spec fn session_id_of(n: u64) -> Seq<char> {
    "session_"@ + decimal(n as nat)
}

/// A session being recorded. `start_instant` is in nanoseconds on the
/// monotonic clock that spans are timed with.
pub struct ActiveSession {
    pub id: String,
    pub name: String,
    pub start_instant: u64,
}

/// The sessions that are open, each under its own identifier.
pub struct SessionManager {
    active_sessions: Vec<ActiveSession>,
    next_id: u64,
}

proof fn lemma_remove_index(before: Seq<Seq<char>>, i: int)
    requires
        0 <= i < before.len(),
        before.no_duplicates(),
    ensures
        before.remove(i).no_duplicates(),
        before.remove(i).to_set() == before.to_set().remove(before[i]),
{
    let after = before.remove(i);
    assert forall|a: int, b: int| 0 <= a < b < after.len() implies after[a] != after[b] by {
        let a0 = if a < i { a } else { a + 1 };
        let b0 = if b < i { b } else { b + 1 };
        assert(after[a] == before[a0] && after[b] == before[b0]);
    }
    assert forall|x: Seq<char>| after.to_set().contains(x) <==> before.to_set().remove(before[i]).contains(x) by {
        if after.contains(x) {
            let j = choose|j: int| 0 <= j < after.len() && after[j] == x;
            let j0 = if j < i { j } else { j + 1 };
            assert(before[j0] == x);
        }
        if before.contains(x) && x != before[i] {
            let j = choose|j: int| 0 <= j < before.len() && before[j] == x;
            let j1 = if j < i { j } else { j - 1 };
            assert(after[j1] == x);
        }
    }
    assert(after.to_set() =~= before.to_set().remove(before[i]));
}

impl SessionManager {
    /// The open sessions, oldest first.
    pub closed spec fn sessions(&self) -> Seq<ActiveSession> {
        self.active_sessions@
    }

    /// The counter the next session's identifier is made from.
    pub closed spec fn spec_next_id(&self) -> u64 {
        self.next_id
    }

    /// Identifiers of the open sessions.
    pub open spec fn ids(&self) -> Seq<Seq<char>> {
        self.sessions().map_values(|s: ActiveSession| s.id@)
    }

    /// No two open sessions share an identifier.
    pub open spec fn wf(&self) -> bool {
        self.ids().no_duplicates()
    }

    /// A manager with no open session.
    pub fn new() -> (r: SessionManager)
        ensures
            r.sessions() == Seq::<ActiveSession>::empty(),
            r.spec_next_id() == 1,
            r.wf(),
    {
        let r = SessionManager { active_sessions: Vec::new(), next_id: 1 };
        proof {
            assert(r.ids() =~= Seq::<Seq<char>>::empty());
        }
        r
    }

    fn position(&self, id: &String) -> (r: Option<usize>)
        ensures
            match r {
                Some(i) => i < self.sessions().len() && self.ids()[i as int] == id@,
                None => !self.ids().contains(id@),
            },
    {
        let mut i: usize = 0;
        while i < self.active_sessions.len()
            invariant
                i <= self.sessions().len(),
                forall|j: int| 0 <= j < i ==> self.ids()[j] != id@,
            decreases self.sessions().len() - i,
        {
            if self.active_sessions[i].id == *id {
                return Some(i);
            }
            i = i + 1;
        }
        None
    }

    /// Opens a session named `name`, started at `now`, and gives its
    /// identifier, `session_<n>` for the manager's counter `n`, which then
    /// moves on (wrapping). A session already open under that identifier is
    /// replaced.
    pub fn start_session(&mut self, name: String, _current_span_count: usize, now: u64) -> (r: String)
        requires
            old(self).wf(),
        ensures
            final(self).wf(),
            r@ == session_id_of(old(self).spec_next_id()),
            final(self).spec_next_id() == old(self).spec_next_id().wrapping_add(1),
            final(self).ids().to_set() == old(self).ids().to_set().insert(r@),
            final(self).sessions().last() == (ActiveSession { id: final(self).sessions().last().id, name, start_instant: now }),
            final(self).sessions().last().id@ == r@,
    {
        let id = String::from_str("session_").concat(decimal_string(self.next_id).as_str());
        self.next_id = self.next_id.wrapping_add(1);
        if let Some(i) = self.position(&id) {
            self.active_sessions.remove(i);
            proof {
                assert(self.ids() =~= old(self).ids().remove(i as int));
                lemma_remove_index(old(self).ids(), i as int);
            }
        }
        let ghost mid = self.ids();
        proof {
            assert(mid.to_set() =~= old(self).ids().to_set().remove(id@));
            assert(!mid.to_set().contains(id@));
        }
        self.active_sessions.push(ActiveSession { id: id.clone(), name, start_instant: now });
        proof {
            assert(self.ids() =~= mid.push(id@));
            assert(mid.push(id@).to_set() =~= mid.to_set().insert(id@)) by {
                assert forall|x: Seq<char>| mid.push(id@).contains(x) <==> mid.to_set().insert(id@).contains(x) by {
                    if mid.push(id@).contains(x) {
                        let j = choose|j: int| 0 <= j < mid.len() + 1 && mid.push(id@)[j] == x;
                        if j < mid.len() {
                            assert(mid[j] == x);
                        }
                    }
                    if mid.contains(x) {
                        let j = choose|j: int| 0 <= j < mid.len() && mid[j] == x;
                        assert(mid.push(id@)[j] == x);
                    }
                    if x == id@ {
                        assert(mid.push(id@)[mid.len() as int] == x);
                    }
                }
            }
            assert(old(self).ids().to_set().remove(id@).insert(id@) =~= old(self).ids().to_set().insert(id@));
        }
        id
    }

    /// Whether a session is open under `session_id`.
    pub fn is_active(&self, session_id: &str) -> (r: bool)
        ensures
            r == self.ids().contains(session_id@),
    {
        self.position(&String::from_str(session_id)).is_some()
    }

    /// The identifier of the oldest open session.
    pub fn active_session_id(&self) -> (r: Option<&str>)
        ensures
            match r {
                Some(s) => self.sessions().len() > 0 && s@ == self.ids()[0],
                None => self.sessions().len() == 0,
            },
    {
        if self.active_sessions.len() == 0 {
            None
        } else {
            Some(self.active_sessions[0].id.as_str())
        }
    }

    /// Closes the session open under `session_id` and gives it back.
    pub fn remove_session(&mut self, session_id: &str) -> (r: Option<ActiveSession>)
        requires
            old(self).wf(),
        ensures
            final(self).wf(),
            final(self).spec_next_id() == old(self).spec_next_id(),
            r is Some <==> old(self).ids().contains(session_id@),
            r matches Some(s) ==> s.id@ == session_id@,
            final(self).ids().to_set() == old(self).ids().to_set().remove(session_id@),
    {
        match self.position(&String::from_str(session_id)) {
            Some(i) => {
                let s = self.active_sessions.remove(i);
                proof {
                    assert(self.ids() =~= old(self).ids().remove(i as int));
                    lemma_remove_index(old(self).ids(), i as int);
                }
                Some(s)
            },
            None => {
                proof {
                    assert(old(self).ids().to_set().remove(session_id@) =~= old(self).ids().to_set());
                }
                None
            },
        }
    }
}

} // verus!
