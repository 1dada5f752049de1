//! Small pieces of application state: the launch path and the tracked child
//! processes.

use vstd::prelude::*;

verus! {

/// A path handed to the application at launch, taken at most once.
pub struct LaunchState {
    pub path: Option<String>,
}

impl LaunchState {
    /// No launch path.
    pub fn new() -> (r: LaunchState)
        ensures
            r.path is None,
    {
        LaunchState { path: None }
    }

    /// Takes the launch path, leaving none behind.
    pub fn take_path(&mut self) -> (r: Option<String>)
        ensures
            r == old(self).path,
            final(self).path is None,
    {
        self.path.take()
    }
}

/// Process ids of child processes to be killed on exit.
pub struct ProcessManager {
    tracked_pids: Vec<u32>,
}

impl ProcessManager {
    /// The tracked ids, each once.
    pub closed spec fn pids(&self) -> Seq<u32> {
        self.tracked_pids@
    }

    pub open spec fn wf(&self) -> bool {
        self.pids().no_duplicates()
    }

    /// Tracks nothing.
    pub fn new() -> (r: ProcessManager)
        ensures
            r.pids().to_set() == Set::<u32>::empty(),
            r.wf(),
    {
        let r = ProcessManager { tracked_pids: Vec::new() };
        proof {
            assert(r.pids().to_set() =~= Set::<u32>::empty());
        }
        r
    }

    fn position(&self, pid: u32) -> (r: Option<usize>)
        ensures
            match r {
                Some(i) => i < self.pids().len() && self.pids()[i as int] == pid,
                None => !self.pids().contains(pid),
            },
    {
        let mut i: usize = 0;
        while i < self.tracked_pids.len()
            invariant
                i <= self.pids().len(),
                forall|j: int| 0 <= j < i ==> self.pids()[j] != pid,
            decreases self.pids().len() - i,
        {
            if self.tracked_pids[i] == pid {
                return Some(i);
            }
            i = i + 1;
        }
        None
    }

    /// Whether `pid` is tracked.
    pub fn is_tracked(&self, pid: u32) -> (r: bool)
        ensures
            r == self.pids().contains(pid),
    {
        self.position(pid).is_some()
    }

    /// Starts tracking `pid`.
    pub fn register(&mut self, pid: u32)
        requires
            old(self).wf(),
        ensures
            final(self).wf(),
            final(self).pids().to_set() == old(self).pids().to_set().insert(pid),
    {
        if self.position(pid).is_none() {
            self.tracked_pids.push(pid);
            proof {
                let before = old(self).pids();
                assert(self.pids() =~= before.push(pid));
                assert forall|x: u32| self.pids().contains(x) <==> before.to_set().insert(pid).contains(x) by {
                    if self.pids().contains(x) && x != pid {
                        let j = choose|j: int| 0 <= j < self.pids().len() && self.pids()[j] == x;
                        assert(before[j] == x);
                    }
                    if before.contains(x) {
                        let j = choose|j: int| 0 <= j < before.len() && before[j] == x;
                        assert(self.pids()[j] == x);
                    }
                    if x == pid {
                        assert(self.pids()[before.len() as int] == x);
                    }
                }
                assert(self.pids().to_set() =~= before.to_set().insert(pid));
            }
        } else {
            proof {
                assert(old(self).pids().to_set().insert(pid) =~= old(self).pids().to_set());
            }
        }
    }

    /// Stops tracking `pid`.
    pub fn unregister(&mut self, pid: u32)
        requires
            old(self).wf(),
        ensures
            final(self).wf(),
            final(self).pids().to_set() == old(self).pids().to_set().remove(pid),
    {
        match self.position(pid) {
            Some(i) => {
                self.tracked_pids.remove(i);
                proof {
                    let before = old(self).pids();
                    let after = self.pids();
                    assert(after =~= before.remove(i as int));
                    assert forall|a: int, b: int| 0 <= a < b < after.len() implies after[a] != after[b] by {
                        let a0 = if a < i { a } else { a + 1 };
                        let b0 = if b < i { b } else { b + 1 };
                        assert(after[a] == before[a0] && after[b] == before[b0]);
                    }
                    assert forall|x: u32| after.contains(x) <==> before.to_set().remove(pid).contains(x) by {
                        if after.contains(x) {
                            let j = choose|j: int| 0 <= j < after.len() && after[j] == x;
                            let j0 = if j < i { j } else { j + 1 };
                            assert(before[j0] == x);
                        }
                        if before.contains(x) && x != pid {
                            let j = choose|j: int| 0 <= j < before.len() && before[j] == x;
                            let j1 = if j < i { j } else { j - 1 };
                            assert(after[j1] == x);
                        }
                    }
                    assert(after.to_set() =~= before.to_set().remove(pid));
                }
            },
            None => {
                proof {
                    assert(old(self).pids().to_set().remove(pid) =~= old(self).pids().to_set());
                }
            },
        }
    }

    /// The tracked ids.
    pub fn pid_list(&self) -> (r: Vec<u32>)
        ensures
            r@ == self.pids(),
    {
        self.tracked_pids.clone()
    }
}

} // verus!
