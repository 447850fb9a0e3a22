//! Bookkeeping of in-flight detached work, with a one-way close.
use vstd::prelude::*;

verus! {

/// Abstract state of a registry: whether it is closed, which tasks are
/// still outstanding, and the next identifier it would hand out.
pub ghost struct RegistryState {
    pub closed: bool,
    pub outstanding: Set<u64>,
    pub next_id: u64,
}

/// One operation on a registry, as seen from outside.
pub ghost enum RegistryOp {
    Register,
    Complete(u64),
    Close,
}

/// Whether a registration is accepted in `s`.
pub open spec fn accepts(s: RegistryState) -> bool {
    !s.closed && s.next_id < u64::MAX
}

/// The state after a registration attempt.
pub open spec fn after_register(s: RegistryState) -> RegistryState {
    if accepts(s) {
        RegistryState {
            closed: false,
            outstanding: s.outstanding.insert(s.next_id),
            next_id: (s.next_id + 1) as u64,
        }
    } else {
        s
    }
}

/// The state after task `id` reports completion.
pub open spec fn after_complete(s: RegistryState, id: u64) -> RegistryState {
    RegistryState { outstanding: s.outstanding.remove(id), ..s }
}

/// The state after `close`.
pub open spec fn after_close(s: RegistryState) -> RegistryState {
    RegistryState { closed: true, ..s }
}

pub open spec fn apply_op(s: RegistryState, op: RegistryOp) -> RegistryState {
    match op {
        RegistryOp::Register => after_register(s),
        RegistryOp::Complete(id) => after_complete(s, id),
        RegistryOp::Close => after_close(s),
    }
}

pub open spec fn apply_ops(s: RegistryState, ops: Seq<RegistryOp>) -> RegistryState
    decreases ops.len(),
{
    if ops.len() == 0 {
        s
    } else {
        apply_ops(apply_op(s, ops[0]), ops.drop_first())
    }
}

/// Identifiers of the tasks that report completion in `ops`.
pub open spec fn completed_ids(ops: Seq<RegistryOp>) -> Set<u64>
    decreases ops.len(),
{
    if ops.len() == 0 {
        Set::empty()
    } else {
        let rest = completed_ids(ops.drop_first());
        match ops[0] {
            RegistryOp::Complete(id) => rest.insert(id),
            _ => rest,
        }
    }
}

/// Graceful shutdown: once a registry is closed, whatever happens next, it
/// stays closed and refuses every registration, no task joins the
/// outstanding set, and it is drained exactly when every task outstanding
/// at the close has reported completion.
pub proof fn law_graceful_shutdown(s: RegistryState, ops: Seq<RegistryOp>)
    requires
        s.closed,
    ensures
        apply_ops(s, ops).closed,
        !accepts(apply_ops(s, ops)),
        after_register(apply_ops(s, ops)) == apply_ops(s, ops),
        apply_ops(s, ops).outstanding == s.outstanding.difference(completed_ids(ops)),
        apply_ops(s, ops).outstanding.is_empty() <==> s.outstanding.subset_of(completed_ids(ops)),
    decreases ops.len(),
{
    if ops.len() == 0 {
        assert(s.outstanding.difference(completed_ids(ops)) =~= s.outstanding);
    } else {
        let s1 = apply_op(s, ops[0]);
        law_graceful_shutdown(s1, ops.drop_first());
        let rest = completed_ids(ops.drop_first());
        match ops[0] {
            RegistryOp::Complete(id) => {
                assert(s1.outstanding.difference(rest) =~= s.outstanding.difference(rest.insert(id)));
            },
            _ => {
                assert(s1.outstanding == s.outstanding);
            },
        }
    }
    let r = apply_ops(s, ops);
    let c = completed_ids(ops);
    if r.outstanding.is_empty() {
        assert forall|x: u64| s.outstanding.contains(x) implies c.contains(x) by {
            if !c.contains(x) {
                assert(r.outstanding.contains(x));
            }
        }
    }
    if s.outstanding.subset_of(c) {
        assert(r.outstanding =~= Set::empty());
    }
}

/// Process-wide record of detached tasks: each accepted registration gets a
/// fresh identifier, which stays outstanding until the task reports
/// completion. Once closed, the registry accepts no more registrations.
pub struct TaskRegistry {
    closed: bool,
    outstanding: Vec<u64>,
    next_id: u64,
}

impl TaskRegistry {
    pub closed spec fn view(&self) -> RegistryState {
        RegistryState {
            closed: self.closed,
            outstanding: self.outstanding@.to_set(),
            next_id: self.next_id,
        }
    }

    /// Identifiers are unique and all below the next one to be handed out.
    pub closed spec fn wf(&self) -> bool {
        &&& self.outstanding@.no_duplicates()
        &&& forall|i: int| 0 <= i < self.outstanding@.len() ==> self.outstanding@[i] < self.next_id
    }

    pub fn new() -> (r: Self)
        ensures
            r.wf(),
            r.view() == (RegistryState { closed: false, outstanding: Set::empty(), next_id: 0 }),
    {
        let r = TaskRegistry { closed: false, outstanding: Vec::new(), next_id: 0 };
        proof {
            assert(r.outstanding@.to_set() =~= Set::empty());
        }
        r
    }

    /// Records a new task. Returns its identifier, or `None` when the
    /// registry is closed (the caller must then not run the task) or has
    /// handed out every identifier.
    pub fn register(&mut self) -> (r: Option<u64>)
        requires
            old(self).wf(),
        ensures
            final(self).wf(),
            final(self).view() == after_register(old(self).view()),
            r == (if accepts(old(self).view()) { Some(old(self).view().next_id) } else { None }),
    {
        if self.closed || self.next_id == u64::MAX {
            return None;
        }
        let id = self.next_id;
        proof {
            let s = self.outstanding@;
            assert(!s.contains(id)) by {
                if s.contains(id) {
                    let k = s.index_of(id);
                    assert(s[k] < id);
                }
            }
            s.lemma_push_to_set_commute(id);
        }
        self.outstanding.push(id);
        self.next_id = id + 1;
        proof {
            let s = self.outstanding@;
            assert(s.no_duplicates()) by {
                assert forall|i: int, j: int| 0 <= i < s.len() && 0 <= j < s.len() && i != j
                    implies s[i] != s[j] by {
                    if i < s.len() - 1 && j < s.len() - 1 {
                        assert(s[i] == old(self).outstanding@[i]);
                        assert(s[j] == old(self).outstanding@[j]);
                    } else if i < s.len() - 1 {
                        assert(s[i] == old(self).outstanding@[i]);
                    } else {
                        assert(s[j] == old(self).outstanding@[j]);
                    }
                }
            }
        }
        Some(id)
    }

    /// Records that task `id` has finished. Returns whether it was outstanding.
    pub fn complete(&mut self, id: u64) -> (r: bool)
        requires
            old(self).wf(),
        ensures
            final(self).wf(),
            final(self).view() == after_complete(old(self).view(), id),
            r == old(self).view().outstanding.contains(id),
    {
        let n = self.outstanding.len();
        let mut i: usize = 0;
        while i < n
            invariant
                n == self.outstanding.len(),
                0 <= i <= n,
                self.outstanding == old(self).outstanding,
                self.closed == old(self).closed,
                self.next_id == old(self).next_id,
                self.wf(),
                forall|k: int| 0 <= k < i ==> self.outstanding@[k] != id,
            decreases n - i,
        {
            if self.outstanding[i] == id {
                let ghost s = self.outstanding@;
                self.outstanding.remove(i);
                proof {
                    let t = self.outstanding@;
                    assert(t =~= s.remove(i as int));
                    assert forall|x: u64| #[trigger] t.contains(x) <==> s.to_set().remove(id).contains(x) by {
                        if t.contains(x) {
                            let k = choose|k: int| 0 <= k < t.len() && t[k] == x;
                            let k2 = if k < i { k } else { k + 1 };
                            assert(s[k2] == x);
                            assert(k2 != i);
                            assert(s.contains(x));
                            assert(x != id);
                        }
                        if s.to_set().remove(id).contains(x) {
                            assert(s.contains(x));
                            let k = choose|k: int| 0 <= k < s.len() && s[k] == x;
                            assert(k != i);
                            if k < i {
                                assert(t[k] == x);
                            } else {
                                assert(t[k - 1] == x);
                            }
                        }
                    }
                    assert(t.to_set() =~= s.to_set().remove(id));
                    assert(t.no_duplicates()) by {
                        assert forall|a: int, b: int| 0 <= a < t.len() && 0 <= b < t.len() && a != b
                            implies t[a] != t[b] by {
                            let a2 = if a < i { a } else { a + 1 };
                            let b2 = if b < i { b } else { b + 1 };
                            assert(t[a] == s[a2]);
                            assert(t[b] == s[b2]);
                        }
                    }
                    assert forall|k: int| 0 <= k < t.len() implies t[k] < self.next_id by {
                        let k2 = if k < i { k } else { k + 1 };
                        assert(t[k] == s[k2]);
                    }
                }
                return true;
            }
            i = i + 1;
        }
        proof {
            let s = self.outstanding@;
            assert(!s.contains(id));
            assert(s.to_set().remove(id) =~= s.to_set());
        }
        false
    }

    /// Refuses every later registration. Closing twice changes nothing.
    pub fn close(&mut self)
        requires
            old(self).wf(),
        ensures
            final(self).wf(),
            final(self).view() == after_close(old(self).view()),
    {
        self.closed = true;
    }

    pub fn is_closed(&self) -> (r: bool)
        ensures
            r == self.view().closed,
    {
        self.closed
    }

    /// Number of outstanding tasks.
    pub fn len(&self) -> (r: usize)
        requires
            self.wf(),
        ensures
            r == self.view().outstanding.len(),
    {
        proof {
            self.outstanding@.unique_seq_to_set();
        }
        self.outstanding.len()
    }

    /// Whether no task is outstanding: the condition a drain waits for.
    pub fn is_drained(&self) -> (r: bool)
        requires
            self.wf(),
        ensures
            r == self.view().outstanding.is_empty(),
    {
        proof {
            if self.outstanding@.len() > 0 {
                assert(self.outstanding@.to_set().contains(self.outstanding@[0]));
            }
            if self.outstanding@.len() == 0 {
                assert(self.outstanding@.to_set() =~= Set::empty());
            }
        }
        self.outstanding.len() == 0
    }
}

} // verus!
