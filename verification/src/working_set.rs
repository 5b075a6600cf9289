//! The revertible working set: an in-memory read/write cache layered over a
//! persistent storage backend, with nested scopes that commit into their
//! parent or revert without trace.
//!
//! Reads check the scope chain innermost-to-outermost, then fall through to
//! the backend. Every backend read is recorded, in order, into the produced
//! witness. A working set seeded with a non-empty witness replays: backend
//! reads are answered from the seeded trace (first matching entry) instead of
//! the storage content, which reproduces a recorded native run.

use vstd::prelude::*;

use crate::bytes::{bytes_eq, bytes_range};
use crate::storage::{
    kvs_view, map_get, writes_lookup, ChangeLog, KvPair, Storage, Witness, WitnessEntry,
};

verus! {

/// The value an ordered read trace holds for a key: the first read wins.
/// `None` means the trace never read the key; `Some(v)` is what the backend
/// answered, itself an option.
pub open spec fn trace_lookup(
    trace: Seq<(Seq<u8>, Option<Seq<u8>>)>,
    key: Seq<u8>,
) -> Option<Option<Seq<u8>>>
    decreases trace.len(),
{
    if trace.len() == 0 {
        None
    } else if trace[0].0 == key {
        Some(trace[0].1)
    } else {
        trace_lookup(trace.skip(1), key)
    }
}

/// One nested commit/revert unit: its pending writes, in order.
#[derive(Debug)]
pub struct Scope {
    writes: Vec<KvPair>,
}

impl View for Scope {
    type V = Seq<(Seq<u8>, Seq<u8>)>;

    closed spec fn view(&self) -> Seq<(Seq<u8>, Seq<u8>)> {
        kvs_view(self.writes@)
    }
}

/// The views of a stack of scopes, outermost first.
pub open spec fn scopes_view(scopes: Seq<Scope>) -> Seq<Seq<(Seq<u8>, Seq<u8>)>> {
    scopes.map_values(|s: Scope| s@)
}

/// The mathematical state of a working set.
pub ghost struct WsModel {
    /// The key-value content of the backend.
    pub backend: Map<Seq<u8>, Seq<u8>>,
    /// The seeded read trace; non-empty means constrained replay.
    pub witness_in: Seq<(Seq<u8>, Option<Seq<u8>>)>,
    /// The read trace produced so far.
    pub witness_out: Seq<(Seq<u8>, Option<Seq<u8>>)>,
    /// The scope stack, outermost (the slot scope) first; never empty.
    pub scopes: Seq<Seq<(Seq<u8>, Seq<u8>)>>,
}

/// Scope-chain lookup: the innermost scope that wrote the key wins.
pub open spec fn scopes_lookup(
    scopes: Seq<Seq<(Seq<u8>, Seq<u8>)>>,
    key: Seq<u8>,
) -> Option<Seq<u8>>
    decreases scopes.len(),
{
    if scopes.len() == 0 {
        None
    } else {
        match writes_lookup(scopes.last(), key) {
            Some(v) => Some(v),
            None => scopes_lookup(scopes.drop_last(), key),
        }
    }
}

impl WsModel {
    pub open spec fn wf(self) -> bool {
        self.scopes.len() >= 1
    }

    /// How many scopes are open; 1 is the slot root alone.
    pub open spec fn depth(self) -> nat {
        self.scopes.len()
    }

    /// Whether this working set replays a seeded witness.
    pub open spec fn replay(self) -> bool {
        self.witness_in.len() > 0
    }

    /// What the backend answers for a key: under replay, the seeded trace;
    /// natively, the storage content.
    pub open spec fn backend_read(self, key: Seq<u8>) -> Option<Seq<u8>> {
        if self.replay() {
            match trace_lookup(self.witness_in, key) {
                Some(v) => v,
                None => None,
            }
        } else {
            map_get(self.backend, key)
        }
    }

    /// The visible value of a key: scope chain first, then the backend.
    pub open spec fn lookup(self, key: Seq<u8>) -> Option<Seq<u8>> {
        match scopes_lookup(self.scopes, key) {
            Some(v) => Some(v),
            None => self.backend_read(key),
        }
    }

    /// A fresh nested scope on top.
    pub open spec fn enter(self) -> WsModel {
        WsModel { scopes: self.scopes.push(Seq::empty()), ..self }
    }

    /// The top scope merged into its parent, the child's writes appended so
    /// the last writer keeps winning.
    pub open spec fn commit_top(self) -> WsModel
        recommends
            self.depth() >= 2,
    {
        WsModel {
            scopes: self.scopes.take(self.scopes.len() - 2).push(
                self.scopes[self.scopes.len() - 2] + self.scopes.last(),
            ),
            ..self
        }
    }

    /// The top scope discarded.
    pub open spec fn revert_top(self) -> WsModel
        recommends
            self.depth() >= 2,
    {
        WsModel { scopes: self.scopes.drop_last(), ..self }
    }

    /// A write appended to the top scope.
    pub open spec fn write_effect(self, key: Seq<u8>, value: Seq<u8>) -> WsModel
        recommends
            self.wf(),
    {
        WsModel { scopes: self.scopes.drop_last().push(self.scopes.last().push((key, value))), ..self }
    }

    /// The state after reading a key: a backend read is recorded into the
    /// produced witness; a scope hit leaves no trace.
    pub open spec fn read_effect(self, key: Seq<u8>) -> WsModel {
        if scopes_lookup(self.scopes, key) is Some {
            self
        } else {
            WsModel { witness_out: self.witness_out.push((key, self.backend_read(key))), ..self }
        }
    }
}

/// Entering a scope and reverting it restores the working set exactly.
pub proof fn lemma_enter_revert(m: WsModel)
    ensures
        m.enter().revert_top() == m,
{
    assert(m.enter().scopes.drop_last() =~= m.scopes);
}

/// The view of an option of bytes.
pub open spec fn opt_bytes_view(o: Option<Vec<u8>>) -> Option<Seq<u8>> {
    match o {
        Some(v) => Some(v@),
        None => None,
    }
}

/// Finalizing failed because nested scopes were still open.
#[derive(Clone, Copy, Debug, PartialEq, Eq, Structural)]
pub enum FinalizeError {
    NestedScopesOpen,
}

/// A stack of revertible scopes over a storage backend. Created at the start
/// of a slot, finalized exactly once at its end.
#[derive(Debug)]
pub struct WorkingSet<S: Storage> {
    storage: S,
    witness_in: Witness,
    witness_out: Witness,
    scopes: Vec<Scope>,
}

impl<S: Storage> View for WorkingSet<S> {
    type V = WsModel;

    closed spec fn view(&self) -> WsModel {
        WsModel {
            backend: self.storage.state_view(),
            witness_in: self.witness_in@,
            witness_out: self.witness_out@,
            scopes: scopes_view(self.scopes@),
        }
    }
}

/// Looks a key up in one scope, scanning its writes from the latest backwards.
fn scope_find(scope: &Scope, key: &Vec<u8>) -> (r: Option<Vec<u8>>)
    ensures
        opt_bytes_view(r) == writes_lookup(scope@, key@),
{
    let mut j: usize = scope.writes.len();
    proof {
        assert(scope@.take(scope.writes@.len() as int) =~= scope@);
    }
    while j > 0
        invariant
            j <= scope.writes@.len(),
            scope@.len() == scope.writes@.len(),
            writes_lookup(scope@, key@) == writes_lookup(scope@.take(j as int), key@),
        decreases j,
    {
        proof {
            assert(scope@.take(j as int).last() == scope.writes@[j - 1]@);
            assert(scope@.take(j as int).drop_last() =~= scope@.take(j - 1));
        }
        if bytes_eq(&scope.writes[j - 1].key, key) {
            let v = bytes_range(&scope.writes[j - 1].value, 0, scope.writes[j - 1].value.len());
            proof {
                assert(v@ =~= scope.writes@[j - 1]@.1);
            }
            return Some(v);
        }
        j = j - 1;
    }
    proof {
        assert(scope@.take(0) =~= Seq::<(Seq<u8>, Seq<u8>)>::empty());
    }
    None
}

/// Looks a key up in a seeded read trace, first matching entry winning.
fn trace_find(witness: &Witness, key: &Vec<u8>) -> (r: Option<Vec<u8>>)
    ensures
        opt_bytes_view(r) == match trace_lookup(witness@, key@) {
            Some(v) => v,
            None => None,
        },
{
    let mut i: usize = 0;
    proof {
        assert(witness@.skip(0) =~= witness@);
    }
    while i < witness.reads.len()
        invariant
            i <= witness.reads@.len(),
            witness@.len() == witness.reads@.len(),
            trace_lookup(witness@, key@) == trace_lookup(witness@.skip(i as int), key@),
        decreases witness.reads@.len() - i,
    {
        proof {
            assert(witness@.skip(i as int)[0] == witness.reads@[i as int]@);
            assert(witness@.skip(i as int).skip(1) =~= witness@.skip(i + 1));
        }
        if bytes_eq(&witness.reads[i].key, key) {
            match &witness.reads[i].value {
                Some(v) => {
                    let out = bytes_range(v, 0, v.len());
                    proof {
                        assert(out@ =~= witness.reads@[i as int]@.1.unwrap());
                    }
                    return Some(out);
                },
                None => {
                    return None;
                },
            }
        }
        i = i + 1;
    }
    None
}

impl<S: Storage> WorkingSet<S> {
    pub open spec fn wf(&self) -> bool {
        self@.wf()
    }

    /// A fresh working set for native execution: no seeded witness.
    pub fn new(storage: S) -> (r: Self)
        ensures
            r@ == (WsModel {
                backend: storage.state_view(),
                witness_in: Seq::empty(),
                witness_out: Seq::empty(),
                scopes: seq![Seq::empty()],
            }),
            r.wf(),
    {
        Self::with_witness(storage, Witness::new())
    }

    /// A fresh working set; a non-empty witness makes it replay that trace.
    pub fn with_witness(storage: S, witness: Witness) -> (r: Self)
        ensures
            r@ == (WsModel {
                backend: storage.state_view(),
                witness_in: witness@,
                witness_out: Seq::empty(),
                scopes: seq![Seq::empty()],
            }),
            r.wf(),
    {
        let mut scopes: Vec<Scope> = Vec::new();
        scopes.push(Scope { writes: Vec::new() });
        let r = WorkingSet { storage, witness_in: witness, witness_out: Witness::new(), scopes };
        proof {
            assert(r.scopes@[0]@ =~= Seq::<(Seq<u8>, Seq<u8>)>::empty());
            assert(scopes_view(r.scopes@) =~= seq![Seq::<(Seq<u8>, Seq<u8>)>::empty()]);
        }
        r
    }

    /// How many scopes are open.
    pub fn depth(&self) -> (r: usize)
        ensures
            r == self@.depth(),
    {
        self.scopes.len()
    }

    /// Reads the visible value of a key: scope chain innermost-to-outermost,
    /// then the backend; a backend read is recorded into the witness.
    pub fn read(&mut self, key: &Vec<u8>) -> (r: Option<Vec<u8>>)
        requires
            old(self).wf(),
        ensures
            final(self).wf(),
            opt_bytes_view(r) == old(self)@.lookup(key@),
            final(self)@ == old(self)@.read_effect(key@),
    {
        let ghost m = self@;
        let mut i: usize = self.scopes.len();
        proof {
            assert(m.scopes.take(m.scopes.len() as int) =~= m.scopes);
        }
        while i > 0
            invariant
                i <= self.scopes@.len(),
                self@ == m,
                m.scopes.len() == self.scopes@.len(),
                scopes_lookup(m.scopes, key@) == scopes_lookup(m.scopes.take(i as int), key@),
            decreases i,
        {
            proof {
                assert(m.scopes.take(i as int).last() == self.scopes@[i - 1]@);
                assert(m.scopes.take(i as int).drop_last() =~= m.scopes.take(i - 1));
            }
            match scope_find(&self.scopes[i - 1], key) {
                Some(v) => {
                    return Some(v);
                },
                None => {},
            }
            i = i - 1;
        }
        proof {
            assert(m.scopes.take(0) =~= Seq::<Seq<(Seq<u8>, Seq<u8>)>>::empty());
        }
        // No scope holds the key: ask the backend (the seeded trace under
        // replay, the storage otherwise) and record the answer.
        let val = if self.witness_in.reads.len() > 0 {
            trace_find(&self.witness_in, key)
        } else {
            self.storage.get(key)
        };
        let key_copy = bytes_range(key, 0, key.len());
        let val_copy = match &val {
            Some(v) => Some(bytes_range(v, 0, v.len())),
            None => None,
        };
        let ghost pre_out = self.witness_out@;
        let entry = WitnessEntry { key: key_copy, value: val_copy };
        let ghost ev = entry@;
        self.witness_out.reads.push(entry);
        proof {
            assert(ev == (key@, opt_bytes_view(val)));
            assert(self.witness_out@ =~= pre_out.push(ev));
            assert(opt_bytes_view(val) == m.backend_read(key@));
            assert(self@ == m.read_effect(key@));
        }
        val
    }

    /// Appends a write to the innermost scope.
    pub fn write(&mut self, key: Vec<u8>, value: Vec<u8>)
        requires
            old(self).wf(),
        ensures
            final(self).wf(),
            final(self)@ == old(self)@.write_effect(key@, value@),
    {
        let ghost m = self@;
        let mut top = match self.scopes.pop() {
            Some(t) => t,
            None => {
                proof {
                    assert(false);
                }
                Scope { writes: Vec::new() }
            },
        };
        let ghost top_pre = top@;
        let ghost kv = (key@, value@);
        top.writes.push(KvPair { key, value });
        proof {
            assert(top@ =~= top_pre.push(kv));
        }
        self.scopes.push(top);
        proof {
            assert(scopes_view(self.scopes@) =~= m.scopes.drop_last().push(m.scopes.last().push(kv)));
        }
    }

    /// Opens a nested scope.
    pub fn enter_scope(&mut self)
        requires
            old(self).wf(),
        ensures
            final(self).wf(),
            final(self)@ == old(self)@.enter(),
    {
        let ghost m = self@;
        self.scopes.push(Scope { writes: Vec::new() });
        proof {
            assert(self.scopes@.last()@ =~= Seq::<(Seq<u8>, Seq<u8>)>::empty());
            assert(scopes_view(self.scopes@) =~= m.scopes.push(Seq::empty()));
        }
    }

    /// Merges the innermost scope into its parent: the child's writes land
    /// after the parent's, so the child's final values win.
    pub fn commit_scope(&mut self)
        requires
            old(self).wf(),
            old(self)@.depth() >= 2,
        ensures
            final(self).wf(),
            final(self)@ == old(self)@.commit_top(),
    {
        let ghost m = self@;
        let mut child = match self.scopes.pop() {
            Some(c) => c,
            None => {
                proof {
                    assert(false);
                }
                Scope { writes: Vec::new() }
            },
        };
        let mut parent = match self.scopes.pop() {
            Some(p) => p,
            None => {
                proof {
                    assert(false);
                }
                Scope { writes: Vec::new() }
            },
        };
        let ghost child_v = child@;
        let ghost parent_v = parent@;
        parent.writes.append(&mut child.writes);
        proof {
            assert(parent@ =~= parent_v + child_v);
        }
        self.scopes.push(parent);
        proof {
            assert(scopes_view(self.scopes@) =~= m.scopes.take(m.scopes.len() - 2).push(
                m.scopes[m.scopes.len() - 2] + m.scopes.last(),
            ));
        }
    }

    /// Discards the innermost scope: its writes, and any reads it made that
    /// only it saw, become invisible to every other scope.
    pub fn revert_scope(&mut self)
        requires
            old(self).wf(),
            old(self)@.depth() >= 2,
        ensures
            final(self).wf(),
            final(self)@ == old(self)@.revert_top(),
    {
        let ghost m = self@;
        let _ = self.scopes.pop();
        proof {
            assert(scopes_view(self.scopes@) =~= m.scopes.drop_last());
        }
    }

    /// Finalizes the slot: only valid at the root scope. Yields the ordered
    /// change log of the slot and the witness of every backend read made.
    pub fn freeze(self) -> (r: Result<(ChangeLog, Witness), FinalizeError>)
        requires
            self.wf(),
        ensures
            r is Ok <==> self@.depth() == 1,
            r matches Ok((c, w)) ==> c@ == self@.scopes[0] && w@ == self@.witness_out,
    {
        let WorkingSet { storage: _, witness_in: _, witness_out, mut scopes } = self;
        if scopes.len() != 1 {
            return Err(FinalizeError::NestedScopesOpen);
        }
        let root = match scopes.pop() {
            Some(s) => s,
            None => {
                proof {
                    assert(false);
                }
                Scope { writes: Vec::new() }
            },
        };
        Ok((ChangeLog { writes: root.writes }, witness_out))
    }
}

/// What any hook or dispatched call may do to a working set: read and write
/// through the scope chain, never touch the backend, the seeded trace, or any
/// scope below the innermost one, and never change the depth. Balanced nested
/// scopes of its own are allowed.
pub open spec fn scoped_effect(pre: WsModel, post: WsModel) -> bool {
    &&& post.backend == pre.backend
    &&& post.witness_in == pre.witness_in
    &&& post.scopes.len() == pre.scopes.len()
    &&& post.scopes.take(pre.scopes.len() - 1) == pre.scopes.take(pre.scopes.len() - 1)
}

/// Two scoped effects in a row are one.
pub proof fn lemma_scoped_effect_trans(a: WsModel, b: WsModel, c: WsModel)
    requires
        scoped_effect(a, b),
        scoped_effect(b, c),
    ensures
        scoped_effect(a, c),
{
}

/// A write only touches the top scope.
pub proof fn lemma_write_scoped(m: WsModel, key: Seq<u8>, value: Seq<u8>)
    requires
        m.wf(),
    ensures
        scoped_effect(m, m.write_effect(key, value)),
        m.write_effect(key, value).wf(),
{
    let post = m.write_effect(key, value);
    assert(post.scopes.take(m.scopes.len() - 1) =~= m.scopes.take(m.scopes.len() - 1));
}

/// A read only appends to the produced witness.
pub proof fn lemma_read_scoped(m: WsModel, key: Seq<u8>)
    requires
        m.wf(),
    ensures
        scoped_effect(m, m.read_effect(key)),
        m.read_effect(key).wf(),
        m.read_effect(key).scopes == m.scopes,
{
}

/// Reverting the scope a scoped effect ran in restores the scope stack, so the
/// visible value of every key is what it was before the scope was entered.
pub proof fn lemma_scoped_revert_restores(pre: WsModel, post: WsModel)
    requires
        pre.wf(),
        scoped_effect(pre.enter(), post),
    ensures
        post.revert_top().scopes == pre.scopes,
        post.revert_top().backend == pre.backend,
        post.revert_top().witness_in == pre.witness_in,
        forall|key: Seq<u8>| post.revert_top().lookup(key) == pre.lookup(key),
{
    let entered = pre.enter();
    assert(entered.scopes.take(entered.scopes.len() - 1) =~= pre.scopes);
    assert(post.scopes.drop_last() =~= post.scopes.take(post.scopes.len() - 1));
    assert(post.revert_top().scopes == pre.scopes);
}


/// Entering a scope changes the visible value of no key.
pub proof fn lemma_enter_preserves_lookup(m: WsModel, key: Seq<u8>)
    ensures
        m.enter().lookup(key) == m.lookup(key),
{
    let entered = m.enter();
    assert(entered.scopes.last() =~= Seq::<(Seq<u8>, Seq<u8>)>::empty());
    assert(entered.scopes.drop_last() =~= m.scopes);
}

/// Committing the innermost scope merges its writes into exactly its parent
/// and changes the visible value of no key: within a scope chain the last
/// writer keeps winning.
pub proof fn lemma_commit_preserves_lookup(m: WsModel, key: Seq<u8>)
    requires
        m.depth() >= 2,
    ensures
        m.commit_top().lookup(key) == m.lookup(key),
        m.commit_top().depth() == m.depth() - 1,
{
    reveal_with_fuel(scopes_lookup, 3);
    let n = m.scopes.len();
    let merged = m.commit_top();
    let parent = m.scopes[n - 2];
    let child = m.scopes[n - 1];
    assert(m.scopes.last() == child);
    crate::storage::lemma_writes_lookup_concat(parent, child, key);
    assert(merged.scopes.last() == parent + child);
    assert(merged.scopes.drop_last() =~= m.scopes.take(n - 2));
    assert(m.scopes.drop_last().last() == parent);
    assert(m.scopes.drop_last().drop_last() =~= m.scopes.take(n - 2));
}

/// A write is read back: the written key shows the new value, every other
/// key is untouched.
pub proof fn lemma_write_lookup(m: WsModel, key: Seq<u8>, value: Seq<u8>, other: Seq<u8>)
    requires
        m.wf(),
    ensures
        m.write_effect(key, value).lookup(key) == Some(value),
        other != key ==> m.write_effect(key, value).lookup(other) == m.lookup(other),
{
    let written = m.write_effect(key, value);
    assert(written.scopes.last() == m.scopes.last().push((key, value)));
    assert(written.scopes.last().last() == (key, value));
    assert(written.scopes.drop_last() =~= m.scopes.drop_last());
    assert(written.scopes.last().drop_last() =~= m.scopes.last());
}

} // verus!
