//! Applying a write batch to the graph.
//!
//! A batch is a list of operations. Its markers are skipped; every other
//! operation is handed to the graph in order, and the graph either applies it
//! or refuses it. The first refusal ends the batch with the graph's error. A
//! batch that is applied in full reports whether any schema operation changed
//! the schema; vertex and edge writes never do.
//!
//! Handing an operation to the graph is the caller's work. `BatchWriter`
//! makes the decisions: `step` says which operation to hand over next, or how
//! the batch ended, and `record` takes the graph's answer.
use vstd::prelude::*;
use crate::op::{OpType, is_marker, is_schema_op};

verus! {

/// What to do next with a batch.
#[derive(Debug, PartialEq, Eq)]
pub enum Step {
    /// Hand the operation at `index`, of type `op`, to the graph and record
    /// its answer.
    Apply { index: usize, op: OpType },
    /// The batch is over: `Ok(has_ddl)` when every operation was applied,
    /// where `has_ddl` says whether the schema changed, or the error of the
    /// first operation that the graph refused.
    Done(Result<bool, String>),
}

/// The abstract state of a batch: its operations, the position of the next
/// operation to hand over, whether the schema changed so far, and the error
/// of a refused operation, if any.
pub struct BatchView {
    pub ops: Seq<OpType>,
    pub next: int,
    pub has_ddl: bool,
    pub failure: Option<String>,
}

/// The first position at or after `i` that does not hold a marker (the
/// length of `ops` if there is none).
pub open spec fn skip_markers(ops: Seq<OpType>, i: int) -> int
    decreases ops.len() - i,
{
    if 0 <= i < ops.len() && is_marker(ops[i]) {
        skip_markers(ops, i + 1)
    } else {
        i
    }
}

/// The state of a batch before anything was handed to the graph.
pub open spec fn start_view(ops: Seq<OpType>) -> BatchView {
    BatchView { ops, next: skip_markers(ops, 0), has_ddl: false, failure: None }
}

/// The batch waits for the graph's answer to the operation at `v.next`.
pub open spec fn awaiting(v: BatchView) -> bool {
    &&& v.failure is None
    &&& 0 <= v.next < v.ops.len()
}

/// The state after the graph answered the operation at `v.next`.
pub open spec fn after_reply(v: BatchView, reply: Result<bool, String>) -> BatchView {
    match reply {
        Err(e) => BatchView { ops: v.ops, next: v.next, has_ddl: v.has_ddl, failure: Some(e) },
        Ok(changed) => BatchView {
            ops: v.ops,
            next: skip_markers(v.ops, v.next + 1),
            has_ddl: v.has_ddl || (is_schema_op(v.ops[v.next]) && changed),
            failure: None,
        },
    }
}

/// The step that a batch in state `v` calls for.
pub open spec fn step_of(v: BatchView) -> Step {
    match v.failure {
        Some(e) => Step::Done(Err(e)),
        None => if 0 <= v.next < v.ops.len() {
            Step::Apply { index: v.next as usize, op: v.ops[v.next] }
        } else {
            Step::Done(Ok(v.has_ddl))
        },
    }
}

/// How a batch in state `v` ends when the graph answers the operation at
/// position `i` with `replies[i]`.
pub open spec fn run(v: BatchView, replies: Seq<Result<bool, String>>) -> Result<bool, String>
    decreases v.ops.len() - v.next, (if v.failure is None { 1int } else { 0int }),
{
    match step_of(v) {
        Step::Done(r) => r,
        Step::Apply { .. } => {
            proof {
                lemma_skip_markers(v.ops, v.next + 1);
            }
            run(after_reply(v, replies[v.next]), replies)
        },
    }
}

/// The positions that a batch in state `v` hands to the graph, in order, when
/// the graph answers the operation at position `i` with `replies[i]`.
pub open spec fn calls(v: BatchView, replies: Seq<Result<bool, String>>) -> Seq<int>
    decreases v.ops.len() - v.next, (if v.failure is None { 1int } else { 0int }),
{
    match step_of(v) {
        Step::Done(_) => Seq::empty(),
        Step::Apply { .. } => {
            proof {
                lemma_skip_markers(v.ops, v.next + 1);
            }
            seq![v.next] + calls(after_reply(v, replies[v.next]), replies)
        },
    }
}

/// The graph refuses the operation at position `i`, which is no marker.
pub open spec fn refused_at(ops: Seq<OpType>, replies: Seq<Result<bool, String>>, i: int) -> bool {
    &&& 0 <= i < ops.len()
    &&& !is_marker(ops[i])
    &&& replies[i] is Err
}

/// The schema operation at position `i` changed the schema.
pub open spec fn schema_changed_at(
    ops: Seq<OpType>,
    replies: Seq<Result<bool, String>>,
    i: int,
) -> bool {
    &&& 0 <= i < ops.len()
    &&& is_schema_op(ops[i])
    &&& replies[i] == Ok::<bool, String>(true)
}

/// The position of the first refused operation.
pub open spec fn first_refusal(ops: Seq<OpType>, replies: Seq<Result<bool, String>>) -> int {
    choose|i: int|
        refused_at(ops, replies, i) && forall|j: int| 0 <= j < i ==> !refused_at(ops, replies, j)
}

/// The operation at position `i` reaches the graph: it is no marker and no
/// operation before it was refused.
pub open spec fn handed_over(ops: Seq<OpType>, replies: Seq<Result<bool, String>>, i: int) -> bool {
    &&& 0 <= i < ops.len()
    &&& !is_marker(ops[i])
    &&& forall|j: int| 0 <= j < i ==> !refused_at(ops, replies, j)
}

/// The result of a batch whose operations the graph answers with `replies`:
/// the error of the first refused operation, if one is refused; otherwise
/// whether some schema operation changed the schema.
pub open spec fn batch_outcome(ops: Seq<OpType>, replies: Seq<Result<bool, String>>) -> Result<
    bool,
    String,
> {
    if exists|i: int| refused_at(ops, replies, i) {
        replies[first_refusal(ops, replies)]
    } else {
        Ok(exists|i: int| schema_changed_at(ops, replies, i))
    }
}

/// `skip_markers` moves forward over markers only, and stops at the end or at
/// an operation that is no marker.
pub proof fn lemma_skip_markers(ops: Seq<OpType>, i: int)
    requires
        0 <= i <= ops.len(),
    ensures
        i <= skip_markers(ops, i) <= ops.len(),
        skip_markers(ops, i) < ops.len() ==> !is_marker(ops[skip_markers(ops, i)]),
        forall|j: int| i <= j < skip_markers(ops, i) ==> is_marker(#[trigger] ops[j]),
    decreases ops.len() - i,
{
    if i < ops.len() && is_marker(ops[i]) {
        lemma_skip_markers(ops, i + 1);
    }
}

/// The state `v` was reached from the start without a refusal, when the graph
/// answers with `replies`.
pub open spec fn reached_cleanly(v: BatchView, replies: Seq<Result<bool, String>>) -> bool {
    &&& replies.len() == v.ops.len()
    &&& v.failure is None
    &&& 0 <= v.next <= v.ops.len()
    &&& v.next < v.ops.len() ==> !is_marker(v.ops[v.next])
    &&& forall|j: int| 0 <= j < v.next ==> !refused_at(v.ops, replies, j)
    &&& v.has_ddl == exists|j: int| 0 <= j < v.next && schema_changed_at(v.ops, replies, j)
}

/// From a state reached without a refusal, the batch ends as `batch_outcome`
/// says, and it hands over exactly the operations from `v.next` on that reach
/// the graph, in increasing order.
proof fn lemma_run_from(v: BatchView, replies: Seq<Result<bool, String>>)
    requires
        reached_cleanly(v, replies),
    ensures
        run(v, replies) == batch_outcome(v.ops, replies),
        forall|k: int|
            0 <= k < calls(v, replies).len() ==> v.next <= #[trigger] calls(v, replies)[k]
                && handed_over(v.ops, replies, calls(v, replies)[k]),
        forall|i: int|
            v.next <= i && #[trigger] handed_over(v.ops, replies, i) ==> calls(
                v,
                replies,
            ).contains(i),
        forall|k1: int, k2: int|
            0 <= k1 < k2 < calls(v, replies).len() ==> calls(v, replies)[k1] < calls(
                v,
                replies,
            )[k2],
    decreases v.ops.len() - v.next,
{
    let ops = v.ops;
    if v.next == ops.len() {
        assert(!exists|i: int| refused_at(ops, replies, i));
        assert(calls(v, replies) =~= Seq::<int>::empty());
        assert(run(v, replies) == Ok::<bool, String>(v.has_ddl));
        assert(v.has_ddl == exists|i: int| schema_changed_at(ops, replies, i));
    } else {
        let n = v.next;
        match replies[n] {
            Err(e) => {
                assert(refused_at(ops, replies, n));
                let f = first_refusal(ops, replies);
                assert(refused_at(ops, replies, f) && forall|j: int|
                    0 <= j < f ==> !refused_at(ops, replies, j));
                if f < n {
                } else if f > n {
                    assert(!refused_at(ops, replies, n));
                }
                assert(f == n);
                let w = after_reply(v, replies[n]);
                assert(run(w, replies) == replies[n]);
                assert(run(v, replies) == run(w, replies));
                assert(calls(w, replies) =~= Seq::<int>::empty());
                assert(calls(v, replies) =~= seq![n]);
                assert forall|i: int| n <= i && #[trigger] handed_over(ops, replies, i) implies calls(
                    v,
                    replies,
                ).contains(i) by {
                    if i > n {
                        assert(refused_at(ops, replies, n));
                    }
                    assert(calls(v, replies)[0] == i);
                }
            },
            Ok(changed) => {
                let w = after_reply(v, replies[n]);
                lemma_skip_markers(ops, n + 1);
                assert(forall|j: int| n + 1 <= j < w.next ==> is_marker(#[trigger] ops[j]));
                assert forall|j: int| 0 <= j < w.next implies !refused_at(ops, replies, j) by {
                    if n < j {
                        assert(is_marker(ops[j]));
                    }
                }
                assert(w.has_ddl == exists|j: int|
                    0 <= j < w.next && schema_changed_at(ops, replies, j)) by {
                    if w.has_ddl {
                        if !v.has_ddl {
                            assert(schema_changed_at(ops, replies, n));
                        }
                    } else {
                        assert forall|j: int| 0 <= j < w.next implies !schema_changed_at(
                            ops,
                            replies,
                            j,
                        ) by {
                            if n < j {
                                assert(is_marker(ops[j]));
                            }
                        }
                    }
                }
                assert(reached_cleanly(w, replies));
                lemma_run_from(w, replies);
                assert(run(v, replies) == run(w, replies));
                let c = calls(v, replies);
                let cw = calls(w, replies);
                assert(c == seq![n] + cw);
                assert forall|k: int| 0 <= k < c.len() implies v.next <= #[trigger] c[k]
                    && handed_over(ops, replies, c[k]) by {
                    if k > 0 {
                        assert(c[k] == cw[k - 1]);
                    }
                }
                assert forall|i: int| v.next <= i && #[trigger] handed_over(
                    ops,
                    replies,
                    i,
                ) implies c.contains(i) by {
                    if i == n {
                        assert(c[0] == i);
                    } else {
                        if i < w.next {
                            assert(is_marker(ops[i]));
                        }
                        assert(cw.contains(i));
                        let k = choose|k: int| 0 <= k < cw.len() && cw[k] == i;
                        assert(c[k + 1] == i);
                    }
                }
                assert forall|k1: int, k2: int| 0 <= k1 < k2 < c.len() implies c[k1] < c[k2] by {
                    if k1 > 0 {
                        assert(c[k1] == cw[k1 - 1]);
                    }
                    assert(c[k2] == cw[k2 - 1]);
                }
            },
        }
    }
}

/// A batch ends with the error of the first operation that the graph refuses;
/// if the graph refuses none, it ends with `Ok(true)` exactly when some schema
/// operation changed the schema. Markers and vertex or edge writes never make
/// it report a schema change.
pub proof fn lemma_batch_result(ops: Seq<OpType>, replies: Seq<Result<bool, String>>)
    requires
        replies.len() == ops.len(),
    ensures
        run(start_view(ops), replies) == batch_outcome(ops, replies),
{
    lemma_skip_markers(ops, 0);
    lemma_run_from(start_view(ops), replies);
}

/// A batch hands to the graph exactly the operations that are no markers and
/// come before the first refusal (that one included), each once, in the order
/// of the batch.
pub proof fn lemma_batch_calls(ops: Seq<OpType>, replies: Seq<Result<bool, String>>)
    requires
        replies.len() == ops.len(),
    ensures
        forall|k: int|
            0 <= k < calls(start_view(ops), replies).len() ==> handed_over(
                ops,
                replies,
                #[trigger] calls(start_view(ops), replies)[k],
            ),
        forall|i: int|
            #[trigger] handed_over(ops, replies, i) ==> calls(start_view(ops), replies).contains(i),
        forall|k1: int, k2: int|
            0 <= k1 < k2 < calls(start_view(ops), replies).len() ==> calls(
                start_view(ops),
                replies,
            )[k1] < calls(start_view(ops), replies)[k2],
{
    let v = start_view(ops);
    lemma_skip_markers(ops, 0);
    lemma_run_from(v, replies);
    assert forall|i: int| #[trigger] handed_over(ops, replies, i) implies calls(
        v,
        replies,
    ).contains(i) by {
        if i < v.next {
            assert(is_marker(ops[i]));
        }
    }
}

/// A batch that holds only markers, the empty batch among them, hands nothing
/// to the graph and ends with `Ok(false)`.
pub proof fn lemma_markers_only(ops: Seq<OpType>, replies: Seq<Result<bool, String>>)
    requires
        replies.len() == ops.len(),
        forall|i: int| 0 <= i < ops.len() ==> is_marker(#[trigger] ops[i]),
    ensures
        run(start_view(ops), replies) == Ok::<bool, String>(false),
        calls(start_view(ops), replies).len() == 0,
{
    lemma_batch_result(ops, replies);
    lemma_batch_calls(ops, replies);
    assert(!exists|i: int| refused_at(ops, replies, i));
    assert(!exists|i: int| schema_changed_at(ops, replies, i));
    let c = calls(start_view(ops), replies);
    if c.len() > 0 {
        assert(handed_over(ops, replies, c[0]));
    }
}

/// When the graph refuses some operation, `first_refusal` is the position of
/// a refused operation with no refusal before it.
pub proof fn lemma_first_refusal(ops: Seq<OpType>, replies: Seq<Result<bool, String>>, i: int)
    requires
        refused_at(ops, replies, i),
    ensures
        refused_at(ops, replies, first_refusal(ops, replies)),
        first_refusal(ops, replies) <= i,
        forall|j: int| 0 <= j < first_refusal(ops, replies) ==> !refused_at(ops, replies, j),
    decreases i,
{
    if exists|j: int| 0 <= j < i && refused_at(ops, replies, j) {
        let j = choose|j: int| 0 <= j < i && refused_at(ops, replies, j);
        lemma_first_refusal(ops, replies, j);
    } else {
        assert(refused_at(ops, replies, i) && forall|j: int|
            0 <= j < i ==> !refused_at(ops, replies, j));
        let f = first_refusal(ops, replies);
        if f > i {
            assert(!refused_at(ops, replies, i));
        }
    }
}

/// A batch without schema operations never reports a schema change: it ends
/// with `Ok(false)` or with the error of a refused operation.
pub proof fn lemma_no_schema_ops(ops: Seq<OpType>, replies: Seq<Result<bool, String>>)
    requires
        replies.len() == ops.len(),
        forall|i: int| 0 <= i < ops.len() ==> !is_schema_op(#[trigger] ops[i]),
    ensures
        run(start_view(ops), replies) != Ok::<bool, String>(true),
{
    lemma_batch_result(ops, replies);
    assert(!exists|i: int| schema_changed_at(ops, replies, i));
    if exists|i: int| refused_at(ops, replies, i) {
        let i = choose|i: int| refused_at(ops, replies, i);
        lemma_first_refusal(ops, replies, i);
    }
}


/// A step hands over the operation at the batch's position, under that
/// operation's own type, and only while no operation was refused; a batch
/// ends with `Ok` only after its last operation, reporting the schema flag,
/// and with `Err` only with the error of the refused operation.
pub proof fn lemma_step_names_its_operation(v: BatchView)
    requires
        v.ops.len() <= usize::MAX,
    ensures
        step_of(v) matches Step::Apply { index, op } ==> {
            &&& v.failure is None
            &&& 0 <= v.next < v.ops.len()
            &&& index as int == v.next
            &&& op == v.ops[v.next]
        },
        step_of(v) matches Step::Done(Ok(has_ddl)) ==> {
            &&& v.failure is None
            &&& !(0 <= v.next < v.ops.len())
            &&& has_ddl == v.has_ddl
        },
        step_of(v) matches Step::Done(Err(e)) ==> v.failure == Some(e),
{
}

/// Every position that a batch hands over holds an operation that is no
/// marker, and the step that hands it over names that operation's type:
/// along the run from `v`, the `k`-th step that hands something over is
/// `Apply { index: calls[k], op: ops[calls[k]] }`.
pub proof fn lemma_calls_name_their_operations(v: BatchView, replies: Seq<Result<bool, String>>)
    requires
        reached_cleanly(v, replies),
    ensures
        forall|k: int|
            0 <= k < calls(v, replies).len() ==> {
                &&& 0 <= #[trigger] calls(v, replies)[k] < v.ops.len()
                &&& !is_marker(v.ops[calls(v, replies)[k]])
                &&& step_of(nth_state(v, replies, k)) == (Step::Apply {
                    index: calls(v, replies)[k] as usize,
                    op: v.ops[calls(v, replies)[k]],
                })
            },
    decreases v.ops.len() - v.next,
{
    lemma_run_from(v, replies);
    let c = calls(v, replies);
    if v.next < v.ops.len() {
        let w = after_reply(v, replies[v.next]);
        assert(c == seq![v.next] + calls(w, replies));
        match replies[v.next] {
            Err(_) => {
                assert(calls(w, replies) =~= Seq::<int>::empty());
            },
            Ok(_) => {
                lemma_skip_markers(v.ops, v.next + 1);
                assert forall|j: int| 0 <= j < w.next implies !refused_at(w.ops, replies, j) by {
                    if v.next < j {
                        assert(is_marker(v.ops[j]));
                    }
                }
                assert(w.has_ddl == exists|j: int|
                    0 <= j < w.next && schema_changed_at(w.ops, replies, j)) by {
                    if w.has_ddl {
                        if !v.has_ddl {
                            assert(schema_changed_at(v.ops, replies, v.next));
                        }
                    } else {
                        assert forall|j: int| 0 <= j < w.next implies !schema_changed_at(
                            v.ops,
                            replies,
                            j,
                        ) by {
                            if v.next < j {
                                assert(is_marker(v.ops[j]));
                            }
                        }
                    }
                }
                lemma_calls_name_their_operations(w, replies);
                assert forall|k: int| 0 < k < c.len() implies step_of(nth_state(v, replies, k))
                    == Step::Apply { index: c[k] as usize, op: v.ops[c[k]] } by {
                    assert(c[k] == calls(w, replies)[k - 1]);
                    assert(nth_state(v, replies, k) == nth_state(w, replies, k - 1));
                }
            },
        }
        assert(nth_state(v, replies, 0) == v);
    } else {
        assert(c =~= Seq::<int>::empty());
    }
}

/// From the start of a batch, the `k`-th operation handed to the graph is the
/// `k`-th position that the batch hands over, named with its own type.
pub proof fn lemma_batch_steps(ops: Seq<OpType>, replies: Seq<Result<bool, String>>)
    requires
        replies.len() == ops.len(),
    ensures
        forall|k: int|
            0 <= k < calls(start_view(ops), replies).len() ==> step_of(
                nth_state(start_view(ops), replies, k),
            ) == (Step::Apply {
                index: #[trigger] calls(start_view(ops), replies)[k] as usize,
                op: ops[calls(start_view(ops), replies)[k]],
            }),
{
    lemma_skip_markers(ops, 0);
    lemma_calls_name_their_operations(start_view(ops), replies);
}

/// The state of a batch after it received the answers to `k` operations,
/// starting from `v`.
pub open spec fn nth_state(v: BatchView, replies: Seq<Result<bool, String>>, k: int) -> BatchView
    decreases k,
{
    if k <= 0 {
        v
    } else {
        match step_of(v) {
            Step::Done(_) => v,
            Step::Apply { .. } => nth_state(after_reply(v, replies[v.next]), replies, k - 1),
        }
    }
}

/// The machine that applies a batch: it holds the operations, the position of
/// the next one to hand over, whether the schema changed so far, and the error
/// that ended the batch, if any.
pub struct BatchWriter {
    ops: Vec<OpType>,
    next: usize,
    has_ddl: bool,
    failure: Option<String>,
}

impl View for BatchWriter {
    type V = BatchView;

    closed spec fn view(&self) -> BatchView {
        BatchView {
            ops: self.ops@,
            next: self.next as int,
            has_ddl: self.has_ddl,
            failure: self.failure,
        }
    }
}

impl BatchWriter {
    /// The position of the next operation lies in the batch or at its end, and
    /// it never holds a marker.
    #[verifier::type_invariant]
    spec fn positioned(self) -> bool {
        &&& self.next <= self.ops.len()
        &&& self.next < self.ops.len() ==> !is_marker(self.ops@[self.next as int])
    }

    /// The first position at or after `start` that holds no marker.
    fn skip_from(ops: &Vec<OpType>, start: usize) -> (j: usize)
        requires
            start <= ops.len(),
        ensures
            j == skip_markers(ops@, start as int),
            start <= j <= ops.len(),
            j < ops.len() ==> !is_marker(ops@[j as int]),
    {
        let mut j = start;
        while j < ops.len() && ops[j].is_marker()
            invariant
                start <= j <= ops.len(),
                skip_markers(ops@, j as int) == skip_markers(ops@, start as int),
            decreases ops.len() - j,
        {
            j = j + 1;
        }
        j
    }

    /// A writer for the batch `ops`, before anything was handed to the graph.
    pub fn new(ops: Vec<OpType>) -> (w: BatchWriter)
        ensures
            w@ == start_view(ops@),
    {
        let next = Self::skip_from(&ops, 0);
        BatchWriter { ops, next, has_ddl: false, failure: None }
    }

    /// What to do next: hand over the next operation that is no marker, or
    /// report how the batch ended.
    pub fn step(&self) -> (s: Step)
        ensures
            s == step_of(self@),
            s matches Step::Apply { index, op } ==> {
                &&& self@.failure is None
                &&& index == self@.next
                &&& index < self@.ops.len()
                &&& op == self@.ops[index as int]
                &&& !is_marker(op)
            },
            s matches Step::Done(Ok(has_ddl)) ==> {
                &&& self@.failure is None
                &&& self@.next >= self@.ops.len()
                &&& has_ddl == self@.has_ddl
            },
            s matches Step::Done(Err(e)) ==> self@.failure == Some(e),
    {
        proof {
            use_type_invariant(self);
            lemma_step_names_its_operation(self@);
        }
        match &self.failure {
            Some(e) => Step::Done(Err(e.clone())),
            None => {
                if self.next < self.ops.len() {
                    Step::Apply { index: self.next, op: self.ops[self.next] }
                } else {
                    Step::Done(Ok(self.has_ddl))
                }
            },
        }
    }

    /// Take the graph's answer to the operation that `step` handed over:
    /// `Ok(changed)` when it was applied, where `changed` says whether the
    /// schema changed, or `Err(message)` when it was refused. A writer that
    /// waits for no answer is left as it is.
    pub fn record(&mut self, reply: Result<bool, String>)
        ensures
            awaiting(old(self)@) ==> final(self)@ == after_reply(old(self)@, reply),
            !awaiting(old(self)@) ==> final(self)@ == old(self)@,
    {
        proof {
            use_type_invariant(&*self);
        }
        if self.failure.is_none() && self.next < self.ops.len() {
            match reply {
                Err(e) => {
                    self.failure = Some(e);
                },
                Ok(changed) => {
                    let op = self.ops[self.next];
                    let next = Self::skip_from(&self.ops, self.next + 1);
                    let has_ddl = self.has_ddl || (op.is_schema_op() && changed);
                    self.next = next;
                    self.has_ddl = has_ddl;
                },
            }
        }
    }
}

} // verus!
