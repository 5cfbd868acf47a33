//! Composite task orchestration: a macro-intent is decomposed into a DAG of
//! sub-tasks, each dispatched as its own cognitive transaction.
//!
//! ```text
//! MacroIntent
//!      ├─[open_doors]
//!      ├─[clean_floor_1] (depends: open_doors)
//!      └─[clean_floor_2] (depends: clean_floor_1)
//! ```
//!
//! Budgets are `f64` amounts; the library carries them as their bit
//! patterns (`f64::to_bits`) and never computes with them.

use vstd::prelude::*;
use vstd::utf8::encode_utf8;
use crate::bytes::{
    extend_bytes, lemma_differ_at, lemma_differing_position, lemma_u64_be_bytes_injective, push_u64_be,
    u64_be_bytes,
};
use crate::collab::ctx_composer::{
    spec_ctx_id, CognitiveBoundary, CognitiveTransaction, CtxComposer, SettlementInstruction,
};
use crate::digest::{hex_encode, sha256, spec_hex, spec_sha256, unix_time_nanos};

verus! {

#[derive(Debug)]
pub enum OrchestratorError {
    CircularDependency,
    InsufficientBudget,
    TaskNotFound(String),
    /// The accumulated budget fraction, as `f64` bits.
    BudgetOverflow(u64),
}

/// Where a sub-task stands.
#[derive(Debug)]
pub enum SubTaskStatus {
    /// Waiting for dependencies to complete.
    Pending,
    /// Every dependency completed; can be dispatched.
    Ready,
    /// Dispatched to a seller, with the CTx id.
    Dispatched(String),
    /// Executed and confirmed.
    Completed,
    /// Failed, with the reason.
    Failed(String),
}

impl SubTaskStatus {
    /// A copy of the status.
    pub fn copy(&self) -> (r: Self)
        ensures
            r == *self,
    {
        match self {
            SubTaskStatus::Pending => SubTaskStatus::Pending,
            SubTaskStatus::Ready => SubTaskStatus::Ready,
            SubTaskStatus::Dispatched(c) => SubTaskStatus::Dispatched(c.clone()),
            SubTaskStatus::Completed => SubTaskStatus::Completed,
            SubTaskStatus::Failed(m) => SubTaskStatus::Failed(m.clone()),
        }
    }
}

/// A micro-task node of the DAG.
#[derive(Debug)]
pub struct SubTaskNode {
    pub id: String,
    pub description: String,
    /// Ids of the tasks that must complete first.
    pub dependencies: Vec<String>,
    /// The allocated amount, as `f64` bits.
    pub allocated_budget_bits: u64,
    pub status: SubTaskStatus,
}

/// The names a list of strings holds.
pub open spec fn spec_names(v: Seq<String>) -> Seq<Seq<char>> {
    v.map_values(|s: String| s@)
}

/// A copy of a list of strings.
fn copy_strings(v: &Vec<String>) -> (r: Vec<String>)
    ensures
        r@ == v@,
{
    let mut r: Vec<String> = Vec::new();
    let mut i: usize = 0;
    while i < v.len()
        invariant
            i <= v@.len(),
            r@ == v@.subrange(0, i as int),
        decreases v@.len() - i,
    {
        r.push(v[i].clone());
        i = i + 1;
        assert(r@ =~= v@.subrange(0, i as int));
    }
    assert(v@.subrange(0, v@.len() as int) =~= v@);
    r
}

/// `a` and `b` hold the same values.
pub open spec fn spec_same_node(a: SubTaskNode, b: SubTaskNode) -> bool {
    &&& a.id == b.id
    &&& a.description == b.description
    &&& a.dependencies@ == b.dependencies@
    &&& a.allocated_budget_bits == b.allocated_budget_bits
    &&& a.status == b.status
}

impl SubTaskNode {
    /// A copy of the node.
    pub fn copy(&self) -> (r: Self)
        ensures
            spec_same_node(r, *self),
    {
        SubTaskNode {
            id: self.id.clone(),
            description: self.description.clone(),
            dependencies: copy_strings(&self.dependencies),
            allocated_budget_bits: self.allocated_budget_bits,
            status: self.status.copy(),
        }
    }
}

/// `n` is a new pending node with the given id, description, dependencies
/// and allocation.
pub open spec fn spec_fresh_node(
    n: SubTaskNode,
    id: Seq<char>,
    description: Seq<char>,
    dependencies: Seq<String>,
    allocated_budget_bits: u64,
) -> bool {
    &&& n.id@ == id
    &&& n.description@ == description
    &&& n.dependencies@ == dependencies
    &&& n.allocated_budget_bits == allocated_budget_bits
    &&& n.status is Pending
}

/// Big-endian encoding of a `u128` (what `u128::to_be_bytes` produces).
pub open spec fn u128_be_bytes(x: u128) -> Seq<u8> {
    u64_be_bytes((x >> 64u128) as u64) + u64_be_bytes(x as u64)
}

/// The macro id of a buyer's intent drafted at `nanos`.
pub open spec fn spec_macro_id(buyer: Seq<char>, intent: Seq<char>, nanos: u128) -> Seq<char> {
    spec_hex(spec_sha256(encode_utf8(buyer) + encode_utf8(intent) + u128_be_bytes(nanos)))
}

/// The id of the sub-task added to `macro_id` as number `index`.
pub open spec fn spec_subtask_id(macro_id: Seq<char>, description: Seq<char>, index: u64) -> Seq<char> {
    spec_hex(spec_sha256(encode_utf8(macro_id) + encode_utf8(description) + u64_be_bytes(index)))
}

/// The full DAG of one macro-intent.
#[derive(Debug)]
pub struct CompositeTask {
    pub macro_id: String,
    pub buyer_did: String,
    pub macro_intent: String,
    /// The total budget, as `f64` bits.
    pub total_budget_bits: u64,
    pub token_symbol: String,
    /// The fraction of the budget allocated so far, as `f64` bits.
    pub budget_allocated_fraction_bits: u64,
    /// The sub-tasks, in the order they were added.
    pub sub_tasks: Vec<SubTaskNode>,
}

impl CompositeTask {
    /// The task ids, in order.
    pub open spec fn spec_ids(&self) -> Seq<Seq<char>> {
        self.sub_tasks@.map_values(|n: SubTaskNode| n.id@)
    }

    /// The dependency names of task `i`.
    pub open spec fn spec_deps(&self, i: int) -> Seq<Seq<char>> {
        spec_names(self.sub_tasks@[i].dependencies@)
    }

    /// No task id appears twice.
    pub open spec fn wf(&self) -> bool {
        forall|i: int, j: int|
            0 <= i < j < self.sub_tasks@.len() ==> #[trigger] self.sub_tasks@[i].id@
                != #[trigger] self.sub_tasks@[j].id@
    }

    /// A new, empty macro-intent whose id hashes the buyer, the intent and
    /// the current time in nanoseconds.
    pub fn new(buyer_did: &str, intent: &str, budget_bits: u64, token: &str) -> (r: Self)
        ensures
            r.wf(),
            exists|nanos: u128| r.macro_id@ == #[trigger] spec_macro_id(buyer_did@, intent@, nanos),
            r.buyer_did@ == buyer_did@,
            r.macro_intent@ == intent@,
            r.total_budget_bits == budget_bits,
            r.token_symbol@ == token@,
            r.budget_allocated_fraction_bits == 0,
            r.sub_tasks@.len() == 0,
    {
        let nanos = unix_time_nanos();
        Self::new_at(buyer_did, intent, budget_bits, token, nanos)
    }

    /// A new, empty macro-intent drafted at `nanos`.
    pub fn new_at(buyer_did: &str, intent: &str, budget_bits: u64, token: &str, nanos: u128) -> (r: Self)
        ensures
            r.wf(),
            r.macro_id@ == spec_macro_id(buyer_did@, intent@, nanos),
            r.buyer_did@ == buyer_did@,
            r.macro_intent@ == intent@,
            r.total_budget_bits == budget_bits,
            r.token_symbol@ == token@,
            r.budget_allocated_fraction_bits == 0,
            r.sub_tasks@.len() == 0,
    {
        let mut buf: Vec<u8> = Vec::new();
        extend_bytes(&mut buf, buyer_did.as_bytes());
        extend_bytes(&mut buf, intent.as_bytes());
        push_u64_be(&mut buf, #[verifier::truncate] ((nanos >> 64u128) as u64));
        push_u64_be(&mut buf, #[verifier::truncate] (nanos as u64));
        assert(buf@ =~= encode_utf8(buyer_did@) + encode_utf8(intent@) + u128_be_bytes(nanos));
        let macro_id = hex_encode(&sha256(buf.as_slice()));
        CompositeTask {
            macro_id,
            buyer_did: String::from_str(buyer_did),
            macro_intent: String::from_str(intent),
            total_budget_bits: budget_bits,
            token_symbol: String::from_str(token),
            budget_allocated_fraction_bits: 0,
            sub_tasks: Vec::new(),
        }
    }

    /// The index of the task with id `id`.
    fn find_task(&self, id: &str) -> (r: Option<usize>)
        ensures
            r matches Some(i) ==> i < self.sub_tasks@.len() && self.sub_tasks@[i as int].id@ == id@,
            r is None ==> forall|i: int| 0 <= i < self.sub_tasks@.len() ==> self.sub_tasks@[i].id@ != id@,
    {
        let mut i: usize = 0;
        while i < self.sub_tasks.len()
            invariant
                i <= self.sub_tasks@.len(),
                forall|j: int| 0 <= j < i ==> self.sub_tasks@[j].id@ != id@,
            decreases self.sub_tasks@.len() - i,
        {
            if crate::bytes::str_eq(self.sub_tasks[i].id.as_str(), id) {
                return Some(i);
            }
            i = i + 1;
        }
        None
    }

    /// Store a new `Pending` sub-task with the given dependencies and
    /// allocation; its id hashes the macro id, the description and the
    /// number of tasks so far.  A task with the same id is replaced.
    pub fn insert_subtask(
        &mut self,
        description: &str,
        dependencies: Vec<String>,
        allocated_budget_bits: u64,
    ) -> (r: String)
        requires
            old(self).wf(),
        ensures
            final(self).wf(),
            r@ == spec_subtask_id(
                old(self).macro_id@,
                description@,
                old(self).sub_tasks@.len() as u64,
            ),
            final(self).macro_id == old(self).macro_id,
            final(self).buyer_did == old(self).buyer_did,
            final(self).macro_intent == old(self).macro_intent,
            final(self).total_budget_bits == old(self).total_budget_bits,
            final(self).token_symbol == old(self).token_symbol,
            final(self).budget_allocated_fraction_bits == old(self).budget_allocated_fraction_bits,
            old(self).spec_ids().contains(r@) ==> {
                &&& final(self).sub_tasks@.len() == old(self).sub_tasks@.len()
                &&& forall|j: int|
                    #![trigger final(self).sub_tasks@[j]]
                    0 <= j < old(self).sub_tasks@.len() ==> (old(self).sub_tasks@[j].id@ == r@
                        ==> spec_fresh_node(
                        final(self).sub_tasks@[j],
                        r@,
                        description@,
                        dependencies@,
                        allocated_budget_bits,
                    )) && (old(self).sub_tasks@[j].id@ != r@ ==> final(self).sub_tasks@[j] == old(
                        self,
                    ).sub_tasks@[j])
            },
            !old(self).spec_ids().contains(r@) ==> {
                &&& final(self).sub_tasks@.len() == old(self).sub_tasks@.len() + 1
                &&& final(self).sub_tasks@.subrange(0, old(self).sub_tasks@.len() as int) == old(
                    self,
                ).sub_tasks@
                &&& spec_fresh_node(
                    final(self).sub_tasks@.last(),
                    r@,
                    description@,
                    dependencies@,
                    allocated_budget_bits,
                )
            },
    {
        let mut buf: Vec<u8> = Vec::new();
        extend_bytes(&mut buf, self.macro_id.as_str().as_bytes());
        extend_bytes(&mut buf, description.as_bytes());
        push_u64_be(&mut buf, self.sub_tasks.len() as u64);
        let id = hex_encode(&sha256(buf.as_slice()));
        let node = SubTaskNode {
            id: id.clone(),
            description: String::from_str(description),
            dependencies,
            allocated_budget_bits,
            status: SubTaskStatus::Pending,
        };
        let ghost old_tasks = self.sub_tasks@;
        let ghost ids = self.spec_ids();
        match self.find_task(id.as_str()) {
            Some(i) => {
                self.sub_tasks.set(i, node);
                proof {
                    assert(ids[i as int] == id@);
                    assert forall|a: int, b: int|
                        0 <= a < b < self.sub_tasks@.len() implies #[trigger] self.sub_tasks@[a].id@
                        != #[trigger] self.sub_tasks@[b].id@ by {
                        assert(old_tasks[a].id@ != old_tasks[b].id@);
                    }
                    assert forall|j: int| 0 <= j < old_tasks.len() && old_tasks[j].id@ == id@ implies j
                        == i by {
                        if j < i {
                            assert(old_tasks[j].id@ != old_tasks[i as int].id@);
                        } else if j > i {
                            assert(old_tasks[i as int].id@ != old_tasks[j].id@);
                        }
                    }
                }
            },
            None => {
                self.sub_tasks.push(node);
                proof {
                    assert(self.sub_tasks@.subrange(0, old_tasks.len() as int) =~= old_tasks);
                    assert(!ids.contains(id@)) by {
                        if ids.contains(id@) {
                            let j = choose|j: int| 0 <= j < ids.len() && #[trigger] ids[j] == id@;
                            assert(old_tasks[j].id@ == id@);
                        }
                    }
                }
            },
        }
        id
    }
}

/// Some task named `name` has completed.
pub open spec fn spec_is_completed(t: CompositeTask, name: Seq<char>) -> bool {
    exists|i: int| 0 <= i < t.sub_tasks@.len() && t.sub_tasks@[i].id@ == name && (#[trigger] t.sub_tasks@[i]).status is Completed
}

/// Task `i` is pending and every dependency of it has completed.
pub open spec fn spec_promotable(t: CompositeTask, i: int) -> bool {
    &&& t.sub_tasks@[i].status is Pending
    &&& forall|k: int| 0 <= k < t.spec_deps(i).len() ==> spec_is_completed(t, #[trigger] t.spec_deps(i)[k])
}

/// The ready nodes of `s`, in order.
pub open spec fn spec_ready_nodes(s: Seq<SubTaskNode>) -> Seq<SubTaskNode>
    decreases s.len(),
{
    if s.len() == 0 {
        Seq::empty()
    } else if s.last().status is Ready {
        spec_ready_nodes(s.drop_last()).push(s.last())
    } else {
        spec_ready_nodes(s.drop_last())
    }
}

/// The names of the completed tasks of `t`, in order.
fn completed_ids(t: &CompositeTask) -> (r: Vec<String>)
    ensures
        forall|name: Seq<char>| spec_names(r@).contains(name) <==> spec_is_completed(*t, name),
{
    let mut r: Vec<String> = Vec::new();
    let mut i: usize = 0;
    while i < t.sub_tasks.len()
        invariant
            i <= t.sub_tasks@.len(),
            forall|name: Seq<char>|
                spec_names(r@).contains(name) <==> exists|j: int|
                    0 <= j < i && t.sub_tasks@[j].id@ == name && (#[trigger] t.sub_tasks@[j]).status is Completed,
        decreases t.sub_tasks@.len() - i,
    {
        let done = match t.sub_tasks[i].status {
            SubTaskStatus::Completed => true,
            _ => false,
        };
        if done {
            let ghost before = spec_names(r@);
            r.push(t.sub_tasks[i].id.clone());
            proof {
                assert(spec_names(r@) =~= before.push(t.sub_tasks@[i as int].id@));
                assert forall|name: Seq<char>|
                    spec_names(r@).contains(name) <==> exists|j: int|
                        0 <= j < i + 1 && t.sub_tasks@[j].id@ == name && (#[trigger] t.sub_tasks@[j]).status is Completed by {
                    if spec_names(r@).contains(name) {
                        let k = choose|k: int| 0 <= k < spec_names(r@).len() && spec_names(r@)[k] == name;
                        if k < before.len() {
                            assert(before[k] == name);
                            assert(before.contains(name));
                        } else {
                            assert(t.sub_tasks@[i as int].status is Completed);
                        }
                    }
                    if exists|j: int|
                        0 <= j < i + 1 && t.sub_tasks@[j].id@ == name && (#[trigger] t.sub_tasks@[j]).status is Completed {
                        let j = choose|j: int|
                            0 <= j < i + 1 && t.sub_tasks@[j].id@ == name && (#[trigger] t.sub_tasks@[j]).status is Completed;
                        if j < i {
                            assert(before.contains(name));
                            let k = choose|k: int| 0 <= k < before.len() && before[k] == name;
                            assert(spec_names(r@)[k] == name);
                        } else {
                            assert(spec_names(r@)[before.len() as int] == name);
                        }
                    }
                }
            }
        }
        i = i + 1;
    }
    r
}

/// `true` when `names` holds `name`.
fn holds_name(names: &Vec<String>, name: &String) -> (r: bool)
    ensures
        r == spec_names(names@).contains(name@),
{
    let mut i: usize = 0;
    while i < names.len()
        invariant
            i <= names@.len(),
            forall|j: int| 0 <= j < i ==> names@[j]@ != name@,
        decreases names@.len() - i,
    {
        if names[i] == *name {
            assert(spec_names(names@)[i as int] == name@);
            return true;
        }
        i = i + 1;
    }
    assert forall|j: int| 0 <= j < spec_names(names@).len() implies spec_names(names@)[j] != name@ by {
        assert(spec_names(names@)[j] == names@[j]@);
    }
    false
}

/// The scheduling engine over a macro-intent's DAG.
pub struct TaskOrchestrator;

impl TaskOrchestrator {
    /// Promote every pending task whose dependencies have all completed to
    /// `Ready`, and return copies of the ready tasks, in task order.
    pub fn get_ready_tasks(task_graph: &mut CompositeTask) -> (r: Vec<SubTaskNode>)
        requires
            old(task_graph).wf(),
        ensures
            final(task_graph).wf(),
            final(task_graph).macro_id == old(task_graph).macro_id,
            final(task_graph).buyer_did == old(task_graph).buyer_did,
            final(task_graph).token_symbol == old(task_graph).token_symbol,
            final(task_graph).sub_tasks@.len() == old(task_graph).sub_tasks@.len(),
            forall|i: int|
                #![trigger final(task_graph).sub_tasks@[i]]
                0 <= i < old(task_graph).sub_tasks@.len() ==> {
                    let o = old(task_graph).sub_tasks@[i];
                    let f = final(task_graph).sub_tasks@[i];
                    &&& f.id == o.id
                    &&& f.description == o.description
                    &&& f.dependencies == o.dependencies
                    &&& f.allocated_budget_bits == o.allocated_budget_bits
                    &&& f.status == if spec_promotable(*old(task_graph), i) {
                        SubTaskStatus::Ready
                    } else {
                        o.status
                    }
                },
            r@.len() == spec_ready_nodes(final(task_graph).sub_tasks@).len(),
            forall|k: int|
                0 <= k < r@.len() ==> spec_same_node(
                    #[trigger] r@[k],
                    spec_ready_nodes(final(task_graph).sub_tasks@)[k],
                ),
    {
        let completed = completed_ids(task_graph);
        let ghost old_graph = *task_graph;
        let mut ready: Vec<SubTaskNode> = Vec::new();
        let mut i: usize = 0;
        while i < task_graph.sub_tasks.len()
            invariant
                forall|name: Seq<char>| spec_names(completed@).contains(name) <==> spec_is_completed(old_graph, name),
                old_graph == *old(task_graph),
                old_graph.wf(),
                i <= task_graph.sub_tasks@.len(),
                task_graph.sub_tasks@.len() == old_graph.sub_tasks@.len(),
                task_graph.macro_id == old_graph.macro_id,
                task_graph.buyer_did == old_graph.buyer_did,
                task_graph.token_symbol == old_graph.token_symbol,
                forall|j: int|
                    #![trigger task_graph.sub_tasks@[j]]
                    0 <= j < old_graph.sub_tasks@.len() ==> {
                        let o = old_graph.sub_tasks@[j];
                        let f = task_graph.sub_tasks@[j];
                        &&& f.id == o.id
                        &&& f.description == o.description
                        &&& f.dependencies == o.dependencies
                        &&& f.allocated_budget_bits == o.allocated_budget_bits
                        &&& j < i ==> f.status == if spec_promotable(old_graph, j) {
                            SubTaskStatus::Ready
                        } else {
                            o.status
                        }
                        &&& j >= i ==> f.status == o.status
                    },
                ready@.len() == spec_ready_nodes(task_graph.sub_tasks@.subrange(0, i as int)).len(),
                forall|k: int|
                    0 <= k < ready@.len() ==> spec_same_node(
                        #[trigger] ready@[k],
                        spec_ready_nodes(task_graph.sub_tasks@.subrange(0, i as int))[k],
                    ),
            decreases task_graph.sub_tasks@.len() - i,
        {
            let ghost start_prefix = task_graph.sub_tasks@.subrange(0, i as int);
            let pending = match task_graph.sub_tasks[i].status {
                SubTaskStatus::Pending => true,
                _ => false,
            };
            if pending {
                let mut all_done = true;
                let mut k: usize = 0;
                let n_deps = task_graph.sub_tasks[i].dependencies.len();
                while k < n_deps
                    invariant
                        forall|name: Seq<char>|
                            spec_names(completed@).contains(name) <==> spec_is_completed(old_graph, name),
                        i < task_graph.sub_tasks@.len(),
                        n_deps == task_graph.sub_tasks@[i as int].dependencies@.len(),
                        k <= n_deps,
                        all_done <==> forall|m: int|
                            0 <= m < k ==> spec_is_completed(
                                old_graph,
                                #[trigger] task_graph.sub_tasks@[i as int].dependencies@[m]@,
                            ),
                    decreases n_deps - k,
                {
                    if !holds_name(&completed, &task_graph.sub_tasks[i].dependencies[k]) {
                        all_done = false;
                    }
                    k = k + 1;
                }
                proof {
                    assert(all_done <==> spec_promotable(old_graph, i as int)) by {
                        let deps = old_graph.spec_deps(i as int);
                        assert(task_graph.sub_tasks@[i as int].dependencies == old_graph.sub_tasks@[i as int].dependencies);
                        if all_done {
                            assert forall|m: int| 0 <= m < deps.len() implies spec_is_completed(old_graph, #[trigger] deps[m]) by {
                                assert(deps[m] == task_graph.sub_tasks@[i as int].dependencies@[m]@);
                            }
                        } else {
                            let m = choose|m: int|
                                0 <= m < k && !spec_is_completed(
                                    old_graph,
                                    #[trigger] task_graph.sub_tasks@[i as int].dependencies@[m]@,
                                );
                            assert(deps[m] == task_graph.sub_tasks@[i as int].dependencies@[m]@);
                        }
                    }
                }
                if all_done {
                    task_graph.sub_tasks[i].status = SubTaskStatus::Ready;
                }
            } else {
                proof {
                    assert(!spec_promotable(old_graph, i as int));
                }
            }
            let is_ready = match task_graph.sub_tasks[i].status {
                SubTaskStatus::Ready => true,
                _ => false,
            };
            let ghost prefix = task_graph.sub_tasks@.subrange(0, i as int);
            let ghost next_prefix = task_graph.sub_tasks@.subrange(0, i + 1);
            proof {
                assert(prefix =~= start_prefix);
                assert(next_prefix.drop_last() =~= prefix);
                assert(next_prefix.last() == task_graph.sub_tasks@[i as int]);
            }
            if is_ready {
                let c = task_graph.sub_tasks[i].copy();
                ready.push(c);
            }
            i = i + 1;
        }
        proof {
            assert(task_graph.sub_tasks@.subrange(0, i as int) =~= task_graph.sub_tasks@);
            assert forall|a: int, b: int|
                0 <= a < b < task_graph.sub_tasks@.len() implies #[trigger] task_graph.sub_tasks@[a].id@
                != #[trigger] task_graph.sub_tasks@[b].id@ by {
                assert(old_graph.sub_tasks@[a].id@ != old_graph.sub_tasks@[b].id@);
            }
        }
        ready
    }

    /// Mark the task `task_id` completed.
    pub fn mark_task_completed(task_graph: &mut CompositeTask, task_id: &str) -> (r: Result<(), OrchestratorError>)
        requires
            old(task_graph).wf(),
        ensures
            final(task_graph).wf(),
            old(task_graph).spec_ids().contains(task_id@) <==> r is Ok,
            r matches Err(e) ==> (e matches OrchestratorError::TaskNotFound(s) && s@ == task_id@)
                && *final(task_graph) == *old(task_graph),
            r is Ok ==> spec_marked(
                *old(task_graph),
                *final(task_graph),
                task_id@,
                |s: SubTaskStatus| s is Completed,
            ),
    {
        match task_graph.find_task(task_id) {
            Some(i) => {
                task_graph.sub_tasks[i].status = SubTaskStatus::Completed;
                proof {
                    lemma_status_set(*old(task_graph), *task_graph, i as int, task_id@);
                }
                Ok(())
            },
            None => {
                proof {
                    lemma_absent_id(*task_graph, task_id@);
                }
                Err(OrchestratorError::TaskNotFound(String::from_str(task_id)))
            },
        }
    }

    /// Mark the task `task_id` failed with `reason`.
    pub fn mark_task_failed(task_graph: &mut CompositeTask, task_id: &str, reason: &str) -> (r: Result<
        (),
        OrchestratorError,
    >)
        requires
            old(task_graph).wf(),
        ensures
            final(task_graph).wf(),
            old(task_graph).spec_ids().contains(task_id@) <==> r is Ok,
            r matches Err(e) ==> (e matches OrchestratorError::TaskNotFound(s) && s@ == task_id@)
                && *final(task_graph) == *old(task_graph),
            r is Ok ==> spec_marked(
                *old(task_graph),
                *final(task_graph),
                task_id@,
                |s: SubTaskStatus| (s matches SubTaskStatus::Failed(m) && m@ == reason@),
            ),
    {
        match task_graph.find_task(task_id) {
            Some(i) => {
                let s = String::from_str(reason);
                task_graph.sub_tasks[i].status = SubTaskStatus::Failed(s);
                proof {
                    lemma_status_set(*old(task_graph), *task_graph, i as int, task_id@);
                }
                Ok(())
            },
            None => {
                proof {
                    lemma_absent_id(*task_graph, task_id@);
                }
                Err(OrchestratorError::TaskNotFound(String::from_str(task_id)))
            },
        }
    }

    /// `true` when every sub-task has completed.
    pub fn is_complete(task_graph: &CompositeTask) -> (r: bool)
        ensures
            r <==> forall|i: int| 0 <= i < task_graph.sub_tasks@.len() ==> (#[trigger] task_graph.sub_tasks@[i]).status is Completed,
    {
        let mut i: usize = 0;
        while i < task_graph.sub_tasks.len()
            invariant
                i <= task_graph.sub_tasks@.len(),
                forall|j: int| 0 <= j < i ==> (#[trigger] task_graph.sub_tasks@[j]).status is Completed,
            decreases task_graph.sub_tasks@.len() - i,
        {
            match task_graph.sub_tasks[i].status {
                SubTaskStatus::Completed => {},
                _ => {
                    return false;
                },
            }
            i = i + 1;
        }
        true
    }

    /// Package a sub-task as a cognitive transaction for `seller_did`: a
    /// fixed boundary, the sub-task's allocation in the macro token, and a
    /// buyer signature tag naming the buyer and the sub-task.
    pub fn draft_dispatchable_ctx(macro_task: &CompositeTask, sub_task: &SubTaskNode, seller_did: &str) -> (r:
        CognitiveTransaction)
        ensures
            r.timestamp >= 0,
            r.ctx_id@ == spec_ctx_id(macro_task.buyer_did@, seller_did@, sub_task.description@, r.timestamp),
            r.buyer_did@ == macro_task.buyer_did@,
            r.seller_did@ == seller_did@,
            r.intent_declaration@ == sub_task.description@,
            r.boundary == (CognitiveBoundary {
                max_compute_units: 5_000,
                max_time_ms: 3_600_000,
                safety_clearance_level: 2,
            }),
            r.settlement.amount_bits == sub_task.allocated_budget_bits,
            r.settlement.token_symbol@ == macro_task.token_symbol@,
            r.settlement.buyer_signature@ == "sig:"@ + macro_task.buyer_did@ + ":"@ + sub_task.id@,
            !r.is_executed,
            r.execution_output_hash is None,
            r.zk_proof_commitment is None,
    {
        let boundary = CognitiveBoundary {
            max_compute_units: 5_000,
            max_time_ms: 3_600_000,
            safety_clearance_level: 2,
        };
        let mut sig = String::from_str("sig:");
        sig.append(macro_task.buyer_did.as_str());
        sig.append(":");
        sig.append(sub_task.id.as_str());
        let settlement = SettlementInstruction {
            amount_bits: sub_task.allocated_budget_bits,
            token_symbol: macro_task.token_symbol.clone(),
            buyer_signature: sig,
        };
        CtxComposer::draft_transaction(
            macro_task.buyer_did.as_str(),
            seller_did,
            sub_task.description.as_str(),
            boundary,
            settlement,
        )
    }
}

/// `after` is `before` with the status of the task named `id` replaced by
/// one that satisfies `new_status`.
pub open spec fn spec_marked(
    before: CompositeTask,
    after: CompositeTask,
    id: Seq<char>,
    new_status: spec_fn(SubTaskStatus) -> bool,
) -> bool {
    &&& after.macro_id == before.macro_id
    &&& after.buyer_did == before.buyer_did
    &&& after.macro_intent == before.macro_intent
    &&& after.total_budget_bits == before.total_budget_bits
    &&& after.token_symbol == before.token_symbol
    &&& after.budget_allocated_fraction_bits == before.budget_allocated_fraction_bits
    &&& after.sub_tasks@.len() == before.sub_tasks@.len()
    &&& forall|i: int|
        #![trigger after.sub_tasks@[i]]
        0 <= i < before.sub_tasks@.len() ==> {
            let o = before.sub_tasks@[i];
            let f = after.sub_tasks@[i];
            &&& f.id == o.id
            &&& f.description == o.description
            &&& f.dependencies == o.dependencies
            &&& f.allocated_budget_bits == o.allocated_budget_bits
            &&& o.id@ == id ==> new_status(f.status)
            &&& o.id@ != id ==> f.status == o.status
        }
}

proof fn lemma_status_set(before: CompositeTask, after: CompositeTask, i: int, id: Seq<char>)
    requires
        before.wf(),
        0 <= i < before.sub_tasks@.len(),
        before.sub_tasks@[i].id@ == id,
        after.macro_id == before.macro_id,
        after.buyer_did == before.buyer_did,
        after.macro_intent == before.macro_intent,
        after.total_budget_bits == before.total_budget_bits,
        after.token_symbol == before.token_symbol,
        after.budget_allocated_fraction_bits == before.budget_allocated_fraction_bits,
        after.sub_tasks@.len() == before.sub_tasks@.len(),
        forall|j: int| 0 <= j < before.sub_tasks@.len() && j != i ==> after.sub_tasks@[j] == before.sub_tasks@[j],
        after.sub_tasks@[i].id == before.sub_tasks@[i].id,
        after.sub_tasks@[i].description == before.sub_tasks@[i].description,
        after.sub_tasks@[i].dependencies == before.sub_tasks@[i].dependencies,
        after.sub_tasks@[i].allocated_budget_bits == before.sub_tasks@[i].allocated_budget_bits,
    ensures
        after.wf(),
        forall|new_status: spec_fn(SubTaskStatus) -> bool|
            new_status(after.sub_tasks@[i].status) ==> spec_marked(before, after, id, new_status),
        before.spec_ids().contains(id),
{
    assert(before.spec_ids()[i] == id);
    assert forall|a: int, b: int|
        0 <= a < b < after.sub_tasks@.len() implies #[trigger] after.sub_tasks@[a].id@
        != #[trigger] after.sub_tasks@[b].id@ by {
        assert(before.sub_tasks@[a].id@ != before.sub_tasks@[b].id@);
    }
    assert forall|j: int| 0 <= j < before.sub_tasks@.len() && j != i implies before.sub_tasks@[j].id@ != id by {
        if j < i {
            assert(before.sub_tasks@[j].id@ != before.sub_tasks@[i].id@);
        } else {
            assert(before.sub_tasks@[i].id@ != before.sub_tasks@[j].id@);
        }
    }
}

proof fn lemma_absent_id(t: CompositeTask, id: Seq<char>)
    requires
        forall|i: int| 0 <= i < t.sub_tasks@.len() ==> t.sub_tasks@[i].id@ != id,
    ensures
        !t.spec_ids().contains(id),
{
    if t.spec_ids().contains(id) {
        let k = choose|k: int| 0 <= k < t.spec_ids().len() && t.spec_ids()[k] == id;
        assert(t.sub_tasks@[k].id@ == id);
    }
}

/// A sequence without repeats whose elements all occur in `b` is no longer
/// than `b`; strictly shorter when it misses an element of `b`.
proof fn lemma_distinct_within<A>(a: Seq<A>, b: Seq<A>, e: A)
    requires
        a.no_duplicates(),
        forall|i: int| 0 <= i < a.len() ==> b.contains(#[trigger] a[i]),
    ensures
        a.len() <= b.len(),
        b.contains(e) && !a.contains(e) ==> a.len() < b.len(),
{
    a.unique_seq_to_set();
    b.lemma_cardinality_of_set();
    vstd::seq_lib::seq_to_set_is_finite(b);
    assert forall|x: A| a.to_set().contains(x) implies b.to_set().contains(x) by {
        let i = choose|i: int| 0 <= i < a.len() && a[i] == x;
        assert(b.contains(a[i]));
    }
    vstd::set_lib::lemma_len_subset(a.to_set(), b.to_set());
    if b.contains(e) && !a.contains(e) {
        let bs = b.to_set().remove(e);
        assert forall|x: A| a.to_set().contains(x) implies bs.contains(x) by {
            let i = choose|i: int| 0 <= i < a.len() && a[i] == x;
            assert(b.contains(a[i]));
        }
        vstd::set_lib::lemma_len_subset(a.to_set(), bs);
        assert(b.to_set().contains(e));
    }
}

impl CompositeTask {
    /// Task `u` lists `x` among its dependencies.
    pub open spec fn spec_depends(&self, u: Seq<char>, x: Seq<char>) -> bool {
        exists|i: int|
            0 <= i < self.sub_tasks@.len() && self.sub_tasks@[i].id@ == u && #[trigger] self.spec_deps(
                i,
            ).contains(x)
    }

    /// `p` is a closed walk along dependencies: it returns to its start.
    pub open spec fn spec_is_cycle(&self, p: Seq<Seq<char>>) -> bool {
        &&& p.len() >= 2
        &&& p[0] == p.last()
        &&& forall|k: int| 0 <= k < p.len() - 1 ==> #[trigger] self.spec_depends(p[k], p[k + 1])
    }

    /// Some chain of dependencies leads from a task back to itself.
    pub open spec fn spec_has_cycle(&self) -> bool {
        exists|p: Seq<Seq<char>>| #[trigger] self.spec_is_cycle(p)
    }

    /// Every dependency names a task of the DAG.
    pub open spec fn spec_deps_known(&self) -> bool {
        forall|i: int, k: int|
            0 <= i < self.sub_tasks@.len() && 0 <= k < self.spec_deps(i).len() ==> self.spec_ids().contains(
                #[trigger] self.spec_deps(i)[k],
            )
    }

    /// Every name in `order` was processed only after every task that
    /// depends on it.
    spec fn spec_peel_order(&self, order: Seq<Seq<char>>) -> bool {
        forall|k: int, u: Seq<char>|
            0 <= k < order.len() && #[trigger] self.spec_depends(u, order[k]) ==> order.subrange(0, k).contains(u)
    }

    /// No name on a cycle is ever peeled.
    proof fn lemma_cycle_never_peeled(&self, order: Seq<Seq<char>>, p: Seq<Seq<char>>, k: int)
        requires
            self.spec_is_cycle(p),
            self.spec_peel_order(order),
            0 <= k < order.len(),
        ensures
            !p.contains(order[k]),
        decreases k,
    {
        if p.contains(order[k]) {
            let j = choose|j: int| 0 <= j < p.len() && p[j] == order[k];
            let jp = if j == 0 { p.len() - 2 } else { j - 1 };
            assert(self.spec_depends(p[jp], p[jp + 1]));
            assert(p[jp + 1] == order[k]);
            assert(order.subrange(0, k).contains(p[jp]));
            let k2 = choose|k2: int| 0 <= k2 < k && order.subrange(0, k)[k2] == p[jp];
            assert(order[k2] == p[jp]);
            self.lemma_cycle_never_peeled(order, p, k2);
        }
    }

    /// Every name of `unpeeled` is a dependency of a task in `unpeeled`.
    #[verifier::opaque]
    spec fn spec_stuck(&self, unpeeled: Seq<Seq<char>>) -> bool {
        forall|z: Seq<char>|
            #[trigger] unpeeled.contains(z) ==> exists|u: Seq<char>| unpeeled.contains(u) && self.spec_depends(u, z)
    }

    /// Going back from `y` `k` times along "is a dependency of", staying
    /// among `unpeeled`.
    spec fn spec_walk_back(&self, unpeeled: Seq<Seq<char>>, y: Seq<char>, k: nat) -> Seq<char>
        decreases k,
    {
        if k == 0 {
            y
        } else {
            let z = self.spec_walk_back(unpeeled, y, (k - 1) as nat);
            choose|u: Seq<char>| unpeeled.contains(u) && self.spec_depends(u, z)
        }
    }

    /// When every unpeeled name is a dependency of some unpeeled task, the
    /// dependencies hold a cycle.
    proof fn lemma_stuck_has_cycle(&self, unpeeled: Seq<Seq<char>>, y: Seq<char>)
        requires
            unpeeled.contains(y),
            self.spec_stuck(unpeeled),
        ensures
            self.spec_has_cycle(),
    {
        let m = unpeeled.len();
        let w = Seq::new((m + 1) as nat, |k: int| self.spec_walk_back(unpeeled, y, k as nat));
        assert forall|i: int| 0 <= i < w.len() implies unpeeled.contains(#[trigger] w[i]) by {
            self.lemma_walk_back(unpeeled, y, i as nat);
        }
        if w.no_duplicates() {
            lemma_distinct_within(w, unpeeled, y);
            assert(false);
        }
        let (i, j) = choose|i: int, j: int| 0 <= i < w.len() && 0 <= j < w.len() && i != j && w[i] == w[j];
        let (lo, hi) = if i < j { (i, j) } else { (j, i) };
        let q = Seq::new((hi - lo + 1) as nat, |t: int| w[hi - t]);
        assert forall|t: int| 0 <= t < q.len() - 1 implies #[trigger] self.spec_depends(q[t], q[t + 1]) by {
            assert(q[t] == self.spec_walk_back(unpeeled, y, (hi - t) as nat));
            assert(q[t + 1] == self.spec_walk_back(unpeeled, y, (hi - t - 1) as nat));
            self.lemma_walk_back(unpeeled, y, (hi - t) as nat);
        }
        assert(self.spec_is_cycle(q));
    }

    proof fn lemma_walk_back(&self, unpeeled: Seq<Seq<char>>, y: Seq<char>, k: nat)
        requires
            unpeeled.contains(y),
            self.spec_stuck(unpeeled),
        ensures
            unpeeled.contains(self.spec_walk_back(unpeeled, y, k)),
            k > 0 ==> self.spec_depends(
                self.spec_walk_back(unpeeled, y, k),
                self.spec_walk_back(unpeeled, y, (k - 1) as nat),
            ),
        decreases k,
    {
        if k > 0 {
            self.lemma_walk_back(unpeeled, y, (k - 1) as nat);
            let z = self.spec_walk_back(unpeeled, y, (k - 1) as nat);
            assert(unpeeled.contains(z));
            reveal(CompositeTask::spec_stuck);
            assert(exists|u: Seq<char>| unpeeled.contains(u) && self.spec_depends(u, z));
        }
    }
}

impl CompositeTask {
    /// Every dependency of the first `t` tasks, and the first `k` of task
    /// `t`, names a task.
    spec fn spec_known_upto(&self, t: int, k: int) -> bool {
        forall|i: int, kk: int|
            ((0 <= i < t && 0 <= kk < self.spec_deps(i).len()) || (i == t && 0 <= kk < k)) ==> self.spec_ids().contains(
                #[trigger] self.spec_deps(i)[kk],
            )
    }

    /// The names Kahn's algorithm works on: every task id, in task order,
    /// then every dependency name that is no task id, in order of first
    /// mention.
    fn name_table(&self) -> (r: Vec<String>)
        requires
            self.wf(),
        ensures
            spec_names(r@).len() >= self.sub_tasks@.len(),
            spec_names(r@).subrange(0, self.sub_tasks@.len() as int) == self.spec_ids(),
            spec_names(r@).no_duplicates(),
            self.spec_deps_known() <==> r@.len() == self.sub_tasks@.len(),
    {
        let n = self.sub_tasks.len();
        let ghost ids = self.spec_ids();
        let mut nodes: Vec<String> = Vec::new();
        let mut i: usize = 0;
        while i < n
            invariant
                n == self.sub_tasks@.len(),
                ids == self.spec_ids(),
                i <= n,
                spec_names(nodes@) == ids.subrange(0, i as int),
            decreases n - i,
        {
            let ghost before = spec_names(nodes@);
            nodes.push(self.sub_tasks[i].id.clone());
            proof {
                assert(spec_names(nodes@) =~= before.push(self.sub_tasks@[i as int].id@));
                assert(ids[i as int] == self.sub_tasks@[i as int].id@);
                assert(spec_names(nodes@) =~= ids.subrange(0, i + 1));
            }
            i = i + 1;
        }
        proof {
            assert(ids.subrange(0, n as int) =~= ids);
            assert(spec_names(nodes@).no_duplicates()) by {
                assert forall|a: int, b: int| 0 <= a < b < n implies spec_names(nodes@)[a] != spec_names(nodes@)[b] by {
                    assert(self.sub_tasks@[a].id@ != self.sub_tasks@[b].id@);
                }
            }
        }
        let mut t: usize = 0;
        while t < n
            invariant
                n == self.sub_tasks@.len(),
                ids == self.spec_ids(),
                t <= n,
                spec_names(nodes@).len() >= n,
                spec_names(nodes@).subrange(0, n as int) == ids,
                spec_names(nodes@).no_duplicates(),
                forall|i: int, kk: int|
                    0 <= i < t && 0 <= kk < self.spec_deps(i).len() ==> spec_names(nodes@).contains(
                        #[trigger] self.spec_deps(i)[kk],
                    ),
                self.spec_known_upto(t as int, 0) <==> nodes@.len() == n,
            decreases n - t,
        {
            let n_deps = self.sub_tasks[t].dependencies.len();
            let mut k: usize = 0;
            while k < n_deps
                invariant
                    n == self.sub_tasks@.len(),
                    ids == self.spec_ids(),
                    t < n,
                    n_deps == self.spec_deps(t as int).len(),
                    k <= n_deps,
                    spec_names(nodes@).len() >= n,
                    spec_names(nodes@).subrange(0, n as int) == ids,
                    spec_names(nodes@).no_duplicates(),
                    forall|i: int, kk: int|
                        ((0 <= i < t && 0 <= kk < self.spec_deps(i).len()) || (i == t && 0 <= kk < k))
                            ==> spec_names(nodes@).contains(#[trigger] self.spec_deps(i)[kk]),
                    self.spec_known_upto(t as int, k as int) <==> nodes@.len() == n,
                decreases n_deps - k,
            {
                let ghost before = spec_names(nodes@);
                let dep = &self.sub_tasks[t].dependencies[k];
                proof {
                    assert(self.spec_deps(t as int)[k as int] == dep@);
                }
                if !holds_name(&nodes, dep) {
                    nodes.push(dep.clone());
                    proof {
                        assert(spec_names(nodes@) =~= before.push(dep@));
                        assert(spec_names(nodes@).subrange(0, n as int) =~= before.subrange(0, n as int));
                        assert(spec_names(nodes@).no_duplicates()) by {
                            assert forall|a: int, b: int|
                                0 <= a < b < spec_names(nodes@).len() implies spec_names(nodes@)[a]
                                != spec_names(nodes@)[b] by {
                                if b == before.len() {
                                    assert(before[a] == spec_names(nodes@)[a]);
                                }
                            }
                        }
                        assert forall|i: int, kk: int|
                            ((0 <= i < t && 0 <= kk < self.spec_deps(i).len()) || (i == t && 0 <= kk < k + 1))
                                implies spec_names(nodes@).contains(#[trigger] self.spec_deps(i)[kk]) by {
                            if i == t && kk == k {
                                assert(spec_names(nodes@)[before.len() as int] == dep@);
                            } else {
                                assert(before.contains(self.spec_deps(i)[kk]));
                                let j = choose|j: int| 0 <= j < before.len() && before[j] == self.spec_deps(i)[kk];
                                assert(spec_names(nodes@)[j] == before[j]);
                            }
                        }
                        assert(!ids.contains(dep@)) by {
                            if ids.contains(dep@) {
                                let j = choose|j: int| 0 <= j < ids.len() && ids[j] == dep@;
                                assert(before.subrange(0, n as int)[j] == dep@);
                                assert(before[j] == dep@);
                            }
                        }
                        assert(!self.spec_known_upto(t as int, k + 1)) by {
                            assert(self.spec_deps(t as int)[k as int] == dep@);
                        }
                    }
                } else {
                    proof {
                        assert(before.contains(dep@));
                        assert(self.spec_known_upto(t as int, k + 1) <==> self.spec_known_upto(t as int, k as int)) by {
                            if before.len() == n {
                                assert(before =~= ids);
                            }
                            if self.spec_known_upto(t as int, k as int) {
                                assert(before.len() == n);
                                assert(before =~= ids) by {
                                    assert(before.subrange(0, n as int) == ids);
                                }
                                assert(ids.contains(dep@));
                            }
                        }
                    }
                }
                k = k + 1;
            }
            proof {
                assert(self.spec_known_upto(t + 1, 0) <==> self.spec_known_upto(t as int, n_deps as int));
            }
            t = t + 1;
        }
        proof {
            assert(self.spec_known_upto(n as int, 0) <==> self.spec_deps_known());
        }
        nodes
    }

    /// The index of a name no unpeeled task depends on, among the unpeeled
    /// names; the task with index `i` has name `i`.
    fn find_free(&self, nodes: &Vec<String>, peeled: &Vec<bool>) -> (r: Option<usize>)
        requires
            peeled@.len() == nodes@.len(),
            nodes@.len() >= self.sub_tasks@.len(),
        ensures
            r matches Some(x) ==> x < nodes@.len() && !peeled@[x as int] && forall|i: int|
                0 <= i < self.sub_tasks@.len() && !peeled@[i] ==> !#[trigger] self.spec_deps(i).contains(
                    spec_names(nodes@)[x as int],
                ),
            r is None ==> forall|x: int|
                0 <= x < nodes@.len() ==> peeled@[x] || exists|i: int|
                    0 <= i < self.sub_tasks@.len() && !peeled@[i] && #[trigger] self.spec_deps(i).contains(
                        spec_names(nodes@)[x],
                    ),
    {
        let n = self.sub_tasks.len();
        let mut x: usize = 0;
        while x < nodes.len()
            invariant
                n == self.sub_tasks@.len(),
                peeled@.len() == nodes@.len(),
                nodes@.len() >= n,
                x <= nodes@.len(),
                forall|y: int|
                    0 <= y < x ==> peeled@[y] || exists|i: int|
                        0 <= i < n && !peeled@[i] && #[trigger] self.spec_deps(i).contains(spec_names(nodes@)[y]),
            decreases nodes@.len() - x,
        {
            if !peeled[x] {
                let mut free = true;
                let mut i: usize = 0;
                while i < n
                    invariant
                        n == self.sub_tasks@.len(),
                        peeled@.len() == nodes@.len(),
                        nodes@.len() >= n,
                        x < nodes@.len(),
                        i <= n,
                        free ==> forall|j: int|
                            0 <= j < i && !peeled@[j] ==> !#[trigger] self.spec_deps(j).contains(spec_names(nodes@)[x as int]),
                        !free ==> exists|j: int|
                            0 <= j < n && !peeled@[j] && #[trigger] self.spec_deps(j).contains(spec_names(nodes@)[x as int]),
                    decreases n - i,
                {
                    if free && !peeled[i] && holds_name(&self.sub_tasks[i].dependencies, &nodes[x]) {
                        free = false;
                        assert(spec_names(nodes@)[x as int] == nodes@[x as int]@);
                        assert(self.spec_deps(i as int).contains(spec_names(nodes@)[x as int]));
                    }
                    i = i + 1;
                }
                if free {
                    return Some(x);
                }
                assert(spec_names(nodes@)[x as int] == nodes@[x as int]@);
            }
            x = x + 1;
        }
        None
    }

    /// Peeling a name no unpeeled task depends on keeps the peel order.
    proof fn lemma_peel_push(&self, order: Seq<Seq<char>>, name: Seq<char>, peeled: Seq<bool>, names: Seq<Seq<char>>)
        requires
            self.spec_peel_order(order),
            names.len() >= self.sub_tasks@.len(),
            names.subrange(0, self.sub_tasks@.len() as int) == self.spec_ids(),
            peeled.len() == names.len(),
            forall|y: int| 0 <= y < names.len() ==> (peeled[y] <==> order.contains(#[trigger] names[y])),
            forall|i: int|
                0 <= i < self.sub_tasks@.len() && !peeled[i] ==> !#[trigger] self.spec_deps(i).contains(name),
        ensures
            self.spec_peel_order(order.push(name)),
    {
        let n = self.sub_tasks@.len() as int;
        let new_order = order.push(name);
        assert forall|k: int, u: Seq<char>|
            0 <= k < new_order.len() && #[trigger] self.spec_depends(u, new_order[k]) implies new_order.subrange(
            0,
            k,
        ).contains(u) by {
            if k < order.len() {
                assert(new_order.subrange(0, k) =~= order.subrange(0, k));
                assert(new_order[k] == order[k]);
            } else {
                assert(new_order.subrange(0, k) =~= order);
                let i = choose|i: int|
                    0 <= i < self.sub_tasks@.len() && self.sub_tasks@[i].id@ == u
                        && #[trigger] self.spec_deps(i).contains(name);
                assert(peeled[i]);
                assert(names.subrange(0, n)[i] == names[i]);
                assert(self.spec_ids()[i] == u);
                assert(order.contains(names[i]));
            }
        }
    }

    /// The names not yet peeled.
    spec fn spec_unpeeled(order: Seq<Seq<char>>, names: Seq<Seq<char>>) -> Seq<Seq<char>> {
        names.filter(|nm: Seq<char>| !order.contains(nm))
    }

    /// When no unpeeled name is free, the unpeeled names are stuck.
    proof fn lemma_unpeeled_stuck(&self, order: Seq<Seq<char>>, peeled: Seq<bool>, names: Seq<Seq<char>>)
        requires
            names.len() >= self.sub_tasks@.len(),
            names.subrange(0, self.sub_tasks@.len() as int) == self.spec_ids(),
            peeled.len() == names.len(),
            forall|y: int| 0 <= y < names.len() ==> (peeled[y] <==> order.contains(#[trigger] names[y])),
            forall|x: int|
                0 <= x < names.len() ==> peeled[x] || exists|i: int|
                    0 <= i < self.sub_tasks@.len() && !peeled[i] && #[trigger] self.spec_deps(i).contains(names[x]),
        ensures
            self.spec_stuck(Self::spec_unpeeled(order, names)),
    {
        let n = self.sub_tasks@.len() as int;
        let pred = |nm: Seq<char>| !order.contains(nm);
        let unpeeled = names.filter(pred);
        assert(unpeeled == Self::spec_unpeeled(order, names));
        reveal(CompositeTask::spec_stuck);
        assert forall|z: Seq<char>| #[trigger] unpeeled.contains(z) implies exists|u: Seq<char>|
            unpeeled.contains(u) && self.spec_depends(u, z) by {
            let q = choose|q: int| 0 <= q < unpeeled.len() && unpeeled[q] == z;
            names.lemma_filter_pred(pred, q);
            names.lemma_filter_contains_rev(pred, z);
            let x = choose|x: int| 0 <= x < names.len() && names[x] == z;
            assert(!peeled[x]);
            let i = choose|i: int|
                0 <= i < n && !peeled[i] && #[trigger] self.spec_deps(i).contains(names[x]);
            let u = self.sub_tasks@[i].id@;
            assert(names.subrange(0, n)[i] == names[i]);
            assert(self.spec_ids()[i] == u);
            assert(pred(names[i]));
            names.lemma_filter_contains(pred, i);
            assert(self.spec_depends(u, z));
        }
    }

    /// Without a cycle, peeling gets stuck only once every name is peeled.
    proof fn lemma_peel_complete(&self, order: Seq<Seq<char>>, peeled: Seq<bool>, names: Seq<Seq<char>>)
        requires
            !self.spec_has_cycle(),
            names.len() >= self.sub_tasks@.len(),
            names.subrange(0, self.sub_tasks@.len() as int) == self.spec_ids(),
            names.no_duplicates(),
            peeled.len() == names.len(),
            order.no_duplicates(),
            forall|y: int| 0 <= y < names.len() ==> (peeled[y] <==> order.contains(#[trigger] names[y])),
            forall|k: int| 0 <= k < order.len() ==> names.contains(#[trigger] order[k]),
            forall|x: int|
                0 <= x < names.len() ==> peeled[x] || exists|i: int|
                    0 <= i < self.sub_tasks@.len() && !peeled[i] && #[trigger] self.spec_deps(i).contains(names[x]),
        ensures
            order.len() == names.len(),
    {
        self.lemma_unpeeled_stuck(order, peeled, names);
        let unpeeled = Self::spec_unpeeled(order, names);
        assert forall|y: int| 0 <= y < names.len() implies order.contains(#[trigger] names[y]) by {
            if !order.contains(names[y]) {
                let pred = |nm: Seq<char>| !order.contains(nm);
                assert(pred(names[y]));
                names.lemma_filter_contains(pred, y);
                assert(unpeeled.contains(names[y]));
                self.lemma_stuck_has_cycle(unpeeled, names[y]);
            }
        }
        lemma_distinct_within(order, names, Seq::empty());
        lemma_distinct_within(names, order, Seq::empty());
    }

    /// A cycle keeps at least one name from being peeled.
    proof fn lemma_peel_blocked(&self, order: Seq<Seq<char>>, names: Seq<Seq<char>>)
        requires
            self.spec_has_cycle(),
            names.len() >= self.sub_tasks@.len(),
            names.subrange(0, self.sub_tasks@.len() as int) == self.spec_ids(),
            order.no_duplicates(),
            forall|k: int| 0 <= k < order.len() ==> names.contains(#[trigger] order[k]),
            self.spec_peel_order(order),
        ensures
            order.len() < names.len(),
    {
        let n = self.sub_tasks@.len() as int;
        let p = choose|p: Seq<Seq<char>>| #[trigger] self.spec_is_cycle(p);
        assert(self.spec_depends(p[0], p[0int + 1]));
        let i0 = choose|i: int|
            0 <= i < self.sub_tasks@.len() && self.sub_tasks@[i].id@ == p[0] && #[trigger] self.spec_deps(
                i,
            ).contains(p[0int + 1]);
        assert(names.subrange(0, n)[i0] == names[i0]);
        assert(self.spec_ids()[i0] == p[0]);
        assert(names[i0] == p[0]);
        assert(!order.contains(p[0])) by {
            if order.contains(p[0]) {
                let k = choose|k: int| 0 <= k < order.len() && order[k] == p[0];
                self.lemma_cycle_never_peeled(order, p, k);
                assert(p.contains(p[0]));
            }
        }
        assert(names.contains(p[0]));
        lemma_distinct_within(order, names, p[0]);
    }

    /// Check that the DAG is acyclic with Kahn's algorithm: repeatedly
    /// remove a name (a task id or a dependency name) on which no remaining
    /// task depends.  Succeeds when every name was removed and the names
    /// are exactly the tasks.
    ///
    /// So it succeeds exactly when no chain of dependencies returns to where
    /// it started and every dependency names a task; a cycle is refused
    /// whatever else the graph holds.
    pub fn validate_dag(&self) -> (r: Result<(), OrchestratorError>)
        requires
            self.wf(),
        ensures
            r matches Err(e) ==> e is CircularDependency,
            r is Ok <==> (!self.spec_has_cycle() && self.spec_deps_known()),
            self.spec_has_cycle() ==> r == Err::<(), OrchestratorError>(OrchestratorError::CircularDependency),
    {
        let n = self.sub_tasks.len();
        let nodes = self.name_table();
        let m = nodes.len();
        let ghost names = spec_names(nodes@);
        let mut peeled: Vec<bool> = Vec::new();
        let mut j: usize = 0;
        while j < m
            invariant
                j <= m,
                peeled@.len() == j,
                forall|y: int| 0 <= y < j ==> !peeled@[y],
            decreases m - j,
        {
            peeled.push(false);
            j = j + 1;
        }
        let mut count: usize = 0;
        let ghost mut order: Seq<Seq<char>> = Seq::empty();
        let mut done = false;
        while !done
            invariant
                n == self.sub_tasks@.len(),
                m == nodes@.len(),
                names == spec_names(nodes@),
                m >= n,
                names.subrange(0, n as int) == self.spec_ids(),
                names.no_duplicates(),
                peeled@.len() == m,
                order.len() == count,
                order.no_duplicates(),
                forall|y: int| 0 <= y < m ==> (peeled@[y] <==> order.contains(#[trigger] names[y])),
                forall|k: int| 0 <= k < order.len() ==> names.contains(#[trigger] order[k]),
                self.spec_peel_order(order),
                done ==> forall|x: int|
                    0 <= x < m ==> peeled@[x] || exists|i: int|
                        0 <= i < n && !peeled@[i] && #[trigger] self.spec_deps(i).contains(names[x]),
            decreases m + 1 - count - (if done { 1int } else { 0int }),
        {
            proof {
                lemma_distinct_within(order, names, Seq::empty());
            }
            match self.find_free(&nodes, &peeled) {
                Some(x) => {
                    let ghost name = names[x as int];
                    proof {
                        assert(names.contains(name)) by {
                            assert(names[x as int] == name);
                        }
                        assert(!order.contains(name));
                        lemma_distinct_within(order, names, name);
                        self.lemma_peel_push(order, name, peeled@, names);
                    }
                    peeled.set(x, true);
                    count = count + 1;
                    proof {
                        let old_order = order;
                        order = order.push(name);
                        assert forall|y: int| 0 <= y < m implies (peeled@[y] <==> order.contains(#[trigger] names[y])) by {
                            if y == x {
                                assert(order[old_order.len() as int] == name);
                            } else {
                                assert(names[y] != name);
                                if old_order.contains(names[y]) {
                                    let k = choose|k: int| 0 <= k < old_order.len() && old_order[k] == names[y];
                                    assert(order[k] == names[y]);
                                }
                                if order.contains(names[y]) {
                                    let k = choose|k: int| 0 <= k < order.len() && order[k] == names[y];
                                    assert(k < old_order.len());
                                    assert(old_order[k] == names[y]);
                                }
                            }
                        }
                        assert(order.no_duplicates()) by {
                            assert forall|a: int, b: int| 0 <= a < b < order.len() implies order[a] != order[b] by {
                                if b == old_order.len() {
                                    assert(old_order.contains(old_order[a]));
                                }
                            }
                        }
                        assert forall|k: int| 0 <= k < order.len() implies names.contains(#[trigger] order[k]) by {
                            if k == old_order.len() {
                                assert(names[x as int] == name);
                            } else {
                                assert(order[k] == old_order[k]);
                            }
                        }
                    }
                },
                None => {
                    done = true;
                },
            }
        }
        proof {
            if self.spec_has_cycle() {
                self.lemma_peel_blocked(order, names);
            } else {
                self.lemma_peel_complete(order, peeled@, names);
            }
        }
        if count == n && count == m {
            Ok(())
        } else {
            Err(OrchestratorError::CircularDependency)
        }
    }
}

/// A sub-task id hashes the macro id and the description followed by the
/// task's position as 8 big-endian bytes, so tasks added at different
/// positions hash different byte strings, even with one description.
pub proof fn lemma_subtask_id_binds_index(macro_id: Seq<char>, description: Seq<char>, i1: u64, i2: u64)
    requires
        i1 != i2,
    ensures
        spec_subtask_id(macro_id, description, i1) == spec_hex(
            spec_sha256(encode_utf8(macro_id) + encode_utf8(description) + u64_be_bytes(i1)),
        ),
        encode_utf8(macro_id) + encode_utf8(description) + u64_be_bytes(i1) != encode_utf8(macro_id)
            + encode_utf8(description) + u64_be_bytes(i2),
{
    let pre = encode_utf8(macro_id) + encode_utf8(description);
    if u64_be_bytes(i1) == u64_be_bytes(i2) {
        lemma_u64_be_bytes_injective(i1, i2);
    }
    let k = lemma_differing_position(u64_be_bytes(i1), u64_be_bytes(i2));
    assert((pre + u64_be_bytes(i1))[pre.len() + k] == u64_be_bytes(i1)[k]);
    assert((pre + u64_be_bytes(i2))[pre.len() + k] == u64_be_bytes(i2)[k]);
    lemma_differ_at(pre + u64_be_bytes(i1), pre + u64_be_bytes(i2), pre.len() + k);
}

} // verus!
