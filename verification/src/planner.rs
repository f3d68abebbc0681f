//! Compilation of a parsed SELECT query into a plan: a directed acyclic
//! graph of typed operations, dependencies given by integer node ids, plus
//! the readiness scan that drives execution order.
use vstd::prelude::*;

use crate::ast;
use std::collections::HashSet;

verus! {

broadcast use vstd::std_specs::hash::group_hash_axioms;

/// A literal value carried by a plan expression. A float literal keeps the
/// raw bits of its 32-bit encoding, exactly as the query text gave it.
#[derive(Debug, PartialEq)]
pub enum Value {
    Boolean(bool),
    String(String),
    Int(i32),
    Float(u32),
}

impl Value {
    /// What a query literal translates to: the value, preserved verbatim.
    pub open spec fn of_immediate(val: ast::Immediate) -> Value {
        match val {
            ast::Immediate::String(s) => Value::String(s),
            ast::Immediate::Int(i) => Value::Int(i),
            ast::Immediate::Float(f) => Value::Float(f),
        }
    }

    /// Translate a query literal into a plan value.
    pub fn from_immediate(val: &ast::Immediate) -> (r: Value)
        ensures
            r == Value::of_immediate(*val),
    {
        match val {
            ast::Immediate::String(s) => Value::String(s.clone()),
            ast::Immediate::Int(i) => Value::Int(*i),
            ast::Immediate::Float(f) => Value::Float(*f),
        }
    }
}

/// An expression a plan node may evaluate. Only literal values are
/// produced today.
#[derive(Debug, PartialEq)]
pub enum Expr {
    Value(Value),
}

/// One entry of a Project node's projection list.
#[derive(Debug, PartialEq)]
pub enum ProjectionColumn {
    /// The wildcard `*`.
    All,
    /// An inline expression.
    Expr(Expr),
    /// A named column.
    Column(String),
}

/// A typed plan operation. Filter is a forward-compatible placeholder:
/// compilation never constructs one, as the grammar has no WHERE clause.
#[derive(Debug, PartialEq)]
pub enum Operation {
    /// FROM clause: read a table, named verbatim by the query.
    Scan(ast::TableRef),
    /// WHERE clause (never produced).
    Filter(Expr),
    /// SELECT list, in query order.
    Project(Vec<ProjectionColumn>),
}

/// How a projection list translates, entry for entry and in order.
pub open spec fn projection_of(exprs: Seq<ast::SelectExpr>) -> Seq<ProjectionColumn> {
    exprs.map_values(
        |e: ast::SelectExpr|
            match e {
                ast::SelectExpr::All => ProjectionColumn::All,
                ast::SelectExpr::Immediate(i) => ProjectionColumn::Expr(
                    Expr::Value(Value::of_immediate(i)),
                ),
                ast::SelectExpr::Column(c) => ProjectionColumn::Column(c),
            },
    )
}

impl Operation {
    /// Build the Project operation for a SELECT list: each entry translated
    /// 1:1, order kept.
    pub fn from_select_exprs(select_exprs: &ast::SelectExprs) -> (op: Operation)
        ensures
            op matches Operation::Project(cols) && cols@ == projection_of(select_exprs@),
    {
        let mut cols: Vec<ProjectionColumn> = Vec::new();
        let n = select_exprs.len();
        for i in 0..n
            invariant
                n == select_exprs@.len(),
                cols@.len() == i,
                forall|k: int| 0 <= k < i ==> cols@[k] == projection_of(select_exprs@)[k],
        {
            let col = match &select_exprs[i] {
                ast::SelectExpr::All => ProjectionColumn::All,
                ast::SelectExpr::Immediate(im) => ProjectionColumn::Expr(
                    Expr::Value(Value::from_immediate(im)),
                ),
                ast::SelectExpr::Column(c) => ProjectionColumn::Column(c.clone()),
            };
            cols.push(col);
        }
        proof {
            assert(cols@ =~= projection_of(select_exprs@));
        }
        Operation::Project(cols)
    }
}

/// Identifies a plan node; dense, assigned from 0 in insertion order.
pub type NodeId = usize;

/// One operation of the plan, immutable once inserted: its id, what it
/// does, and the ids of the nodes whose output it consumes.
#[derive(Debug, PartialEq)]
pub struct PlanNode {
    pub id: NodeId,
    pub operator: Operation,
    pub dependencies: Vec<NodeId>,
}

/// A compiled query: plan nodes stored densely by id, and the id of the
/// root node whose output answers the query.
#[derive(Debug, PartialEq)]
pub struct ExecutionPlan {
    pub nodes: Vec<PlanNode>,
    pub root: NodeId,
}

impl ExecutionPlan {
    /// Every node's id is its position, and dependencies point only at
    /// earlier nodes: a DAG by construction.
    pub open spec fn wf(self) -> bool {
        forall|i: int| 0 <= i < self.nodes@.len() ==> {
            &&& (#[trigger] self.nodes@[i]).id == i
            &&& forall|j: int| 0 <= j < self.nodes@[i].dependencies@.len()
                ==> (#[trigger] self.nodes@[i].dependencies@[j]) < i
        }
    }

    /// Whether the node at position `i` is ready: present, not yet
    /// completed, and every dependency completed.
    pub open spec fn node_ready_at(self, completed: Set<NodeId>, i: int) -> bool {
        &&& 0 <= i < self.nodes@.len()
        &&& !completed.contains(self.nodes@[i].id)
        &&& forall|j: int| 0 <= j < self.nodes@[i].dependencies@.len()
            ==> completed.contains(#[trigger] self.nodes@[i].dependencies@[j])
    }

    /// The ids of the ready nodes among the first `n`, in storage order.
    pub open spec fn ready_seq_up_to(self, completed: Set<NodeId>, n: int) -> Seq<NodeId>
        decreases n,
    {
        if n <= 0 {
            Seq::empty()
        } else if self.node_ready_at(completed, n - 1) {
            self.ready_seq_up_to(completed, n - 1).push(self.nodes@[n - 1].id)
        } else {
            self.ready_seq_up_to(completed, n - 1)
        }
    }

    /// The ids of all ready nodes, in storage order.
    pub open spec fn ready_seq(self, completed: Set<NodeId>) -> Seq<NodeId> {
        self.ready_seq_up_to(completed, self.nodes@.len() as int)
    }

    proof fn lemma_ready_seq_members(self, completed: Set<NodeId>, n: int)
        requires
            0 <= n <= self.nodes@.len(),
        ensures
            forall|id: NodeId| #[trigger]
                self.ready_seq_up_to(completed, n).contains(id) <==> exists|i: int|
                    0 <= i < n && self.node_ready_at(completed, i) && (#[trigger] self.nodes@[i]).id
                        == id,
        decreases n,
    {
        if n > 0 {
            self.lemma_ready_seq_members(completed, n - 1);
            let prev = self.ready_seq_up_to(completed, n - 1);
            assert forall|id: NodeId| #[trigger]
                self.ready_seq_up_to(completed, n).contains(id) implies exists|i: int|
                0 <= i < n && self.node_ready_at(completed, i) && (#[trigger] self.nodes@[i]).id
                    == id by {
                if self.node_ready_at(completed, n - 1) {
                    let s = prev.push(self.nodes@[n - 1].id);
                    let k = choose|k: int| 0 <= k < s.len() && s[k] == id;
                    if k < prev.len() {
                        assert(prev.contains(id));
                    } else {
                        assert(self.nodes@[n - 1].id == id);
                    }
                }
            }
            assert forall|id: NodeId|
                exists|i: int|
                    0 <= i < n && self.node_ready_at(completed, i) && (#[trigger] self.nodes@[i]).id
                        == id implies #[trigger] self.ready_seq_up_to(completed, n).contains(
                id,
            ) by {
                let i = choose|i: int|
                    0 <= i < n && self.node_ready_at(completed, i) && (#[trigger] self.nodes@[i]).id
                        == id;
                if i < n - 1 {
                    assert(prev.contains(id));
                    let k = choose|k: int| 0 <= k < prev.len() && prev[k] == id;
                    if self.node_ready_at(completed, n - 1) {
                        let s = prev.push(self.nodes@[n - 1].id);
                        assert(s[k] == id);
                    }
                } else {
                    let s = prev.push(self.nodes@[n - 1].id);
                    assert(s[prev.len() as int] == id);
                }
            }
        }
    }

    /// Make an empty plan; the root id is 0 until compilation sets it.
    pub fn new() -> (r: Self)
        ensures
            r.nodes@.len() == 0,
            r.root == 0,
    {
        Self { nodes: Vec::new(), root: 0 }
    }

    /// Insert an operation as a new node. Its id is the next dense integer;
    /// the dependencies must name already-existing nodes.
    pub fn add_node(&mut self, operation: Operation, dependencies: Vec<NodeId>) -> (id: NodeId)
        requires
            forall|j: int| 0 <= j < dependencies@.len()
                ==> (#[trigger] dependencies@[j]) < old(self).nodes@.len(),
        ensures
            id == old(self).nodes@.len(),
            final(self).nodes@ == old(self).nodes@.push(
                (PlanNode { id, operator: operation, dependencies }),
            ),
            final(self).root == old(self).root,
    {
        let id = self.nodes.len();
        self.nodes.push(PlanNode { id, operator: operation, dependencies });
        id
    }

    /// All nodes that can run now: not in `completed`, with every
    /// dependency in `completed`. A full rescan each call; no cycle or
    /// dangling-dependency detection is attempted.
    pub fn get_ready_nodes(&self, completed: &HashSet<NodeId>) -> (ready: Vec<NodeId>)
        ensures
            ready@ == self.ready_seq(completed@),
            forall|id: NodeId| #[trigger]
                ready@.contains(id) <==> exists|i: int|
                    0 <= i < self.nodes@.len() && self.node_ready_at(completed@, i) && (
                    #[trigger] self.nodes@[i]).id == id,
    {
        let mut ready: Vec<NodeId> = Vec::new();
        let n = self.nodes.len();
        for i in 0..n
            invariant
                n == self.nodes@.len(),
                ready@ == self.ready_seq_up_to(completed@, i as int),
        {
            let node = &self.nodes[i];
            if !completed.contains(&node.id) {
                let mut all_deps_done = true;
                let m = node.dependencies.len();
                for j in 0..m
                    invariant
                        m == node.dependencies@.len(),
                        all_deps_done <==> forall|k: int| 0 <= k < j
                            ==> completed@.contains(#[trigger] node.dependencies@[k]),
                {
                    if !completed.contains(&node.dependencies[j]) {
                        all_deps_done = false;
                    }
                }
                if all_deps_done {
                    ready.push(node.id);
                }
            }
        }
        proof {
            self.lemma_ready_seq_members(completed@, self.nodes@.len() as int);
        }
        ready
    }

    /// The largest node id, or None for an empty plan.
    pub fn get_max_node_id(&self) -> (r: Option<usize>)
        ensures
            match r {
                Option::None => self.nodes@.len() == 0,
                Option::Some(m) => {
                    &&& self.nodes@.len() > 0
                    &&& exists|i: int|
                        0 <= i < self.nodes@.len() && (#[trigger] self.nodes@[i]).id == m
                    &&& forall|i: int| 0 <= i < self.nodes@.len()
                        ==> (#[trigger] self.nodes@[i]).id <= m
                },
            },
    {
        if self.nodes.len() == 0 {
            return Option::None;
        }
        let mut best: usize = self.nodes[0].id;
        let n = self.nodes.len();
        for i in 1..n
            invariant
                n == self.nodes@.len(),
                0 < n,
                exists|k: int| 0 <= k < i && (#[trigger] self.nodes@[k]).id == best,
                forall|k: int| 0 <= k < i ==> (#[trigger] self.nodes@[k]).id <= best,
        {
            if self.nodes[i].id > best {
                best = self.nodes[i].id;
            }
        }
        Option::Some(best)
    }
}

/// What compilation promises of its result, for each query shape. A query
/// with a FROM clause yields a Scan node (id 0, no dependencies, operand
/// verbatim) and a Project node (id 1) depending on it, root Project.
/// A query without one yields a single self-contained Project node.
pub open spec fn compiled_from(query: ast::Query, plan: ExecutionPlan) -> bool {
    match query {
        ast::Query::Select(sq) => match sq.table_ref {
            Some(tr) => {
                &&& plan.nodes@.len() == 2
                &&& plan.nodes@[0].id == 0
                &&& plan.nodes@[0].operator == Operation::Scan(tr)
                &&& plan.nodes@[0].dependencies@.len() == 0
                &&& plan.nodes@[1].id == 1
                &&& plan.nodes@[1].operator matches Operation::Project(cols) && cols@
                    == projection_of(sq.select_exprs@)
                &&& plan.nodes@[1].dependencies@ =~= seq![0usize]
                &&& plan.root == 1
            },
            None => {
                &&& plan.nodes@.len() == 1
                &&& plan.nodes@[0].id == 0
                &&& plan.nodes@[0].operator matches Operation::Project(cols) && cols@
                    == projection_of(sq.select_exprs@)
                &&& plan.nodes@[0].dependencies@.len() == 0
                &&& plan.root == 0
            },
        },
    }
}

/// Compile a parsed query into its execution plan. Total over well-formed
/// input: malformed query text is rejected upstream, at parse time.
pub fn compile(query: ast::Query) -> (plan: ExecutionPlan)
    ensures
        plan.wf(),
        compiled_from(query, plan),
{
    match query {
        ast::Query::Select(select_query) => compile_select(select_query),
    }
}

/// Compile a SELECT statement: Scan first when a FROM clause is present,
/// then Project, which becomes the root.
pub fn compile_select(select_query: ast::SelectQuery) -> (plan: ExecutionPlan)
    ensures
        plan.wf(),
        compiled_from(ast::Query::Select(select_query), plan),
{
    let ast::SelectQuery { select_exprs, table_ref } = select_query;
    let proj_op = Operation::from_select_exprs(&select_exprs);
    let mut plan = ExecutionPlan::new();
    match table_ref {
        Some(scan_ref) => {
            let scan_id = plan.add_node(Operation::Scan(scan_ref), Vec::new());
            let mut deps: Vec<NodeId> = Vec::new();
            deps.push(scan_id);
            let proj_id = plan.add_node(proj_op, deps);
            plan.root = proj_id;
        },
        None => {
            let proj_id = plan.add_node(proj_op, Vec::new());
            plan.root = proj_id;
        },
    }
    plan
}

} // verus!
