//! The program seen as statements: the code nodes of a file, with every other
//! node skipped.
use vstd::prelude::*;
use crate::preprocessor::{nodes_view, NodeView, PreprocessorASTNode};

verus! {

/// One statement of a program.
#[derive(Debug, Clone, PartialEq, Eq)]
pub enum Statement {
    /// The text of one code node.
    Generic(String),
}

/// A program: its statements in order.
#[derive(Debug, Clone, PartialEq, Eq)]
pub struct Progress {
    pub statements: Vec<Statement>,
}

pub open spec fn statement_text(st: Statement) -> Seq<char> {
    match st {
        Statement::Generic(t) => t@,
    }
}

pub open spec fn statements_view(v: Seq<Statement>) -> Seq<Seq<char>> {
    v.map_values(|st: Statement| statement_text(st))
}

/// The first code node at or after `i`, or the length of `nodes` where there is
/// none.
pub open spec fn next_code(nodes: Seq<NodeView>, i: int) -> int
    decreases nodes.len() - i,
{
    if i < 0 || i >= nodes.len() {
        nodes.len() as int
    } else if nodes[i] is Code {
        i
    } else {
        next_code(nodes, i + 1)
    }
}

/// The texts of the code nodes of `nodes`, in order.
pub open spec fn code_texts(nodes: Seq<NodeView>) -> Seq<Seq<char>>
    decreases nodes.len(),
{
    if nodes.len() == 0 {
        Seq::empty()
    } else {
        let rest = code_texts(nodes.drop_last());
        match nodes.last() {
            NodeView::Code(t) => rest.push(t),
            _ => rest,
        }
    }
}

/// Whether a node is skipped between statements: every node but code.
pub fn ignore(node: &PreprocessorASTNode) -> (r: bool)
    ensures
        r == !(node@ is Code),
{
    match node {
        PreprocessorASTNode::Code(_) => false,
        _ => true,
    }
}

proof fn lemma_next_code(nodes: Seq<NodeView>, i: int)
    requires
        0 <= i <= nodes.len(),
    ensures
        i <= next_code(nodes, i) <= nodes.len(),
        next_code(nodes, i) < nodes.len() ==> nodes[next_code(nodes, i)] is Code,
        forall|m: int| i <= m < next_code(nodes, i) ==> !(#[trigger] nodes[m] is Code),
    decreases nodes.len() - i,
{
    if i < nodes.len() && !(nodes[i] is Code) {
        lemma_next_code(nodes, i + 1);
    }
}

/// The statement at or after `i`: the nodes before the next code node are
/// skipped, and that node's text is the statement. Returns where it ends; `None`
/// where no code node follows.
pub fn statement(nodes: &Vec<PreprocessorASTNode>, i: usize) -> (r: Option<(Statement, usize)>)
    requires
        i <= nodes@.len(),
    ensures
        ({
            let k = next_code(nodes_view(nodes@), i as int);
            match r {
                Some((st, e)) => k < nodes@.len() && e == k + 1 && nodes_view(nodes@)[k]
                    == NodeView::Code(statement_text(st)),
                None => k == nodes@.len(),
            }
        }),
{
    let ghost all = nodes_view(nodes@);
    proof {
        lemma_next_code(all, i as int);
    }
    let mut j = i;
    while j < nodes.len() && ignore(&nodes[j])
        invariant
            i <= j <= nodes@.len(),
            all == nodes_view(nodes@),
            next_code(all, j as int) == next_code(all, i as int),
        decreases nodes@.len() - j,
    {
        j += 1;
    }
    if j >= nodes.len() {
        return None;
    }
    match &nodes[j] {
        PreprocessorASTNode::Code(code) => Some((Statement::Generic(code.clone()), j + 1)),
        _ => None,
    }
}

proof fn lemma_code_texts_skip(nodes: Seq<NodeView>, i: int, m: int)
    requires
        0 <= i <= m <= nodes.len(),
        forall|q: int| i <= q < m ==> !(#[trigger] nodes[q] is Code),
    ensures
        code_texts(nodes.take(m)) == code_texts(nodes.take(i)),
    decreases m - i,
{
    if m > i {
        lemma_code_texts_skip(nodes, i, m - 1);
        assert(nodes.take(m).drop_last() =~= nodes.take(m - 1));
        assert(nodes.take(m).last() == nodes[m - 1]);
    }
}

/// The statements of a node sequence: the texts of its code nodes, in order.
/// Succeeds exactly when the sequence is not empty and ends with a code node.
pub fn progress(nodes: &Vec<PreprocessorASTNode>) -> (r: Option<Progress>)
    ensures
        r is Some <==> (nodes@.len() > 0 && nodes_view(nodes@).last() is Code),
        r matches Some(p) ==> statements_view(p.statements@) == code_texts(nodes_view(nodes@)),
{
    let ghost all = nodes_view(nodes@);
    let n = nodes.len();
    let mut statements: Vec<Statement> = Vec::new();
    let mut i: usize = 0;
    proof {
        assert(all.take(0) =~= Seq::<NodeView>::empty());
        assert(statements_view(statements@) =~= Seq::<Seq<char>>::empty());
    }
    while i < n
        invariant
            all == nodes_view(nodes@),
            n == nodes@.len(),
            i <= n,
            statements_view(statements@) == code_texts(all.take(i as int)),
            i > 0 ==> all[i - 1] is Code,
        decreases n - i,
    {
        proof {
            lemma_next_code(all, i as int);
        }
        match statement(nodes, i) {
            Some((st, e)) => {
                let ghost k = e - 1;
                proof {
                    lemma_code_texts_skip(all, i as int, k);
                    assert(all.take(k + 1).drop_last() =~= all.take(k));
                    assert(all.take(k + 1).last() == all[k]);
                    assert(statements_view(statements@.push(st)) =~= statements_view(
                        statements@,
                    ).push(statement_text(st)));
                }
                statements.push(st);
                i = e;
            },
            None => {
                return None;
            },
        }
    }
    if n == 0 {
        return None;
    }
    assert(all.take(n as int) =~= all);
    Some(Progress { statements })
}

} // verus!
