//! The tag-query compiler: a small infix language over tag names —
//! `+` intersection, `-` subtraction, `*` union, parentheses for
//! grouping — compiled into a SQL set expression over the tag tables.
//! The scanner drives a stack machine of pending operands and operators;
//! the machine is mirrored by a ghost model, and a query is well-formed
//! exactly when the model never gets stuck.

use vstd::prelude::*;

use crate::strutil::{trim_seq, trim_str};

verus! {

/// A binary set operator of the query language.
#[derive(Clone, Copy, Debug)]
pub enum Op {
    Subtraction,
    Intersection,
    Union,
}

/// One node of the parsed query.
#[derive(Debug)]
pub enum AstNode {
    Tag(String),
    BinOp(Op, Box<AstNode>, Box<AstNode>),
    Grouping(Box<AstNode>),
}

/// Ghost image of an `AstNode`.
pub enum AstModel {
    Tag(Seq<char>),
    BinOp(Op, Box<AstModel>, Box<AstModel>),
    Grouping(Box<AstModel>),
}

/// The ghost image of a parsed node.
pub open spec fn ast_view(n: AstNode) -> AstModel
    decreases n,
{
    match n {
        AstNode::Tag(s) => AstModel::Tag(s@),
        AstNode::BinOp(op, l, r) => AstModel::BinOp(
            op,
            Box::new(ast_view(*l)),
            Box::new(ast_view(*r)),
        ),
        AstNode::Grouping(i) => AstModel::Grouping(Box::new(ast_view(*i))),
    }
}

/// The ghost image of a node stack.
pub open spec fn asts_view(s: Seq<AstNode>) -> Seq<AstModel>
    decreases s.len(),
{
    if s.len() == 0 {
        Seq::empty()
    } else {
        asts_view(s.drop_last()).push(ast_view(s.last()))
    }
}

proof fn lemma_asts_view_index(s: Seq<AstNode>)
    ensures
        asts_view(s).len() == s.len(),
        forall|l: int| 0 <= l < s.len() ==> asts_view(s)[l] == ast_view(#[trigger] s[l]),
    decreases s.len(),
{
    if s.len() > 0 {
        lemma_asts_view_index(s.drop_last());
        assert forall|l: int| 0 <= l < s.len() implies asts_view(s)[l] == ast_view(
            #[trigger] s[l],
        ) by {
            if l < s.len() - 1 {
                assert(s.drop_last()[l] == s[l]);
                assert(asts_view(s)[l] == asts_view(s.drop_last())[l]);
            } else {
                assert(s.last() == s[l]);
            }
        }
    }
}

/// Buffered tag text joins the node stack when it is not blank; the
/// buffer is emptied exactly then.
pub open spec fn spec_add_tag(nodes: Seq<AstModel>, buf: Seq<char>) -> (Seq<AstModel>, Seq<char>) {
    if trim_seq(buf).len() == 0 {
        (nodes, buf)
    } else {
        (nodes.push(AstModel::Tag(trim_seq(buf))), Seq::empty())
    }
}

/// Resolving a context folds the pending operators, last first, each
/// consuming the two topmost nodes; it succeeds exactly when one node is
/// left at the end, and gets stuck on an operand underflow.
pub open spec fn spec_resolve(nodes: Seq<AstModel>, ops: Seq<Op>) -> Option<AstModel>
    decreases ops.len(),
{
    if ops.len() == 0 {
        if nodes.len() == 1 {
            Some(nodes[0])
        } else {
            None
        }
    } else if nodes.len() < 2 {
        None
    } else {
        let merged = AstModel::BinOp(
            ops.last(),
            Box::new(nodes[nodes.len() - 2]),
            Box::new(nodes[nodes.len() - 1]),
        );
        spec_resolve(nodes.drop_last().drop_last().push(merged), ops.drop_last())
    }
}

/// Resolution succeeds exactly when the node stack is one deeper than
/// the operator stack.
pub proof fn lemma_resolve_some(nodes: Seq<AstModel>, ops: Seq<Op>)
    ensures
        spec_resolve(nodes, ops) is Some <==> nodes.len() == ops.len() + 1,
    decreases ops.len(),
{
    if ops.len() == 0 {
    } else if nodes.len() < 2 {
    } else {
        let merged = AstModel::BinOp(
            ops.last(),
            Box::new(nodes[nodes.len() - 2]),
            Box::new(nodes[nodes.len() - 1]),
        );
        lemma_resolve_some(nodes.drop_last().drop_last().push(merged), ops.drop_last());
    }
}

/// The machine state while a query is scanned: the current context's
/// node and operator stacks, the suspended outer contexts, and the tag
/// text buffered so far.
#[verifier::ext_equal]
pub struct QueryState {
    pub nodes: Seq<AstModel>,
    pub ops: Seq<Op>,
    pub susp: Seq<(Seq<AstModel>, Seq<Op>)>,
    pub buf: Seq<char>,
}

/// The machine before any character is read.
pub open spec fn query_init() -> QueryState {
    QueryState { nodes: Seq::empty(), ops: Seq::empty(), susp: Seq::empty(), buf: Seq::empty() }
}

/// One scanner step; `None` when the machine gets stuck: a close of a
/// group that was never opened, or a group that resolves to no single
/// node.
pub open spec fn query_step(st: QueryState, c: char) -> Option<QueryState> {
    if c == '+' {
        let (nodes, buf) = spec_add_tag(st.nodes, st.buf);
        Some(QueryState { nodes, ops: st.ops.push(Op::Intersection), buf, ..st })
    } else if c == '-' {
        let (nodes, buf) = spec_add_tag(st.nodes, st.buf);
        Some(QueryState { nodes, ops: st.ops.push(Op::Subtraction), buf, ..st })
    } else if c == '*' {
        let (nodes, buf) = spec_add_tag(st.nodes, st.buf);
        Some(QueryState { nodes, ops: st.ops.push(Op::Union), buf, ..st })
    } else if c == '(' {
        Some(
            QueryState {
                nodes: Seq::empty(),
                ops: Seq::empty(),
                susp: st.susp.push((st.nodes, st.ops)),
                ..st
            },
        )
    } else if c == ')' {
        let (nodes, buf) = spec_add_tag(st.nodes, st.buf);
        if st.susp.len() == 0 {
            None
        } else {
            match spec_resolve(nodes, st.ops) {
                None => None,
                Some(group) => {
                    let outer = st.susp.last();
                    Some(
                        QueryState {
                            nodes: outer.0.push(AstModel::Grouping(Box::new(group))),
                            ops: outer.1,
                            susp: st.susp.drop_last(),
                            buf,
                        },
                    )
                },
            }
        }
    } else {
        Some(QueryState { buf: st.buf.push(c), ..st })
    }
}

/// The machine run over a whole character sequence.
pub open spec fn query_run(chars: Seq<char>, st: QueryState) -> Option<QueryState>
    decreases chars.len(),
{
    if chars.len() == 0 {
        Some(st)
    } else {
        match query_step(st, chars[0]) {
            None => None,
            Some(st2) => query_run(chars.skip(1), st2),
        }
    }
}

/// The parsed form of a whole query: scan, flush the buffered tag, and
/// resolve the final context. Suspended contexts of unclosed groups are
/// discarded, as the scanner never returns to them.
pub open spec fn spec_query_result(q: Seq<char>) -> Option<AstModel> {
    match query_run(q, query_init()) {
        None => None,
        Some(st) => {
            let (nodes, _buf) = spec_add_tag(st.nodes, st.buf);
            spec_resolve(nodes, st.ops)
        },
    }
}

/// The queries the compiler accepts.
pub open spec fn spec_query_ok(q: Seq<char>) -> bool {
    spec_query_result(q) is Some
}

/// The per-tag SQL: the entry identifiers carrying the tag.
pub open spec fn entry_set_sql(tag: Seq<char>) -> Seq<char> {
    "SELECT entry_id FROM entries_tags\nINNER JOIN tags ON tags.id = entries_tags.tag_id\nWHERE tags.name = '"@
        + tag + "'"@
}

/// The SQL text a parsed query denotes.
pub open spec fn sql_of(n: AstModel) -> Seq<char>
    decreases n,
{
    match n {
        AstModel::Tag(t) => entry_set_sql(t),
        AstModel::BinOp(Op::Subtraction, l, r) => sql_of(*l) + " EXCEPT "@ + sql_of(*r),
        AstModel::BinOp(Op::Intersection, l, r) => sql_of(*l) + " INTERSECT "@ + sql_of(*r),
        AstModel::BinOp(Op::Union, l, r) => sql_of(*l) + " UNION ("@ + sql_of(*r) + ")"@,
        AstModel::Grouping(i) => "("@ + sql_of(*i) + ")"@,
    }
}

/// A context of the stack machine: pending operand nodes and pending
/// operators.
pub struct Context {
    nodes: Vec<AstNode>,
    ops: Vec<Op>,
}

impl Context {
    /// Ghost image of the node stack.
    pub closed spec fn nodes_view(&self) -> Seq<AstModel> {
        asts_view(self.nodes@)
    }

    /// Ghost image of the operator stack.
    pub closed spec fn ops_view(&self) -> Seq<Op> {
        self.ops@
    }

    /// An empty context.
    pub fn new() -> (r: Self)
        ensures
            r.nodes_view() == Seq::<AstModel>::empty(),
            r.ops_view() == Seq::<Op>::empty(),
    {
        Context { nodes: vec![], ops: vec![] }
    }

    /// Folds the pending operators into one node, last operator first.
    pub fn resolve(self) -> (r: AstNode)
        requires
            spec_resolve(self.nodes_view(), self.ops_view()) is Some,
        ensures
            Some(ast_view(r)) == spec_resolve(self.nodes_view(), self.ops_view()),
    {
        let mut this = self;
        while this.ops.len() > 0
            invariant
                spec_resolve(this.nodes_view(), this.ops_view()) == spec_resolve(
                    self.nodes_view(),
                    self.ops_view(),
                ),
                spec_resolve(this.nodes_view(), this.ops_view()) is Some,
            decreases this.ops@.len(),
        {
            let ghost nv0 = this.nodes_view();
            let ghost ov0 = this.ops_view();
            let ghost pre_nodes = this.nodes@;
            proof {
                lemma_resolve_some(nv0, ov0);
                lemma_asts_view_index(this.nodes@);
            }
            let op = match this.ops.pop() {
                Some(op) => op,
                None => {
                    proof {
                        assert(false);
                    }
                    Op::Union
                },
            };
            let rnode = match this.nodes.pop() {
                Some(n) => n,
                None => {
                    proof {
                        assert(false);
                    }
                    AstNode::Tag(String::new())
                },
            };
            proof {
                assert(asts_view(this.nodes@) == nv0.drop_last());
                assert(ast_view(rnode) == nv0.last());
            }
            let lnode = match this.nodes.pop() {
                Some(n) => n,
                None => {
                    proof {
                        assert(false);
                    }
                    AstNode::Tag(String::new())
                },
            };
            proof {
                assert(this.nodes@ =~= pre_nodes.drop_last().drop_last());
                assert(asts_view(this.nodes@) == nv0.drop_last().drop_last());
                assert(ast_view(lnode) == nv0.drop_last().last());
            }
            let ghost mid_nodes = this.nodes@;
            let merged = AstNode::BinOp(op, Box::new(lnode), Box::new(rnode));
            this.nodes.push(merged);
            proof {
                assert(this.nodes@.drop_last() =~= mid_nodes);
                assert(asts_view(this.nodes@) == asts_view(mid_nodes).push(ast_view(merged)));
                assert(ast_view(merged) == AstModel::BinOp(
                    ov0.last(),
                    Box::new(nv0[nv0.len() - 2]),
                    Box::new(nv0[nv0.len() - 1]),
                ));
                assert(this.ops@ =~= ov0.drop_last());
                assert(asts_view(this.nodes@) =~= nv0.drop_last().drop_last().push(
                    ast_view(merged),
                ));
            }
        }
        proof {
            lemma_resolve_some(this.nodes_view(), this.ops_view());
            lemma_asts_view_index(this.nodes@);
        }
        match this.nodes.pop() {
            Some(node) => node,
            None => {
                proof {
                    assert(false);
                }
                AstNode::Tag(String::new())
            },
        }
    }
}

/// The per-tag SQL, as executable text.
pub fn entry_set(tag_name: &str) -> (r: String)
    ensures
        r@ == entry_set_sql(tag_name@),
{
    let prefix =
        "SELECT entry_id FROM entries_tags\nINNER JOIN tags ON tags.id = entries_tags.tag_id\nWHERE tags.name = '";
    prefix.to_owned().concat(tag_name).concat("'")
}

/// Moves the buffered tag text, trimmed, onto the node stack; blank text
/// is not a tag and stays put.
pub fn add_tag(ctx: &mut Context, buf: &mut String)
    ensures
        (final(ctx).nodes_view(), final(buf)@) == spec_add_tag(old(ctx).nodes_view(), old(buf)@),
        final(ctx).ops_view() == old(ctx).ops_view(),
{
    let trimmed = trim_str(buf.as_str());
    if trimmed.as_str().unicode_len() == 0 {
        return ;
    }
    let mut cleared = String::new();
    std::mem::swap(buf, &mut cleared);
    let ghost pre_nodes = ctx.nodes@;
    ctx.nodes.push(AstNode::Tag(trimmed));
    proof {
        assert(ctx.nodes@.drop_last() =~= pre_nodes);
    }
}

/// The SQL text of one parsed node.
pub fn visit_ast_node(node: AstNode) -> (r: String)
    ensures
        r@ == sql_of(ast_view(node)),
    decreases node,
{
    match node {
        AstNode::BinOp(Op::Subtraction, lhs, rhs) => {
            let lhs_frag = visit_ast_node(*lhs);
            let rhs_frag = visit_ast_node(*rhs);
            lhs_frag.concat(" EXCEPT ").concat(rhs_frag.as_str())
        },
        AstNode::BinOp(Op::Intersection, lhs, rhs) => {
            let lhs_frag = visit_ast_node(*lhs);
            let rhs_frag = visit_ast_node(*rhs);
            lhs_frag.concat(" INTERSECT ").concat(rhs_frag.as_str())
        },
        AstNode::BinOp(Op::Union, lhs, rhs) => {
            let lhs_frag = visit_ast_node(*lhs);
            let rhs_frag = visit_ast_node(*rhs);
            lhs_frag.concat(" UNION (").concat(rhs_frag.as_str()).concat(")")
        },
        AstNode::Grouping(inner) => {
            let inner_frag = visit_ast_node(*inner);
            "(".to_owned().concat(inner_frag.as_str()).concat(")")
        },
        AstNode::Tag(tag_text) => entry_set(tag_text.as_str()),
    }
}

/// Compiles a query if it is well-formed: `None` reports a query on
/// which the stack machine gets stuck.
pub fn try_build_query(query_str: &str) -> (r: Option<String>)
    ensures
        match r {
            Some(out) => spec_query_result(query_str@) matches Some(ast) && out@ == sql_of(ast),
            None => !spec_query_ok(query_str@),
        },
{
    let n: usize = query_str.unicode_len();
    let mut ctx = Context::new();
    let mut suspended: Vec<Context> = Vec::new();
    let ghost mut susp: Seq<(Seq<AstModel>, Seq<Op>)> = Seq::empty();
    let mut tag_buf = String::new();
    let mut i: usize = 0;
    proof {
        assert(query_str@.skip(0) =~= query_str@);
    }
    while i < n
        invariant
            i <= n,
            n == query_str@.len(),
            susp.len() == suspended@.len(),
            forall|l: int|
                0 <= l < susp.len() ==> #[trigger] susp[l] == (
                    suspended@[l].nodes_view(),
                    suspended@[l].ops_view(),
                ),
            query_run(query_str@, query_init()) == query_run(
                query_str@.skip(i as int),
                QueryState {
                    nodes: ctx.nodes_view(),
                    ops: ctx.ops_view(),
                    susp: susp,
                    buf: tag_buf@,
                },
            ),
        decreases n - i,
    {
        let ghost st = QueryState {
            nodes: ctx.nodes_view(),
            ops: ctx.ops_view(),
            susp: susp,
            buf: tag_buf@,
        };
        proof {
            assert(query_str@.skip(i as int)[0] == query_str@[i as int]);
            assert(query_str@.skip(i as int).skip(1) =~= query_str@.skip(i + 1));
        }
        let token = query_str.get_char(i);
        if token == '+' {
            ctx.ops.push(Op::Intersection);
            add_tag(&mut ctx, &mut tag_buf);
            proof {
                assert(query_step(st, token) matches Some(st2) && st2 =~= (QueryState {
                    nodes: ctx.nodes_view(),
                    ops: ctx.ops_view(),
                    susp: susp,
                    buf: tag_buf@,
                }));
            }
        } else if token == '-' {
            ctx.ops.push(Op::Subtraction);
            add_tag(&mut ctx, &mut tag_buf);
            proof {
                assert(query_step(st, token) matches Some(st2) && st2 =~= (QueryState {
                    nodes: ctx.nodes_view(),
                    ops: ctx.ops_view(),
                    susp: susp,
                    buf: tag_buf@,
                }));
            }
        } else if token == '*' {
            ctx.ops.push(Op::Union);
            add_tag(&mut ctx, &mut tag_buf);
            proof {
                assert(query_step(st, token) matches Some(st2) && st2 =~= (QueryState {
                    nodes: ctx.nodes_view(),
                    ops: ctx.ops_view(),
                    susp: susp,
                    buf: tag_buf@,
                }));
            }
        } else if token == '(' {
            let mut fresh = Context::new();
            std::mem::swap(&mut ctx, &mut fresh);
            suspended.push(fresh);
            proof {
                susp = susp.push((st.nodes, st.ops));
                assert(query_step(st, token) matches Some(st2) && st2 =~= (QueryState {
                    nodes: ctx.nodes_view(),
                    ops: ctx.ops_view(),
                    susp: susp,
                    buf: tag_buf@,
                }));
            }
        } else if token == ')' {
            add_tag(&mut ctx, &mut tag_buf);
            if suspended.len() == 0 {
                proof {
                    assert(query_step(st, token) is None);
                }
                return None;
            }
            if ctx.nodes.len() == 0 || ctx.nodes.len() - 1 != ctx.ops.len() {
                proof {
                    lemma_asts_view_index(ctx.nodes@);
                    lemma_resolve_some(ctx.nodes_view(), ctx.ops_view());
                    assert(query_step(st, token) is None);
                }
                return None;
            }
            proof {
                lemma_asts_view_index(ctx.nodes@);
                lemma_resolve_some(ctx.nodes_view(), ctx.ops_view());
            }
            let prev_ctx = match suspended.pop() {
                Some(c) => c,
                None => {
                    proof {
                        assert(false);
                    }
                    Context::new()
                },
            };
            let mut group_ctx = prev_ctx;
            std::mem::swap(&mut ctx, &mut group_ctx);
            let group = group_ctx.resolve();
            let ghost pre_nodes = ctx.nodes@;
            ctx.nodes.push(AstNode::Grouping(Box::new(group)));
            proof {
                susp = susp.drop_last();
                assert(ctx.nodes@.drop_last() =~= pre_nodes);
                assert(query_step(st, token) matches Some(st2) && st2 =~= (QueryState {
                    nodes: ctx.nodes_view(),
                    ops: ctx.ops_view(),
                    susp: susp,
                    buf: tag_buf@,
                }));
            }
        } else {
            crate::strutil::push_char(&mut tag_buf, token);
            proof {
                assert(query_step(st, token) matches Some(st2) && st2 =~= (QueryState {
                    nodes: ctx.nodes_view(),
                    ops: ctx.ops_view(),
                    susp: susp,
                    buf: tag_buf@,
                }));
            }
        }
        i += 1;
    }
    proof {
        assert(query_str@.skip(n as int) =~= Seq::<char>::empty());
    }
    add_tag(&mut ctx, &mut tag_buf);
    if ctx.nodes.len() == 0 || ctx.nodes.len() - 1 != ctx.ops.len() {
        proof {
            lemma_asts_view_index(ctx.nodes@);
            lemma_resolve_some(ctx.nodes_view(), ctx.ops_view());
        }
        return None;
    }
    proof {
        lemma_asts_view_index(ctx.nodes@);
        lemma_resolve_some(ctx.nodes_view(), ctx.ops_view());
    }
    let root = ctx.resolve();
    Some(visit_ast_node(root))
}

/// Compiles a well-formed query to its SQL set expression.
pub fn build_query(query_str: &str) -> (r: String)
    requires
        spec_query_ok(query_str@),
    ensures
        Some(r@) == match spec_query_result(query_str@) {
            Some(ast) => Some(sql_of(ast)),
            None => None,
        },
{
    match try_build_query(query_str) {
        Some(out) => out,
        None => {
            proof {
                assert(false);
            }
            String::new()
        },
    }
}

} // verus!
