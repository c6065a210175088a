//! The rewrite of `QUALIFY <expr> <op> <value>` into a filter on a subquery, for the
//! comparison operators the engine's planner cannot take in a QUALIFY clause.
use vstd::prelude::*;

verus! {

/// A binary operator of a SQL expression, as far as the rewrite reads it.
#[derive(Clone, Copy, Debug, PartialEq, Eq, Structural)]
pub enum BinaryOperator {
    Eq,
    Lt,
    LtEq,
    /// Any other operator.
    Other,
}

/// A SQL expression, as far as the rewrite reads it.
#[derive(Debug)]
pub enum SqlExpr {
    Identifier(String),
    BinaryOp { left: Box<SqlExpr>, op: BinaryOperator, right: Box<SqlExpr> },
    /// Any other expression, by its SQL text.
    Other(String),
}

/// An item of a SELECT list.
#[derive(Debug)]
pub enum SelectItem {
    UnnamedExpr(SqlExpr),
    ExprWithAlias { expr: SqlExpr, alias: String },
}

/// A source of a FROM clause.
#[derive(Debug)]
pub enum FromItem {
    /// A table by name.
    Table(String),
    /// A subquery.
    Derived(Box<Query>),
}

/// A SELECT: its list, sources, WHERE and QUALIFY clauses.
#[derive(Debug)]
pub struct Select {
    pub projection: Vec<SelectItem>,
    pub from: Vec<FromItem>,
    pub selection: Option<SqlExpr>,
    pub qualify: Option<SqlExpr>,
}

/// The body of a query.
#[derive(Debug)]
pub enum SetExpr {
    Select(Box<Select>),
    /// A parenthesized query.
    Query(Box<Query>),
    /// Any other body (set operations, VALUES), by its SQL text.
    Other(String),
}

/// A query: its common table expressions and its body.
#[derive(Debug)]
pub struct Query {
    pub with: Vec<Query>,
    pub body: Box<SetExpr>,
}

/// A QUALIFY clause the rewrite applies to: a comparison by `=`, `<` or `<=`.
pub open spec fn qualify_applies(s: Select) -> bool {
    match s.qualify {
        Some(SqlExpr::BinaryOp { op, .. }) => op == BinaryOperator::Eq || op == BinaryOperator::Lt || op
            == BinaryOperator::LtEq,
        _ => false,
    }
}

/// The identifier `qualify_alias`.
pub open spec fn is_alias_ident(e: SqlExpr) -> bool {
    match e {
        SqlExpr::Identifier(a) => a@ == "qualify_alias"@,
        _ => false,
    }
}

/// The select item `*`.
pub open spec fn is_star_item(i: SelectItem) -> bool {
    match i {
        SelectItem::UnnamedExpr(SqlExpr::Identifier(star)) => star@ == "*"@,
        _ => false,
    }
}

/// The filter `qualify_alias <op> <right>`.
pub open spec fn is_alias_filter(sel: Option<SqlExpr>, op: BinaryOperator, right: SqlExpr) -> bool {
    match sel {
        Some(SqlExpr::BinaryOp { left: l2, op: op2, right: r2 }) => op2 == op && *r2 == right && is_alias_ident(*l2),
        _ => false,
    }
}

/// `inner` is `s` without its QUALIFY clause and with `<left> AS qualify_alias` added to
/// its list.
pub open spec fn is_inner_select(s: Select, left: SqlExpr, inner: Select) -> bool {
    &&& inner.qualify is None
    &&& inner.selection == s.selection
    &&& inner.from == s.from
    &&& inner.projection@.len() == s.projection@.len() + 1
    &&& inner.projection@.take(s.projection@.len() as int) == s.projection@
    &&& match inner.projection@.last() {
        SelectItem::ExprWithAlias { expr, alias } => expr == left && alias@ == "qualify_alias"@,
        _ => false,
    }
}

/// The source is the subquery made of the inner select of `s`.
pub open spec fn is_inner_source(f: FromItem, s: Select, left: SqlExpr) -> bool {
    match f {
        FromItem::Derived(sub) => sub.with@.len() == 0 && match *sub.body {
            SetExpr::Select(inner) => is_inner_select(s, left, *inner),
            _ => false,
        },
        _ => false,
    }
}

/// `n` is the rewrite of the SELECT `s` whose QUALIFY clause applies:
/// `SELECT * FROM (SELECT <list>, <left> AS qualify_alias FROM ... WHERE ...) WHERE
/// qualify_alias <op> <right>`.
pub open spec fn select_rewritten(s: Select, n: SetExpr) -> bool {
    match s.qualify {
        Some(SqlExpr::BinaryOp { left, op, right }) => match n {
            SetExpr::Select(outer) => {
                &&& outer.projection@.len() == 1
                &&& is_star_item(outer.projection@[0])
                &&& outer.qualify is None
                &&& is_alias_filter(outer.selection, op, *right)
                &&& outer.from@.len() == 1
                &&& is_inner_source(outer.from@[0], s, *left)
            },
            _ => false,
        },
        _ => false,
    }
}

/// `n` is `o` with the QUALIFY clauses rewritten, in its common table expressions and
/// in its body (through parenthesized queries), not in subqueries of FROM clauses.
pub open spec fn qualify_rewritten(o: Query, n: Query) -> bool
    decreases o, 2nat,
{
    &&& ctes_rewritten(o.with@, n.with@, o.with@.len())
    &&& body_rewritten(*o.body, *n.body)
}

/// The first `k` common table expressions of `ns` are those of `os`, rewritten.
pub open spec fn ctes_rewritten(os: Seq<Query>, ns: Seq<Query>, k: nat) -> bool
    decreases os, k,
{
    &&& os.len() == ns.len()
    &&& (k == 0 || k > os.len() || (ctes_rewritten(os, ns, (k - 1) as nat) && qualify_rewritten(
        os[k - 1],
        ns[k - 1],
    )))
}

/// `n` is the body `b` rewritten.
pub open spec fn body_rewritten(b: SetExpr, n: SetExpr) -> bool
    decreases b, 0nat,
{
    match b {
        SetExpr::Select(s) => if qualify_applies(*s) {
            select_rewritten(*s, n)
        } else {
            n == b
        },
        SetExpr::Query(q) => n matches SetExpr::Query(nq) && qualify_rewritten(*q, *nq),
        SetExpr::Other(_) => n == b,
    }
}

fn rewrite_select(s: Select) -> (r: SetExpr)
    ensures
        qualify_applies(s) ==> select_rewritten(s, r),
        !qualify_applies(s) ==> r == SetExpr::Select(Box::new(s)),
{
    let ghost s0 = s;
    let Select { mut projection, from, selection, qualify } = s;
    match qualify {
        Some(SqlExpr::BinaryOp { left, op, right }) => {
            if op == BinaryOperator::Eq || op == BinaryOperator::Lt || op == BinaryOperator::LtEq {
                let ghost before = projection@;
                projection.push(SelectItem::ExprWithAlias { expr: *left, alias: "qualify_alias".to_string() });
                let inner = Select { projection, from, selection, qualify: None };
                let subquery = Query { with: Vec::new(), body: Box::new(SetExpr::Select(Box::new(inner))) };
                let mut outer_projection: Vec<SelectItem> = Vec::new();
                outer_projection.push(SelectItem::UnnamedExpr(SqlExpr::Identifier("*".to_string())));
                let mut outer_from: Vec<FromItem> = Vec::new();
                outer_from.push(FromItem::Derived(Box::new(subquery)));
                let outer = Select {
                    projection: outer_projection,
                    from: outer_from,
                    selection: Some(
                        SqlExpr::BinaryOp {
                            left: Box::new(SqlExpr::Identifier("qualify_alias".to_string())),
                            op,
                            right,
                        },
                    ),
                    qualify: None,
                };
                proof {
                    reveal_strlit("*");
                    reveal_strlit("qualify_alias");
                    assert(before == s0.projection@);
                    assert(inner.projection@.take(before.len() as int) =~= before);
                    assert(is_inner_select(s0, *left, inner));
                    assert(is_alias_filter(outer.selection, op, *right));
                    assert(is_star_item(outer.projection@[0]));
                    assert(is_inner_source(outer.from@[0], s0, *left));
                }
                SetExpr::Select(Box::new(outer))
            } else {
                SetExpr::Select(
                    Box::new(
                        Select {
                            projection,
                            from,
                            selection,
                            qualify: Some(SqlExpr::BinaryOp { left, op, right }),
                        },
                    ),
                )
            }
        },
        other => SetExpr::Select(Box::new(Select { projection, from, selection, qualify: other })),
    }
}

fn rewrite_body(b: SetExpr) -> (r: SetExpr)
    ensures
        body_rewritten(b, r),
    decreases b,
{
    match b {
        SetExpr::Select(s) => rewrite_select(*s),
        SetExpr::Query(q) => SetExpr::Query(Box::new(rewrite_query(*q))),
        SetExpr::Other(t) => SetExpr::Other(t),
    }
}

#[verifier::loop_isolation(false)]
fn rewrite_query(q: Query) -> (r: Query)
    ensures
        qualify_rewritten(q, r),
    decreases q,
{
    let ghost q0 = q;
    let Query { mut with, body } = q;
    let ghost orig = with@;
    // Take the common table expressions out from the back, then rewrite each and put
    // them back in their order.
    let mut rev: Vec<Query> = Vec::new();
    while with.len() > 0
        invariant
            rev@.len() + with@.len() == orig.len(),
            with@ == orig.take(with@.len() as int),
            forall|j: int| 0 <= j < rev@.len() ==> #[trigger] rev@[j] == orig[orig.len() - 1 - j],
            orig == q0.with@,
        decreases with@.len(),
    {
        let c = with.pop().unwrap();
        rev.push(c);
    }
    let mut out: Vec<Query> = Vec::new();
    while rev.len() > 0
        invariant
            rev@.len() + out@.len() == orig.len(),
            forall|j: int| 0 <= j < rev@.len() ==> #[trigger] rev@[j] == orig[orig.len() - 1 - j],
            forall|j: int| 0 <= j < out@.len() ==> qualify_rewritten(orig[j], #[trigger] out@[j]),
            orig == q0.with@,
        decreases rev@.len(),
    {
        let c = rev.pop().unwrap();
        proof {
            assert(c == orig[out@.len() as int]);
            assert(decreases_to!(q0 => q0.with));
            assert(decreases_to!(q0.with => q0.with@));
            assert(decreases_to!(q0.with@ => q0.with@[out@.len() as int]));
            assert(decreases_to!(q0 => c));
        }
        let n = rewrite_query(c);
        out.push(n);
    }
    proof {
        assert forall|k: nat| k <= orig.len() implies ctes_rewritten(orig, out@, k) by {
            lemma_ctes_prefix(orig, out@, k);
        }
    }
    let ghost b0 = *body;
    let nb = rewrite_body(*body);
    let r = Query { with: out, body: Box::new(nb) };
    proof {
        assert(b0 == *q0.body);
        assert(ctes_rewritten(q0.with@, r.with@, q0.with@.len()));
        assert(body_rewritten(*q0.body, *r.body));
    }
    r
}

proof fn lemma_ctes_prefix(os: Seq<Query>, ns: Seq<Query>, k: nat)
    requires
        os.len() == ns.len(),
        k <= os.len(),
        forall|j: int| 0 <= j < ns.len() ==> qualify_rewritten(os[j], #[trigger] ns[j]),
    ensures
        ctes_rewritten(os, ns, k),
    decreases k,
{
    if k > 0 {
        lemma_ctes_prefix(os, ns, (k - 1) as nat);
        assert(qualify_rewritten(os[k - 1], ns[k - 1]));
    }
}

/// Rewrites the QUALIFY clauses of a query that compare by `=`, `<` or `<=`:
/// `SELECT <list> FROM ... QUALIFY <left> <op> <right>` becomes
/// `SELECT * FROM (SELECT <list>, <left> AS qualify_alias FROM ...) WHERE qualify_alias <op> <right>`,
/// in the query's common table expressions and in its parenthesized bodies.
pub fn update_qualify_in_query(query: &mut Query)
    ensures
        qualify_rewritten(*old(query), *final(query)),
{
    let mut taken = Query { with: Vec::new(), body: Box::new(SetExpr::Other(String::new())) };
    std::mem::swap(&mut taken, query);
    *query = rewrite_query(taken);
}

} // verus!
