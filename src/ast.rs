//! The syntax tree of a query.
use vstd::prelude::*;
use crate::value::{Value, ValueView};

verus! {

/// Which document a field path is read from.
#[derive(Debug, Clone, Copy, PartialEq, Eq, Structural)]
pub enum Scope {
    /// The document under evaluation.
    Own,
    /// Its parent (`^path`).
    Parent,
    /// Its grandparent (`^^path`).
    Grandparent,
}

/// A comparison operator.
#[derive(Debug, Clone, Copy, PartialEq, Eq, Structural)]
pub enum CmpOp {
    Eq,
    Ne,
    Gt,
    Ge,
    Lt,
    Le,
}

/// An arithmetic operator.
#[derive(Debug, Clone, Copy, PartialEq, Eq, Structural)]
pub enum ArithOp {
    Add,
    Sub,
    Mul,
    Div,
    Rem,
}

/// A dotted field path, read from one of the documents in scope.
#[derive(Debug, PartialEq)]
pub struct Path {
    pub scope: Scope,
    pub name: String,
}

/// A filter or value expression.
#[derive(Debug, PartialEq)]
pub enum Expr {
    Literal(Value),
    Field(Path),
    Variable(String),
    List(Vec<Expr>),
    Not(Box<Expr>),
    Compare(CmpOp, Box<Expr>, Box<Expr>),
    Arith(ArithOp, Box<Expr>, Box<Expr>),
    And(Box<Expr>, Box<Expr>),
    Or(Box<Expr>, Box<Expr>),
    In(Box<Expr>, Vec<Expr>),
    Between(Box<Expr>, Box<Expr>, Box<Expr>),
    Like(Box<Expr>, String),
    Regex(Box<Expr>, String),
    IsNull(Box<Expr>),
    Exists(Box<Expr>),
    Contains(Box<Expr>, Box<Expr>),
    ContainsAny(Box<Expr>, Vec<Expr>),
    ContainsAll(Box<Expr>, Vec<Expr>),
    Cast(Box<Expr>, String),
}

/// A path as a mathematical value.
pub struct PathView {
    pub scope: Scope,
    pub name: Seq<char>,
}

/// An expression as a mathematical value.
pub enum ExprView {
    Literal(ValueView),
    Field(PathView),
    Variable(Seq<char>),
    List(Seq<ExprView>),
    Not(Box<ExprView>),
    Compare(CmpOp, Box<ExprView>, Box<ExprView>),
    Arith(ArithOp, Box<ExprView>, Box<ExprView>),
    And(Box<ExprView>, Box<ExprView>),
    Or(Box<ExprView>, Box<ExprView>),
    In(Box<ExprView>, Seq<ExprView>),
    Between(Box<ExprView>, Box<ExprView>, Box<ExprView>),
    Like(Box<ExprView>, Seq<char>),
    Regex(Box<ExprView>, Seq<char>),
    IsNull(Box<ExprView>),
    Exists(Box<ExprView>),
    Contains(Box<ExprView>, Box<ExprView>),
    ContainsAny(Box<ExprView>, Seq<ExprView>),
    ContainsAll(Box<ExprView>, Seq<ExprView>),
    Cast(Box<ExprView>, Seq<char>),
}

impl View for Path {
    type V = PathView;

    open spec fn view(&self) -> PathView {
        PathView { scope: self.scope, name: self.name@ }
    }
}

pub open spec fn expr_view(e: Expr) -> ExprView
    decreases e, 0int,
{
    match e {
        Expr::Literal(v) => ExprView::Literal(v@),
        Expr::Field(p) => ExprView::Field(p@),
        Expr::Variable(n) => ExprView::Variable(n@),
        Expr::List(xs) => ExprView::List(exprs_view(xs@, 0)),
        Expr::Not(a) => ExprView::Not(Box::new(expr_view(*a))),
        Expr::Compare(op, a, b) => ExprView::Compare(
            op,
            Box::new(expr_view(*a)),
            Box::new(expr_view(*b)),
        ),
        Expr::Arith(op, a, b) => ExprView::Arith(
            op,
            Box::new(expr_view(*a)),
            Box::new(expr_view(*b)),
        ),
        Expr::And(a, b) => ExprView::And(Box::new(expr_view(*a)), Box::new(expr_view(*b))),
        Expr::Or(a, b) => ExprView::Or(Box::new(expr_view(*a)), Box::new(expr_view(*b))),
        Expr::In(a, xs) => ExprView::In(Box::new(expr_view(*a)), exprs_view(xs@, 0)),
        Expr::Between(a, lo, hi) => ExprView::Between(
            Box::new(expr_view(*a)),
            Box::new(expr_view(*lo)),
            Box::new(expr_view(*hi)),
        ),
        Expr::Like(a, p) => ExprView::Like(Box::new(expr_view(*a)), p@),
        Expr::Regex(a, p) => ExprView::Regex(Box::new(expr_view(*a)), p@),
        Expr::IsNull(a) => ExprView::IsNull(Box::new(expr_view(*a))),
        Expr::Exists(a) => ExprView::Exists(Box::new(expr_view(*a))),
        Expr::Contains(a, b) => ExprView::Contains(
            Box::new(expr_view(*a)),
            Box::new(expr_view(*b)),
        ),
        Expr::ContainsAny(a, xs) => ExprView::ContainsAny(
            Box::new(expr_view(*a)),
            exprs_view(xs@, 0),
        ),
        Expr::ContainsAll(a, xs) => ExprView::ContainsAll(
            Box::new(expr_view(*a)),
            exprs_view(xs@, 0),
        ),
        Expr::Cast(a, t) => ExprView::Cast(Box::new(expr_view(*a)), t@),
    }
}

/// The views of `xs[i..]`.
pub open spec fn exprs_view(xs: Seq<Expr>, i: int) -> Seq<ExprView>
    decreases xs, xs.len() - i,
{
    if 0 <= i < xs.len() {
        seq![expr_view(xs[i])] + exprs_view(xs, i + 1)
    } else {
        seq![]
    }
}

impl View for Expr {
    type V = ExprView;

    open spec fn view(&self) -> ExprView {
        expr_view(*self)
    }
}

pub proof fn lemma_exprs_view(xs: Seq<Expr>, i: int)
    requires
        0 <= i <= xs.len(),
    ensures
        exprs_view(xs, i).len() == xs.len() - i,
        forall|j: int| 0 <= j < xs.len() - i ==> #[trigger] exprs_view(xs, i)[j] == xs[i + j]@,
    decreases xs.len() - i,
{
    if i < xs.len() {
        lemma_exprs_view(xs, i + 1);
        assert forall|j: int| 0 <= j < xs.len() - i implies #[trigger] exprs_view(xs, i)[j]
            == xs[i + j]@ by {
            if j > 0 {
                assert(exprs_view(xs, i)[j] == exprs_view(xs, i + 1)[j - 1]);
            }
        }
    }
}

/// The views of a list of expressions: elementwise.
pub proof fn lemma_exprs_view_push(xs: Seq<Expr>, x: Expr)
    ensures
        exprs_view(xs.push(x), 0) == exprs_view(xs, 0).push(x@),
{
    lemma_exprs_view(xs, 0);
    lemma_exprs_view(xs.push(x), 0);
    assert(exprs_view(xs.push(x), 0) =~= exprs_view(xs, 0).push(x@));
}

/// One key of an `order` clause.
#[derive(Debug, PartialEq)]
pub struct OrderItem {
    pub path: Path,
    pub descending: bool,
}

pub struct OrderItemView {
    pub path: PathView,
    pub descending: bool,
}

impl View for OrderItem {
    type V = OrderItemView;

    open spec fn view(&self) -> OrderItemView {
        OrderItemView { path: self.path@, descending: self.descending }
    }
}

pub open spec fn order_views(v: Seq<OrderItem>) -> Seq<OrderItemView> {
    v.map_values(|o: OrderItem| o@)
}

pub open spec fn path_views(v: Seq<Path>) -> Seq<PathView> {
    v.map_values(|p: Path| p@)
}

/// A parsed query.
#[derive(Debug, PartialEq)]
pub struct Query {
    pub filter: Option<Expr>,
    pub order: Vec<OrderItem>,
    pub skip: Option<u64>,
    pub limit: Option<u64>,
    pub returning: Option<Vec<Path>>,
}

pub struct QueryView {
    pub filter: Option<ExprView>,
    pub order: Seq<OrderItemView>,
    pub skip: Option<u64>,
    pub limit: Option<u64>,
    pub returning: Option<Seq<PathView>>,
}

impl View for Query {
    type V = QueryView;

    open spec fn view(&self) -> QueryView {
        QueryView {
            filter: match self.filter {
                Some(e) => Some(e@),
                None => None,
            },
            order: order_views(self.order@),
            skip: self.skip,
            limit: self.limit,
            returning: match self.returning {
                Some(ps) => Some(path_views(ps@)),
                None => None,
            },
        }
    }
}

} // verus!
