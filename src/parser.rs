//! The parser: tokens to a query.
//!
//! The grammar is stated as spec functions over token views, one per rule,
//! each returning what it built and where the tokens resume. The executable
//! parser is proved to compute the same. Every rule that repeats checks that
//! its operand consumed tokens, which makes the recursion visibly finite.
use vstd::prelude::*;
use crate::ast::{
    ArithOp, CmpOp, Expr, ExprView, OrderItem, OrderItemView, Path, PathView, Query, QueryView,
    Scope, exprs_view, lemma_exprs_view_push, order_views, path_views,
};
use crate::lexer::{LexError, lex, tokenize};
use crate::number::{count_value, number_units, parse_count, parse_number};
use crate::token::{Keyword, Token, TokenView, string_from_chars, views};
use crate::value::{Value, ValueView};

verus! {

pub open spec fn tok_at(ts: Seq<TokenView>, i: int) -> Option<TokenView> {
    if 0 <= i < ts.len() {
        Some(ts[i])
    } else {
        None
    }
}

pub open spec fn kw_at(ts: Seq<TokenView>, i: int, k: Keyword) -> bool {
    tok_at(ts, i) == Some(TokenView::Keyword(k))
}

pub open spec fn cmp_op_of(t: Option<TokenView>) -> Option<CmpOp> {
    match t {
        Some(TokenView::Equal) => Some(CmpOp::Eq),
        Some(TokenView::NotEqual) => Some(CmpOp::Ne),
        Some(TokenView::GreaterThan) => Some(CmpOp::Gt),
        Some(TokenView::GreaterThanOrEqual) => Some(CmpOp::Ge),
        Some(TokenView::LessThan) => Some(CmpOp::Lt),
        Some(TokenView::LessThanOrEqual) => Some(CmpOp::Le),
        _ => None,
    }
}

pub open spec fn add_op_of(t: Option<TokenView>) -> Option<ArithOp> {
    match t {
        Some(TokenView::Plus) => Some(ArithOp::Add),
        Some(TokenView::Minus) => Some(ArithOp::Sub),
        _ => None,
    }
}

pub open spec fn mul_op_of(t: Option<TokenView>) -> Option<ArithOp> {
    match t {
        Some(TokenView::Asterisk) => Some(ArithOp::Mul),
        Some(TokenView::Slash) => Some(ArithOp::Div),
        Some(TokenView::Percent) => Some(ArithOp::Rem),
        _ => None,
    }
}

/// `i < j <= len`: a step that consumed tokens and stayed within them.
pub open spec fn advanced(ts: Seq<TokenView>, i: int, j: int) -> bool {
    i < j <= ts.len()
}

/// The `.name` parts of a dotted path from `i`, appended to `acc`.
pub open spec fn path_rest(ts: Seq<TokenView>, i: int, acc: Seq<char>) -> (Seq<char>, int)
    decreases ts.len() - i,
{
    if 0 <= i && i + 1 < ts.len() && ts[i] == TokenView::Dot && ts[i + 1] is Ident {
        path_rest(ts, i + 2, acc + seq!['.'] + ts[i + 1]->Ident_0)
    } else {
        (acc, i)
    }
}

/// `path := ["^" | "^^"] ident ("." ident)*`
pub open spec fn path_at(ts: Seq<TokenView>, i: int) -> Option<(PathView, int)> {
    match tok_at(ts, i) {
        Some(TokenView::Ident(n)) => {
            let (p, j) = path_rest(ts, i + 1, n);
            Some((PathView { scope: Scope::Own, name: p }, j))
        },
        Some(TokenView::ParentRef(n)) => Some((PathView { scope: Scope::Parent, name: n }, i + 1)),
        Some(TokenView::GrandparentRef(n)) => Some(
            (PathView { scope: Scope::Grandparent, name: n }, i + 1),
        ),
        _ => None,
    }
}

/// `("::" ident)*` after an operand.
pub open spec fn cast_rest(ts: Seq<TokenView>, i: int, e: ExprView) -> Option<(ExprView, int)>
    decreases ts.len() - i,
{
    if 0 <= i && tok_at(ts, i) == Some(TokenView::ColonColon) {
        match tok_at(ts, i + 1) {
            Some(TokenView::Ident(ty)) => cast_rest(ts, i + 2, ExprView::Cast(Box::new(e), ty)),
            _ => None,
        }
    } else {
        Some((e, i))
    }
}

/// Literals, paths, variables, `( expr )` and `[ list ]`.
pub open spec fn primary(ts: Seq<TokenView>, i: int) -> Option<(ExprView, int)>
    decreases ts.len() - i, 0int,
{
    match tok_at(ts, i) {
        Some(TokenView::Number(t)) => match number_units(t) {
            Some(u) => if i64::MIN <= u <= i64::MAX {
                Some((ExprView::Literal(ValueView::Number(u)), i + 1))
            } else {
                None
            },
            None => None,
        },
        Some(TokenView::String(s)) => Some((ExprView::Literal(ValueView::String(s)), i + 1)),
        Some(TokenView::Keyword(Keyword::True)) => Some(
            (ExprView::Literal(ValueView::Bool(true)), i + 1),
        ),
        Some(TokenView::Keyword(Keyword::False)) => Some(
            (ExprView::Literal(ValueView::Bool(false)), i + 1),
        ),
        Some(TokenView::Keyword(Keyword::Null)) => Some((ExprView::Literal(ValueView::Null), i + 1)),
        Some(TokenView::Variable(n)) => Some((ExprView::Variable(n), i + 1)),
        Some(TokenView::Ident(_)) | Some(TokenView::ParentRef(_)) | Some(
            TokenView::GrandparentRef(_),
        ) => match path_at(ts, i) {
            Some((p, j)) => Some((ExprView::Field(p), j)),
            None => None,
        },
        Some(TokenView::OpenParen) => match or_expr(ts, i + 1) {
            Some((e, j)) => if tok_at(ts, j) == Some(TokenView::CloseParen) {
                Some((e, j + 1))
            } else {
                None
            },
            None => None,
        },
        Some(TokenView::OpenBracket) => match list_items(ts, i + 1) {
            Some((xs, j)) => Some((ExprView::List(xs), j)),
            None => None,
        },
        _ => None,
    }
}

/// `cast := primary ("::" ident)*`
pub open spec fn cast(ts: Seq<TokenView>, i: int) -> Option<(ExprView, int)>
    decreases ts.len() - i, 1int,
{
    match primary(ts, i) {
        Some((e, j)) => cast_rest(ts, j, e),
        None => None,
    }
}

/// `multiplicative := cast (("*" | "/" | "%") cast)*`
pub open spec fn mult(ts: Seq<TokenView>, i: int) -> Option<(ExprView, int)>
    decreases ts.len() - i, 2int,
{
    match cast(ts, i) {
        Some((e, j)) => if advanced(ts, i, j) {
            mult_rest(ts, j, e)
        } else {
            None
        },
        None => None,
    }
}

pub open spec fn mult_rest(ts: Seq<TokenView>, i: int, lhs: ExprView) -> Option<(ExprView, int)>
    decreases ts.len() - i, 2int,
{
    match mul_op_of(tok_at(ts, i)) {
        Some(op) => match cast(ts, i + 1) {
            Some((r, k)) => if advanced(ts, i, k) {
                mult_rest(ts, k, ExprView::Arith(op, Box::new(lhs), Box::new(r)))
            } else {
                None
            },
            None => None,
        },
        None => Some((lhs, i)),
    }
}

/// `additive := multiplicative (("+" | "-") multiplicative)*`
pub open spec fn additive(ts: Seq<TokenView>, i: int) -> Option<(ExprView, int)>
    decreases ts.len() - i, 3int,
{
    match mult(ts, i) {
        Some((e, j)) => if advanced(ts, i, j) {
            additive_rest(ts, j, e)
        } else {
            None
        },
        None => None,
    }
}

pub open spec fn additive_rest(ts: Seq<TokenView>, i: int, lhs: ExprView) -> Option<
    (ExprView, int),
>
    decreases ts.len() - i, 3int,
{
    match add_op_of(tok_at(ts, i)) {
        Some(op) => match mult(ts, i + 1) {
            Some((r, k)) => if advanced(ts, i, k) {
                additive_rest(ts, k, ExprView::Arith(op, Box::new(lhs), Box::new(r)))
            } else {
                None
            },
            None => None,
        },
        None => Some((lhs, i)),
    }
}

/// The predicate that may follow the left operand `l` of a comparison,
/// whose tokens end at `j`.
pub open spec fn comparison_tail(ts: Seq<TokenView>, i: int, l: ExprView, j: int) -> Option<
    (ExprView, int),
>
    decreases ts.len() - i, 4int,
{
    if !advanced(ts, i, j) {
        None
    } else if cmp_op_of(tok_at(ts, j)) is Some {
        match additive(ts, j + 1) {
            Some((r, k)) => Some(
                (
                    ExprView::Compare(
                        cmp_op_of(tok_at(ts, j))->0,
                        Box::new(l),
                        Box::new(r),
                    ),
                    k,
                ),
            ),
            None => None,
        }
    } else if kw_at(ts, j, Keyword::In) || kw_at(ts, j, Keyword::ContainsAny) || kw_at(
        ts,
        j,
        Keyword::ContainsAll,
    ) {
        if tok_at(ts, j + 1) == Some(TokenView::OpenBracket) {
            match list_items(ts, j + 2) {
                Some((xs, k)) => Some(
                    (
                        if kw_at(ts, j, Keyword::In) {
                            ExprView::In(Box::new(l), xs)
                        } else if kw_at(ts, j, Keyword::ContainsAny) {
                            ExprView::ContainsAny(Box::new(l), xs)
                        } else {
                            ExprView::ContainsAll(Box::new(l), xs)
                        },
                        k,
                    ),
                ),
                None => None,
            }
        } else {
            None
        }
    } else if kw_at(ts, j, Keyword::Between) {
        match additive(ts, j + 1) {
            Some((lo, k)) => if advanced(ts, j, k) && kw_at(ts, k, Keyword::And) {
                match additive(ts, k + 1) {
                    Some((hi, m)) => Some(
                        (ExprView::Between(Box::new(l), Box::new(lo), Box::new(hi)), m),
                    ),
                    None => None,
                }
            } else {
                None
            },
            None => None,
        }
    } else if kw_at(ts, j, Keyword::Like) || kw_at(ts, j, Keyword::Regex) {
        match tok_at(ts, j + 1) {
            Some(TokenView::String(p)) => Some(
                (
                    if kw_at(ts, j, Keyword::Like) {
                        ExprView::Like(Box::new(l), p)
                    } else {
                        ExprView::Regex(Box::new(l), p)
                    },
                    j + 2,
                ),
            ),
            _ => None,
        }
    } else if kw_at(ts, j, Keyword::Is) {
        if kw_at(ts, j + 1, Keyword::Null) {
            Some((ExprView::IsNull(Box::new(l)), j + 2))
        } else {
            None
        }
    } else if kw_at(ts, j, Keyword::Exists) {
        Some((ExprView::Exists(Box::new(l)), j + 1))
    } else if kw_at(ts, j, Keyword::Contains) {
        if tok_at(ts, j + 1) == Some(TokenView::OpenBracket) {
            None
        } else {
            match additive(ts, j + 1) {
                Some((r, k)) => Some((ExprView::Contains(Box::new(l), Box::new(r)), k)),
                None => None,
            }
        }
    } else {
        Some((l, j))
    }
}

/// `comparison := additive (predicate)?`
pub open spec fn comparison(ts: Seq<TokenView>, i: int) -> Option<(ExprView, int)>
    decreases ts.len() - i, 5int,
{
    match additive(ts, i) {
        Some((l, j)) => comparison_tail(ts, i, l, j),
        None => None,
    }
}

/// `not_expr := ["not"] comparison`
pub open spec fn not_expr(ts: Seq<TokenView>, i: int) -> Option<(ExprView, int)>
    decreases ts.len() - i, 6int,
{
    if kw_at(ts, i, Keyword::Not) {
        match comparison(ts, i + 1) {
            Some((e, j)) => Some((ExprView::Not(Box::new(e)), j)),
            None => None,
        }
    } else {
        comparison(ts, i)
    }
}

/// `and_expr := not_expr ("and" not_expr)*`
pub open spec fn and_expr(ts: Seq<TokenView>, i: int) -> Option<(ExprView, int)>
    decreases ts.len() - i, 7int,
{
    match not_expr(ts, i) {
        Some((e, j)) => if advanced(ts, i, j) {
            and_rest(ts, j, e)
        } else {
            None
        },
        None => None,
    }
}

pub open spec fn and_rest(ts: Seq<TokenView>, i: int, lhs: ExprView) -> Option<(ExprView, int)>
    decreases ts.len() - i, 7int,
{
    if kw_at(ts, i, Keyword::And) {
        match not_expr(ts, i + 1) {
            Some((r, k)) => if advanced(ts, i, k) {
                and_rest(ts, k, ExprView::And(Box::new(lhs), Box::new(r)))
            } else {
                None
            },
            None => None,
        }
    } else {
        Some((lhs, i))
    }
}

/// `or_expr := and_expr ("or" and_expr)*`
pub open spec fn or_expr(ts: Seq<TokenView>, i: int) -> Option<(ExprView, int)>
    decreases ts.len() - i, 8int,
{
    match and_expr(ts, i) {
        Some((e, j)) => if advanced(ts, i, j) {
            or_rest(ts, j, e)
        } else {
            None
        },
        None => None,
    }
}

pub open spec fn or_rest(ts: Seq<TokenView>, i: int, lhs: ExprView) -> Option<(ExprView, int)>
    decreases ts.len() - i, 8int,
{
    if kw_at(ts, i, Keyword::Or) {
        match and_expr(ts, i + 1) {
            Some((r, k)) => if advanced(ts, i, k) {
                or_rest(ts, k, ExprView::Or(Box::new(lhs), Box::new(r)))
            } else {
                None
            },
            None => None,
        }
    } else {
        Some((lhs, i))
    }
}

/// The items of a bracketed list from `i` (after `[`), appended to `acc`.
pub open spec fn list_rest(ts: Seq<TokenView>, i: int, acc: Seq<ExprView>) -> Option<
    (Seq<ExprView>, int),
>
    decreases ts.len() - i, 9int,
{
    match additive(ts, i) {
        Some((x, j)) => if !advanced(ts, i, j) {
            None
        } else if tok_at(ts, j) == Some(TokenView::Comma) {
            list_rest(ts, j + 1, acc.push(x))
        } else if tok_at(ts, j) == Some(TokenView::CloseBracket) {
            Some((acc.push(x), j + 1))
        } else {
            None
        },
        None => None,
    }
}

/// `list := "[" (additive ("," additive)*)? "]"`, from after the `[`.
pub open spec fn list_items(ts: Seq<TokenView>, i: int) -> Option<(Seq<ExprView>, int)>
    decreases ts.len() - i, 10int,
{
    if tok_at(ts, i) == Some(TokenView::CloseBracket) {
        Some((seq![], i + 1))
    } else {
        list_rest(ts, i, seq![])
    }
}

/// `order_item ("," order_item)*` from `i`, appended to `acc`.
pub open spec fn order_items(ts: Seq<TokenView>, i: int, acc: Seq<OrderItemView>) -> Option<
    (Seq<OrderItemView>, int),
>
    decreases ts.len() - i,
{
    match path_at(ts, i) {
        Some((p, j)) => {
            let desc = kw_at(ts, j, Keyword::Desc);
            let k = if desc || kw_at(ts, j, Keyword::Asc) {
                j + 1
            } else {
                j
            };
            let acc2 = acc.push(OrderItemView { path: p, descending: desc });
            if tok_at(ts, k) == Some(TokenView::Comma) {
                if advanced(ts, i, k + 1) {
                    order_items(ts, k + 1, acc2)
                } else {
                    None
                }
            } else {
                Some((acc2, k))
            }
        },
        None => None,
    }
}

/// `path ("," path)*` from `i`, appended to `acc`.
pub open spec fn path_list(ts: Seq<TokenView>, i: int, acc: Seq<PathView>) -> Option<
    (Seq<PathView>, int),
>
    decreases ts.len() - i,
{
    match path_at(ts, i) {
        Some((p, j)) => if tok_at(ts, j) == Some(TokenView::Comma) {
            if advanced(ts, i, j + 1) {
                path_list(ts, j + 1, acc.push(p))
            } else {
                None
            }
        } else {
            Some((acc.push(p), j))
        },
        None => None,
    }
}

/// An optional `where` clause at `i`.
pub open spec fn where_clause(ts: Seq<TokenView>, i: int) -> Option<(Option<ExprView>, int)> {
    if kw_at(ts, i, Keyword::Where) {
        match or_expr(ts, i + 1) {
            Some((e, j)) => Some((Some(e), j)),
            None => None,
        }
    } else {
        Some((None, i))
    }
}

/// An optional `order` clause at `i`.
pub open spec fn order_clause(ts: Seq<TokenView>, i: int) -> Option<(Seq<OrderItemView>, int)> {
    if kw_at(ts, i, Keyword::Order) {
        order_items(ts, i + 1, seq![])
    } else {
        Some((seq![], i))
    }
}

/// An optional clause `k <count>` at `i` (`skip`, `limit`).
pub open spec fn count_clause(ts: Seq<TokenView>, i: int, k: Keyword) -> Option<
    (Option<u64>, int),
> {
    if kw_at(ts, i, k) {
        match tok_at(ts, i + 1) {
            Some(TokenView::Number(t)) => match count_value(t) {
                Some(n) => Some((Some(n as u64), i + 2)),
                None => None,
            },
            _ => None,
        }
    } else {
        Some((None, i))
    }
}

/// An optional `returning` clause at `i`.
pub open spec fn returning_clause(ts: Seq<TokenView>, i: int) -> Option<
    (Option<Seq<PathView>>, int),
> {
    if kw_at(ts, i, Keyword::Returning) {
        match path_list(ts, i + 1, seq![]) {
            Some((ps, j)) => Some((Some(ps), j)),
            None => None,
        }
    } else {
        Some((None, i))
    }
}

/// The query that a token sequence spells: its clauses in their fixed
/// order, each at most once, and nothing after them.
pub open spec fn query_of(ts: Seq<TokenView>) -> Option<QueryView> {
    match where_clause(ts, 0) {
        None => None,
        Some((filter, i1)) => match order_clause(ts, i1) {
            None => None,
            Some((order, i2)) => match count_clause(ts, i2, Keyword::Skip) {
                None => None,
                Some((skip, i3)) => match count_clause(ts, i3, Keyword::Limit) {
                    None => None,
                    Some((limit, i4)) => match returning_clause(ts, i4) {
                        None => None,
                        Some((returning, i5)) => if i5 == ts.len() {
                            Some(
                                QueryView {
                                    filter: filter,
                                    order: order,
                                    skip: skip,
                                    limit: limit,
                                    returning: returning,
                                },
                            )
                        } else {
                            None
                        },
                    },
                },
            },
        },
    }
}


/// A syntax error: what was expected, what was found, and the index of the
/// token where it was found.
#[derive(Debug, Clone, PartialEq)]
pub struct ParseError {
    pub message: String,
    pub position: usize,
}

/// Why query text could not be compiled.
#[derive(Debug, Clone, PartialEq)]
pub enum QueryError {
    Lex(LexError),
    Parse(ParseError),
}

/// Whether an executable parse result is the one the rule gives.
pub open spec fn agrees<T: View>(r: Result<(T, usize), ParseError>, s: Option<(T::V, int)>) -> bool {
    match r {
        Ok((x, k)) => s == Some((x@, k as int)),
        Err(_) => s is None,
    }
}

pub open spec fn list_agrees(r: Result<(Vec<Expr>, usize), ParseError>, s: Option<(Seq<ExprView>, int)>) -> bool {
    match r {
        Ok((xs, k)) => s == Some((exprs_view(xs@, 0), k as int)),
        Err(_) => s is None,
    }
}

/// Relies on `format!`: what was expected and what was found.
#[verifier::external_body]
fn expected_message(expected: &str, found: &str) -> String {
    format!("expected {expected}, found {found}")
}

/// The error for a token at `i` that is not what the rule expects.
fn fail(toks: &Vec<Token>, i: usize, expected: &str) -> ParseError {
    let found = if i < toks.len() {
        toks[i].to_string()
    } else {
        "end of query".to_string()
    };
    ParseError { message: expected_message(expected, found.as_str()), position: i }
}

fn kw_is(toks: &Vec<Token>, i: usize, k: Keyword) -> (r: bool)
    ensures
        r == kw_at(views(toks@), i as int, k),
{
    if i < toks.len() {
        match &toks[i] {
            Token::Keyword(x) => *x == k,
            _ => false,
        }
    } else {
        false
    }
}

fn at_dot(toks: &Vec<Token>, i: usize) -> (r: bool)
    ensures
        r == (tok_at(views(toks@), i as int) == Some(TokenView::Dot)),
{
    i < toks.len() && matches!(toks[i], Token::Dot)
}

fn at_comma(toks: &Vec<Token>, i: usize) -> (r: bool)
    ensures
        r == (tok_at(views(toks@), i as int) == Some(TokenView::Comma)),
{
    i < toks.len() && matches!(toks[i], Token::Comma)
}

fn at_open_bracket(toks: &Vec<Token>, i: usize) -> (r: bool)
    ensures
        r == (tok_at(views(toks@), i as int) == Some(TokenView::OpenBracket)),
{
    i < toks.len() && matches!(toks[i], Token::OpenBracket)
}

fn at_close_bracket(toks: &Vec<Token>, i: usize) -> (r: bool)
    ensures
        r == (tok_at(views(toks@), i as int) == Some(TokenView::CloseBracket)),
{
    i < toks.len() && matches!(toks[i], Token::CloseBracket)
}

fn at_close_paren(toks: &Vec<Token>, i: usize) -> (r: bool)
    ensures
        r == (tok_at(views(toks@), i as int) == Some(TokenView::CloseParen)),
{
    i < toks.len() && matches!(toks[i], Token::CloseParen)
}

fn at_colon_colon(toks: &Vec<Token>, i: usize) -> (r: bool)
    ensures
        r == (tok_at(views(toks@), i as int) == Some(TokenView::ColonColon)),
{
    i < toks.len() && matches!(toks[i], Token::ColonColon)
}

/// The name of an identifier token at `i`.
fn ident_at(toks: &Vec<Token>, i: usize) -> (r: Option<String>)
    ensures
        match r {
            Some(n) => tok_at(views(toks@), i as int) == Some(TokenView::Ident(n@)),
            None => !(tok_at(views(toks@), i as int) matches Some(TokenView::Ident(_))),
        },
{
    if i < toks.len() {
        match &toks[i] {
            Token::Ident(n) => Some(n.clone()),
            _ => None,
        }
    } else {
        None
    }
}

fn cmp_op_at(toks: &Vec<Token>, i: usize) -> (r: Option<CmpOp>)
    ensures
        r == cmp_op_of(tok_at(views(toks@), i as int)),
{
    if i >= toks.len() {
        return None;
    }
    match &toks[i] {
        Token::Equal => Some(CmpOp::Eq),
        Token::NotEqual => Some(CmpOp::Ne),
        Token::GreaterThan => Some(CmpOp::Gt),
        Token::GreaterThanOrEqual => Some(CmpOp::Ge),
        Token::LessThan => Some(CmpOp::Lt),
        Token::LessThanOrEqual => Some(CmpOp::Le),
        _ => None,
    }
}

fn add_op_at(toks: &Vec<Token>, i: usize) -> (r: Option<ArithOp>)
    ensures
        r == add_op_of(tok_at(views(toks@), i as int)),
{
    if i >= toks.len() {
        return None;
    }
    match &toks[i] {
        Token::Plus => Some(ArithOp::Add),
        Token::Minus => Some(ArithOp::Sub),
        _ => None,
    }
}

fn mul_op_at(toks: &Vec<Token>, i: usize) -> (r: Option<ArithOp>)
    ensures
        r == mul_op_of(tok_at(views(toks@), i as int)),
{
    if i >= toks.len() {
        return None;
    }
    match &toks[i] {
        Token::Asterisk => Some(ArithOp::Mul),
        Token::Slash => Some(ArithOp::Div),
        Token::Percent => Some(ArithOp::Rem),
        _ => None,
    }
}

/// Appends the `.name` parts of a dotted path at `i` to `acc`.
fn parse_path_rest(toks: &Vec<Token>, i: usize, acc: String) -> (r: (String, usize))
    requires
        i <= toks@.len(),
        toks@.len() < usize::MAX - 2,
    ensures
        (r.0@, r.1 as int) == path_rest(views(toks@), i as int, acc@),
        r.1 <= toks@.len(),
{
    let ghost tv = views(toks@);
    let mut name = acc;
    let mut j = i;
    loop
        invariant
            tv == views(toks@),
            toks@.len() < usize::MAX - 2,
            j <= toks@.len(),
            path_rest(tv, i as int, acc@) == path_rest(tv, j as int, name@),
        decreases toks@.len() - j,
    {
        if j + 1 < toks.len() && at_dot(toks, j) {
            match ident_at(toks, j + 1) {
                Some(part) => {
                    let dot = string_from_chars(&['.']);
                    assert(dot@ =~= seq!['.']);
                    name = name.concat(dot.as_str()).concat(part.as_str());
                    j = j + 2;
                },
                None => return (name, j),
            }
        } else {
            return (name, j);
        }
    }
}

/// `path := ["^" | "^^"] ident ("." ident)*`
fn parse_path(toks: &Vec<Token>, i: usize) -> (r: Result<(Path, usize), ParseError>)
    requires
        i <= toks@.len(),
        toks@.len() < usize::MAX - 2,
    ensures
        agrees(r, path_at(views(toks@), i as int)),
        r matches Ok((_, j)) ==> j <= toks@.len(),
{
    if i >= toks.len() {
        return Err(fail(toks, i, "a field path"));
    }
    match &toks[i] {
        Token::Ident(n) => {
            let (name, j) = parse_path_rest(toks, i + 1, n.clone());
            Ok((Path { scope: Scope::Own, name }, j))
        },
        Token::ParentRef(n) => Ok((Path { scope: Scope::Parent, name: n.clone() }, i + 1)),
        Token::GrandparentRef(n) => Ok(
            (Path { scope: Scope::Grandparent, name: n.clone() }, i + 1),
        ),
        _ => Err(fail(toks, i, "a field path")),
    }
}

/// `("::" ident)*` after the operand `e`, whose tokens end at `i`.
fn parse_cast_rest(toks: &Vec<Token>, i: usize, e: Expr) -> (r: Result<(Expr, usize), ParseError>)
    requires
        i <= toks@.len(),
        toks@.len() < usize::MAX - 2,
    ensures
        agrees(r, cast_rest(views(toks@), i as int, e@)),
        r matches Ok((_, j)) ==> j <= toks@.len(),
{
    let ghost tv = views(toks@);
    let ghost e0 = e@;
    let mut cur = e;
    let mut j = i;
    loop
        invariant
            tv == views(toks@),
            toks@.len() < usize::MAX - 2,
            j <= toks@.len(),
            e0 == e@,
            cast_rest(tv, i as int, e0) == cast_rest(tv, j as int, cur@),
        decreases toks@.len() - j,
    {
        if !at_colon_colon(toks, j) {
            return Ok((cur, j));
        }
        match ident_at(toks, j + 1) {
            Some(ty) => {
                cur = Expr::Cast(Box::new(cur), ty);
                j = j + 2;
            },
            None => return Err(fail(toks, j + 1, "a type name")),
        }
    }
}

/// Literals, paths, variables, `( expr )` and `[ list ]`.
fn parse_primary(toks: &Vec<Token>, i: usize) -> (r: Result<(Expr, usize), ParseError>)
    requires
        i <= toks@.len(),
        toks@.len() < usize::MAX - 2,
    ensures
        agrees(r, primary(views(toks@), i as int)),
        r matches Ok((_, j)) ==> j <= toks@.len(),
    decreases toks@.len() - i, 0int,
{
    if i >= toks.len() {
        return Err(fail(toks, i, "an operand"));
    }
    match &toks[i] {
        Token::Number(t) => {
            let chars = crate::lexer::chars_of(t.as_str());
            match parse_number(chars.as_slice()) {
                Some(u) => Ok((Expr::Literal(Value::Number(u)), i + 1)),
                None => Err(fail(toks, i, "a number of at most twelve digits and six decimals")),
            }
        },
        Token::String(s) => Ok((Expr::Literal(Value::String(s.clone())), i + 1)),
        Token::Keyword(Keyword::True) => Ok((Expr::Literal(Value::Bool(true)), i + 1)),
        Token::Keyword(Keyword::False) => Ok((Expr::Literal(Value::Bool(false)), i + 1)),
        Token::Keyword(Keyword::Null) => Ok((Expr::Literal(Value::Null), i + 1)),
        Token::Variable(n) => Ok((Expr::Variable(n.clone()), i + 1)),
        Token::Ident(_) | Token::ParentRef(_) | Token::GrandparentRef(_) => {
            let (p, j) = match parse_path(toks, i) {
                Ok(x) => x,
                Err(e) => return Err(e),
            };
            Ok((Expr::Field(p), j))
        },
        Token::OpenParen => {
            let (e, j) = match parse_or(toks, i + 1) {
                Ok(x) => x,
                Err(e) => return Err(e),
            };
            if at_close_paren(toks, j) {
                Ok((e, j + 1))
            } else {
                Err(fail(toks, j, "')'"))
            }
        },
        Token::OpenBracket => {
            let (xs, j) = match parse_list_items(toks, i + 1) {
                Ok(x) => x,
                Err(e) => return Err(e),
            };
            Ok((Expr::List(xs), j))
        },
        _ => Err(fail(toks, i, "an operand")),
    }
}

/// `cast := primary ("::" ident)*`
fn parse_cast(toks: &Vec<Token>, i: usize) -> (r: Result<(Expr, usize), ParseError>)
    requires
        i <= toks@.len(),
        toks@.len() < usize::MAX - 2,
    ensures
        agrees(r, cast(views(toks@), i as int)),
        r matches Ok((_, j)) ==> j <= toks@.len(),
    decreases toks@.len() - i, 1int,
{
    match parse_primary(toks, i) {
        Ok((e, j)) => parse_cast_rest(toks, j, e),
        Err(e) => Err(e),
    }
}

/// `multiplicative := cast (("*" | "/" | "%") cast)*`
fn parse_mult(toks: &Vec<Token>, i: usize) -> (r: Result<(Expr, usize), ParseError>)
    requires
        i <= toks@.len(),
        toks@.len() < usize::MAX - 2,
    ensures
        agrees(r, mult(views(toks@), i as int)),
        r matches Ok((_, j)) ==> j <= toks@.len(),
    decreases toks@.len() - i, 2int,
{
    let ghost tv = views(toks@);
    let (mut lhs, mut j) = match parse_cast(toks, i) {
        Ok(x) => x,
        Err(e) => return Err(e),
    };
    if !(i < j) {
        return Err(fail(toks, i, "an operand"));
    }
    loop
        invariant
            tv == views(toks@),
            toks@.len() < usize::MAX - 2,
            i < j <= toks@.len(),
            mult(tv, i as int) == mult_rest(tv, j as int, lhs@),
        decreases toks@.len() - j,
    {
        match mul_op_at(toks, j) {
            Some(op) => {
                let (rhs, k) = match parse_cast(toks, j + 1) {
                    Ok(x) => x,
                    Err(e) => return Err(e),
                };
                if !(j < k) {
                    return Err(fail(toks, j + 1, "an operand"));
                }
                lhs = Expr::Arith(op, Box::new(lhs), Box::new(rhs));
                j = k;
            },
            None => return Ok((lhs, j)),
        }
    }
}

/// `additive := multiplicative (("+" | "-") multiplicative)*`
fn parse_additive(toks: &Vec<Token>, i: usize) -> (r: Result<(Expr, usize), ParseError>)
    requires
        i <= toks@.len(),
        toks@.len() < usize::MAX - 2,
    ensures
        agrees(r, additive(views(toks@), i as int)),
        r matches Ok((_, j)) ==> j <= toks@.len(),
    decreases toks@.len() - i, 3int,
{
    let ghost tv = views(toks@);
    let (mut lhs, mut j) = match parse_mult(toks, i) {
        Ok(x) => x,
        Err(e) => return Err(e),
    };
    if !(i < j) {
        return Err(fail(toks, i, "an operand"));
    }
    loop
        invariant
            tv == views(toks@),
            toks@.len() < usize::MAX - 2,
            i < j <= toks@.len(),
            additive(tv, i as int) == additive_rest(tv, j as int, lhs@),
        decreases toks@.len() - j,
    {
        match add_op_at(toks, j) {
            Some(op) => {
                let (rhs, k) = match parse_mult(toks, j + 1) {
                    Ok(x) => x,
                    Err(e) => return Err(e),
                };
                if !(j < k) {
                    return Err(fail(toks, j + 1, "an operand"));
                }
                lhs = Expr::Arith(op, Box::new(lhs), Box::new(rhs));
                j = k;
            },
            None => return Ok((lhs, j)),
        }
    }
}

/// `comparison := additive (predicate)?`
fn parse_comparison(toks: &Vec<Token>, i: usize) -> (r: Result<(Expr, usize), ParseError>)
    requires
        i <= toks@.len(),
        toks@.len() < usize::MAX - 2,
    ensures
        agrees(r, comparison(views(toks@), i as int)),
        r matches Ok((_, j)) ==> j <= toks@.len(),
    decreases toks@.len() - i, 5int,
{
    let (l, j) = match parse_additive(toks, i) {
        Ok(x) => x,
        Err(e) => return Err(e),
    };
    if !(i < j) {
        return Err(fail(toks, i, "an operand"));
    }
    if let Some(op) = cmp_op_at(toks, j) {
        let (rhs, k) = match parse_additive(toks, j + 1) {
            Ok(x) => x,
            Err(e) => return Err(e),
        };
        return Ok((Expr::Compare(op, Box::new(l), Box::new(rhs)), k));
    }
    let is_in = kw_is(toks, j, Keyword::In);
    let is_any = kw_is(toks, j, Keyword::ContainsAny);
    let is_all = kw_is(toks, j, Keyword::ContainsAll);
    if is_in || is_any || is_all {
        if !at_open_bracket(toks, j + 1) {
            return Err(fail(toks, j + 1, "'['"));
        }
        let (xs, k) = match parse_list_items(toks, j + 2) {
            Ok(x) => x,
            Err(e) => return Err(e),
        };
        let e = if is_in {
            Expr::In(Box::new(l), xs)
        } else if is_any {
            Expr::ContainsAny(Box::new(l), xs)
        } else {
            Expr::ContainsAll(Box::new(l), xs)
        };
        return Ok((e, k));
    }
    if kw_is(toks, j, Keyword::Between) {
        let (lo, k) = match parse_additive(toks, j + 1) {
            Ok(x) => x,
            Err(e) => return Err(e),
        };
        if !(j < k && kw_is(toks, k, Keyword::And)) {
            return Err(fail(toks, k, "'and'"));
        }
        let (hi, m) = match parse_additive(toks, k + 1) {
            Ok(x) => x,
            Err(e) => return Err(e),
        };
        return Ok((Expr::Between(Box::new(l), Box::new(lo), Box::new(hi)), m));
    }
    let is_like = kw_is(toks, j, Keyword::Like);
    if is_like || kw_is(toks, j, Keyword::Regex) {
        if j + 1 < toks.len() {
            if let Token::String(p) = &toks[j + 1] {
                let e = if is_like {
                    Expr::Like(Box::new(l), p.clone())
                } else {
                    Expr::Regex(Box::new(l), p.clone())
                };
                return Ok((e, j + 2));
            }
        }
        return Err(fail(toks, j + 1, "a string pattern"));
    }
    if kw_is(toks, j, Keyword::Is) {
        if kw_is(toks, j + 1, Keyword::Null) {
            return Ok((Expr::IsNull(Box::new(l)), j + 2));
        }
        return Err(fail(toks, j + 1, "'null'"));
    }
    if kw_is(toks, j, Keyword::Exists) {
        return Ok((Expr::Exists(Box::new(l)), j + 1));
    }
    if kw_is(toks, j, Keyword::Contains) {
        if at_open_bracket(toks, j + 1) {
            return Err(fail(toks, j + 1, "a single value (use containsAny or containsAll for a list)"));
        }
        let (rhs, k) = match parse_additive(toks, j + 1) {
            Ok(x) => x,
            Err(e) => return Err(e),
        };
        return Ok((Expr::Contains(Box::new(l), Box::new(rhs)), k));
    }
    Ok((l, j))
}

/// `not_expr := ["not"] comparison`
fn parse_not(toks: &Vec<Token>, i: usize) -> (r: Result<(Expr, usize), ParseError>)
    requires
        i <= toks@.len(),
        toks@.len() < usize::MAX - 2,
    ensures
        agrees(r, not_expr(views(toks@), i as int)),
        r matches Ok((_, j)) ==> j <= toks@.len(),
    decreases toks@.len() - i, 6int,
{
    if kw_is(toks, i, Keyword::Not) {
        match parse_comparison(toks, i + 1) {
            Ok((e, j)) => Ok((Expr::Not(Box::new(e)), j)),
            Err(e) => Err(e),
        }
    } else {
        parse_comparison(toks, i)
    }
}

/// `and_expr := not_expr ("and" not_expr)*`
fn parse_and(toks: &Vec<Token>, i: usize) -> (r: Result<(Expr, usize), ParseError>)
    requires
        i <= toks@.len(),
        toks@.len() < usize::MAX - 2,
    ensures
        agrees(r, and_expr(views(toks@), i as int)),
        r matches Ok((_, j)) ==> j <= toks@.len(),
    decreases toks@.len() - i, 7int,
{
    let ghost tv = views(toks@);
    let (mut lhs, mut j) = match parse_not(toks, i) {
        Ok(x) => x,
        Err(e) => return Err(e),
    };
    if !(i < j) {
        return Err(fail(toks, i, "an expression"));
    }
    loop
        invariant
            tv == views(toks@),
            toks@.len() < usize::MAX - 2,
            i < j <= toks@.len(),
            and_expr(tv, i as int) == and_rest(tv, j as int, lhs@),
        decreases toks@.len() - j,
    {
        if !kw_is(toks, j, Keyword::And) {
            return Ok((lhs, j));
        }
        let (rhs, k) = match parse_not(toks, j + 1) {
            Ok(x) => x,
            Err(e) => return Err(e),
        };
        if !(j < k) {
            return Err(fail(toks, j + 1, "an expression"));
        }
        lhs = Expr::And(Box::new(lhs), Box::new(rhs));
        j = k;
    }
}

/// `or_expr := and_expr ("or" and_expr)*`
fn parse_or(toks: &Vec<Token>, i: usize) -> (r: Result<(Expr, usize), ParseError>)
    requires
        i <= toks@.len(),
        toks@.len() < usize::MAX - 2,
    ensures
        agrees(r, or_expr(views(toks@), i as int)),
        r matches Ok((_, j)) ==> j <= toks@.len(),
    decreases toks@.len() - i, 8int,
{
    let ghost tv = views(toks@);
    let (mut lhs, mut j) = match parse_and(toks, i) {
        Ok(x) => x,
        Err(e) => return Err(e),
    };
    if !(i < j) {
        return Err(fail(toks, i, "an expression"));
    }
    loop
        invariant
            tv == views(toks@),
            toks@.len() < usize::MAX - 2,
            i < j <= toks@.len(),
            or_expr(tv, i as int) == or_rest(tv, j as int, lhs@),
        decreases toks@.len() - j,
    {
        if !kw_is(toks, j, Keyword::Or) {
            return Ok((lhs, j));
        }
        let (rhs, k) = match parse_and(toks, j + 1) {
            Ok(x) => x,
            Err(e) => return Err(e),
        };
        if !(j < k) {
            return Err(fail(toks, j + 1, "an expression"));
        }
        lhs = Expr::Or(Box::new(lhs), Box::new(rhs));
        j = k;
    }
}

/// The items of a bracketed list, from after the `[` to after the `]`.
fn parse_list_items(toks: &Vec<Token>, i: usize) -> (r: Result<(Vec<Expr>, usize), ParseError>)
    requires
        i <= toks@.len(),
        toks@.len() < usize::MAX - 2,
    ensures
        list_agrees(r, list_items(views(toks@), i as int)),
        r matches Ok((_, j)) ==> j <= toks@.len(),
    decreases toks@.len() - i, 10int,
{
    let ghost tv = views(toks@);
    let mut acc: Vec<Expr> = Vec::new();
    if at_close_bracket(toks, i) {
        assert(exprs_view(acc@, 0) =~= seq![]);
        return Ok((acc, i + 1));
    }
    let mut j = i;
    assert(exprs_view(acc@, 0) =~= seq![]);
    loop
        invariant
            tv == views(toks@),
            toks@.len() < usize::MAX - 2,
            i <= j <= toks@.len(),
            list_items(tv, i as int) == list_rest(tv, j as int, exprs_view(acc@, 0)),
        decreases toks@.len() - j,
    {
        let (x, k) = match parse_additive(toks, j) {
            Ok(x) => x,
            Err(e) => return Err(e),
        };
        if !(j < k) {
            return Err(fail(toks, j, "a list item"));
        }
        proof {
            lemma_exprs_view_push(acc@, x);
        }
        if at_comma(toks, k) {
            acc.push(x);
            j = k + 1;
        } else if at_close_bracket(toks, k) {
            acc.push(x);
            return Ok((acc, k + 1));
        } else {
            return Err(fail(toks, k, "',' or ']'"));
        }
    }
}


/// `order_item ("," order_item)*`
fn parse_order_items(toks: &Vec<Token>, i: usize) -> (r: Result<(Vec<OrderItem>, usize), ParseError>)
    requires
        i <= toks@.len(),
        toks@.len() < usize::MAX - 2,
    ensures
        match r {
            Ok((items, k)) => order_items(views(toks@), i as int, seq![]) == Some(
                (order_views(items@), k as int),
            ) && k <= toks@.len(),
            Err(_) => order_items(views(toks@), i as int, seq![]) is None,
        },
{
    let ghost tv = views(toks@);
    let mut items: Vec<OrderItem> = Vec::new();
    let mut j = i;
    assert(order_views(items@) =~= seq![]);
    loop
        invariant
            tv == views(toks@),
            toks@.len() < usize::MAX - 2,
            j <= toks@.len(),
            order_items(tv, i as int, seq![]) == order_items(tv, j as int, order_views(items@)),
        decreases toks@.len() - j,
    {
        let (path, p_end) = match parse_path(toks, j) {
            Ok(x) => x,
            Err(e) => return Err(e),
        };
        let desc = kw_is(toks, p_end, Keyword::Desc);
        let k = if desc || kw_is(toks, p_end, Keyword::Asc) {
            p_end + 1
        } else {
            p_end
        };
        let ghost before = order_views(items@);
        items.push(OrderItem { path, descending: desc });
        assert(order_views(items@) =~= before.push(items@.last()@));
        if at_comma(toks, k) {
            if !(j < k + 1 && k + 1 <= toks.len()) {
                return Err(fail(toks, k, "an order key"));
            }
            j = k + 1;
        } else {
            return Ok((items, k));
        }
    }
}

/// `path ("," path)*`
fn parse_path_list(toks: &Vec<Token>, i: usize) -> (r: Result<(Vec<Path>, usize), ParseError>)
    requires
        i <= toks@.len(),
        toks@.len() < usize::MAX - 2,
    ensures
        match r {
            Ok((paths, k)) => path_list(views(toks@), i as int, seq![]) == Some(
                (path_views(paths@), k as int),
            ) && k <= toks@.len(),
            Err(_) => path_list(views(toks@), i as int, seq![]) is None,
        },
{
    let ghost tv = views(toks@);
    let mut paths: Vec<Path> = Vec::new();
    let mut j = i;
    assert(path_views(paths@) =~= seq![]);
    loop
        invariant
            tv == views(toks@),
            toks@.len() < usize::MAX - 2,
            j <= toks@.len(),
            path_list(tv, i as int, seq![]) == path_list(tv, j as int, path_views(paths@)),
        decreases toks@.len() - j,
    {
        let (path, k) = match parse_path(toks, j) {
            Ok(x) => x,
            Err(e) => return Err(e),
        };
        let ghost before = path_views(paths@);
        paths.push(path);
        assert(path_views(paths@) =~= before.push(paths@.last()@));
        if at_comma(toks, k) {
            if !(j < k + 1 && k + 1 <= toks.len()) {
                return Err(fail(toks, k, "a field path"));
            }
            j = k + 1;
        } else {
            return Ok((paths, k));
        }
    }
}

/// An optional clause `k <count>` at `i`.
fn parse_count_clause(toks: &Vec<Token>, i: usize, k: Keyword) -> (r: Result<
    (Option<u64>, usize),
    ParseError,
>)
    requires
        i <= toks@.len(),
        toks@.len() < usize::MAX - 2,
    ensures
        match r {
            Ok((n, j)) => count_clause(views(toks@), i as int, k) == Some((n, j as int)) && j
                <= toks@.len(),
            Err(_) => count_clause(views(toks@), i as int, k) is None,
        },
{
    if !kw_is(toks, i, k) {
        return Ok((None, i));
    }
    if i + 1 < toks.len() {
        if let Token::Number(t) = &toks[i + 1] {
            let chars = crate::lexer::chars_of(t.as_str());
            return match parse_count(chars.as_slice()) {
                Some(n) => Ok((Some(n), i + 2)),
                None => Err(fail(toks, i + 1, "a non-negative whole number")),
            };
        }
    }
    Err(fail(toks, i + 1, "a non-negative whole number"))
}

/// Builds the query that a token sequence spells.
pub fn parse_tokens(toks: &Vec<Token>) -> (r: Result<Query, ParseError>)
    requires
        toks@.len() < usize::MAX - 2,
    ensures
        match r {
            Ok(q) => query_of(views(toks@)) == Some(q@),
            Err(_) => query_of(views(toks@)) is None,
        },
{
    let ghost tv = views(toks@);
    let (filter, i1) = if kw_is(toks, 0, Keyword::Where) {
        match parse_or(toks, 1) {
            Ok((e, j)) => (Some(e), j),
            Err(e) => return Err(e),
        }
    } else {
        (None, 0)
    };
    assert(where_clause(tv, 0) == Some(
        (
            match filter {
                Some(e) => Some(e@),
                None => None,
            },
            i1 as int,
        ),
    ));
    let (order, i2) = if kw_is(toks, i1, Keyword::Order) {
        match parse_order_items(toks, i1 + 1) {
            Ok(x) => x,
            Err(e) => return Err(e),
        }
    } else {
        let v: Vec<OrderItem> = Vec::new();
        assert(order_views(v@) =~= seq![]);
        (v, i1)
    };
    let (skip, i3) = match parse_count_clause(toks, i2, Keyword::Skip) {
        Ok(x) => x,
        Err(e) => return Err(e),
    };
    let (limit, i4) = match parse_count_clause(toks, i3, Keyword::Limit) {
        Ok(x) => x,
        Err(e) => return Err(e),
    };
    let (returning, i5) = if kw_is(toks, i4, Keyword::Returning) {
        match parse_path_list(toks, i4 + 1) {
            Ok((ps, j)) => (Some(ps), j),
            Err(e) => return Err(e),
        }
    } else {
        (None, i4)
    };
    if i5 != toks.len() {
        return Err(fail(toks, i5, "the end of the query or a clause in order"));
    }
    let q = Query { filter, order, skip, limit, returning };
    assert(q@.order == order_views(q.order@));
    Ok(q)
}

/// Compiles query text into a query.
///
/// Fails with the lexical error of the text, if any, and else with the
/// first syntax error of its tokens.
pub fn parse(text: &str) -> (r: Result<Query, QueryError>)
    ensures
        match r {
            Ok(q) => text@.len() + 2 < usize::MAX && (lex(text@) matches Some(ts) && query_of(ts)
                == Some(q@)),
            Err(QueryError::Lex(_)) => lex(text@) is None || text@.len() + 2 >= usize::MAX,
            Err(QueryError::Parse(_)) => text@.len() + 2 < usize::MAX && (lex(text@) matches Some(
                ts,
            ) && query_of(ts) is None),
        },
{
    let toks = match tokenize(text) {
        Ok(t) => t,
        Err(e) => return Err(QueryError::Lex(e)),
    };
    proof {
        crate::lexer::lemma_lex_from_len(text@, 0, seq![]);
        assert(views(toks@).len() == toks@.len());
    }
    match parse_tokens(&toks) {
        Ok(q) => Ok(q),
        Err(e) => Err(QueryError::Parse(e)),
    }
}

} // verus!
