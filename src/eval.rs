//! Evaluation of expressions against a document and its context.
use vstd::prelude::*;
use crate::ast::{ArithOp, CmpOp, Expr, ExprView, Path, PathView, Scope, exprs_view, lemma_exprs_view};
use crate::number::{format_number, number_text, number_units, parse_number};
use crate::token::{chars_equal, string_from_chars};
use crate::value::{
    SCALE, Value, ValueView, compare_values, copy_value, kind_rank, lemma_list_view, list_view,
    value_cmp, value_eq, values_equal,
};

verus! {

/// A document: its fields, each a dotted path with a value. Where a path
/// occurs twice, the first entry counts.
#[derive(Debug, PartialEq)]
pub struct Document {
    pub fields: Vec<(String, Value)>,
}

pub open spec fn fields_view(fs: Seq<(String, Value)>) -> Seq<(Seq<char>, ValueView)> {
    fs.map_values(|f: (String, Value)| (f.0@, f.1@))
}

impl View for Document {
    type V = Seq<(Seq<char>, ValueView)>;

    open spec fn view(&self) -> Seq<(Seq<char>, ValueView)> {
        fields_view(self.fields@)
    }
}

/// What an expression is evaluated against: the document, its parent and
/// grandparent where there are any, and the values of the variables.
pub struct Context<'a> {
    pub doc: &'a Document,
    pub parent: Option<&'a Document>,
    pub grandparent: Option<&'a Document>,
    pub vars: &'a Document,
}

pub struct ContextView {
    pub doc: Seq<(Seq<char>, ValueView)>,
    pub parent: Option<Seq<(Seq<char>, ValueView)>>,
    pub grandparent: Option<Seq<(Seq<char>, ValueView)>>,
    pub vars: Seq<(Seq<char>, ValueView)>,
}

impl<'a> View for Context<'a> {
    type V = ContextView;

    open spec fn view(&self) -> ContextView {
        ContextView {
            doc: self.doc@,
            parent: match self.parent {
                Some(p) => Some(p@),
                None => None,
            },
            grandparent: match self.grandparent {
                Some(g) => Some(g@),
                None => None,
            },
            vars: self.vars@,
        }
    }
}

/// Why an evaluation failed: a value that cannot be cast to the named type,
/// or a pattern that is no regular expression.
#[derive(Debug, Clone, PartialEq)]
pub enum EvalError {
    InvalidCast(String),
    InvalidRegex(String),
}

pub enum EvalErrorView {
    InvalidCast(Seq<char>),
    InvalidRegex(Seq<char>),
}

impl View for EvalError {
    type V = EvalErrorView;

    open spec fn view(&self) -> EvalErrorView {
        match self {
            EvalError::InvalidCast(t) => EvalErrorView::InvalidCast(t@),
            EvalError::InvalidRegex(p) => EvalErrorView::InvalidRegex(p@),
        }
    }
}

/// The value at `name` in `fs` from entry `i` on; `Null` where it is absent.
pub open spec fn lookup_from(fs: Seq<(Seq<char>, ValueView)>, name: Seq<char>, i: int) -> ValueView
    decreases fs.len() - i,
{
    if i < 0 || i >= fs.len() {
        ValueView::Null
    } else if fs[i].0 == name {
        fs[i].1
    } else {
        lookup_from(fs, name, i + 1)
    }
}

pub open spec fn lookup(fs: Seq<(Seq<char>, ValueView)>, name: Seq<char>) -> ValueView {
    lookup_from(fs, name, 0)
}

/// The value a path reads: from the document, or from its parent or
/// grandparent, `Null` where that document is missing.
pub open spec fn path_value(p: PathView, c: ContextView) -> ValueView {
    match p.scope {
        Scope::Own => lookup(c.doc, p.name),
        Scope::Parent => match c.parent {
            Some(d) => lookup(d, p.name),
            None => ValueView::Null,
        },
        Scope::Grandparent => match c.grandparent {
            Some(d) => lookup(d, p.name),
            None => ValueView::Null,
        },
    }
}

pub open spec fn is_null_literal(e: ExprView) -> bool {
    e == ExprView::Literal(ValueView::Null)
}

/// A comparison of two values. `null = null` between two literal nulls is
/// true (and `!=` false); any other null operand, or operands of two kinds,
/// give `Null`.
pub open spec fn compare_result(op: CmpOp, a: ExprView, b: ExprView, x: ValueView, y: ValueView) -> ValueView {
    if is_null_literal(a) && is_null_literal(b) && (op == CmpOp::Eq || op == CmpOp::Ne) {
        ValueView::Bool(op == CmpOp::Eq)
    } else if x is Null || y is Null || kind_rank(x) != kind_rank(y) {
        ValueView::Null
    } else {
        let c = value_cmp(x, y);
        ValueView::Bool(
            match op {
                CmpOp::Eq => c == 0,
                CmpOp::Ne => c != 0,
                CmpOp::Gt => c > 0,
                CmpOp::Ge => c >= 0,
                CmpOp::Lt => c < 0,
                CmpOp::Le => c <= 0,
            },
        )
    }
}

/// `v` clamped into the range of `i64`.
pub open spec fn saturate(v: int) -> int {
    if v > i64::MAX {
        i64::MAX as int
    } else if v < i64::MIN {
        i64::MIN as int
    } else {
        v
    }
}

pub open spec fn abs(v: int) -> int {
    if v < 0 {
        -v
    } else {
        v
    }
}

/// Division truncated toward zero.
pub open spec fn trunc_div(a: int, b: int) -> int {
    if (a < 0) == (b < 0) {
        abs(a) / abs(b)
    } else {
        -(abs(a) / abs(b))
    }
}

/// Remainder of truncated division: the sign of the dividend.
pub open spec fn trunc_rem(a: int, b: int) -> int {
    if a < 0 {
        -(abs(a) % abs(b))
    } else {
        abs(a) % abs(b)
    }
}

/// Arithmetic on numbers in millionths. Results saturate at the bounds of
/// `i64`; division and remainder by zero give `Null`.
pub open spec fn arith_result(op: ArithOp, x: ValueView, y: ValueView) -> ValueView {
    match (x, y) {
        (ValueView::Number(a), ValueView::Number(b)) => match op {
            ArithOp::Add => ValueView::Number(saturate(a + b)),
            ArithOp::Sub => ValueView::Number(saturate(a - b)),
            ArithOp::Mul => ValueView::Number(saturate(trunc_div(a * b, SCALE as int))),
            ArithOp::Div => if b == 0 {
                ValueView::Null
            } else {
                ValueView::Number(saturate(trunc_div(a * SCALE as int, b)))
            },
            ArithOp::Rem => if b == 0 {
                ValueView::Null
            } else {
                ValueView::Number(trunc_rem(a, b))
            },
        },
        _ => ValueView::Null,
    }
}

/// `like` matching of `t[j..]` against `p[i..]`: `%` matches any run of
/// characters, `_` any one character, anything else itself.
pub open spec fn like_from(p: Seq<char>, i: int, t: Seq<char>, j: int) -> bool
    decreases p.len() - i, t.len() - j,
{
    if i < 0 || j < 0 || i >= p.len() {
        j == t.len()
    } else if p[i] == '%' {
        like_from(p, i + 1, t, j) || (j < t.len() && like_from(p, i, t, j + 1))
    } else if j >= t.len() {
        false
    } else if p[i] == '_' || p[i] == t[j] {
        like_from(p, i + 1, t, j + 1)
    } else {
        false
    }
}

pub open spec fn like_matches(p: Seq<char>, t: Seq<char>) -> bool {
    like_from(p, 0, t, 0)
}

/// Whether `regex::Regex::new` accepts the pattern.
pub uninterp spec fn regex_valid(p: Seq<char>) -> bool;

/// Whether the compiled pattern finds a match in the text (`Regex::is_match`).
pub uninterp spec fn regex_finds(p: Seq<char>, t: Seq<char>) -> bool;

/// Relies on `regex::Regex::new`, which fails exactly on patterns it does not
/// accept, and on `Regex::is_match`, whether the pattern matches anywhere in
/// the text.
#[verifier::external_body]
fn regex_search(pattern: &str, text: &str) -> (r: Option<bool>)
    ensures
        r is Some <==> regex_valid(pattern@),
        r matches Some(b) ==> b == regex_finds(pattern@, text@),
{
    match regex::Regex::new(pattern) {
        Ok(re) => Some(re.is_match(text)),
        Err(_) => None,
    }
}

pub open spec fn contains_value(xs: Seq<ValueView>, y: ValueView) -> bool {
    exists|k: int| 0 <= k < xs.len() && value_eq(#[trigger] xs[k], y)
}

/// Whether some non-null value of `ys` is among `items`.
pub open spec fn any_in(items: Seq<ValueView>, ys: Seq<ValueView>) -> bool {
    exists|k: int| 0 <= k < ys.len() && !(ys[k] is Null) && contains_value(items, #[trigger] ys[k])
}

/// Whether every value of `ys` is non-null and among `items`.
pub open spec fn all_in(items: Seq<ValueView>, ys: Seq<ValueView>) -> bool {
    forall|k: int| 0 <= k < ys.len() ==> !(ys[k] is Null) && contains_value(items, #[trigger] ys[k])
}

pub open spec fn word_string() -> Seq<char> {
    seq!['s', 't', 'r', 'i', 'n', 'g']
}

pub open spec fn word_number() -> Seq<char> {
    seq!['n', 'u', 'm', 'b', 'e', 'r']
}

pub open spec fn word_bool() -> Seq<char> {
    seq!['b', 'o', 'o', 'l']
}

pub open spec fn word_true() -> Seq<char> {
    seq!['t', 'r', 'u', 'e']
}

pub open spec fn word_false() -> Seq<char> {
    seq!['f', 'a', 'l', 's', 'e']
}

/// `v :: ty`. `null` casts to `null`; a string to `number` where it is a
/// number literal; a number to `string` as its decimal text; `true`/`false`
/// between strings and bools; anything else is an invalid cast.
pub open spec fn cast_result(v: ValueView, ty: Seq<char>) -> Result<ValueView, EvalErrorView> {
    let bad = Err(EvalErrorView::InvalidCast(ty));
    if ty != word_string() && ty != word_number() && ty != word_bool() {
        bad
    } else if v is Null {
        Ok(ValueView::Null)
    } else if ty == word_string() {
        match v {
            ValueView::String(s) => Ok(v),
            ValueView::Bool(b) => Ok(ValueView::String(if b { word_true() } else { word_false() })),
            ValueView::Number(n) => Ok(ValueView::String(number_text(n))),
            _ => bad,
        }
    } else if ty == word_number() {
        match v {
            ValueView::Number(_) => Ok(v),
            ValueView::String(s) => match number_units(s) {
                Some(u) => if i64::MIN <= u <= i64::MAX {
                    Ok(ValueView::Number(u))
                } else {
                    bad
                },
                None => bad,
            },
            _ => bad,
        }
    } else {
        match v {
            ValueView::Bool(_) => Ok(v),
            ValueView::String(s) => if s == word_true() {
                Ok(ValueView::Bool(true))
            } else if s == word_false() {
                Ok(ValueView::Bool(false))
            } else {
                bad
            },
            _ => bad,
        }
    }
}

/// The value of an expression in a context, or the error that stops it.
pub open spec fn eval(e: ExprView, c: ContextView) -> Result<ValueView, EvalErrorView>
    decreases e, 0int,
{
    match e {
        ExprView::Literal(v) => Ok(v),
        ExprView::Field(p) => Ok(path_value(p, c)),
        ExprView::Variable(n) => Ok(lookup(c.vars, n)),
        ExprView::List(xs) => match eval_list(xs, c, 0) {
            Ok(vs) => Ok(ValueView::List(vs)),
            Err(err) => Err(err),
        },
        ExprView::Not(a) => match eval(*a, c) {
            Ok(ValueView::Bool(b)) => Ok(ValueView::Bool(!b)),
            Ok(_) => Ok(ValueView::Null),
            Err(err) => Err(err),
        },
        ExprView::Compare(op, a, b) => match eval(*a, c) {
            Err(err) => Err(err),
            Ok(x) => match eval(*b, c) {
                Err(err) => Err(err),
                Ok(y) => Ok(compare_result(op, *a, *b, x, y)),
            },
        },
        ExprView::Arith(op, a, b) => match eval(*a, c) {
            Err(err) => Err(err),
            Ok(x) => match eval(*b, c) {
                Err(err) => Err(err),
                Ok(y) => Ok(arith_result(op, x, y)),
            },
        },
        ExprView::And(a, b) => match eval(*a, c) {
            Err(err) => Err(err),
            Ok(ValueView::Bool(false)) => Ok(ValueView::Bool(false)),
            Ok(x) => match eval(*b, c) {
                Err(err) => Err(err),
                Ok(ValueView::Bool(false)) => Ok(ValueView::Bool(false)),
                Ok(y) => if x == ValueView::Bool(true) && y == ValueView::Bool(true) {
                    Ok(ValueView::Bool(true))
                } else {
                    Ok(ValueView::Null)
                },
            },
        },
        ExprView::Or(a, b) => match eval(*a, c) {
            Err(err) => Err(err),
            Ok(ValueView::Bool(true)) => Ok(ValueView::Bool(true)),
            Ok(x) => match eval(*b, c) {
                Err(err) => Err(err),
                Ok(ValueView::Bool(true)) => Ok(ValueView::Bool(true)),
                Ok(y) => if x == ValueView::Bool(false) && y == ValueView::Bool(false) {
                    Ok(ValueView::Bool(false))
                } else {
                    Ok(ValueView::Null)
                },
            },
        },
        ExprView::In(a, xs) => match eval(*a, c) {
            Err(err) => Err(err),
            Ok(x) => match eval_list(xs, c, 0) {
                Err(err) => Err(err),
                Ok(vs) => Ok(ValueView::Bool(!(x is Null) && contains_value(vs, x))),
            },
        },
        ExprView::Between(a, lo, hi) => match eval(*a, c) {
            Err(err) => Err(err),
            Ok(x) => match eval(*lo, c) {
                Err(err) => Err(err),
                Ok(l) => match eval(*hi, c) {
                    Err(err) => Err(err),
                    Ok(h) => Ok(
                        ValueView::Bool(
                            !(x is Null) && kind_rank(x) == kind_rank(l) && kind_rank(x)
                                == kind_rank(h) && value_cmp(l, x) <= 0 && value_cmp(x, h) <= 0,
                        ),
                    ),
                },
            },
        },
        ExprView::Like(a, p) => match eval(*a, c) {
            Err(err) => Err(err),
            Ok(ValueView::String(s)) => Ok(ValueView::Bool(like_matches(p, s))),
            Ok(_) => Ok(ValueView::Bool(false)),
        },
        ExprView::Regex(a, p) => match eval(*a, c) {
            Err(err) => Err(err),
            Ok(x) => if !regex_valid(p) {
                Err(EvalErrorView::InvalidRegex(p))
            } else {
                match x {
                    ValueView::String(s) => Ok(ValueView::Bool(regex_finds(p, s))),
                    _ => Ok(ValueView::Bool(false)),
                }
            },
        },
        ExprView::IsNull(a) => match eval(*a, c) {
            Err(err) => Err(err),
            Ok(x) => Ok(ValueView::Bool(x is Null)),
        },
        ExprView::Exists(a) => match eval(*a, c) {
            Err(err) => Err(err),
            Ok(x) => Ok(ValueView::Bool(!(x is Null))),
        },
        ExprView::Contains(a, b) => match eval(*a, c) {
            Err(err) => Err(err),
            Ok(x) => match eval(*b, c) {
                Err(err) => Err(err),
                Ok(y) => Ok(
                    ValueView::Bool(
                        match x {
                            ValueView::List(items) => !(y is Null) && contains_value(items, y),
                            _ => false,
                        },
                    ),
                ),
            },
        },
        ExprView::ContainsAny(a, ys) => match eval(*a, c) {
            Err(err) => Err(err),
            Ok(x) => match eval_list(ys, c, 0) {
                Err(err) => Err(err),
                Ok(vs) => Ok(
                    ValueView::Bool(
                        match x {
                            ValueView::List(items) => any_in(items, vs),
                            _ => false,
                        },
                    ),
                ),
            },
        },
        ExprView::ContainsAll(a, ys) => match eval(*a, c) {
            Err(err) => Err(err),
            Ok(x) => match eval_list(ys, c, 0) {
                Err(err) => Err(err),
                Ok(vs) => Ok(
                    ValueView::Bool(
                        match x {
                            ValueView::List(items) => all_in(items, vs),
                            _ => false,
                        },
                    ),
                ),
            },
        },
        ExprView::Cast(a, ty) => match eval(*a, c) {
            Err(err) => Err(err),
            Ok(x) => cast_result(x, ty),
        },
    }
}

/// The values of `xs[i..]`, in order; the first error stops it.
pub open spec fn eval_list(xs: Seq<ExprView>, c: ContextView, i: int) -> Result<
    Seq<ValueView>,
    EvalErrorView,
>
    decreases xs, xs.len() - i,
{
    if i < 0 || i >= xs.len() {
        Ok(seq![])
    } else {
        match eval(xs[i], c) {
            Err(err) => Err(err),
            Ok(v) => match eval_list(xs, c, i + 1) {
                Err(err) => Err(err),
                Ok(vs) => Ok(seq![v] + vs),
            },
        }
    }
}

/// Whether a filter selects the document: it evaluates to `true`. `Null`
/// and `false` both leave the document out.
pub open spec fn selects(f: ExprView, c: ContextView) -> Result<bool, EvalErrorView> {
    match eval(f, c) {
        Ok(v) => Ok(v == ValueView::Bool(true)),
        Err(err) => Err(err),
    }
}


/// The value at `name` in the fields `d`; `Null` where it is absent.
pub fn lookup_field(d: &Document, name: &String) -> (r: Value)
    ensures
        r@ == lookup(d@, name@),
{
    let mut i: usize = 0;
    while i < d.fields.len()
        invariant
            i <= d.fields@.len(),
            lookup(d@, name@) == lookup_from(d@, name@, i as int),
            d@.len() == d.fields@.len(),
        decreases d.fields@.len() - i,
    {
        if d.fields[i].0 == *name {
            return copy_value(&d.fields[i].1);
        }
        i = i + 1;
    }
    Value::Null
}

/// The value a path reads in a context.
pub fn read_path(p: &Path, c: &Context) -> (r: Value)
    ensures
        r@ == path_value(p@, c@),
{
    match p.scope {
        Scope::Own => lookup_field(c.doc, &p.name),
        Scope::Parent => match c.parent {
            Some(d) => lookup_field(d, &p.name),
            None => Value::Null,
        },
        Scope::Grandparent => match c.grandparent {
            Some(d) => lookup_field(d, &p.name),
            None => Value::Null,
        },
    }
}

/// Whether the text matches the `like` pattern.
pub fn like_match(p: &String, t: &String) -> (r: bool)
    ensures
        r == like_matches(p@, t@),
{
    let pc = crate::lexer::chars_of(p.as_str());
    let tc = crate::lexer::chars_of(t.as_str());
    let n = tc.len();
    let ghost ps = p@;
    let ghost ts = t@;
    // next[j] == like_from(p, i + 1, t, j), for the row below the current one
    let mut next: Vec<bool> = Vec::new();
    let mut j: usize = 0;
    while j < n
        invariant
            tc@ == ts,
            n == ts.len(),
            j <= n,
            next@.len() == j,
            forall|k: int| 0 <= k < j ==> #[trigger] next@[k] == like_from(ps, ps.len() as int, ts, k),
        decreases n - j,
    {
        next.push(false);
        j = j + 1;
    }
    next.push(true);
    let mut i: usize = pc.len();
    while i > 0
        invariant
            pc@ == ps,
            tc@ == ts,
            n == ts.len(),
            i <= ps.len(),
            next@.len() == n + 1,
            forall|k: int| 0 <= k <= n ==> #[trigger] next@[k] == like_from(ps, i as int, ts, k),
        decreases i,
    {
        i = i - 1;
        let c = pc[i];
        let mut row: Vec<bool> = Vec::new();
        let mut k: usize = 0;
        while k < n
            invariant
                k <= n,
                row@.len() == k,
            decreases n - k,
        {
            row.push(true);
            k = k + 1;
        }
        row.push(true);
        let mut jj: usize = row.len();
        while jj > 0
            invariant
                pc@ == ps,
                tc@ == ts,
                n == ts.len(),
                i < ps.len(),
                c == ps[i as int],
                jj <= n + 1,
                row@.len() == n + 1,
                next@.len() == n + 1,
                forall|k: int| 0 <= k <= n ==> #[trigger] next@[k] == like_from(ps, i + 1, ts, k),
                forall|m: int| jj <= m <= n ==> #[trigger] row@[m] == like_from(ps, i as int, ts, m),
            decreases jj,
        {
            jj = jj - 1;
            let v = if c == '%' {
                next[jj] || (jj < n && row[jj + 1])
            } else if jj >= n {
                false
            } else if c == '_' || c == tc[jj] {
                next[jj + 1]
            } else {
                false
            };
            row.set(jj, v);
        }
        next = row;
    }
    next[0]
}

/// Saturates an `i128` into the range of `i64`.
fn saturate_i64(v: i128) -> (r: i64)
    ensures
        r as int == saturate(v as int),
{
    if v > i64::MAX as i128 {
        i64::MAX
    } else if v < i64::MIN as i128 {
        i64::MIN
    } else {
        v as i64
    }
}

/// `a / b` truncated toward zero, for operands well inside `i128`.
fn trunc_div_i128(a: i128, b: i128) -> (r: i128)
    requires
        b != 0,
        -0x4000_0000_0000_0000_0000_0000_0000_0000 <= a <= 0x4000_0000_0000_0000_0000_0000_0000_0000,
        -0x4000_0000_0000_0000_0000_0000_0000_0000 <= b <= 0x4000_0000_0000_0000_0000_0000_0000_0000,
    ensures
        r as int == trunc_div(a as int, b as int),
{
    let ua: u128 = if a < 0 {
        (-a) as u128
    } else {
        a as u128
    };
    let ub: u128 = if b < 0 {
        (-b) as u128
    } else {
        b as u128
    };
    let q = ua / ub;
    assert(q <= ua) by (nonlinear_arith)
        requires
            ub >= 1,
            q == ua / ub,
    ;
    if (a < 0) == (b < 0) {
        q as i128
    } else {
        -(q as i128)
    }
}

/// Arithmetic on two values.
pub fn arith(op: ArithOp, x: &Value, y: &Value) -> (r: Value)
    ensures
        r@ == arith_result(op, x@, y@),
{
    match (x, y) {
        (Value::Number(a), Value::Number(b)) => {
            let a = *a as i128;
            let b = *b as i128;
            match op {
                ArithOp::Add => Value::Number(saturate_i64(a + b)),
                ArithOp::Sub => Value::Number(saturate_i64(a - b)),
                ArithOp::Mul => {
                    assert(-0x4000_0000_0000_0000_0000_0000_0000_0000 <= a * b
                        <= 0x4000_0000_0000_0000_0000_0000_0000_0000) by (nonlinear_arith)
                        requires
                            i64::MIN <= a <= i64::MAX,
                            i64::MIN <= b <= i64::MAX,
                    ;
                    Value::Number(saturate_i64(trunc_div_i128(a * b, SCALE as i128)))
                },
                ArithOp::Div => {
                    if b == 0 {
                        Value::Null
                    } else {
                        Value::Number(saturate_i64(trunc_div_i128(a * (SCALE as i128), b)))
                    }
                },
                ArithOp::Rem => {
                    if b == 0 {
                        Value::Null
                    } else {
                        let ua: u128 = if a < 0 {
                            (-a) as u128
                        } else {
                            a as u128
                        };
                        let ub: u128 = if b < 0 {
                            (-b) as u128
                        } else {
                            b as u128
                        };
                        let m = ua % ub;
                        assert(m < ub) by (nonlinear_arith)
                            requires
                                ub >= 1,
                                m == ua % ub,
                        ;
                        if a < 0 {
                            Value::Number(-(m as i64))
                        } else {
                            Value::Number(m as i64)
                        }
                    }
                },
            }
        },
        _ => Value::Null,
    }
}

fn is_null_literal_expr(e: &Expr) -> (r: bool)
    ensures
        r == is_null_literal(e@),
{
    match e {
        Expr::Literal(Value::Null) => true,
        _ => false,
    }
}

fn is_null(v: &Value) -> (r: bool)
    ensures
        r == (v@ is Null),
{
    match v {
        Value::Null => true,
        _ => false,
    }
}

fn same_kind(x: &Value, y: &Value) -> (r: bool)
    ensures
        r == (kind_rank(x@) == kind_rank(y@)),
{
    match (x, y) {
        (Value::Null, Value::Null) => true,
        (Value::Bool(_), Value::Bool(_)) => true,
        (Value::Number(_), Value::Number(_)) => true,
        (Value::String(_), Value::String(_)) => true,
        (Value::List(_), Value::List(_)) => true,
        (Value::Reference(_), Value::Reference(_)) => true,
        _ => false,
    }
}

/// A comparison of two evaluated operands.
pub fn compare(op: CmpOp, a: &Expr, b: &Expr, x: &Value, y: &Value) -> (r: Value)
    ensures
        r@ == compare_result(op, a@, b@, x@, y@),
{
    if is_null_literal_expr(a) && is_null_literal_expr(b) && (op == CmpOp::Eq || op == CmpOp::Ne) {
        return Value::Bool(op == CmpOp::Eq);
    }
    if is_null(x) || is_null(y) || !same_kind(x, y) {
        return Value::Null;
    }
    let c = compare_values(x, y);
    Value::Bool(
        match op {
            CmpOp::Eq => c == 0,
            CmpOp::Ne => c != 0,
            CmpOp::Gt => c > 0,
            CmpOp::Ge => c >= 0,
            CmpOp::Lt => c < 0,
            CmpOp::Le => c <= 0,
        },
    )
}

/// Whether `y` is among the values `xs`.
pub fn contains(xs: &Vec<Value>, y: &Value) -> (r: bool)
    ensures
        r == contains_value(list_view(xs@, 0), y@),
{
    proof {
        lemma_list_view(xs@, 0);
    }
    let ghost xv = list_view(xs@, 0);
    let mut i: usize = 0;
    while i < xs.len()
        invariant
            xv == list_view(xs@, 0),
            xv.len() == xs@.len(),
            forall|j: int| 0 <= j < xs@.len() ==> #[trigger] xv[j] == xs@[j]@,
            i <= xs@.len(),
            forall|k: int| 0 <= k < i ==> !value_eq(#[trigger] xv[k], y@),
        decreases xs@.len() - i,
    {
        if values_equal(&xs[i], y) {
            assert(value_eq(xv[i as int], y@));
            return true;
        }
        i = i + 1;
    }
    false
}

fn word_is(ty: &String, w: &[char]) -> (r: bool)
    ensures
        r == (ty@ == w@),
{
    let c = crate::lexer::chars_of(ty.as_str());
    chars_equal(c.as_slice(), w)
}

/// `v :: ty`.
pub fn cast_value(v: Value, ty: &String) -> (r: Result<Value, EvalError>)
    ensures
        match r {
            Ok(x) => cast_result(v@, ty@) == Ok::<ValueView, EvalErrorView>(x@),
            Err(err) => cast_result(v@, ty@) == Err::<ValueView, EvalErrorView>(err@),
        },
{
    let to_string = word_is(ty, &['s', 't', 'r', 'i', 'n', 'g']);
    let to_number = word_is(ty, &['n', 'u', 'm', 'b', 'e', 'r']);
    let to_bool = word_is(ty, &['b', 'o', 'o', 'l']);
    assert(['s', 't', 'r', 'i', 'n', 'g']@ =~= word_string());
    assert(['n', 'u', 'm', 'b', 'e', 'r']@ =~= word_number());
    assert(['b', 'o', 'o', 'l']@ =~= word_bool());
    if !to_string && !to_number && !to_bool {
        return Err(EvalError::InvalidCast(ty.clone()));
    }
    if is_null(&v) {
        return Ok(Value::Null);
    }
    if to_string {
        match v {
            Value::String(s) => Ok(Value::String(s)),
            Value::Bool(b) => {
                let w = if b {
                    string_from_chars(&['t', 'r', 'u', 'e'])
                } else {
                    string_from_chars(&['f', 'a', 'l', 's', 'e'])
                };
                assert(['t', 'r', 'u', 'e']@ =~= word_true());
                assert(['f', 'a', 'l', 's', 'e']@ =~= word_false());
                Ok(Value::String(w))
            },
            Value::Number(n) => Ok(Value::String(string_from_chars(format_number(n).as_slice()))),
            _ => Err(EvalError::InvalidCast(ty.clone())),
        }
    } else if to_number {
        match v {
            Value::Number(n) => Ok(Value::Number(n)),
            Value::String(s) => {
                let c = crate::lexer::chars_of(s.as_str());
                match parse_number(c.as_slice()) {
                    Some(u) => Ok(Value::Number(u)),
                    None => Err(EvalError::InvalidCast(ty.clone())),
                }
            },
            _ => Err(EvalError::InvalidCast(ty.clone())),
        }
    } else {
        match v {
            Value::Bool(b) => Ok(Value::Bool(b)),
            Value::String(s) => {
                assert(['t', 'r', 'u', 'e']@ =~= word_true());
                assert(['f', 'a', 'l', 's', 'e']@ =~= word_false());
                if word_is(&s, &['t', 'r', 'u', 'e']) {
                    Ok(Value::Bool(true))
                } else if word_is(&s, &['f', 'a', 'l', 's', 'e']) {
                    Ok(Value::Bool(false))
                } else {
                    Err(EvalError::InvalidCast(ty.clone()))
                }
            },
            _ => Err(EvalError::InvalidCast(ty.clone())),
        }
    }
}


/// Combines the value of one list item with the values of the items after it.
pub open spec fn prepend(v: ValueView, rest: Result<Seq<ValueView>, EvalErrorView>) -> Result<
    Seq<ValueView>,
    EvalErrorView,
> {
    match rest {
        Ok(vs) => Ok(seq![v] + vs),
        Err(err) => Err(err),
    }
}

pub open spec fn eval_agrees(r: Result<Value, EvalError>, s: Result<ValueView, EvalErrorView>) -> bool {
    match r {
        Ok(v) => s == Ok::<ValueView, EvalErrorView>(v@),
        Err(err) => s == Err::<ValueView, EvalErrorView>(err@),
    }
}

/// Evaluates the expressions of a list, in order.
pub fn evaluate_list(xs: &Vec<Expr>, c: &Context) -> (r: Result<Vec<Value>, EvalError>)
    ensures
        match r {
            Ok(vs) => eval_list(exprs_view(xs@, 0), c@, 0) == Ok::<
                Seq<ValueView>,
                EvalErrorView,
            >(list_view(vs@, 0)),
            Err(err) => eval_list(exprs_view(xs@, 0), c@, 0) == Err::<
                Seq<ValueView>,
                EvalErrorView,
            >(err@),
        },
    decreases xs, 0int,
{
    proof {
        lemma_exprs_view(xs@, 0);
    }
    let ghost xv = exprs_view(xs@, 0);
    let mut vals: Vec<Value> = Vec::new();
    let mut i: usize = 0;
    assert(list_view(vals@, 0) =~= seq![]);
    while i < xs.len()
        invariant
            xv == exprs_view(xs@, 0),
            xv.len() == xs@.len(),
            forall|j: int| 0 <= j < xs@.len() ==> #[trigger] xv[j] == xs@[j]@,
            i <= xs@.len(),
            eval_list(xv, c@, 0) == match eval_list(xv, c@, i as int) {
                Ok(rest) => Ok(list_view(vals@, 0) + rest),
                Err(err) => Err::<Seq<ValueView>, EvalErrorView>(err),
            },
        decreases xs@.len() - i,
    {
        proof {
            assert(decreases_to!(*xs => xs@));
            assert(decreases_to!(xs@ => xs@[i as int]));
        }
        match evaluate(&xs[i], c) {
            Ok(v) => {
                proof {
                    crate::value::lemma_list_view_push(vals@, v);
                    let pre = list_view(vals@, 0);
                    match eval_list(xv, c@, i + 1) {
                        Ok(rest) => {
                            assert(pre + (seq![v@] + rest) =~= pre.push(v@) + rest);
                        },
                        Err(_) => {},
                    }
                }
                vals.push(v);
                i = i + 1;
            },
            Err(err) => return Err(err),
        }
    }
    assert(list_view(vals@, 0) + seq![] =~= list_view(vals@, 0));
    Ok(vals)
}

/// Evaluates an expression in a context.
pub fn evaluate(e: &Expr, c: &Context) -> (r: Result<Value, EvalError>)
    ensures
        eval_agrees(r, eval(e@, c@)),
    decreases e, 1int,
{
    match e {
        Expr::Literal(v) => Ok(copy_value(v)),
        Expr::Field(p) => Ok(read_path(p, c)),
        Expr::Variable(n) => Ok(lookup_field(c.vars, n)),
        Expr::List(xs) => {
            proof {
                assert(decreases_to!(*e => e->List_0));
            }
            match evaluate_list(xs, c) {
                Ok(vs) => Ok(Value::List(vs)),
                Err(err) => Err(err),
            }
        },
        Expr::Not(..) | Expr::And(..) | Expr::Or(..) => evaluate_logic(e, c),
        Expr::Compare(..) | Expr::Arith(..) => evaluate_binary(e, c),
        Expr::In(..) | Expr::Contains(..) => evaluate_membership(e, c),
        Expr::ContainsAny(..) | Expr::ContainsAll(..) => evaluate_containment(e, c),
        Expr::Between(..) | Expr::Like(..) | Expr::Regex(..) | Expr::IsNull(..) | Expr::Exists(..) | Expr::Cast(..) => evaluate_predicate(e, c),
    }
}

/// `not`, `and` and `or`, in three-valued logic.
fn evaluate_logic(e: &Expr, c: &Context) -> (r: Result<Value, EvalError>)
    requires
        e is Not || e is And || e is Or,
    ensures
        eval_agrees(r, eval(e@, c@)),
    decreases e, 0int,
{
    match e {
        Expr::Not(a) => match evaluate(a, c) {
            Ok(Value::Bool(b)) => Ok(Value::Bool(!b)),
            Ok(_) => Ok(Value::Null),
            Err(err) => Err(err),
        },
        Expr::And(a, b) => {
            let x = match evaluate(a, c) {
                Ok(x) => x,
                Err(err) => return Err(err),
            };
            if let Value::Bool(false) = x {
                return Ok(Value::Bool(false));
            }
            let y = match evaluate(b, c) {
                Ok(y) => y,
                Err(err) => return Err(err),
            };
            match (x, y) {
                (_, Value::Bool(false)) => Ok(Value::Bool(false)),
                (Value::Bool(true), Value::Bool(true)) => Ok(Value::Bool(true)),
                _ => Ok(Value::Null),
            }
        },
        Expr::Or(a, b) => {
            let x = match evaluate(a, c) {
                Ok(x) => x,
                Err(err) => return Err(err),
            };
            if let Value::Bool(true) = x {
                return Ok(Value::Bool(true));
            }
            let y = match evaluate(b, c) {
                Ok(y) => y,
                Err(err) => return Err(err),
            };
            match (x, y) {
                (_, Value::Bool(true)) => Ok(Value::Bool(true)),
                (Value::Bool(false), Value::Bool(false)) => Ok(Value::Bool(false)),
                _ => Ok(Value::Null),
            }
        },
        _ => Ok(Value::Null),
    }
}

/// Comparisons and arithmetic.
fn evaluate_binary(e: &Expr, c: &Context) -> (r: Result<Value, EvalError>)
    requires
        e is Compare || e is Arith,
    ensures
        eval_agrees(r, eval(e@, c@)),
    decreases e, 0int,
{
    match e {
        Expr::Compare(op, a, b) => {
            let x = match evaluate(a, c) {
                Ok(x) => x,
                Err(err) => return Err(err),
            };
            let y = match evaluate(b, c) {
                Ok(y) => y,
                Err(err) => return Err(err),
            };
            Ok(compare(*op, a, b, &x, &y))
        },
        Expr::Arith(op, a, b) => {
            let x = match evaluate(a, c) {
                Ok(x) => x,
                Err(err) => return Err(err),
            };
            let y = match evaluate(b, c) {
                Ok(y) => y,
                Err(err) => return Err(err),
            };
            Ok(arith(*op, &x, &y))
        },
        _ => Ok(Value::Null),
    }
}

/// `in` and `contains`.
fn evaluate_membership(e: &Expr, c: &Context) -> (r: Result<Value, EvalError>)
    requires
        e is In || e is Contains,
    ensures
        eval_agrees(r, eval(e@, c@)),
    decreases e, 0int,
{
    match e {
        Expr::In(a, xs) => {
            let x = match evaluate(a, c) {
                Ok(x) => x,
                Err(err) => return Err(err),
            };
            proof {
                assert(decreases_to!(*e => e->In_1));
            }
            let vs = match evaluate_list(xs, c) {
                Ok(vs) => vs,
                Err(err) => return Err(err),
            };
            Ok(Value::Bool(!is_null(&x) && contains(&vs, &x)))
        },
        Expr::Contains(a, b) => {
            let x = match evaluate(a, c) {
                Ok(x) => x,
                Err(err) => return Err(err),
            };
            let y = match evaluate(b, c) {
                Ok(y) => y,
                Err(err) => return Err(err),
            };
            match &x {
                Value::List(items) => Ok(Value::Bool(!is_null(&y) && contains(items, &y))),
                _ => Ok(Value::Bool(false)),
            }
        },
        _ => Ok(Value::Null),
    }
}

/// `containsAny` and `containsAll`.
fn evaluate_containment(e: &Expr, c: &Context) -> (r: Result<Value, EvalError>)
    requires
        e is ContainsAny || e is ContainsAll,
    ensures
        eval_agrees(r, eval(e@, c@)),
    decreases e, 0int,
{
    match e {
        Expr::ContainsAny(a, ys) => {
            let x = match evaluate(a, c) {
                Ok(x) => x,
                Err(err) => return Err(err),
            };
            proof {
                assert(decreases_to!(*e => e->ContainsAny_1));
            }
            let vs = match evaluate_list(ys, c) {
                Ok(vs) => vs,
                Err(err) => return Err(err),
            };
            match &x {
                Value::List(items) => Ok(Value::Bool(any_contained(items, &vs))),
                _ => Ok(Value::Bool(false)),
            }
        },
        Expr::ContainsAll(a, ys) => {
            let x = match evaluate(a, c) {
                Ok(x) => x,
                Err(err) => return Err(err),
            };
            proof {
                assert(decreases_to!(*e => e->ContainsAll_1));
            }
            let vs = match evaluate_list(ys, c) {
                Ok(vs) => vs,
                Err(err) => return Err(err),
            };
            match &x {
                Value::List(items) => Ok(Value::Bool(all_contained(items, &vs))),
                _ => Ok(Value::Bool(false)),
            }
        },
        _ => Ok(Value::Null),
    }
}

/// `between`, `like`, `regex`, `is null`, `exists` and casts.
fn evaluate_predicate(e: &Expr, c: &Context) -> (r: Result<Value, EvalError>)
    requires
        e is Between || e is Like || e is Regex || e is IsNull || e is Exists || e is Cast,
    ensures
        eval_agrees(r, eval(e@, c@)),
    decreases e, 0int,
{
    match e {
        Expr::Between(a, lo, hi) => {
            let x = match evaluate(a, c) {
                Ok(x) => x,
                Err(err) => return Err(err),
            };
            let l = match evaluate(lo, c) {
                Ok(x) => x,
                Err(err) => return Err(err),
            };
            let h = match evaluate(hi, c) {
                Ok(x) => x,
                Err(err) => return Err(err),
            };
            Ok(
                Value::Bool(
                    !is_null(&x) && same_kind(&x, &l) && same_kind(&x, &h) && compare_values(&l, &x)
                        <= 0 && compare_values(&x, &h) <= 0,
                ),
            )
        },
        Expr::Like(a, p) => match evaluate(a, c) {
            Ok(Value::String(s)) => Ok(Value::Bool(like_match(p, &s))),
            Ok(_) => Ok(Value::Bool(false)),
            Err(err) => Err(err),
        },
        Expr::Regex(a, p) => {
            let x = match evaluate(a, c) {
                Ok(x) => x,
                Err(err) => return Err(err),
            };
            let text = match &x {
                Value::String(s) => s.as_str(),
                _ => "",
            };
            match regex_search(p.as_str(), text) {
                None => Err(EvalError::InvalidRegex(p.clone())),
                Some(found) => match x {
                    Value::String(_) => Ok(Value::Bool(found)),
                    _ => Ok(Value::Bool(false)),
                },
            }
        },
        Expr::IsNull(a) => match evaluate(a, c) {
            Ok(x) => Ok(Value::Bool(is_null(&x))),
            Err(err) => Err(err),
        },
        Expr::Exists(a) => match evaluate(a, c) {
            Ok(x) => Ok(Value::Bool(!is_null(&x))),
            Err(err) => Err(err),
        },
        Expr::Cast(a, ty) => match evaluate(a, c) {
            Ok(x) => cast_value(x, ty),
            Err(err) => Err(err),
        },

        _ => Ok(Value::Null),
    }
}

/// Whether some non-null value of `vs` is among `items`.
fn any_contained(items: &Vec<Value>, vs: &Vec<Value>) -> (r: bool)
    ensures
        r == any_in(list_view(items@, 0), list_view(vs@, 0)),
{
    proof {
        lemma_list_view(vs@, 0);
    }
    let ghost w = list_view(vs@, 0);
    let mut i: usize = 0;
    while i < vs.len()
        invariant
            w == list_view(vs@, 0),
            w.len() == vs@.len(),
            forall|j: int| 0 <= j < vs@.len() ==> #[trigger] w[j] == vs@[j]@,
            i <= vs@.len(),
            forall|k: int|
                0 <= k < i ==> !(!(w[k] is Null) && contains_value(
                    list_view(items@, 0),
                    #[trigger] w[k],
                )),
        decreases vs@.len() - i,
    {
        if !is_null(&vs[i]) && contains(items, &vs[i]) {
            assert(!(w[i as int] is Null) && contains_value(list_view(items@, 0), w[i as int]));
            return true;
        }
        i = i + 1;
    }
    false
}

/// Whether every value of `vs` is non-null and among `items`.
fn all_contained(items: &Vec<Value>, vs: &Vec<Value>) -> (r: bool)
    ensures
        r == all_in(list_view(items@, 0), list_view(vs@, 0)),
{
    proof {
        lemma_list_view(vs@, 0);
    }
    let ghost w = list_view(vs@, 0);
    let mut i: usize = 0;
    while i < vs.len()
        invariant
            w == list_view(vs@, 0),
            w.len() == vs@.len(),
            forall|j: int| 0 <= j < vs@.len() ==> #[trigger] w[j] == vs@[j]@,
            i <= vs@.len(),
            forall|k: int|
                0 <= k < i ==> !(w[k] is Null) && contains_value(
                    list_view(items@, 0),
                    #[trigger] w[k],
                ),
        decreases vs@.len() - i,
    {
        if is_null(&vs[i]) || !contains(items, &vs[i]) {
            assert(!(!(w[i as int] is Null) && contains_value(list_view(items@, 0), w[i as int])));
            return false;
        }
        i = i + 1;
    }
    true
}

/// Whether a filter selects the document of the context.
pub fn matches(filter: &Expr, c: &Context) -> (r: Result<bool, EvalError>)
    ensures
        match r {
            Ok(b) => selects(filter@, c@) == Ok::<bool, EvalErrorView>(b),
            Err(err) => selects(filter@, c@) == Err::<bool, EvalErrorView>(err@),
        },
{
    match evaluate(filter, c) {
        Ok(Value::Bool(true)) => Ok(true),
        Ok(_) => Ok(false),
        Err(err) => Err(err),
    }
}


/// An expression with no cast and no `regex`: the only nodes whose
/// evaluation can fail.
pub open spec fn cast_and_regex_free(e: ExprView) -> bool
    decreases e, 0int,
{
    match e {
        ExprView::Cast(_, _) | ExprView::Regex(_, _) => false,
        ExprView::Literal(_) | ExprView::Field(_) | ExprView::Variable(_) => true,
        ExprView::List(xs) => all_free(xs, 0),
        ExprView::Not(a) | ExprView::Like(a, _) | ExprView::IsNull(a) | ExprView::Exists(a) => {
            cast_and_regex_free(*a)
        },
        ExprView::Compare(_, a, b) | ExprView::Arith(_, a, b) | ExprView::And(a, b)
        | ExprView::Or(a, b) | ExprView::Contains(a, b) => cast_and_regex_free(*a)
            && cast_and_regex_free(*b),
        ExprView::In(a, xs) | ExprView::ContainsAny(a, xs) | ExprView::ContainsAll(a, xs) => {
            cast_and_regex_free(*a) && all_free(xs, 0)
        },
        ExprView::Between(a, l, h) => cast_and_regex_free(*a) && cast_and_regex_free(*l)
            && cast_and_regex_free(*h),
    }
}

pub open spec fn all_free(xs: Seq<ExprView>, i: int) -> bool
    decreases xs, xs.len() - i,
{
    if i < 0 || i >= xs.len() {
        true
    } else {
        cast_and_regex_free(xs[i]) && all_free(xs, i + 1)
    }
}

/// Every expression without casts and `regex` evaluates, whatever the
/// document holds: absent fields read as `Null` and never fail.
pub proof fn lemma_free_evaluates(e: ExprView, c: ContextView)
    requires
        cast_and_regex_free(e),
    ensures
        eval(e, c) is Ok,
    decreases e, 1int,
{
    match e {
        ExprView::List(xs) => lemma_free_list_evaluates(xs, c, 0),
        ExprView::Not(a) | ExprView::Like(a, _) | ExprView::IsNull(a) | ExprView::Exists(a) => {
            lemma_free_evaluates(*a, c);
        },
        ExprView::Compare(_, a, b) | ExprView::Arith(_, a, b) | ExprView::And(a, b)
        | ExprView::Or(a, b) | ExprView::Contains(a, b) => {
            lemma_free_evaluates(*a, c);
            lemma_free_evaluates(*b, c);
        },
        ExprView::In(a, xs) | ExprView::ContainsAny(a, xs) | ExprView::ContainsAll(a, xs) => {
            lemma_free_evaluates(*a, c);
            lemma_free_list_evaluates(xs, c, 0);
        },
        ExprView::Between(a, l, h) => {
            lemma_free_evaluates(*a, c);
            lemma_free_evaluates(*l, c);
            lemma_free_evaluates(*h, c);
        },
        _ => {},
    }
}

pub proof fn lemma_free_list_evaluates(xs: Seq<ExprView>, c: ContextView, i: int)
    requires
        all_free(xs, i),
    ensures
        eval_list(xs, c, i) is Ok,
    decreases xs, xs.len() - i, 1int,
{
    if 0 <= i < xs.len() {
        lemma_free_evaluates(xs[i], c);
        lemma_free_list_evaluates(xs, c, i + 1);
    }
}

/// A filter without casts and `regex` decides every document without an
/// error: a field the document lacks is `Null`, which only makes the filter
/// select less.
pub proof fn lemma_filter_never_fails(f: ExprView, c: ContextView)
    requires
        cast_and_regex_free(f),
    ensures
        selects(f, c) is Ok,
{
    lemma_free_evaluates(f, c);
}

/// `between` whose bounds are of two kinds is false for every subject, and
/// raises no error of its own.
pub proof fn lemma_between_mixed_bounds(
    subject: ExprView,
    low: ExprView,
    high: ExprView,
    c: ContextView,
)
    requires
        eval(subject, c) is Ok,
        eval(low, c) is Ok,
        eval(high, c) is Ok,
        kind_rank(eval(low, c)->Ok_0) != kind_rank(eval(high, c)->Ok_0),
    ensures
        eval(ExprView::Between(Box::new(subject), Box::new(low), Box::new(high)), c) == Ok::<
            ValueView,
            EvalErrorView,
        >(ValueView::Bool(false)),
{
}

} // verus!
