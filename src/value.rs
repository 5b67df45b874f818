//! Values that documents hold and expressions compute, with the total order
//! that sorting uses.
use vstd::prelude::*;

verus! {

/// A number: a decimal with six fractional digits, held as a count of
/// millionths.
pub const SCALE: i64 = 1_000_000i64;

/// A value of a document or of an expression.
#[derive(Debug, PartialEq)]
pub enum Value {
    Null,
    Bool(bool),
    /// Millionths: `Number(1_500_000)` is 1.5.
    Number(i64),
    String(String),
    List(Vec<Value>),
    /// An opaque path to a document.
    Reference(String),
}

/// A value as a mathematical object.
pub enum ValueView {
    Null,
    Bool(bool),
    Number(int),
    String(Seq<char>),
    List(Seq<ValueView>),
    Reference(Seq<char>),
}

pub open spec fn value_view(v: Value) -> ValueView
    decreases v, 0int,
{
    match v {
        Value::Null => ValueView::Null,
        Value::Bool(b) => ValueView::Bool(b),
        Value::Number(n) => ValueView::Number(n as int),
        Value::String(s) => ValueView::String(s@),
        Value::List(xs) => ValueView::List(list_view(xs@, 0)),
        Value::Reference(s) => ValueView::Reference(s@),
    }
}

/// The views of `xs[i..]`.
pub open spec fn list_view(xs: Seq<Value>, i: int) -> Seq<ValueView>
    decreases xs, xs.len() - i,
{
    if 0 <= i < xs.len() {
        seq![value_view(xs[i])] + list_view(xs, i + 1)
    } else {
        seq![]
    }
}

impl View for Value {
    type V = ValueView;

    open spec fn view(&self) -> ValueView {
        value_view(*self)
    }
}


/// Where a kind of value stands in the order across kinds:
/// null, bool, number, string, list, reference.
pub open spec fn kind_rank(v: ValueView) -> int {
    match v {
        ValueView::Null => 0,
        ValueView::Bool(_) => 1,
        ValueView::Number(_) => 2,
        ValueView::String(_) => 3,
        ValueView::List(_) => 4,
        ValueView::Reference(_) => 5,
    }
}

/// -1, 0 or 1 as `a` is below, equal to or above `b`.
pub open spec fn int_cmp(a: int, b: int) -> int {
    if a < b {
        -1
    } else if a > b {
        1
    } else {
        0
    }
}

/// Lexicographic order of two texts from position `i`, by code point (the
/// order of their UTF-8 bytes).
pub open spec fn text_cmp(a: Seq<char>, b: Seq<char>, i: int) -> int
    decreases a.len() - i,
{
    if i < 0 || (i >= a.len() && i >= b.len()) {
        0
    } else if i >= a.len() {
        -1
    } else if i >= b.len() {
        1
    } else if (a[i] as u32) != (b[i] as u32) {
        if (a[i] as u32) < (b[i] as u32) {
            -1
        } else {
            1
        }
    } else {
        text_cmp(a, b, i + 1)
    }
}

/// The total order on values: by kind first, then within a kind by number,
/// by text, `false` before `true`, and lists element by element.
pub open spec fn value_cmp(a: ValueView, b: ValueView) -> int
    decreases a, 0int,
{
    if kind_rank(a) != kind_rank(b) {
        int_cmp(kind_rank(a), kind_rank(b))
    } else {
        match (a, b) {
            (ValueView::Bool(x), ValueView::Bool(y)) => int_cmp(
                if x {
                    1
                } else {
                    0
                },
                if y {
                    1
                } else {
                    0
                },
            ),
            (ValueView::Number(x), ValueView::Number(y)) => int_cmp(x, y),
            (ValueView::String(x), ValueView::String(y)) => text_cmp(x, y, 0),
            (ValueView::List(xs), ValueView::List(ys)) => list_cmp(xs, ys, 0),
            (ValueView::Reference(x), ValueView::Reference(y)) => text_cmp(x, y, 0),
            _ => 0,
        }
    }
}

/// Lexicographic order of two lists of values from position `i`.
pub open spec fn list_cmp(xs: Seq<ValueView>, ys: Seq<ValueView>, i: int) -> int
    decreases xs, xs.len() - i,
{
    if i < 0 || (i >= xs.len() && i >= ys.len()) {
        0
    } else if i >= xs.len() {
        -1
    } else if i >= ys.len() {
        1
    } else if value_cmp(xs[i], ys[i]) != 0 {
        value_cmp(xs[i], ys[i])
    } else {
        list_cmp(xs, ys, i + 1)
    }
}

/// Equality of values: of one kind and equal within it.
pub open spec fn value_eq(a: ValueView, b: ValueView) -> bool {
    value_cmp(a, b) == 0
}

pub proof fn lemma_list_view(xs: Seq<Value>, i: int)
    requires
        0 <= i <= xs.len(),
    ensures
        list_view(xs, i).len() == xs.len() - i,
        forall|j: int| 0 <= j < xs.len() - i ==> #[trigger] list_view(xs, i)[j] == xs[i + j]@,
    decreases xs.len() - i,
{
    if i < xs.len() {
        lemma_list_view(xs, i + 1);
        assert forall|j: int| 0 <= j < xs.len() - i implies #[trigger] list_view(xs, i)[j]
            == xs[i + j]@ by {
            if j > 0 {
                assert(list_view(xs, i)[j] == list_view(xs, i + 1)[j - 1]);
            }
        }
    }
}

/// Two lists of values with equal views elementwise have equal views.
pub proof fn lemma_list_view_ext(xs: Seq<Value>, ys: Seq<Value>)
    requires
        xs.len() == ys.len(),
        forall|j: int| 0 <= j < xs.len() ==> #[trigger] xs[j]@ == ys[j]@,
    ensures
        list_view(xs, 0) == list_view(ys, 0),
{
    lemma_list_view(xs, 0);
    lemma_list_view(ys, 0);
    assert(list_view(xs, 0) =~= list_view(ys, 0));
}

pub proof fn lemma_list_view_push(xs: Seq<Value>, x: Value)
    ensures
        list_view(xs.push(x), 0) == list_view(xs, 0).push(x@),
{
    lemma_list_view(xs, 0);
    lemma_list_view(xs.push(x), 0);
    assert(list_view(xs.push(x), 0) =~= list_view(xs, 0).push(x@));
}

/// A deep copy of a value.
pub fn copy_value(v: &Value) -> (r: Value)
    ensures
        r@ == v@,
    decreases v,
{
    match v {
        Value::Null => Value::Null,
        Value::Bool(b) => Value::Bool(*b),
        Value::Number(n) => Value::Number(*n),
        Value::String(s) => Value::String(s.clone()),
        Value::Reference(s) => Value::Reference(s.clone()),
        Value::List(xs) => {
            let mut out: Vec<Value> = Vec::new();
            let mut i: usize = 0;
            while i < xs.len()
                invariant
                    *v == Value::List(*xs),
                    i <= xs@.len(),
                    out@.len() == i,
                    forall|j: int| 0 <= j < i ==> #[trigger] out@[j]@ == xs@[j]@,
                decreases xs@.len() - i,
            {
                proof {
                    assert(decreases_to!(*v => v->List_0));
                    assert(decreases_to!(*xs => xs@));
                    assert(decreases_to!(xs@ => xs@[i as int]));
                }
                let c = copy_value(&xs[i]);
                out.push(c);
                i = i + 1;
            }
            proof {
                lemma_list_view_ext(out@, xs@);
            }
            Value::List(out)
        },
    }
}

/// Compares two texts as `text_cmp` orders them.
pub fn compare_text(a: &String, b: &String) -> (r: i8)
    ensures
        r as int == text_cmp(a@, b@, 0),
{
    let x = crate::lexer::chars_of(a.as_str());
    let y = crate::lexer::chars_of(b.as_str());
    let mut i: usize = 0;
    while i < x.len() && i < y.len()
        invariant
            x@ == a@,
            y@ == b@,
            i <= x@.len(),
            i <= y@.len(),
            text_cmp(a@, b@, 0) == text_cmp(a@, b@, i as int),
        decreases x@.len() - i,
    {
        if (x[i] as u32) != (y[i] as u32) {
            return if (x[i] as u32) < (y[i] as u32) {
                -1
            } else {
                1
            };
        }
        i = i + 1;
    }
    if i >= x.len() && i >= y.len() {
        0
    } else if i >= x.len() {
        -1
    } else {
        1
    }
}

fn cmp_i64(a: i64, b: i64) -> (r: i8)
    ensures
        r as int == int_cmp(a as int, b as int),
{
    if a < b {
        -1
    } else if a > b {
        1
    } else {
        0
    }
}

fn rank(v: &Value) -> (r: u8)
    ensures
        r as int == kind_rank(v@),
{
    match v {
        Value::Null => 0,
        Value::Bool(_) => 1,
        Value::Number(_) => 2,
        Value::String(_) => 3,
        Value::List(_) => 4,
        Value::Reference(_) => 5,
    }
}

/// Compares two values in the total order: -1, 0 or 1.
pub fn compare_values(a: &Value, b: &Value) -> (r: i8)
    ensures
        r as int == value_cmp(a@, b@),
    decreases a,
{
    let ra = rank(a);
    let rb = rank(b);
    if ra != rb {
        return if ra < rb {
            -1
        } else {
            1
        };
    }
    match (a, b) {
        (Value::Bool(x), Value::Bool(y)) => cmp_i64(
            if *x {
                1
            } else {
                0
            },
            if *y {
                1
            } else {
                0
            },
        ),
        (Value::Number(x), Value::Number(y)) => cmp_i64(*x, *y),
        (Value::String(x), Value::String(y)) => compare_text(x, y),
        (Value::Reference(x), Value::Reference(y)) => compare_text(x, y),
        (Value::List(xs), Value::List(ys)) => {
            let ghost xv = list_view(xs@, 0);
            let ghost yv = list_view(ys@, 0);
            proof {
                lemma_list_view(xs@, 0);
                lemma_list_view(ys@, 0);
            }
            let mut i: usize = 0;
            while i < xs.len() && i < ys.len()
                invariant
                    *a == Value::List(*xs),
                    xv == list_view(xs@, 0),
                    yv == list_view(ys@, 0),
                    xv.len() == xs@.len(),
                    yv.len() == ys@.len(),
                    forall|j: int| 0 <= j < xs@.len() ==> #[trigger] xv[j] == xs@[j]@,
                    forall|j: int| 0 <= j < ys@.len() ==> #[trigger] yv[j] == ys@[j]@,
                    i <= xs@.len(),
                    i <= ys@.len(),
                    value_cmp(a@, b@) == list_cmp(xv, yv, i as int),
                decreases xs@.len() - i,
            {
                proof {
                    assert(decreases_to!(*a => a->List_0));
                    assert(decreases_to!(*xs => xs@));
                    assert(decreases_to!(xs@ => xs@[i as int]));
                }
                let c = compare_values(&xs[i], &ys[i]);
                if c != 0 {
                    return c;
                }
                i = i + 1;
            }
            if i >= xs.len() && i >= ys.len() {
                0
            } else if i >= xs.len() {
                -1
            } else {
                1
            }
        },
        _ => 0,
    }
}

/// Whether two values are equal: of one kind and equal within it.
pub fn values_equal(a: &Value, b: &Value) -> (r: bool)
    ensures
        r == value_eq(a@, b@),
{
    compare_values(a, b) == 0
}


pub proof fn lemma_text_cmp_antisymmetric(a: Seq<char>, b: Seq<char>, i: int)
    ensures
        text_cmp(a, b, i) == -text_cmp(b, a, i),
    decreases a.len() - i,
{
    if 0 <= i && i < a.len() && i < b.len() && (a[i] as u32) == (b[i] as u32) {
        lemma_text_cmp_antisymmetric(a, b, i + 1);
    }
}

/// Swapping the operands of the value order negates the comparison.
pub proof fn lemma_value_cmp_antisymmetric(a: ValueView, b: ValueView)
    ensures
        value_cmp(a, b) == -value_cmp(b, a),
    decreases a, 0int,
{
    match (a, b) {
        (ValueView::String(x), ValueView::String(y)) => lemma_text_cmp_antisymmetric(x, y, 0),
        (ValueView::Reference(x), ValueView::Reference(y)) => lemma_text_cmp_antisymmetric(x, y, 0),
        (ValueView::List(xs), ValueView::List(ys)) => lemma_list_cmp_antisymmetric(xs, ys, 0),
        _ => {},
    }
}

pub proof fn lemma_list_cmp_antisymmetric(xs: Seq<ValueView>, ys: Seq<ValueView>, i: int)
    ensures
        list_cmp(xs, ys, i) == -list_cmp(ys, xs, i),
    decreases xs, xs.len() - i,
{
    if 0 <= i && i < xs.len() && i < ys.len() {
        lemma_value_cmp_antisymmetric(xs[i], ys[i]);
        if value_cmp(xs[i], ys[i]) == 0 {
            lemma_list_cmp_antisymmetric(xs, ys, i + 1);
        }
    }
}

} // verus!
