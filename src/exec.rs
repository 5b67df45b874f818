//! The query executor: filter, stable order, skip, limit and projection over
//! candidate documents taken in arrival order.
use vstd::prelude::*;
use crate::ast::{OrderItem, OrderItemView, Path, PathView, Query, QueryView};
use crate::eval::{Context, ContextView, Document, EvalError, EvalErrorView, path_value, read_path, selects};
use crate::ast::{order_views, path_views};
use crate::value::{
    Value, ValueView, compare_values, lemma_list_view, lemma_list_view_push,
    lemma_value_cmp_antisymmetric, list_view, value_cmp,
};

verus! {

pub type DocView = Seq<(Seq<char>, ValueView)>;

/// What every document of one execution is evaluated with besides itself.
pub struct EnvView {
    pub parent: Option<DocView>,
    pub grandparent: Option<DocView>,
    pub vars: DocView,
}

pub open spec fn context_of(d: DocView, env: EnvView) -> ContextView {
    ContextView { doc: d, parent: env.parent, grandparent: env.grandparent, vars: env.vars }
}

/// The sort key of a document: the value of each order path.
pub open spec fn keys_of(order: Seq<OrderItemView>, c: ContextView) -> Seq<ValueView> {
    order.map_values(|o: OrderItemView| path_value(o.path, c))
}

/// The documents from `i` on that the filter selects, each with its sort
/// key, in arrival order; the first evaluation error stops it.
pub open spec fn selected(q: QueryView, docs: Seq<DocView>, env: EnvView, i: int) -> Result<
    Seq<(Seq<ValueView>, DocView)>,
    EvalErrorView,
>
    decreases docs.len() - i,
{
    if i < 0 || i >= docs.len() {
        Ok(seq![])
    } else {
        let c = context_of(docs[i], env);
        let keep = match q.filter {
            None => Ok(true),
            Some(f) => selects(f, c),
        };
        match keep {
            Err(err) => Err(err),
            Ok(k) => match selected(q, docs, env, i + 1) {
                Err(err) => Err(err),
                Ok(rest) => Ok(
                    if k {
                        seq![(keys_of(q.order, c), docs[i])] + rest
                    } else {
                        rest
                    },
                ),
            },
        }
    }
}

/// Compares two sort keys from position `i`: the first order item on which
/// they differ decides, reversed where it is descending.
pub open spec fn key_cmp(order: Seq<OrderItemView>, a: Seq<ValueView>, b: Seq<ValueView>, i: int) -> int
    decreases order.len() - i,
{
    if i < 0 || i >= order.len() || i >= a.len() || i >= b.len() {
        0
    } else {
        let d = if order[i].descending {
            value_cmp(b[i], a[i])
        } else {
            value_cmp(a[i], b[i])
        };
        if d != 0 {
            d
        } else {
            key_cmp(order, a, b, i + 1)
        }
    }
}

/// Where an entry goes in a sorted sequence: after every entry whose key is
/// not above its own, so that equal keys keep their arrival order.
pub open spec fn insert_pos(order: Seq<OrderItemView>, s: Seq<(Seq<ValueView>, DocView)>, x: (Seq<ValueView>, DocView), j: int) -> int
    decreases s.len() - j,
{
    if j < 0 || j >= s.len() {
        s.len() as int
    } else if key_cmp(order, s[j].0, x.0, 0) > 0 {
        j
    } else {
        insert_pos(order, s, x, j + 1)
    }
}

/// Stable insertion sort by key.
pub open spec fn sorted(order: Seq<OrderItemView>, s: Seq<(Seq<ValueView>, DocView)>) -> Seq<(Seq<ValueView>, DocView)>
    decreases s.len(),
{
    if s.len() == 0 {
        s
    } else {
        let t = sorted(order, s.drop_last());
        t.insert(insert_pos(order, t, s.last(), 0), s.last())
    }
}

pub open spec fn min(a: int, b: int) -> int {
    if a < b {
        a
    } else {
        b
    }
}

/// What `skip` and `limit` leave of `n` ordered results: `[lo, hi)`.
pub open spec fn page_bounds(skip: Option<u64>, limit: Option<u64>, n: int) -> (int, int) {
    let lo = match skip {
        Some(k) => min(k as int, n),
        None => 0,
    };
    let hi = match limit {
        Some(l) => min(lo + l, n),
        None => n,
    };
    (lo, hi)
}

/// The values of the `returning` paths of a document, in their order.
pub open spec fn projection(returning: Option<Seq<PathView>>, c: ContextView) -> Option<Seq<ValueView>> {
    match returning {
        Some(ps) => Some(ps.map_values(|p: PathView| path_value(p, c))),
        None => None,
    }
}

/// The result of executing a query over candidate documents: the selected
/// documents in stable key order, paged by `skip` then `limit`, each with
/// its projection.
pub open spec fn execution(q: QueryView, docs: Seq<DocView>, env: EnvView) -> Result<
    Seq<(DocView, Option<Seq<ValueView>>)>,
    EvalErrorView,
> {
    match selected(q, docs, env, 0) {
        Err(err) => Err(err),
        Ok(es) => {
            let s = sorted(q.order, es);
            let (lo, hi) = page_bounds(q.skip, q.limit, s.len() as int);
            Ok(
                s.subrange(lo, hi).map_values(
                    |e: (Seq<ValueView>, DocView)|
                        (e.1, projection(q.returning, context_of(e.1, env))),
                ),
            )
        },
    }
}

/// One result of a query: the document, and the values of the `returning`
/// paths where the query has that clause.
#[derive(Debug, PartialEq)]
pub struct Row {
    pub document: Document,
    pub projection: Option<Vec<Value>>,
}

impl View for Row {
    type V = (DocView, Option<Seq<ValueView>>);

    open spec fn view(&self) -> (DocView, Option<Seq<ValueView>>) {
        (
            self.document@,
            match self.projection {
                Some(vs) => Some(list_view(vs@, 0)),
                None => None,
            },
        )
    }
}

pub open spec fn entry_view(e: (Vec<Value>, Document)) -> (Seq<ValueView>, DocView) {
    (list_view(e.0@, 0), e.1@)
}

pub open spec fn entries_view(s: Seq<(Vec<Value>, Document)>) -> Seq<(Seq<ValueView>, DocView)> {
    s.map_values(|e: (Vec<Value>, Document)| entry_view(e))
}

pub open spec fn doc_views(ds: Seq<Document>) -> Seq<DocView> {
    ds.map_values(|d: Document| d@)
}

pub open spec fn row_views(rs: Seq<Row>) -> Seq<(DocView, Option<Seq<ValueView>>)> {
    rs.map_values(|r: Row| r@)
}


pub open spec fn env_of(vars: &Document, parent: Option<&Document>, grandparent: Option<&Document>) -> EnvView {
    EnvView {
        parent: match parent {
            Some(p) => Some(p@),
            None => None,
        },
        grandparent: match grandparent {
            Some(g) => Some(g@),
            None => None,
        },
        vars: vars@,
    }
}

/// The elements of `v` in reverse order.
fn reversed<T>(v: Vec<T>) -> (r: Vec<T>)
    ensures
        r@.len() == v@.len(),
        forall|k: int| 0 <= k < v@.len() ==> #[trigger] r@[k] == v@[v@.len() - 1 - k],
{
    let ghost v0 = v@;
    let mut v = v;
    let mut r: Vec<T> = Vec::new();
    while v.len() > 0
        invariant
            r@.len() + v@.len() == v0.len(),
            v@ == v0.subrange(0, v@.len() as int),
            forall|k: int| 0 <= k < r@.len() ==> #[trigger] r@[k] == v0[v0.len() - 1 - k],
        decreases v@.len(),
    {
        match v.pop() {
            Some(x) => r.push(x),
            None => {},
        }
    }
    r
}

/// The sort key of the document of a context.
fn sort_key(order: &Vec<OrderItem>, c: &Context) -> (r: Vec<Value>)
    ensures
        list_view(r@, 0) == keys_of(order_views(order@), c@),
{
    let mut keys: Vec<Value> = Vec::new();
    let mut i: usize = 0;
    assert(list_view(keys@, 0) =~= seq![]);
    while i < order.len()
        invariant
            i <= order@.len(),
            list_view(keys@, 0) == keys_of(order_views(order@), c@).subrange(0, i as int),
        decreases order@.len() - i,
    {
        let v = read_path(&order[i].path, c);
        proof {
            lemma_list_view_push(keys@, v);
        }
        keys.push(v);
        i = i + 1;
        assert(list_view(keys@, 0) =~= keys_of(order_views(order@), c@).subrange(0, i as int));
    }
    assert(keys_of(order_views(order@), c@).subrange(0, i as int) =~= keys_of(order_views(order@), c@));
    keys
}

/// Compares two sort keys as `key_cmp` does.
fn compare_keys(order: &Vec<OrderItem>, a: &Vec<Value>, b: &Vec<Value>) -> (r: i8)
    ensures
        r as int == key_cmp(order_views(order@), list_view(a@, 0), list_view(b@, 0), 0),
{
    proof {
        lemma_list_view(a@, 0);
        lemma_list_view(b@, 0);
    }
    let ghost ov = order_views(order@);
    let ghost av = list_view(a@, 0);
    let ghost bv = list_view(b@, 0);
    let mut i: usize = 0;
    while i < order.len() && i < a.len() && i < b.len()
        invariant
            ov == order_views(order@),
            av == list_view(a@, 0),
            bv == list_view(b@, 0),
            av.len() == a@.len(),
            bv.len() == b@.len(),
            forall|j: int| 0 <= j < a@.len() ==> #[trigger] av[j] == a@[j]@,
            forall|j: int| 0 <= j < b@.len() ==> #[trigger] bv[j] == b@[j]@,
            i <= order@.len(),
            key_cmp(ov, av, bv, 0) == key_cmp(ov, av, bv, i as int),
        decreases order@.len() - i,
    {
        let d = if order[i].descending {
            compare_values(&b[i], &a[i])
        } else {
            compare_values(&a[i], &b[i])
        };
        if d != 0 {
            return d;
        }
        i = i + 1;
    }
    0
}

/// Inserts an entry into a sequence sorted by key, after every entry whose
/// key is not above its own.
fn insert_sorted(order: &Vec<OrderItem>, s: &mut Vec<(Vec<Value>, Document)>, x: (Vec<Value>, Document))
    ensures
        entries_view(final(s)@) == entries_view(old(s)@).insert(
            insert_pos(order_views(order@), entries_view(old(s)@), entry_view(x), 0),
            entry_view(x),
        ),
{
    let ghost ov = order_views(order@);
    let ghost sv = entries_view(s@);
    let ghost xv = entry_view(x);
    let mut j: usize = 0;
    while j < s.len() && compare_keys(order, &s[j].0, &x.0) <= 0
        invariant
            ov == order_views(order@),
            sv == entries_view(s@),
            s@ == old(s)@,
            xv == entry_view(x),
            j <= s@.len(),
            insert_pos(ov, sv, xv, 0) == insert_pos(ov, sv, xv, j as int),
        decreases s@.len() - j,
    {
        j = j + 1;
    }
    s.insert(j, x);
    assert(entries_view(s@) =~= sv.insert(j as int, xv));
}

/// The values of the `returning` paths in a context.
fn project(returning: &Option<Vec<Path>>, c: &Context) -> (r: Option<Vec<Value>>)
    ensures
        match r {
            Some(vs) => projection(
                match returning {
                    Some(ps) => Some(path_views(ps@)),
                    None => None,
                },
                c@,
            ) == Some(list_view(vs@, 0)),
            None => returning is None,
        },
{
    match returning {
        None => None,
        Some(ps) => {
            let ghost want = path_views(ps@).map_values(|p: PathView| path_value(p, c@));
            let mut vals: Vec<Value> = Vec::new();
            let mut i: usize = 0;
            assert(list_view(vals@, 0) =~= seq![]);
            while i < ps.len()
                invariant
                    i <= ps@.len(),
                    want == path_views(ps@).map_values(|p: PathView| path_value(p, c@)),
                    list_view(vals@, 0) == want.subrange(0, i as int),
                decreases ps@.len() - i,
            {
                let v = read_path(&ps[i], c);
                proof {
                    lemma_list_view_push(vals@, v);
                }
                vals.push(v);
                i = i + 1;
                assert(list_view(vals@, 0) =~= want.subrange(0, i as int));
            }
            assert(want.subrange(0, i as int) =~= want);
            Some(vals)
        },
    }
}

/// Executes a query over candidate documents given in arrival order.
///
/// The filter selects documents (an evaluation error stops the execution,
/// without partial results); the selected documents are ordered stably by
/// their keys, then `skip` and `limit` apply, and each row carries the
/// values of the `returning` paths.
pub fn execute(
    query: &Query,
    docs: Vec<Document>,
    vars: &Document,
    parent: Option<&Document>,
    grandparent: Option<&Document>,
) -> (r: Result<Vec<Row>, EvalError>)
    ensures
        match r {
            Ok(rows) => execution(query@, doc_views(docs@), env_of(vars, parent, grandparent))
                == Ok::<Seq<(DocView, Option<Seq<ValueView>>)>, EvalErrorView>(row_views(rows@)),
            Err(err) => execution(query@, doc_views(docs@), env_of(vars, parent, grandparent))
                == Err::<Seq<(DocView, Option<Seq<ValueView>>)>, EvalErrorView>(err@),
        },
{
    let ghost qv = query@;
    let ghost dv = doc_views(docs@);
    let ghost env = env_of(vars, parent, grandparent);
    let ghost n = docs@.len();
    let ghost d0 = docs@;
    let mut pending = reversed(docs);
    let mut out: Vec<(Vec<Value>, Document)> = Vec::new();
    let ghost mut acc: Seq<(Seq<ValueView>, DocView)> = seq![];
    let ghost mut i: int = 0;
    assert(entries_view(out@) =~= seq![]);
    assert(acc + seq![] =~= acc);
    while pending.len() > 0
        invariant
            qv == query@,
            dv == doc_views(d0),
            d0 == docs@,
            dv.len() == n,
            env == env_of(vars, parent, grandparent),
            pending@.len() == n - i,
            0 <= i <= n,
            forall|k: int| 0 <= k < pending@.len() ==> #[trigger] pending@[k] == d0[n - 1 - k],
            entries_view(out@) == sorted(qv.order, acc),
            selected(qv, dv, env, 0) == match selected(qv, dv, env, i) {
                Ok(rest) => Ok(acc + rest),
                Err(err) => Err::<Seq<(Seq<ValueView>, DocView)>, EvalErrorView>(err),
            },
        decreases pending@.len(),
    {
        let d = pending.pop().unwrap();
        assert(d == d0[i]);
        assert(dv[i] == d@);
        let keep;
        let key;
        {
            let c = Context { doc: &d, parent, grandparent, vars };
            assert(c@ == context_of(dv[i], env));
            keep = match &query.filter {
                None => true,
                Some(f) => match crate::eval::matches(f, &c) {
                    Ok(b) => b,
                    Err(err) => {
                        assert(selected(qv, dv, env, i) == Err::<
                            Seq<(Seq<ValueView>, DocView)>,
                            EvalErrorView,
                        >(err@));
                        return Err(err);
                    },
                },
            };
            key = sort_key(&query.order, &c);
        }
        if keep {
            let ghost x = (list_view(key@, 0), d@);
            let entry = (key, d);
            assert(entry_view(entry) == x);
            insert_sorted(&query.order, &mut out, entry);
            proof {
                let acc2 = acc.push(x);
                assert(acc2.drop_last() =~= acc);
                match selected(qv, dv, env, i + 1) {
                    Ok(rest) => {
                        assert(acc + (seq![x] + rest) =~= acc2 + rest);
                    },
                    Err(_) => {},
                }
                acc = acc2;
            }
        }
        proof {
            i = i + 1;
        }
    }
    assert(selected(qv, dv, env, i) == Ok::<Seq<(Seq<ValueView>, DocView)>, EvalErrorView>(seq![]));
    assert(acc + seq![] =~= acc);
    let len = out.len();
    let lo: usize = match query.skip {
        Some(k) => if k > len as u64 {
            len
        } else {
            k as usize
        },
        None => 0,
    };
    let hi: usize = match query.limit {
        Some(l) => if l >= (len - lo) as u64 {
            len
        } else {
            lo + l as usize
        },
        None => len,
    };
    let mut page = out.split_off(lo);
    page.truncate(hi - lo);
    let ghost pv = entries_view(page@);
    assert(pv =~= sorted(qv.order, acc).subrange(lo as int, hi as int));
    let mut rest = reversed(page);
    let mut rows: Vec<Row> = Vec::new();
    let ghost m = pv.len();
    let ghost want = pv.map_values(
        |e: (Seq<ValueView>, DocView)| (e.1, projection(qv.returning, context_of(e.1, env))),
    );
    assert(row_views(rows@) =~= want.subrange(0, 0));
    while rest.len() > 0
        invariant
            qv == query@,
            env == env_of(vars, parent, grandparent),
            rest@.len() + rows@.len() == m,
            forall|k: int| 0 <= k < rest@.len() ==> #[trigger] entry_view(rest@[k]) == pv[m - 1 - k],
            pv.len() == m,
            want == pv.map_values(
                |e: (Seq<ValueView>, DocView)| (e.1, projection(qv.returning, context_of(e.1, env))),
            ),
            row_views(rows@) == want.subrange(0, rows@.len() as int),
        decreases rest@.len(),
    {
        let ghost k = rows@.len() as int;
        let e = rest.pop().unwrap();
        assert(entry_view(e) == pv[k]);
        let (_, doc) = e;
        let proj;
        {
            let c = Context { doc: &doc, parent, grandparent, vars };
            proj = project(&query.returning, &c);
        }
        let row = Row { document: doc, projection: proj };
        assert(row@ == want[k]);
        rows.push(row);
        assert(row_views(rows@) =~= want.subrange(0, rows@.len() as int));
    }
    assert(want.subrange(0, rows@.len() as int) =~= want);
    Ok(rows)
}


/// Executing one query over the same candidates in the same context gives
/// the same rows, in the same order: the outcome is a function of those
/// inputs alone, with no tie broken by chance.
pub proof fn lemma_execution_repeatable(
    q: QueryView,
    docs: Seq<DocView>,
    env: EnvView,
    q2: QueryView,
    docs2: Seq<DocView>,
    env2: EnvView,
)
    requires
        q == q2,
        docs == docs2,
        env == env2,
    ensures
        execution(q, docs, env) == execution(q2, docs2, env2),
{
}


pub proof fn lemma_key_cmp_antisymmetric(
    order: Seq<OrderItemView>,
    a: Seq<ValueView>,
    b: Seq<ValueView>,
    i: int,
)
    ensures
        key_cmp(order, a, b, i) == -key_cmp(order, b, a, i),
    decreases order.len() - i,
{
    if 0 <= i && i < order.len() && i < a.len() && i < b.len() {
        lemma_value_cmp_antisymmetric(a[i], b[i]);
        lemma_key_cmp_antisymmetric(order, a, b, i + 1);
    }
}

pub proof fn lemma_insert_pos(
    order: Seq<OrderItemView>,
    s: Seq<(Seq<ValueView>, DocView)>,
    x: (Seq<ValueView>, DocView),
    j: int,
)
    requires
        0 <= j <= s.len(),
    ensures
        j <= insert_pos(order, s, x, j) <= s.len(),
        forall|k: int|
            j <= k < insert_pos(order, s, x, j) ==> key_cmp(order, #[trigger] s[k].0, x.0, 0) <= 0,
        insert_pos(order, s, x, j) < s.len() ==> key_cmp(
            order,
            s[insert_pos(order, s, x, j)].0,
            x.0,
            0,
        ) > 0,
    decreases s.len() - j,
{
    if j < s.len() && key_cmp(order, s[j].0, x.0, 0) <= 0 {
        lemma_insert_pos(order, s, x, j + 1);
    }
}

/// Whether each entry's key is at most the next one's.
pub open spec fn in_key_order(order: Seq<OrderItemView>, s: Seq<(Seq<ValueView>, DocView)>) -> bool {
    forall|i: int| 0 <= i < s.len() - 1 ==> key_cmp(order, #[trigger] s[i].0, s[i + 1].0, 0) <= 0
}

/// The executor's sort puts every selected document at or below the next
/// one in key order (and, by its construction, keeps documents with equal
/// keys in arrival order).
pub proof fn lemma_sorted_in_key_order(order: Seq<OrderItemView>, s: Seq<(Seq<ValueView>, DocView)>)
    ensures
        in_key_order(order, sorted(order, s)),
        sorted(order, s).len() == s.len(),
    decreases s.len(),
{
    if s.len() > 0 {
        let t = sorted(order, s.drop_last());
        let x = s.last();
        lemma_sorted_in_key_order(order, s.drop_last());
        lemma_insert_pos(order, t, x, 0);
        let p = insert_pos(order, t, x, 0);
        let out = t.insert(p, x);
        assert(out == sorted(order, s));
        assert forall|i: int| 0 <= i < out.len() - 1 implies key_cmp(
            order,
            #[trigger] out[i].0,
            out[i + 1].0,
            0,
        ) <= 0 by {
            if i + 1 < p {
                assert(out[i] == t[i] && out[i + 1] == t[i + 1]);
            } else if i + 1 == p {
                assert(out[i] == t[i] && out[i + 1] == x);
            } else if i == p {
                assert(out[i] == x && out[i + 1] == t[i]);
                lemma_key_cmp_antisymmetric(order, t[i].0, x.0, 0);
            } else {
                assert(out[i] == t[i - 1] && out[i + 1] == t[i]);
            }
        }
    }
}

} // verus!
