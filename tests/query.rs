use zerotable::ast::{Expr, Path, Scope};
use zerotable::eval::{evaluate, Context, Document, EvalError};
use zerotable::exec::{execute, Row};
use zerotable::parser::{parse, QueryError};
use zerotable::value::Value;

fn s(x: &str) -> String {
    x.to_string()
}

fn num(n: i64) -> Value {
    Value::Number(n * 1_000_000)
}

fn text(x: &str) -> Value {
    Value::String(s(x))
}

fn doc(fields: Vec<(&str, Value)>) -> Document {
    Document {
        fields: fields.into_iter().map(|(k, v)| (s(k), v)).collect(),
    }
}

fn empty() -> Document {
    doc(vec![])
}

fn run(q: &str, docs: Vec<Document>) -> Result<Vec<Row>, EvalError> {
    let query = parse(q).unwrap();
    execute(&query, docs, &empty(), None, None)
}

fn docs_of(rows: Vec<Row>) -> Vec<Document> {
    rows.into_iter().map(|r| r.document).collect()
}

fn abc() -> Vec<Document> {
    vec![
        doc(vec![("a", num(1)), ("b", text("x"))]),
        doc(vec![("a", num(2)), ("b", text("y"))]),
        doc(vec![("a", num(3)), ("b", text("z"))]),
    ]
}

#[test]
fn negative_skip_is_a_parse_error() {
    assert!(matches!(
        parse("where a = 1 order by a skip -1"),
        Err(QueryError::Parse(_))
    ));
    assert!(matches!(
        parse("where a = 1 order a skip -1"),
        Err(QueryError::Parse(_))
    ));
    assert!(matches!(parse("limit 1.5"), Err(QueryError::Parse(_))));
}

#[test]
fn end_to_end_filter_order_limit() {
    let rows = run("where a > 1 order a desc limit 1", abc()).unwrap();
    assert_eq!(
        docs_of(rows),
        vec![doc(vec![("a", num(3)), ("b", text("z"))])]
    );
}

#[test]
fn end_to_end_contains_any() {
    let docs = vec![
        doc(vec![("tags", Value::List(vec![text("x"), text("y")]))]),
        doc(vec![("tags", Value::List(vec![text("z")]))]),
    ];
    let rows = run(r#"where tags containsAny ["y","z"]"#, docs).unwrap();
    assert_eq!(rows.len(), 2);
}

#[test]
fn repeated_execution_is_identical() {
    let query = parse("where a >= 1 order b desc").unwrap();
    let first = execute(&query, abc(), &empty(), None, None).unwrap();
    let second = execute(&query, abc(), &empty(), None, None).unwrap();
    assert_eq!(first, second);
}

#[test]
fn absent_fields_never_raise() {
    let rows = run("where missing = 1 or missing.deep > 2 or ^up = 3", abc()).unwrap();
    assert!(rows.is_empty());
    let rows = run("where missing is null", abc()).unwrap();
    assert_eq!(rows.len(), 3);
    let rows = run("where missing exists", abc()).unwrap();
    assert!(rows.is_empty());
}

#[test]
fn between_with_mixed_bounds_is_false() {
    let rows = run(r#"where a between "a" and 5"#, abc()).unwrap();
    assert!(rows.is_empty());
    let rows = run("where a between 2 and 3", abc()).unwrap();
    assert_eq!(rows.len(), 2);
}

#[test]
fn parse_builds_the_tree() {
    let q = parse("where not a.b = 1 order ^p desc, c skip 2 limit 3 returning a, ^^g").unwrap();
    assert_eq!(q.skip, Some(2));
    assert_eq!(q.limit, Some(3));
    assert_eq!(q.order.len(), 2);
    assert!(q.order[0].descending);
    assert_eq!(q.order[0].path, Path { scope: Scope::Parent, name: s("p") });
    assert!(!q.order[1].descending);
    let ret = q.returning.unwrap();
    assert_eq!(ret[1], Path { scope: Scope::Grandparent, name: s("g") });
    match q.filter.unwrap() {
        Expr::Not(inner) => match *inner {
            Expr::Compare(_, l, _) => {
                assert_eq!(*l, Expr::Field(Path { scope: Scope::Own, name: s("a.b") }))
            }
            other => panic!("unexpected {:?}", other),
        },
        other => panic!("unexpected {:?}", other),
    }
}

#[test]
fn clause_errors() {
    assert!(matches!(parse("limit 1 skip 2"), Err(QueryError::Parse(_))));
    assert!(matches!(parse("where a = 1 where b = 2"), Err(QueryError::Parse(_))));
    assert!(matches!(parse("returning"), Err(QueryError::Parse(_))));
    assert!(matches!(parse("where a contains [1]"), Err(QueryError::Parse(_))));
    assert!(matches!(parse("where a containsAny 1"), Err(QueryError::Parse(_))));
    assert!(matches!(parse("where a-1"), Err(QueryError::Parse(_))));
    assert!(matches!(parse("where a = !"), Err(QueryError::Lex(_))));
    let q = parse("").unwrap();
    assert!(q.filter.is_none() && q.order.is_empty() && q.returning.is_none());
}

#[test]
fn parse_error_names_expected_and_found() {
    match parse("where a = 1 limit x") {
        Err(QueryError::Parse(e)) => {
            assert_eq!(e.position, 5);
            assert!(e.message.contains("found x"), "{}", e.message);
        }
        other => panic!("unexpected {:?}", other),
    }
}

#[test]
fn arithmetic_and_saturation() {
    let d = vec![doc(vec![("a", num(2)), ("big", Value::Number(i64::MAX))])];
    assert_eq!(run("where a * 3 + 1 = 7", d).unwrap().len(), 1);
    let d = vec![doc(vec![("a", num(2)), ("big", Value::Number(i64::MAX))])];
    assert_eq!(run("where big + 1 = big", d).unwrap().len(), 1);
    let d = vec![doc(vec![("a", num(7))])];
    assert_eq!(run("where a / 2 = 3.5 and a % 4 = 3", d).unwrap().len(), 1);
    let d = vec![doc(vec![("a", num(7))])];
    assert_eq!(run("where (a / 0) is null", d).unwrap().len(), 1);
    let d = vec![doc(vec![("a", num(-7))])];
    assert_eq!(run("where a % 4 = -3 and a / 2 = -3.5", d).unwrap().len(), 1);
}

#[test]
fn null_equality_and_three_valued_logic() {
    assert_eq!(run("where null = null", abc()).unwrap().len(), 3);
    assert_eq!(run("where missing = null", abc()).unwrap().len(), 0);
    assert_eq!(run("where not (missing = 1)", abc()).unwrap().len(), 0);
    assert_eq!(run("where missing = 1 or a = 1", abc()).unwrap().len(), 1);
    assert_eq!(run("where a = \"1\"", abc()).unwrap().len(), 0);
}

#[test]
fn like_and_regex() {
    let d = || vec![doc(vec![("name", text("hello world"))]), doc(vec![("name", num(1))])];
    assert_eq!(run(r#"where name like "hel%o w_rld""#, d()).unwrap().len(), 1);
    assert_eq!(run(r#"where name like "hel_""#, d()).unwrap().len(), 0);
    assert_eq!(run(r#"where name regex "^h.*d$""#, d()).unwrap().len(), 1);
    assert_eq!(
        run(r#"where name regex "(""#, d()),
        Err(EvalError::InvalidRegex(s("(")))
    );
}

#[test]
fn casts() {
    let d = || vec![doc(vec![("n", text("42")), ("t", text("true")), ("x", text("abc"))])];
    assert_eq!(run("where n::number = 42", d()).unwrap().len(), 1);
    assert_eq!(run("where t::bool = true", d()).unwrap().len(), 1);
    assert_eq!(run(r#"where true::string = "true""#, d()).unwrap().len(), 1);
    assert_eq!(run(r#"where n::number::string = "42""#, d()).unwrap().len(), 1);
    assert_eq!(run(r#"where (0 - 3.5)::string = "-3.5""#, d()).unwrap().len(), 1);
    assert_eq!(run(r#"where 0.000001::string = "0.000001""#, d()).unwrap().len(), 1);
    assert_eq!(
        run("where x::number = 1", d()),
        Err(EvalError::InvalidCast(s("number")))
    );
    assert_eq!(
        run("where n::date = 1", d()),
        Err(EvalError::InvalidCast(s("date")))
    );
}

#[test]
fn membership_predicates() {
    let d = || {
        vec![
            doc(vec![("a", num(1)), ("tags", Value::List(vec![text("x"), text("y")]))]),
            doc(vec![("a", num(5)), ("tags", text("x"))]),
        ]
    };
    assert_eq!(run("where a in [1, 2]", d()).unwrap().len(), 1);
    assert_eq!(run(r#"where tags contains "y""#, d()).unwrap().len(), 1);
    assert_eq!(run(r#"where tags containsAll ["x", "y"]"#, d()).unwrap().len(), 1);
    assert_eq!(run(r#"where tags containsAll ["x", "q"]"#, d()).unwrap().len(), 0);
    assert_eq!(run(r#"where tags containsAny ["x"]"#, d()).unwrap().len(), 1);
}

#[test]
fn order_across_kinds_and_stability() {
    let docs = vec![
        doc(vec![("id", num(1)), ("k", text("b"))]),
        doc(vec![("id", num(2))]),
        doc(vec![("id", num(3)), ("k", num(5))]),
        doc(vec![("id", num(4)), ("k", text("b"))]),
        doc(vec![("id", num(5)), ("k", Value::Bool(true))]),
    ];
    let rows = run("order k returning id", docs).unwrap();
    let ids: Vec<Value> = rows
        .into_iter()
        .map(|r| r.projection.unwrap().remove(0))
        .collect();
    assert_eq!(ids, vec![num(2), num(5), num(3), num(1), num(4)]);
}

#[test]
fn skip_limit_and_projection() {
    let rows = run("order a skip 1 limit 5 returning b, missing", abc()).unwrap();
    assert_eq!(rows.len(), 2);
    assert_eq!(rows[0].projection, Some(vec![text("y"), Value::Null]));
    assert_eq!(run("skip 10", abc()).unwrap().len(), 0);
    assert_eq!(run("limit 0", abc()).unwrap().len(), 0);
}

#[test]
fn parents_and_variables() {
    let query = parse("where ^owner = $who and ^^root exists").unwrap();
    let parent = doc(vec![("owner", text("ann"))]);
    let grand = doc(vec![("root", Value::Bool(true))]);
    let vars = doc(vec![("who", text("ann"))]);
    let rows = execute(&query, abc(), &vars, Some(&parent), Some(&grand)).unwrap();
    assert_eq!(rows.len(), 3);
    let rows = execute(&query, abc(), &vars, None, None).unwrap();
    assert_eq!(rows.len(), 0);
}

#[test]
fn evaluate_a_list_literal() {
    let d = doc(vec![]);
    let vars = empty();
    let c = Context { doc: &d, parent: None, grandparent: None, vars: &vars };
    let q = parse("where [1, \"a\"] = [1, \"a\"]").unwrap();
    assert_eq!(evaluate(&q.filter.unwrap(), &c), Ok(Value::Bool(true)));
}
