use pqb::convert_table_name;
use pqb::SelectQuery;
use pqb::Value;

#[test]
fn test_table_name() {
    let q = SelectQuery::from_model(convert_table_name("MyModel"), Vec::new());
    assert_eq!("SELECT * FROM \"my_model\"", q.build().0);
}

#[test]
fn test_fields_only_render() {
    let fields = vec!["id".to_string(), "login".to_string()];
    let (s, vals) = SelectQuery::from_model("user".to_string(), fields).build();
    assert_eq!("SELECT id, login FROM \"user\"", s);
    assert!(vals.is_empty());
}

#[test]
fn test_filter() {
    let fields = vec!["id".to_string(), "login".to_string()];
    let q = SelectQuery::from_model(convert_table_name("MyModel"), fields)
        .filter("user_id > ?", Value::Int(5))
        .filter("bla like ?", Value::Text("aaaa".to_string()));
    let (s, vals) = q.build();
    assert_eq!(
        "SELECT id, login FROM \"my_model\" WHERE user_id > $1 AND bla like $2",
        s
    );
    assert_eq!(
        vec![Value::Int(5), Value::Text("aaaa".to_string())],
        vals
    );
}

#[test]
fn test_limit() {
    let q = SelectQuery::from_model(convert_table_name("MyModel"), Vec::new()).limit(1);
    assert_eq!("SELECT * FROM \"my_model\" LIMIT 1", q.build().0);
}

#[test]
fn test_offset() {
    let q = SelectQuery::from_model(convert_table_name("MyModel"), Vec::new()).offset(10);
    assert_eq!("SELECT * FROM \"my_model\" OFFSET 10", q.build().0);
}

#[test]
fn test_complex() {
    let (s, vals) = SelectQuery::from_model_with_alias(convert_table_name("User"), Vec::new(), "u")
        .fields(vec!["u.id".to_string(), "p.title".to_string()])
        .join(&("post", "p"), "p.user_id = u.id")
        .filtern(
            "u.id in (?)",
            vec![Value::Int(1), Value::Int(2), Value::Int(3)],
        )
        .filter("p.id = ?", Value::Int(10))
        .group_by("u.id")
        .group_by("p.id")
        .having("count(u.id) > 10")
        .limit(10)
        .offset(10)
        .build();

    assert_eq!(
        "SELECT u.id, p.title FROM \"user\" u \
         JOIN \"post\" p ON p.user_id = u.id \
         WHERE u.id in ($1, $2, $3) \
         AND p.id = $4 \
         GROUP BY u.id, p.id \
         HAVING count(u.id) > 10 \
         LIMIT 10 \
         OFFSET 10",
        s
    );
    assert_eq!(
        vec![Value::Int(1), Value::Int(2), Value::Int(3), Value::Int(10)],
        vals
    );
}

#[test]
fn test_placeholder_numbering_across_filters() {
    let (s, vals) = SelectQuery::new()
        .from("t")
        .filtern("a in (?)", vec![Value::Int(1), Value::Int(2)])
        .filter("b = ?", Value::Bool(true))
        .filtern("c in (?)", vec![Value::Null])
        .build();
    assert_eq!(
        "SELECT * FROM \"t\" WHERE a in ($1, $2) AND b = $3 AND c in ($4)",
        s
    );
    assert_eq!(4, vals.len());
    assert_eq!(
        vec![Value::Int(1), Value::Int(2), Value::Bool(true), Value::Null],
        vals
    );
}

#[test]
fn test_render_twice_identical() {
    let q = SelectQuery::from_model("user".to_string(), vec!["id".to_string()])
        .filter("id = ?", Value::Int(7));
    let first = q.build();
    let second = q.build();
    assert_eq!(first, second);
}

#[test]
fn test_filtern_empty_values() {
    let (s, vals) = SelectQuery::new()
        .from("t")
        .filtern("x in (?)", Vec::new())
        .filter("y = ?", Value::Int(1))
        .build();
    assert_eq!("SELECT * FROM \"t\" WHERE x in () AND y = $1", s);
    assert_eq!(vec![Value::Int(1)], vals);
}

#[test]
fn test_join_without_alias() {
    let (s, _) = SelectQuery::new()
        .from("a")
        .join(&"b", "b.a_id = a.id")
        .build();
    assert_eq!("SELECT * FROM \"a\" JOIN \"b\" ON b.a_id = a.id", s);
}

#[test]
fn test_alias_and_having_overwrite() {
    let (s, _) = SelectQuery::new()
        .from("t")
        .alias("x")
        .having("a > 1")
        .having("b > 2")
        .group_by("a")
        .build();
    assert_eq!("SELECT * FROM \"t\" x GROUP BY a HAVING b > 2", s);
}

#[test]
fn test_multi_digit_limit_and_offset() {
    let (s, _) = SelectQuery::new().from("t").limit(105).offset(1234).build();
    assert_eq!("SELECT * FROM \"t\" LIMIT 105 OFFSET 1234", s);
}

#[test]
fn test_statement_text_matches_build() {
    let q = SelectQuery::new().from("t").filter("a = ?", Value::Int(3));
    assert_eq!(q.build().0, q.statement_text());
}

#[test]
fn test_null_value_binds() {
    let (s, vals) = SelectQuery::new()
        .from("t")
        .filter("x is not distinct from ?", Value::Null)
        .build();
    assert_eq!("SELECT * FROM \"t\" WHERE x is not distinct from $1", s);
    assert_eq!(vec![Value::Null], vals);
}
