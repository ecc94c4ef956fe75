use pqb::insert;
use pqb::update;
use pqb::Value;

#[test]
fn test_insert_skips_and_returns() {
    let pairs = vec![
        ("id".to_string(), Value::Int(1)),
        ("login".to_string(), Value::Text("bob".to_string())),
        ("active".to_string(), Value::Bool(true)),
    ];
    let skip = vec!["id".to_string()];
    let returning = vec!["id".to_string(), "login".to_string()];
    let (s, vals) = insert("user", &pairs, &skip, &returning);
    assert_eq!(
        "INSERT INTO \"user\" (\"login\", \"active\") VALUES ($1, $2) RETURNING \"id\", \"login\"",
        s
    );
    assert_eq!(
        vec![Value::Text("bob".to_string()), Value::Bool(true)],
        vals
    );
}

#[test]
fn test_insert_no_returning() {
    let pairs = vec![("a".to_string(), Value::Int(1))];
    let (s, vals) = insert("t", &pairs, &Vec::new(), &Vec::new());
    assert_eq!("INSERT INTO \"t\" (\"a\") VALUES ($1)", s);
    assert_eq!(vec![Value::Int(1)], vals);
}

#[test]
fn test_insert_all_skipped() {
    let pairs = vec![("a".to_string(), Value::Int(1))];
    let skip = vec!["a".to_string()];
    let (s, vals) = insert("t", &pairs, &skip, &Vec::new());
    assert_eq!("INSERT INTO \"t\" () VALUES ()", s);
    assert!(vals.is_empty());
}

#[test]
fn test_update_with_predicate() {
    let pairs = vec![
        ("login".to_string(), Value::Text("bob".to_string())),
        ("active".to_string(), Value::Bool(false)),
    ];
    let skip: Vec<String> = Vec::new();
    let returning = vec!["id".to_string()];
    let (s, vals) = update("user", &pairs, &skip, "\"id\" = 7", &returning);
    assert_eq!(
        "UPDATE \"user\" SET \"login\" = $1, \"active\" = $2 WHERE \"id\" = 7 RETURNING \"id\"",
        s
    );
    assert_eq!(
        vec![Value::Text("bob".to_string()), Value::Bool(false)],
        vals
    );
}

#[test]
fn test_update_skip_renumbers() {
    let pairs = vec![
        ("id".to_string(), Value::Int(9)),
        ("login".to_string(), Value::Text("ann".to_string())),
    ];
    let skip = vec!["id".to_string()];
    let (s, vals) = update("user", &pairs, &skip, "\"id\" = 9", &Vec::new());
    assert_eq!("UPDATE \"user\" SET \"login\" = $1 WHERE \"id\" = 9", s);
    assert_eq!(vec![Value::Text("ann".to_string())], vals);
}
