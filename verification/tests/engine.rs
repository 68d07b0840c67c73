use minisql::ast::{Payload, ValueExpr};
use minisql::builder::num;
use minisql::builder::col;
use minisql::builder::col_def;
use minisql::builder::generate_uuid;
use minisql::builder::table;
use minisql::builder::text;
use minisql::builder::text_value;
use minisql::builder::timestamp;
use minisql::engine::Glue;
use minisql::error::EngineError;
use minisql::value::{DataType, Value};

fn user_table(glue: &mut Glue) {
    let result = table("user")
        .create_table_if_not_exists()
        .add_column(col_def("id", DataType::Uuid).primary_key())
        .add_column(col_def("email", DataType::Text).unique())
        .add_column(col_def("password", DataType::Text))
        .add_column(col_def("created_at", DataType::Timestamp))
        .execute(glue);
    assert_eq!(result, Ok(Payload::Create));
}

fn insert_user(glue: &mut Glue, email: &str) -> Result<Payload, EngineError> {
    table("user")
        .insert()
        .columns(vec![
            "id".to_string(),
            "email".to_string(),
            "password".to_string(),
            "created_at".to_string(),
        ])
        .values(vec![vec![
            generate_uuid(),
            text_value(email),
            text_value("password"),
            timestamp("2020-01-01 00:00:00"),
        ]])
        .execute(glue)
}

#[test]
fn end_to_end_user_table() {
    let mut glue = Glue::new();

    user_table(&mut glue);

    let result = insert_user(&mut glue, "glue@example.com");
    assert_eq!(result, Ok(Payload::Insert(1)));

    let results = glue
        .execute(&table("user").select().build())
        .unwrap();
    let rows = match &results {
        Payload::Select { rows, .. } => rows,
        _ => panic!("unexpected result: {:?}", results),
    };
    let first_row = &rows[0];
    assert_eq!(first_row.len(), 4);
    assert_eq!(first_row[1], Value::Str("glue@example.com".to_string()));

    let result = table("user")
        .update()
        .set("email", text("glue2@example.com"))
        .execute(&mut glue);
    assert_eq!(result, Ok(Payload::Update(1)));

    let actual = table("user")
        .select()
        .filter(col("email").eq_expr(text("glue2@example.com")))
        .project(vec!["email".to_string()])
        .execute(&mut glue);
    assert_eq!(
        actual,
        Ok(Payload::Select {
            labels: vec!["email".to_string()],
            rows: vec![vec![Value::Str("glue2@example.com".to_string())]],
        })
    );

    let result = table("user")
        .delete()
        .filter(col("email").eq_expr(text("glue2@example.com")))
        .execute(&mut glue);
    assert_eq!(result, Ok(Payload::Delete(1)));

    let actual = table("user")
        .select()
        .filter(col("email").eq_expr(text("glue2@example.com")))
        .execute(&mut glue);
    assert_eq!(
        actual,
        Ok(Payload::Select {
            labels: vec![
                "id".to_string(),
                "email".to_string(),
                "password".to_string(),
                "created_at".to_string(),
            ],
            rows: vec![],
        })
    );
}

#[test]
fn create_twice_if_not_exists_is_noop() {
    let mut glue = Glue::new();
    user_table(&mut glue);
    // the second call succeeds and changes nothing
    user_table(&mut glue);
    let result = insert_user(&mut glue, "a@example.com");
    assert_eq!(result, Ok(Payload::Insert(1)));
    user_table(&mut glue);
    // the row survived the repeated create
    let actual = table("user").select().execute(&mut glue);
    match actual {
        Ok(Payload::Select { rows, .. }) => assert_eq!(rows.len(), 1),
        other => panic!("unexpected result: {:?}", other),
    }
}

#[test]
fn create_existing_without_if_not_exists_fails() {
    let mut glue = Glue::new();
    user_table(&mut glue);
    let result = table("user")
        .create_table()
        .add_column(col_def("id", DataType::Uuid).primary_key())
        .execute(&mut glue);
    assert_eq!(result, Err(EngineError::TableAlreadyExists));
}

#[test]
fn duplicate_unique_value_rejected() {
    let mut glue = Glue::new();
    user_table(&mut glue);
    assert_eq!(
        insert_user(&mut glue, "same@example.com"),
        Ok(Payload::Insert(1))
    );
    // a second row with the same UNIQUE email fails whole
    assert_eq!(
        insert_user(&mut glue, "same@example.com"),
        Err(EngineError::UniqueViolation)
    );
    // and the row count is unchanged
    let actual = table("user").select().execute(&mut glue);
    match actual {
        Ok(Payload::Select { rows, .. }) => assert_eq!(rows.len(), 1),
        other => panic!("unexpected result: {:?}", other),
    }
}

#[test]
fn duplicate_inside_one_statement_rejected() {
    let mut glue = Glue::new();
    user_table(&mut glue);
    let result = table("user")
        .insert()
        .columns(vec!["id".to_string(), "email".to_string()])
        .values(vec![
            vec![generate_uuid(), text_value("x@example.com")],
            vec![generate_uuid(), text_value("x@example.com")],
        ])
        .execute(&mut glue);
    assert_eq!(result, Err(EngineError::UniqueViolation));
    // all-or-nothing: neither row was written
    let actual = table("user").select().execute(&mut glue);
    match actual {
        Ok(Payload::Select { rows, .. }) => assert_eq!(rows.len(), 0),
        other => panic!("unexpected result: {:?}", other),
    }
}

#[test]
fn insert_then_select_round_trip() {
    let mut glue = Glue::new();
    let result = table("pair")
        .create_table()
        .add_column(col_def("k", DataType::Int))
        .add_column(col_def("v", DataType::Text))
        .execute(&mut glue);
    assert_eq!(result, Ok(Payload::Create));
    let result = table("pair")
        .insert()
        .values(vec![vec![
            ValueExpr::Literal(Value::I64(7)),
            text_value("seven"),
        ]])
        .execute(&mut glue);
    assert_eq!(result, Ok(Payload::Insert(1)));
    let actual = table("pair").select().execute(&mut glue);
    assert_eq!(
        actual,
        Ok(Payload::Select {
            labels: vec!["k".to_string(), "v".to_string()],
            rows: vec![vec![Value::I64(7), Value::Str("seven".to_string())]],
        })
    );
}

#[test]
fn delete_with_no_match_is_noop() {
    let mut glue = Glue::new();
    user_table(&mut glue);
    assert_eq!(
        insert_user(&mut glue, "keep@example.com"),
        Ok(Payload::Insert(1))
    );
    let result = table("user")
        .delete()
        .filter(col("email").eq_expr(text("absent@example.com")))
        .execute(&mut glue);
    assert_eq!(result, Ok(Payload::Delete(0)));
    let actual = table("user").select().execute(&mut glue);
    match actual {
        Ok(Payload::Select { rows, .. }) => assert_eq!(rows.len(), 1),
        other => panic!("unexpected result: {:?}", other),
    }
}

#[test]
fn update_then_select_by_new_and_old_value() {
    let mut glue = Glue::new();
    user_table(&mut glue);
    assert_eq!(
        insert_user(&mut glue, "old@example.com"),
        Ok(Payload::Insert(1))
    );
    let result = table("user")
        .update()
        .set("email", text("new@example.com"))
        .filter(col("email").eq_expr(text("old@example.com")))
        .execute(&mut glue);
    assert_eq!(result, Ok(Payload::Update(1)));
    // the new value finds exactly the updated row
    let by_new = table("user")
        .select()
        .filter(col("email").eq_expr(text("new@example.com")))
        .project(vec!["email".to_string()])
        .execute(&mut glue);
    assert_eq!(
        by_new,
        Ok(Payload::Select {
            labels: vec!["email".to_string()],
            rows: vec![vec![Value::Str("new@example.com".to_string())]],
        })
    );
    // the old value finds nothing
    let by_old = table("user")
        .select()
        .filter(col("email").eq_expr(text("old@example.com")))
        .project(vec!["email".to_string()])
        .execute(&mut glue);
    assert_eq!(
        by_old,
        Ok(Payload::Select {
            labels: vec!["email".to_string()],
            rows: vec![],
        })
    );
}

#[test]
fn generated_uuids_are_distinct() {
    let mut glue = Glue::new();
    user_table(&mut glue);
    assert_eq!(
        insert_user(&mut glue, "a@example.com"),
        Ok(Payload::Insert(1))
    );
    assert_eq!(
        insert_user(&mut glue, "b@example.com"),
        Ok(Payload::Insert(1))
    );
    let actual = table("user").select().execute(&mut glue);
    match actual {
        Ok(Payload::Select { rows, .. }) => {
            assert_eq!(rows.len(), 2);
            assert_ne!(rows[0][0], rows[1][0]);
        },
        other => panic!("unexpected result: {:?}", other),
    }
}

#[test]
fn select_from_missing_table_fails() {
    let mut glue = Glue::new();
    let actual = table("nobody").select().execute(&mut glue);
    assert_eq!(actual, Err(EngineError::TableNotFound));
}

#[test]
fn unknown_projection_column_fails() {
    let mut glue = Glue::new();
    user_table(&mut glue);
    let actual = table("user")
        .select()
        .project(vec!["age".to_string()])
        .execute(&mut glue);
    assert_eq!(actual, Err(EngineError::ColumnNotFound));
}

#[test]
fn unknown_filter_column_fails() {
    let mut glue = Glue::new();
    user_table(&mut glue);
    assert_eq!(
        insert_user(&mut glue, "a@example.com"),
        Ok(Payload::Insert(1))
    );
    let actual = table("user")
        .select()
        .filter(col("age").eq_expr(text("x")))
        .execute(&mut glue);
    assert_eq!(actual, Err(EngineError::ColumnNotFound));
}

#[test]
fn wrong_variant_into_column_fails() {
    let mut glue = Glue::new();
    user_table(&mut glue);
    let result = table("user")
        .insert()
        .columns(vec!["id".to_string(), "email".to_string()])
        .values(vec![vec![
            generate_uuid(),
            ValueExpr::Literal(Value::I64(3)),
        ]])
        .execute(&mut glue);
    assert_eq!(result, Err(EngineError::TypeMismatch));
}

#[test]
fn null_into_primary_key_fails() {
    let mut glue = Glue::new();
    user_table(&mut glue);
    let result = table("user")
        .insert()
        .columns(vec!["id".to_string(), "email".to_string()])
        .values(vec![vec![
            ValueExpr::Literal(Value::Null),
            text_value("a@example.com"),
        ]])
        .execute(&mut glue);
    assert_eq!(result, Err(EngineError::TypeMismatch));
}

#[test]
fn arity_mismatch_fails() {
    let mut glue = Glue::new();
    user_table(&mut glue);
    let result = table("user")
        .insert()
        .columns(vec!["id".to_string(), "email".to_string()])
        .values(vec![vec![generate_uuid()]])
        .execute(&mut glue);
    assert_eq!(result, Err(EngineError::ParseError));
}

#[test]
fn malformed_timestamp_literal_fails() {
    let mut glue = Glue::new();
    user_table(&mut glue);
    let result = table("user")
        .insert()
        .columns(vec!["id".to_string(), "created_at".to_string()])
        .values(vec![vec![generate_uuid(), timestamp("2020-13-01 00:00:00")]])
        .execute(&mut glue);
    assert_eq!(result, Err(EngineError::ParseError));
}

#[test]
fn empty_schema_is_rejected() {
    let mut glue = Glue::new();
    let result = table("empty").create_table().execute(&mut glue);
    assert_eq!(result, Err(EngineError::ParseError));
}

#[test]
fn non_boolean_filter_fails() {
    let mut glue = Glue::new();
    user_table(&mut glue);
    assert_eq!(
        insert_user(&mut glue, "a@example.com"),
        Ok(Payload::Insert(1))
    );
    let actual = table("user")
        .select()
        .filter(text("not a boolean"))
        .execute(&mut glue);
    assert_eq!(actual, Err(EngineError::TypeMismatch));
}

#[test]
fn numeric_filters_with_combinators() {
    let mut glue = Glue::new();
    let result = table("score")
        .create_table()
        .add_column(col_def("k", DataType::Int).primary_key())
        .add_column(col_def("v", DataType::Int))
        .execute(&mut glue);
    assert_eq!(result, Ok(Payload::Create));
    let result = table("score")
        .insert()
        .values(vec![
            vec![ValueExpr::Literal(Value::I64(1)), ValueExpr::Literal(Value::I64(10))],
            vec![ValueExpr::Literal(Value::I64(2)), ValueExpr::Literal(Value::I64(20))],
            vec![ValueExpr::Literal(Value::I64(3)), ValueExpr::Literal(Value::I64(30))],
        ])
        .execute(&mut glue);
    assert_eq!(result, Ok(Payload::Insert(3)));
    // 1 < k AND v < 30 keeps exactly the middle row
    let actual = table("score")
        .select()
        .filter(num(1).lt_expr(col("k")).and_expr(col("v").lt_expr(num(30))))
        .project(vec!["k".to_string()])
        .execute(&mut glue);
    assert_eq!(
        actual,
        Ok(Payload::Select {
            labels: vec!["k".to_string()],
            rows: vec![vec![Value::I64(2)]],
        })
    );
}

#[test]
fn get_table_and_drop_table() {
    let mut glue = Glue::new();
    assert!(glue.get_table(&"user".to_string()).is_none());
    user_table(&mut glue);
    let schema = glue.get_table(&"user".to_string()).expect("schema");
    assert_eq!(schema.name, "user".to_string());
    assert_eq!(schema.columns.len(), 4);
    assert_eq!(schema.columns[1].name, "email".to_string());
    assert!(schema.columns[1].unique);
    assert_eq!(glue.drop_table(&"user".to_string()), Ok(()));
    assert!(glue.get_table(&"user".to_string()).is_none());
    assert_eq!(
        glue.drop_table(&"user".to_string()),
        Err(minisql::error::EngineError::TableNotFound)
    );
    // the name is free again
    user_table(&mut glue);
}

#[test]
fn null_into_not_null_column_fails() {
    let mut glue = Glue::new();
    let result = table("account")
        .create_table()
        .add_column(col_def("id", DataType::Int).primary_key())
        .add_column(col_def("owner", DataType::Text).not_null())
        .execute(&mut glue);
    assert_eq!(result, Ok(Payload::Create));
    // leaving a NOT NULL column out of the column list fills it with a
    // null, which is refused
    let result = table("account")
        .insert()
        .columns(vec!["id".to_string()])
        .values(vec![vec![ValueExpr::Literal(Value::I64(1))]])
        .execute(&mut glue);
    assert_eq!(result, Err(EngineError::TypeMismatch));
    let result = table("account")
        .insert()
        .values(vec![vec![ValueExpr::Literal(Value::I64(1)), text_value("me")]])
        .execute(&mut glue);
    assert_eq!(result, Ok(Payload::Insert(1)));
}
