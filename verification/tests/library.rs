use todo_mac::fields::{create_fields, Field, FieldVal};
use todo_mac::mac::TodoMAC;
use todo_mac::model::{handle_fetch_one_result, Error, StoreError};
use todo_mac::numeric::{i64_to_dec_string, parse_i64};
use todo_mac::security::{utx_from_token, Error as SecurityError};
use todo_mac::store::Store;
use todo_mac::todo::{status_from_store, status_to_store, Todo, TodoPatch, TodoStatus};

fn seeded() -> Store {
    let mut store = Store::new(1000);
    store.seed(Todo {
        id: 100,
        cid: 123,
        title: "todo 100".to_string(),
        status: TodoStatus::Close,
    });
    store.seed(Todo {
        id: 101,
        cid: 123,
        title: "todo 101".to_string(),
        status: TodoStatus::Open,
    });
    store
}

#[test]
fn token_resolution_numeric_and_invalid() {
    let utx = utx_from_token("123").unwrap();
    assert_eq!(utx.user_id, 123);

    match utx_from_token("abc") {
        Err(SecurityError::InvalidToken(t)) => assert_eq!(t, "abc"),
        _ => assert!(false, "should fail with InvalidToken"),
    }
}

#[test]
fn token_resolution_edges() {
    assert_eq!(utx_from_token("-7").unwrap().user_id, -7);
    assert_eq!(utx_from_token("+42").unwrap().user_id, 42);
    assert_eq!(
        utx_from_token("9223372036854775807").unwrap().user_id,
        i64::MAX
    );
    assert_eq!(
        utx_from_token("-9223372036854775808").unwrap().user_id,
        i64::MIN
    );
    assert!(utx_from_token("").is_err());
    assert!(utx_from_token("+").is_err());
    assert!(utx_from_token("-").is_err());
    assert!(utx_from_token("12a").is_err());
    assert!(utx_from_token("9223372036854775808").is_err());
    assert!(utx_from_token("-9223372036854775809").is_err());
    assert!(utx_from_token("99999999999999999999999999").is_err());
}

#[test]
fn parse_and_render_decimal() {
    assert_eq!(parse_i64("0"), Some(0));
    assert_eq!(parse_i64("007"), Some(7));
    assert_eq!(parse_i64(" 1"), None);
    assert_eq!(i64_to_dec_string(0), "0");
    assert_eq!(i64_to_dec_string(93), "93");
    assert_eq!(i64_to_dec_string(-45), "-45");
    assert_eq!(i64_to_dec_string(i64::MAX), "9223372036854775807");
    assert_eq!(i64_to_dec_string(i64::MIN), "-9223372036854775808");
}

#[test]
fn status_literals_round_trip() {
    assert_eq!(status_to_store(TodoStatus::Open), "open");
    assert_eq!(status_to_store(TodoStatus::Close), "close");
    assert_eq!(status_from_store("open"), Some(TodoStatus::Open));
    assert_eq!(status_from_store("close"), Some(TodoStatus::Close));
    assert_eq!(status_from_store("OPEN"), None);
    assert_eq!(status_from_store("closed"), None);
    assert_eq!(status_from_store(""), None);
}

#[test]
fn create_stamps_cid_from_context() {
    let mut store = seeded();
    let utx = utx_from_token("7").unwrap();

    // An empty patch: the schema defaults apply, the creator id is
    // stamped from the context.
    let todo = TodoMAC::create(&mut store, &utx, TodoPatch::default()).unwrap();
    assert_eq!(todo.cid, 7);
    assert_eq!(todo.id, 1000);
    assert_eq!(todo.title, "Untitled");
    assert_eq!(todo.status, TodoStatus::Open);
}

#[test]
fn create_field_set_always_carries_cid() {
    let utx = utx_from_token("55").unwrap();
    let patch = TodoPatch {
        title: Some("t".to_string()),
        status: None,
    };
    let fields = create_fields(&utx, &patch);
    assert_eq!(fields.len(), 2);
    assert_eq!(fields[0].name, "title");
    assert_eq!(fields[1].name, "cid");
    match fields[1].value {
        FieldVal::Int(v) => assert_eq!(v, 55),
        _ => assert!(false, "cid must be bound as an integer"),
    }
}

#[test]
fn update_applies_only_present_fields() {
    let mut store = seeded();
    let utx = utx_from_token("123").unwrap();

    // Only the title is patched: status and cid keep their prior values.
    let patch = TodoPatch {
        title: Some("renamed".to_string()),
        status: None,
    };
    let updated = TodoMAC::update(&mut store, &utx, patch, 100).unwrap();
    assert_eq!(updated.id, 100);
    assert_eq!(updated.cid, 123);
    assert_eq!(updated.title, "renamed");
    assert_eq!(updated.status, TodoStatus::Close);

    // Only the status is patched: the title keeps its prior value.
    let patch2 = TodoPatch {
        title: None,
        status: Some(TodoStatus::Open),
    };
    let updated2 = TodoMAC::update(&mut store, &utx, patch2, 100).unwrap();
    assert_eq!(updated2.id, 100);
    assert_eq!(updated2.title, "renamed");
    assert_eq!(updated2.status, TodoStatus::Open);
}

#[test]
fn update_missing_row_not_found() {
    let mut store = seeded();
    let utx = utx_from_token("123").unwrap();
    let patch = TodoPatch {
        title: Some("x".to_string()),
        status: None,
    };
    match TodoMAC::update(&mut store, &utx, patch, 4242) {
        Err(Error::EntityNotFound(typ, id)) => {
            assert_eq!(typ, "todo");
            assert_eq!(id, "4242");
        }
        _ => assert!(false, "should fail with EntityNotFound"),
    }
}

#[test]
fn delete_returns_prior_state_and_removes() {
    let mut store = seeded();
    let utx = utx_from_token("123").unwrap();

    let deleted = TodoMAC::delete(&mut store, &utx, 101).unwrap();
    assert_eq!(deleted.id, 101);
    assert_eq!(deleted.title, "todo 101");
    assert_eq!(deleted.status, TodoStatus::Open);

    match TodoMAC::get(&store, &utx, 101) {
        Err(Error::EntityNotFound(typ, id)) => {
            assert_eq!(typ, "todo");
            assert_eq!(id, "101");
        }
        _ => assert!(false, "deleted id must no longer be fetchable"),
    }

    let values = TodoMAC::list(&store, &utx).unwrap();
    assert_eq!(values.len(), 1);
    assert!(values.iter().all(|t| t.id != 101));
}

#[test]
fn create_then_get_round_trip() {
    let mut store = seeded();
    let utx = utx_from_token("123").unwrap();
    let patch = TodoPatch {
        title: Some("fresh".to_string()),
        status: Some(TodoStatus::Close),
    };
    let created = TodoMAC::create(&mut store, &utx, patch).unwrap();
    let fetched = TodoMAC::get(&store, &utx, created.id).unwrap();
    assert_eq!(fetched.id, created.id);
    assert_eq!(fetched.cid, created.cid);
    assert_eq!(fetched.title, created.title);
    assert_eq!(fetched.status, created.status);
}

#[test]
fn end_to_end_create_delete_list() {
    let mut store = seeded();
    let utx = utx_from_token("123").unwrap();

    let patch = TodoPatch {
        title: Some("New title data...".to_string()),
        status: Some(TodoStatus::Open),
    };
    let created = TodoMAC::create(&mut store, &utx, patch).unwrap();
    assert_eq!(created.status, TodoStatus::Open);
    assert_eq!(created.cid, 123);

    let deleted = TodoMAC::delete(&mut store, &utx, created.id).unwrap();
    assert_eq!(deleted.status, TodoStatus::Open);

    let values = TodoMAC::list(&store, &utx).unwrap();
    assert!(values.iter().all(|t| t.id != created.id));
}

#[test]
fn fetch_one_translation() {
    let row = Todo {
        id: 5,
        cid: 6,
        title: "row".to_string(),
        status: TodoStatus::Open,
    };
    match handle_fetch_one_result(Ok(row), "todo", "5".to_string()) {
        Ok(t) => assert_eq!(t.id, 5),
        _ => assert!(false, "a fetched row passes through"),
    }
    match handle_fetch_one_result(Err(StoreError::RowNotFound), "todo", "9".to_string()) {
        Err(Error::EntityNotFound(typ, id)) => {
            assert_eq!(typ, "todo");
            assert_eq!(id, "9");
        }
        _ => assert!(false, "zero rows becomes EntityNotFound"),
    }
    match handle_fetch_one_result(Err(StoreError::InvalidStatement), "todo", "9".to_string()) {
        Err(Error::Store(StoreError::InvalidStatement)) => {}
        _ => assert!(false, "other store failures pass through wrapped"),
    }
}

#[test]
fn malformed_field_sets_are_rejected() {
    let mut store = seeded();

    // An unknown column is a malformed statement.
    let bogus = vec![Field {
        name: "bogus".to_string(),
        value: FieldVal::Int(1),
    }];
    match store.insert_returning(&bogus) {
        Err(StoreError::InvalidStatement) => {}
        _ => assert!(false, "unknown column must be rejected"),
    }

    // The id column is never assignable.
    let set_id = vec![Field {
        name: "id".to_string(),
        value: FieldVal::Int(9),
    }];
    match store.update_returning(&set_id, 100) {
        Err(StoreError::InvalidStatement) => {}
        _ => assert!(false, "id must not be assignable"),
    }

    // A type mismatch is rejected rather than coerced.
    let wrong_type = vec![Field {
        name: "title".to_string(),
        value: FieldVal::Int(3),
    }];
    match store.insert_returning(&wrong_type) {
        Err(StoreError::InvalidStatement) => {}
        _ => assert!(false, "type mismatch must be rejected"),
    }

    // Nothing was stored by any of the rejected statements.
    assert_eq!(store.fetch_all().len(), 2);
}

#[test]
fn table_and_columns_projection() {
    assert_eq!(TodoMAC::table(), "todo");
    let cols = TodoMAC::columns();
    assert_eq!(cols, vec!["id", "cid", "title", "status"]);
}

#[test]
fn list_orders_descending() {
    let mut store = seeded();
    let utx = utx_from_token("123").unwrap();
    TodoMAC::create(&mut store, &utx, TodoPatch::default()).unwrap();
    let values = TodoMAC::list(&store, &utx).unwrap();
    assert_eq!(values.len(), 3);
    for w in values.windows(2) {
        assert!(w[0].id > w[1].id);
    }
}

#[test]
fn script_statement_splitting() {
    assert_eq!(todo_mac::bootstrap::split_statements(""), vec![""]);
    assert_eq!(todo_mac::bootstrap::split_statements("CREATE TABLE todo"), vec!["CREATE TABLE todo"]);
    assert_eq!(
        todo_mac::bootstrap::split_statements("DROP DATABASE app_db;\nCREATE DATABASE app_db;"),
        vec!["DROP DATABASE app_db", "\nCREATE DATABASE app_db", ""]
    );
    assert_eq!(todo_mac::bootstrap::split_statements(";;"), vec!["", "", ""]);
}

#[test]
fn script_selection() {
    let recreate = "sql/00_recreate_db.sql";
    assert!(todo_mac::bootstrap::is_app_script("sql/01_create_schema.sql", recreate));
    assert!(todo_mac::bootstrap::is_app_script("sql/02_seed_todo.sql", recreate));
    assert!(!todo_mac::bootstrap::is_app_script(recreate, recreate));
    assert!(!todo_mac::bootstrap::is_app_script("sql/readme.md", recreate));
    assert!(!todo_mac::bootstrap::is_app_script("sql", recreate));
}
