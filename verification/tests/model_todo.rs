use todo_mac::mac::TodoMAC;
use todo_mac::model::Error;
use todo_mac::security::utx_from_token;
use todo_mac::store::Store;
use todo_mac::todo::{Todo, TodoPatch, TodoStatus};

/// The fixture the bootstrap scripts would leave behind: two seed rows
/// owned by user 123, and an id sequence starting at 1000.
fn init_store() -> Store {
    let mut store = Store::new(1000);
    store.seed(Todo {
        id: 100,
        cid: 123,
        title: "todo 100".to_string(),
        status: TodoStatus::Close,
    });
    store.seed(Todo {
        id: 101,
        cid: 123,
        title: "todo 101".to_string(),
        status: TodoStatus::Open,
    });
    store
}

#[test]
fn test_todo_list() {
    let store = init_store();
    let utx = utx_from_token("123").unwrap();

    let values = TodoMAC::list(&store, &utx).unwrap();

    assert_eq!(values.len(), 2);
    assert_eq!(values[0].cid, 123);
    assert_eq!(values[1].cid, 123);
    assert_eq!(values[0].id, 101);
    assert_eq!(values[1].id, 100);
}

#[test]
fn test_todo_create() {
    let mut store = init_store();

    let db_patch = TodoPatch {
        title: Some("New title data...".to_string()),
        status: Some(TodoStatus::Open),
    };

    let utx = utx_from_token("123").unwrap();

    let todo_create = TodoMAC::create(&mut store, &utx, db_patch).unwrap();

    assert_eq!(todo_create.id, 1000);
    assert_eq!(todo_create.cid, 123);
    assert_eq!(todo_create.status, TodoStatus::Open);
}

#[test]
fn test_todo_get_ok() {
    let store = init_store();

    let utx = utx_from_token("123").unwrap();

    let todo = TodoMAC::get(&store, &utx, 100).unwrap();

    assert_eq!(todo.id, 100);
    assert_eq!(todo.title, "todo 100".to_string());
}

#[test]
fn test_todo_get_not_ok() {
    let store = init_store();

    let utx = utx_from_token("123").unwrap();

    let todo = TodoMAC::get(&store, &utx, 93);

    match todo {
        Ok(_) => assert!(false, "should not succeed"),
        Err(Error::EntityNotFound(typ, id)) => {
            assert_eq!(typ, "todo");
            assert_eq!(id, 93.to_string());
        }
        other_err => assert!(false, "wrong error {:#?}", other_err),
    }
}

#[test]
fn test_todo_update_ok() {
    let mut store = init_store();
    let utx = utx_from_token("123").unwrap();
    let todo_patch = TodoPatch {
        status: Some(TodoStatus::Close),
        title: Some("Updated Status".to_string()),
    };
    let todo = TodoMAC::create(&mut store, &utx, todo_patch).unwrap();

    assert_eq!(todo.status, TodoStatus::Close);

    let todo_patch2 = TodoPatch {
        status: Some(TodoStatus::Open),
        title: Some("Updated Status using the update...".to_string()),
    };

    let todo2 = TodoMAC::update(&mut store, &utx, todo_patch2.duplicate(), 1000).unwrap();
    assert_eq!(todo2.status, TodoStatus::Open);

    assert_eq!(todo.id, 1000);
    assert_eq!(todo.title, "Updated Status".to_string());
}

#[test]
fn test_todo_delete_not_ok() {
    let mut store = init_store();

    let utx = utx_from_token("123").unwrap();

    let todo = TodoMAC::delete(&mut store, &utx, 99);

    match todo {
        Ok(_) => assert!(false, "should not succeed"),
        Err(Error::EntityNotFound(typ, id)) => {
            assert_eq!(typ, "todo");
            assert_eq!(id, 99.to_string());
        }
        other_err => assert!(false, "wrong error {:#?}", other_err),
    }
}

#[test]
fn test_todo_delete_ok() {
    let mut store = init_store();

    let utx = utx_from_token("123").unwrap();

    let todo = TodoMAC::delete(&mut store, &utx, 100).unwrap();

    assert_eq!(todo.id, 100);
    assert_eq!(todo.status, TodoStatus::Close);

    let remaining = store.fetch_all();
    assert_eq!(remaining.len(), 1);
}
