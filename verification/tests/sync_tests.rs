//! The push/pull protocol against a real in-memory SQLite store.

use rusqlite::{Connection, Result};
use todo_manager::db::SyncError;
use todo_manager::todo::User;

fn setup_db() -> Result<Connection> {
    let conn = Connection::open_in_memory()?;
    conn.execute(
        "CREATE TABLE users (
            id INTEGER PRIMARY KEY,
            user_name TEXT NOT NULL UNIQUE,
            email TEXT NOT NULL
        )",
        (),
    )?;
    conn.execute(
        "CREATE TABLE todos (
            id INTEGER PRIMARY KEY,
            user_id INTEGER NOT NULL,
            list_name TEXT NOT NULL,
            item_number INTEGER NOT NULL,
            title TEXT NOT NULL,
            datetime TEXT NOT NULL,
            is_completed INTEGER NOT NULL,
            FOREIGN KEY(user_id) REFERENCES users(id)
        )",
        (),
    )?;
    Ok(conn)
}

fn get_current_date_time() -> String {
    let local_now = chrono::Local::now();
    local_now.format("%Y-%m-%d %H:%M:%S").to_string()
}

#[test]
fn test_push_to_db() {
    let conn = setup_db().unwrap();
    let mut user = User::new(
        "test_user".to_string(),
        "test_email@example.com".to_string(),
    );
    user.add_todo_list("Work".to_string());
    let todo_list = user.get_todo_list(&"Work".to_string()).unwrap();

    todo_list.add("Complete report".to_string());
    user.push_to_db(&conn).unwrap();

    let mut stmt = conn
        .prepare("SELECT user_name, email FROM users WHERE user_name = ?1")
        .unwrap();
    let mut rows = stmt.query(("test_user",)).unwrap();
    assert!(rows.next().unwrap().is_some());

    let mut stmt = conn
        .prepare(
            "SELECT title FROM todos WHERE user_id = (SELECT id FROM users WHERE user_name = ?1)",
        )
        .unwrap();
    let mut rows = stmt.query(("test_user",)).unwrap();
    assert!(rows.next().unwrap().is_some());
}

#[test]
fn test_pull_from_db() {
    let conn = setup_db().unwrap();
    let user_name = "test_user".to_string();
    let email = "test_email@example.com".to_string();
    conn.execute(
        "INSERT INTO users (user_name, email) VALUES (?1, ?2)",
        (&user_name, &email),
    )
    .unwrap();

    let user_id: i64 = conn
        .query_row(
            "SELECT id FROM users WHERE user_name = ?1",
            (&user_name,),
            |row| row.get(0),
        )
        .unwrap();

    conn.execute(
        "INSERT INTO todos (user_id, list_name, item_number, title, datetime, is_completed) VALUES (?1, ?2, ?3, ?4, ?5, ?6)",
        (user_id, "Work", 1, "Complete report", get_current_date_time(), 0),
    ).unwrap();

    let mut user = User::pull_from_db(&conn, &user_name).unwrap();
    assert_eq!(user.user_name, "test_user");
    assert_eq!(user.email, "test_email@example.com");
    assert!(user.todo_lists.contains_key(&"Work".to_string()));

    let todo_list = user.get_todo_list(&"Work".to_string()).unwrap();
    assert_eq!(todo_list.todos.len(), 1);
    assert_eq!(todo_list.todos[0].title, "Complete report");
}

#[test]
fn round_trip_preserves_a_clean_item() {
    let conn = setup_db().unwrap();
    let mut user = User::new("ada".to_string(), "ada@example.com".to_string());
    user.add_todo_list("Work".to_string());
    user.get_todo_list(&"Work".to_string())
        .unwrap()
        .add("Complete report".to_string());
    let pushed_datetime = user.get_todo_list(&"Work".to_string()).unwrap().todos[0]
        .datetime
        .clone();
    user.push_to_db(&conn).unwrap();

    let pulled = User::pull_from_db(&conn, "ada").unwrap();
    assert_eq!(pulled.user_name, "ada");
    assert_eq!(pulled.email, "ada@example.com");
    assert_eq!(pulled.todo_lists.len(), 1);
    let list = &pulled.todo_lists.lists[0];
    assert_eq!(list.title, "Work");
    assert_eq!(list.todos.len(), 1);
    let item = &list.todos[0];
    assert_eq!(item.item_number, 1);
    assert_eq!(item.title, "Complete report");
    assert_eq!(item.datetime, pushed_datetime);
    assert!(!item.is_completed);
    assert!(!item.is_deleted);
    assert!(!item.is_modified);
}

#[test]
fn push_after_remove_deletes_the_row() {
    let conn = setup_db().unwrap();
    let mut user = User::new("ada".to_string(), "ada@example.com".to_string());
    user.add_todo_list("Work".to_string());
    user.get_todo_list(&"Work".to_string())
        .unwrap()
        .add("Complete report".to_string());
    // Clean item: the first push inserts the row.
    user.push_to_db(&conn).unwrap();

    // Modified item: the second push updates it in place.
    user.get_todo_list(&"Work".to_string()).unwrap().mark_complete(1);
    user.push_to_db(&conn).unwrap();
    let completed: i64 = conn
        .query_row(
            "SELECT is_completed FROM todos WHERE list_name = ?1 AND item_number = ?2",
            ("Work", 1),
            |row| row.get(0),
        )
        .unwrap();
    assert_eq!(completed, 1);

    // Tombstoned item: the third push deletes the row.
    user.get_todo_list(&"Work".to_string()).unwrap().remove_item(1);
    user.push_to_db(&conn).unwrap();
    let remaining: i64 = conn
        .query_row("SELECT COUNT(*) FROM todos", (), |row| row.get(0))
        .unwrap();
    assert_eq!(remaining, 0);
}

#[test]
fn push_after_scenario_issues_delete_not_insert() {
    let conn = setup_db().unwrap();
    let mut user = User::new(
        "test_user".to_string(),
        "test_email@example.com".to_string(),
    );
    user.add_todo_list("Work".to_string());
    {
        let list = user.get_todo_list(&"Work".to_string()).unwrap();
        list.add("Complete report".to_string());
        list.mark_complete(1);
        list.remove_item(1);
    }
    // The item is tombstoned, so the push issues a delete — never an
    // insert — for it; only the identity row lands in the store.
    user.push_to_db(&conn).unwrap();
    let (name, email): (String, String) = conn
        .query_row(
            "SELECT user_name, email FROM users WHERE user_name = ?1",
            ("test_user",),
            |row| Ok((row.get(0)?, row.get(1)?)),
        )
        .unwrap();
    assert_eq!(name, "test_user");
    assert_eq!(email, "test_email@example.com");
    let todo_rows: i64 = conn
        .query_row("SELECT COUNT(*) FROM todos", (), |row| row.get(0))
        .unwrap();
    assert_eq!(todo_rows, 0);
}

#[test]
fn push_updates_a_modified_row_in_place() {
    let conn = setup_db().unwrap();
    let mut user = User::new("ada".to_string(), "ada@example.com".to_string());
    user.add_todo_list("Work".to_string());
    user.get_todo_list(&"Work".to_string())
        .unwrap()
        .add("Complete report".to_string());
    user.push_to_db(&conn).unwrap();

    user.get_todo_list(&"Work".to_string()).unwrap().mark_complete(1);
    user.push_to_db(&conn).unwrap();

    let (count, completed): (i64, i64) = conn
        .query_row(
            "SELECT COUNT(*), MAX(is_completed) FROM todos WHERE list_name = ?1",
            ("Work",),
            |row| Ok((row.get(0)?, row.get(1)?)),
        )
        .unwrap();
    assert_eq!(count, 1);
    assert_eq!(completed, 1);
}

#[test]
fn push_twice_does_not_duplicate_clean_rows() {
    let conn = setup_db().unwrap();
    let mut user = User::new("ada".to_string(), "ada@example.com".to_string());
    user.add_todo_list("Work".to_string());
    user.get_todo_list(&"Work".to_string())
        .unwrap()
        .add("Complete report".to_string());
    user.push_to_db(&conn).unwrap();
    user.push_to_db(&conn).unwrap();
    let count: i64 = conn
        .query_row("SELECT COUNT(*) FROM users", (), |row| row.get(0))
        .unwrap();
    assert_eq!(count, 1);
}

#[test]
fn pull_unknown_user_fails_with_not_found() {
    let conn = setup_db().unwrap();
    let r = User::pull_from_db(&conn, "nobody");
    assert_eq!(r.err(), Some(SyncError::NotFound));
}

#[test]
fn push_without_schema_fails_with_connection_error() {
    // No tables at all: the very first statement fails outright.
    let conn = Connection::open_in_memory().unwrap();
    let mut user = User::new("ada".to_string(), "ada@example.com".to_string());
    user.add_todo_list("Work".to_string());
    user.get_todo_list(&"Work".to_string())
        .unwrap()
        .add("Complete report".to_string());
    let r = user.push_to_db(&conn);
    assert_eq!(r.err(), Some(SyncError::ConnectionError));
}

#[test]
fn rejected_update_fails_with_constraint_error() {
    // A store that refuses completed rows: the update a modified item
    // issues violates the check constraint.
    let conn = Connection::open_in_memory().unwrap();
    conn.execute(
        "CREATE TABLE users (
            id INTEGER PRIMARY KEY,
            user_name TEXT NOT NULL UNIQUE,
            email TEXT NOT NULL
        )",
        (),
    )
    .unwrap();
    conn.execute(
        "CREATE TABLE todos (
            id INTEGER PRIMARY KEY,
            user_id INTEGER NOT NULL,
            list_name TEXT NOT NULL,
            item_number INTEGER NOT NULL,
            title TEXT NOT NULL,
            datetime TEXT NOT NULL,
            is_completed INTEGER NOT NULL CHECK (is_completed = 0)
        )",
        (),
    )
    .unwrap();
    let mut user = User::new("ada".to_string(), "ada@example.com".to_string());
    user.add_todo_list("Work".to_string());
    user.get_todo_list(&"Work".to_string())
        .unwrap()
        .add("Complete report".to_string());
    user.push_to_db(&conn).unwrap();
    user.get_todo_list(&"Work".to_string()).unwrap().mark_complete(1);
    let r = user.push_to_db(&conn);
    assert_eq!(r.err(), Some(SyncError::ConstraintError));
}

#[test]
fn push_does_not_change_an_existing_email() {
    let conn = setup_db().unwrap();
    conn.execute(
        "INSERT INTO users (user_name, email) VALUES (?1, ?2)",
        ("ada", "old@example.com"),
    )
    .unwrap();
    let user = User::new("ada".to_string(), "new@example.com".to_string());
    user.push_to_db(&conn).unwrap();
    let email: String = conn
        .query_row(
            "SELECT email FROM users WHERE user_name = ?1",
            ("ada",),
            |row| row.get(0),
        )
        .unwrap();
    assert_eq!(email, "old@example.com");
}
