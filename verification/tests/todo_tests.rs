//! In-memory behaviour: lists, items, numbering, flags and projections.

use todo_manager::todo::User;

#[test]
fn test_add_todo_list() {
    let mut user = User::new(
        "test_user".to_string(),
        "test_email@example.com".to_string(),
    );
    user.add_todo_list("Work".to_string());

    assert!(user.todo_lists.contains_key(&"Work".to_string()));
}

#[test]
fn test_add_todo_item() {
    let mut user = User::new(
        "test_user".to_string(),
        "test_email@example.com".to_string(),
    );
    user.add_todo_list("Work".to_string());
    let todo_list = user.get_todo_list(&"Work".to_string()).unwrap();

    todo_list.add("Complete report".to_string());

    assert_eq!(todo_list.todos.len(), 1);
    assert_eq!(todo_list.todos[0].title, "Complete report");
}

#[test]
fn test_mark_complete() {
    let mut user = User::new(
        "test_user".to_string(),
        "test_email@example.com".to_string(),
    );
    user.add_todo_list("Work".to_string());
    let todo_list = user.get_todo_list(&"Work".to_string()).unwrap();

    todo_list.add("Complete report".to_string());
    todo_list.mark_complete(1);

    assert!(todo_list.todos[0].is_completed);
}

#[test]
fn test_mark_incomplete() {
    let mut user = User::new(
        "test_user".to_string(),
        "test_email@example.com".to_string(),
    );
    user.add_todo_list("Work".to_string());
    let todo_list = user.get_todo_list(&"Work".to_string()).unwrap();

    todo_list.add("Complete report".to_string());
    todo_list.mark_complete(1);
    todo_list.mark_incomplete(1);

    assert!(!todo_list.todos[0].is_completed);
}

#[test]
fn test_remove_item() {
    let mut user = User::new(
        "test_user".to_string(),
        "test_email@example.com".to_string(),
    );
    user.add_todo_list("Work".to_string());
    let todo_list = user.get_todo_list(&"Work".to_string()).unwrap();

    todo_list.add("Complete report".to_string());
    todo_list.remove_item(1);

    assert!(todo_list.todos[0].is_deleted);
}

#[test]
fn added_items_are_numbered_in_order() {
    let mut user = User::new("n".to_string(), "n@example.com".to_string());
    user.add_todo_list("Work".to_string());
    let list = user.get_todo_list(&"Work".to_string()).unwrap();
    for title in ["first", "second", "third", "fourth"] {
        list.add(title.to_string());
    }
    for (k, todo) in list.todos.iter().enumerate() {
        assert_eq!(todo.item_number, k + 1);
    }
}

#[test]
fn complete_then_incomplete_restores_item() {
    let mut user = User::new("n".to_string(), "n@example.com".to_string());
    user.add_todo_list("Work".to_string());
    let list = user.get_todo_list(&"Work".to_string()).unwrap();
    list.add("alpha".to_string());
    list.add("beta".to_string());
    list.mark_complete(2);
    list.mark_incomplete(2);
    assert!(!list.todos[1].is_completed);
    assert!(list.todos[1].is_modified);
    assert_eq!(list.todos[1].item_number, 2);
    assert_eq!(list.todos[1].title, "beta");
    assert!(!list.todos[0].is_completed);
    assert!(!list.todos[0].is_modified);
}

#[test]
fn remove_keeps_length_and_tombstones() {
    let mut user = User::new("n".to_string(), "n@example.com".to_string());
    user.add_todo_list("Work".to_string());
    let list = user.get_todo_list(&"Work".to_string()).unwrap();
    list.add("alpha".to_string());
    list.add("beta".to_string());
    list.remove_item(1);
    assert_eq!(list.todos.len(), 2);
    assert!(list.todos[0].is_deleted);
    assert!(!list.todos[0].is_modified);
    assert!(!list.todos[1].is_deleted);
}

#[test]
fn missing_number_is_a_silent_no_op() {
    let mut user = User::new("n".to_string(), "n@example.com".to_string());
    user.add_todo_list("Work".to_string());
    let list = user.get_todo_list(&"Work".to_string()).unwrap();
    list.add("alpha".to_string());
    let before: Vec<(usize, String, bool, bool, bool)> = list
        .todos
        .iter()
        .map(|t| {
            (
                t.item_number,
                t.title.clone(),
                t.is_completed,
                t.is_deleted,
                t.is_modified,
            )
        })
        .collect();
    list.mark_complete(7);
    list.mark_incomplete(7);
    list.remove_item(7);
    let after: Vec<(usize, String, bool, bool, bool)> = list
        .todos
        .iter()
        .map(|t| {
            (
                t.item_number,
                t.title.clone(),
                t.is_completed,
                t.is_deleted,
                t.is_modified,
            )
        })
        .collect();
    assert_eq!(before, after);
}

#[test]
fn work_scenario_add_complete_remove() {
    let mut user = User::new("n".to_string(), "n@example.com".to_string());
    user.add_todo_list("Work".to_string());
    let list = user.get_todo_list(&"Work".to_string()).unwrap();
    list.add("Complete report".to_string());
    assert_eq!(list.todos[0].item_number, 1);
    assert!(!list.todos[0].is_completed);
    list.mark_complete(1);
    assert!(list.todos[0].is_completed);
    list.remove_item(1);
    assert!(list.todos[0].is_deleted);
    assert_eq!(list.todos.len(), 1);
}

#[test]
fn re_adding_a_list_wipes_its_items() {
    let mut user = User::new("n".to_string(), "n@example.com".to_string());
    user.add_todo_list("Work".to_string());
    user.get_todo_list(&"Work".to_string())
        .unwrap()
        .add("alpha".to_string());
    user.add_todo_list("Work".to_string());
    assert_eq!(user.todo_lists.len(), 1);
    assert_eq!(
        user.get_todo_list(&"Work".to_string()).unwrap().todos.len(),
        0
    );
}

#[test]
fn get_todo_list_absent_is_none() {
    let mut user = User::new("n".to_string(), "n@example.com".to_string());
    user.add_todo_list("Work".to_string());
    assert!(user.get_todo_list(&"Play".to_string()).is_none());
}

#[test]
fn completed_projection_filters_by_flag_only() {
    let mut user = User::new("n".to_string(), "n@example.com".to_string());
    user.add_todo_list("Work".to_string());
    {
        let list = user.get_todo_list(&"Work".to_string()).unwrap();
        list.add("alpha".to_string());
        list.add("beta".to_string());
        list.add("gamma".to_string());
        list.mark_complete(2);
        list.mark_complete(3);
        // A soft-deleted completed item still shows: the projections do not
        // filter tombstones.
        list.remove_item(3);
    }
    let completed = user.show_completed_items(Some(&"Work".to_string()));
    assert_eq!(completed.len(), 1);
    assert_eq!(completed[0].title, "Work");
    let titles: Vec<&str> = completed[0].todos.iter().map(|t| t.title.as_str()).collect();
    assert_eq!(titles, vec!["beta", "gamma"]);

    let incomplete = user.show_incomplete_items(None);
    assert_eq!(incomplete.len(), 1);
    let titles: Vec<&str> = incomplete[0].todos.iter().map(|t| t.title.as_str()).collect();
    assert_eq!(titles, vec!["alpha"]);

    let unknown = user.show_completed_items(Some(&"Play".to_string()));
    assert!(unknown.is_empty());
}

#[test]
fn show_lists_copies_everything_in_order() {
    let mut user = User::new("n".to_string(), "n@example.com".to_string());
    user.add_todo_list("Work".to_string());
    user.add_todo_list("Play".to_string());
    user.get_todo_list(&"Work".to_string())
        .unwrap()
        .add("alpha".to_string());
    let all = user.show_lists();
    assert_eq!(all.len(), 2);
    assert_eq!(all[0].title, "Work");
    assert_eq!(all[0].todos.len(), 1);
    assert_eq!(all[0].todos[0].title, "alpha");
    assert_eq!(all[1].title, "Play");
    assert!(all[1].todos.is_empty());

    let items = user.show_list_items(&"Work".to_string()).unwrap();
    assert_eq!(items.len(), 1);
    assert_eq!(items[0].title, "alpha");
    assert!(user.show_list_items(&"Play2".to_string()).is_none());
}

#[test]
fn remove_and_clear_lists() {
    let mut user = User::new("n".to_string(), "n@example.com".to_string());
    user.add_todo_list("Work".to_string());
    user.add_todo_list("Play".to_string());
    let gone = user.todo_lists.remove(&"Work".to_string());
    assert_eq!(gone.unwrap().title, "Work");
    assert!(!user.todo_lists.contains_key(&"Work".to_string()));
    assert!(user.todo_lists.contains_key(&"Play".to_string()));
    assert!(user.todo_lists.remove(&"Work".to_string()).is_none());
    user.todo_lists.clear();
    assert_eq!(user.todo_lists.len(), 0);
}

#[test]
fn datetime_is_stamped_in_expected_shape() {
    let mut user = User::new("n".to_string(), "n@example.com".to_string());
    user.add_todo_list("Work".to_string());
    let list = user.get_todo_list(&"Work".to_string()).unwrap();
    list.add("alpha".to_string());
    let stamp = &list.todos[0].datetime;
    assert_eq!(stamp.len(), 19);
    let bytes = stamp.as_bytes();
    assert_eq!(bytes[4], b'-');
    assert_eq!(bytes[7], b'-');
    assert_eq!(bytes[10], b' ');
    assert_eq!(bytes[13], b':');
    assert_eq!(bytes[16], b':');
}
