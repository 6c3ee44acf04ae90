//! The mathematical model of the task manager: ghost mirrors of the
//! executable types, and the spec-level transitions that the executable
//! operations are proved to implement.

use vstd::prelude::*;

verus! {

/// Model of a single todo item.
#[verifier::ext_equal]
pub ghost struct ItemModel {
    pub item_number: nat,
    pub title: Seq<char>,
    pub datetime: Seq<char>,
    pub is_completed: bool,
    pub is_deleted: bool,
    pub is_modified: bool,
}

/// Model of a named list: its items, in insertion order.
#[verifier::ext_equal]
pub ghost struct ListModel {
    pub title: Seq<char>,
    pub todos: Seq<ItemModel>,
}

/// Model of a user: identity plus the lists, in insertion order of their
/// names. The executable side keeps list titles unique (`wf_lists`).
#[verifier::ext_equal]
pub ghost struct UserModel {
    pub user_name: Seq<char>,
    pub email: Seq<char>,
    pub lists: Seq<ListModel>,
}

/// Index of the first item with the given number, or -1 when there is none.
pub open spec fn find_item(s: Seq<ItemModel>, n: nat) -> int
    decreases s.len(),
{
    if s.len() == 0 {
        -1
    } else if s[0].item_number == n {
        0
    } else if find_item(s.drop_first(), n) == -1 {
        -1
    } else {
        1 + find_item(s.drop_first(), n)
    }
}

/// Whether some item carries the given number.
pub open spec fn has_item(s: Seq<ItemModel>, n: nat) -> bool {
    find_item(s, n) != -1
}

/// `find_item` returns -1 exactly when no item matches, and otherwise the
/// least matching index.
pub proof fn lemma_find_item_props(s: Seq<ItemModel>, n: nat)
    ensures
        find_item(s, n) == -1 ==> forall|j: int| 0 <= j < s.len() ==> s[j].item_number != n,
        find_item(s, n) != -1 ==> {
            let i = find_item(s, n);
            &&& 0 <= i < s.len()
            &&& s[i].item_number == n
            &&& forall|j: int| 0 <= j < i ==> s[j].item_number != n
        },
    decreases s.len(),
{
    if s.len() > 0 && s[0].item_number != n {
        let rest = s.drop_first();
        lemma_find_item_props(rest, n);
        if find_item(rest, n) == -1 {
            assert forall|j: int| 0 <= j < s.len() implies s[j].item_number != n by {
                if j >= 1 {
                    assert(rest[j - 1] == s[j]);
                }
            }
        } else {
            let i = 1 + find_item(rest, n);
            assert(rest[i - 1] == s[i]);
            assert forall|j: int| 0 <= j < i implies s[j].item_number != n by {
                if j >= 1 {
                    assert(rest[j - 1] == s[j]);
                }
            }
        }
    }
}

/// The item with flags set as `mark_complete` leaves them.
pub open spec fn completed_item(t: ItemModel) -> ItemModel {
    ItemModel { is_completed: true, is_modified: true, ..t }
}

/// The item with flags set as `mark_incomplete` leaves them.
pub open spec fn incompleted_item(t: ItemModel) -> ItemModel {
    ItemModel { is_completed: false, is_modified: true, ..t }
}

/// The sequence after `mark_complete(n)`: the first matching item gains
/// `is_completed` and `is_modified`; a miss changes nothing.
pub open spec fn mark_complete_seq(s: Seq<ItemModel>, n: nat) -> Seq<ItemModel> {
    let i = find_item(s, n);
    if i == -1 {
        s
    } else {
        s.update(i, completed_item(s[i]))
    }
}

/// The sequence after `mark_incomplete(n)`.
pub open spec fn mark_incomplete_seq(s: Seq<ItemModel>, n: nat) -> Seq<ItemModel> {
    let i = find_item(s, n);
    if i == -1 {
        s
    } else {
        s.update(i, incompleted_item(s[i]))
    }
}

/// The sequence after `remove_item(n)`: the first matching item is
/// tombstoned in place; nothing is dropped and nothing is renumbered.
pub open spec fn remove_item_seq(s: Seq<ItemModel>, n: nat) -> Seq<ItemModel> {
    let i = find_item(s, n);
    if i == -1 {
        s
    } else {
        s.update(i, ItemModel { is_deleted: true, ..s[i] })
    }
}

/// Index of the first list with the given title, or -1 when there is none.
pub open spec fn find_list(lists: Seq<ListModel>, name: Seq<char>) -> int
    decreases lists.len(),
{
    if lists.len() == 0 {
        -1
    } else if lists[0].title == name {
        0
    } else if find_list(lists.drop_first(), name) == -1 {
        -1
    } else {
        1 + find_list(lists.drop_first(), name)
    }
}

/// Whether some list carries the given title.
pub open spec fn has_list(lists: Seq<ListModel>, name: Seq<char>) -> bool {
    find_list(lists, name) != -1
}

/// `find_list` returns -1 exactly when no list matches, and otherwise the
/// least matching index.
pub proof fn lemma_find_list_props(lists: Seq<ListModel>, name: Seq<char>)
    ensures
        find_list(lists, name) == -1 ==> forall|j: int|
            0 <= j < lists.len() ==> lists[j].title != name,
        find_list(lists, name) != -1 ==> {
            let i = find_list(lists, name);
            &&& 0 <= i < lists.len()
            &&& lists[i].title == name
            &&& forall|j: int| 0 <= j < i ==> lists[j].title != name
        },
    decreases lists.len(),
{
    if lists.len() > 0 && lists[0].title != name {
        let rest = lists.drop_first();
        lemma_find_list_props(rest, name);
        if find_list(rest, name) == -1 {
            assert forall|j: int| 0 <= j < lists.len() implies lists[j].title != name by {
                if j >= 1 {
                    assert(rest[j - 1] == lists[j]);
                }
            }
        } else {
            let i = 1 + find_list(rest, name);
            assert(rest[i - 1] == lists[i]);
            assert forall|j: int| 0 <= j < i implies lists[j].title != name by {
                if j >= 1 {
                    assert(rest[j - 1] == lists[j]);
                }
            }
        }
    }
}

/// The lists after inserting `l` under its title: an existing list of that
/// title is replaced in place (re-adding a name wipes its items), otherwise
/// `l` is appended.
pub open spec fn upsert_list(lists: Seq<ListModel>, l: ListModel) -> Seq<ListModel> {
    let i = find_list(lists, l.title);
    if i == -1 {
        lists.push(l)
    } else {
        lists.update(i, l)
    }
}

/// The lists after removing the one with the given title, if any.
pub open spec fn remove_list_seq(lists: Seq<ListModel>, name: Seq<char>) -> Seq<ListModel> {
    let i = find_list(lists, name);
    if i == -1 {
        lists
    } else {
        lists.remove(i)
    }
}

/// List titles are pairwise distinct: the map-like shape of `todo_lists`.
pub open spec fn wf_lists(lists: Seq<ListModel>) -> bool {
    forall|i: int, j: int|
        0 <= i < j < lists.len() ==> lists[i].title != lists[j].title
}

/// The items of `s` whose `is_completed` flag equals `want`, in order.
/// Soft-deleted items are not excluded: the display projections show them
/// until a push reconciles them.
pub open spec fn filter_by_completed(s: Seq<ItemModel>, want: bool) -> Seq<ItemModel>
    decreases s.len(),
{
    if s.len() == 0 {
        Seq::empty()
    } else {
        let rest = filter_by_completed(s.drop_last(), want);
        if s.last().is_completed == want {
            rest.push(s.last())
        } else {
            rest
        }
    }
}

/// Every list, each reduced to its items whose completion flag equals
/// `want`.
pub open spec fn filtered_lists(lists: Seq<ListModel>, want: bool) -> Seq<ListModel> {
    lists.map_values(
        |l: ListModel| ListModel { title: l.title, todos: filter_by_completed(l.todos, want) },
    )
}

/// What a completed/incomplete view shows: with a name, the one matching
/// list reduced to the selected items (or nothing when the name is absent);
/// without a name, every list so reduced.
pub open spec fn filter_projection(
    lists: Seq<ListModel>,
    name: Option<Seq<char>>,
    want: bool,
) -> Seq<ListModel> {
    match name {
        Some(nm) => {
            let i = find_list(lists, nm);
            if i == -1 {
                Seq::empty()
            } else {
                seq![ListModel { title: lists[i].title, todos: filter_by_completed(lists[i].todos, want) }]
            }
        },
        None => filtered_lists(lists, want),
    }
}

/// Model of one persisted todo row, scoped to a user.
#[verifier::ext_equal]
pub ghost struct RowModel {
    pub list_name: Seq<char>,
    pub item_number: nat,
    pub title: Seq<char>,
    pub datetime: Seq<char>,
    pub is_completed: bool,
}

/// Model of one reconciliation statement of a push.
#[verifier::ext_equal]
pub ghost enum StatementModel {
    /// Delete the persisted row matching the tombstoned item.
    Delete { list_name: Seq<char>, item_number: nat },
    /// Overwrite the persisted row of a modified item.
    Update { row: RowModel },
    /// Insert the row of a fresh item, ignoring an existing duplicate.
    Insert { row: RowModel },
}

/// The persisted face of an item within the named list.
pub open spec fn row_of_item(list_title: Seq<char>, t: ItemModel) -> RowModel {
    RowModel {
        list_name: list_title,
        item_number: t.item_number,
        title: t.title,
        datetime: t.datetime,
        is_completed: t.is_completed,
    }
}

/// The one reconciliation action an item's flags select, checked in
/// priority order: deleted before modified before fresh.
pub open spec fn statement_of_item(list_title: Seq<char>, t: ItemModel) -> StatementModel {
    if t.is_deleted {
        StatementModel::Delete { list_name: list_title, item_number: t.item_number }
    } else if t.is_modified {
        StatementModel::Update { row: row_of_item(list_title, t) }
    } else {
        StatementModel::Insert { row: row_of_item(list_title, t) }
    }
}

/// The statements a push issues for one list, in item order.
pub open spec fn statements_of_list(l: ListModel) -> Seq<StatementModel> {
    l.todos.map_values(|t: ItemModel| statement_of_item(l.title, t))
}

/// The statements a push issues for a whole user, list by list.
pub open spec fn push_plan_spec(lists: Seq<ListModel>) -> Seq<StatementModel>
    decreases lists.len(),
{
    if lists.len() == 0 {
        Seq::empty()
    } else {
        push_plan_spec(lists.drop_last()) + statements_of_list(lists.last())
    }
}

/// The item a pulled row reconstructs: the pulled copy is clean, with its
/// local dirty history gone.
pub open spec fn item_of_row(r: RowModel) -> ItemModel {
    ItemModel {
        item_number: r.item_number,
        title: r.title,
        datetime: r.datetime,
        is_completed: r.is_completed,
        is_deleted: false,
        is_modified: false,
    }
}

/// One pulled row folded into the lists: appended to the list named by the
/// row, which is created on first encounter.
pub open spec fn insert_row(lists: Seq<ListModel>, r: RowModel) -> Seq<ListModel> {
    let i = find_list(lists, r.list_name);
    if i == -1 {
        lists.push(ListModel { title: r.list_name, todos: seq![item_of_row(r)] })
    } else {
        lists.update(i, ListModel { title: lists[i].title, todos: lists[i].todos.push(item_of_row(r)) })
    }
}

/// The lists a pull reconstructs from the rows, in row order.
pub open spec fn lists_of_rows(rows: Seq<RowModel>) -> Seq<ListModel>
    decreases rows.len(),
{
    if rows.len() == 0 {
        Seq::empty()
    } else {
        insert_row(lists_of_rows(rows.drop_last()), rows.last())
    }
}

/// The brand-new user a pull reconstructs: identity from the store, lists
/// from the rows, all items clean.
pub open spec fn from_rows_spec(
    user_name: Seq<char>,
    email: Seq<char>,
    rows: Seq<RowModel>,
) -> UserModel {
    UserModel { user_name, email, lists: lists_of_rows(rows) }
}

/// Every item of every list is clean: neither tombstoned nor modified.
pub open spec fn all_clean(lists: Seq<ListModel>) -> bool {
    forall|i: int, j: int|
        0 <= i < lists.len() && 0 <= j < lists[i].todos.len() ==> {
            &&& !(#[trigger] lists[i].todos[j]).is_deleted
            &&& !lists[i].todos[j].is_modified
        }
}

/// Whatever rows a pull returns, the reconstructed lists have pairwise
/// distinct titles and only clean items.
pub proof fn lemma_lists_of_rows_wf_clean(rows: Seq<RowModel>)
    ensures
        wf_lists(lists_of_rows(rows)),
        all_clean(lists_of_rows(rows)),
    decreases rows.len(),
{
    if rows.len() > 0 {
        let base = lists_of_rows(rows.drop_last());
        lemma_lists_of_rows_wf_clean(rows.drop_last());
        let r = rows.last();
        lemma_find_list_props(base, r.list_name);
        let cur = lists_of_rows(rows);
        let i = find_list(base, r.list_name);
        assert forall|a: int, b: int| 0 <= a < b < cur.len() implies cur[a].title
            != cur[b].title by {
            if i == -1 {
                if b < base.len() {
                    assert(cur[a] == base[a] && cur[b] == base[b]);
                } else {
                    assert(cur[a] == base[a] && cur[b].title == r.list_name);
                }
            } else {
                assert(cur[a].title == base[a].title && cur[b].title == base[b].title);
            }
        }
        assert forall|a: int, b: int|
            0 <= a < cur.len() && 0 <= b < cur[a].todos.len() implies !(
        #[trigger] cur[a].todos[b]).is_deleted && !cur[a].todos[b].is_modified by {
            if i == -1 {
                if a < base.len() {
                    assert(cur[a] == base[a]);
                    assert(!base[a].todos[b].is_deleted && !base[a].todos[b].is_modified);
                } else {
                    assert(cur[a].todos == seq![item_of_row(r)]);
                    assert(cur[a].todos[b] == item_of_row(r));
                }
            } else {
                if a != i {
                    assert(cur[a] == base[a]);
                    assert(!base[a].todos[b].is_deleted && !base[a].todos[b].is_modified);
                } else {
                    assert(cur[a].todos == base[i].todos.push(item_of_row(r)));
                    if b < base[i].todos.len() {
                        assert(cur[a].todos[b] == base[i].todos[b]);
                        assert(!base[i].todos[b].is_deleted && !base[i].todos[b].is_modified);
                    } else {
                        assert(cur[a].todos[b] == item_of_row(r));
                    }
                }
            }
        }
    }
}

/// The rows a push of all-clean lists inserts, list by list, in item order.
pub open spec fn insert_rows_spec(lists: Seq<ListModel>) -> Seq<RowModel>
    decreases lists.len(),
{
    if lists.len() == 0 {
        Seq::empty()
    } else {
        insert_rows_spec(lists.drop_last()) + lists.last().todos.map_values(
            |t: ItemModel| row_of_item(lists.last().title, t),
        )
    }
}

} // verus!
