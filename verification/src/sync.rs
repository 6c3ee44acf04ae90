//! The push/pull synchronization protocol: reconciling the in-memory state
//! against the persisted rows by the items' dirty flags. The reconciliation
//! decisions — which statement each item gets, and how pulled rows rebuild
//! a user — are verified here; the statements themselves run behind the
//! trusted wrappers in `db`.

use vstd::prelude::*;

use crate::db;
use crate::db::SyncError;
use crate::model::{
    all_clean, from_rows_spec, insert_row, item_of_row, lemma_find_list_props,
    lemma_lists_of_rows_wf_clean, lists_of_rows, push_plan_spec, statement_of_item,
    statements_of_list, wf_lists, RowModel, StatementModel,
};
use crate::todo::{
    items_view, lemma_items_view_push, lists_view, TodoItem, TodoList, TodoLists, User,
};

verus! {

/// One persisted todo row, as loaded from or written to the store.
pub struct TodoRow {
    pub list_name: String,
    pub item_number: usize,
    pub title: String,
    pub datetime: String,
    pub is_completed: bool,
}

impl View for TodoRow {
    type V = RowModel;

    open spec fn view(&self) -> RowModel {
        RowModel {
            list_name: self.list_name@,
            item_number: self.item_number as nat,
            title: self.title@,
            datetime: self.datetime@,
            is_completed: self.is_completed,
        }
    }
}

/// The models of a sequence of rows, in order.
pub open spec fn rows_view(s: Seq<TodoRow>) -> Seq<RowModel> {
    s.map_values(|r: TodoRow| r@)
}

impl TodoRow {
    /// A row from its five column values.
    pub fn new(
        list_name: String,
        item_number: usize,
        title: String,
        datetime: String,
        is_completed: bool,
    ) -> (r: TodoRow)
        ensures
            r@ == (RowModel {
                list_name: list_name@,
                item_number: item_number as nat,
                title: title@,
                datetime: datetime@,
                is_completed,
            }),
    {
        TodoRow { list_name, item_number, title, datetime, is_completed }
    }
}

/// One reconciliation statement of a push.
pub enum DbStatement {
    /// Delete the persisted row of a tombstoned item.
    DeleteTodo { list_name: String, item_number: usize },
    /// Overwrite the persisted row of a modified item.
    UpdateTodo { row: TodoRow },
    /// Insert the row of a fresh item, ignoring an existing duplicate.
    InsertTodo { row: TodoRow },
}

impl View for DbStatement {
    type V = StatementModel;

    open spec fn view(&self) -> StatementModel {
        match self {
            DbStatement::DeleteTodo { list_name, item_number } => StatementModel::Delete {
                list_name: list_name@,
                item_number: *item_number as nat,
            },
            DbStatement::UpdateTodo { row } => StatementModel::Update { row: row@ },
            DbStatement::InsertTodo { row } => StatementModel::Insert { row: row@ },
        }
    }
}

/// The models of a sequence of statements, in order.
pub open spec fn stmts_view(s: Seq<DbStatement>) -> Seq<StatementModel> {
    s.map_values(|st: DbStatement| st@)
}

/// `stmts_view` distributes over `push`.
pub(crate) proof fn lemma_stmts_view_push(s: Seq<DbStatement>, st: DbStatement)
    ensures
        stmts_view(s.push(st)) =~= stmts_view(s).push(st@),
{
    assert forall|k: int| 0 <= k < s.len() + 1 implies stmts_view(s.push(st))[k] == stmts_view(
        s,
    ).push(st@)[k] by {
        if k < s.len() {
            assert(s.push(st)[k] == s[k]);
        } else {
            assert(s.push(st)[k] == st);
        }
    }
}

impl User {
    /// The exact sequence of statements a push issues, list by list and item
    /// by item: a delete for a tombstoned item, an update for a modified
    /// one, and otherwise an insert — checked in that priority order, so a
    /// deleted item is never re-inserted.
    pub fn push_plan(&self) -> (r: Vec<DbStatement>)
        ensures
            stmts_view(r@) == push_plan_spec(self@.lists),
    {
        let mut r: Vec<DbStatement> = Vec::new();
        let nl = self.todo_lists.lists.len();
        let mut i: usize = 0;
        proof {
            assert(stmts_view(r@) =~= push_plan_spec(self@.lists.take(0)));
        }
        while i < nl
            invariant
                i <= nl,
                nl == self.todo_lists.lists@.len(),
                stmts_view(r@) == push_plan_spec(self@.lists.take(i as int)),
            decreases nl - i,
        {
            let l = &self.todo_lists.lists[i];
            let ghost lm = self@.lists[i as int];
            proof {
                assert(lm == l@);
            }
            let nt = l.todos.len();
            let mut j: usize = 0;
            proof {
                assert(statements_of_list(lm).take(0) =~= Seq::<StatementModel>::empty());
                assert(stmts_view(r@) =~= push_plan_spec(self@.lists.take(i as int))
                    + statements_of_list(lm).take(0));
            }
            while j < nt
                invariant
                    j <= nt,
                    nt == l.todos@.len(),
                    lm == l@,
                    i < nl,
                    nl == self.todo_lists.lists@.len(),
                    l == &self.todo_lists.lists@[i as int],
                    stmts_view(r@) == push_plan_spec(self@.lists.take(i as int))
                        + statements_of_list(lm).take(j as int),
                decreases nt - j,
            {
                let t = &l.todos[j];
                let st = if t.is_deleted {
                    DbStatement::DeleteTodo {
                        list_name: l.title.clone(),
                        item_number: t.item_number,
                    }
                } else if t.is_modified {
                    DbStatement::UpdateTodo {
                        row: TodoRow::new(
                            l.title.clone(),
                            t.item_number,
                            t.title.clone(),
                            t.datetime.clone(),
                            t.is_completed,
                        ),
                    }
                } else {
                    DbStatement::InsertTodo {
                        row: TodoRow::new(
                            l.title.clone(),
                            t.item_number,
                            t.title.clone(),
                            t.datetime.clone(),
                            t.is_completed,
                        ),
                    }
                };
                proof {
                    assert(lm.todos[j as int] == l.todos@[j as int]@);
                    assert(st@ == statement_of_item(lm.title, lm.todos[j as int]));
                }
                let ghost prev = r@;
                r.push(st);
                proof {
                    lemma_stmts_view_push(prev, st);
                    assert(statements_of_list(lm)[j as int] == statement_of_item(
                        lm.title,
                        lm.todos[j as int],
                    ));
                    assert(statements_of_list(lm).take(j + 1) =~= statements_of_list(lm).take(
                        j as int,
                    ).push(statements_of_list(lm)[j as int]));
                    assert(stmts_view(r@) =~= push_plan_spec(self@.lists.take(i as int))
                        + statements_of_list(lm).take(j + 1));
                }
                j += 1;
            }
            proof {
                assert(statements_of_list(lm).take(nt as int) =~= statements_of_list(lm));
                assert(self@.lists.take(i + 1).drop_last() =~= self@.lists.take(i as int));
                assert(self@.lists.take(i + 1).last() == lm);
                assert(stmts_view(r@) =~= push_plan_spec(self@.lists.take(i + 1)));
            }
            i += 1;
        }
        proof {
            assert(self@.lists.take(nl as int) =~= self@.lists);
        }
        r
    }

    /// Pushes the in-memory state to the store behind `conn`: upserts the
    /// identity row (insert-if-absent; an existing email is left alone),
    /// resolves the persisted id, and issues exactly the statements of
    /// `push_plan`, one per item, stopping at the first failure. Each
    /// statement commits independently: a failure midway leaves the earlier
    /// ones applied.
    pub fn push_to_db(&self, conn: &rusqlite::Connection) -> (r: Result<(), SyncError>) {
        if let Err(e) = db::insert_user(conn, &self.user_name, &self.email) {
            return Err(db::sync_error_of(e));
        }
        let user_id = match db::user_id(conn, &self.user_name) {
            Ok(id) => id,
            Err(e) => {
                return Err(db::sync_error_of(e));
            },
        };
        let plan = self.push_plan();
        let n = plan.len();
        let mut i: usize = 0;
        while i < n
            invariant
                i <= n,
                n == plan@.len(),
            decreases n - i,
        {
            let res = match &plan[i] {
                DbStatement::DeleteTodo { list_name, item_number } => db::delete_todo(
                    conn,
                    user_id,
                    list_name,
                    *item_number,
                ),
                DbStatement::UpdateTodo { row } => db::update_todo(conn, user_id, row),
                DbStatement::InsertTodo { row } => db::insert_todo(conn, user_id, row),
            };
            if let Err(e) = res {
                return Err(db::sync_error_of(e));
            }
            i += 1;
        }
        Ok(())
    }

    /// A brand-new user rebuilt from its persisted rows: each row is
    /// appended, clean, to the list named by the row, which is created on
    /// first encounter; row order decides append order.
    pub fn from_rows(user_name: String, email: String, rows: &Vec<TodoRow>) -> (u: User)
        ensures
            u@ == from_rows_spec(user_name@, email@, rows_view(rows@)),
    {
        let ghost all = rows_view(rows@);
        let mut lv: Vec<TodoList> = Vec::new();
        let n = rows.len();
        let mut k: usize = 0;
        proof {
            assert(lists_view(lv@) =~= lists_of_rows(all.take(0)));
        }
        while k < n
            invariant
                k <= n,
                n == rows@.len(),
                all == rows_view(rows@),
                lists_view(lv@) == lists_of_rows(all.take(k as int)),
            decreases n - k,
        {
            let row = &rows[k];
            let item = TodoItem {
                item_number: row.item_number,
                title: row.title.clone(),
                datetime: row.datetime.clone(),
                is_completed: row.is_completed,
                is_deleted: false,
                is_modified: false,
            };
            proof {
                assert(item@ == item_of_row(all[k as int]));
            }
            let m = lv.len();
            let mut i: usize = 0;
            let mut idx: usize = m;
            while i < m
                invariant
                    i <= m,
                    m == lv@.len(),
                    idx == m || idx < i,
                    idx == m ==> forall|j: int|
                        0 <= j < i ==> lists_view(lv@)[j].title != row.list_name@,
                    idx < m ==> lists_view(lv@)[idx as int].title == row.list_name@ && forall|
                        j: int,
                    |
                        0 <= j < idx ==> lists_view(lv@)[j].title != row.list_name@,
                decreases m - i,
            {
                if idx == m && lv[i].title == row.list_name {
                    idx = i;
                }
                i += 1;
            }
            let ghost prev = lv@;
            proof {
                lemma_find_list_props(lists_view(prev), row.list_name@);
            }
            if idx < m {
                let mut l = lv.remove(idx);
                let ghost tprev = l.todos@;
                l.todos.push(item);
                proof {
                    lemma_items_view_push(tprev, item);
                }
                lv.insert(idx, l);
                proof {
                    assert(lv@ =~= prev.update(idx as int, lv@[idx as int]));
                    assert(lists_view(lv@) =~= insert_row(lists_view(prev), all[k as int]));
                    assert(all.take(k + 1).drop_last() =~= all.take(k as int));
                    assert(lists_view(lv@) =~= lists_of_rows(all.take(k + 1)));
                }
            } else {
                let mut tv: Vec<TodoItem> = Vec::new();
                tv.push(item);
                let nl = TodoList { title: row.list_name.clone(), todos: tv };
                proof {
                    assert(items_view(nl.todos@) =~= seq![item@]);
                }
                lv.push(nl);
                proof {
                    assert(lists_view(lv@) =~= insert_row(lists_view(prev), all[k as int]));
                    assert(all.take(k + 1).drop_last() =~= all.take(k as int));
                    assert(lists_view(lv@) =~= lists_of_rows(all.take(k + 1)));
                }
            }
            k += 1;
        }
        proof {
            assert(all.take(n as int) =~= all);
        }
        User { user_name, email, todo_lists: TodoLists { lists: lv } }
    }

    /// Pulls `user_name` wholesale from the store behind `conn`: fails with
    /// `NotFound` (building nothing) when the identity row is absent, and
    /// otherwise returns a brand-new user — identity from the store, lists
    /// rebuilt from the rows, every item clean and list titles distinct —
    /// meant to replace any prior in-memory state.
    pub fn pull_from_db(conn: &rusqlite::Connection, user_name: &str) -> (r: Result<
        User,
        SyncError,
    >)
        ensures
            match r {
                Ok(u) => {
                    &&& u@.user_name == user_name@
                    &&& exists|email: Seq<char>, rows: Seq<RowModel>|
                        u@ == from_rows_spec(user_name@, email, rows)
                    &&& all_clean(u@.lists)
                    &&& wf_lists(u@.lists)
                },
                Err(_) => true,
            },
    {
        let (user_id, email) = match db::user_row(conn, user_name) {
            Ok(v) => v,
            Err(e) => {
                return Err(db::sync_error_of(e));
            },
        };
        let rows = match db::todo_rows(conn, user_id) {
            Ok(v) => v,
            Err(e) => {
                return Err(db::sync_error_of(e));
            },
        };
        let u = User::from_rows(user_name.to_owned(), email, &rows);
        proof {
            lemma_lists_of_rows_wf_clean(rows_view(rows@));
        }
        Ok(u)
    }
}

} // verus!
