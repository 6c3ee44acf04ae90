//! The library-wide laws: properties that relate several operations, stated
//! and proved over the spec-level model of `model`.

use vstd::prelude::*;

use crate::model::{
    all_clean, find_item, find_list, from_rows_spec, has_item, insert_row, insert_rows_spec,
    item_of_row, lemma_find_item_props, lemma_find_list_props, lists_of_rows, mark_complete_seq,
    mark_incomplete_seq, push_plan_spec, remove_item_seq, remove_list_seq, row_of_item,
    statement_of_item, statements_of_list, upsert_list, wf_lists, ItemModel, ListModel, RowModel,
    StatementModel, UserModel,
};

verus! {

/// Numbering is dense: the item at position k carries number k + 1, as a
/// list built by `add` alone always does.
pub open spec fn densely_numbered(s: Seq<ItemModel>) -> bool {
    forall|k: int| 0 <= k < s.len() ==> (#[trigger] s[k]).item_number == k + 1
}

/// `add` assigns `len + 1`, so it preserves dense numbering; starting from
/// the empty list (densely numbered vacuously), the Nth added item carries
/// number N.
pub proof fn lemma_add_preserves_numbering(s: Seq<ItemModel>, it: ItemModel)
    requires
        densely_numbered(s),
        it.item_number == s.len() + 1,
    ensures
        densely_numbered(s.push(it)),
{
    assert forall|k: int| 0 <= k < s.len() + 1 implies (#[trigger] s.push(it)[k]).item_number == k
        + 1 by {
        if k < s.len() {
            assert(s.push(it)[k] == s[k]);
        } else {
            assert(s.push(it)[k] == it);
        }
    }
}

/// In a densely numbered list, the Nth added item — the one at position
/// N - 1 — carries `item_number == N`.
pub proof fn lemma_nth_added_item(s: Seq<ItemModel>, n: int)
    requires
        densely_numbered(s),
        1 <= n <= s.len(),
    ensures
        s[n - 1].item_number == n,
{
}

/// The three mutators only flip flags, never renumber: each preserves dense
/// numbering.
pub proof fn lemma_mutators_preserve_numbering(s: Seq<ItemModel>, n: nat)
    requires
        densely_numbered(s),
    ensures
        densely_numbered(mark_complete_seq(s, n)),
        densely_numbered(mark_incomplete_seq(s, n)),
        densely_numbered(remove_item_seq(s, n)),
{
    lemma_find_item_props(s, n);
}

/// `find_item` looks only at the numbers: two pointwise equally numbered
/// sequences agree on it.
pub proof fn lemma_find_item_same_numbers(s1: Seq<ItemModel>, s2: Seq<ItemModel>, n: nat)
    requires
        s1.len() == s2.len(),
        forall|k: int| 0 <= k < s1.len() ==> (#[trigger] s1[k]).item_number == s2[k].item_number,
    ensures
        find_item(s1, n) == find_item(s2, n),
{
    lemma_find_item_props(s1, n);
    lemma_find_item_props(s2, n);
    let i1 = find_item(s1, n);
    let i2 = find_item(s2, n);
    if i1 == -1 && i2 != -1 {
        assert(s1[i2].item_number == n);
    }
    if i1 != -1 && i2 == -1 {
        assert(s2[i1].item_number == n);
    }
    if i1 != -1 && i2 != -1 {
        assert(s2[i1].item_number == n);
        assert(s1[i2].item_number == n);
    }
}

/// `mark_complete(n)` followed by `mark_incomplete(n)`, for any n present:
/// the first matching item ends with `is_completed == false` and only its
/// `is_modified` flag set besides; every item keeps its number and title,
/// and every other item is untouched entirely.
pub proof fn lemma_complete_then_incomplete(s: Seq<ItemModel>, n: nat)
    requires
        has_item(s, n),
    ensures
        ({
            let s2 = mark_incomplete_seq(mark_complete_seq(s, n), n);
            let i = find_item(s, n);
            &&& s2 == s.update(i, ItemModel { is_completed: false, is_modified: true, ..s[i] })
            &&& s2.len() == s.len()
            &&& !s2[i].is_completed
            &&& forall|k: int|
                0 <= k < s.len() ==> (#[trigger] s2[k]).item_number == s[k].item_number && s2[
                    k
                ].title == s[k].title
            &&& forall|k: int| 0 <= k < s.len() && k != i ==> s2[k] == s[k]
        }),
{
    lemma_find_item_props(s, n);
    let i = find_item(s, n);
    let s1 = mark_complete_seq(s, n);
    assert forall|k: int| 0 <= k < s.len() implies (#[trigger] s1[k]).item_number == s[
        k
    ].item_number by {
        if k != i {
            assert(s1[k] == s[k]);
        }
    }
    lemma_find_item_same_numbers(s, s1, n);
    let s2 = mark_incomplete_seq(s1, n);
    assert(s2 =~= s.update(i, ItemModel { is_completed: false, is_modified: true, ..s[i] }));
}

/// `remove_item(n)`, for any n present: the first matching item is
/// tombstoned in place, the length never changes, and every other item is
/// untouched.
pub proof fn lemma_remove_item_tombstones(s: Seq<ItemModel>, n: nat)
    requires
        has_item(s, n),
    ensures
        ({
            let s2 = remove_item_seq(s, n);
            let i = find_item(s, n);
            &&& s2.len() == s.len()
            &&& s2[i].is_deleted
            &&& s2[i].item_number == s[i].item_number
            &&& s2[i].title == s[i].title
            &&& forall|k: int| 0 <= k < s.len() && k != i ==> s2[k] == s[k]
        }),
{
    lemma_find_item_props(s, n);
}

/// Inserting a list under its title keeps titles pairwise distinct: a hit
/// replaces in place (same title), a miss appends a title not yet present.
/// With `User::new` starting from no lists and `pull_from_db` promising
/// distinct titles, every user the library builds keeps this map shape.
pub proof fn lemma_upsert_preserves_wf(lists: Seq<ListModel>, l: ListModel)
    requires
        wf_lists(lists),
    ensures
        wf_lists(upsert_list(lists, l)),
{
    lemma_find_list_props(lists, l.title);
    let i = find_list(lists, l.title);
    let cur = upsert_list(lists, l);
    if i == -1 {
        assert forall|a: int, b: int| 0 <= a < b < cur.len() implies cur[a].title
            != cur[b].title by {
            if b < lists.len() {
                assert(cur[a] == lists[a] && cur[b] == lists[b]);
            } else {
                assert(cur[a] == lists[a] && cur[b] == l);
            }
        }
    } else {
        assert forall|a: int, b: int| 0 <= a < b < cur.len() implies cur[a].title
            != cur[b].title by {
            assert(cur[a].title == lists[a].title && cur[b].title == lists[b].title);
        }
    }
}

/// Removing a list keeps titles pairwise distinct.
pub proof fn lemma_remove_preserves_wf(lists: Seq<ListModel>, name: Seq<char>)
    requires
        wf_lists(lists),
    ensures
        wf_lists(remove_list_seq(lists, name)),
{
    lemma_find_list_props(lists, name);
    let i = find_list(lists, name);
    if i != -1 {
        let cur = lists.remove(i);
        assert forall|a: int, b: int| 0 <= a < b < cur.len() implies cur[a].title
            != cur[b].title by {
            let a0 = if a < i { a } else { a + 1 };
            let b0 = if b < i { b } else { b + 1 };
            assert(cur[a] == lists[a0] && cur[b] == lists[b0]);
        }
    }
}

/// A tombstoned item is reconciled by a delete — never an insert nor an
/// update — whatever its other flags say.
pub proof fn lemma_deleted_item_yields_delete(title: Seq<char>, t: ItemModel)
    requires
        t.is_deleted,
    ensures
        statement_of_item(title, t) == (StatementModel::Delete {
            list_name: title,
            item_number: t.item_number,
        }),
{
}

/// For an all-clean user the push plan is exactly one insert per item, in
/// list and item order, carrying the item's persisted row.
pub proof fn lemma_clean_push_plan_inserts(lists: Seq<ListModel>)
    requires
        all_clean(lists),
    ensures
        push_plan_spec(lists) == insert_rows_spec(lists).map_values(
            |r: RowModel| (StatementModel::Insert { row: r }),
        ),
    decreases lists.len(),
{
    let f = |r: RowModel| (StatementModel::Insert { row: r });
    if lists.len() == 0 {
        assert(push_plan_spec(lists) =~= insert_rows_spec(lists).map_values(f));
    } else {
        let rest = lists.drop_last();
        assert(all_clean(rest)) by {
            assert(forall|i: int| 0 <= i < rest.len() ==> rest[i] == lists[i]);
        }
        lemma_clean_push_plan_inserts(rest);
        let l = lists.last();
        let lrows = l.todos.map_values(|t: ItemModel| row_of_item(l.title, t));
        assert(statements_of_list(l) =~= lrows.map_values(f)) by {
            assert forall|j: int| 0 <= j < l.todos.len() implies statements_of_list(l)[j]
                == lrows.map_values(f)[j] by {
                assert(lists[lists.len() - 1].todos[j] == l.todos[j]);
                assert(!l.todos[j].is_deleted && !l.todos[j].is_modified);
            }
        }
        assert(push_plan_spec(lists) =~= insert_rows_spec(lists).map_values(f)) by {
            assert(push_plan_spec(lists) == push_plan_spec(rest) + statements_of_list(l));
            assert(insert_rows_spec(lists) == insert_rows_spec(rest) + lrows);
            assert forall|k: int| 0 <= k < insert_rows_spec(lists).len() implies push_plan_spec(
                lists,
            )[k] == insert_rows_spec(lists).map_values(f)[k] by {
                if k < insert_rows_spec(rest).len() {
                    assert(insert_rows_spec(lists)[k] == insert_rows_spec(rest)[k]);
                } else {
                    assert(insert_rows_spec(lists)[k] == lrows[k - insert_rows_spec(rest).len()]);
                }
            }
        }
    }
}

/// Folding the rows of one list's clean items into lists that do not yet
/// hold its title appends exactly that list.
proof fn lemma_fold_rows_of_one_list(r0: Seq<RowModel>, title: Seq<char>, items: Seq<ItemModel>)
    requires
        find_list(lists_of_rows(r0), title) == -1,
        items.len() > 0,
        forall|j: int|
            0 <= j < items.len() ==> !(#[trigger] items[j]).is_deleted && !items[j].is_modified,
    ensures
        lists_of_rows(r0 + items.map_values(|t: ItemModel| row_of_item(title, t)))
            == lists_of_rows(r0).push(ListModel { title, todos: items }),
    decreases items.len(),
{
    let base = lists_of_rows(r0);
    lemma_find_list_props(base, title);
    let rows = items.map_values(|t: ItemModel| row_of_item(title, t));
    let all = r0 + rows;
    if items.len() == 1 {
        assert(all.drop_last() =~= r0);
        assert(all.last() == row_of_item(title, items[0]));
        assert(lists_of_rows(all) == insert_row(base, row_of_item(title, items[0])));
        assert(find_list(base, title) == -1);
        assert(item_of_row(row_of_item(title, items[0])) == items[0]);
        assert(seq![items[0]] =~= items);
        assert(lists_of_rows(all) =~= base.push(ListModel { title, todos: items }));
    } else {
        let rest = items.drop_last();
        assert(forall|j: int| 0 <= j < rest.len() ==> rest[j] == items[j]);
        lemma_fold_rows_of_one_list(r0, title, rest);
        let rrows = rest.map_values(|t: ItemModel| row_of_item(title, t));
        let rall = r0 + rrows;
        assert(all.drop_last() =~= rall) by {
            assert(forall|k: int| 0 <= k < rrows.len() ==> rrows[k] == rows[k]);
        }
        assert(all.last() == row_of_item(title, items.last()));
        let mid = base.push(ListModel { title, todos: rest });
        assert(lists_of_rows(all) == insert_row(mid, row_of_item(title, items.last())));
        lemma_find_list_props(mid, title);
        assert(mid[base.len() as int].title == title);
        assert(find_list(mid, title) == base.len()) by {
            assert forall|j: int| 0 <= j < base.len() implies mid[j].title != title by {
                assert(mid[j] == base[j]);
            }
        }
        assert(item_of_row(row_of_item(title, items.last())) == items.last());
        assert(rest.push(items.last()) =~= items);
        assert(lists_of_rows(all) =~= base.push(ListModel { title, todos: items }));
    }
}

/// Reconstructing from exactly the rows an all-clean push inserts rebuilds
/// the same lists, provided no list is empty.
proof fn lemma_lists_of_insert_rows(lists: Seq<ListModel>)
    requires
        wf_lists(lists),
        all_clean(lists),
        forall|i: int| 0 <= i < lists.len() ==> (#[trigger] lists[i]).todos.len() > 0,
    ensures
        lists_of_rows(insert_rows_spec(lists)) == lists,
    decreases lists.len(),
{
    if lists.len() == 0 {
        assert(lists_of_rows(insert_rows_spec(lists)) =~= lists);
    } else {
        let rest = lists.drop_last();
        assert(forall|i: int| 0 <= i < rest.len() ==> rest[i] == lists[i]);
        lemma_lists_of_insert_rows(rest);
        let l = lists.last();
        lemma_find_list_props(rest, l.title);
        assert(find_list(rest, l.title) == -1) by {
            if find_list(rest, l.title) != -1 {
                let i = find_list(rest, l.title);
                assert(lists[i].title == lists[lists.len() - 1].title);
            }
        }
        assert(forall|j: int|
            0 <= j < l.todos.len() ==> !(#[trigger] l.todos[j]).is_deleted
                && !l.todos[j].is_modified) by {
            assert(forall|j: int|
                0 <= j < l.todos.len() ==> lists[lists.len() - 1].todos[j] == l.todos[j]);
        }
        lemma_fold_rows_of_one_list(insert_rows_spec(rest), l.title, l.todos);
        assert(insert_rows_spec(lists) == insert_rows_spec(rest) + l.todos.map_values(
            |t: ItemModel| row_of_item(l.title, t),
        ));
        assert(rest.push(ListModel { title: l.title, todos: l.todos }) =~= lists) by {
            assert(ListModel { title: l.title, todos: l.todos } =~= l);
        }
    }
}

/// The round trip: pushing an all-clean user into an empty store and
/// pulling the same name rebuilds the very same user — identity, list
/// names, items, titles, datetimes and completion flags — provided no list
/// is empty (an empty list writes no row, so a pull cannot see it). The
/// store's own part is that inserted rows come back in insertion order.
pub proof fn lemma_push_pull_round_trip(u: UserModel)
    requires
        wf_lists(u.lists),
        all_clean(u.lists),
        forall|i: int| 0 <= i < u.lists.len() ==> (#[trigger] u.lists[i]).todos.len() > 0,
    ensures
        from_rows_spec(u.user_name, u.email, insert_rows_spec(u.lists)) == u,
{
    lemma_lists_of_insert_rows(u.lists);
    assert(from_rows_spec(u.user_name, u.email, insert_rows_spec(u.lists)) =~= u);
}

} // verus!

