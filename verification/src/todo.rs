//! The in-memory task model: items, lists, and the user aggregate.

use vstd::prelude::*;

use crate::model::{
    filter_by_completed, filter_projection, find_item, find_list, has_item, has_list,
    lemma_find_item_props, lemma_find_list_props, mark_complete_seq, mark_incomplete_seq,
    remove_item_seq, remove_list_seq, upsert_list, ItemModel, ListModel, UserModel,
};

verus! {

/// A single task with its lifecycle flags. An item is only ever tombstoned
/// (`is_deleted`), never dropped from its list; `is_modified` records a
/// post-creation mutation other than deletion, and selects the persistence
/// action on push.
pub struct TodoItem {
    pub item_number: usize,
    pub title: String,
    pub datetime: String,
    pub is_completed: bool,
    pub is_deleted: bool,
    pub is_modified: bool,
}

impl View for TodoItem {
    type V = ItemModel;

    open spec fn view(&self) -> ItemModel {
        ItemModel {
            item_number: self.item_number as nat,
            title: self.title@,
            datetime: self.datetime@,
            is_completed: self.is_completed,
            is_deleted: self.is_deleted,
            is_modified: self.is_modified,
        }
    }
}

/// The models of a sequence of items, in order.
pub open spec fn items_view(s: Seq<TodoItem>) -> Seq<ItemModel> {
    s.map_values(|t: TodoItem| t@)
}

/// Relies on chrono's `Local::now` and `DateTime::format`: the current local
/// time rendered as `YYYY-MM-DD HH:MM:SS`. The result depends on the clock,
/// so nothing is claimed of it.
#[verifier::external_body]
fn get_current_date_time() -> (r: String) {
    chrono::Local::now().format("%Y-%m-%d %H:%M:%S").to_string()
}

impl TodoItem {
    /// A fresh item: all flags clear, `datetime` stamped with the current
    /// local time (about which nothing is known).
    pub fn new(item_number: usize, title: String) -> (r: TodoItem)
        ensures
            r@.item_number == item_number,
            r@.title == title@,
            !r@.is_completed,
            !r@.is_deleted,
            !r@.is_modified,
    {
        TodoItem {
            item_number,
            title,
            datetime: get_current_date_time(),
            is_completed: false,
            is_deleted: false,
            is_modified: false,
        }
    }

    /// A field-for-field copy.
    pub fn duplicate(&self) -> (r: TodoItem)
        ensures
            r@ == self@,
    {
        TodoItem {
            item_number: self.item_number,
            title: self.title.clone(),
            datetime: self.datetime.clone(),
            is_completed: self.is_completed,
            is_deleted: self.is_deleted,
            is_modified: self.is_modified,
        }
    }
}

/// An ordered sequence of items under a name. Order is insertion order;
/// deletion tombstones an item but never drops it, so the next assigned
/// number, `todos.len() + 1`, never collides within a session.
pub struct TodoList {
    pub title: String,
    pub todos: Vec<TodoItem>,
}

impl View for TodoList {
    type V = ListModel;

    open spec fn view(&self) -> ListModel {
        ListModel { title: self.title@, todos: items_view(self.todos@) }
    }
}

impl TodoList {
    /// An empty list under the given title.
    pub fn new(title: String) -> (r: TodoList)
        ensures
            r@.title == title@,
            r@.todos == Seq::<ItemModel>::empty(),
    {
        let r = TodoList { title, todos: Vec::new() };
        proof {
            assert(items_view(r.todos@) =~= Seq::<ItemModel>::empty());
        }
        r
    }

    /// Appends a fresh item numbered `todos.len() + 1`. The prefix is
    /// untouched; the new item's flags are clear and its title is `title`.
    pub fn add(&mut self, title: String)
        requires
            old(self).todos@.len() < usize::MAX,
        ensures
            final(self)@.title == old(self)@.title,
            final(self)@.todos.len() == old(self)@.todos.len() + 1,
            final(self)@.todos.drop_last() == old(self)@.todos,
            final(self)@.todos.last().item_number == old(self)@.todos.len() + 1,
            final(self)@.todos.last().title == title@,
            !final(self)@.todos.last().is_completed,
            !final(self)@.todos.last().is_deleted,
            !final(self)@.todos.last().is_modified,
    {
        let item_number = self.todos.len() + 1;
        let todo = TodoItem::new(item_number, title);
        self.todos.push(todo);
        proof {
            assert(items_view(self.todos@).drop_last() =~= items_view(old(self).todos@));
        }
    }

    /// The index of the first item with this number, if any; agrees with the
    /// spec-level `find_item`.
    fn index_of_item(&self, item_number: usize) -> (r: Option<usize>)
        ensures
            match r {
                Some(k) => find_item(self@.todos, item_number as nat) == k && k < self.todos@.len(),
                None => find_item(self@.todos, item_number as nat) == -1,
            },
    {
        let n = self.todos.len();
        let mut i: usize = 0;
        while i < n
            invariant
                i <= n,
                n == self.todos@.len(),
                forall|j: int| 0 <= j < i ==> self@.todos[j].item_number != item_number as nat,
            decreases n - i,
        {
            if self.todos[i].item_number == item_number {
                proof {
                    assert(self@.todos[i as int].item_number == item_number as nat);
                    lemma_find_item_props(self@.todos, item_number as nat);
                }
                return Some(i);
            }
            i += 1;
        }
        proof {
            lemma_find_item_props(self@.todos, item_number as nat);
        }
        None
    }

    /// Marks the first item numbered `item_number` completed and modified; a
    /// miss is a deliberate silent no-op.
    pub fn mark_complete(&mut self, item_number: usize)
        ensures
            final(self)@.title == old(self)@.title,
            final(self)@.todos == mark_complete_seq(old(self)@.todos, item_number as nat),
            !has_item(old(self)@.todos, item_number as nat) ==> final(self)@ == old(self)@,
    {
        match self.index_of_item(item_number) {
            Some(i) => {
                let mut t = self.todos.remove(i);
                t.is_completed = true;
                t.is_modified = true;
                self.todos.insert(i, t);
                proof {
                    assert(items_view(self.todos@) =~= mark_complete_seq(
                        old(self)@.todos,
                        item_number as nat,
                    ));
                }
            },
            None => {},
        }
    }

    /// Clears the completion flag of the first item numbered `item_number`
    /// and marks it modified; a miss is a silent no-op.
    pub fn mark_incomplete(&mut self, item_number: usize)
        ensures
            final(self)@.title == old(self)@.title,
            final(self)@.todos == mark_incomplete_seq(old(self)@.todos, item_number as nat),
            !has_item(old(self)@.todos, item_number as nat) ==> final(self)@ == old(self)@,
    {
        match self.index_of_item(item_number) {
            Some(i) => {
                let mut t = self.todos.remove(i);
                t.is_completed = false;
                t.is_modified = true;
                self.todos.insert(i, t);
                proof {
                    assert(items_view(self.todos@) =~= mark_incomplete_seq(
                        old(self)@.todos,
                        item_number as nat,
                    ));
                }
            },
            None => {},
        }
    }

    /// Tombstones the first item numbered `item_number` in place: nothing is
    /// dropped, nothing renumbered, and the length never changes.
    pub fn remove_item(&mut self, item_number: usize)
        ensures
            final(self)@.title == old(self)@.title,
            final(self)@.todos == remove_item_seq(old(self)@.todos, item_number as nat),
            final(self)@.todos.len() == old(self)@.todos.len(),
            !has_item(old(self)@.todos, item_number as nat) ==> final(self)@ == old(self)@,
    {
        match self.index_of_item(item_number) {
            Some(i) => {
                let mut t = self.todos.remove(i);
                t.is_deleted = true;
                self.todos.insert(i, t);
                proof {
                    assert(items_view(self.todos@) =~= remove_item_seq(
                        old(self)@.todos,
                        item_number as nat,
                    ));
                }
            },
            None => {},
        }
    }

    /// A field-for-field copy, items included.
    pub fn duplicate(&self) -> (r: TodoList)
        ensures
            r@ == self@,
    {
        let mut todos: Vec<TodoItem> = Vec::new();
        let n = self.todos.len();
        let mut i: usize = 0;
        while i < n
            invariant
                i <= n,
                n == self.todos@.len(),
                todos@.len() == i,
                items_view(todos@) == items_view(self.todos@).take(i as int),
            decreases n - i,
        {
            let ghost prev = todos@;
            let d = self.todos[i].duplicate();
            todos.push(d);
            proof {
                let full = items_view(self.todos@);
                assert(prev.len() == i);
                assert forall|k: int| 0 <= k < i + 1 implies items_view(todos@)[k] == full.take(
                    i + 1,
                )[k] by {
                    assert(items_view(todos@)[k] == todos@[k]@);
                    assert(full.take(i + 1)[k] == full[k]);
                    if k < i {
                        assert(todos@[k] == prev[k]);
                        assert(items_view(prev)[k] == prev[k]@);
                        assert(items_view(prev)[k] == full.take(i as int)[k]);
                    } else {
                        assert(todos@[k] == d);
                    }
                }
                assert(items_view(todos@) =~= full.take(i + 1));
            }
            i += 1;
        }
        proof {
            assert(items_view(self.todos@).take(n as int) =~= items_view(self.todos@));
        }
        TodoList { title: self.title.clone(), todos }
    }
}

/// The models of a sequence of lists, in order.
pub open spec fn lists_view(s: Seq<TodoList>) -> Seq<ListModel> {
    s.map_values(|l: TodoList| l@)
}

/// The mapping from list name to list: a vector of lists whose titles the
/// operations keep pairwise distinct, in insertion order of the names.
pub struct TodoLists {
    pub lists: Vec<TodoList>,
}

impl View for TodoLists {
    type V = Seq<ListModel>;

    open spec fn view(&self) -> Seq<ListModel> {
        lists_view(self.lists@)
    }
}

impl TodoLists {
    /// An empty mapping.
    pub fn new() -> (r: TodoLists)
        ensures
            r@ == Seq::<ListModel>::empty(),
    {
        let r = TodoLists { lists: Vec::new() };
        proof {
            assert(lists_view(r.lists@) =~= Seq::<ListModel>::empty());
        }
        r
    }

    /// The index of the first list with this title, if any; agrees with the
    /// spec-level `find_list`.
    fn index_of(&self, name: &String) -> (r: Option<usize>)
        ensures
            match r {
                Some(k) => find_list(self@, name@) == k && k < self.lists@.len(),
                None => find_list(self@, name@) == -1,
            },
    {
        let n = self.lists.len();
        let mut i: usize = 0;
        while i < n
            invariant
                i <= n,
                n == self.lists@.len(),
                forall|j: int| 0 <= j < i ==> self@[j].title != name@,
            decreases n - i,
        {
            if self.lists[i].title == *name {
                proof {
                    assert(self@[i as int].title == name@);
                    lemma_find_list_props(self@, name@);
                }
                return Some(i);
            }
            i += 1;
        }
        proof {
            lemma_find_list_props(self@, name@);
        }
        None
    }

    /// Whether a list with this title is present.
    pub fn contains_key(&self, name: &String) -> (r: bool)
        ensures
            r == has_list(self@, name@),
    {
        match self.index_of(name) {
            Some(_) => true,
            None => false,
        }
    }

    /// Inserts `list` under its title: an existing list of that title is
    /// replaced wholesale, otherwise the list is appended.
    pub fn insert(&mut self, list: TodoList)
        ensures
            final(self)@ == upsert_list(old(self)@, list@),
    {
        let ghost lv = list@;
        match self.index_of(&list.title) {
            Some(i) => {
                let ghost prev = self.lists@;
                self.lists.remove(i);
                self.lists.insert(i, list);
                proof {
                    assert(self.lists@ =~= prev.update(i as int, self.lists@[i as int]));
                    assert(lists_view(self.lists@) =~= lists_view(prev).update(i as int, lv));
                }
            },
            None => {
                let ghost prev = self.lists@;
                self.lists.push(list);
                proof {
                    assert(lists_view(self.lists@) =~= lists_view(prev).push(lv));
                }
            },
        }
    }

    /// Removes and returns the list with this title; `None` (and no change)
    /// when it is absent.
    pub fn remove(&mut self, name: &String) -> (r: Option<TodoList>)
        ensures
            final(self)@ == remove_list_seq(old(self)@, name@),
            match r {
                Some(l) => has_list(old(self)@, name@) && l@ == old(self)@[find_list(
                    old(self)@,
                    name@,
                )],
                None => !has_list(old(self)@, name@),
            },
    {
        match self.index_of(name) {
            Some(i) => {
                let ghost prev = self.lists@;
                let l = self.lists.remove(i);
                proof {
                    assert(lists_view(self.lists@) =~= lists_view(prev).remove(i as int));
                }
                Some(l)
            },
            None => None,
        }
    }

    /// Drops every list.
    pub fn clear(&mut self)
        ensures
            final(self)@ == Seq::<ListModel>::empty(),
    {
        self.lists.clear();
        proof {
            assert(lists_view(self.lists@) =~= Seq::<ListModel>::empty());
        }
    }

    /// How many lists are present.
    pub fn len(&self) -> (r: usize)
        ensures
            r == self@.len(),
    {
        self.lists.len()
    }
}

/// `items_view` distributes over `push`.
pub(crate) proof fn lemma_items_view_push(s: Seq<TodoItem>, t: TodoItem)
    ensures
        items_view(s.push(t)) =~= items_view(s).push(t@),
{
    assert forall|k: int| 0 <= k < s.len() + 1 implies items_view(s.push(t))[k] == items_view(
        s,
    ).push(t@)[k] by {
        if k < s.len() {
            assert(s.push(t)[k] == s[k]);
        } else {
            assert(s.push(t)[k] == t);
        }
    }
}

/// `lists_view` distributes over `push`.
pub(crate) proof fn lemma_lists_view_push(s: Seq<TodoList>, l: TodoList)
    ensures
        lists_view(s.push(l)) =~= lists_view(s).push(l@),
{
    assert forall|k: int| 0 <= k < s.len() + 1 implies lists_view(s.push(l))[k] == lists_view(
        s,
    ).push(l@)[k] by {
        if k < s.len() {
            assert(s.push(l)[k] == s[k]);
        } else {
            assert(s.push(l)[k] == l);
        }
    }
}

/// The items of `items` whose completion flag equals `want`, copied in
/// order; soft-deleted items are not excluded.
fn filter_items(items: &Vec<TodoItem>, want: bool) -> (r: Vec<TodoItem>)
    ensures
        items_view(r@) == filter_by_completed(items_view(items@), want),
{
    let ghost full = items_view(items@);
    let mut r: Vec<TodoItem> = Vec::new();
    let n = items.len();
    let mut i: usize = 0;
    proof {
        assert(items_view(r@) =~= filter_by_completed(full.take(0), want));
    }
    while i < n
        invariant
            i <= n,
            n == items@.len(),
            full == items_view(items@),
            items_view(r@) == filter_by_completed(full.take(i as int), want),
        decreases n - i,
    {
        proof {
            assert(full.take(i + 1).drop_last() =~= full.take(i as int));
            assert(full.take(i + 1).last() == full[i as int]);
        }
        if items[i].is_completed == want {
            let d = items[i].duplicate();
            let ghost prev = r@;
            r.push(d);
            proof {
                lemma_items_view_push(prev, d);
                assert(items_view(r@) =~= filter_by_completed(full.take(i + 1), want));
            }
        }
        i += 1;
    }
    proof {
        assert(full.take(n as int) =~= full);
    }
    r
}

/// The user aggregate: identity plus the named lists it exclusively owns.
pub struct User {
    pub user_name: String,
    pub email: String,
    pub todo_lists: TodoLists,
}

impl View for User {
    type V = UserModel;

    open spec fn view(&self) -> UserModel {
        UserModel {
            user_name: self.user_name@,
            email: self.email@,
            lists: self.todo_lists@,
        }
    }
}

impl User {
    /// A fresh user with no lists; the identity is taken as given, with no
    /// validation against storage.
    pub fn new(user_name: String, email: String) -> (r: User)
        ensures
            r@.user_name == user_name@,
            r@.email == email@,
            r@.lists == Seq::<ListModel>::empty(),
    {
        User { user_name, email, todo_lists: TodoLists::new() }
    }

    /// Inserts a new empty list under `list_name`; re-adding an existing
    /// name replaces that list wholesale, wiping its items.
    pub fn add_todo_list(&mut self, list_name: String)
        ensures
            final(self)@.user_name == old(self)@.user_name,
            final(self)@.email == old(self)@.email,
            final(self)@.lists == upsert_list(
                old(self)@.lists,
                ListModel { title: list_name@, todos: Seq::empty() },
            ),
    {
        let list = TodoList::new(list_name);
        self.todo_lists.insert(list);
    }

    /// Looks the list up by exact name; absence yields `None`, which callers
    /// must handle. The returned reference mutates the list in place.
    pub fn get_todo_list(&mut self, list_name: &String) -> (r: Option<&mut TodoList>)
        ensures
            ({
                let lists0 = old(self).todo_lists.lists@;
                match r {
                    Some(l) => {
                        let i = find_list(old(self)@.lists, list_name@);
                        &&& 0 <= i < lists0.len()
                        &&& *l == lists0[i]
                        &&& final(self).user_name == old(self).user_name
                        &&& final(self).email == old(self).email
                        &&& final(self).todo_lists.lists@ == lists0.update(i, *final(l))
                        &&& final(self)@.lists == old(self)@.lists.update(i, (*final(l))@)
                    },
                    None => !has_list(old(self)@.lists, list_name@) && *final(self) == *old(self),
                }
            }),
    {
        match self.todo_lists.index_of(list_name) {
            Some(i) => {
                proof {
                    let lists0 = self.todo_lists.lists@;
                    assert forall|v: TodoList|
                        lists_view(#[trigger] lists0.update(i as int, v)) =~= lists_view(
                            lists0,
                        ).update(i as int, v@) by {
                        assert forall|k: int|
                            0 <= k < lists0.len() implies lists_view(lists0.update(i as int, v))[k]
                            == lists_view(lists0).update(i as int, v@)[k] by {
                            if k != i {
                                assert(lists0.update(i as int, v)[k] == lists0[k]);
                            } else {
                                assert(lists0.update(i as int, v)[k] == v);
                            }
                        }
                    }
                }
                Some(&mut self.todo_lists.lists[i])
            },
            None => None,
        }
    }

    /// Every list, copied with all of its items: the full projection the
    /// session prints for `show --all`.
    pub fn show_lists(&self) -> (r: Vec<TodoList>)
        ensures
            lists_view(r@) == self@.lists,
    {
        let n = self.todo_lists.lists.len();
        let mut r: Vec<TodoList> = Vec::new();
        let mut i: usize = 0;
        proof {
            assert(lists_view(r@) =~= self@.lists.take(0));
        }
        while i < n
            invariant
                i <= n,
                n == self.todo_lists.lists@.len(),
                lists_view(r@) == self@.lists.take(i as int),
            decreases n - i,
        {
            let d = self.todo_lists.lists[i].duplicate();
            let ghost prev = r@;
            r.push(d);
            proof {
                lemma_lists_view_push(prev, d);
                assert(lists_view(r@) =~= self@.lists.take(i + 1));
            }
            i += 1;
        }
        proof {
            assert(self@.lists.take(n as int) =~= self@.lists);
        }
        r
    }

    /// The items of one list, copied in order; `None` when no list carries
    /// that name (the session then prints nothing).
    pub fn show_list_items(&self, list_name: &String) -> (r: Option<Vec<TodoItem>>)
        ensures
            match r {
                Some(v) => has_list(self@.lists, list_name@) && items_view(v@) == self@.lists[
                    find_list(self@.lists, list_name@)
                ].todos,
                None => !has_list(self@.lists, list_name@),
            },
    {
        match self.todo_lists.index_of(list_name) {
            Some(i) => {
                let d = self.todo_lists.lists[i].duplicate();
                Some(d.todos)
            },
            None => None,
        }
    }

    /// The projection shared by the completed/incomplete views: each
    /// selected list paired with its items whose flag equals `want`.
    fn filtered_projection(&self, list_name: Option<&String>, want: bool) -> (r: Vec<TodoList>)
        ensures
            lists_view(r@) == filter_projection(
                self@.lists,
                match list_name {
                    Some(nm) => Some(nm@),
                    None => None,
                },
                want,
            ),
    {
        match list_name {
            Some(name) => {
                let mut r: Vec<TodoList> = Vec::new();
                match self.todo_lists.index_of(name) {
                    Some(i) => {
                        let l = &self.todo_lists.lists[i];
                        let todos = filter_items(&l.todos, want);
                        let ghost prev = r@;
                        let picked = TodoList { title: l.title.clone(), todos };
                        r.push(picked);
                        proof {
                            lemma_lists_view_push(prev, picked);
                            assert(lists_view(r@) =~= filter_projection(
                                self@.lists,
                                Some(name@),
                                want,
                            ));
                        }
                    },
                    None => {
                        proof {
                            assert(lists_view(r@) =~= filter_projection(
                                self@.lists,
                                Some(name@),
                                want,
                            ));
                        }
                    },
                }
                r
            },
            None => {
                let n = self.todo_lists.lists.len();
                let mut r: Vec<TodoList> = Vec::new();
                let mut i: usize = 0;
                while i < n
                    invariant
                        i <= n,
                        n == self.todo_lists.lists@.len(),
                        r@.len() == i,
                        forall|k: int|
                            0 <= k < i ==> #[trigger] lists_view(r@)[k] == (ListModel {
                                title: self@.lists[k].title,
                                todos: filter_by_completed(self@.lists[k].todos, want),
                            }),
                    decreases n - i,
                {
                    let l = &self.todo_lists.lists[i];
                    let todos = filter_items(&l.todos, want);
                    let ghost prev = r@;
                    let picked = TodoList { title: l.title.clone(), todos };
                    r.push(picked);
                    proof {
                        lemma_lists_view_push(prev, picked);
                        assert forall|k: int|
                            0 <= k < i + 1 implies #[trigger] lists_view(r@)[k] == (ListModel {
                            title: self@.lists[k].title,
                            todos: filter_by_completed(self@.lists[k].todos, want),
                        }) by {
                            if k < i {
                                assert(lists_view(r@)[k] == lists_view(prev).push(picked@)[k]);
                                assert(lists_view(prev).push(picked@)[k] == lists_view(prev)[k]);
                            }
                        }
                    }
                    i += 1;
                }
                proof {
                    assert(lists_view(r@) =~= filter_projection(self@.lists, None, want));
                }
                r
            },
        }
    }

    /// Each selected list with its completed items, in order; per the source
    /// projections, soft-deleted items are not excluded. With a name, the
    /// one matching list (or nothing); without, every list.
    pub fn show_completed_items(&self, list_name: Option<&String>) -> (r: Vec<TodoList>)
        ensures
            lists_view(r@) == filter_projection(
                self@.lists,
                match list_name {
                    Some(nm) => Some(nm@),
                    None => None,
                },
                true,
            ),
    {
        self.filtered_projection(list_name, true)
    }

    /// Each selected list with its incomplete items, in order; the mirror of
    /// `show_completed_items`.
    pub fn show_incomplete_items(&self, list_name: Option<&String>) -> (r: Vec<TodoList>)
        ensures
            lists_view(r@) == filter_projection(
                self@.lists,
                match list_name {
                    Some(nm) => Some(nm@),
                    None => None,
                },
                false,
            ),
    {
        self.filtered_projection(list_name, false)
    }
}

} // verus!
