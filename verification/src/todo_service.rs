use vstd::prelude::*;

verus! {

/// The sole domain entity: an identifier, a title, and a completion flag.
///
/// `id` and `title` are immutable after creation; only `done` ever changes,
/// and only through [`TodoService::toggle`].
pub struct Todo {
    pub id: String,
    pub title: String,
    pub done: bool,
}

/// The mathematical shape of a [`Todo`]: its strings as character sequences.
pub ghost struct TodoView {
    pub id: Seq<char>,
    pub title: Seq<char>,
    pub done: bool,
}

impl View for Todo {
    type V = TodoView;

    open spec fn view(&self) -> TodoView {
        TodoView { id: self.id@, title: self.title@, done: self.done }
    }
}

impl Clone for Todo {
    fn clone(&self) -> (r: Self)
        ensures
            r@ == self@,
    {
        Todo { id: self.id.clone(), title: self.title.clone(), done: self.done }
    }
}

/// The length, in characters, of a freshly generated identifier.
pub const ID_LEN: usize = 36;

/// Relies on `uuid::Uuid::new_v4` and its `Display` form: a version-4 UUID
/// rendered as 36 hyphenated lower-case hex characters. The value is drawn
/// from a random source, so nothing beyond its length is promised.
#[verifier::external_body]
fn fresh_id() -> (r: String)
    ensures
        r@.len() == ID_LEN,
{
    uuid::Uuid::new_v4().to_string()
}

/// Holds when some item of `s` carries the identifier `id`.
pub open spec fn contains_id(s: Seq<TodoView>, id: Seq<char>) -> bool {
    exists|i: int| 0 <= i < s.len() && s[i].id == id
}

/// The index of the first item of `s` at position `from` or later that
/// carries `id`, or -1 when no such item exists.
pub open spec fn first_match_from(s: Seq<TodoView>, id: Seq<char>, from: int) -> int
    decreases s.len() - from,
{
    if from < 0 || from >= s.len() {
        -1
    } else if s[from].id == id {
        from
    } else {
        first_match_from(s, id, from + 1)
    }
}

/// The index of the first item of `s` that carries `id`, or -1 when none does.
pub open spec fn first_match(s: Seq<TodoView>, id: Seq<char>) -> int {
    first_match_from(s, id, 0)
}

/// `t` with its completion flag flipped; identifier and title unchanged.
pub open spec fn toggled(t: TodoView) -> TodoView {
    TodoView { id: t.id, title: t.title, done: !t.done }
}

/// What a toggle does to the store's contents: the first item carrying `id`
/// has its completion flag flipped; when no item carries `id`, the sequence
/// is unchanged.
pub open spec fn toggle_model(s: Seq<TodoView>, id: Seq<char>) -> Seq<TodoView> {
    let m = first_match(s, id);
    if m == -1 {
        s
    } else {
        s.update(m, toggled(s[m]))
    }
}

/// What `first_match_from` finds: -1 exactly when no item at `from` or later
/// carries `id`, and otherwise the least such index.
proof fn lemma_first_match_from_spec(s: Seq<TodoView>, id: Seq<char>, from: int)
    requires
        0 <= from <= s.len(),
    ensures
        ({
            let m = first_match_from(s, id, from);
            &&& (m == -1 <==> (forall|j: int| from <= j < s.len() ==> s[j].id != id))
            &&& (m != -1 ==> from <= m < s.len() && s[m].id == id && (forall|j: int|
                from <= j < m ==> s[j].id != id))
        }),
    decreases s.len() - from,
{
    if from < s.len() {
        if s[from].id == id {
            assert(first_match_from(s, id, from) == from);
        } else {
            lemma_first_match_from_spec(s, id, from + 1);
        }
    }
}

/// What `first_match` finds: -1 exactly when no item carries `id`, and
/// otherwise the index of the first item that does.
pub proof fn lemma_first_match_spec(s: Seq<TodoView>, id: Seq<char>)
    ensures
        first_match(s, id) == -1 <==> !contains_id(s, id),
        first_match(s, id) != -1 ==> 0 <= first_match(s, id) < s.len() && s[first_match(
            s,
            id,
        )].id == id && (forall|j: int| 0 <= j < first_match(s, id) ==> s[j].id != id),
{
    lemma_first_match_from_spec(s, id, 0);
}

/// Holds when no two items of `s` carry the same identifier.
pub open spec fn ids_unique(s: Seq<TodoView>) -> bool {
    forall|i: int, j: int| 0 <= i < j < s.len() ==> s[i].id != s[j].id
}

/// How many items of `s` carry the identifier `id`.
pub open spec fn count_id(s: Seq<TodoView>, id: Seq<char>) -> nat
    decreases s.len(),
{
    if s.len() == 0 {
        0
    } else {
        count_id(s.drop_last(), id) + (if s.last().id == id {
            1nat
        } else {
            0nat
        })
    }
}

/// Appending one item raises the count of its own identifier by one and
/// leaves the count of every other identifier unchanged.
proof fn lemma_count_id_push(s: Seq<TodoView>, t: TodoView, id: Seq<char>)
    ensures
        count_id(s.push(t), id) == count_id(s, id) + (if t.id == id {
            1nat
        } else {
            0nat
        }),
{
    assert(s.push(t).drop_last() =~= s);
    assert(s.push(t).last() == t);
}

/// An identifier that no item carries has count zero.
proof fn lemma_count_id_absent(s: Seq<TodoView>, id: Seq<char>)
    requires
        !contains_id(s, id),
    ensures
        count_id(s, id) == 0,
    decreases s.len(),
{
    if s.len() > 0 {
        assert(s[s.len() - 1].id != id);
        assert(!contains_id(s.drop_last(), id)) by {
            if contains_id(s.drop_last(), id) {
                let k = choose|k: int|
                    0 <= k < s.drop_last().len() && s.drop_last()[k].id == id;
                assert(s[k].id == id);
            }
        };
        lemma_count_id_absent(s.drop_last(), id);
    }
}

/// Uniqueness is preserved by adding: when all identifiers already in the
/// store are pairwise distinct and the new item carries an identifier not
/// yet present, the grown store's identifiers are pairwise distinct too.
/// Starting from the empty store, no two todos ever share an identifier as
/// long as each add uses a not-yet-present one.
pub proof fn lemma_add_fresh_preserves_unique_ids(s: Seq<TodoView>, t: TodoView)
    requires
        ids_unique(s),
        !contains_id(s, t.id),
    ensures
        ids_unique(s.push(t)),
{
    let s2 = s.push(t);
    assert forall|i: int, j: int| 0 <= i < j < s2.len() implies s2[i].id != s2[j].id by {
        if j < s.len() {
            assert(s2[i] == s[i] && s2[j] == s[j]);
        } else {
            assert(s2[i] == s[i] && s2[j] == t);
            assert(s[i].id != t.id);
        }
    };
}

/// Toggling never adds, removes, or reorders items, and never changes an
/// identifier or a title: a listing reflects insertion order regardless of
/// the toggles performed in between.
pub proof fn lemma_toggle_preserves_order(s: Seq<TodoView>, id: Seq<char>)
    ensures
        toggle_model(s, id).len() == s.len(),
        forall|i: int|
            0 <= i < s.len() ==> (#[trigger] toggle_model(s, id)[i]).id == s[i].id
                && toggle_model(s, id)[i].title == s[i].title,
{
    lemma_first_match_spec(s, id);
}

/// Where two sequences carry the same identifiers position by position, a
/// scan for any identifier lands on the same index in both.
proof fn lemma_first_match_from_same_ids(
    s1: Seq<TodoView>,
    s2: Seq<TodoView>,
    id: Seq<char>,
    from: int,
)
    requires
        s1.len() == s2.len(),
        forall|j: int| 0 <= j < s1.len() ==> s1[j].id == s2[j].id,
    ensures
        first_match_from(s1, id, from) == first_match_from(s2, id, from),
    decreases s1.len() - from,
{
    if 0 <= from < s1.len() && s1[from].id != id {
        lemma_first_match_from_same_ids(s1, s2, id, from + 1);
    }
}

/// Toggling the same identifier twice in succession restores the store to
/// exactly its prior contents.
pub proof fn lemma_toggle_twice_restores(s: Seq<TodoView>, id: Seq<char>)
    ensures
        toggle_model(toggle_model(s, id), id) == s,
{
    lemma_first_match_spec(s, id);
    let m = first_match(s, id);
    if m != -1 {
        let s1 = toggle_model(s, id);
        lemma_first_match_from_same_ids(s, s1, id, 0);
        assert(toggle_model(s1, id) =~= s);
    }
}

/// Toggling one identifier never changes the identifier, title, or
/// completion flag of an item that carries a different identifier.
pub proof fn lemma_toggle_isolation(s: Seq<TodoView>, id: Seq<char>, i: int)
    requires
        0 <= i < s.len(),
        s[i].id != id,
    ensures
        toggle_model(s, id)[i] == s[i],
{
    lemma_first_match_spec(s, id);
}

/// Toggling an identifier that no item carries changes nothing.
pub proof fn lemma_toggle_not_found(s: Seq<TodoView>, id: Seq<char>)
    requires
        !contains_id(s, id),
    ensures
        toggle_model(s, id) == s,
{
    lemma_first_match_spec(s, id);
}

/// Two adds with distinct not-yet-present identifiers — in whichever order
/// two concurrent callers are serialized — leave each of the two items
/// present exactly once: none lost, none duplicated.
pub proof fn lemma_two_adds_both_present(s: Seq<TodoView>, a: TodoView, b: TodoView)
    requires
        !contains_id(s, a.id),
        !contains_id(s, b.id),
        a.id != b.id,
    ensures
        count_id(s.push(a).push(b), a.id) == 1,
        count_id(s.push(a).push(b), b.id) == 1,
{
    lemma_count_id_absent(s, a.id);
    lemma_count_id_absent(s, b.id);
    lemma_count_id_push(s, a, a.id);
    lemma_count_id_push(s, a, b.id);
    lemma_count_id_push(s.push(a), b, a.id);
    lemma_count_id_push(s.push(a), b, b.id);
}

/// The in-memory store: the authoritative ordered sequence of todo items.
///
/// Callers that share one store across threads wrap it in their own
/// mutual-exclusion primitive and hold the lock for the duration of each
/// operation; every method here is a single atomic step against the sequence.
pub struct TodoService {
    pub items: Vec<Todo>,
}

impl View for TodoService {
    type V = Seq<TodoView>;

    open spec fn view(&self) -> Seq<TodoView> {
        self.items@.map_values(|t: Todo| t@)
    }
}

impl TodoService {
    /// Creates an empty store.
    pub fn new() -> (s: Self)
        ensures
            s@ == Seq::<TodoView>::empty(),
    {
        let s = TodoService { items: Vec::new() };
        proof {
            assert(s@ =~= Seq::<TodoView>::empty());
        }
        s
    }

    /// Appends a todo built from the given identifier and title, with
    /// `done` false, and returns a copy of it.
    ///
    /// This is the whole of what an add does once an identifier is in hand;
    /// it holds for every identifier, colliding ones included, because the
    /// store performs no uniqueness check of its own.
    pub fn add_with_id(&mut self, id: String, title: String) -> (r: Todo)
        ensures
            r@ == (TodoView { id: id@, title: title@, done: false }),
            final(self)@ == old(self)@.push(r@),
    {
        let todo = Todo { id, title, done: false };
        let copy = todo.clone();
        self.items.push(todo);
        proof {
            assert(final(self)@ =~= old(self)@.push(copy@));
        }
        copy
    }

    /// Generates a fresh identifier, appends a new todo carrying it and the
    /// given title with `done` false, and returns a copy of the new todo.
    ///
    /// Always succeeds; the title is accepted as-is, empty strings included.
    pub fn add(&mut self, title: String) -> (r: Todo)
        ensures
            r@.title == title@,
            r@.done == false,
            r@.id.len() == ID_LEN,
            final(self)@ == old(self)@.push(r@),
    {
        let id = fresh_id();
        self.add_with_id(id, title)
    }

    /// Returns a snapshot copy of all items, in insertion order. Never
    /// mutates the store; an empty store yields an empty vector.
    pub fn list(&self) -> (r: Vec<Todo>)
        ensures
            r@.map_values(|t: Todo| t@) == self@,
    {
        let mut out: Vec<Todo> = Vec::new();
        let n: usize = self.items.len();
        let mut i: usize = 0;
        while i < n
            invariant
                n == self.items@.len(),
                i <= n,
                out@.len() == i,
                forall|j: int| 0 <= j < i ==> out@[j]@ == self.items@[j]@,
            decreases n - i,
        {
            let t = self.items[i].clone();
            out.push(t);
            i = i + 1;
        }
        proof {
            assert(out@.map_values(|t: Todo| t@) =~= self@);
        }
        out
    }

    /// Scans for the first item carrying `id`; when found, flips its `done`
    /// flag in place and returns a copy of the updated item; otherwise
    /// returns `None` and leaves the store untouched.
    pub fn toggle(&mut self, id: String) -> (r: Option<Todo>)
        ensures
            final(self)@ == toggle_model(old(self)@, id@),
            (r is Some) <==> contains_id(old(self)@, id@),
            r matches Some(t) ==> t@ == toggled(old(self)@[first_match(old(self)@, id@)]),
            !contains_id(old(self)@, id@) ==> final(self)@ == old(self)@,
    {
        proof {
            lemma_first_match_spec(old(self)@, id@);
        }
        let n: usize = self.items.len();
        let mut i: usize = 0;
        while i < n
            invariant
                self.items@ == old(self).items@,
                n == self.items@.len(),
                i <= n,
                first_match(old(self)@, id@) == first_match_from(old(self)@, id@, i as int),
            decreases n - i,
        {
            if self.items[i].id == id {
                proof {
                    assert(old(self)@[i as int].id == id@);
                    assert(first_match(old(self)@, id@) == i as int);
                    assert(contains_id(old(self)@, id@));
                }
                let flipped = !self.items[i].done;
                self.items[i].done = flipped;
                let t = self.items[i].clone();
                proof {
                    assert(t@ == toggled(old(self)@[i as int]));
                    assert(final(self)@ =~= old(self)@.update(
                        i as int,
                        toggled(old(self)@[i as int]),
                    ));
                }
                return Some(t);
            }
            proof {
                assert(old(self)@[i as int].id != id@);
                assert(first_match_from(old(self)@, id@, i as int) == first_match_from(
                    old(self)@,
                    id@,
                    i as int + 1,
                ));
            }
            i = i + 1;
        }
        proof {
            assert(first_match(old(self)@, id@) == -1);
            assert(final(self)@ =~= old(self)@);
        }
        None
    }
}

} // verus!
