use todo_store::todo_service::TodoService;

#[test]
fn empty_store_list() {
    let store = TodoService::new();
    assert!(store.list().is_empty());
}

#[test]
fn add_returns_created_todo() {
    let mut store = TodoService::new();
    let t = store.add(String::from("Buy milk"));
    assert_eq!(t.title, "Buy milk");
    assert!(!t.done);
    assert_eq!(t.id.len(), 36);
    let listed = store.list();
    assert_eq!(listed.len(), 1);
    assert_eq!(listed[0].id, t.id);
    assert_eq!(listed[0].title, "Buy milk");
    assert!(!listed[0].done);
}

#[test]
fn add_accepts_empty_title() {
    let mut store = TodoService::new();
    let t = store.add(String::from(""));
    assert_eq!(t.title, "");
    assert!(!t.done);
    assert_eq!(store.list().len(), 1);
}

#[test]
fn add_two_preserves_order() {
    let mut store = TodoService::new();
    let a = store.add(String::from("A"));
    let b = store.add(String::from("B"));
    let listed = store.list();
    assert_eq!(listed.len(), 2);
    assert_eq!(listed[0].id, a.id);
    assert_eq!(listed[0].title, "A");
    assert_eq!(listed[1].id, b.id);
    assert_eq!(listed[1].title, "B");
}

#[test]
fn add_ids_distinct() {
    let mut store = TodoService::new();
    let a = store.add(String::from("A"));
    let b = store.add(String::from("B"));
    assert_ne!(a.id, b.id);
}

#[test]
fn add_with_id_exact() {
    let mut store = TodoService::new();
    let t = store.add_with_id(String::from("id-1"), String::from("T"));
    assert_eq!(t.id, "id-1");
    assert_eq!(t.title, "T");
    assert!(!t.done);
    let listed = store.list();
    assert_eq!(listed.len(), 1);
    assert_eq!(listed[0].id, "id-1");
}

#[test]
fn toggle_twice_restores() {
    let mut store = TodoService::new();
    let a = store.add(String::from("A"));
    let first = store.toggle(a.id.clone()).expect("item was added");
    assert_eq!(first.id, a.id);
    assert_eq!(first.title, "A");
    assert!(first.done);
    let second = store.toggle(a.id.clone()).expect("item is still there");
    assert_eq!(second.id, a.id);
    assert_eq!(second.title, "A");
    assert!(!second.done);
}

#[test]
fn toggle_not_found_leaves_store_unchanged() {
    let mut store = TodoService::new();
    let a = store.add(String::from("A"));
    let before = store.list();
    let r = store.toggle(String::from("nonexistent"));
    assert!(r.is_none());
    let after = store.list();
    assert_eq!(after.len(), before.len());
    assert_eq!(after[0].id, a.id);
    assert_eq!(after[0].title, before[0].title);
    assert_eq!(after[0].done, before[0].done);
}

#[test]
fn toggle_on_empty_store() {
    let mut store = TodoService::new();
    assert!(store.toggle(String::from("anything")).is_none());
    assert!(store.list().is_empty());
}

#[test]
fn toggle_isolation() {
    let mut store = TodoService::new();
    let a = store.add(String::from("A"));
    let b = store.add(String::from("B"));
    let toggled = store.toggle(a.id.clone()).expect("item was added");
    assert!(toggled.done);
    let listed = store.list();
    assert_eq!(listed.len(), 2);
    assert_eq!(listed[0].id, a.id);
    assert!(listed[0].done);
    assert_eq!(listed[1].id, b.id);
    assert_eq!(listed[1].title, "B");
    assert!(!listed[1].done);
}

#[test]
fn two_adds_both_present_exactly_once() {
    let mut store = TodoService::new();
    let a = store.add(String::from("A"));
    let b = store.add(String::from("B"));
    let listed = store.list();
    let count_a = listed.iter().filter(|t| t.id == a.id).count();
    let count_b = listed.iter().filter(|t| t.id == b.id).count();
    assert_eq!(count_a, 1);
    assert_eq!(count_b, 1);
    assert_eq!(listed.len(), 2);
}

#[test]
fn new_todo_carries_title() {
    let req = todo_store::NewTodo { title: String::from("from the wire") };
    let mut store = TodoService::new();
    let t = store.add(req.title);
    assert_eq!(t.title, "from the wire");
}
