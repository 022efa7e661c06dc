use shopping_lists::api::{ApiResponse, Method, Request, RequestBody};
use shopping_lists::handler::handle_request;
use shopping_lists::model::{ShoppingList, ShoppingListItem, Store};
use shopping_lists::ops::{
    add_item, create_list, delete_list, get_list_detail, has_access, items_of_list,
    list_collection,
};
use shopping_lists::order::str_le;
use shopping_lists::route::{parse_route, Route};

fn empty_store() -> Store {
    Store { lists: Vec::new(), items: Vec::new() }
}

fn s(x: &str) -> String {
    x.to_string()
}

fn get(path: &str, user: Option<&str>) -> Request {
    Request {
        method: Method::Get,
        path: s(path),
        user: user.map(s),
        body: RequestBody::Empty,
    }
}

fn create_req(user: Option<&str>, name: &str, shared: Option<bool>) -> Request {
    Request {
        method: Method::Post,
        path: s("/lists"),
        user: user.map(s),
        body: RequestBody::CreateList { name: s(name), description: None, shared },
    }
}

fn add_req(user: Option<&str>, list_id: &str, name: &str, quantity: Option<i32>) -> Request {
    Request {
        method: Method::Post,
        path: format!("/lists/{}/items", list_id),
        user: user.map(s),
        body: RequestBody::AddItem { product_id: None, name: s(name), quantity },
    }
}

fn delete_req(user: Option<&str>, list_id: &str) -> Request {
    Request {
        method: Method::Delete,
        path: format!("/lists/{}", list_id),
        user: user.map(s),
        body: RequestBody::Empty,
    }
}

#[test]
fn health_needs_no_identity() {
    let mut store = empty_store();
    let r = handle_request(&mut store, get("/health", None), s("id-0"), 1);
    assert_eq!(r, ApiResponse::Health);
    assert_eq!(r.status_code(), 200);
    assert!(store.lists.is_empty());
    assert!(store.items.is_empty());
}

#[test]
fn missing_identity_is_rejected_without_changes() {
    let mut store = empty_store();
    let r = handle_request(&mut store, create_req(Some("u1"), "Groceries", None), s("L1"), 10);
    assert_eq!(r.status_code(), 200);
    let requests = vec![
        get("/lists", None),
        get("/lists/L1", None),
        create_req(None, "Another", None),
        add_req(None, "L1", "Milk", None),
        delete_req(None, "L1"),
    ];
    let mut i: usize = 0;
    for req in requests {
        i += 1;
        let before_lists = store.lists.clone();
        let before_items = store.items.clone();
        let r = handle_request(&mut store, req, format!("fresh-{}", i), 20);
        assert_eq!(r, ApiResponse::AuthError);
        assert_eq!(r.status_code(), 400);
        assert_eq!(store.lists, before_lists);
        assert_eq!(store.items, before_items);
    }
}

#[test]
fn create_without_shared_defaults_to_false() {
    let mut store = empty_store();
    let r = handle_request(&mut store, create_req(Some("u1"), "Groceries", None), s("L1"), 10);
    assert_eq!(
        r,
        ApiResponse::Created { id: s("L1"), name: s("Groceries"), shared: false }
    );
    assert_eq!(store.lists.len(), 1);
    let row = &store.lists[0];
    assert_eq!(row.id, s("L1"));
    assert_eq!(row.owner_id, s("u1"));
    assert_eq!(row.name, s("Groceries"));
    assert_eq!(row.description, None);
    assert!(!row.shared);
    assert_eq!(row.created_at, 10);
    assert_eq!(row.updated_at, 10);
}

#[test]
fn create_shared_true_is_kept() {
    let mut store = empty_store();
    let r = handle_request(
        &mut store,
        create_req(Some("u1"), "Party", Some(true)),
        s("L1"),
        10,
    );
    assert_eq!(r, ApiResponse::Created { id: s("L1"), name: s("Party"), shared: true });
    assert!(store.lists[0].shared);
}

#[test]
fn collection_shows_own_and_shared_lists_only() {
    let mut store = empty_store();
    handle_request(&mut store, create_req(Some("u1"), "Private", None), s("L1"), 10);
    handle_request(&mut store, create_req(Some("u1"), "Open", Some(true)), s("L2"), 20);

    let r1 = handle_request(&mut store, get("/lists", Some("u1")), s("x1"), 30);
    match r1 {
        ApiResponse::ListCollection(v) => {
            let ids: Vec<&str> = v.iter().map(|l| l.id.as_str()).collect();
            assert_eq!(ids, vec!["L2", "L1"]);
        }
        other => panic!("unexpected response {:?}", other),
    }

    let r2 = handle_request(&mut store, get("/lists", Some("u2")), s("x2"), 40);
    match r2 {
        ApiResponse::ListCollection(v) => {
            let ids: Vec<&str> = v.iter().map(|l| l.id.as_str()).collect();
            assert_eq!(ids, vec!["L2"]);
        }
        other => panic!("unexpected response {:?}", other),
    }
}

#[test]
fn collection_is_ordered_by_updated_at_descending() {
    let mut store = empty_store();
    handle_request(&mut store, create_req(Some("u1"), "Oldest", None), s("L1"), 10);
    handle_request(&mut store, create_req(Some("u1"), "Newest", None), s("L2"), 30);
    handle_request(&mut store, create_req(Some("u1"), "Middle", None), s("L3"), 20);
    let r = handle_request(&mut store, get("/lists", Some("u1")), s("x"), 40);
    match r {
        ApiResponse::ListCollection(v) => {
            let stamps: Vec<u64> = v.iter().map(|l| l.updated_at).collect();
            assert_eq!(stamps, vec![30, 20, 10]);
        }
        other => panic!("unexpected response {:?}", other),
    }
}

#[test]
fn detail_hides_unshared_lists_from_non_owners() {
    let mut store = empty_store();
    handle_request(&mut store, create_req(Some("u1"), "Private", None), s("L1"), 10);

    let for_other = handle_request(&mut store, get("/lists/L1", Some("u2")), s("x1"), 20);
    assert_eq!(for_other, ApiResponse::NotFound);
    assert_eq!(for_other.status_code(), 404);

    let for_owner = handle_request(&mut store, get("/lists/L1", Some("u1")), s("x2"), 30);
    assert_eq!(for_owner.status_code(), 200);
    match for_owner {
        ApiResponse::ListDetail { list, items } => {
            assert_eq!(list.id, s("L1"));
            assert!(items.is_empty());
        }
        other => panic!("unexpected response {:?}", other),
    }
}

#[test]
fn detail_of_shared_list_is_readable_by_anyone() {
    let mut store = empty_store();
    handle_request(&mut store, create_req(Some("u1"), "Open", Some(true)), s("L1"), 10);
    let r = handle_request(&mut store, get("/lists/L1", Some("u2")), s("x"), 20);
    assert_eq!(r.status_code(), 200);
}

#[test]
fn add_item_refreshes_timestamp_and_shows_up_unchecked() {
    let mut store = empty_store();
    handle_request(&mut store, create_req(Some("u1"), "Groceries", None), s("L1"), 100);
    let before = store.lists[0].updated_at;
    let r = handle_request(&mut store, add_req(Some("u1"), "L1", "Milk", None), s("I1"), 150);
    assert_eq!(r, ApiResponse::ItemAdded { id: s("I1"), name: s("Milk"), quantity: 1 });
    assert!(store.lists[0].updated_at >= before);
    assert_eq!(store.lists[0].updated_at, 150);

    let detail = handle_request(&mut store, get("/lists/L1", Some("u1")), s("x"), 160);
    match detail {
        ApiResponse::ListDetail { list, items } => {
            assert_eq!(list.id, s("L1"));
            assert_eq!(items.len(), 1);
            assert_eq!(items[0].id, s("I1"));
            assert_eq!(items[0].name, s("Milk"));
            assert_eq!(items[0].quantity, 1);
            assert!(!items[0].checked);
        }
        other => panic!("unexpected response {:?}", other),
    }
}

#[test]
fn add_item_keeps_explicit_quantity() {
    let mut store = empty_store();
    handle_request(&mut store, create_req(Some("u1"), "Groceries", None), s("L1"), 10);
    let r = handle_request(
        &mut store,
        add_req(Some("u1"), "L1", "Eggs", Some(12)),
        s("I1"),
        20,
    );
    assert_eq!(r, ApiResponse::ItemAdded { id: s("I1"), name: s("Eggs"), quantity: 12 });
    assert_eq!(store.items[0].quantity, 12);
}

#[test]
fn add_item_to_inaccessible_list_is_not_found() {
    let mut store = empty_store();
    handle_request(&mut store, create_req(Some("u1"), "Private", None), s("L1"), 10);
    let r = handle_request(&mut store, add_req(Some("u2"), "L1", "Milk", None), s("I1"), 20);
    assert_eq!(r, ApiResponse::NotFound);
    assert!(store.items.is_empty());
    assert_eq!(store.lists[0].updated_at, 10);

    let missing = handle_request(&mut store, add_req(Some("u1"), "L9", "Milk", None), s("I2"), 30);
    assert_eq!(missing, ApiResponse::NotFound);
    assert!(store.items.is_empty());
}

#[test]
fn shared_list_accepts_items_from_any_caller() {
    let mut store = empty_store();
    handle_request(&mut store, create_req(Some("u1"), "Open", Some(true)), s("L1"), 10);
    let r = handle_request(&mut store, add_req(Some("u2"), "L1", "Milk", None), s("I1"), 20);
    assert_eq!(r.status_code(), 200);
    assert_eq!(store.items.len(), 1);
}

#[test]
fn delete_by_non_owner_reports_success_and_changes_nothing() {
    let mut store = empty_store();
    handle_request(&mut store, create_req(Some("u1"), "Open", Some(true)), s("L1"), 10);
    let before_lists = store.lists.clone();

    let by_other = handle_request(&mut store, delete_req(Some("u2"), "L1"), s("x1"), 20);
    assert_eq!(by_other, ApiResponse::Deleted);
    assert_eq!(by_other.status_code(), 200);
    assert_eq!(store.lists, before_lists);

    let missing = handle_request(&mut store, delete_req(Some("u1"), "L9"), s("x2"), 30);
    assert_eq!(missing, ApiResponse::Deleted);
    assert_eq!(store.lists, before_lists);
}

#[test]
fn delete_by_owner_removes_the_list_but_not_its_items() {
    let mut store = empty_store();
    handle_request(&mut store, create_req(Some("u1"), "Groceries", None), s("L1"), 10);
    handle_request(&mut store, add_req(Some("u1"), "L1", "Milk", None), s("I1"), 20);
    let r = handle_request(&mut store, delete_req(Some("u1"), "L1"), s("x"), 30);
    assert_eq!(r, ApiResponse::Deleted);
    assert!(store.lists.is_empty());
    // Items are not cascade-deleted; the orphaned row stays.
    assert_eq!(store.items.len(), 1);
}

#[test]
fn round_trip_two_items_come_back_in_name_order() {
    let mut store = empty_store();
    handle_request(&mut store, create_req(Some("u1"), "Groceries", None), s("L1"), 10);
    handle_request(&mut store, add_req(Some("u1"), "L1", "B", None), s("I1"), 20);
    handle_request(&mut store, add_req(Some("u1"), "L1", "A", None), s("I2"), 30);
    let detail = handle_request(&mut store, get("/lists/L1", Some("u1")), s("x"), 40);
    match detail {
        ApiResponse::ListDetail { list: _, items } => {
            let names: Vec<&str> = items.iter().map(|it| it.name.as_str()).collect();
            assert_eq!(names, vec!["A", "B"]);
            assert!(items.iter().all(|it| !it.checked));
        }
        other => panic!("unexpected response {:?}", other),
    }
}

#[test]
fn items_sort_checked_after_unchecked_then_by_name() {
    let item = |id: &str, name: &str, checked: bool| ShoppingListItem {
        id: s(id),
        list_id: s("L1"),
        product_id: None,
        name: s(name),
        quantity: 1,
        checked,
    };
    let items = vec![
        item("I1", "zucchini", false),
        item("I2", "apples", true),
        item("I3", "bread", false),
        item("I4", "apples", false),
    ];
    let sorted = items_of_list(&items, &s("L1"));
    let view: Vec<(&str, bool)> =
        sorted.iter().map(|it| (it.name.as_str(), it.checked)).collect();
    assert_eq!(
        view,
        vec![("apples", false), ("bread", false), ("zucchini", false), ("apples", true)]
    );
}

#[test]
fn unknown_routes_and_methods_are_not_found() {
    let mut store = empty_store();
    let cases = vec![
        (Method::Get, "/"),
        (Method::Get, "/unknown"),
        (Method::Get, "/lists/"),
        (Method::Get, "/lists//items"),
        (Method::Post, "/lists/a/b/items"),
        (Method::Post, "/lists/a"),
        (Method::Delete, "/lists"),
        (Method::Other, "/lists"),
        (Method::Post, "/health"),
    ];
    for (method, path) in cases {
        let req = Request {
            method,
            path: s(path),
            user: Some(s("u1")),
            body: RequestBody::Empty,
        };
        let r = handle_request(&mut store, req, s("x"), 1);
        assert_eq!(r, ApiResponse::NotFound, "{:?} {}", method, path);
    }
}

#[test]
fn routes_parse_to_their_operations() {
    assert!(matches!(parse_route(Method::Get, "/health"), Route::Health));
    assert!(matches!(parse_route(Method::Get, "/lists"), Route::ListCollection));
    assert!(matches!(parse_route(Method::Post, "/lists"), Route::CreateList));
    match parse_route(Method::Get, "/lists/abc") {
        Route::ListDetail(id) => assert_eq!(id, s("abc")),
        other => panic!("unexpected route {:?}", route_name(&other)),
    }
    match parse_route(Method::Delete, "/lists/abc") {
        Route::DeleteList(id) => assert_eq!(id, s("abc")),
        other => panic!("unexpected route {:?}", route_name(&other)),
    }
    match parse_route(Method::Post, "/lists/abc/items") {
        Route::AddItem(id) => assert_eq!(id, s("abc")),
        other => panic!("unexpected route {:?}", route_name(&other)),
    }
    assert!(matches!(parse_route(Method::Get, "/lists/items"), Route::ListDetail(_)));
    assert!(matches!(parse_route(Method::Get, "/lists/abc/items"), Route::NoMatch));
}

fn route_name(r: &Route) -> &'static str {
    match r {
        Route::Health => "health",
        Route::ListCollection => "list collection",
        Route::CreateList => "create list",
        Route::ListDetail(_) => "list detail",
        Route::AddItem(_) => "add item",
        Route::DeleteList(_) => "delete list",
        Route::NoMatch => "no match",
    }
}

#[test]
fn malformed_bodies_are_rejected_without_changes() {
    let mut store = empty_store();
    let bad_create = Request {
        method: Method::Post,
        path: s("/lists"),
        user: Some(s("u1")),
        body: RequestBody::Malformed,
    };
    let r = handle_request(&mut store, bad_create, s("L1"), 10);
    assert_eq!(r, ApiResponse::BadRequest);
    assert_eq!(r.status_code(), 400);
    assert!(store.lists.is_empty());

    handle_request(&mut store, create_req(Some("u1"), "Groceries", None), s("L1"), 10);
    let bad_add = Request {
        method: Method::Post,
        path: s("/lists/L1/items"),
        user: Some(s("u1")),
        body: RequestBody::Malformed,
    };
    let r = handle_request(&mut store, bad_add, s("I1"), 20);
    assert_eq!(r, ApiResponse::BadRequest);
    assert!(store.items.is_empty());
    assert_eq!(store.lists[0].updated_at, 10);
}

#[test]
fn operations_can_be_driven_directly() {
    let mut store = empty_store();
    let r = create_list(&mut store, s("u1"), s("Groceries"), Some(s("weekly")), None, s("L1"), 5);
    assert_eq!(r, ApiResponse::Created { id: s("L1"), name: s("Groceries"), shared: false });
    assert_eq!(store.lists[0].description, Some(s("weekly")));

    assert!(has_access(&store.lists, &s("u1"), &s("L1")));
    assert!(!has_access(&store.lists, &s("u2"), &s("L1")));

    let r = add_item(&mut store, &s("u1"), &s("L1"), Some(s("P9")), s("Milk"), Some(2), s("I1"), 7);
    assert_eq!(r, ApiResponse::ItemAdded { id: s("I1"), name: s("Milk"), quantity: 2 });
    assert_eq!(store.items[0].product_id, Some(s("P9")));

    let detail = get_list_detail(&store, &s("u1"), &s("L1"));
    let (list, items) = detail.expect("owner must see the list");
    assert_eq!(list.updated_at, 7);
    assert_eq!(items.len(), 1);

    let visible = list_collection(&store, &s("u1"));
    assert_eq!(visible.len(), 1);

    let r = delete_list(&mut store, &s("u1"), &s("L1"));
    assert_eq!(r, ApiResponse::Deleted);
    assert!(store.lists.is_empty());
    assert!(get_list_detail(&store, &s("u1"), &s("L1")).is_none());
}

#[test]
fn unicode_ids_and_names_are_handled() {
    let mut store = empty_store();
    let r = handle_request(
        &mut store,
        Request {
            method: Method::Post,
            path: s("/lists"),
            user: Some(s("u1")),
            body: RequestBody::CreateList {
                name: s("Geburtstag"),
                description: Some(s("für Ömer")),
                shared: None,
            },
        },
        s("löffel-1"),
        10,
    );
    assert_eq!(
        r,
        ApiResponse::Created { id: s("löffel-1"), name: s("Geburtstag"), shared: false }
    );
    match parse_route(Method::Get, "/lists/löffel-1") {
        Route::ListDetail(id) => assert_eq!(id, s("löffel-1")),
        _ => panic!("expected a detail route"),
    }
    match parse_route(Method::Post, "/lists/löffel-1/items") {
        Route::AddItem(id) => assert_eq!(id, s("löffel-1")),
        _ => panic!("expected an add-item route"),
    }
    let detail = handle_request(&mut store, get("/lists/löffel-1", Some("u1")), s("x"), 20);
    assert_eq!(detail.status_code(), 200);
    match detail {
        ApiResponse::ListDetail { list, items } => {
            assert_eq!(list.description, Some(s("für Ömer")));
            assert!(items.is_empty());
        }
        other => panic!("unexpected response {:?}", other),
    }
}

#[test]
fn names_sort_by_character_value() {
    // 'Z' (90) comes before 'a' (97), and 'z' (122) before 'é' (233).
    assert!(str_le("Zebra", "apple"));
    assert!(!str_le("apple", "Zebra"));
    assert!(str_le("zebra", "éclair"));
    assert!(!str_le("éclair", "zebra"));
}

#[test]
fn string_order_is_lexicographic() {
    assert!(str_le("", ""));
    assert!(str_le("", "a"));
    assert!(!str_le("a", ""));
    assert!(str_le("apple", "apples"));
    assert!(!str_le("apples", "apple"));
    assert!(str_le("Apple", "apple"));
    assert!(str_le("apple", "banana"));
    assert!(!str_le("banana", "apple"));
    assert!(str_le("same", "same"));
}
