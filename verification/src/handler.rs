//! The request handler: one entry point that routes a request, enforces the
//! identity requirement, unpacks the body, and runs the named operation.
//!
//! The whole observable behaviour is collected in the `handled` relation:
//! what the store looks like afterwards and which response comes back, for
//! every method, path, identity and body.

use vstd::prelude::*;

use crate::api::{ApiResponse, Method, Request, RequestBody};
use crate::model::{
    accessible, delete_lists, fresh_item_id, fresh_list_id, items_filter, lemma_delete_keeps_wf,
    lemma_touch_keeps_wf, list_visible, new_list, store_wf, touch_list, visible_filter,
    ShoppingListItem, Store,
};
use crate::ops::{add_item, create_list, delete_list, get_list_detail, list_collection};
use crate::route::{parse_route, route_spec, Route, SpecRoute};
use crate::sort::{items_sorted, lists_sorted};

verus! {

/// The response to a detail request: the readable list with its items in
/// order, or not-found, whether the list is absent or merely not readable.
pub open spec fn detail_result(pre: Store, id: Seq<char>, user: Seq<char>, r: ApiResponse) -> bool {
    if accessible(pre.lists@, id, user) {
        r matches ApiResponse::ListDetail { list, items } && pre.lists@.contains(list)
            && list.id@ == id && list_visible(list, user) && items@.to_multiset() == items_filter(
            pre.items@,
            id,
        ).to_multiset() && items_sorted(items@)
    } else {
        r == ApiResponse::NotFound
    }
}

/// The row an add-item stores: tied to the list named by the path, quantity
/// defaulting to 1, never checked at creation.
pub open spec fn added_item(
    it: ShoppingListItem,
    list_id: Seq<char>,
    product_id: Option<String>,
    name: String,
    quantity: Option<i32>,
    new_id: String,
) -> bool {
    &&& it.id == new_id
    &&& it.list_id@ == list_id
    &&& it.product_id == product_id
    &&& it.name == name
    &&& it.quantity == (match quantity {
        Some(q) => q,
        None => 1,
    })
    &&& it.checked == false
}

/// The effect of an add-item request: a new item row and a refreshed list
/// timestamp when the caller may read the list; nothing otherwise.
pub open spec fn add_item_result(
    pre: Store,
    id: Seq<char>,
    user: Seq<char>,
    product_id: Option<String>,
    name: String,
    quantity: Option<i32>,
    new_id: String,
    now: u64,
    post: Store,
    r: ApiResponse,
) -> bool {
    if accessible(pre.lists@, id, user) {
        &&& post.items@.len() == pre.items@.len() + 1
        &&& post.items@ == pre.items@.push(post.items@.last())
        &&& added_item(post.items@.last(), id, product_id, name, quantity, new_id)
        &&& post.lists@ == touch_list(pre.lists@, id, now)
        &&& r == (ApiResponse::ItemAdded {
            id: new_id,
            name: name,
            quantity: match quantity {
                Some(q) => q,
                None => 1,
            },
        })
    } else {
        &&& post == pre
        &&& r == ApiResponse::NotFound
    }
}

/// Everything the handler does, as a relation between the store before the
/// request, the request, the fresh id and clock reading it was handed, the
/// store afterwards and the response.
pub open spec fn handled(
    pre: Store,
    req: Request,
    new_id: String,
    now: u64,
    post: Store,
    r: ApiResponse,
) -> bool {
    match route_spec(req.method, req.path@) {
        SpecRoute::Health => post == pre && r == ApiResponse::Health,
        SpecRoute::NoMatch => post == pre && r == ApiResponse::NotFound,
        SpecRoute::ListCollection => match req.user {
            None => post == pre && r == ApiResponse::AuthError,
            Some(u) => post == pre && (r matches ApiResponse::ListCollection(v)
                && v@.to_multiset() == visible_filter(pre.lists@, u@).to_multiset()
                && lists_sorted(v@)),
        },
        SpecRoute::ListDetail(id) => match req.user {
            None => post == pre && r == ApiResponse::AuthError,
            Some(u) => post == pre && detail_result(pre, id, u@, r),
        },
        SpecRoute::CreateList => match req.user {
            None => post == pre && r == ApiResponse::AuthError,
            Some(u) => match req.body {
                RequestBody::CreateList { name, description, shared } => {
                    &&& post.lists@ == pre.lists@.push(
                        new_list(u, name, description, shared, new_id, now),
                    )
                    &&& post.items == pre.items
                    &&& r == (ApiResponse::Created {
                        id: new_id,
                        name: name,
                        shared: match shared {
                            Some(b) => b,
                            None => false,
                        },
                    })
                },
                _ => post == pre && r == ApiResponse::BadRequest,
            },
        },
        SpecRoute::AddItem(id) => match req.user {
            None => post == pre && r == ApiResponse::AuthError,
            Some(u) => match req.body {
                RequestBody::AddItem { product_id, name, quantity } => add_item_result(
                    pre,
                    id,
                    u@,
                    product_id,
                    name,
                    quantity,
                    new_id,
                    now,
                    post,
                    r,
                ),
                _ => post == pre && r == ApiResponse::BadRequest,
            },
        },
        SpecRoute::DeleteList(id) => match req.user {
            None => post == pre && r == ApiResponse::AuthError,
            Some(u) => {
                &&& post.lists@ == delete_lists(pre.lists@, id, u@)
                &&& post.items == pre.items
                &&& r == ApiResponse::Deleted
            },
        },
    }
}

/// Handles one request. The caller supplies the freshly generated id (used
/// by the two storing routes) and the clock reading; both are unused on the
/// other routes.
pub fn handle_request(store: &mut Store, req: Request, new_id: String, now: u64) -> (r:
    ApiResponse)
    requires
        store_wf(*old(store)),
        fresh_list_id(old(store).lists@, new_id@),
        fresh_item_id(old(store).items@, new_id@),
    ensures
        store_wf(*final(store)),
        handled(*old(store), req, new_id, now, *final(store), r),
{
    let Request { method, path, user, body } = req;
    let route = parse_route(method, path.as_str());
    match route {
        Route::Health => ApiResponse::Health,
        Route::NoMatch => ApiResponse::NotFound,
        Route::ListCollection => match user {
            None => ApiResponse::AuthError,
            Some(u) => ApiResponse::ListCollection(list_collection(store, &u)),
        },
        Route::ListDetail(id) => match user {
            None => ApiResponse::AuthError,
            Some(u) => match get_list_detail(store, &u, &id) {
                Some((list, items)) => ApiResponse::ListDetail { list, items },
                None => ApiResponse::NotFound,
            },
        },
        Route::CreateList => match user {
            None => ApiResponse::AuthError,
            Some(u) => match body {
                RequestBody::CreateList { name, description, shared } => {
                    let resp = create_list(store, u, name, description, shared, new_id, now);
                    proof {
                        assert forall|i: int, j: int|
                            0 <= i < j < store.lists@.len() implies (
                        #[trigger] store.lists@[i]).id@ != (#[trigger] store.lists@[j]).id@ by {
                            if j < store.lists@.len() - 1 {
                                assert(store.lists@[i] == old(store).lists@[i]);
                                assert(store.lists@[j] == old(store).lists@[j]);
                            } else {
                                assert(store.lists@[i] == old(store).lists@[i]);
                            }
                        }
                    }
                    resp
                },
                _ => ApiResponse::BadRequest,
            },
        },
        Route::AddItem(id) => match user {
            None => ApiResponse::AuthError,
            Some(u) => match body {
                RequestBody::AddItem { product_id, name, quantity } => {
                    let ghost pre = *store;
                    let resp = add_item(store, &u, &id, product_id, name, quantity, new_id, now);
                    proof {
                        if accessible(pre.lists@, id@, u@) {
                            lemma_touch_keeps_wf(pre.lists@, id@, now);
                            assert forall|i: int, j: int|
                                0 <= i < j < store.items@.len() implies (
                            #[trigger] store.items@[i]).id@ != (#[trigger] store.items@[j]).id@ by {
                                if j < store.items@.len() - 1 {
                                    assert(store.items@[i] == pre.items@[i]);
                                    assert(store.items@[j] == pre.items@[j]);
                                } else {
                                    assert(store.items@[i] == pre.items@[i]);
                                }
                            }
                        }
                    }
                    resp
                },
                _ => ApiResponse::BadRequest,
            },
        },
        Route::DeleteList(id) => match user {
            None => ApiResponse::AuthError,
            Some(u) => {
                let resp = delete_list(store, &u, &id);
                proof {
                    lemma_delete_keeps_wf(old(store).lists@, id@, u@);
                }
                resp
            },
        },
    }
}

} // verus!
