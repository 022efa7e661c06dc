//! The six store operations. Each mirrors one route's effect on the store
//! and says exactly which rows change, which response comes back, and when.
//!
//! Identifiers and timestamps are inputs: the caller draws the fresh id and
//! reads the clock, and the contracts say what is stored for whatever values
//! came in.

use vstd::prelude::*;

use crate::api::ApiResponse;
use crate::model::{
    accessible, delete_lists, items_filter, list_visible, new_item, new_list, touch_list,
    visible_filter, ShoppingList, ShoppingListItem, Store,
};
use crate::sort::{items_sorted, lists_sorted, sort_items, sort_lists};

verus! {

/// Whether some list with the given id is readable by the caller.
pub fn has_access(lists: &Vec<ShoppingList>, user: &String, list_id: &String) -> (r: bool)
    ensures
        r == accessible(lists@, list_id@, user@),
{
    let n = lists.len();
    let mut i: usize = 0;
    while i < n
        invariant
            i <= n,
            n == lists@.len(),
            forall|k: int|
                0 <= k < i ==> !((#[trigger] lists@[k]).id@ == list_id@ && list_visible(
                    lists@[k],
                    user@,
                )),
        decreases n - i,
    {
        let l = &lists[i];
        if l.id == *list_id && (l.owner_id == *user || l.shared) {
            return true;
        }
        i = i + 1;
    }
    false
}

/// `GET /lists`: every list the caller owns or that is shared, ordered by
/// `updated_at` descending.
pub fn list_collection(store: &Store, user: &String) -> (r: Vec<ShoppingList>)
    ensures
        r@.to_multiset() == visible_filter(store.lists@, user@).to_multiset(),
        lists_sorted(r@),
{
    let mut acc: Vec<ShoppingList> = Vec::new();
    let n = store.lists.len();
    let mut i: usize = 0;
    proof {
        assert(store.lists@.subrange(0, 0) =~= Seq::<ShoppingList>::empty());
    }
    while i < n
        invariant
            i <= n,
            n == store.lists@.len(),
            acc@ == visible_filter(store.lists@.subrange(0, i as int), user@),
        decreases n - i,
    {
        let l = &store.lists[i];
        let ghost pre = store.lists@.subrange(0, i as int);
        let ghost cur = store.lists@.subrange(0, i as int + 1);
        if l.owner_id == *user || l.shared {
            acc.push(l.clone());
        }
        proof {
            reveal_with_fuel(Seq::filter, 2);
            assert(cur.drop_last() =~= pre);
            assert(cur.last() == store.lists@[i as int]);
        }
        i = i + 1;
    }
    proof {
        assert(store.lists@.subrange(0, n as int) =~= store.lists@);
    }
    sort_lists(acc)
}

/// The items of one list, ordered `checked` ascending then name ascending.
pub fn items_of_list(items: &Vec<ShoppingListItem>, list_id: &String) -> (r: Vec<
    ShoppingListItem,
>)
    ensures
        r@.to_multiset() == items_filter(items@, list_id@).to_multiset(),
        items_sorted(r@),
{
    let mut acc: Vec<ShoppingListItem> = Vec::new();
    let n = items.len();
    let mut i: usize = 0;
    proof {
        assert(items@.subrange(0, 0) =~= Seq::<ShoppingListItem>::empty());
    }
    while i < n
        invariant
            i <= n,
            n == items@.len(),
            acc@ == items_filter(items@.subrange(0, i as int), list_id@),
        decreases n - i,
    {
        let it = &items[i];
        let ghost pre = items@.subrange(0, i as int);
        let ghost cur = items@.subrange(0, i as int + 1);
        if it.list_id == *list_id {
            acc.push(it.clone());
        }
        proof {
            reveal_with_fuel(Seq::filter, 2);
            assert(cur.drop_last() =~= pre);
            assert(cur.last() == items@[i as int]);
        }
        i = i + 1;
    }
    proof {
        assert(items@.subrange(0, n as int) =~= items@);
    }
    sort_items(acc)
}

/// `GET /lists/{id}`: the list when the caller may read it, with its items;
/// nothing otherwise, whether the list is absent or merely not readable.
pub fn get_list_detail(store: &Store, user: &String, list_id: &String) -> (r: Option<
    (ShoppingList, Vec<ShoppingListItem>),
>)
    ensures
        r is Some <==> accessible(store.lists@, list_id@, user@),
        match r {
            Some(pair) => {
                &&& store.lists@.contains(pair.0)
                &&& pair.0.id@ == list_id@
                &&& list_visible(pair.0, user@)
                &&& pair.1@.to_multiset() == items_filter(store.items@, list_id@).to_multiset()
                &&& items_sorted(pair.1@)
            },
            None => true,
        },
{
    let n = store.lists.len();
    let mut i: usize = 0;
    while i < n
        invariant
            i <= n,
            n == store.lists@.len(),
            forall|k: int|
                0 <= k < i ==> !((#[trigger] store.lists@[k]).id@ == list_id@ && list_visible(
                    store.lists@[k],
                    user@,
                )),
        decreases n - i,
    {
        let l = &store.lists[i];
        if l.id == *list_id && (l.owner_id == *user || l.shared) {
            let found = l.clone();
            let items = items_of_list(&store.items, list_id);
            return Some((found, items));
        }
        i = i + 1;
    }
    None
}

/// `POST /lists`: stores a new list owned by the caller, `shared` defaulting
/// to false and both timestamps set to the creation time, and echoes the id,
/// name and sharing flag.
pub fn create_list(
    store: &mut Store,
    user: String,
    name: String,
    description: Option<String>,
    shared: Option<bool>,
    new_id: String,
    now: u64,
) -> (r: ApiResponse)
    ensures
        final(store).lists@ == old(store).lists@.push(
            new_list(user, name, description, shared, new_id, now),
        ),
        final(store).items == old(store).items,
        r == (ApiResponse::Created {
            id: new_id,
            name: name,
            shared: match shared {
                Some(b) => b,
                None => false,
            },
        }),
{
    let resp_id = new_id.clone();
    let resp_name = name.clone();
    let shared_flag = match shared {
        Some(b) => b,
        None => false,
    };
    let row = ShoppingList {
        id: new_id,
        owner_id: user,
        name: name,
        description: description,
        shared: shared_flag,
        created_at: now,
        updated_at: now,
    };
    store.lists.push(row);
    ApiResponse::Created { id: resp_id, name: resp_name, shared: shared_flag }
}

/// Sets `updated_at` on every list carrying the given id.
fn touch_list_exec(lists: &mut Vec<ShoppingList>, list_id: &String, now: u64)
    ensures
        final(lists)@ == touch_list(old(lists)@, list_id@, now),
{
    let n = lists.len();
    let mut j: usize = 0;
    while j < n
        invariant
            j <= n,
            n == lists@.len(),
            lists@.len() == old(lists)@.len(),
            forall|k: int| j <= k < n ==> lists@[k] == old(lists)@[k],
            forall|k: int|
                0 <= k < j ==> lists@[k] == touch_list(old(lists)@, list_id@, now)[k],
        decreases n - j,
    {
        let ghost pre_l = lists@;
        if lists[j].id == *list_id {
            let mut row = lists.remove(j);
            row.updated_at = now;
            lists.insert(j, row);
            proof {
                assert(lists@ =~= pre_l.update(
                    j as int,
                    ShoppingList { updated_at: now, ..pre_l[j as int] },
                ));
            }
        }
        j = j + 1;
    }
    proof {
        assert(lists@ =~= touch_list(old(lists)@, list_id@, now));
    }
}

/// `POST /lists/{id}/items`: when the caller may read the list, stores a new
/// unchecked item (quantity defaulting to 1), refreshes the list's
/// `updated_at`, and echoes the id, name and quantity; otherwise changes
/// nothing and answers not-found, whether the list is absent or merely not
/// readable.
pub fn add_item(
    store: &mut Store,
    user: &String,
    list_id: &String,
    product_id: Option<String>,
    name: String,
    quantity: Option<i32>,
    new_item_id: String,
    now: u64,
) -> (r: ApiResponse)
    ensures
        accessible(old(store).lists@, list_id@, user@) ==> {
            &&& final(store).items@ == old(store).items@.push(
                new_item(*list_id, product_id, name, quantity, new_item_id),
            )
            &&& final(store).lists@ == touch_list(old(store).lists@, list_id@, now)
            &&& r == (ApiResponse::ItemAdded {
                id: new_item_id,
                name: name,
                quantity: match quantity {
                    Some(q) => q,
                    None => 1,
                },
            })
        },
        !accessible(old(store).lists@, list_id@, user@) ==> {
            &&& *final(store) == *old(store)
            &&& r == ApiResponse::NotFound
        },
{
    if !has_access(&store.lists, user, list_id) {
        return ApiResponse::NotFound;
    }
    let resp_id = new_item_id.clone();
    let resp_name = name.clone();
    let q = match quantity {
        Some(q) => q,
        None => 1,
    };
    let row = ShoppingListItem {
        id: new_item_id,
        list_id: list_id.clone(),
        product_id: product_id,
        name: name,
        quantity: q,
        checked: false,
    };
    store.items.push(row);
    touch_list_exec(&mut store.lists, list_id, now);
    ApiResponse::ItemAdded { id: resp_id, name: resp_name, quantity: q }
}

/// `DELETE /lists/{id}`: removes the list only when the caller owns it, never
/// touches items, and answers success either way, so the caller cannot tell
/// whether anything was removed.
pub fn delete_list(store: &mut Store, user: &String, list_id: &String) -> (r: ApiResponse)
    ensures
        final(store).lists@ == delete_lists(old(store).lists@, list_id@, user@),
        final(store).items == old(store).items,
        r == ApiResponse::Deleted,
{
    let mut kept: Vec<ShoppingList> = Vec::new();
    let n = store.lists.len();
    let mut i: usize = 0;
    proof {
        assert(store.lists@.subrange(0, 0) =~= Seq::<ShoppingList>::empty());
    }
    while i < n
        invariant
            i <= n,
            n == store.lists@.len(),
            kept@ == delete_lists(store.lists@.subrange(0, i as int), list_id@, user@),
        decreases n - i,
    {
        let l = &store.lists[i];
        let ghost pre = store.lists@.subrange(0, i as int);
        let ghost cur = store.lists@.subrange(0, i as int + 1);
        if !(l.id == *list_id && l.owner_id == *user) {
            kept.push(l.clone());
        }
        proof {
            reveal_with_fuel(Seq::filter, 2);
            assert(cur.drop_last() =~= pre);
            assert(cur.last() == store.lists@[i as int]);
        }
        i = i + 1;
    }
    proof {
        assert(store.lists@.subrange(0, n as int) =~= store.lists@);
    }
    store.lists = kept;
    ApiResponse::Deleted
}

} // verus!
