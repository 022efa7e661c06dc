//! The service-level guarantees, each proved from the contracts the
//! operations and the handler already carry.

use vstd::multiset::Multiset;
use vstd::prelude::*;

use crate::api::{ApiResponse, Request};
use crate::handler::{add_item_result, handled};
use crate::model::{
    accessible, delete_lists, items_filter, lemma_delete_keeps_wf, lemma_items_filter_mem,
    lemma_items_filter_push, lemma_visible_filter_mem, lists_wf, new_list, timestamps_wf,
    touch_list, visible_filter, ShoppingList, ShoppingListItem, Store,
};
use crate::order::{char_seq_le, lemma_char_seq_le_antisym};
use crate::route::route_spec;
use crate::sort::items_sorted;

verus! {

broadcast use {vstd::multiset::group_multiset_axioms, vstd::seq_lib::group_to_multiset_ensures};

/// A request that names any identity-requiring route but carries no identity
/// is answered with the authentication error and changes nothing in the
/// store.
pub proof fn lemma_missing_identity(
    pre: Store,
    req: Request,
    new_id: String,
    now: u64,
    post: Store,
    r: ApiResponse,
)
    requires
        handled(pre, req, new_id, now, post, r),
        req.user is None,
        !(route_spec(req.method, req.path@) is Health),
        !(route_spec(req.method, req.path@) is NoMatch),
    ensures
        r == ApiResponse::AuthError,
        post == pre,
{
}

/// A list created without a sharing choice is stored as not shared.
pub proof fn lemma_create_default_not_shared(
    owner: String,
    name: String,
    description: Option<String>,
    id: String,
    now: u64,
)
    ensures
        !new_list(owner, name, description, None, id, now).shared,
        new_list(owner, name, description, None, id, now).created_at == new_list(
            owner,
            name,
            description,
            None,
            id,
            now,
        ).updated_at,
{
}

/// A freshly created list shows up in its owner's collection view; for any
/// other caller it shows up only when it was created shared.
pub proof fn lemma_created_list_visibility(
    lists: Seq<ShoppingList>,
    owner: String,
    name: String,
    description: Option<String>,
    shared: Option<bool>,
    id: String,
    now: u64,
    other: Seq<char>,
)
    ensures
        ({
            let l = new_list(owner, name, description, shared, id, now);
            let after = lists.push(l);
            &&& visible_filter(after, owner@).contains(l)
            &&& (!(shared matches Some(true)) && other != owner@) ==> !visible_filter(
                after,
                other,
            ).contains(l)
        }),
{
    let l = new_list(owner, name, description, shared, id, now);
    let after = lists.push(l);
    assert(after[after.len() - 1] == l);
    assert(after.contains(l));
    lemma_visible_filter_mem(after, owner@, l);
    lemma_visible_filter_mem(after, other, l);
}

/// For a stored list that is neither shared nor owned by the caller, the
/// detail lookup finds nothing, while the owner's lookup succeeds; existence
/// is never revealed to other callers.
pub proof fn lemma_detail_access(
    lists: Seq<ShoppingList>,
    id: Seq<char>,
    owner: Seq<char>,
    other: Seq<char>,
    w: int,
)
    requires
        lists_wf(lists),
        0 <= w < lists.len(),
        lists[w].id@ == id,
        lists[w].owner_id@ == owner,
        !lists[w].shared,
        other != owner,
    ensures
        accessible(lists, id, owner),
        !accessible(lists, id, other),
{
    assert(accessible(lists, id, owner));
    assert forall|i: int|
        0 <= i < lists.len() && (#[trigger] lists[i]).id@ == id implies i == w by {
        if i != w {
            assert(lists[i].id@ != lists[w].id@);
        }
    }
}

/// Adding an item to a readable list moves the list's `updated_at` no
/// earlier than it was (the clock reading not being older than the stored
/// timestamp), and the new item belongs to the list's detail view, not yet
/// checked.
pub proof fn lemma_add_item_refreshes(
    pre: Store,
    id: Seq<char>,
    user: Seq<char>,
    product_id: Option<String>,
    name: String,
    quantity: Option<i32>,
    new_id: String,
    now: u64,
    post: Store,
    r: ApiResponse,
    w: int,
)
    requires
        add_item_result(pre, id, user, product_id, name, quantity, new_id, now, post, r),
        accessible(pre.lists@, id, user),
        0 <= w < pre.lists@.len(),
        pre.lists@[w].id@ == id,
        now >= pre.lists@[w].updated_at,
    ensures
        post.lists@[w].id@ == id,
        post.lists@[w].updated_at >= pre.lists@[w].updated_at,
        items_filter(post.items@, id).contains(post.items@.last()),
        post.items@.last().checked == false,
{
    let it = post.items@.last();
    assert(post.items@.contains(it));
    lemma_items_filter_mem(post.items@, id, it);
}

/// A delete aimed at a list the caller does not own, or at no stored list at
/// all, leaves every row in place.
pub proof fn lemma_delete_without_ownership(
    lists: Seq<ShoppingList>,
    id: Seq<char>,
    user: Seq<char>,
)
    requires
        forall|i: int|
            0 <= i < lists.len() ==> !((#[trigger] lists[i]).id@ == id && lists[i].owner_id@
                == user),
    ensures
        delete_lists(lists, id, user) == lists,
    decreases lists.len(),
{
    reveal_with_fuel(Seq::filter, 2);
    if lists.len() == 0 {
        assert(delete_lists(lists, id, user) =~= lists);
    } else {
        let d = lists.drop_last();
        assert(forall|i: int| 0 <= i < d.len() ==> d[i] == lists[i]);
        lemma_delete_without_ownership(d, id, user);
        assert(delete_lists(lists, id, user) == delete_lists(d, id, user).push(lists.last()));
        assert(d.push(lists.last()) =~= lists);
    }
}

/// The operations that write the list table keep every row's `updated_at`
/// at or after its `created_at`: creation stores equal timestamps, a
/// refresh keeps the invariant as long as the clock reading is not older
/// than the touched row's creation, and a delete only drops rows.
pub proof fn lemma_timestamp_invariant_is_kept(
    lists: Seq<ShoppingList>,
    owner: String,
    name: String,
    description: Option<String>,
    shared: Option<bool>,
    new_id: String,
    id: Seq<char>,
    user: Seq<char>,
    now: u64,
)
    requires
        lists_wf(lists),
        timestamps_wf(lists),
        forall|i: int|
            0 <= i < lists.len() && (#[trigger] lists[i]).id@ == id ==> now
                >= lists[i].created_at,
    ensures
        timestamps_wf(lists.push(new_list(owner, name, description, shared, new_id, now))),
        timestamps_wf(touch_list(lists, id, now)),
        timestamps_wf(delete_lists(lists, id, user)),
{
    let created = lists.push(new_list(owner, name, description, shared, new_id, now));
    assert(forall|i: int| 0 <= i < lists.len() ==> created[i] == lists[i]);
    assert(created[lists.len() as int].updated_at >= created[lists.len() as int].created_at);
    let touched = touch_list(lists, id, now);
    assert forall|i: int| 0 <= i < touched.len() implies (#[trigger] touched[i]).updated_at
        >= touched[i].created_at by {
        if lists[i].id@ == id {
            assert(touched[i].created_at == lists[i].created_at);
        }
    }
    lemma_delete_keeps_wf(lists, id, user);
    let remaining = delete_lists(lists, id, user);
    assert forall|i: int| 0 <= i < remaining.len() implies (#[trigger] remaining[i]).updated_at
        >= remaining[i].created_at by {
        assert(remaining.contains(remaining[i]));
        assert(lists.contains(remaining[i]));
        let w = choose|w: int| 0 <= w < lists.len() && lists[w] == remaining[i];
        assert(lists[w].updated_at >= lists[w].created_at);
    }
}

/// Two items of one list, both unchecked, with the second-added name
/// strictly before the first-added one: any sorted arrangement of exactly
/// those two puts the second first. With the list fresh (no stored items),
/// this is the detail view after creating it and adding the two.
pub proof fn lemma_two_added_items_come_back_ordered(
    items0: Seq<ShoppingListItem>,
    list_id: Seq<char>,
    first: ShoppingListItem,
    second: ShoppingListItem,
    shown: Seq<ShoppingListItem>,
)
    requires
        items_filter(items0, list_id).len() == 0,
        first.list_id@ == list_id,
        second.list_id@ == list_id,
        !first.checked,
        !second.checked,
        char_seq_le(second.name@, first.name@),
        second.name@ != first.name@,
        items_sorted(shown),
        shown.to_multiset() == items_filter(items0.push(first).push(second), list_id).to_multiset(),
    ensures
        shown == seq![second, first],
{
    lemma_items_filter_push(items0, list_id, first);
    lemma_items_filter_push(items0.push(first), list_id, second);
    let f0 = items_filter(items0, list_id);
    assert(f0 =~= Seq::<ShoppingListItem>::empty());
    let pair = items_filter(items0.push(first).push(second), list_id);
    assert(pair == f0.push(first).push(second));
    assert(pair.to_multiset() == f0.push(first).to_multiset().insert(second));
    assert(f0.push(first).to_multiset() == f0.to_multiset().insert(first));
    assert(f0.to_multiset() =~= Multiset::<ShoppingListItem>::empty());
    let m = Multiset::<ShoppingListItem>::empty().insert(first).insert(second);
    assert(shown.to_multiset() == m);
    assert(first != second) by {
        assert(first.name@ != second.name@);
    }
    assert(m.count(first) == 1);
    assert(m.count(second) == 1);
    assert(m.len() == 2);
    assert(shown.len() == 2);
    assert(shown =~= Seq::<ShoppingListItem>::empty().push(shown[0]).push(shown[1]));
    assert(shown.to_multiset() == Multiset::<ShoppingListItem>::empty().insert(shown[0]).insert(
        shown[1],
    ));
    assert(shown.to_multiset().count(shown[0]) > 0);
    assert(m.count(shown[0]) > 0);
    assert(shown[0] == first || shown[0] == second);
    assert(shown.to_multiset().count(shown[1]) > 0);
    assert(shown[1] == first || shown[1] == second);
    if shown[0] == first {
        assert(shown[1] == second) by {
            if shown[1] == first {
                assert(shown.to_multiset().count(first) == 2);
            }
        }
        assert(crate::order::item_le(first, second));
        assert(char_seq_le(first.name@, second.name@));
        lemma_char_seq_le_antisym(first.name@, second.name@);
        assert(false);
    }
    assert(shown[0] == second);
    assert(shown[1] == first) by {
        if shown[1] == second {
            assert(shown.to_multiset().count(second) == 2);
        }
    }
    assert(shown =~= seq![second, first]);
}

} // verus!
