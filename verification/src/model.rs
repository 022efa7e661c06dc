//! Data model: shopping lists, their items, and the in-memory store the
//! handlers operate on, together with the spec-level store transitions that
//! the handler contracts are stated over.

use vstd::prelude::*;

verus! {

/// A shopping list row.
#[derive(Debug, PartialEq)]
pub struct ShoppingList {
    pub id: String,
    pub owner_id: String,
    pub name: String,
    pub description: Option<String>,
    pub shared: bool,
    pub created_at: u64,
    pub updated_at: u64,
}

/// A shopping list item row.
#[derive(Debug, PartialEq)]
pub struct ShoppingListItem {
    pub id: String,
    pub list_id: String,
    pub product_id: Option<String>,
    pub name: String,
    pub quantity: i32,
    pub checked: bool,
}

/// The relational store: one table of lists, one of items.
pub struct Store {
    pub lists: Vec<ShoppingList>,
    pub items: Vec<ShoppingListItem>,
}

impl Clone for ShoppingList {
    fn clone(&self) -> (r: Self)
        ensures
            r == *self,
    {
        ShoppingList {
            id: self.id.clone(),
            owner_id: self.owner_id.clone(),
            name: self.name.clone(),
            description: clone_opt_string(&self.description),
            shared: self.shared,
            created_at: self.created_at,
            updated_at: self.updated_at,
        }
    }
}

impl Clone for ShoppingListItem {
    fn clone(&self) -> (r: Self)
        ensures
            r == *self,
    {
        ShoppingListItem {
            id: self.id.clone(),
            list_id: self.list_id.clone(),
            product_id: clone_opt_string(&self.product_id),
            name: self.name.clone(),
            quantity: self.quantity,
            checked: self.checked,
        }
    }
}

/// Clones an optional string; the clone equals the original.
pub fn clone_opt_string(s: &Option<String>) -> (r: Option<String>)
    ensures
        r == *s,
{
    match s {
        Some(v) => Some(v.clone()),
        None => None,
    }
}

/// A list is readable by a caller when the caller owns it or it is shared.
pub open spec fn list_visible(l: ShoppingList, user: Seq<char>) -> bool {
    l.owner_id@ == user || l.shared
}

/// List ids are pairwise distinct.
pub open spec fn lists_wf(lists: Seq<ShoppingList>) -> bool {
    forall|i: int, j: int|
        0 <= i < j < lists.len() ==> (#[trigger] lists[i]).id@ != (#[trigger] lists[j]).id@
}

/// Item ids are pairwise distinct.
pub open spec fn items_wf(items: Seq<ShoppingListItem>) -> bool {
    forall|i: int, j: int|
        0 <= i < j < items.len() ==> (#[trigger] items[i]).id@ != (#[trigger] items[j]).id@
}

/// No stored list was updated before it was created.
pub open spec fn timestamps_wf(lists: Seq<ShoppingList>) -> bool {
    forall|i: int|
        0 <= i < lists.len() ==> (#[trigger] lists[i]).updated_at >= lists[i].created_at
}

/// Store well-formedness: both tables keyed by unique ids.
pub open spec fn store_wf(s: Store) -> bool {
    lists_wf(s.lists@) && items_wf(s.items@)
}

/// No list row carries the given id.
pub open spec fn fresh_list_id(lists: Seq<ShoppingList>, id: Seq<char>) -> bool {
    forall|i: int| 0 <= i < lists.len() ==> (#[trigger] lists[i]).id@ != id
}

/// No item row carries the given id.
pub open spec fn fresh_item_id(items: Seq<ShoppingListItem>, id: Seq<char>) -> bool {
    forall|i: int| 0 <= i < items.len() ==> (#[trigger] items[i]).id@ != id
}

/// Some list with the given id is readable by the caller.
pub open spec fn accessible(lists: Seq<ShoppingList>, id: Seq<char>, user: Seq<char>) -> bool {
    exists|i: int| 0 <= i < lists.len() && (#[trigger] lists[i]).id@ == id && list_visible(lists[i], user)
}

/// The row a successful create stores: owned by the caller, `shared`
/// defaulting to false, and both timestamps equal to the creation time.
pub open spec fn new_list(
    owner: String,
    name: String,
    description: Option<String>,
    shared: Option<bool>,
    id: String,
    now: u64,
) -> ShoppingList {
    ShoppingList {
        id: id,
        owner_id: owner,
        name: name,
        description: description,
        shared: match shared {
            Some(b) => b,
            None => false,
        },
        created_at: now,
        updated_at: now,
    }
}

/// The row a successful add-item stores: tied to its list, quantity
/// defaulting to 1, and never checked at creation.
pub open spec fn new_item(
    list_id: String,
    product_id: Option<String>,
    name: String,
    quantity: Option<i32>,
    id: String,
) -> ShoppingListItem {
    ShoppingListItem {
        id: id,
        list_id: list_id,
        product_id: product_id,
        name: name,
        quantity: match quantity {
            Some(q) => q,
            None => 1,
        },
        checked: false,
    }
}

/// The list table after refreshing the timestamp of the list with the given
/// id; every other row is untouched.
pub open spec fn touch_list(lists: Seq<ShoppingList>, id: Seq<char>, now: u64) -> Seq<ShoppingList> {
    Seq::new(
        lists.len(),
        |i: int|
            if lists[i].id@ == id {
                ShoppingList { updated_at: now, ..lists[i] }
            } else {
                lists[i]
            },
    )
}

/// The list table after a delete by the given caller: only a row that both
/// carries the target id and is owned by the caller goes away.
pub open spec fn delete_lists(lists: Seq<ShoppingList>, id: Seq<char>, user: Seq<char>) -> Seq<ShoppingList> {
    lists.filter(|l: ShoppingList| !(l.id@ == id && l.owner_id@ == user))
}

/// The rows of the list table the caller may read.
pub open spec fn visible_filter(lists: Seq<ShoppingList>, user: Seq<char>) -> Seq<ShoppingList> {
    lists.filter(|l: ShoppingList| list_visible(l, user))
}

/// The rows of the item table that belong to the given list.
pub open spec fn items_filter(items: Seq<ShoppingListItem>, list_id: Seq<char>) -> Seq<ShoppingListItem> {
    items.filter(|it: ShoppingListItem| it.list_id@ == list_id)
}

/// Deleting keeps list ids pairwise distinct, and every kept row comes
/// from the original table.
pub proof fn lemma_delete_keeps_wf(s: Seq<ShoppingList>, id: Seq<char>, user: Seq<char>)
    requires
        lists_wf(s),
    ensures
        lists_wf(delete_lists(s, id, user)),
        forall|x: ShoppingList| #[trigger] delete_lists(s, id, user).contains(x) ==> s.contains(x),
    decreases s.len(),
{
    reveal_with_fuel(Seq::filter, 2);
    let f = delete_lists(s, id, user);
    if s.len() == 0 {
    } else {
        let d = s.drop_last();
        let fd = delete_lists(d, id, user);
        assert(lists_wf(d)) by {
            assert(forall|i: int, j: int|
                0 <= i < j < d.len() ==> d[i] == s[i] && d[j] == s[j]);
        }
        lemma_delete_keeps_wf(d, id, user);
        assert(forall|x: ShoppingList| d.contains(x) ==> s.contains(x)) by {
            assert(forall|i: int| 0 <= i < d.len() ==> d[i] == s[i]);
        }
        if !(s.last().id@ == id && s.last().owner_id@ == user) {
            assert(f == fd.push(s.last()));
            assert(s.contains(s.last()));
            assert forall|x: ShoppingList| #[trigger] f.contains(x) implies s.contains(x) by {
                if x != s.last() {
                    let w = choose|w: int| 0 <= w < f.len() && f[w] == x;
                    assert(fd[w] == x);
                    assert(fd.contains(x));
                }
            }
            assert forall|i: int, j: int| 0 <= i < j < f.len() implies (#[trigger] f[i]).id@ != (
            #[trigger] f[j]).id@ by {
                if j == f.len() - 1 {
                    assert(fd.contains(f[i]));
                    assert(s.contains(f[i]));
                    let wd = choose|wd: int| 0 <= wd < d.len() && d[wd] == f[i];
                    assert(s[wd] == f[i]);
                    assert(s[wd].id@ != s[s.len() - 1].id@);
                } else {
                    assert(f[i] == fd[i]);
                    assert(f[j] == fd[j]);
                }
            }
        } else {
            assert(f == fd);
            assert forall|x: ShoppingList| #[trigger] f.contains(x) implies s.contains(x) by {
                assert(fd.contains(x));
            }
        }
    }
}

/// A row is kept by the visibility filter exactly when it is in the table
/// and readable.
pub proof fn lemma_visible_filter_mem(lists: Seq<ShoppingList>, user: Seq<char>, x: ShoppingList)
    ensures
        visible_filter(lists, user).contains(x) <==> (lists.contains(x) && list_visible(x, user)),
    decreases lists.len(),
{
    reveal_with_fuel(Seq::filter, 2);
    let f = visible_filter(lists, user);
    if lists.len() == 0 {
        assert(!f.contains(x));
        assert(!lists.contains(x));
    } else {
        let d = lists.drop_last();
        let fd = visible_filter(d, user);
        lemma_visible_filter_mem(d, user, x);
        assert(lists.contains(x) <==> (d.contains(x) || x == lists.last())) by {
            assert(forall|i: int| 0 <= i < d.len() ==> d[i] == lists[i]);
            if lists.contains(x) {
                let w = choose|w: int| 0 <= w < lists.len() && lists[w] == x;
                if w < lists.len() - 1 {
                    assert(d[w] == x);
                }
            }
        }
        if list_visible(lists.last(), user) {
            assert(f == fd.push(lists.last()));
            assert(f.contains(x) <==> (fd.contains(x) || x == lists.last())) by {
                if f.contains(x) && x != lists.last() {
                    let w = choose|w: int| 0 <= w < f.len() && f[w] == x;
                    assert(fd[w] == x);
                }
                if fd.contains(x) {
                    let w = choose|w: int| 0 <= w < fd.len() && fd[w] == x;
                    assert(f[w] == x);
                }
                if x == lists.last() {
                    assert(f[f.len() - 1] == x);
                }
            }
        } else {
            assert(f == fd);
        }
    }
}

/// A row is kept by the item filter exactly when it is in the table and
/// belongs to the list.
pub proof fn lemma_items_filter_mem(items: Seq<ShoppingListItem>, list_id: Seq<char>, x: ShoppingListItem)
    ensures
        items_filter(items, list_id).contains(x) <==> (items.contains(x) && x.list_id@ == list_id),
    decreases items.len(),
{
    reveal_with_fuel(Seq::filter, 2);
    let f = items_filter(items, list_id);
    if items.len() == 0 {
        assert(!f.contains(x));
        assert(!items.contains(x));
    } else {
        let d = items.drop_last();
        let fd = items_filter(d, list_id);
        lemma_items_filter_mem(d, list_id, x);
        assert(items.contains(x) <==> (d.contains(x) || x == items.last())) by {
            assert(forall|i: int| 0 <= i < d.len() ==> d[i] == items[i]);
            if items.contains(x) {
                let w = choose|w: int| 0 <= w < items.len() && items[w] == x;
                if w < items.len() - 1 {
                    assert(d[w] == x);
                }
            }
        }
        if items.last().list_id@ == list_id {
            assert(f == fd.push(items.last()));
            assert(f.contains(x) <==> (fd.contains(x) || x == items.last())) by {
                if f.contains(x) && x != items.last() {
                    let w = choose|w: int| 0 <= w < f.len() && f[w] == x;
                    assert(fd[w] == x);
                }
                if fd.contains(x) {
                    let w = choose|w: int| 0 <= w < fd.len() && fd[w] == x;
                    assert(f[w] == x);
                }
                if x == items.last() {
                    assert(f[f.len() - 1] == x);
                }
            }
        } else {
            assert(f == fd);
        }
    }
}

/// Adding one row to the item table extends its filtered view by that row
/// when the row belongs to the list, and leaves it unchanged otherwise.
pub proof fn lemma_items_filter_push(items: Seq<ShoppingListItem>, list_id: Seq<char>, x: ShoppingListItem)
    ensures
        items_filter(items.push(x), list_id) == if x.list_id@ == list_id {
            items_filter(items, list_id).push(x)
        } else {
            items_filter(items, list_id)
        },
{
    reveal_with_fuel(Seq::filter, 2);
    assert(items.push(x).drop_last() =~= items);
    assert(items.push(x).last() == x);
}

/// Refreshing a timestamp changes no id, so well-formedness is kept.
pub proof fn lemma_touch_keeps_wf(lists: Seq<ShoppingList>, id: Seq<char>, now: u64)
    requires
        lists_wf(lists),
    ensures
        lists_wf(touch_list(lists, id, now)),
{
    assert(forall|i: int|
        0 <= i < lists.len() ==> (#[trigger] touch_list(lists, id, now)[i]).id@ == lists[i].id@);
}

} // verus!
