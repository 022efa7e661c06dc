//! Sorted output for the read operations: lists come back newest-updated
//! first, items unchecked-first then by name. Each sort returns a
//! permutation of its input (stated as multiset equality) in sorted order.

use vstd::multiset::Multiset;
use vstd::prelude::*;

use crate::model::{ShoppingList, ShoppingListItem};
use crate::order::{item_le, item_le_exec, lemma_item_le_total, lemma_item_le_trans};

verus! {

broadcast use vstd::seq_lib::group_to_multiset_ensures;

/// Lists in order of `updated_at`, newest first.
pub open spec fn lists_sorted(s: Seq<ShoppingList>) -> bool {
    forall|i: int, j: int|
        0 <= i < j < s.len() ==> (#[trigger] s[i]).updated_at >= (#[trigger] s[j]).updated_at
}

/// Items in order: unchecked before checked, then by name ascending.
pub open spec fn items_sorted(s: Seq<ShoppingListItem>) -> bool {
    forall|i: int, j: int| 0 <= i < j < s.len() ==> item_le(#[trigger] s[i], #[trigger] s[j])
}

/// Places one list into an already sorted vector, keeping it sorted.
fn insert_list_sorted(out: &mut Vec<ShoppingList>, x: ShoppingList)
    requires
        lists_sorted(old(out)@),
    ensures
        lists_sorted(final(out)@),
        final(out)@.to_multiset() == old(out)@.to_multiset().insert(x),
{
    let mut j: usize = 0;
    while j < out.len() && out[j].updated_at >= x.updated_at
        invariant
            j <= out@.len(),
            lists_sorted(out@),
            out@ == old(out)@,
            forall|k: int| 0 <= k < j ==> (#[trigger] out@[k]).updated_at >= x.updated_at,
        decreases out@.len() - j,
    {
        j = j + 1;
    }
    let ghost pre = out@;
    out.insert(j, x);
    proof {
        assert(out@.to_multiset() == pre.to_multiset().insert(x));
        assert forall|p: int, q: int| 0 <= p < q < out@.len() implies (#[trigger] out@[p]).updated_at
            >= (#[trigger] out@[q]).updated_at by {
            assert(out@ == pre.insert(j as int, x));
        }
    }
}

/// Sorts lists by `updated_at`, newest first.
pub fn sort_lists(v: Vec<ShoppingList>) -> (r: Vec<ShoppingList>)
    ensures
        r@.to_multiset() == v@.to_multiset(),
        lists_sorted(r@),
{
    let mut out: Vec<ShoppingList> = Vec::new();
    let mut i: usize = 0;
    proof {
        assert(v@.subrange(0, 0).to_multiset() =~= Multiset::<ShoppingList>::empty());
        assert(out@.to_multiset() =~= Multiset::<ShoppingList>::empty());
    }
    while i < v.len()
        invariant
            i <= v@.len(),
            lists_sorted(out@),
            out@.to_multiset() == v@.subrange(0, i as int).to_multiset(),
        decreases v@.len() - i,
    {
        let x = v[i].clone();
        insert_list_sorted(&mut out, x);
        proof {
            assert(v@.subrange(0, i + 1) =~= v@.subrange(0, i as int).push(v@[i as int]));
        }
        i = i + 1;
    }
    proof {
        assert(v@.subrange(0, v@.len() as int) =~= v@);
    }
    out
}

/// Places one item into an already sorted vector, keeping it sorted.
fn insert_item_sorted(out: &mut Vec<ShoppingListItem>, x: ShoppingListItem)
    requires
        items_sorted(old(out)@),
    ensures
        items_sorted(final(out)@),
        final(out)@.to_multiset() == old(out)@.to_multiset().insert(x),
{
    let mut j: usize = 0;
    while j < out.len() && item_le_exec(&out[j], &x)
        invariant
            j <= out@.len(),
            items_sorted(out@),
            out@ == old(out)@,
            forall|k: int| 0 <= k < j ==> item_le(#[trigger] out@[k], x),
        decreases out@.len() - j,
    {
        j = j + 1;
    }
    proof {
        if (j as int) < out@.len() {
            lemma_item_le_total(out@[j as int], x);
            assert forall|q: int| (j as int) <= q < out@.len() implies item_le(
                x,
                #[trigger] out@[q],
            ) by {
                if (j as int) < q {
                    assert(item_le(out@[j as int], out@[q]));
                    lemma_item_le_trans(x, out@[j as int], out@[q]);
                }
            }
        }
    }
    let ghost pre = out@;
    out.insert(j, x);
    proof {
        assert(out@.to_multiset() == pre.to_multiset().insert(x));
        assert forall|p: int, q: int| 0 <= p < q < out@.len() implies item_le(
            #[trigger] out@[p],
            #[trigger] out@[q],
        ) by {
            assert(out@ == pre.insert(j as int, x));
        }
    }
}

/// Sorts items: unchecked first, then by name ascending.
pub fn sort_items(v: Vec<ShoppingListItem>) -> (r: Vec<ShoppingListItem>)
    ensures
        r@.to_multiset() == v@.to_multiset(),
        items_sorted(r@),
{
    let mut out: Vec<ShoppingListItem> = Vec::new();
    let mut i: usize = 0;
    proof {
        assert(v@.subrange(0, 0).to_multiset() =~= Multiset::<ShoppingListItem>::empty());
        assert(out@.to_multiset() =~= Multiset::<ShoppingListItem>::empty());
    }
    while i < v.len()
        invariant
            i <= v@.len(),
            items_sorted(out@),
            out@.to_multiset() == v@.subrange(0, i as int).to_multiset(),
        decreases v@.len() - i,
    {
        let x = v[i].clone();
        insert_item_sorted(&mut out, x);
        proof {
            assert(v@.subrange(0, i + 1) =~= v@.subrange(0, i as int).push(v@[i as int]));
        }
        i = i + 1;
    }
    proof {
        assert(v@.subrange(0, v@.len() as int) =~= v@);
    }
    out
}

} // verus!
