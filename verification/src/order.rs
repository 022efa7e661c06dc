//! Orderings used by the read operations: lexicographic order on character
//! sequences (how the store collates text) and the item ordering
//! (`checked` ascending, then name ascending).

use vstd::prelude::*;
use vstd::string::StrSliceExecFns;

use crate::model::ShoppingListItem;

verus! {

/// Lexicographic "less or equal" over character sequences, comparing
/// characters by their scalar values.
pub open spec fn char_seq_le(a: Seq<char>, b: Seq<char>) -> bool
    decreases a.len(),
{
    if a.len() == 0 {
        true
    } else if b.len() == 0 {
        false
    } else if (a[0] as u32) < (b[0] as u32) {
        true
    } else if (a[0] as u32) > (b[0] as u32) {
        false
    } else {
        char_seq_le(a.drop_first(), b.drop_first())
    }
}

/// Any two character sequences are comparable.
pub proof fn lemma_char_seq_le_total(a: Seq<char>, b: Seq<char>)
    ensures
        char_seq_le(a, b) || char_seq_le(b, a),
    decreases a.len(),
{
    if a.len() == 0 || b.len() == 0 {
    } else if (a[0] as u32) == (b[0] as u32) {
        lemma_char_seq_le_total(a.drop_first(), b.drop_first());
    }
}

/// The order is transitive.
pub proof fn lemma_char_seq_le_trans(a: Seq<char>, b: Seq<char>, c: Seq<char>)
    requires
        char_seq_le(a, b),
        char_seq_le(b, c),
    ensures
        char_seq_le(a, c),
    decreases a.len(),
{
    if a.len() == 0 || b.len() == 0 || c.len() == 0 {
    } else if (a[0] as u32) == (b[0] as u32) && (b[0] as u32) == (c[0] as u32) {
        lemma_char_seq_le_trans(a.drop_first(), b.drop_first(), c.drop_first());
    }
}

/// Two sequences each at or below the other are equal.
pub proof fn lemma_char_seq_le_antisym(a: Seq<char>, b: Seq<char>)
    requires
        char_seq_le(a, b),
        char_seq_le(b, a),
    ensures
        a == b,
    decreases a.len(),
{
    if a.len() == 0 {
        assert(b.len() == 0);
        assert(a =~= b);
    } else {
        assert((a[0] as u32) == (b[0] as u32));
        vstd::utf8::char_u32_cast(a[0], a[0] as u32);
        vstd::utf8::char_u32_cast(b[0], b[0] as u32);
        assert(a[0] == b[0]);
        lemma_char_seq_le_antisym(a.drop_first(), b.drop_first());
        assert(forall|i: int| 1 <= i < a.len() ==> a[i] == a.drop_first()[i - 1]);
        assert(a =~= b);
    }
}

/// Comparing past a common prefix compares the remainders.
proof fn lemma_char_seq_le_skip(a: Seq<char>, b: Seq<char>, i: int)
    requires
        0 <= i <= a.len(),
        i <= b.len(),
        forall|j: int| 0 <= j < i ==> a[j] == b[j],
    ensures
        char_seq_le(a, b) == char_seq_le(a.skip(i), b.skip(i)),
    decreases i,
{
    if i == 0 {
        assert(a.skip(0) =~= a);
        assert(b.skip(0) =~= b);
    } else {
        assert(a[0] == b[0]);
        lemma_char_seq_le_skip(a.drop_first(), b.drop_first(), i - 1);
        assert(a.drop_first().skip(i - 1) =~= a.skip(i));
        assert(b.drop_first().skip(i - 1) =~= b.skip(i));
    }
}

/// Executable lexicographic comparison of two string slices.
pub fn str_le(a: &str, b: &str) -> (r: bool)
    ensures
        r == char_seq_le(a@, b@),
{
    let a_len = a.unicode_len();
    let b_len = b.unicode_len();
    let mut i: usize = 0;
    loop
        invariant
            i <= a_len,
            i <= b_len,
            a_len == a@.len(),
            b_len == b@.len(),
            forall|j: int| 0 <= j < i ==> a@[j] == b@[j],
        decreases a_len - i,
    {
        proof {
            lemma_char_seq_le_skip(a@, b@, i as int);
        }
        if i == a_len {
            assert(a@.skip(i as int).len() == 0);
            return true;
        }
        if i == b_len {
            assert(b@.skip(i as int).len() == 0);
            assert(a@.skip(i as int).len() > 0);
            return false;
        }
        let ca = a.get_char(i);
        let cb = b.get_char(i);
        assert(a@.skip(i as int)[0] == a@[i as int]);
        assert(b@.skip(i as int)[0] == b@[i as int]);
        if (ca as u32) < (cb as u32) {
            return true;
        }
        if (ca as u32) > (cb as u32) {
            return false;
        }
        i = i + 1;
    }
}

/// The order items come back in: unchecked before checked, then by name.
pub open spec fn item_le(a: ShoppingListItem, b: ShoppingListItem) -> bool {
    if a.checked != b.checked {
        !a.checked
    } else {
        char_seq_le(a.name@, b.name@)
    }
}

/// Any two items are comparable.
pub proof fn lemma_item_le_total(a: ShoppingListItem, b: ShoppingListItem)
    ensures
        item_le(a, b) || item_le(b, a),
{
    if a.checked == b.checked {
        lemma_char_seq_le_total(a.name@, b.name@);
    }
}

/// The item order is transitive.
pub proof fn lemma_item_le_trans(a: ShoppingListItem, b: ShoppingListItem, c: ShoppingListItem)
    requires
        item_le(a, b),
        item_le(b, c),
    ensures
        item_le(a, c),
{
    if a.checked == b.checked && b.checked == c.checked {
        lemma_char_seq_le_trans(a.name@, b.name@, c.name@);
    }
}

/// Executable form of the item order.
pub fn item_le_exec(a: &ShoppingListItem, b: &ShoppingListItem) -> (r: bool)
    ensures
        r == item_le(*a, *b),
{
    if a.checked != b.checked {
        !a.checked
    } else {
        str_le(a.name.as_str(), b.name.as_str())
    }
}

} // verus!
