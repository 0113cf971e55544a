//! The order in which attributes are taken: by key, and by value where two
//! keys are the same. Text is ordered character by character, a text before
//! any longer one that starts with it.

use crate::model::{Attribute, Entry};
use crate::text::chars_of;
use vstd::prelude::*;
use vstd::relations::{sorted_by, total_ordering};
use vstd::seq_lib::lemma_sorted_unique;

verus! {

/// Whether `a` comes before `b` or is `b`.
pub open spec fn text_le(a: Seq<char>, b: Seq<char>) -> bool
    decreases a.len(),
{
    if a.len() == 0 {
        true
    } else if b.len() == 0 {
        false
    } else if a.first() == b.first() {
        text_le(a.drop_first(), b.drop_first())
    } else {
        a.first() < b.first()
    }
}

/// Whether `x` comes before `y` or is `y`.
pub open spec fn entry_le(x: Entry, y: Entry) -> bool {
    if x.key == y.key {
        text_le(x.value, y.value)
    } else {
        text_le(x.key, y.key)
    }
}

/// The order of entries as a relation.
pub open spec fn entry_order() -> spec_fn(Entry, Entry) -> bool {
    |x: Entry, y: Entry| entry_le(x, y)
}

/// Entries in order: what sorting by key, then by value, makes of them.
pub open spec fn ordered(entries: Seq<Entry>) -> Seq<Entry> {
    entries.sort_by(entry_order())
}

/// A text is before or at itself.
pub proof fn lemma_text_le_reflexive(a: Seq<char>)
    ensures
        text_le(a, a),
    decreases a.len(),
{
    if a.len() > 0 {
        lemma_text_le_reflexive(a.drop_first());
    }
}

/// Two texts that are each before or at the other are the same text.
pub proof fn lemma_text_le_antisymmetric(a: Seq<char>, b: Seq<char>)
    requires
        text_le(a, b),
        text_le(b, a),
    ensures
        a == b,
    decreases a.len(),
{
    if a.len() == 0 {
        assert(a =~= b);
    } else {
        lemma_text_le_antisymmetric(a.drop_first(), b.drop_first());
        assert(a =~= seq![a.first()] + a.drop_first());
        assert(b =~= seq![b.first()] + b.drop_first());
    }
}

/// What is before or at a text is before or at what that text is before or
/// at.
pub proof fn lemma_text_le_transitive(a: Seq<char>, b: Seq<char>, c: Seq<char>)
    requires
        text_le(a, b),
        text_le(b, c),
    ensures
        text_le(a, c),
    decreases a.len(),
{
    if a.len() > 0 && a.first() == b.first() && b.first() == c.first() {
        lemma_text_le_transitive(a.drop_first(), b.drop_first(), c.drop_first());
    }
}

/// Of two texts one is before or at the other.
pub proof fn lemma_text_le_connected(a: Seq<char>, b: Seq<char>)
    ensures
        text_le(a, b) || text_le(b, a),
    decreases a.len(),
{
    if a.len() > 0 && b.len() > 0 && a.first() == b.first() {
        lemma_text_le_connected(a.drop_first(), b.drop_first());
    }
}

/// The order of entries is total: any two entries compare, and only an entry
/// and itself compare both ways.
pub proof fn lemma_entry_order_is_total()
    ensures
        total_ordering(entry_order()),
{
    let order = entry_order();
    assert forall|x: Entry| #[trigger] order(x, x) by {
        lemma_text_le_reflexive(x.value);
    }
    assert forall|x: Entry, y: Entry| #[trigger] order(x, y) && #[trigger] order(y, x) implies x
        == y by {
        if x.key == y.key {
            lemma_text_le_antisymmetric(x.value, y.value);
        } else {
            lemma_text_le_antisymmetric(x.key, y.key);
        }
    }
    assert forall|x: Entry, y: Entry, z: Entry| #[trigger] order(x, y) && #[trigger] order(
        y,
        z,
    ) implies order(x, z) by {
        if x.key == y.key && y.key == z.key {
            lemma_text_le_transitive(x.value, y.value, z.value);
        } else if x.key != y.key && y.key != z.key {
            lemma_text_le_transitive(x.key, y.key, z.key);
            if x.key == z.key {
                lemma_text_le_antisymmetric(x.key, y.key);
            }
        }
    }
    assert forall|x: Entry, y: Entry| #[trigger] order(x, y) || #[trigger] order(y, x) by {
        lemma_text_le_connected(x.value, y.value);
        lemma_text_le_connected(x.key, y.key);
    }
}

/// Whether `a` comes before `b` or is `b`.
pub fn chars_le(a: &Vec<char>, b: &Vec<char>) -> (le: bool)
    ensures
        le == text_le(a@, b@),
{
    let mut i: usize = 0;
    proof {
        assert(a@.subrange(0, a.len() as int) =~= a@);
        assert(b@.subrange(0, b.len() as int) =~= b@);
    }
    while i < a.len()
        invariant
            i <= a.len(),
            i <= b.len(),
            text_le(a@, b@) == text_le(
                a@.subrange(i as int, a.len() as int),
                b@.subrange(i as int, b.len() as int),
            ),
        decreases a.len() - i,
    {
        let ghost rest_a = a@.subrange(i as int, a.len() as int);
        let ghost rest_b = b@.subrange(i as int, b.len() as int);
        if i == b.len() {
            return false;
        }
        assert(rest_a.first() == a@[i as int]);
        assert(rest_b.first() == b@[i as int]);
        if a[i] != b[i] {
            return a[i] < b[i];
        }
        proof {
            assert(rest_a.drop_first() =~= a@.subrange(i + 1, a.len() as int));
            assert(rest_b.drop_first() =~= b@.subrange(i + 1, b.len() as int));
        }
        i += 1;
    }
    true
}

/// Whether `x` comes before `y` or is `y`.
pub fn attribute_le(x: &Attribute, y: &Attribute) -> (le: bool)
    ensures
        le == entry_le(x.deep_view(), y.deep_view()),
{
    let x_key = chars_of(x.key.as_str());
    let y_key = chars_of(y.key.as_str());
    if chars_le(&x_key, &y_key) && chars_le(&y_key, &x_key) {
        proof {
            lemma_text_le_antisymmetric(x.key@, y.key@);
        }
        let x_value = chars_of(x.value.as_str());
        let y_value = chars_of(y.value.as_str());
        chars_le(&x_value, &y_value)
    } else {
        proof {
            if x.key@ == y.key@ {
                lemma_text_le_reflexive(x.key@);
            }
        }
        chars_le(&x_key, &y_key)
    }
}

/// The attributes in order.
pub fn sort_attributes<'a>(attributes: &'a Vec<Attribute>) -> (sorted: Vec<&'a Attribute>)
    ensures
        sorted.deep_view() == ordered(attributes.deep_view()),
{
    let ghost order = entry_order();
    let ghost all = attributes.deep_view();
    let mut sorted: Vec<&Attribute> = Vec::new();
    let mut i: usize = 0;
    proof {
        lemma_entry_order_is_total();
        assert(sorted.deep_view() =~= all.take(0));
    }
    while i < attributes.len()
        invariant
            i <= attributes.len(),
            order == entry_order(),
            all == attributes.deep_view(),
            total_ordering(order),
            sorted_by(sorted.deep_view(), order),
            sorted.deep_view().to_multiset() == all.take(i as int).to_multiset(),
        decreases attributes.len() - i,
    {
        let item = &attributes[i];
        let ghost before = sorted.deep_view();
        let mut at: usize = 0;
        while at < sorted.len()
            invariant
                at <= sorted.len(),
                before == sorted.deep_view(),
                forall|j: int| 0 <= j < at ==> entry_le(before[j], item.deep_view()),
            ensures
                at <= sorted.len(),
                forall|j: int| 0 <= j < at ==> entry_le(before[j], item.deep_view()),
                at < sorted.len() ==> !entry_le(before[at as int], item.deep_view()),
            decreases sorted.len() - at,
        {
            if !attribute_le(sorted[at], item) {
                break ;
            }
            at += 1;
        }
        sorted.insert(at, item);
        proof {
            let entry = item.deep_view();
            let after = sorted.deep_view();
            assert(after =~= before.insert(at as int, entry));
            assert forall|j: int, k: int| 0 <= j < k < after.len() implies #[trigger] order(
                after[j],
                after[k],
            ) by {
                if k < at {
                    assert(order(before[j], before[k]));
                } else if k == at {
                    assert(entry_le(before[j], entry));
                } else if j == at {
                    assert(!entry_le(before[at as int], entry));
                    assert(order(entry, before[at as int]) || order(before[at as int], entry));
                    if k - 1 > at {
                        assert(order(before[at as int], before[k - 1]));
                    }
                    assert(order(entry, before[at as int]) && order(before[at as int], before[k - 1])
                        ==> order(entry, before[k - 1]));
                } else if j < at {
                    assert(order(before[j], before[k - 1]));
                } else {
                    assert(order(before[j - 1], before[k - 1]));
                }
            }
            vstd::seq_lib::to_multiset_insert(before, at as int, entry);
            assert(all.take(i + 1) =~= all.take(i as int).push(entry));
            vstd::seq_lib::to_multiset_build(all.take(i as int), entry);
        }
        i += 1;
    }
    proof {
        assert(all.take(attributes.len() as int) =~= all);
        all.lemma_sort_by_ensures(order);
        lemma_sorted_unique(sorted.deep_view(), all.sort_by(order), order);
    }
    sorted
}

} // verus!
