//! Labels: the `{key="value",...}` block of a sample line.
//!
//! Attributes become labels by their sanitized keys. Where several
//! attributes come to the same key, they become one label: its value holds
//! their values in the order of the attributes, with `;` between them.

use crate::escape::{debug_quote, debug_quoted};
use crate::model::{Attribute, Entry};
use crate::order::{entry_le, entry_order, lemma_entry_order_is_total, ordered, sort_attributes};
use crate::sanitize::{sanitize_name, sanitized};
use crate::text::{cow_text, text_eq};
use vstd::prelude::*;
use vstd::relations::sorted_by;
use vstd::seq_lib::lemma_sorted_unique;

verus! {

/// Where the first label with the key `key` stands, or the number of labels
/// where none has it.
pub open spec fn key_position(labels: Seq<Entry>, key: Seq<char>) -> int
    decreases labels.len(),
{
    if labels.len() == 0 {
        0
    } else if labels.first().key == key {
        0
    } else {
        1 + key_position(labels.drop_first(), key)
    }
}

/// The labels after one more value for `key`: the label with that key gets
/// `;` and the value at its end; without such a label, a new one is added
/// behind the others.
pub open spec fn absorbed(labels: Seq<Entry>, key: Seq<char>, value: Seq<char>) -> Seq<Entry> {
    let at = key_position(labels, key);
    if at < labels.len() {
        labels.update(at, Entry { key, value: labels[at].value + ";"@ + value })
    } else {
        labels.push(Entry { key, value })
    }
}

/// The labels that entries make, taken one after the other, each by its
/// sanitized key.
pub open spec fn merged(entries: Seq<Entry>) -> Seq<Entry>
    decreases entries.len(),
{
    if entries.len() == 0 {
        Seq::empty()
    } else {
        absorbed(
            merged(entries.drop_last()),
            sanitized(entries.last().key),
            entries.last().value,
        )
    }
}

/// The labels after each of `more` was taken in, one after the other: a
/// label whose key is there already is joined to the label that has it, any
/// other is added behind.
pub open spec fn absorbed_all(labels: Seq<Entry>, more: Seq<Entry>) -> Seq<Entry>
    decreases more.len(),
{
    if more.len() == 0 {
        labels
    } else {
        absorbed(absorbed_all(labels, more.drop_last()), more.last().key, more.last().value)
    }
}

/// Whether one of the labels has the key.
pub open spec fn has_key(labels: Seq<Entry>, key: Seq<char>) -> bool {
    key_position(labels, key) < labels.len()
}

/// The labels of a set of attributes: the attributes are put in order, then
/// merged.
pub open spec fn labels_of(attributes: Seq<Entry>) -> Seq<Entry> {
    merged(ordered(attributes))
}

/// What stands before a label: `{` before the first, `,` before any other.
pub open spec fn opener(has_written: bool) -> Seq<char> {
    if has_written {
        ","@
    } else {
        "{"@
    }
}

/// What ends the labels: `}` where there was a label, else nothing.
pub open spec fn closer(has_written: bool) -> Seq<char> {
    if has_written {
        "}"@
    } else {
        Seq::empty()
    }
}

/// One label, its value already quoted.
pub open spec fn quoted_label(key: Seq<char>, quoted: Seq<char>) -> Seq<char> {
    key + "="@ + quoted
}

/// The text that writing `labels` adds, `started` telling whether a label was
/// written before them.
pub open spec fn emitted(labels: Seq<Entry>, started: bool) -> Seq<char>
    decreases labels.len(),
{
    if labels.len() == 0 {
        Seq::empty()
    } else {
        emitted(labels.drop_last(), started) + opener(started || labels.len() > 1) + quoted_label(
            labels.last().key,
            debug_quoted(labels.last().value),
        )
    }
}

/// The whole block: nothing where there is no label.
pub open spec fn label_block(labels: Seq<Entry>) -> Seq<char> {
    emitted(labels, false) + closer(labels.len() > 0)
}

/// Writing one label writes what stands before it, then the label.
pub proof fn lemma_emitted_one(label: Entry, started: bool)
    ensures
        emitted(seq![label], started) == opener(started) + quoted_label(
            label.key,
            debug_quoted(label.value),
        ),
{
    let one = seq![label];
    assert(emitted(one.drop_last(), started) =~= Seq::<char>::empty());
}

/// Writing two runs of labels one after the other writes their
/// concatenation.
pub proof fn lemma_emitted_concat(first: Seq<Entry>, second: Seq<Entry>, started: bool)
    ensures
        emitted(first + second, started) == emitted(first, started) + emitted(
            second,
            started || first.len() > 0,
        ),
    decreases second.len(),
{
    if second.len() > 0 {
        lemma_emitted_concat(first, second.drop_last(), started);
        assert((first + second).drop_last() =~= first + second.drop_last());
    } else {
        assert(first + second =~= first);
    }
}

/// The position that `key_position` gives holds the key, and no position
/// before it does.
pub proof fn lemma_key_position(labels: Seq<Entry>, key: Seq<char>)
    ensures
        0 <= key_position(labels, key) <= labels.len(),
        key_position(labels, key) < labels.len() ==> labels[key_position(labels, key)].key == key,
        forall|i: int| 0 <= i < key_position(labels, key) ==> (#[trigger] labels[i]).key != key,
    decreases labels.len(),
{
    if labels.len() > 0 && labels.first().key != key {
        let rest = labels.drop_first();
        lemma_key_position(rest, key);
        assert forall|i: int| 0 <= i < key_position(labels, key) implies (#[trigger] labels[i]).key
            != key by {
            if i > 0 {
                assert(labels[i] == rest[i - 1]);
            }
        }
    }
}

/// A key is the key of one of the labels exactly where `has_key` says so.
pub proof fn lemma_has_key(labels: Seq<Entry>, key: Seq<char>)
    ensures
        has_key(labels, key) <==> exists|i: int|
            0 <= i < labels.len() && (#[trigger] labels[i]).key == key,
{
    lemma_key_position(labels, key);
    if has_key(labels, key) {
        assert(labels[key_position(labels, key)].key == key);
    }
}

/// Taking in a value drops no key: the keys are those that were there, and
/// the key of the value.
pub proof fn lemma_absorbed_keys(
    labels: Seq<Entry>,
    key: Seq<char>,
    value: Seq<char>,
    other: Seq<char>,
)
    ensures
        has_key(absorbed(labels, key, value), other) <==> has_key(labels, other) || other == key,
{
    let after = absorbed(labels, key, value);
    let at = key_position(labels, key);
    lemma_key_position(labels, key);
    lemma_has_key(labels, other);
    lemma_has_key(after, other);
    if has_key(labels, other) {
        let i = choose|i: int| 0 <= i < labels.len() && (#[trigger] labels[i]).key == other;
        assert(after[i].key == other);
    }
    if other == key {
        if at < labels.len() {
            assert(after[at].key == other);
        } else {
            assert(after[labels.len() as int].key == other);
        }
    }
    if has_key(after, other) {
        let i = choose|i: int| 0 <= i < after.len() && (#[trigger] after[i]).key == other;
        if i < labels.len() && i != at {
            assert(labels[i].key == other);
        }
    }
}

/// Taking in labels drops no key: the keys are those that were there, and
/// those of the labels taken in.
pub proof fn lemma_absorbed_all_keys(labels: Seq<Entry>, more: Seq<Entry>, other: Seq<char>)
    ensures
        has_key(absorbed_all(labels, more), other) <==> has_key(labels, other) || has_key(
            more,
            other,
        ),
    decreases more.len(),
{
    lemma_has_key(more, other);
    if more.len() > 0 {
        let front = more.drop_last();
        lemma_absorbed_all_keys(labels, front, other);
        lemma_absorbed_keys(absorbed_all(labels, front), more.last().key, more.last().value, other);
        lemma_has_key(front, other);
        if has_key(front, other) {
            let i = choose|i: int| 0 <= i < front.len() && (#[trigger] front[i]).key == other;
            assert(more[i].key == other);
        }
        if other == more.last().key {
            assert(more[more.len() - 1].key == other);
        }
        if has_key(more, other) {
            let i = choose|i: int| 0 <= i < more.len() && (#[trigger] more[i]).key == other;
            if i < front.len() {
                assert(front[i].key == other);
            }
        }
    }
}

/// Labels whose keys differ from each other and from those that are there
/// are added behind them as they are.
pub proof fn lemma_absorbed_all_apart(labels: Seq<Entry>, more: Seq<Entry>)
    requires
        forall|i: int, j: int|
            0 <= i < j < more.len() ==> (#[trigger] more[i]).key != (#[trigger] more[j]).key,
        forall|i: int| 0 <= i < more.len() ==> !has_key(labels, (#[trigger] more[i]).key),
    ensures
        absorbed_all(labels, more) == labels + more,
    decreases more.len(),
{
    if more.len() > 0 {
        let front = more.drop_last();
        let last = more.last();
        assert forall|i: int, j: int| 0 <= i < j < front.len() implies (#[trigger] front[i]).key != (
        #[trigger] front[j]).key by {
            assert(front[i] == more[i] && front[j] == more[j]);
        }
        assert forall|i: int| 0 <= i < front.len() implies !has_key(
            labels,
            (#[trigger] front[i]).key,
        ) by {
            assert(front[i] == more[i]);
        }
        lemma_absorbed_all_apart(labels, front);
        lemma_absorbed_all_keys(labels, front, last.key);
        lemma_has_key(front, last.key);
        assert(!has_key(labels, more[more.len() - 1].key));
        if has_key(front, last.key) {
            let i = choose|i: int| 0 <= i < front.len() && (#[trigger] front[i]).key == last.key;
            assert(more[i].key == more[more.len() - 1].key);
        }
        assert((labels + front).push(last) =~= labels + more);
    } else {
        assert(labels + more =~= labels);
    }
}

/// No two labels that merging makes have the same key.
pub proof fn lemma_merged_keys_are_distinct(entries: Seq<Entry>)
    ensures
        forall|i: int, j: int|
            0 <= i < j < merged(entries).len() ==> (#[trigger] merged(entries)[i]).key != (
            #[trigger] merged(entries)[j]).key,
    decreases entries.len(),
{
    if entries.len() > 0 {
        let before = merged(entries.drop_last());
        let key = sanitized(entries.last().key);
        lemma_merged_keys_are_distinct(entries.drop_last());
        lemma_key_position(before, key);
        let after = merged(entries);
        let at = key_position(before, key);
        assert forall|i: int, j: int| 0 <= i < j < after.len() implies (#[trigger] after[i]).key != (
        #[trigger] after[j]).key by {
            if at < before.len() {
                assert(after[i].key == before[i].key);
                assert(after[j].key == before[j].key);
            } else if j < before.len() {
                assert(after[j] == before[j]);
            } else {
                assert(before[i].key != key);
            }
        }
    }
}

/// Merging drops no key: each entry's sanitized key is the key of a label.
pub proof fn lemma_merged_keeps_every_key(entries: Seq<Entry>, i: int)
    requires
        0 <= i < entries.len(),
    ensures
        key_position(merged(entries), sanitized(entries[i].key)) < merged(entries).len(),
    decreases entries.len(),
{
    let before = merged(entries.drop_last());
    let last_key = sanitized(entries.last().key);
    let key = sanitized(entries[i].key);
    let after = merged(entries);
    let at = key_position(before, last_key);
    lemma_key_position(before, last_key);
    lemma_key_position(after, key);
    if i < entries.len() - 1 {
        lemma_merged_keeps_every_key(entries.drop_last(), i);
        lemma_key_position(before, key);
        let p = key_position(before, key);
        assert(after[p].key == key);
    } else {
        if at < before.len() {
            assert(after[at].key == key);
        } else {
            assert(after[before.len() as int].key == key);
        }
    }
}

/// The labels of a set of attributes do not depend on the order in which the
/// attributes are given.
pub proof fn lemma_labels_ignore_given_order(first: Seq<Entry>, second: Seq<Entry>)
    requires
        first.to_multiset() == second.to_multiset(),
    ensures
        labels_of(first) == labels_of(second),
{
    lemma_entry_order_is_total();
    first.lemma_sort_by_ensures(entry_order());
    second.lemma_sort_by_ensures(entry_order());
    lemma_sorted_unique(ordered(first), ordered(second), entry_order());
}

/// One attribute makes one label: its sanitized key with its value.
pub proof fn lemma_single_attribute_label(x: Entry)
    ensures
        labels_of(seq![x]) == seq![Entry { key: sanitized(x.key), value: x.value }],
{
    let one = seq![x];
    lemma_entry_order_is_total();
    one.lemma_sort_by_ensures(entry_order());
    assert(sorted_by(one, entry_order()));
    lemma_sorted_unique(ordered(one), one, entry_order());
    assert(merged(one.drop_last()) =~= Seq::<Entry>::empty());
    assert(merged(one) =~= seq![Entry { key: sanitized(x.key), value: x.value }]);
}

/// Two attributes whose keys differ and come to the same sanitized key make
/// one label. Its value is the value of the attribute whose key comes first,
/// then `;`, then the other value: whichever way round they are given.
pub proof fn lemma_colliding_pair_is_joined(x: Entry, y: Entry)
    requires
        x.key != y.key,
        entry_le(x, y),
        sanitized(x.key) == sanitized(y.key),
    ensures
        labels_of(seq![x, y]) == seq![
            Entry { key: sanitized(x.key), value: x.value + ";"@ + y.value },
        ],
        labels_of(seq![y, x]) == labels_of(seq![x, y]),
{
    let order = entry_order();
    let pair = seq![x, y];
    lemma_entry_order_is_total();
    pair.lemma_sort_by_ensures(order);
    assert(sorted_by(pair, order));
    lemma_sorted_unique(ordered(pair), pair, order);
    assert(seq![y, x].to_multiset() =~= pair.to_multiset()) by {
        vstd::seq_lib::to_multiset_build(seq![y], x);
        vstd::seq_lib::to_multiset_build(seq![x], y);
        vstd::seq_lib::to_multiset_build(Seq::<Entry>::empty(), x);
        vstd::seq_lib::to_multiset_build(Seq::<Entry>::empty(), y);
        assert(seq![y, x] =~= seq![y].push(x));
        assert(pair =~= seq![x].push(y));
    }
    lemma_labels_ignore_given_order(seq![y, x], pair);
    let key = sanitized(x.key);
    let one = pair.drop_last();
    assert(merged(one.drop_last()) =~= Seq::<Entry>::empty());
    assert(merged(one) =~= seq![Entry { key, value: x.value }]);
}

/// Where the first label with the key `key` stands, or the number of labels
/// where none has it.
pub fn find_key(labels: &Vec<Attribute>, key: &str) -> (at: usize)
    ensures
        at <= labels.len(),
        at == key_position(labels.deep_view(), key@),
{
    let ghost all = labels.deep_view();
    let mut at: usize = 0;
    proof {
        assert(all.subrange(0, all.len() as int) =~= all);
    }
    while at < labels.len()
        invariant
            at <= labels.len(),
            all == labels.deep_view(),
            key_position(all, key@) == at + key_position(
                all.subrange(at as int, all.len() as int),
                key@,
            ),
        ensures
            at <= labels.len(),
            at == key_position(all, key@),
        decreases labels.len() - at,
    {
        let ghost rest = all.subrange(at as int, all.len() as int);
        if text_eq(labels[at].key.as_str(), key) {
            break ;
        }
        proof {
            assert(rest.drop_first() =~= all.subrange(at + 1, all.len() as int));
        }
        at += 1;
    }
    at
}

/// Takes one more value for `key` into the labels.
pub fn absorb(labels: &mut Vec<Attribute>, key: &str, value: &str)
    ensures
        final(labels).deep_view() == absorbed(old(labels).deep_view(), key@, value@),
{
    let at = find_key(labels, key);
    if at < labels.len() {
        let mut joined = labels[at].value.clone();
        joined.append(";");
        joined.append(value);
        labels.set(at, Attribute { key: String::from_str(key), value: joined });
    } else {
        labels.push(Attribute { key: String::from_str(key), value: String::from_str(value) });
    }
}

/// The labels of a set of attributes.
pub fn merge_labels(attributes: &Vec<Attribute>) -> (labels: Vec<Attribute>)
    ensures
        labels.deep_view() == labels_of(attributes.deep_view()),
{
    let sorted = sort_attributes(attributes);
    let ghost entries = sorted.deep_view();
    let mut labels: Vec<Attribute> = Vec::new();
    let mut i: usize = 0;
    while i < sorted.len()
        invariant
            i <= sorted.len(),
            entries == sorted.deep_view(),
            labels.deep_view() == merged(entries.take(i as int)),
        decreases sorted.len() - i,
    {
        let key = sanitize_name(sorted[i].key.as_str());
        proof {
            assert(entries.take(i + 1).drop_last() =~= entries.take(i as int));
        }
        absorb(&mut labels, cow_text(&key), sorted[i].value.as_str());
        i += 1;
    }
    proof {
        assert(entries.take(sorted.len() as int) =~= entries);
    }
    labels
}

/// Takes each of `more` into the labels, one after the other.
pub fn absorb_all(labels: &mut Vec<Attribute>, more: &Vec<Attribute>)
    ensures
        final(labels).deep_view() == absorbed_all(old(labels).deep_view(), more.deep_view()),
{
    let ghost all = more.deep_view();
    let mut i: usize = 0;
    while i < more.len()
        invariant
            i <= more.len(),
            all == more.deep_view(),
            labels.deep_view() == absorbed_all(old(labels).deep_view(), all.take(i as int)),
        decreases more.len() - i,
    {
        proof {
            assert(all.take(i + 1).drop_last() =~= all.take(i as int));
            assert(all.take(i + 1).last() == more@[i as int].deep_view());
        }
        absorb(labels, more[i].key.as_str(), more[i].value.as_str());
        i += 1;
    }
    proof {
        assert(all.take(more.len() as int) =~= all);
    }
}

/// Writes labels one by one, with the brackets around them and the commas
/// between them.
pub struct LabelWriter<'a> {
    /// Where the labels go.
    pub writer: &'a mut String,
    /// Whether a label was written.
    pub has_written: bool,
}

impl<'a> LabelWriter<'a> {
    /// A writer that adds to `writer`. Nothing is written yet.
    pub fn new(writer: &'a mut String) -> (labels: Self)
        ensures
            labels.writer@ == old(writer)@,
            *final(labels.writer) == *final(writer),
            !labels.has_written,
    {
        LabelWriter { writer, has_written: false }
    }

    /// Writes one label whose value is quoted already.
    pub fn emit_quoted(&mut self, key: &str, quoted: &str)
        ensures
            final(self).writer@ == old(self).writer@ + opener(old(self).has_written) + quoted_label(
                key@,
                quoted@,
            ),
            final(self).has_written,
            *final(final(self).writer) == *final(old(self).writer),
    {
        if !self.has_written {
            self.has_written = true;
            self.writer.append("{");
        } else {
            self.writer.append(",");
        }
        self.writer.append(key);
        self.writer.append("=");
        self.writer.append(quoted);
    }

    /// Writes one label: the key, `=`, and the value between quotes.
    pub fn emit(&mut self, key: &str, value: &str)
        ensures
            final(self).writer@ == old(self).writer@ + opener(old(self).has_written) + quoted_label(
                key@,
                debug_quoted(value@),
            ),
            final(self).has_written,
            *final(final(self).writer) == *final(old(self).writer),
    {
        let quoted = debug_quote(value);
        self.emit_quoted(key, quoted.as_str());
    }

    /// Writes the labels of `labels` in their order.
    pub fn emit_all(&mut self, labels: &Vec<Attribute>)
        ensures
            final(self).writer@ == old(self).writer@ + emitted(
                labels.deep_view(),
                old(self).has_written,
            ),
            final(self).has_written == (old(self).has_written || labels.len() > 0),
            *final(final(self).writer) == *final(old(self).writer),
    {
        let ghost all = labels.deep_view();
        let ghost started = self.has_written;
        let mut i: usize = 0;
        while i < labels.len()
            invariant
                i <= labels.len(),
                all == labels.deep_view(),
                started == old(self).has_written,
                self.writer@ == old(self).writer@ + emitted(all.take(i as int), started),
                self.has_written == (started || i > 0),
                *final(self.writer) == *final(old(self).writer),
            decreases labels.len() - i,
        {
            proof {
                assert(all.take(i + 1).drop_last() =~= all.take(i as int));
            }
            self.emit(labels[i].key.as_str(), labels[i].value.as_str());
            i += 1;
        }
        proof {
            assert(all.take(labels.len() as int) =~= all);
        }
    }

    /// Ends the labels: writes `}` where a label was written.
    pub fn finish(self)
        ensures
            final(self.writer)@ == old(self.writer)@ + closer(self.has_written),
    {
        if self.has_written {
            self.writer.append("}");
        }
    }
}

/// Writes the labels that a set of attributes makes.
pub fn write_attributes_as_labels(attributes: &Vec<Attribute>, label_writer: &mut LabelWriter)
    ensures
        final(label_writer).writer@ == old(label_writer).writer@ + emitted(
            labels_of(attributes.deep_view()),
            old(label_writer).has_written,
        ),
        final(label_writer).has_written == (old(label_writer).has_written || labels_of(
            attributes.deep_view(),
        ).len() > 0),
        *final(final(label_writer).writer) == *final(old(label_writer).writer),
{
    let labels = merge_labels(attributes);
    label_writer.emit_all(&labels);
}

} // verus!
