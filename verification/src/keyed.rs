//! Collections keyed by text and kept in key order.
//!
//! A store keeps its records in a vector sorted by key, strictly ascending,
//! so that no key occurs twice and the last record has the greatest key.
//! What such a vector holds is the map from each key to its record.

use vstd::prelude::*;
use crate::ident::{ProjectId, TicketId};
use crate::project::Project;
use crate::text::{
    lemma_order_facts,
    lemma_precedes_transitive,
    precedes,
    rank_text,
    Rank,
};
use crate::ticket::Ticket;

verus! {

/// A record that is filed under a text key.
pub trait Keyed {
    /// The key of the record.
    spec fn key_spec(&self) -> Seq<char>;

    /// The key of the record.
    fn key(&self) -> (key: &str)
        ensures
            key@ == self.key_spec(),
    ;
}

impl Keyed for Ticket {
    open spec fn key_spec(&self) -> Seq<char> {
        self.id@
    }

    fn key(&self) -> (key: &str) {
        self.id.as_str()
    }
}

impl Keyed for Project {
    open spec fn key_spec(&self) -> Seq<char> {
        self.id@
    }

    fn key(&self) -> (key: &str) {
        self.id.as_str()
    }
}

/// Whether the records stand in strictly ascending order of their keys.
pub open spec fn ascending<T: Keyed>(items: Seq<T>) -> bool {
    forall|i: int, j: int|
        0 <= i < j < items.len() ==> precedes(
            (#[trigger] items[i]).key_spec(),
            (#[trigger] items[j]).key_spec(),
        )
}

/// The map that filing the records one after the other under their keys
/// gives: where two records share a key, the later one stays.
pub open spec fn as_map<T: Keyed>(items: Seq<T>) -> Map<Seq<char>, T>
    decreases items.len(),
{
    if items.len() == 0 {
        Map::empty()
    } else {
        as_map(items.drop_last()).insert(items.last().key_spec(), items.last())
    }
}

/// Whether some record carries the key.
pub open spec fn has_key<T: Keyed>(items: Seq<T>, key: Seq<char>) -> bool {
    exists|i: int| 0 <= i < items.len() && (#[trigger] items[i]).key_spec() == key
}

/// The keys of the map of a sequence are the keys of its records.
pub proof fn lemma_as_map_keys<T: Keyed>(items: Seq<T>, key: Seq<char>)
    ensures
        as_map(items).contains_key(key) <==> has_key(items, key),
    decreases items.len(),
{
    if items.len() > 0 {
        let front = items.drop_last();
        lemma_as_map_keys(front, key);
        if has_key(items, key) {
            let i = choose|i: int| 0 <= i < items.len() && (#[trigger] items[i]).key_spec() == key;
            if i < front.len() {
                assert(front[i].key_spec() == key);
            }
        }
        if has_key(front, key) {
            let i = choose|i: int| 0 <= i < front.len() && (#[trigger] front[i]).key_spec() == key;
            assert(items[i].key_spec() == key);
        }
        if items.last().key_spec() == key {
            assert(items[items.len() - 1].key_spec() == key);
        }
    }
}

/// The map of a sequence holds, under a key, the last record with that key.
pub proof fn lemma_as_map_value<T: Keyed>(items: Seq<T>, i: int)
    requires
        0 <= i < items.len(),
        forall|j: int| i < j < items.len() ==> (#[trigger] items[j]).key_spec() != items[i].key_spec(),
    ensures
        as_map(items).contains_key(items[i].key_spec()),
        as_map(items)[items[i].key_spec()] == items[i],
    decreases items.len(),
{
    let front = items.drop_last();
    if i < items.len() - 1 {
        assert(items[items.len() - 1].key_spec() != items[i].key_spec());
        assert(front[i] == items[i]);
        assert forall|j: int| i < j < front.len() implies (#[trigger] front[j]).key_spec()
            != front[i].key_spec() by {
            assert(front[j] == items[j]);
        }
        lemma_as_map_value(front, i);
    }
}

/// In an ascending sequence no two records share a key.
pub proof fn lemma_ascending_distinct<T: Keyed>(items: Seq<T>, i: int, j: int)
    requires
        ascending(items),
        0 <= i < items.len(),
        0 <= j < items.len(),
        i != j,
    ensures
        items[i].key_spec() != items[j].key_spec(),
{
    lemma_order_facts(items[i].key_spec(), items[j].key_spec());
    if i < j {
        assert(precedes(items[i].key_spec(), items[j].key_spec()));
    } else {
        assert(precedes(items[j].key_spec(), items[i].key_spec()));
    }
}

/// In an ascending sequence the map holds each record under its key.
pub proof fn lemma_ascending_entries<T: Keyed>(items: Seq<T>, i: int)
    requires
        ascending(items),
        0 <= i < items.len(),
    ensures
        as_map(items).contains_key(items[i].key_spec()),
        as_map(items)[items[i].key_spec()] == items[i],
{
    assert forall|j: int| i < j < items.len() implies (#[trigger] items[j]).key_spec()
        != items[i].key_spec() by {
        lemma_ascending_distinct(items, i, j);
    }
    lemma_as_map_value(items, i);
}

/// The last record of an ascending sequence has the greatest key.
pub proof fn lemma_ascending_last<T: Keyed>(items: Seq<T>, i: int)
    requires
        ascending(items),
        0 <= i < items.len(),
    ensures
        items[i].key_spec() == items.last().key_spec() || precedes(
            items[i].key_spec(),
            items.last().key_spec(),
        ),
{
    if i < items.len() - 1 {
        assert(precedes(items[i].key_spec(), items[items.len() - 1].key_spec()));
    }
}

/// Without its last record, an ascending sequence is still ascending, and
/// its map is without the last record's key.
pub proof fn lemma_as_map_drop_last<T: Keyed>(items: Seq<T>)
    requires
        ascending(items),
        items.len() > 0,
    ensures
        ascending(items.drop_last()),
        as_map(items.drop_last()) == as_map(items).remove(items.last().key_spec()),
{
    let front = items.drop_last();
    let key = items.last().key_spec();
    assert forall|i: int, j: int| 0 <= i < j < front.len() implies precedes(
        (#[trigger] front[i]).key_spec(),
        (#[trigger] front[j]).key_spec(),
    ) by {
        assert(front[i] == items[i] && front[j] == items[j]);
    }
    lemma_as_map_keys(front, key);
    if has_key(front, key) {
        let i = choose|i: int| 0 <= i < front.len() && (#[trigger] front[i]).key_spec() == key;
        assert(front[i] == items[i]);
        lemma_ascending_distinct(items, i, items.len() - 1);
    }
    assert(as_map(front) =~= as_map(front).insert(key, items.last()).remove(key));
}

/// A store's listing is fixed by what it holds: two ascending sequences
/// with the same map are the same sequence.
pub proof fn law_ascending_fixed_by_map<T: Keyed>(a: Seq<T>, b: Seq<T>)
    requires
        ascending(a),
        ascending(b),
        as_map(a) == as_map(b),
    ensures
        a == b,
    decreases a.len(),
{
    if a.len() == 0 || b.len() == 0 {
        if a.len() > 0 {
            lemma_ascending_entries(a, 0);
        }
        if b.len() > 0 {
            lemma_ascending_entries(b, 0);
        }
        assert(a =~= b);
    } else {
        let last_a = a.last().key_spec();
        let last_b = b.last().key_spec();
        lemma_ascending_entries(a, a.len() - 1);
        lemma_ascending_entries(b, b.len() - 1);
        lemma_as_map_keys(b, last_a);
        lemma_as_map_keys(a, last_b);
        let j = choose|j: int| 0 <= j < b.len() && (#[trigger] b[j]).key_spec() == last_a;
        let i = choose|i: int| 0 <= i < a.len() && (#[trigger] a[i]).key_spec() == last_b;
        lemma_ascending_last(b, j);
        lemma_ascending_last(a, i);
        lemma_order_facts(last_a, last_b);
        assert(last_a == last_b);
        assert(a.last() == b.last());
        lemma_as_map_drop_last(a);
        lemma_as_map_drop_last(b);
        law_ascending_fixed_by_map(a.drop_last(), b.drop_last());
        assert(a =~= a.drop_last().push(a.last()));
        assert(b =~= b.drop_last().push(b.last()));
    }
}

/// The position of the record with the given key in an ascending vector.
pub(crate) fn find<T: Keyed>(items: &Vec<T>, key: &str) -> (found: Option<usize>)
    requires
        ascending(items@),
    ensures
        match found {
            Some(i) => i < items.len() && items[i as int].key_spec() == key@,
            None => !has_key(items@, key@),
        },
{
    let mut i: usize = 0;
    while i < items.len()
        invariant
            i <= items.len(),
            ascending(items@),
            forall|j: int| 0 <= j < i ==> precedes((#[trigger] items[j]).key_spec(), key@),
        decreases items.len() - i,
    {
        match rank_text(items[i].key(), key) {
            Rank::Before => {},
            Rank::Same => {
                return Some(i);
            },
            Rank::After => {
                assert forall|j: int| 0 <= j < items.len() implies (#[trigger] items[j]).key_spec()
                    != key@ by {
                    lemma_order_facts(items[j].key_spec(), key@);
                    if j > i {
                        assert(precedes(items[i as int].key_spec(), items[j].key_spec()));
                        lemma_precedes_transitive(
                            key@,
                            items[i as int].key_spec(),
                            items[j].key_spec(),
                        );
                    }
                }
                return None;
            },
        }
        i += 1;
    }
    assert forall|j: int| 0 <= j < items.len() implies (#[trigger] items[j]).key_spec() != key@ by {
        lemma_order_facts(items[j].key_spec(), key@);
    }
    None
}

/// Files a record in an ascending vector: in place of the record that has
/// its key, if there is one, else at the place that keeps the order.
pub(crate) fn upsert<T: Keyed>(items: &mut Vec<T>, item: T)
    requires
        ascending(old(items)@),
    ensures
        ascending(final(items)@),
        as_map(final(items)@) == as_map(old(items)@).insert(item.key_spec(), item),
{
    let ghost key = item.key_spec();
    let mut at: usize = 0;
    let mut replace = false;
    while at < items.len()
        invariant_except_break
            !replace,
        invariant
            at <= items.len(),
            items@ == old(items)@,
            ascending(items@),
            key == item.key_spec(),
            forall|j: int| 0 <= j < at ==> precedes((#[trigger] items[j]).key_spec(), key),
        ensures
            at <= items.len(),
            items@ == old(items)@,
            forall|j: int| 0 <= j < at ==> precedes((#[trigger] items[j]).key_spec(), key),
            replace ==> at < items.len() && items[at as int].key_spec() == key,
            !replace ==> forall|j: int|
                at <= j < items.len() ==> precedes(key, (#[trigger] items[j]).key_spec()),
        decreases items.len() - at,
    {
        match rank_text(items[at].key(), item.key()) {
            Rank::Before => {},
            Rank::Same => {
                replace = true;
                break ;
            },
            Rank::After => {
                assert forall|j: int| at <= j < items.len() implies precedes(
                    key,
                    (#[trigger] items[j]).key_spec(),
                ) by {
                    if j > at {
                        assert(precedes(items[at as int].key_spec(), items[j].key_spec()));
                        lemma_precedes_transitive(
                            key,
                            items[at as int].key_spec(),
                            items[j].key_spec(),
                        );
                    }
                }
                break ;
            },
        }
        at += 1;
    }
    let ghost before = items@;
    if replace {
        items[at] = item;
        proof {
            lemma_replaced(before, items@, at as int, item);
        }
    } else {
        items.insert(at, item);
        proof {
            lemma_inserted(before, items@, at as int, item);
        }
    }
}

/// Replacing a record of an ascending sequence by one with the same key
/// keeps the order and files the new record in the map.
pub proof fn lemma_replaced<T: Keyed>(before: Seq<T>, after: Seq<T>, at: int, item: T)
    requires
        ascending(before),
        0 <= at < before.len(),
        before[at].key_spec() == item.key_spec(),
        after == before.update(at, item),
    ensures
        ascending(after),
        as_map(after) == as_map(before).insert(item.key_spec(), item),
{
    assert forall|i: int, j: int| 0 <= i < j < after.len() implies precedes(
        (#[trigger] after[i]).key_spec(),
        (#[trigger] after[j]).key_spec(),
    ) by {
        assert(after[i].key_spec() == before[i].key_spec());
        assert(after[j].key_spec() == before[j].key_spec());
    }
    let expected = as_map(before).insert(item.key_spec(), item);
    assert forall|key: Seq<char>| as_map(after).contains_key(key) <==> expected.contains_key(
        key,
    ) by {
        lemma_as_map_keys(after, key);
        lemma_as_map_keys(before, key);
        if has_key(after, key) {
            let i = choose|i: int| 0 <= i < after.len() && (#[trigger] after[i]).key_spec() == key;
            assert(before[i].key_spec() == key);
        }
        if has_key(before, key) {
            let i = choose|i: int|
                0 <= i < before.len() && (#[trigger] before[i]).key_spec() == key;
            assert(after[i].key_spec() == key);
        }
        if key == item.key_spec() {
            assert(after[at].key_spec() == key);
        }
    }
    assert forall|key: Seq<char>| as_map(after).contains_key(key) implies as_map(after)[key]
        == expected[key] by {
        lemma_as_map_keys(after, key);
        let i = choose|i: int| 0 <= i < after.len() && (#[trigger] after[i]).key_spec() == key;
        lemma_ascending_entries(after, i);
        if i != at {
            assert(before[i] == after[i]);
            lemma_ascending_entries(before, i);
            lemma_ascending_distinct(before, i, at);
        }
    }
    assert(as_map(after) =~= expected);
}

/// Inserting a record with a new key into an ascending sequence, between
/// the smaller and the greater keys, keeps the order and files the record
/// in the map.
pub proof fn lemma_inserted<T: Keyed>(before: Seq<T>, after: Seq<T>, at: int, item: T)
    requires
        ascending(before),
        0 <= at <= before.len(),
        forall|j: int| 0 <= j < at ==> precedes((#[trigger] before[j]).key_spec(), item.key_spec()),
        forall|j: int|
            at <= j < before.len() ==> precedes(item.key_spec(), (#[trigger] before[j]).key_spec()),
        after == before.insert(at, item),
    ensures
        ascending(after),
        as_map(after) == as_map(before).insert(item.key_spec(), item),
{
    assert forall|i: int, j: int| 0 <= i < j < after.len() implies precedes(
        (#[trigger] after[i]).key_spec(),
        (#[trigger] after[j]).key_spec(),
    ) by {
        if j < at {
            assert(after[i] == before[i] && after[j] == before[j]);
        } else if j == at {
            assert(after[i] == before[i]);
        } else if i < at {
            assert(after[i] == before[i] && after[j] == before[j - 1]);
        } else if i == at {
            assert(after[j] == before[j - 1]);
        } else {
            assert(after[i] == before[i - 1] && after[j] == before[j - 1]);
        }
    }
    let expected = as_map(before).insert(item.key_spec(), item);
    assert forall|key: Seq<char>| as_map(after).contains_key(key) <==> expected.contains_key(
        key,
    ) by {
        lemma_as_map_keys(after, key);
        lemma_as_map_keys(before, key);
        if has_key(after, key) {
            let i = choose|i: int| 0 <= i < after.len() && (#[trigger] after[i]).key_spec() == key;
            if i < at {
                assert(before[i].key_spec() == key);
            } else if i > at {
                assert(before[i - 1].key_spec() == key);
            }
        }
        if has_key(before, key) {
            let i = choose|i: int|
                0 <= i < before.len() && (#[trigger] before[i]).key_spec() == key;
            if i < at {
                assert(after[i].key_spec() == key);
            } else {
                assert(after[i + 1].key_spec() == key);
            }
        }
        if key == item.key_spec() {
            assert(after[at].key_spec() == key);
        }
    }
    assert forall|key: Seq<char>| as_map(after).contains_key(key) implies as_map(after)[key]
        == expected[key] by {
        lemma_as_map_keys(after, key);
        let i = choose|i: int| 0 <= i < after.len() && (#[trigger] after[i]).key_spec() == key;
        lemma_ascending_entries(after, i);
        if i < at {
            assert(before[i] == after[i]);
            lemma_ascending_entries(before, i);
            lemma_order_facts(before[i].key_spec(), item.key_spec());
        } else if i > at {
            assert(before[i - 1] == after[i]);
            lemma_ascending_entries(before, i - 1);
            lemma_order_facts(before[i - 1].key_spec(), item.key_spec());
        }
    }
    assert(as_map(after) =~= expected);
}

/// Files records in key order. Where two records share a key, the later one
/// stays and the earlier one is dropped.
pub fn index<T: Keyed>(records: Vec<T>) -> (items: Vec<T>)
    ensures
        ascending(items@),
        as_map(items@) == as_map(records@),
{
    let mut items: Vec<T> = Vec::new();
    for record in it: records
        invariant
            it.seq() == records@,
            ascending(items@),
            as_map(items@) == as_map(records@.take(it.index() as int)),
    {
        proof {
            let seen = records@.take(it.index() + 1);
            assert(seen.drop_last() =~= records@.take(it.index() as int));
            assert(seen.last() == record);
        }
        upsert(&mut items, record);
    }
    assert(records@.take(records@.len() as int) =~= records@);
    items
}

} // verus!
