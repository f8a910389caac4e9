//! The order in which records are listed: newest first.
//!
//! A record is as recent as the number under its `timestamp` says, read as a
//! double; a record without such a number counts as 0. The library holds no
//! floating-point value. It works on the bit pattern of the double and on an
//! integer key made from it: for two finite doubles the greater one has the
//! greater key, and equal ones (the two zeros among them) have the same key.
//! A JSON number is always finite.

use crate::json::{double_reading, json_of, member, member_of, reading_of, Json};
use vstd::prelude::*;

verus! {

/// The least bit pattern with the sign bit set.
pub const SIGN_BIT: u64 = 0x8000_0000_0000_0000;

/// The integer by which a double, given as its bit pattern, is ordered: the
/// pattern itself for a double without sign, the negated rest of the pattern
/// for one with a sign.
pub open spec fn order_key(bits: u64) -> int {
    if bits < SIGN_BIT {
        bits as int
    } else {
        SIGN_BIT - bits
    }
}

/// The timestamp that orders a document, as the bit pattern of a double: the
/// number under `timestamp`, or 0 where the document is no object, has no
/// such member, or has one that is no number.
pub open spec fn timestamp_bits(doc: Json) -> u64 {
    match member_of(doc, "timestamp"@) {
        Some(stamp) => match reading_of(stamp) {
            Some(bits) => bits,
            None => 0,
        },
        None => 0,
    }
}

/// How recent a document is: the key of its timestamp.
pub open spec fn recency(doc: Json) -> int {
    order_key(timestamp_bits(doc))
}

/// Whether documents stand newest first: no document is more recent than one
/// that stands before it.
pub open spec fn newest_first(docs: Seq<Json>) -> bool {
    forall|i: int, j: int| 0 <= i < j < docs.len() ==> recency(docs[i]) >= recency(docs[j])
}

/// The documents of a sequence that are exactly this recent, in their order.
pub open spec fn among(docs: Seq<Json>, key: int) -> Seq<Json> {
    docs.filter(|doc: Json| recency(doc) == key)
}

/// Whether two sequences hold the same documents and agree on the order of
/// those that are equally recent: for every key, the documents of that
/// recency are the same in both, in the same order.
pub open spec fn same_order_among_equals(a: Seq<Json>, b: Seq<Json>) -> bool {
    forall|key: int| #[trigger] among(a, key) == among(b, key)
}

/// What each value of a sequence holds.
pub open spec fn models(values: Seq<serde_json::Value>) -> Seq<Json> {
    values.map_values(|v: serde_json::Value| json_of(v))
}

/// The integer by which a double, given as its bit pattern, is ordered.
pub fn sort_key(bits: u64) -> (key: i64)
    ensures
        key == order_key(bits),
{
    if bits < SIGN_BIT {
        bits as i64
    } else {
        let rest: u64 = bits - SIGN_BIT;
        -(rest as i64)
    }
}

/// The key orders bit patterns as the doubles they stand for are ordered.
/// Among patterns without sign the key rises with the pattern, among those
/// with a sign it falls, and no pattern with a sign has a greater key than
/// one without. The two patterns of zero share the key 0; no other two
/// patterns share a key.
pub proof fn lemma_order_key(a: u64, b: u64)
    ensures
        a < SIGN_BIT && b < SIGN_BIT ==> (a < b <==> order_key(a) < order_key(b)),
        a >= SIGN_BIT && b >= SIGN_BIT ==> (a < b <==> order_key(a) > order_key(b)),
        a >= SIGN_BIT && b < SIGN_BIT ==> order_key(a) <= order_key(b),
        order_key(a) == 0 <==> a == 0 || a == SIGN_BIT,
        order_key(a) == order_key(b) <==> a == b || (order_key(a) == 0 && order_key(b) == 0),
{
}

/// How recent a record is.
pub fn recency_of(record: &serde_json::Value) -> (key: i64)
    ensures
        key == recency(json_of(*record)),
{
    let bits: u64 = match member(record, "timestamp") {
        Some(stamp) => match double_reading(stamp) {
            Some(bits) => bits,
            None => 0,
        },
        None => 0,
    };
    sort_key(bits)
}

/// Moving one element from the end of what is left to any place of what is
/// done changes nothing in what the two hold together.
proof fn lemma_move_keeps_all<A>(done: Seq<A>, left: Seq<A>, place: int, item: A)
    requires
        0 <= place <= done.len(),
    ensures
        done.insert(place, item).to_multiset().add(left.to_multiset()) == done.to_multiset().add(
            left.push(item).to_multiset(),
        ),
{
    broadcast use vstd::multiset::group_multiset_axioms;

    vstd::seq_lib::to_multiset_insert(done, place, item);
    vstd::seq_lib::to_multiset_build(left, item);
    assert(done.to_multiset().insert(item).add(left.to_multiset()) =~= done.to_multiset().add(
        left.to_multiset().insert(item),
    ));
}

/// Moving one element from the end of what is left to a place of what is
/// done, behind nothing of its own kind, keeps the order within the kind:
/// what is left stands before what is done.
proof fn lemma_move_keeps_order<A>(
    done: Seq<A>,
    left: Seq<A>,
    place: int,
    item: A,
    kind: spec_fn(A) -> bool,
)
    requires
        0 <= place <= done.len(),
        kind(item) ==> forall|i: int| 0 <= i < place ==> !kind(done[i]),
    ensures
        left.filter(kind) + done.insert(place, item).filter(kind) == left.push(item).filter(kind)
            + done.filter(kind),
{
    let head = done.take(place);
    let tail = done.skip(place);
    assert(done =~= head + tail);
    assert(done.insert(place, item) =~= head.push(item) + tail);
    Seq::filter_distributes_over_add(head, tail, kind);
    Seq::filter_distributes_over_add(head.push(item), tail, kind);
    head.lemma_filter_push(item, kind);
    left.lemma_filter_push(item, kind);
    if kind(item) {
        assert(head.all(|x: A| !kind(x))) by {
            assert forall|i: int| 0 <= i < head.len() implies !kind(head[i]) by {
                assert(head[i] == done[i]);
            }
        }
        head.lemma_all_neg_filter_empty(kind);
        assert(head.filter(kind) =~= Seq::<A>::empty());
        assert(left.filter(kind) + (head.filter(kind).push(item) + tail.filter(kind))
            =~= left.filter(kind).push(item) + (head.filter(kind) + tail.filter(kind)));
    }
}

/// A sequence without elements adds nothing to what another one holds.
proof fn lemma_empty_adds_nothing<A>(all: Seq<A>, none: Seq<A>)
    requires
        none.len() == 0,
    ensures
        all.to_multiset().add(none.to_multiset()) == all.to_multiset(),
        none.to_multiset().add(all.to_multiset()) == all.to_multiset(),
{
    broadcast use vstd::multiset::group_multiset_axioms;

    vstd::seq_lib::to_multiset_len(none);
    vstd::multiset::lemma_multiset_empty_len(none.to_multiset());
    assert(all.to_multiset().add(none.to_multiset()) =~= all.to_multiset());
    assert(none.to_multiset().add(all.to_multiset()) =~= all.to_multiset());
}

/// Puts records in the order of a listing: newest first. The result holds
/// the same records, each as often as before. Records that are equally
/// recent keep the order in which they came.
pub fn sort_newest_first(records: Vec<serde_json::Value>) -> (sorted: Vec<serde_json::Value>)
    ensures
        sorted@.len() == records@.len(),
        sorted@.to_multiset() == records@.to_multiset(),
        models(sorted@).to_multiset() == models(records@).to_multiset(),
        newest_first(models(sorted@)),
        same_order_among_equals(models(sorted@), models(records@)),
{
    let mut rest = records;
    let mut sorted: Vec<serde_json::Value> = Vec::new();
    let mut keys: Vec<i64> = Vec::new();
    proof {
        lemma_empty_adds_nothing(rest@, sorted@);
        lemma_empty_adds_nothing(models(rest@), models(sorted@));
        assert forall|key: int| #[trigger]
            among(models(records@), key) == among(models(rest@), key) + among(
                models(sorted@),
                key,
            ) by {
            models(sorted@).lemma_filter_len(|doc: Json| recency(doc) == key);
            assert(among(models(rest@), key) + among(models(sorted@), key) =~= among(
                models(rest@),
                key,
            ));
        }
    }
    while rest.len() > 0
        invariant
            sorted@.to_multiset().add(rest@.to_multiset()) == records@.to_multiset(),
            models(sorted@).to_multiset().add(models(rest@).to_multiset()) == models(
                records@,
            ).to_multiset(),
            keys@.len() == sorted@.len(),
            forall|i: int| 0 <= i < keys@.len() ==> keys@[i] == recency(json_of(sorted@[i])),
            forall|i: int, j: int| 0 <= i < j < keys@.len() ==> keys@[i] >= keys@[j],
            forall|key: int| #[trigger]
                among(models(records@), key) == among(models(rest@), key) + among(
                    models(sorted@),
                    key,
                ),
        decreases rest.len(),
    {
        let ghost rest_before = rest@;
        let ghost sorted_before = sorted@;
        let ghost keys_before = keys@;
        let record = rest.pop().unwrap();
        let key: i64 = recency_of(&record);
        let mut place: usize = 0;
        while place < keys.len() && keys[place] > key
            invariant
                place <= keys@.len(),
                forall|i: int| 0 <= i < place ==> keys@[i] > key,
            decreases keys@.len() - place,
        {
            place += 1;
        }
        sorted.insert(place, record);
        keys.insert(place, key);
        proof {
            assert(rest_before =~= rest@.push(record));
            assert(models(rest_before) =~= models(rest@).push(json_of(record)));
            assert(models(sorted@) =~= models(sorted_before).insert(place as int, json_of(record)));
            lemma_move_keeps_all(sorted_before, rest@, place as int, record);
            lemma_move_keeps_all(
                models(sorted_before),
                models(rest@),
                place as int,
                json_of(record),
            );
            assert forall|key: int| #[trigger]
                among(models(records@), key) == among(models(rest@), key) + among(
                    models(sorted@),
                    key,
                ) by {
                assert(among(models(records@), key) == among(models(rest_before), key) + among(
                    models(sorted_before),
                    key,
                ));
                assert forall|i: int| 0 <= i < place implies recency(models(sorted_before)[i])
                    != key || recency(json_of(record)) != key by {
                    assert(keys_before[i] == recency(json_of(sorted_before[i])));
                }
                lemma_move_keeps_order(
                    models(sorted_before),
                    models(rest@),
                    place as int,
                    json_of(record),
                    |doc: Json| recency(doc) == key,
                );
            }
            assert forall|i: int, j: int| 0 <= i < j < keys@.len() implies keys@[i] >= keys@[j] by {
                if j < place {
                    assert(keys@[i] == keys_before[i] && keys@[j] == keys_before[j]);
                } else if j == place {
                    assert(keys@[i] == keys_before[i]);
                } else if i < place {
                    assert(keys@[i] == keys_before[i] && keys@[j] == keys_before[j - 1]);
                } else if i == place {
                    assert(keys@[j] == keys_before[j - 1]);
                    assert(keys_before[place as int] >= keys_before[j - 1]);
                } else {
                    assert(keys@[i] == keys_before[i - 1] && keys@[j] == keys_before[j - 1]);
                }
            }
        }
    }
    proof {
        lemma_empty_adds_nothing(sorted@, rest@);
        lemma_empty_adds_nothing(models(sorted@), models(rest@));
        vstd::seq_lib::to_multiset_len(sorted@);
        vstd::seq_lib::to_multiset_len(records@);
        assert forall|i: int, j: int| 0 <= i < j < models(sorted@).len() implies recency(
            models(sorted@)[i],
        ) >= recency(models(sorted@)[j]) by {
            assert(keys@[i] >= keys@[j]);
        }
        assert forall|key: int| #[trigger]
            among(models(sorted@), key) == among(models(records@), key) by {
            assert(among(models(records@), key) == among(models(rest@), key) + among(
                models(sorted@),
                key,
            ));
            models(rest@).lemma_filter_len(|doc: Json| recency(doc) == key);
            assert(among(models(rest@), key) + among(models(sorted@), key) =~= among(
                models(sorted@),
                key,
            ));
        }
    }
    sorted
}

/// A sequence in which some document is of a recency holds documents of that
/// recency.
proof fn lemma_among_holds<A>(docs: Seq<A>, at: int, kind: spec_fn(A) -> bool)
    requires
        0 <= at < docs.len(),
        kind(docs[at]),
    ensures
        docs.filter(kind).len() > 0,
        docs.filter(kind).contains(docs[at]),
{
    docs.lemma_filter_contains(kind, at);
}

/// The order of a listing leaves no choice: two sequences that both stand
/// newest first and agree on the order of equally recent documents are the
/// same sequence.
pub proof fn lemma_order_is_determined(a: Seq<Json>, b: Seq<Json>)
    requires
        newest_first(a),
        newest_first(b),
        same_order_among_equals(a, b),
    ensures
        a == b,
    decreases a.len() + b.len(),
{
    if a.len() == 0 || b.len() == 0 {
        if a.len() > 0 {
            let key = recency(a[0]);
            lemma_among_holds(a, 0, |doc: Json| recency(doc) == key);
            assert(among(a, key) == among(b, key));
            b.lemma_filter_len(|doc: Json| recency(doc) == key);
        }
        if b.len() > 0 {
            let key = recency(b[0]);
            lemma_among_holds(b, 0, |doc: Json| recency(doc) == key);
            assert(among(a, key) == among(b, key));
            a.lemma_filter_len(|doc: Json| recency(doc) == key);
        }
        assert(a =~= b);
    } else {
        let x = a.last();
        let y = b.last();
        let kx = recency(x);
        let ky = recency(y);
        let a0 = a.drop_last();
        let b0 = b.drop_last();
        assert(a =~= a0.push(x));
        assert(b =~= b0.push(y));
        // The last of each is the least recent of it, and each recency of one
        // occurs in the other: the two last ones are equally recent.
        assert(kx == ky) by {
            let in_a = |doc: Json| recency(doc) == kx;
            lemma_among_holds(a, a.len() - 1, in_a);
            assert(among(a, kx) == among(b, kx));
            let found = among(b, kx)[0];
            b.lemma_filter_pred(in_a, 0);
            assert(among(b, kx).contains(found));
            b.lemma_filter_contains_rev(in_a, found);
            let i = choose|i: int| 0 <= i < b.len() && b[i] == found;
            assert(recency(b[i]) == kx);
            assert(ky <= kx);
            let in_b = |doc: Json| recency(doc) == ky;
            lemma_among_holds(b, b.len() - 1, in_b);
            assert(among(a, ky) == among(b, ky));
            let other = among(a, ky)[0];
            a.lemma_filter_pred(in_b, 0);
            assert(among(a, ky).contains(other));
            a.lemma_filter_contains_rev(in_b, other);
            let j = choose|j: int| 0 <= j < a.len() && a[j] == other;
            assert(recency(a[j]) == ky);
            assert(kx <= ky);
        }
        let same = |doc: Json| recency(doc) == kx;
        a0.lemma_filter_push(x, same);
        b0.lemma_filter_push(y, same);
        assert(among(a, kx) == among(b, kx));
        assert(among(a, kx) == among(a0, kx).push(x));
        assert(among(b, kx) == among(b0, kx).push(y));
        assert(x == y) by {
            assert(among(a0, kx).push(x).last() == x);
            assert(among(b0, kx).push(y).last() == y);
        }
        assert forall|key: int| #[trigger] among(a0, key) == among(b0, key) by {
            let kind = |doc: Json| recency(doc) == key;
            a0.lemma_filter_push(x, kind);
            b0.lemma_filter_push(y, kind);
            assert(among(a, key) == among(b, key));
            if key == kx {
                assert(among(a0, key) =~= among(a0, key).push(x).drop_last());
                assert(among(b0, key) =~= among(b0, key).push(y).drop_last());
            }
        }
        assert(newest_first(a0)) by {
            assert forall|i: int, j: int| 0 <= i < j < a0.len() implies recency(a0[i])
                >= recency(a0[j]) by {
                assert(a0[i] == a[i] && a0[j] == a[j]);
            }
        }
        assert(newest_first(b0)) by {
            assert forall|i: int, j: int| 0 <= i < j < b0.len() implies recency(b0[i])
                >= recency(b0[j]) by {
                assert(b0[i] == b[i] && b0[j] == b[j]);
            }
        }
        lemma_order_is_determined(a0, b0);
    }
}

} // verus!
