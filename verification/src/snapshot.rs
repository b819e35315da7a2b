//! The ranking of stream records by viewer count, the snapshot that one
//! poll cycle yields, and the cache that holds the last one.

use vstd::prelude::*;
use crate::streams::StreamRecord;
use crate::streams::TwitchStream;

verus! {

/// Every record has at least as many viewers as each record after it.
pub open spec fn descending_by_viewers(records: Seq<StreamRecord>) -> bool {
    forall|i: int, j: int|
        0 <= i < j < records.len() ==> records[i].viewer_count >= records[j].viewer_count
}

/// The records that have exactly `count` viewers, in the order in which they stand.
pub open spec fn with_viewers(records: Seq<StreamRecord>, count: u64) -> Seq<StreamRecord> {
    records.filter(|r: StreamRecord| r.viewer_count == count)
}

/// `ranked` holds the records of `fetched` by viewer count, highest first,
/// and records with the same viewer count stand in their fetch order.
///
/// For each viewer count the two sequences hold the same records in the same
/// order, so nothing is lost, added or swapped among equals.
pub open spec fn is_ranking_of(ranked: Seq<StreamRecord>, fetched: Seq<StreamRecord>) -> bool {
    &&& descending_by_viewers(ranked)
    &&& ranked.len() == fetched.len()
    &&& forall|count: u64| with_viewers(ranked, count) == with_viewers(fetched, count)
}

/// Selecting by viewer count distributes over concatenation.
pub proof fn lemma_with_viewers_concat(a: Seq<StreamRecord>, b: Seq<StreamRecord>, count: u64)
    ensures
        with_viewers(a + b, count) == with_viewers(a, count) + with_viewers(b, count),
{
    Seq::filter_distributes_over_add(a, b, |r: StreamRecord| r.viewer_count == count);
}

/// Selecting from a single record keeps it exactly when its count is the one asked for.
pub proof fn lemma_with_viewers_single(record: StreamRecord, count: u64)
    ensures
        with_viewers(seq![record], count) == if record.viewer_count == count {
            seq![record]
        } else {
            Seq::<StreamRecord>::empty()
        },
{
    reveal_with_fuel(Seq::filter, 2);
    let one = seq![record];
    assert(one.drop_last() =~= Seq::<StreamRecord>::empty());
    assert(one.last() == record);
    assert(with_viewers(one, count) =~= if record.viewer_count == count {
        seq![record]
    } else {
        Seq::<StreamRecord>::empty()
    });
}

/// Selecting a count that no record has yields nothing.
pub proof fn lemma_with_viewers_absent(records: Seq<StreamRecord>, count: u64)
    requires
        forall|i: int| 0 <= i < records.len() ==> records[i].viewer_count != count,
    ensures
        with_viewers(records, count) == Seq::<StreamRecord>::empty(),
    decreases records.len(),
{
    reveal(Seq::filter);
    if records.len() > 0 {
        lemma_with_viewers_absent(records.drop_last(), count);
    }
}

/// A record that is selected by a viewer count stands in the sequence and
/// has that count.
proof fn lemma_with_viewers_member(records: Seq<StreamRecord>, count: u64)
    requires
        with_viewers(records, count).len() > 0,
    ensures
        exists|i: int| 0 <= i < records.len() && (#[trigger] records[i]).viewer_count == count,
{
    let selects = |r: StreamRecord| r.viewer_count == count;
    let first = with_viewers(records, count)[0];
    records.lemma_filter_pred(selects, 0);
    assert(records.filter(selects).contains(first));
    records.lemma_filter_contains_rev(selects, first);
    let i = choose|i: int| 0 <= i < records.len() && records[i] == first;
    assert(records[i].viewer_count == count);
}

/// Selecting by viewer count from a sequence takes its first record, if
/// that has the count, and goes on with the rest.
proof fn lemma_with_viewers_first(records: Seq<StreamRecord>, count: u64)
    requires
        records.len() > 0,
    ensures
        with_viewers(records, count) == if records[0].viewer_count == count {
            seq![records[0]] + with_viewers(records.drop_first(), count)
        } else {
            with_viewers(records.drop_first(), count)
        },
{
    assert(records =~= seq![records[0]] + records.drop_first());
    lemma_with_viewers_concat(seq![records[0]], records.drop_first(), count);
    lemma_with_viewers_single(records[0], count);
    assert(Seq::<StreamRecord>::empty() + with_viewers(records.drop_first(), count)
        =~= with_viewers(records.drop_first(), count));
}

proof fn lemma_same_groups_same_order(a: Seq<StreamRecord>, b: Seq<StreamRecord>)
    requires
        descending_by_viewers(a),
        descending_by_viewers(b),
        a.len() == b.len(),
        forall|count: u64| with_viewers(a, count) == with_viewers(b, count),
    ensures
        a == b,
    decreases a.len(),
{
    if a.len() == 0 {
        assert(a =~= b);
    } else {
        let high = a[0].viewer_count;
        let other = b[0].viewer_count;
        lemma_with_viewers_first(a, high);
        lemma_with_viewers_first(b, other);
        lemma_with_viewers_first(a, other);
        lemma_with_viewers_first(b, high);
        assert(with_viewers(a, high) == with_viewers(b, high));
        assert(with_viewers(a, other) == with_viewers(b, other));
        lemma_with_viewers_member(b, high);
        lemma_with_viewers_member(a, other);
        let j = choose|j: int| 0 <= j < b.len() && (#[trigger] b[j]).viewer_count == high;
        let k = choose|k: int| 0 <= k < a.len() && (#[trigger] a[k]).viewer_count == other;
        assert(b[0].viewer_count >= b[j].viewer_count || j == 0);
        assert(a[0].viewer_count >= a[k].viewer_count || k == 0);
        assert(high == other);
        assert(with_viewers(a, high)[0] == a[0]);
        assert(with_viewers(b, high)[0] == b[0]);
        assert(a[0] == b[0]);
        let rest_a = a.drop_first();
        let rest_b = b.drop_first();
        assert forall|count: u64| with_viewers(rest_a, count) == with_viewers(
            rest_b,
            count,
        ) by {
            lemma_with_viewers_first(a, count);
            lemma_with_viewers_first(b, count);
            assert(with_viewers(a, count) == with_viewers(b, count));
            if count == high {
                assert(with_viewers(rest_a, count) =~= with_viewers(a, count).drop_first());
                assert(with_viewers(rest_b, count) =~= with_viewers(b, count).drop_first());
            }
        }
        assert(descending_by_viewers(rest_a)) by {
            assert forall|i: int, j: int| 0 <= i < j < rest_a.len() implies rest_a[i].viewer_count
                >= rest_a[j].viewer_count by {
                assert(a[i + 1].viewer_count >= a[j + 1].viewer_count);
            }
        }
        assert(descending_by_viewers(rest_b)) by {
            assert forall|i: int, j: int| 0 <= i < j < rest_b.len() implies rest_b[i].viewer_count
                >= rest_b[j].viewer_count by {
                assert(b[i + 1].viewer_count >= b[j + 1].viewer_count);
            }
        }
        lemma_same_groups_same_order(rest_a, rest_b);
        assert(a =~= seq![a[0]] + rest_a);
        assert(b =~= seq![b[0]] + rest_b);
    }
}

/// The records that were fetched have one ranking only: the order of a
/// snapshot is settled by what it was merged from.
pub proof fn lemma_ranking_is_unique(
    first: Seq<StreamRecord>,
    second: Seq<StreamRecord>,
    fetched: Seq<StreamRecord>,
)
    requires
        is_ranking_of(first, fetched),
        is_ranking_of(second, fetched),
    ensures
        first == second,
{
    lemma_same_groups_same_order(first, second);
}

/// In a ranking, each record has at least as many viewers as the one
/// behind it, and the records of each viewer count stand in the order in
/// which they were fetched.
pub proof fn lemma_ranking_keeps_fetch_order(
    ranked: Seq<StreamRecord>,
    fetched: Seq<StreamRecord>,
    count: u64,
)
    requires
        is_ranking_of(ranked, fetched),
    ensures
        forall|i: int|
            0 <= i < ranked.len() - 1 ==> (#[trigger] ranked[i]).viewer_count >= ranked[i
                + 1].viewer_count,
        with_viewers(ranked, count) == with_viewers(fetched, count),
{
}

/// `merged` holds the records of two rankings in one: by viewer count,
/// highest first, and among records with the same viewer count those of
/// `first` before those of `second`, each group in its own order.
pub open spec fn is_merge_of(
    merged: Seq<StreamRecord>,
    first: Seq<StreamRecord>,
    second: Seq<StreamRecord>,
) -> bool {
    &&& descending_by_viewers(merged)
    &&& merged.len() == first.len() + second.len()
    &&& forall|count: u64|
        with_viewers(merged, count) == with_viewers(first, count) + with_viewers(second, count)
}

/// The records in the opposite order.
fn reversed(items: Vec<TwitchStream>) -> (turned: Vec<TwitchStream>)
    ensures
        turned.deep_view() == items.deep_view().reverse(),
{
    let ghost given = items.deep_view();
    let mut items = items;
    let mut turned: Vec<TwitchStream> = Vec::new();
    while items.len() > 0
        invariant
            items.len() <= given.len(),
            items.deep_view() == given.take(items.len() as int),
            turned.len() == given.len() - items.len(),
            forall|k: int|
                0 <= k < turned.len() ==> (#[trigger] turned[k]).deep_view() == given[given.len()
                    - 1 - k],
        decreases items.len(),
    {
        let ghost ahead = items.deep_view();
        let ghost rest = items.len() - 1;
        let item = items.pop().unwrap();
        proof {
            assert(item.deep_view() == ahead[rest]);
            assert(items.deep_view() =~= given.take(rest));
        }
        turned.push(item);
    }
    assert(turned.deep_view() =~= given.reverse());
    turned
}

/// Where a merge stands: the first `i` records of `one` and the first `j`
/// of `two` are still to be taken, and `tail` holds the others, merged.
#[verifier::opaque]
spec fn merge_pending(
    one: Seq<StreamRecord>,
    two: Seq<StreamRecord>,
    i: int,
    j: int,
    tail: Seq<StreamRecord>,
) -> bool {
    &&& 0 <= i <= one.len()
    &&& 0 <= j <= two.len()
    &&& descending_by_viewers(one)
    &&& descending_by_viewers(two)
    &&& descending_by_viewers(tail)
    &&& tail.len() == (one.len() - i) + (two.len() - j)
    &&& forall|count: u64|
        with_viewers(tail, count) == with_viewers(one.skip(i), count) + with_viewers(
            two.skip(j),
            count,
        )
    &&& forall|k: int|
        0 <= k < tail.len() && i > 0 ==> one[i - 1].viewer_count >= (#[trigger] tail[k]).viewer_count
    &&& forall|k: int|
        0 <= k < tail.len() && j > 0 ==> two[j - 1].viewer_count >= (#[trigger] tail[k]).viewer_count
    &&& forall|k: int|
        i <= k < one.len() && j > 0 ==> (#[trigger] one[k]).viewer_count < two[j - 1].viewer_count
}

proof fn lemma_merge_begins(one: Seq<StreamRecord>, two: Seq<StreamRecord>)
    requires
        descending_by_viewers(one),
        descending_by_viewers(two),
    ensures
        merge_pending(one, two, one.len() as int, two.len() as int, Seq::empty()),
{
    reveal(merge_pending);
    assert(one.skip(one.len() as int) =~= Seq::<StreamRecord>::empty());
    assert(two.skip(two.len() as int) =~= Seq::<StreamRecord>::empty());
    assert forall|count: u64|
        with_viewers(Seq::<StreamRecord>::empty(), count) == with_viewers(
            one.skip(one.len() as int),
            count,
        ) + with_viewers(two.skip(two.len() as int), count) by {
        lemma_with_viewers_absent(Seq::<StreamRecord>::empty(), count);
    }
}

proof fn lemma_merge_ends(one: Seq<StreamRecord>, two: Seq<StreamRecord>, tail: Seq<StreamRecord>)
    requires
        merge_pending(one, two, 0, 0, tail),
    ensures
        is_merge_of(tail, one, two),
{
    reveal(merge_pending);
    assert(one.skip(0) =~= one);
    assert(two.skip(0) =~= two);
}

proof fn lemma_descending_with_head(head: StreamRecord, tail: Seq<StreamRecord>)
    requires
        descending_by_viewers(tail),
        forall|k: int| 0 <= k < tail.len() ==> head.viewer_count >= (#[trigger] tail[k]).viewer_count,
    ensures
        descending_by_viewers(seq![head] + tail),
{
    let joined = seq![head] + tail;
    assert forall|a: int, b: int| 0 <= a < b < joined.len() implies joined[a].viewer_count
        >= joined[b].viewer_count by {
        assert(joined[b] == tail[b - 1]);
        if a > 0 {
            assert(joined[a] == tail[a - 1]);
        }
    }
}

/// The last record of `two` that is still to be taken goes before the
/// tail, where it has no more viewers than the last of `one`.
proof fn lemma_merge_takes_second(
    one: Seq<StreamRecord>,
    two: Seq<StreamRecord>,
    i: int,
    j: int,
    tail: Seq<StreamRecord>,
)
    requires
        merge_pending(one, two, i, j, tail),
        j > 0,
        i == 0 || two[j - 1].viewer_count <= one[i - 1].viewer_count,
    ensures
        merge_pending(one, two, i, j - 1, seq![two[j - 1]] + tail),
{
    reveal(merge_pending);
    let record = two[j - 1];
    let longer = seq![record] + tail;
    lemma_descending_with_head(record, tail);
    assert(two.skip(j - 1) =~= seq![record] + two.skip(j));
    assert forall|count: u64|
        with_viewers(longer, count) == with_viewers(one.skip(i), count) + with_viewers(
            two.skip(j - 1),
            count,
        ) by {
        lemma_with_viewers_concat(seq![record], tail, count);
        lemma_with_viewers_concat(seq![record], two.skip(j), count);
        lemma_with_viewers_single(record, count);
        assert(with_viewers(tail, count) == with_viewers(one.skip(i), count) + with_viewers(
            two.skip(j),
            count,
        ));
        if record.viewer_count == count {
            assert forall|k: int| 0 <= k < one.skip(i).len() implies one.skip(i)[k].viewer_count
                != count by {
                assert(one.skip(i)[k] == one[i + k]);
            }
            lemma_with_viewers_absent(one.skip(i), count);
        }
        assert(with_viewers(longer, count) =~= with_viewers(one.skip(i), count) + with_viewers(
            two.skip(j - 1),
            count,
        ));
    }
    assert forall|k: int| 0 <= k < longer.len() && i > 0 implies one[i - 1].viewer_count >= (
    #[trigger] longer[k]).viewer_count by {
        if k > 0 {
            assert(longer[k] == tail[k - 1]);
        }
    }
    assert forall|k: int| 0 <= k < longer.len() && j - 1 > 0 implies two[j - 2].viewer_count >= (
    #[trigger] longer[k]).viewer_count by {
        if k > 0 {
            assert(longer[k] == tail[k - 1]);
        }
    }
}

/// The last record of `one` that is still to be taken goes before the
/// tail, where it has fewer viewers than the last of `two`.
proof fn lemma_merge_takes_first(
    one: Seq<StreamRecord>,
    two: Seq<StreamRecord>,
    i: int,
    j: int,
    tail: Seq<StreamRecord>,
)
    requires
        merge_pending(one, two, i, j, tail),
        i > 0,
        j == 0 || one[i - 1].viewer_count < two[j - 1].viewer_count,
    ensures
        merge_pending(one, two, i - 1, j, seq![one[i - 1]] + tail),
{
    reveal(merge_pending);
    let record = one[i - 1];
    let longer = seq![record] + tail;
    lemma_descending_with_head(record, tail);
    assert(one.skip(i - 1) =~= seq![record] + one.skip(i));
    assert forall|count: u64|
        with_viewers(longer, count) == with_viewers(one.skip(i - 1), count) + with_viewers(
            two.skip(j),
            count,
        ) by {
        lemma_with_viewers_concat(seq![record], tail, count);
        lemma_with_viewers_concat(seq![record], one.skip(i), count);
        assert(with_viewers(tail, count) == with_viewers(one.skip(i), count) + with_viewers(
            two.skip(j),
            count,
        ));
        assert(with_viewers(longer, count) =~= with_viewers(one.skip(i - 1), count)
            + with_viewers(two.skip(j), count));
    }
    assert forall|k: int| 0 <= k < longer.len() && i - 1 > 0 implies one[i - 2].viewer_count >= (
    #[trigger] longer[k]).viewer_count by {
        if k > 0 {
            assert(longer[k] == tail[k - 1]);
        }
    }
    assert forall|k: int| 0 <= k < longer.len() && j > 0 implies two[j - 1].viewer_count >= (
    #[trigger] longer[k]).viewer_count by {
        if k > 0 {
            assert(longer[k] == tail[k - 1]);
        }
    }
}

/// Merges two rankings into one.
fn merge_ranked(first: Vec<TwitchStream>, second: Vec<TwitchStream>) -> (merged: Vec<TwitchStream>)
    requires
        descending_by_viewers(first.deep_view()),
        descending_by_viewers(second.deep_view()),
    ensures
        is_merge_of(merged.deep_view(), first.deep_view(), second.deep_view()),
{
    let ghost one = first.deep_view();
    let ghost two = second.deep_view();
    let mut first = first;
    let mut second = second;
    // The records are taken from the ends, lowest first, and turned round
    // once all are taken.
    let mut taken: Vec<TwitchStream> = Vec::new();
    proof {
        lemma_merge_begins(one, two);
        assert(taken.deep_view().reverse() =~= Seq::<StreamRecord>::empty());
        assert(one.take(one.len() as int) =~= one);
        assert(two.take(two.len() as int) =~= two);
    }
    while first.len() > 0 || second.len() > 0
        invariant
            first.len() <= one.len(),
            second.len() <= two.len(),
            first.deep_view() == one.take(first.len() as int),
            second.deep_view() == two.take(second.len() as int),
            merge_pending(
                one,
                two,
                first.len() as int,
                second.len() as int,
                taken.deep_view().reverse(),
            ),
        decreases first.len() + second.len(),
    {
        let ghost tail = taken.deep_view().reverse();
        let ghost before = taken.deep_view();
        let ghost i = first.len() as int;
        let ghost j = second.len() as int;
        let from_second = if second.len() == 0 {
            false
        } else if first.len() == 0 {
            true
        } else {
            second[second.len() - 1].viewer_count <= first[first.len() - 1].viewer_count
        };
        proof {
            if i > 0 {
                assert(first.deep_view()[i - 1] == one[i - 1]);
            }
            if j > 0 {
                assert(second.deep_view()[j - 1] == two[j - 1]);
            }
        }
        if from_second {
            let stream = second.pop().unwrap();
            proof {
                assert(stream.deep_view() == two[j - 1]);
                assert(second.deep_view() =~= two.take(j - 1));
                lemma_merge_takes_second(one, two, i, j, tail);
            }
            taken.push(stream);
            proof {
                assert(taken.deep_view() =~= before.push(two[j - 1]));
                assert(taken.deep_view().reverse() =~= seq![two[j - 1]] + tail);
            }
        } else {
            let stream = first.pop().unwrap();
            proof {
                assert(stream.deep_view() == one[i - 1]);
                assert(first.deep_view() =~= one.take(i - 1));
                lemma_merge_takes_first(one, two, i, j, tail);
            }
            taken.push(stream);
            proof {
                assert(taken.deep_view() =~= before.push(one[i - 1]));
                assert(taken.deep_view().reverse() =~= seq![one[i - 1]] + tail);
            }
        }
    }
    proof {
        lemma_merge_ends(one, two, taken.deep_view().reverse());
    }
    reversed(taken)
}

/// Orders records by viewer count, highest first, keeping records with the
/// same viewer count in the order in which they were given.
pub fn sort_by_viewers(streams: Vec<TwitchStream>) -> (ranked: Vec<TwitchStream>)
    ensures
        is_ranking_of(ranked.deep_view(), streams.deep_view()),
    decreases streams.len(),
{
    if streams.len() <= 1 {
        return streams;
    }
    let ghost fetched = streams.deep_view();
    let mut first = streams;
    let middle = first.len() / 2;
    let second = first.split_off(middle);
    proof {
        assert(first.deep_view() =~= fetched.take(middle as int));
        assert(second.deep_view() =~= fetched.skip(middle as int));
        assert(fetched =~= fetched.take(middle as int) + fetched.skip(middle as int));
    }
    let first = sort_by_viewers(first);
    let second = sort_by_viewers(second);
    let ranked = merge_ranked(first, second);
    proof {
        assert forall|count: u64| with_viewers(ranked.deep_view(), count) == with_viewers(
            fetched,
            count,
        ) by {
            lemma_with_viewers_concat(
                fetched.take(middle as int),
                fetched.skip(middle as int),
                count,
            );
        }
    }
    ranked
}

/// A complete result set of one poll cycle: every record of both
/// retrievals, highest viewer count first.
///
/// A snapshot is made whole and never edited afterwards, so whoever holds
/// one holds the outcome of exactly one merge.
#[derive(Debug)]
pub struct Snapshot {
    records: Vec<TwitchStream>,
}

impl View for Snapshot {
    type V = Seq<StreamRecord>;

    closed spec fn view(&self) -> Seq<StreamRecord> {
        self.records.deep_view()
    }
}

impl Snapshot {
    #[verifier::type_invariant]
    spec fn ranked(&self) -> bool {
        descending_by_viewers(self.records.deep_view())
    }

    /// The snapshot that holds no record, as before the first poll cycle.
    pub fn empty() -> (snapshot: Snapshot)
        ensures
            snapshot@ == Seq::<StreamRecord>::empty(),
    {
        let records: Vec<TwitchStream> = Vec::new();
        assert(records.deep_view() =~= Seq::<StreamRecord>::empty());
        Snapshot { records }
    }

    /// Joins the records of the two retrievals, those of `science` first,
    /// and ranks them by viewer count.
    pub fn merge(science: Vec<TwitchStream>, software: Vec<TwitchStream>) -> (snapshot: Snapshot)
        ensures
            is_ranking_of(snapshot@, science.deep_view() + software.deep_view()),
    {
        let ghost fetched = science.deep_view() + software.deep_view();
        let mut all = science;
        let mut rest = software;
        all.append(&mut rest);
        assert(all.deep_view() =~= fetched);
        Snapshot { records: sort_by_viewers(all) }
    }

    /// The records, highest viewer count first.
    pub fn records(&self) -> (records: &Vec<TwitchStream>)
        ensures
            records.deep_view() == self@,
            descending_by_viewers(self@),
    {
        proof {
            use_type_invariant(self);
        }
        &self.records
    }

    /// Gives up the snapshot for its records, highest viewer count first.
    pub fn into_records(self) -> (records: Vec<TwitchStream>)
        ensures
            records.deep_view() == self@,
            descending_by_viewers(self@),
    {
        proof {
            use_type_invariant(&self);
        }
        self.records
    }

    /// How many records the snapshot holds.
    pub fn len(&self) -> (n: usize)
        ensures
            n == self@.len(),
    {
        self.records.len()
    }
}

impl Clone for Snapshot {
    fn clone(&self) -> (copy: Self)
        ensures
            copy@ == self@,
    {
        proof {
            use_type_invariant(self);
        }
        let mut records: Vec<TwitchStream> = Vec::new();
        let mut i: usize = 0;
        while i < self.records.len()
            invariant
                i <= self.records.len(),
                records.len() == i,
                forall|k: int| 0 <= k < i ==> records[k]@ == self.records[k]@,
            decreases self.records.len() - i,
        {
            records.push(self.records[i].clone());
            i += 1;
        }
        assert(records.deep_view() =~= self.records.deep_view());
        Snapshot { records }
    }
}

/// The last published snapshot, which readers copy and the poller replaces.
///
/// The cache is replaced as a whole and read as a whole: no operation
/// changes a part of what it holds.
#[derive(Debug)]
pub struct StreamsCache {
    current: Snapshot,
}

impl View for StreamsCache {
    type V = Seq<StreamRecord>;

    closed spec fn view(&self) -> Seq<StreamRecord> {
        self.current@
    }
}

impl StreamsCache {
    /// A cache that holds the empty snapshot.
    pub fn new() -> (cache: StreamsCache)
        ensures
            cache@ == Seq::<StreamRecord>::empty(),
    {
        StreamsCache { current: Snapshot::empty() }
    }

    /// Replaces what the cache holds by `snapshot`.
    pub fn publish(&mut self, snapshot: Snapshot)
        ensures
            final(self)@ == snapshot@,
    {
        self.current = snapshot;
    }

    /// A copy of what the cache holds.
    pub fn read(&self) -> (snapshot: Snapshot)
        ensures
            snapshot@ == self@,
    {
        self.current.clone()
    }
}

} // verus!
