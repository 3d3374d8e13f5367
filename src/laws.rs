use vstd::prelude::*;
use crate::metrics::{
    MetricsEntry, MetricsStore, after_record, entry_for, fail_total_for, has_key, is_first_key,
    key_index, lemma_key_absent, lemma_key_index_is, next_fail_total,
};
use crate::probe::CheckResult;

verus! {

/// One recorded probe: host, check name and result.
pub type Record = (String, String, CheckResult);

/// The entries after recording `records` in order.
pub open spec fn replay(rows: Seq<MetricsEntry>, records: Seq<Record>) -> Seq<MetricsEntry>
    decreases records.len(),
{
    if records.len() == 0 {
        rows
    } else {
        let last = records.last();
        after_record(replay(rows, records.drop_last()), last.0, last.1, last.2)
    }
}

/// Whether a record is for the key (host, name).
pub open spec fn is_for(rec: Record, host: Seq<char>, name: Seq<char>) -> bool {
    rec.0@ == host && rec.1@ == name
}

/// How many of `records` are failures for the key (host, name).
pub open spec fn failures_for(records: Seq<Record>, host: Seq<char>, name: Seq<char>) -> nat
    decreases records.len(),
{
    if records.len() == 0 {
        0
    } else {
        let last = records.last();
        failures_for(records.drop_last(), host, name) + if is_for(last, host, name) && !last.2.is_up {
            1nat
        } else {
            0nat
        }
    }
}

/// No two entries share a key.
pub open spec fn keys_unique(rows: Seq<MetricsEntry>) -> bool {
    forall|i: int, j: int|
        0 <= i < j < rows.len() ==> !has_key(#[trigger] rows[i], rows[j].host@, #[trigger] rows[j].name@)
}

/// When some entry holds a key, a first such entry exists.
pub proof fn lemma_first_key_exists(rows: Seq<MetricsEntry>, host: Seq<char>, name: Seq<char>, j: int)
    requires
        0 <= j < rows.len(),
        has_key(rows[j], host, name),
    ensures
        exists|i: int| is_first_key(rows, host, name, i),
    decreases j,
{
    if exists|k: int| 0 <= k < j && has_key(#[trigger] rows[k], host, name) {
        let k = choose|k: int| 0 <= k < j && has_key(#[trigger] rows[k], host, name);
        lemma_first_key_exists(rows, host, name, k);
    } else {
        assert(is_first_key(rows, host, name, j));
    }
}

/// After a `record`, the entry for the recorded key stands where `key_index`
/// finds it.
proof fn lemma_index_after_record(rows: Seq<MetricsEntry>, host: String, name: String, r: CheckResult)
    ensures
        key_index(after_record(rows, host, name, r), host@, name@) == if key_index(rows, host@, name@) >= 0 {
            key_index(rows, host@, name@)
        } else {
            rows.len() as int
        },
{
    let i = key_index(rows, host@, name@);
    let after = after_record(rows, host, name, r);
    if i >= 0 {
        assert(exists|c: int| is_first_key(rows, host@, name@, c));
        let c = choose|c: int| is_first_key(rows, host@, name@, c);
        assert(is_first_key(rows, host@, name@, c));
        assert forall|j: int| 0 <= j < i implies !has_key(#[trigger] after[j], host@, name@) by {
            assert(after[j] == rows[j]);
        }
        assert(is_first_key(after, host@, name@, i));
        lemma_key_index_is(after, host@, name@, i);
    } else {
        assert forall|j: int| 0 <= j < rows.len() implies !has_key(#[trigger] rows[j], host@, name@) by {
            if has_key(rows[j], host@, name@) {
                lemma_first_key_exists(rows, host@, name@, j);
            }
        }
        assert forall|j: int| 0 <= j < rows.len() implies !has_key(#[trigger] after[j], host@, name@) by {
            assert(after[j] == rows[j]);
        }
        assert(is_first_key(after, host@, name@, rows.len() as int));
        lemma_key_index_is(after, host@, name@, rows.len() as int);
    }
}

/// Recording a result for a key leaves that key with `up` and the latency of
/// exactly that result, whatever was recorded before.
pub proof fn lemma_latest_result_wins(rows: Seq<MetricsEntry>, host: String, name: String, r: CheckResult)
    ensures
        entry_for(after_record(rows, host, name, r), host@, name@) matches Some(e)
            && e.up == r.is_up && e.last_latency_ms == r.latency_ms,
{
    lemma_index_after_record(rows, host, name, r);
}

/// One `record` moves a key's failure count on by one on a failure (held
/// at the top of the range) and leaves it as it was on a success: it never
/// goes down.
pub proof fn lemma_record_fail_total(rows: Seq<MetricsEntry>, host: String, name: String, r: CheckResult)
    ensures
        fail_total_for(after_record(rows, host, name, r), host@, name@)
            == next_fail_total(fail_total_for(rows, host@, name@), r.is_up),
        fail_total_for(after_record(rows, host, name, r), host@, name@) >= fail_total_for(rows, host@, name@),
{
    lemma_index_after_record(rows, host, name, r);
}

/// Two entry lists that agree on which positions hold a key, the longer
/// one holding it nowhere past the shorter's end, find it at one place.
proof fn lemma_same_key_positions(a: Seq<MetricsEntry>, b: Seq<MetricsEntry>, host: Seq<char>, name: Seq<char>)
    requires
        a.len() <= b.len(),
        forall|j: int| 0 <= j < a.len() ==> has_key(#[trigger] a[j], host, name) == has_key(b[j], host, name),
        forall|j: int| a.len() <= j < b.len() ==> !has_key(#[trigger] b[j], host, name),
    ensures
        key_index(a, host, name) == key_index(b, host, name),
{
    let k = key_index(a, host, name);
    if k >= 0 {
        let c = choose|c: int| is_first_key(a, host, name, c);
        assert(is_first_key(a, host, name, c));
        assert forall|j: int| 0 <= j < c implies !has_key(#[trigger] b[j], host, name) by {
            assert(!has_key(a[j], host, name));
        }
        assert(is_first_key(b, host, name, c));
        lemma_key_index_is(b, host, name, c);
    } else {
        assert forall|j: int| 0 <= j < b.len() implies !has_key(#[trigger] b[j], host, name) by {
            if j < a.len() && has_key(a[j], host, name) {
                lemma_first_key_exists(a, host, name, j);
            }
        }
        lemma_key_absent(b, host, name);
    }
}

/// Recording a result for one key leaves the entry of every other key as it
/// was, absent ones included.
pub proof fn lemma_record_other_key(
    rows: Seq<MetricsEntry>,
    host: String,
    name: String,
    r: CheckResult,
    other_host: Seq<char>,
    other_name: Seq<char>,
)
    requires
        !(host@ == other_host && name@ == other_name),
    ensures
        entry_for(after_record(rows, host, name, r), other_host, other_name) == entry_for(rows, other_host, other_name),
{
    let after = after_record(rows, host, name, r);
    let i = key_index(rows, host@, name@);
    if i >= 0 {
        let c = choose|c: int| is_first_key(rows, host@, name@, c);
        assert(is_first_key(rows, host@, name@, c));
    }
    assert forall|j: int| 0 <= j < rows.len() implies has_key(#[trigger] rows[j], other_host, other_name)
        == has_key(after[j], other_host, other_name) by {
        if j == i {
            assert(after[j].host == rows[j].host && after[j].name == rows[j].name);
        } else {
            assert(after[j] == rows[j]);
        }
    }
    lemma_same_key_positions(rows, after, other_host, other_name);
    let k = key_index(rows, other_host, other_name);
    if k >= 0 {
        let c = choose|c: int| is_first_key(rows, other_host, other_name, c);
        assert(is_first_key(rows, other_host, other_name, c));
        if i >= 0 {
            assert(k != i);
        }
        assert(after[k] == rows[k]);
    }
}

/// Recording keeps keys unique: a new entry is added only for a key that
/// has none.
pub proof fn lemma_record_keeps_keys_unique(rows: Seq<MetricsEntry>, host: String, name: String, r: CheckResult)
    requires
        keys_unique(rows),
    ensures
        keys_unique(after_record(rows, host, name, r)),
{
    let after = after_record(rows, host, name, r);
    let i = key_index(rows, host@, name@);
    if i >= 0 {
        let c = choose|c: int| is_first_key(rows, host@, name@, c);
        assert(is_first_key(rows, host@, name@, c));
        assert forall|a: int, b: int| 0 <= a < b < after.len() implies !has_key(
            #[trigger] after[a],
            after[b].host@,
            #[trigger] after[b].name@,
        ) by {
            assert(after[a].host == rows[a].host && after[a].name == rows[a].name);
            assert(after[b].host == rows[b].host && after[b].name == rows[b].name);
            assert(!has_key(rows[a], rows[b].host@, rows[b].name@));
        }
    } else {
        assert forall|j: int| 0 <= j < rows.len() implies !has_key(#[trigger] rows[j], host@, name@) by {
            if has_key(rows[j], host@, name@) {
                lemma_first_key_exists(rows, host@, name@, j);
            }
        }
        assert forall|a: int, b: int| 0 <= a < b < after.len() implies !has_key(
            #[trigger] after[a],
            after[b].host@,
            #[trigger] after[b].name@,
        ) by {
            assert(after[a] == rows[a]);
            if b < rows.len() {
                assert(after[b] == rows[b]);
                assert(!has_key(rows[a], rows[b].host@, rows[b].name@));
            }
        }
    }
}

/// Any run of records keeps keys unique.
pub proof fn lemma_replay_keeps_keys_unique(rows: Seq<MetricsEntry>, records: Seq<Record>)
    requires
        keys_unique(rows),
    ensures
        keys_unique(replay(rows, records)),
    decreases records.len(),
{
    if records.len() > 0 {
        let last = records.last();
        lemma_replay_keeps_keys_unique(rows, records.drop_last());
        lemma_record_keeps_keys_unique(replay(rows, records.drop_last()), last.0, last.1, last.2);
    }
}

/// Recording any run of records, for any keys, raises the failure count of
/// a key by the number of failures recorded for that key: a run of N
/// failures adds N, and successes and records of other keys take nothing
/// away.
pub proof fn lemma_fail_total_counts_failures(
    rows: Seq<MetricsEntry>,
    records: Seq<Record>,
    host: Seq<char>,
    name: Seq<char>,
)
    requires
        fail_total_for(rows, host, name) + failures_for(records, host, name) <= u64::MAX,
    ensures
        fail_total_for(replay(rows, records), host, name) == fail_total_for(rows, host, name) + failures_for(
            records,
            host,
            name,
        ),
    decreases records.len(),
{
    if records.len() > 0 {
        let prefix = records.drop_last();
        let last = records.last();
        lemma_fail_total_counts_failures(rows, prefix, host, name);
        if is_for(last, host, name) {
            lemma_record_fail_total(replay(rows, prefix), last.0, last.1, last.2);
        } else {
            lemma_record_other_key(replay(rows, prefix), last.0, last.1, last.2, host, name);
        }
    }
}

/// Once a key has an entry it keeps one through any run of records, and its
/// failure count never goes down.
pub proof fn lemma_keys_persist(rows: Seq<MetricsEntry>, records: Seq<Record>, host: Seq<char>, name: Seq<char>)
    ensures
        entry_for(rows, host, name) is Some ==> entry_for(replay(rows, records), host, name) is Some,
        fail_total_for(replay(rows, records), host, name) >= fail_total_for(rows, host, name),
    decreases records.len(),
{
    if records.len() > 0 {
        let prefix = records.drop_last();
        let last = records.last();
        lemma_keys_persist(rows, prefix, host, name);
        if is_for(last, host, name) {
            lemma_record_fail_total(replay(rows, prefix), last.0, last.1, last.2);
            lemma_latest_result_wins(replay(rows, prefix), last.0, last.1, last.2);
        } else {
            lemma_record_other_key(replay(rows, prefix), last.0, last.1, last.2, host, name);
        }
    }
}

/// The last result recorded for a key decides its `up` and latency: records
/// of other keys made after it change neither.
pub proof fn lemma_latest_result_survives(
    rows: Seq<MetricsEntry>,
    host: String,
    name: String,
    r: CheckResult,
    later: Seq<Record>,
)
    requires
        forall|i: int| 0 <= i < later.len() ==> !is_for(#[trigger] later[i], host@, name@),
    ensures
        entry_for(replay(after_record(rows, host, name, r), later), host@, name@) matches Some(e)
            && e.up == r.is_up && e.last_latency_ms == r.latency_ms,
    decreases later.len(),
{
    if later.len() == 0 {
        lemma_latest_result_wins(rows, host, name, r);
    } else {
        let prefix = later.drop_last();
        let last = later.last();
        assert forall|i: int| 0 <= i < prefix.len() implies !is_for(#[trigger] prefix[i], host@, name@) by {
            assert(prefix[i] == later[i]);
        }
        lemma_latest_result_survives(rows, host, name, r, prefix);
        assert(!is_for(later[later.len() - 1], host@, name@));
        lemma_record_other_key(
            replay(after_record(rows, host, name, r), prefix),
            last.0,
            last.1,
            last.2,
            host@,
            name@,
        );
    }
}

/// Two snapshots of a store with no `record` between them hold the same
/// entries.
pub proof fn lemma_snapshot_stable(store: &MetricsStore, first: Seq<MetricsEntry>, second: Seq<MetricsEntry>)
    requires
        first == store.rows(),
        second == store.rows(),
    ensures
        first == second,
{
}

} // verus!
