use vstd::prelude::*;
use crate::laws::{keys_unique, lemma_record_keeps_keys_unique};
use crate::probe::CheckResult;

verus! {

/// Last-known state of one (host, check-name) pair.
#[derive(Debug)]
pub struct MetricsEntry {
    pub host: String,
    pub name: String,
    pub up: bool,
    pub last_latency_ms: u64,
    pub fail_total: u64,
}

/// All entries recorded so far, in order of first appearance.
#[derive(Debug)]
pub struct MetricsStore {
    entries: Vec<MetricsEntry>,
}

pub open spec fn has_key(e: MetricsEntry, host: Seq<char>, name: Seq<char>) -> bool {
    e.host@ == host && e.name@ == name
}

pub open spec fn is_first_key(rows: Seq<MetricsEntry>, host: Seq<char>, name: Seq<char>, i: int) -> bool {
    &&& 0 <= i < rows.len()
    &&& has_key(rows[i], host, name)
    &&& forall|j: int| 0 <= j < i ==> !has_key(#[trigger] rows[j], host, name)
}

/// Position of the entry for a key, or -1 when the key was never recorded.
pub open spec fn key_index(rows: Seq<MetricsEntry>, host: Seq<char>, name: Seq<char>) -> int {
    if exists|i: int| is_first_key(rows, host, name, i) {
        choose|i: int| is_first_key(rows, host, name, i)
    } else {
        -1
    }
}

/// Failure counter after one more probe: one higher on failure, held at the
/// top of the range.
pub open spec fn next_fail_total(fail_total: u64, is_up: bool) -> u64 {
    if is_up || fail_total == u64::MAX {
        fail_total
    } else {
        (fail_total + 1) as u64
    }
}

/// The entry for a key after recording `r` on top of `e`.
pub open spec fn updated_entry(e: MetricsEntry, r: CheckResult) -> MetricsEntry {
    MetricsEntry {
        host: e.host,
        name: e.name,
        up: r.is_up,
        last_latency_ms: r.latency_ms,
        fail_total: next_fail_total(e.fail_total, r.is_up),
    }
}

/// The entry created by the first result recorded for a key.
pub open spec fn fresh_entry(host: String, name: String, r: CheckResult) -> MetricsEntry {
    MetricsEntry {
        host,
        name,
        up: r.is_up,
        last_latency_ms: r.latency_ms,
        fail_total: next_fail_total(0, r.is_up),
    }
}

/// The entries after one `record`.
pub open spec fn after_record(rows: Seq<MetricsEntry>, host: String, name: String, r: CheckResult) -> Seq<MetricsEntry> {
    let i = key_index(rows, host@, name@);
    if i >= 0 {
        rows.update(i, updated_entry(rows[i], r))
    } else {
        rows.push(fresh_entry(host, name, r))
    }
}

/// The entry recorded for a key, if any.
pub open spec fn entry_for(rows: Seq<MetricsEntry>, host: Seq<char>, name: Seq<char>) -> Option<MetricsEntry> {
    let i = key_index(rows, host, name);
    if i >= 0 {
        Some(rows[i])
    } else {
        None
    }
}

/// The failure count for a key; zero for a key never recorded.
pub open spec fn fail_total_for(rows: Seq<MetricsEntry>, host: Seq<char>, name: Seq<char>) -> u64 {
    match entry_for(rows, host, name) {
        Some(e) => e.fail_total,
        None => 0,
    }
}

/// The first index satisfying `is_first_key` is the one `key_index` picks.
pub proof fn lemma_key_index_is(rows: Seq<MetricsEntry>, host: Seq<char>, name: Seq<char>, i: int)
    requires
        is_first_key(rows, host, name, i),
    ensures
        key_index(rows, host, name) == i,
{
    let c = choose|c: int| is_first_key(rows, host, name, c);
    assert(is_first_key(rows, host, name, c));
    if c < i {
        assert(!has_key(rows[c], host, name));
    } else if i < c {
        assert(!has_key(rows[i], host, name));
    }
}

/// With no entry for a key, `key_index` is -1.
pub proof fn lemma_key_absent(rows: Seq<MetricsEntry>, host: Seq<char>, name: Seq<char>)
    requires
        forall|j: int| 0 <= j < rows.len() ==> !has_key(#[trigger] rows[j], host, name),
    ensures
        key_index(rows, host, name) == -1,
{
}

impl MetricsEntry {
    /// An entry with the same fields.
    pub fn duplicate(&self) -> (r: MetricsEntry)
        ensures
            r == *self,
    {
        MetricsEntry {
            host: self.host.clone(),
            name: self.name.clone(),
            up: self.up,
            last_latency_ms: self.last_latency_ms,
            fail_total: self.fail_total,
        }
    }

    /// The `up` gauge: 1 when the last probe succeeded, else 0.
    pub fn up_value(&self) -> (r: u8)
        ensures
            r == (if self.up { 1u8 } else { 0u8 }),
    {
        if self.up {
            1
        } else {
            0
        }
    }
}

impl MetricsStore {
    /// The recorded entries, in order of first appearance.
    pub closed spec fn rows(&self) -> Seq<MetricsEntry> {
        self.entries@
    }

    /// An empty store.
    pub fn new() -> (s: MetricsStore)
        ensures
            s.rows() == Seq::<MetricsEntry>::empty(),
            keys_unique(s.rows()),
    {
        MetricsStore { entries: Vec::new() }
    }

    /// Number of keys recorded so far.
    pub fn len(&self) -> (n: usize)
        ensures
            n == self.rows().len(),
    {
        self.entries.len()
    }

    /// Where the entry for a key stands, if it exists.
    fn find(&self, host: &String, name: &String) -> (r: Option<usize>)
        ensures
            r matches Some(i) ==> key_index(self.rows(), host@, name@) == i,
            r is None ==> key_index(self.rows(), host@, name@) == -1,
    {
        let mut i: usize = 0;
        while i < self.entries.len()
            invariant
                0 <= i <= self.entries.len(),
                forall|j: int| 0 <= j < i ==> !has_key(#[trigger] self.entries@[j], host@, name@),
            decreases self.entries.len() - i,
        {
            let e = &self.entries[i];
            if e.host == *host && e.name == *name {
                proof {
                    lemma_key_index_is(self.rows(), host@, name@, i as int);
                }
                return Some(i);
            }
            i = i + 1;
        }
        proof {
            lemma_key_absent(self.rows(), host@, name@);
        }
        None
    }

    /// Records one probe result for a key: `up` and the latency are
    /// overwritten, and a failure adds one to the failure count.
    pub fn record(&mut self, host: &String, name: &String, result: &CheckResult)
        ensures
            final(self).rows() == after_record(old(self).rows(), *host, *name, *result),
            keys_unique(old(self).rows()) ==> keys_unique(final(self).rows()),
    {
        proof {
            if keys_unique(self.rows()) {
                lemma_record_keeps_keys_unique(self.rows(), *host, *name, *result);
            }
        }
        match self.find(host, name) {
            Some(i) => {
                let old_fail = self.entries[i].fail_total;
                let fail_total: u64 = if result.is_up || old_fail == u64::MAX {
                    old_fail
                } else {
                    old_fail + 1
                };
                let e = MetricsEntry {
                    host: self.entries[i].host.clone(),
                    name: self.entries[i].name.clone(),
                    up: result.is_up,
                    last_latency_ms: result.latency_ms,
                    fail_total,
                };
                self.entries.set(i, e);
            },
            None => {
                let fail_total: u64 = if result.is_up {
                    0
                } else {
                    1
                };
                let e = MetricsEntry {
                    host: host.clone(),
                    name: name.clone(),
                    up: result.is_up,
                    last_latency_ms: result.latency_ms,
                    fail_total,
                };
                self.entries.push(e);
            },
        }
    }

    /// The entry for a key, if one was recorded.
    pub fn lookup(&self, host: &String, name: &String) -> (r: Option<&MetricsEntry>)
        ensures
            match entry_for(self.rows(), host@, name@) {
                Some(e) => r == Some(&e),
                None => r is None,
            },
    {
        match self.find(host, name) {
            Some(i) => Some(&self.entries[i]),
            None => None,
        }
    }

    /// A point-in-time copy of every entry, in order of first appearance.
    pub fn snapshot(&self) -> (r: Vec<MetricsEntry>)
        ensures
            r@ == self.rows(),
    {
        let mut out: Vec<MetricsEntry> = Vec::new();
        let mut i: usize = 0;
        while i < self.entries.len()
            invariant
                0 <= i <= self.entries.len(),
                out@ == self.entries@.subrange(0, i as int),
            decreases self.entries.len() - i,
        {
            out.push(self.entries[i].duplicate());
            proof {
                assert(self.entries@.subrange(0, i + 1) == self.entries@.subrange(0, i as int).push(self.entries@[i as int]));
            }
            i = i + 1;
        }
        proof {
            assert(self.entries@.subrange(0, self.entries@.len() as int) == self.entries@);
        }
        out
    }
}

} // verus!
