//! Message correlation: links a message on its origin platform to the
//! messages it produced on the other platforms, under a bridge-assigned
//! correlation id, so that later edits and deletions can follow it. Records
//! are kept oldest first, bounded in number and in age.

use vstd::prelude::*;
use crate::error::CorrelationError;

verus! {

pub struct CorrelationRecord {
    pub correlation_id: String,
    pub origin_adapter: String,
    /// Adapter name and the id of its message; the origin's entry first.
    pub per_platform_ids: Vec<(String, String)>,
    pub conversation_key: String,
    pub created_at: u64,
}

pub struct RecordView {
    pub correlation_id: Seq<char>,
    pub origin_adapter: Seq<char>,
    pub per_platform_ids: Seq<(Seq<char>, Seq<char>)>,
    pub conversation_key: Seq<char>,
    pub created_at: u64,
}

impl View for CorrelationRecord {
    type V = RecordView;

    open spec fn view(&self) -> RecordView {
        RecordView {
            correlation_id: self.correlation_id@,
            origin_adapter: self.origin_adapter@,
            per_platform_ids: self.per_platform_ids@.map_values(|p: (String, String)| (p.0@, p.1@)),
            conversation_key: self.conversation_key@,
            created_at: self.created_at,
        }
    }
}

pub open spec fn has_adapter(ids: Seq<(Seq<char>, Seq<char>)>, adapter: Seq<char>) -> bool {
    exists|j: int| 0 <= j < ids.len() && #[trigger] ids[j].0 == adapter
}

/// A record names each adapter at most once, and its first entry is the origin's.
pub open spec fn record_wf(r: RecordView) -> bool {
    &&& r.per_platform_ids.len() >= 1
    &&& r.per_platform_ids[0].0 == r.origin_adapter
    &&& forall|i: int, j: int|
        0 <= i < r.per_platform_ids.len() && 0 <= j < r.per_platform_ids.len() && i != j
            ==> #[trigger] r.per_platform_ids[i].0 != #[trigger] r.per_platform_ids[j].0
}

/// The per-platform ids after `adapter` reports `message`: an adapter that
/// already has an entry, the origin included, keeps its first one.
pub open spec fn with_result(
    ids: Seq<(Seq<char>, Seq<char>)>,
    adapter: Seq<char>,
    message: Seq<char>,
) -> Seq<(Seq<char>, Seq<char>)> {
    if has_adapter(ids, adapter) {
        ids
    } else {
        ids.push((adapter, message))
    }
}

pub open spec fn has_id(s: Seq<RecordView>, id: Seq<char>) -> bool {
    exists|i: int| 0 <= i < s.len() && #[trigger] s[i].correlation_id == id
}

/// A record older than `max_age` at time `now`.
pub open spec fn expired(r: RecordView, now: u64, max_age: u64) -> bool {
    r.created_at + max_age < now
}

/// The records still young enough at time `now`, in order.
pub open spec fn unexpired(s: Seq<RecordView>, now: u64, max_age: u64) -> Seq<RecordView>
    decreases s.len(),
{
    if s.len() == 0 {
        Seq::empty()
    } else if expired(s.last(), now, max_age) {
        unexpired(s.drop_last(), now, max_age)
    } else {
        unexpired(s.drop_last(), now, max_age).push(s.last())
    }
}

impl CorrelationRecord {
    /// The id of the message that `adapter` produced (or received, for the
    /// origin), if it reported one.
    pub fn platform_id(&self, adapter: &String) -> (r: Option<&String>)
        ensures
            r is Some <==> has_adapter(self@.per_platform_ids, adapter@),
            r matches Some(m) ==> exists|j: int|
                0 <= j < self@.per_platform_ids.len() && self@.per_platform_ids[j] == (adapter@, m@),
    {
        let ghost v = self@.per_platform_ids;
        let mut j: usize = 0;
        while j < self.per_platform_ids.len()
            invariant
                j <= self.per_platform_ids@.len(),
                v == self@.per_platform_ids,
                forall|k: int| 0 <= k < j ==> v[k].0 != adapter@,
            decreases self.per_platform_ids@.len() - j,
        {
            if self.per_platform_ids[j].0 == *adapter {
                assert(v[j as int] == (adapter@, self.per_platform_ids@[j as int].1@));
                assert(v[j as int].0 == adapter@);
                return Some(&self.per_platform_ids[j].1);
            }
            j = j + 1;
        }
        None
    }
}

pub struct Correlator {
    records: Vec<CorrelationRecord>,
    max_records: usize,
    max_age: u64,
}

impl View for Correlator {
    type V = Seq<RecordView>;

    closed spec fn view(&self) -> Seq<RecordView> {
        self.records@.map_values(|r: CorrelationRecord| r@)
    }
}

fn find_adapter(ids: &Vec<(String, String)>, adapter: &String) -> (r: bool)
    ensures
        r == has_adapter(ids@.map_values(|p: (String, String)| (p.0@, p.1@)), adapter@),
{
    let ghost v = ids@.map_values(|p: (String, String)| (p.0@, p.1@));
    let mut j: usize = 0;
    while j < ids.len()
        invariant
            j <= ids@.len(),
            v == ids@.map_values(|p: (String, String)| (p.0@, p.1@)),
            forall|k: int| 0 <= k < j ==> v[k].0 != adapter@,
        decreases ids@.len() - j,
    {
        if ids[j].0 == *adapter {
            assert(v[j as int].0 == adapter@);
            return true;
        }
        j = j + 1;
    }
    false
}

impl Correlator {
    pub closed spec fn max_records(&self) -> nat {
        self.max_records as nat
    }

    pub closed spec fn max_age(&self) -> u64 {
        self.max_age
    }

    /// Correlation ids are unique, every record is well formed, and at most
    /// `max_records` records are held.
    pub open spec fn wf(&self) -> bool {
        &&& self.max_records() >= 1
        &&& self@.len() <= self.max_records()
        &&& forall|i: int| 0 <= i < self@.len() ==> record_wf(#[trigger] self@[i])
        &&& forall|i: int, j: int|
            0 <= i < self@.len() && 0 <= j < self@.len() && i != j ==> #[trigger] self@[i].correlation_id
                != #[trigger] self@[j].correlation_id
    }

    /// An empty correlator that keeps at most `max_records` records, none
    /// older than `max_age`.
    pub fn new(max_records: usize, max_age: u64) -> (r: Correlator)
        requires
            max_records >= 1,
        ensures
            r.wf(),
            r@ == Seq::<RecordView>::empty(),
            r.max_records() == max_records,
            r.max_age() == max_age,
    {
        let r = Correlator { records: Vec::new(), max_records, max_age };
        assert(r@ =~= Seq::<RecordView>::empty());
        r
    }

    fn find(&self, id: &String) -> (r: Option<usize>)
        ensures
            r matches Some(i) ==> i < self@.len() && self@[i as int].correlation_id == id@,
            r is None ==> !has_id(self@, id@),
    {
        let mut i: usize = 0;
        while i < self.records.len()
            invariant
                i <= self.records@.len(),
                forall|j: int| 0 <= j < i ==> self@[j].correlation_id != id@,
            decreases self.records@.len() - i,
        {
            assert(self@[i as int] == self.records@[i as int]@);
            if self.records[i].correlation_id == *id {
                return Some(i);
            }
            i = i + 1;
        }
        None
    }

    /// Opens a record for a message that `origin_adapter` received as
    /// `origin_message_id`. Fails with `DuplicateCorrelation` when the id is
    /// already recorded. When the bound on the number of records is reached,
    /// the oldest record is dropped first.
    pub fn record(
        &mut self,
        correlation_id: String,
        origin_adapter: String,
        origin_message_id: String,
        conversation_key: String,
        now: u64,
    ) -> (r: Result<(), CorrelationError>)
        requires
            old(self).wf(),
        ensures
            final(self).wf(),
            final(self).max_records() == old(self).max_records(),
            final(self).max_age() == old(self).max_age(),
            r is Err <==> has_id(old(self)@, correlation_id@),
            r is Err ==> r == Err::<(), CorrelationError>(CorrelationError::DuplicateCorrelation)
                && final(self)@ == old(self)@,
            r is Ok ==> final(self)@ == (if old(self)@.len() >= old(self).max_records() {
                old(self)@.drop_first()
            } else {
                old(self)@
            }).push(
                RecordView {
                    correlation_id: correlation_id@,
                    origin_adapter: origin_adapter@,
                    per_platform_ids: seq![(origin_adapter@, origin_message_id@)],
                    conversation_key: conversation_key@,
                    created_at: now,
                },
            ),
    {
        if self.find(&correlation_id).is_some() {
            return Err(CorrelationError::DuplicateCorrelation);
        }
        let ghost start = self@;
        if self.records.len() >= self.max_records {
            self.records.remove(0);
            assert(self@ =~= start.drop_first());
        }
        let mut ids: Vec<(String, String)> = Vec::new();
        ids.push((origin_adapter.clone(), origin_message_id));
        let rec = CorrelationRecord {
            correlation_id,
            origin_adapter,
            per_platform_ids: ids,
            conversation_key,
            created_at: now,
        };
        assert(rec@.per_platform_ids =~= seq![(rec.origin_adapter@, origin_message_id@)]);
        let ghost mid = self@;
        self.records.push(rec);
        assert(self@ =~= mid.push(rec@));
        Ok(())
    }

    /// Adds the id of the message that `adapter_name` produced for an open
    /// record. Fails with `UnknownCorrelation` when no record has that id (it
    /// may have been evicted). An adapter that already has an entry keeps it.
    pub fn attach_result(
        &mut self,
        correlation_id: &String,
        adapter_name: String,
        platform_message_id: String,
    ) -> (r: Result<(), CorrelationError>)
        requires
            old(self).wf(),
        ensures
            final(self).wf(),
            final(self).max_records() == old(self).max_records(),
            final(self).max_age() == old(self).max_age(),
            r is Err <==> !has_id(old(self)@, correlation_id@),
            r is Err ==> r == Err::<(), CorrelationError>(CorrelationError::UnknownCorrelation)
                && final(self)@ == old(self)@,
            r is Ok ==> exists|i: int|
                0 <= i < old(self)@.len() && old(self)@[i].correlation_id == correlation_id@
                    && final(self)@ == old(self)@.update(
                    i,
                    RecordView {
                        per_platform_ids: with_result(
                            old(self)@[i].per_platform_ids,
                            adapter_name@,
                            platform_message_id@,
                        ),
                        ..old(self)@[i]
                    },
                ),
    {
        let i = match self.find(correlation_id) {
            None => return Err(CorrelationError::UnknownCorrelation),
            Some(i) => i,
        };
        assert(self@[i as int] == self.records@[i as int]@);
        let ghost start = self@;
        let mut rec = self.records.remove(i);
        let ghost old_rec = rec@;
        if !find_adapter(&rec.per_platform_ids, &adapter_name) {
            let ghost prev = rec.per_platform_ids@;
            rec.per_platform_ids.push((adapter_name, platform_message_id));
            assert(rec.per_platform_ids@ == prev.push(rec.per_platform_ids@.last()));
            assert(rec@.per_platform_ids =~= old_rec.per_platform_ids.push(
                (adapter_name@, platform_message_id@),
            ));
        }
        assert(rec@ == RecordView {
            per_platform_ids: with_result(old_rec.per_platform_ids, adapter_name@, platform_message_id@),
            ..old_rec
        });
        self.records.insert(i, rec);
        assert(self@ =~= start.update(i as int, rec@));
        Ok(())
    }

    /// The record with this correlation id, if it is held.
    pub fn resolve(&self, correlation_id: &String) -> (r: Option<&CorrelationRecord>)
        ensures
            r is None <==> !has_id(self@, correlation_id@),
            r matches Some(rec) ==> exists|i: int|
                0 <= i < self@.len() && self@[i] == rec@ && rec@.correlation_id == correlation_id@,
    {
        match self.find(correlation_id) {
            None => None,
            Some(i) => {
                assert(self@[i as int] == self.records@[i as int]@);
                Some(&self.records[i])
            },
        }
    }

    /// Drops every record older than the age bound at time `now`.
    pub fn evict_expired(&mut self, now: u64)
        requires
            old(self).wf(),
        ensures
            final(self).wf(),
            final(self).max_records() == old(self).max_records(),
            final(self).max_age() == old(self).max_age(),
            final(self)@ == unexpired(old(self)@, now, old(self).max_age()),
    {
        let mut kept: Vec<CorrelationRecord> = Vec::new();
        let mut rest: Vec<CorrelationRecord> = Vec::new();
        core::mem::swap(&mut rest, &mut self.records);
        let ghost all = old(self)@;
        let ghost all_recs = rest@;
        let mut k: usize = 0;
        let n = rest.len();
        while rest.len() > 0
            invariant
                k + rest@.len() == n,
                n == all.len(),
                all == all_recs.map_values(|r: CorrelationRecord| r@),
                rest@ == all_recs.subrange(k as int, n as int),
                kept@.map_values(|r: CorrelationRecord| r@) == unexpired(all.subrange(0, k as int), now, self.max_age),
                self.max_age == old(self).max_age,
                self.max_records == old(self).max_records,
            decreases rest@.len(),
        {
            let r = rest.remove(0);
            assert(r == all_recs[k as int]);
            assert(all.subrange(0, k + 1).drop_last() == all.subrange(0, k as int));
            assert(all[k as int] == r@);
            let young = (r.created_at as u128) + (self.max_age as u128) >= (now as u128);
            if young {
                let ghost prev = kept@;
                kept.push(r);
                assert(kept@.map_values(|r: CorrelationRecord| r@) =~= prev.map_values(
                    |r: CorrelationRecord| r@,
                ).push(r@));
            }
            k = k + 1;
            assert(rest@ =~= all_recs.subrange(k as int, n as int));
        }
        assert(all.subrange(0, n as int) == all);
        proof {
            lemma_unexpired_sub(all, now, self.max_age);
        }
        self.records = kept;
        assert forall|i: int| 0 <= i < self@.len() implies record_wf(#[trigger] self@[i]) by {
            let j = choose|j: int| 0 <= j < all.len() && all[j] == unexpired(all, now, self.max_age)[i];
            assert(record_wf(all[j]));
        }
    }
}

pub open spec fn unique_ids(s: Seq<RecordView>) -> bool {
    forall|i: int, j: int|
        0 <= i < s.len() && 0 <= j < s.len() && i != j ==> #[trigger] s[i].correlation_id
            != #[trigger] s[j].correlation_id
}

/// The records kept by age eviction are among the given ones, so they keep
/// their well-formedness and unique ids.
proof fn lemma_unexpired_sub(s: Seq<RecordView>, now: u64, max_age: u64)
    requires
        unique_ids(s),
    ensures
        unexpired(s, now, max_age).len() <= s.len(),
        unique_ids(unexpired(s, now, max_age)),
        forall|i: int|
            0 <= i < unexpired(s, now, max_age).len() ==> exists|j: int|
                0 <= j < s.len() && s[j] == #[trigger] unexpired(s, now, max_age)[i],
    decreases s.len(),
{
    if s.len() > 0 {
        let d = s.drop_last();
        assert(unique_ids(d)) by {
            assert forall|i: int, j: int|
                0 <= i < d.len() && 0 <= j < d.len() && i != j implies #[trigger] d[i].correlation_id
                    != #[trigger] d[j].correlation_id by {
                assert(d[i] == s[i] && d[j] == s[j]);
            }
        }
        lemma_unexpired_sub(d, now, max_age);
        let u = unexpired(s, now, max_age);
        let p = unexpired(d, now, max_age);
        assert forall|i: int| 0 <= i < u.len() implies exists|j: int|
            0 <= j < s.len() && s[j] == #[trigger] u[i] by {
            if i < p.len() {
                assert(u[i] == p[i]);
                let j = choose|j: int| 0 <= j < d.len() && d[j] == p[i];
                assert(s[j] == u[i]);
            } else {
                assert(u[i] == s.last());
                assert(s[s.len() - 1] == u[i]);
            }
        }
        if !expired(s.last(), now, max_age) {
            assert forall|i: int, j: int|
                0 <= i < u.len() && 0 <= j < u.len() && i != j implies #[trigger] u[i].correlation_id
                    != #[trigger] u[j].correlation_id by {
                if i < p.len() && j < p.len() {
                    assert(u[i] == p[i] && u[j] == p[j]);
                } else if i < p.len() {
                    let k = choose|k: int| 0 <= k < d.len() && d[k] == p[i];
                    assert(s[k] == u[i]);
                    assert(u[j] == s[s.len() - 1]);
                } else {
                    let k = choose|k: int| 0 <= k < d.len() && d[k] == p[j];
                    assert(s[k] == u[j]);
                    assert(u[i] == s[s.len() - 1]);
                }
            }
        }
    }
}

} // verus!
