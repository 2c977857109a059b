//! Stratum V2 protocol state management.
//!
//! Tracks the channel and the sequence numbers of submitted shares, the
//! future jobs that wait for their previous-block hash, the pending
//! previous-block hash, the current share target and the version-rolling
//! mask.

use super::messages::{NewMiningJob, NewMiningJobView, SetNewPrevHash, SetNewPrevHashView};
use std::collections::HashMap;
use vstd::prelude::*;

verus! {

/// The keys of a table that are larger than `id`.
pub open spec fn larger_keys(keys: Set<u32>, id: u32) -> Set<u32> {
    keys.filter(|k: u32| k > id)
}

/// A key stays in a window of `keep` entries when fewer than `keep` keys of
/// the table are larger than it.
pub open spec fn is_kept(keys: Set<u32>, id: u32, keep: nat) -> bool {
    keys.contains(id) && larger_keys(keys, id).len() < keep
}

/// The table cut down to its `keep` entries with the largest keys.
pub open spec fn keep_largest<V>(table: Map<u32, V>, keep: nat) -> Map<u32, V> {
    table.restrict(Set::new(|id: u32| is_kept(table.dom(), id, keep)))
}

/// The jobs of a table by what they hold.
spec fn job_views(jobs: Map<u32, NewMiningJob>) -> Map<u32, NewMiningJobView> {
    Map::new(|id: u32| jobs.dom().contains(id), |id: u32| jobs[id]@)
}

/// Every job of the table stands under its own id.
pub open spec fn keyed_by_id(table: Map<u32, NewMiningJobView>) -> bool {
    forall|id: u32| table.dom().contains(id) ==> (#[trigger] table[id]).job_id == id
}

/// Future jobs by job id: at most one job for each id, each under its own.
pub struct FutureJobs {
    jobs: HashMap<u32, NewMiningJob>,
}

impl View for FutureJobs {
    type V = Map<u32, NewMiningJobView>;

    closed spec fn view(&self) -> Map<u32, NewMiningJobView> {
        job_views(self.jobs@)
    }
}

impl FutureJobs {
    #[verifier::type_invariant]
    spec fn well_keyed(&self) -> bool {
        keyed_by_id(job_views(self.jobs@))
    }

    /// An empty table.
    pub fn new() -> (table: Self)
        ensures
            table@ == Map::<u32, NewMiningJobView>::empty(),
    {
        let table = Self { jobs: HashMap::new() };
        proof {
            assert(job_views(table.jobs@) =~= Map::<u32, NewMiningJobView>::empty());
        }
        table
    }

    /// Number of jobs in the table.
    pub fn len(&self) -> (n: usize)
        ensures
            self@.dom().finite(),
            n == self@.dom().len(),
    {
        broadcast use vstd::std_specs::hash::group_hash_axioms;

        proof {
            assert(self@.dom() =~= self.jobs@.dom());
        }
        self.jobs.len()
    }

    /// Whether the table holds no job.
    pub fn is_empty(&self) -> (empty: bool)
        ensures
            empty == (self@ == Map::<u32, NewMiningJobView>::empty()),
    {
        broadcast use vstd::std_specs::hash::group_hash_axioms;

        proof {
            assert(self@.dom() =~= self.jobs@.dom());
            if self.jobs@.dom().len() == 0 {
                assert(self@ =~= Map::<u32, NewMiningJobView>::empty());
            } else {
                assert(self@.dom().len() != 0);
            }
        }
        self.jobs.len() == 0
    }

    /// Whether the table holds a job with this id.
    pub fn contains_key(&self, job_id: u32) -> (found: bool)
        ensures
            found == self@.dom().contains(job_id),
    {
        broadcast use vstd::std_specs::hash::group_hash_axioms;

        self.jobs.contains_key(&job_id)
    }

    /// The job with this id, if the table holds one.
    pub fn get(&self, job_id: u32) -> (job: Option<&NewMiningJob>)
        ensures
            match job {
                Some(j) => self@.dom().contains(job_id) && self@[job_id] == j@ && j.job_id
                    == job_id,
                None => !self@.dom().contains(job_id),
            },
    {
        broadcast use vstd::std_specs::hash::group_hash_axioms;

        proof {
            use_type_invariant(self);
        }
        let job = self.jobs.get(&job_id);
        proof {
            if let Some(j) = job {
                assert(job_views(self.jobs@)[job_id].job_id == job_id);
            }
        }
        job
    }

    /// Puts a job into the table under its id, in place of one with the
    /// same id.
    pub fn insert(&mut self, job: NewMiningJob)
        ensures
            final(self)@ == old(self)@.insert(job.job_id, job@),
    {
        broadcast use vstd::std_specs::hash::group_hash_axioms;

        proof {
            use_type_invariant(&*self);
        }
        let ghost before = self.jobs@;
        let ghost id = job.job_id;
        let ghost held = job@;
        let mut jobs: HashMap<u32, NewMiningJob> = HashMap::new();
        core::mem::swap(&mut self.jobs, &mut jobs);
        let _ = jobs.insert(job.job_id, job);
        proof {
            assert(job_views(jobs@) =~= job_views(before).insert(id, held));
            assert forall|k: u32| job_views(jobs@).dom().contains(k) implies (
            #[trigger] job_views(jobs@)[k]).job_id == k by {
                if k != id {
                    assert(job_views(before)[k].job_id == k);
                }
            }
        }
        self.jobs = jobs;
    }

    /// Cuts the table down to its `keep_count` jobs with the largest ids.
    pub fn retain_largest(&mut self, keep_count: usize)
        ensures
            final(self)@ == keep_largest(old(self)@, keep_count as nat),
    {
        broadcast use vstd::std_specs::hash::group_hash_axioms;

        proof {
            use_type_invariant(&*self);
        }
        let mut jobs: HashMap<u32, NewMiningJob> = HashMap::new();
        core::mem::swap(&mut self.jobs, &mut jobs);
        while jobs.len() > keep_count
            invariant
                keyed_by_id(job_views(jobs@)),
                keep_largest(job_views(jobs@), keep_count as nat) == keep_largest(
                    old(self)@,
                    keep_count as nat,
                ),
            decreases jobs@.dom().len(),
        {
            let ghost before = jobs@;
            let lowest = smallest_id(&jobs);
            let _ = jobs.remove(&lowest);
            proof {
                assert(job_views(before).dom() =~= before.dom());
                assert(job_views(jobs@) =~= job_views(before).remove(lowest));
                lemma_drop_smallest(job_views(before), keep_count as nat, lowest);
                assert forall|k: u32| job_views(jobs@).dom().contains(k) implies (
                #[trigger] job_views(jobs@)[k]).job_id == k by {
                    assert(job_views(before)[k].job_id == k);
                }
            }
        }
        proof {
            assert(job_views(jobs@).dom() =~= jobs@.dom());
            lemma_small_table_is_kept(job_views(jobs@), keep_count as nat);
        }
        self.jobs = jobs;
    }
}

/// The smallest id of a table that is not empty.
fn smallest_id(jobs: &HashMap<u32, NewMiningJob>) -> (lowest: u32)
    requires
        jobs@.dom().len() > 0,
    ensures
        jobs@.dom().contains(lowest),
        forall|k: u32| jobs@.dom().contains(k) ==> lowest <= k,
{
    broadcast use vstd::std_specs::hash::group_hash_axioms;

    let mut lowest: u32 = u32::MAX;
    let mut seen: bool = false;
    for k in it: jobs.keys()
        invariant
            jobs@.dom().len() > 0,
            it.seq().unref().to_set() == jobs@.dom(),
            it.seq().len() == jobs@.dom().len(),
            seen == (it.index() > 0),
            seen ==> jobs@.dom().contains(lowest),
            forall|j: int| 0 <= j < it.index() ==> lowest <= #[trigger] it.seq().unref()[j],
        ensures
            jobs@.dom().contains(lowest),
            forall|k: u32| jobs@.dom().contains(k) ==> lowest <= k,
    {
        proof {
            let keys = it.seq().unref();
            assert(keys[it.index()] == *k);
            assert(keys.to_set().contains(keys[it.index()]));
        }
        if !seen || *k < lowest {
            lowest = *k;
        }
        seen = true;
    }
    lowest
}

/// A table with no more than `keep` entries is its own window.
pub proof fn lemma_small_table_is_kept<V>(table: Map<u32, V>, keep: nat)
    requires
        table.dom().finite(),
        table.dom().len() <= keep,
    ensures
        keep_largest(table, keep) == table,
{
    let keys = table.dom();
    assert forall|id: u32| keys.contains(id) implies is_kept(keys, id, keep) by {
        let larger = larger_keys(keys, id);
        assert(larger.subset_of(keys.remove(id)));
        vstd::set_lib::lemma_len_subset(larger, keys.remove(id));
    }
    assert(keep_largest(table, keep) =~= table);
}

/// Taking the smallest key out of a table with more than `keep` entries
/// leaves its window as it was.
pub proof fn lemma_drop_smallest<V>(table: Map<u32, V>, keep: nat, smallest: u32)
    requires
        table.dom().finite(),
        table.dom().len() > keep,
        table.dom().contains(smallest),
        forall|k: u32| table.dom().contains(k) ==> smallest <= k,
    ensures
        keep_largest(table.remove(smallest), keep) == keep_largest(table, keep),
{
    let keys = table.dom();
    let rest = keys.remove(smallest);
    assert(table.remove(smallest).dom() =~= rest);
    assert(larger_keys(keys, smallest) =~= rest);
    assert(!is_kept(keys, smallest, keep));
    assert forall|id: u32| rest.contains(id) implies larger_keys(rest, id) == larger_keys(
        keys,
        id,
    ) by {
        assert(larger_keys(rest, id) =~= larger_keys(keys, id));
    }
    assert(keep_largest(table.remove(smallest), keep) =~= keep_largest(table, keep));
}

/// Keys larger than `id` are found in a larger table too.
proof fn lemma_larger_keys_subset(small: Set<u32>, big: Set<u32>, id: u32)
    requires
        big.finite(),
        small.subset_of(big),
    ensures
        larger_keys(small, id).subset_of(larger_keys(big, id)),
        larger_keys(small, id).len() <= larger_keys(big, id).len(),
        larger_keys(big, id).finite(),
{
    big.lemma_len_filter(|k: u32| k > id);
    vstd::set_lib::lemma_len_subset(larger_keys(small, id), larger_keys(big, id));
}

/// A larger key has fewer keys above it.
proof fn lemma_larger_keys_strict(keys: Set<u32>, low: u32, high: u32)
    requires
        keys.finite(),
        keys.contains(high),
        high > low,
    ensures
        larger_keys(keys, high).len() < larger_keys(keys, low).len(),
{
    keys.lemma_len_filter(|k: u32| k > low);
    let above_low = larger_keys(keys, low);
    assert(above_low.contains(high));
    assert(larger_keys(keys, high).subset_of(above_low.remove(high)));
    vstd::set_lib::lemma_len_subset(larger_keys(keys, high), above_low.remove(high));
}

/// Keys of the window of a table.
spec fn window_keys(keys: Set<u32>, keep: nat) -> Set<u32> {
    keys.filter(|id: u32| is_kept(keys, id, keep))
}

/// When `keep` keys or more lie above `id` in a table, as many lie above it
/// in the window of the table.
proof fn lemma_window_holds_the_largest(keys: Set<u32>, id: u32, keep: nat)
    requires
        keys.finite(),
        larger_keys(keys, id).len() >= keep,
    ensures
        larger_keys(window_keys(keys, keep), id).len() >= keep,
    decreases larger_keys(keys, id).len(),
{
    let window = window_keys(keys, keep);
    keys.lemma_len_filter(|k: u32| is_kept(keys, k, keep));
    if larger_keys(keys, id).subset_of(window) {
        assert(larger_keys(window, id) =~= larger_keys(keys, id));
    } else {
        let y = choose|y: u32| larger_keys(keys, id).contains(y) && !window.contains(y);
        assert(!is_kept(keys, y, keep));
        lemma_larger_keys_strict(keys, id, y);
        lemma_window_holds_the_largest(keys, y, keep);
        assert(larger_keys(window, y).subset_of(larger_keys(window, id)));
        window.lemma_len_filter(|k: u32| k > id);
        vstd::set_lib::lemma_len_subset(larger_keys(window, y), larger_keys(window, id));
    }
}

/// The window can be kept as entries arrive: the window of a table with one
/// more entry is the window of the old window with that entry.
pub proof fn lemma_window_streaming<V>(table: Map<u32, V>, id: u32, value: V, keep: nat)
    requires
        table.dom().finite(),
    ensures
        keep_largest(keep_largest(table, keep).insert(id, value), keep) == keep_largest(
            table.insert(id, value),
            keep,
        ),
{
    let keys = table.dom();
    let window = window_keys(keys, keep);
    let keys1 = keys.insert(id);
    let window1 = window.insert(id);
    keys.lemma_len_filter(|k: u32| is_kept(keys, k, keep));
    assert(keep_largest(table, keep).dom() =~= window);
    assert(keep_largest(table, keep).insert(id, value).dom() =~= window1);
    assert(table.insert(id, value).dom() =~= keys1);
    assert(window1.subset_of(keys1));
    assert forall|z: u32| is_kept(window1, z, keep) <==> is_kept(keys1, z, keep) by {
        lemma_larger_keys_subset(window1, keys1, z);
        lemma_larger_keys_subset(keys, keys1, z);
        if is_kept(keys1, z, keep) {
            if z != id {
                assert(is_kept(keys, z, keep));
                assert(window.contains(z));
            }
        }
        if is_kept(window1, z, keep) {
            if window.contains(z) {
                assert forall|y: u32| larger_keys(keys, z).contains(y) implies window.contains(
                    y,
                ) by {
                    lemma_larger_keys_strict(keys, z, y);
                }
                assert(larger_keys(keys1, z) =~= larger_keys(window1, z));
            } else {
                assert(z == id);
                assert(larger_keys(keys1, id) =~= larger_keys(keys, id));
                assert(larger_keys(window1, id) =~= larger_keys(window, id));
                if larger_keys(keys, id).len() >= keep {
                    lemma_window_holds_the_largest(keys, id, keep);
                }
            }
        }
    }
    assert(keep_largest(keep_largest(table, keep).insert(id, value), keep) =~= keep_largest(
        table.insert(id, value),
        keep,
    ));
}

/// A finite set of keys that is not empty has a smallest key.
pub proof fn lemma_smallest_key(keys: Set<u32>) -> (low: u32)
    requires
        keys.finite(),
        keys.len() > 0,
    ensures
        keys.contains(low),
        forall|k: u32| keys.contains(k) ==> low <= k,
    decreases keys.len(),
{
    let x = keys.choose();
    let rest = keys.remove(x);
    if rest.len() == 0 {
        assert forall|k: u32| keys.contains(k) implies x <= k by {
            if k != x {
                assert(rest.contains(k));
            }
        }
        x
    } else {
        let m = lemma_smallest_key(rest);
        let low = if x < m {
            x
        } else {
            m
        };
        assert forall|k: u32| keys.contains(k) implies low <= k by {
            if k != x {
                assert(rest.contains(k));
            }
        }
        low
    }
}

/// The window of a table never has more than `keep` entries, and is finite.
pub proof fn lemma_window_is_bounded<V>(table: Map<u32, V>, keep: nat)
    requires
        table.dom().finite(),
    ensures
        keep_largest(table, keep).dom().finite(),
        keep_largest(table, keep).dom().len() <= keep,
{
    let keys = table.dom();
    let window = window_keys(keys, keep);
    keys.lemma_len_filter(|k: u32| is_kept(keys, k, keep));
    assert(keep_largest(table, keep).dom() =~= window);
    if window.len() > keep {
        // The smallest key of the window has all others of the window above it.
        let low = lemma_smallest_key(window);
        assert(window.remove(low).subset_of(larger_keys(keys, low)));
        keys.lemma_len_filter(|k: u32| k > low);
        vstd::set_lib::lemma_len_subset(window.remove(low), larger_keys(keys, low));
    }
}

/// The sequence number after `n`: one more, and 0 after the largest.
pub open spec fn following(n: u32) -> u32 {
    if n == u32::MAX {
        0
    } else {
        (n + 1) as u32
    }
}

/// Counter of share submissions on a channel. It can only be read by
/// taking the next number.
pub struct SequenceCounter {
    next: u32,
}

impl View for SequenceCounter {
    type V = u32;

    /// The number that will be taken next.
    closed spec fn view(&self) -> u32 {
        self.next
    }
}

impl SequenceCounter {
    /// A counter that starts at 0.
    pub fn new() -> (counter: Self)
        ensures
            counter@ == 0,
    {
        Self { next: 0 }
    }

    /// Takes the next number.
    pub fn take(&mut self) -> (n: u32)
        ensures
            n == old(self)@,
            final(self)@ == following(old(self)@),
    {
        let n = self.next;
        self.next = if n == u32::MAX {
            0
        } else {
            n + 1
        };
        n
    }
}

/// The window of a table has `keep` entries, or all entries of the table if
/// those are fewer.
pub proof fn lemma_window_size<V>(table: Map<u32, V>, keep: nat)
    requires
        table.dom().finite(),
    ensures
        keep_largest(table, keep).dom().len() == if table.dom().len() <= keep {
            table.dom().len()
        } else {
            keep
        },
    decreases table.dom().len(),
{
    if table.dom().len() <= keep {
        lemma_small_table_is_kept(table, keep);
    } else {
        let low = lemma_smallest_key(table.dom());
        lemma_drop_smallest(table, keep, low);
        assert(table.remove(low).dom() =~= table.dom().remove(low));
        lemma_window_size(table.remove(low), keep);
    }
}

/// Protocol state for a Stratum V2 connection.
pub struct ProtocolState {
    /// Channel id from `OpenStandardMiningChannelSuccess`.
    pub channel_id: Option<u32>,
    /// Sequence number for the next share submission.
    pub sequence_number: SequenceCounter,
    /// Future jobs waiting for their `SetNewPrevHash`.
    pub future_jobs: FutureJobs,
    /// Most recent `SetNewPrevHash` (may arrive before its job).
    pub prev_hash: Option<SetNewPrevHash>,
    /// Current share target from `SetTarget`.
    pub current_target: Option<Vec<u8>>,
    /// Version mask for version rolling.
    pub version_mask: Option<u32>,
}

/// What a [`ProtocolState`] holds.
pub ghost struct ProtocolStateView {
    pub channel_id: Option<u32>,
    pub sequence_number: u32,
    pub future_jobs: Map<u32, NewMiningJobView>,
    pub prev_hash: Option<SetNewPrevHashView>,
    pub current_target: Option<Seq<u8>>,
    pub version_mask: Option<u32>,
}

/// View of a previous-block hash that may be absent.
pub open spec fn prev_hash_view(prev_hash: Option<SetNewPrevHash>) -> Option<SetNewPrevHashView> {
    match prev_hash {
        Some(p) => Some(p@),
        None => None,
    }
}

/// View of a target that may be absent.
pub open spec fn target_view(target: Option<Vec<u8>>) -> Option<Seq<u8>> {
    match target {
        Some(t) => Some(t@),
        None => None,
    }
}

impl View for ProtocolState {
    type V = ProtocolStateView;

    open spec fn view(&self) -> ProtocolStateView {
        ProtocolStateView {
            channel_id: self.channel_id,
            sequence_number: self.sequence_number@,
            future_jobs: self.future_jobs@,
            prev_hash: prev_hash_view(self.prev_hash),
            current_target: target_view(self.current_target),
            version_mask: self.version_mask,
        }
    }
}

/// The state of a fresh connection: nothing known, sequence numbers from 0.
pub open spec fn initial_state() -> ProtocolStateView {
    ProtocolStateView {
        channel_id: None,
        sequence_number: 0,
        future_jobs: Map::empty(),
        prev_hash: None,
        current_target: None,
        version_mask: None,
    }
}

impl ProtocolState {
    /// The state of a fresh connection.
    pub fn new() -> (state: Self)
        ensures
            state@ == initial_state(),
    {
        Self {
            channel_id: None,
            sequence_number: SequenceCounter::new(),
            future_jobs: FutureJobs::new(),
            prev_hash: None,
            current_target: None,
            version_mask: None,
        }
    }

    /// Get next sequence number for share submission: the numbers go up by
    /// one from 0.
    pub fn next_sequence_number(&mut self) -> (n: u32)
        ensures
            n == old(self)@.sequence_number,
            final(self)@ == (ProtocolStateView {
                sequence_number: following(old(self)@.sequence_number),
                ..old(self)@
            }),
    {
        self.sequence_number.take()
    }

    /// Store a future job.
    pub fn store_future_job(&mut self, job: NewMiningJob)
        ensures
            final(self)@ == (ProtocolStateView {
                future_jobs: old(self)@.future_jobs.insert(job.job_id, job@),
                ..old(self)@
            }),
    {
        self.future_jobs.insert(job);
    }

    /// Get a future job by job id.
    pub fn get_future_job(&self, job_id: u32) -> (job: Option<&NewMiningJob>)
        ensures
            match job {
                Some(j) => self@.future_jobs.dom().contains(job_id) && self@.future_jobs[job_id]
                    == j@ && j.job_id == job_id,
                None => !self@.future_jobs.dom().contains(job_id),
            },
    {
        self.future_jobs.get(job_id)
    }

    /// Remove old future jobs: keep only the `keep_count` with the largest
    /// job ids.
    pub fn clean_old_jobs(&mut self, keep_count: usize)
        ensures
            final(self)@ == (ProtocolStateView {
                future_jobs: keep_largest(old(self)@.future_jobs, keep_count as nat),
                ..old(self)@
            }),
    {
        self.future_jobs.retain_largest(keep_count);
    }
}

impl Default for ProtocolState {
    fn default() -> (state: Self)
        ensures
            state@ == initial_state(),
    {
        Self::new()
    }
}

} // verus!
