//! The expiry sweep's selection rule. A sweep pass lists every entry of the
//! storage root with its age and removes those strictly older than the
//! retention period; entries at or under the threshold survive untouched.
//! Listing, statting and removing are the caller's side effects; the choice
//! of what to remove is decided here.

use vstd::prelude::*;

verus! {

/// How often a sweep pass runs, and how long the first pass waits after
/// start-up: distinct from, and typically shorter than, the retention
/// period.
pub const SWEEP_CHECK_PERIOD_SECS: u64 = 60;

/// One directory entry as a sweep pass sees it: its file name and the whole
/// seconds elapsed since it was last modified.
#[derive(Clone, Debug)]
pub struct SweepEntry {
    pub name: String,
    pub age_secs: u64,
}

/// An entry is expired when its age strictly exceeds the retention period.
pub fn is_expired(age_secs: u64, retention_secs: u64) -> (b: bool)
    ensures
        b == (age_secs > retention_secs),
{
    age_secs > retention_secs
}

/// The names of the expired entries, in listing order.
pub open spec fn expired_names(entries: Seq<SweepEntry>, retention_secs: u64) -> Seq<Seq<char>>
    decreases entries.len(),
{
    if entries.len() == 0 {
        Seq::empty()
    } else {
        let rest = expired_names(entries.drop_first(), retention_secs);
        if entries[0].age_secs > retention_secs {
            seq![entries[0].name@] + rest
        } else {
            rest
        }
    }
}

/// Every expired entry's name is selected.
pub proof fn lemma_expired_names_complete(entries: Seq<SweepEntry>, retention_secs: u64, i: int)
    requires
        0 <= i < entries.len(),
        entries[i].age_secs > retention_secs,
    ensures
        expired_names(entries, retention_secs).contains(entries[i].name@),
    decreases entries.len(),
{
    let sel = expired_names(entries, retention_secs);
    if i == 0 {
        assert(sel[0] == entries[0].name@);
    } else {
        lemma_expired_names_complete(entries.drop_first(), retention_secs, i - 1);
        let rest = expired_names(entries.drop_first(), retention_secs);
        let j = choose|j: int| 0 <= j < rest.len() && rest[j] == entries[i].name@;
        if entries[0].age_secs > retention_secs {
            assert(sel[j + 1] == rest[j]);
        }
    }
}

/// Only expired entries are selected: each selected name belongs to an entry
/// strictly older than the retention period, so a younger blob survives the
/// pass untouched.
pub proof fn lemma_expired_names_sound(entries: Seq<SweepEntry>, retention_secs: u64, j: int)
    requires
        0 <= j < expired_names(entries, retention_secs).len(),
    ensures
        exists|i: int|
            0 <= i < entries.len() && entries[i].age_secs > retention_secs && entries[i].name@
                == expired_names(entries, retention_secs)[j],
    decreases entries.len(),
{
    let sel = expired_names(entries, retention_secs);
    if entries.len() == 0 {
    } else if entries[0].age_secs > retention_secs {
        if j == 0 {
            assert(entries[0].age_secs > retention_secs && entries[0].name@ == sel[0]);
        } else {
            lemma_expired_names_sound(entries.drop_first(), retention_secs, j - 1);
            let rest = expired_names(entries.drop_first(), retention_secs);
            let i = choose|i: int|
                0 <= i < entries.drop_first().len() && entries.drop_first()[i].age_secs
                    > retention_secs && entries.drop_first()[i].name@ == rest[j - 1];
            assert(entries[i + 1].age_secs > retention_secs && entries[i + 1].name@ == sel[j]);
        }
    } else {
        lemma_expired_names_sound(entries.drop_first(), retention_secs, j);
        let i = choose|i: int|
            0 <= i < entries.drop_first().len() && entries.drop_first()[i].age_secs
                > retention_secs && entries.drop_first()[i].name@ == sel[j];
        assert(entries[i + 1].age_secs > retention_secs && entries[i + 1].name@ == sel[j]);
    }
}

/// Plans one sweep pass over the listed entries: returns the names to remove,
/// exactly those whose age strictly exceeds the retention period, in listing
/// order. The pass covers every entry it was given; a failure on one entry is
/// the caller's to log and skip, never a reason to abort the others.
pub fn sweep_plan(entries: &Vec<SweepEntry>, retention_secs: u64) -> (doomed: Vec<String>)
    ensures
        doomed.deep_view() == expired_names(entries@, retention_secs),
        forall|i: int|
            0 <= i < entries@.len() && #[trigger] entries@[i].age_secs > retention_secs
                ==> doomed.deep_view().contains(entries@[i].name@),
        forall|j: int|
            0 <= j < doomed.deep_view().len() ==> exists|i: int|
                0 <= i < entries@.len() && entries@[i].age_secs > retention_secs
                    && entries@[i].name@ == #[trigger] doomed.deep_view()[j],
{
    let n: usize = entries.len();
    let mut doomed: Vec<String> = Vec::new();
    let mut i: usize = 0;
    proof {
        assert(entries@.subrange(0, n as int) =~= entries@);
        assert(doomed.deep_view() + expired_names(entries@, retention_secs) =~= expired_names(
            entries@,
            retention_secs,
        ));
    }
    while i < n
        invariant
            n == entries@.len(),
            0 <= i <= n,
            doomed.deep_view() + expired_names(entries@.subrange(i as int, n as int), retention_secs)
                == expired_names(entries@, retention_secs),
        decreases n - i,
    {
        let ghost pre = doomed.deep_view();
        let ghost tail_i = entries@.subrange(i as int, n as int);
        proof {
            assert(tail_i.drop_first() =~= entries@.subrange(i as int + 1, n as int));
        }
        if is_expired(entries[i].age_secs, retention_secs) {
            doomed.push(entries[i].name.clone());
            proof {
                assert(doomed.deep_view() =~= pre + seq![entries@[i as int].name@]);
                assert(doomed.deep_view() + expired_names(
                    entries@.subrange(i as int + 1, n as int),
                    retention_secs,
                ) =~= pre + expired_names(tail_i, retention_secs));
            }
        }
        i = i + 1;
    }
    proof {
        assert(entries@.subrange(n as int, n as int) =~= Seq::<SweepEntry>::empty());
        assert(doomed.deep_view() =~= doomed.deep_view() + Seq::<Seq<char>>::empty());
        assert forall|k: int|
            0 <= k < entries@.len() && #[trigger] entries@[k].age_secs
                > retention_secs implies doomed.deep_view().contains(entries@[k].name@) by {
            lemma_expired_names_complete(entries@, retention_secs, k);
        }
        assert forall|j: int| 0 <= j < doomed.deep_view().len() implies exists|k: int|
            0 <= k < entries@.len() && entries@[k].age_secs > retention_secs && entries@[k].name@
                == #[trigger] doomed.deep_view()[j] by {
            lemma_expired_names_sound(entries@, retention_secs, j);
        }
    }
    doomed
}

} // verus!
