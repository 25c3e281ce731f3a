//! Additive merge of freshly parsed records into a persisted file.

use vstd::prelude::*;
use crate::model::{PositionConfigFile, StationConfigFile};
use crate::order::{in_file_order, sort_records, Record};
use crate::text::{chars_of, same_chars};

verus! {

/// Whether some record of `s` has identifier `k`.
pub open spec fn has_key<R: Record>(s: Seq<R>, k: Seq<char>) -> bool {
    exists|i: int| 0 <= i < s.len() && (#[trigger] s[i]).key() == k
}

/// The records of `fresh`, in order, whose identifier no record of
/// `existing` has.
pub open spec fn new_records<R: Record>(existing: Seq<R>, fresh: Seq<R>) -> Seq<R>
    decreases fresh.len(),
{
    if fresh.len() == 0 {
        Seq::empty()
    } else {
        let rest = new_records(existing, fresh.drop_last());
        if has_key(existing, fresh.last().key()) {
            rest
        } else {
            rest.push(fresh.last())
        }
    }
}

/// The existing records unchanged, followed by the new ones.
pub open spec fn merged<R: Record>(existing: Seq<R>, fresh: Seq<R>) -> Seq<R> {
    existing + new_records(existing, fresh)
}

/// Whether one of the first `upto` records has identifier `k`.
fn key_present<R: Record>(records: &Vec<R>, upto: usize, k: &String) -> (r: bool)
    requires
        upto <= records@.len(),
    ensures
        r == has_key(records@.take(upto as int), k@),
{
    let kc = chars_of(k.as_str());
    let mut i: usize = 0;
    let ghost existing = records@.take(upto as int);
    while i < upto
        invariant
            i <= upto <= records@.len(),
            existing == records@.take(upto as int),
            kc@ == k@,
            forall|q: int| 0 <= q < i ==> (#[trigger] existing[q]).key() != k@,
        decreases upto - i,
    {
        if same_chars(&chars_of(records[i].id().as_str()), &kc) {
            assert(existing[i as int] == records@[i as int]);
            return true;
        }
        i = i + 1;
    }
    false
}

/// Appends to `existing` each record of `fresh` whose identifier none of
/// the existing records has; returns the combined records and the number
/// added. Existing records are never changed.
pub fn merge_records<R: Record>(existing: Vec<R>, fresh: Vec<R>) -> (r: (Vec<R>, usize))
    ensures
        r.0@ == merged(existing@, fresh@),
        r.1 == new_records(existing@, fresh@).len(),
{
    let ghost old_existing = existing@;
    let ghost all_fresh = fresh@;
    let existing_len = existing.len();
    let mut out = existing;
    let mut rest = fresh;
    let mut added: usize = 0;
    let mut i: usize = 0;
    let n = rest.len();
    assert(all_fresh.take(0) =~= Seq::<R>::empty());
    assert(old_existing + Seq::<R>::empty() =~= old_existing);
    while rest.len() > 0
        invariant
            i + rest@.len() == n,
            n == all_fresh.len(),
            rest@ == all_fresh.skip(i as int),
            out@ == merged(old_existing, all_fresh.take(i as int)),
            added == new_records(old_existing, all_fresh.take(i as int)).len(),
            added <= i,
            existing_len == old_existing.len(),
            out@.len() >= existing_len,
        decreases rest.len(),
    {
        let x = rest.remove(0);
        proof {
            assert(all_fresh.take(i + 1).drop_last() =~= all_fresh.take(i as int));
            assert(x == all_fresh[i as int]);
            assert(rest@ =~= all_fresh.skip(i + 1));
        }
        assert(out@.take(existing_len as int) =~= old_existing);
        let present = key_present(&out, existing_len, x.id());
        if !present {
            out.push(x);
            added = added + 1;
            assert(out@ =~= merged(old_existing, all_fresh.take(i + 1)));
        } else {
            assert(out@ =~= merged(old_existing, all_fresh.take(i + 1)));
        }
        i = i + 1;
    }
    assert(all_fresh.take(n as int) =~= all_fresh);
    (out, added)
}

impl PositionConfigFile {
    /// The file to write: these freshly parsed positions merged into the
    /// existing file, where there is one, and put in file order; with the
    /// number of positions added.
    pub fn combine(self, existing: Option<PositionConfigFile>) -> (r: (PositionConfigFile, usize))
        ensures
            in_file_order(r.0.positions@),
            existing matches Some(e) ==> r.0.positions@.to_multiset() == merged(
                e.positions@,
                self.positions@,
            ).to_multiset() && r.1 == new_records(e.positions@, self.positions@).len(),
            existing is None ==> r.0.positions@.to_multiset() == self.positions@.to_multiset()
                && r.1 == self.positions@.len(),
    {
        match existing {
            Some(e) => {
                let (all, added) = merge_records(e.positions, self.positions);
                (PositionConfigFile { positions: sort_records(all) }, added)
            },
            None => {
                let n = self.positions.len();
                (PositionConfigFile { positions: sort_records(self.positions) }, n)
            },
        }
    }
}

impl StationConfigFile {
    /// The file to write: these freshly parsed stations merged into the
    /// existing file, where there is one, and put in file order; with the
    /// number of stations added.
    pub fn combine(self, existing: Option<StationConfigFile>) -> (r: (StationConfigFile, usize))
        ensures
            in_file_order(r.0.stations@),
            existing matches Some(e) ==> r.0.stations@.to_multiset() == merged(
                e.stations@,
                self.stations@,
            ).to_multiset() && r.1 == new_records(e.stations@, self.stations@).len(),
            existing is None ==> r.0.stations@.to_multiset() == self.stations@.to_multiset() && r.1
                == self.stations@.len(),
    {
        match existing {
            Some(e) => {
                let (all, added) = merge_records(e.stations, self.stations);
                (StationConfigFile { stations: sort_records(all) }, added)
            },
            None => {
                let n = self.stations.len();
                (StationConfigFile { stations: sort_records(self.stations) }, n)
            },
        }
    }
}

/// Merging records whose identifiers the existing file already holds adds
/// nothing and leaves the existing records as they were.
pub proof fn lemma_merge_idempotent<R: Record>(existing: Seq<R>, fresh: Seq<R>)
    requires
        forall|i: int| 0 <= i < fresh.len() ==> has_key(existing, (#[trigger] fresh[i]).key()),
    ensures
        new_records(existing, fresh).len() == 0,
        merged(existing, fresh) == existing,
    decreases fresh.len(),
{
    if fresh.len() > 0 {
        assert forall|i: int| 0 <= i < fresh.drop_last().len() implies has_key(
            existing,
            (#[trigger] fresh.drop_last()[i]).key(),
        ) by {
            assert(fresh.drop_last()[i] == fresh[i]);
        }
        lemma_merge_idempotent(existing, fresh.drop_last());
        assert(has_key(existing, fresh[fresh.len() - 1].key()));
    }
    assert(existing + new_records(existing, fresh) =~= existing);
}

/// Merging records of which exactly one, `fresh[k]`, has an identifier that
/// the existing file lacks adds that one record at the end, after the
/// existing records, which stay as they were.
pub proof fn lemma_merge_adds_one<R: Record>(existing: Seq<R>, fresh: Seq<R>, k: int)
    requires
        0 <= k < fresh.len(),
        !has_key(existing, fresh[k].key()),
        forall|i: int|
            0 <= i < fresh.len() && i != k ==> has_key(existing, (#[trigger] fresh[i]).key()),
    ensures
        new_records(existing, fresh).len() == 1,
        merged(existing, fresh).len() == existing.len() + 1,
        merged(existing, fresh).take(existing.len() as int) == existing,
        merged(existing, fresh).last() == fresh[k],
    decreases fresh.len(),
{
    let init = fresh.drop_last();
    if k == fresh.len() - 1 {
        assert forall|i: int| 0 <= i < init.len() implies has_key(
            existing,
            (#[trigger] init[i]).key(),
        ) by {
            assert(init[i] == fresh[i]);
        }
        lemma_merge_idempotent(existing, init);
    } else {
        assert forall|i: int| 0 <= i < init.len() && i != k implies has_key(
            existing,
            (#[trigger] init[i]).key(),
        ) by {
            assert(init[i] == fresh[i]);
        }
        assert(init[k] == fresh[k]);
        lemma_merge_adds_one(existing, init, k);
        assert(has_key(existing, fresh[fresh.len() - 1].key()));
    }
    assert(merged(existing, fresh).take(existing.len() as int) =~= existing);
}

} // verus!
