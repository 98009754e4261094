//! The sweep over pending items: one item per tick in rising order of their
//! numbers, and a long rest once the end is reached.

use crate::error::RepositoryError;
use crate::moderation::ModerationState;
use crate::repository::{
    any_pending_after, first_pending_after, pending_after, well_formed, ItemView,
    MetadataRepository,
};
use vstd::prelude::*;

verus! {

/// Seconds to wait after an item was looked at, or after a failed query.
pub const RECHECK_INTERVAL_SECS: u64 = 5;

/// Seconds to rest once a sweep found nothing more to look at.
pub const COOLDOWN_SECS: u64 = 600;

/// What a tick of the sweep asks for.
#[derive(Debug, Clone, PartialEq, Eq)]
pub enum SweepStep {
    /// Look at this item again, then wait the short interval.
    Check { id: u32, permalink: String },
    /// The sweep is through: rest for the cooldown, then start over.
    Rest,
    /// The repository could not be asked: wait the short interval and ask
    /// again from the same place.
    Retry,
}

impl SweepStep {
    /// Seconds to wait before the next tick.
    pub open spec fn pause(self) -> u64 {
        match self {
            SweepStep::Rest => COOLDOWN_SECS,
            _ => RECHECK_INTERVAL_SECS,
        }
    }

    /// Seconds to wait before the next tick: the cooldown after `Rest`, the
    /// short interval otherwise.
    pub fn pause_seconds(&self) -> (seconds: u64)
        ensures
            seconds == self.pause(),
    {
        match self {
            SweepStep::Rest => COOLDOWN_SECS,
            _ => RECHECK_INTERVAL_SECS,
        }
    }
}

/// How far the sweep has come: the number of the item looked at last, 0 at
/// the start of a sweep. It lives in memory only, so a new process starts a
/// new sweep.
#[derive(Debug)]
pub struct SweepCursor {
    position: u32,
}

impl View for SweepCursor {
    type V = u32;

    closed spec fn view(&self) -> u32 {
        self.position
    }
}

/// Where the cursor stands after a tick that asked `rows` from `cursor` on:
/// at the pending row with the smallest number above `cursor`, or back at 0
/// where there is none.
pub open spec fn position_after_tick(rows: Seq<ItemView>, cursor: u32) -> u32 {
    if any_pending_after(rows, cursor) {
        rows[choose|k: int| first_pending_after(rows, cursor, k)].id
    } else {
        0
    }
}

impl SweepCursor {
    /// A cursor at the start of a sweep.
    pub fn new() -> (cursor: SweepCursor)
        ensures
            cursor@ == 0,
    {
        SweepCursor { position: 0 }
    }

    /// The number above which the next tick looks for a pending item.
    pub fn position(&self) -> (position: u32)
        ensures
            position == self@,
    {
        self.position
    }

    /// Takes in what the repository answered when asked for the next
    /// pending item above the cursor. An item moves the cursor to its
    /// number and is to be checked; no item puts the cursor back to 0 and
    /// calls for a rest; a failed query leaves the cursor where it is.
    pub fn advance(&mut self, found: Result<Option<(u32, String)>, RepositoryError>) -> (step:
        SweepStep)
        ensures
            found matches Ok(Some((id, permalink))) ==> final(self)@ == id && step == (
            SweepStep::Check { id, permalink }),
            found matches Ok(None) ==> final(self)@ == 0 && step == SweepStep::Rest,
            found is Err ==> final(self)@ == old(self)@ && step == SweepStep::Retry,
    {
        match found {
            Ok(Some((id, permalink))) => {
                self.position = id;
                SweepStep::Check { id, permalink }
            },
            Ok(None) => {
                self.position = 0;
                SweepStep::Rest
            },
            Err(_) => SweepStep::Retry,
        }
    }

    /// One tick of the sweep over a repository held in memory: asks it for
    /// the next pending item above the cursor and takes the answer in.
    pub fn tick(&mut self, repository: &MetadataRepository) -> (step: SweepStep)
        requires
            repository.wf(),
        ensures
            final(self)@ == position_after_tick(repository@, old(self)@),
            any_pending_after(repository@, old(self)@) ==> (step matches SweepStep::Check {
                id,
                permalink,
            } && exists|k: int|
                first_pending_after(repository@, old(self)@, k) && repository@[k].id == id
                    && repository@[k].permalink == permalink@),
            !any_pending_after(repository@, old(self)@) ==> step == SweepStep::Rest,
    {
        let found = repository.next_pending_after(self.position);
        proof {
            if found is Some {
                let pair = found.unwrap();
                let id = pair.0;
                let permalink = pair.1;
                let k = choose|k: int|
                    first_pending_after(repository@, self@, k) && repository@[k].id == id
                        && repository@[k].permalink == permalink@;
                lemma_first_pending_unique(
                    repository@,
                    self@,
                    k,
                    choose|k: int| first_pending_after(repository@, self@, k),
                );
            }
        }
        self.advance(Ok(found))
    }
}

/// The pending row with the smallest number above a cursor is one row only.
pub proof fn lemma_first_pending_unique(rows: Seq<ItemView>, cursor: u32, k: int, other: int)
    requires
        first_pending_after(rows, cursor, k),
        first_pending_after(rows, cursor, other),
    ensures
        rows[k].id == rows[other].id,
{
    assert(pending_after(rows, cursor, k));
    assert(pending_after(rows, cursor, other));
}

/// Within a sweep the cursor only moves up: a tick that finds an item
/// leaves the cursor above where it was, on a pending row.
pub proof fn lemma_sweep_moves_up(rows: Seq<ItemView>, cursor: u32)
    requires
        any_pending_after(rows, cursor),
        well_formed(rows),
    ensures
        position_after_tick(rows, cursor) > cursor,
        exists|k: int|
            first_pending_after(rows, cursor, k) && rows[k].id == position_after_tick(
                rows,
                cursor,
            ),
{
    let witness = choose|k: int| pending_after(rows, cursor, k);
    lemma_first_pending_exists(rows, cursor, witness);
    let k = choose|k: int| first_pending_after(rows, cursor, k);
    assert(first_pending_after(rows, cursor, k));
}

/// Where some row is pending above the cursor, one of them has the smallest
/// number.
pub proof fn lemma_first_pending_exists(rows: Seq<ItemView>, cursor: u32, witness: int)
    requires
        pending_after(rows, cursor, witness),
        well_formed(rows),
    ensures
        exists|k: int| first_pending_after(rows, cursor, k),
    decreases witness,
{
    if exists|j: int| 0 <= j < witness && pending_after(rows, cursor, j) {
        let j = choose|j: int| 0 <= j < witness && pending_after(rows, cursor, j);
        lemma_first_pending_exists(rows, cursor, j);
    } else {
        assert forall|j: int| pending_after(rows, cursor, j) implies rows[witness].id
            <= rows[j].id by {
            if j > witness {
                assert(rows[witness].id < rows[j].id);
            }
        }
        assert(first_pending_after(rows, cursor, witness));
    }
}

/// The sweep wraps: once the cursor stands on the pending row with the
/// highest number, the next tick finds nothing, puts the cursor back to 0
/// and calls for the cooldown; the tick after that asks from 0 again and so
/// looks at every pending row, the one with the smallest number first.
pub proof fn lemma_sweep_wraps(rows: Seq<ItemView>, highest: int)
    requires
        well_formed(rows),
        0 <= highest < rows.len(),
        forall|j: int| pending_after(rows, 0, j) ==> rows[j].id <= rows[highest].id,
    ensures
        !any_pending_after(rows, rows[highest].id),
        position_after_tick(rows, rows[highest].id) == 0,
        SweepStep::Rest.pause() == COOLDOWN_SECS,
        forall|j: int|
            0 <= j < rows.len() && rows[j].state == ModerationState::Pending
                ==> pending_after(rows, position_after_tick(rows, rows[highest].id), j),
{
    assert forall|j: int| !pending_after(rows, rows[highest].id, j) by {
        if pending_after(rows, rows[highest].id, j) {
            assert(pending_after(rows, 0, j));
        }
    }
    assert forall|j: int|
        0 <= j < rows.len() && rows[j].state
            == ModerationState::Pending implies pending_after(rows, 0, j) by {
        assert(rows[j].id >= 1);
    }
}

/// A tick passes over no pending row: between the cursor and the place
/// where a tick leaves it, no row is pending.
pub proof fn lemma_sweep_skips_nothing(rows: Seq<ItemView>, cursor: u32, j: int)
    requires
        well_formed(rows),
        any_pending_after(rows, cursor),
        pending_after(rows, cursor, j),
    ensures
        rows[j].id >= position_after_tick(rows, cursor),
{
    lemma_sweep_moves_up(rows, cursor);
    let k = choose|k: int| first_pending_after(rows, cursor, k);
    assert(first_pending_after(rows, cursor, k));
}

} // verus!
