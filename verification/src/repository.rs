//! The metadata repository: one row for each stored item, with its
//! moderation state.

use crate::bytes::{copy_bytes, same_bytes};
use crate::digest::{hex_upper, storage_key};
use crate::error::RepositoryError;
use crate::moderation::ModerationState;
use vstd::prelude::*;
use vstd::string::StringExecFns;

verus! {

/// One stored item.
#[derive(Debug, Clone, PartialEq, Eq)]
pub struct IngestedItem {
    /// The number that the repository gave the item.
    pub id: u32,
    /// The digest of the item's blob.
    pub digest: Vec<u8>,
    /// The address of the post within the feed.
    pub permalink: String,
    /// Where the picture was fetched from.
    pub source_url: String,
    /// The content type that the picture's host named.
    pub content_type: String,
    pub state: ModerationState,
}

/// A stored item as plain values.
pub struct ItemView {
    pub id: u32,
    pub digest: Seq<u8>,
    pub permalink: Seq<char>,
    pub source_url: Seq<char>,
    pub content_type: Seq<char>,
    pub state: ModerationState,
}

impl View for IngestedItem {
    type V = ItemView;

    open spec fn view(&self) -> ItemView {
        ItemView {
            id: self.id,
            digest: self.digest@,
            permalink: self.permalink@,
            source_url: self.source_url@,
            content_type: self.content_type@,
            state: self.state,
        }
    }
}

/// A stored item as it is described to the outside: the digest in
/// upper-case hexadecimal, the state as two flags of which one at most is
/// set.
#[derive(Debug, Clone, PartialEq, Eq)]
pub struct ImageData {
    pub id: u32,
    pub hash: String,
    pub permalink: String,
    pub content_type: String,
    pub banned: bool,
    pub verified: bool,
}

impl IngestedItem {
    /// The item as it is described to the outside.
    pub fn describe(&self) -> (data: ImageData)
        ensures
            data.id == self.id,
            data.hash@ == hex_upper(self.digest@),
            data.permalink@ == self.permalink@,
            data.content_type@ == self.content_type@,
            data.banned == (self.state == ModerationState::Banned),
            data.verified == (self.state == ModerationState::Verified),
            !(data.banned && data.verified),
    {
        ImageData {
            id: self.id,
            hash: storage_key(self.digest.as_slice()),
            permalink: self.permalink.clone(),
            content_type: self.content_type.clone(),
            banned: match self.state {
                ModerationState::Banned => true,
                _ => false,
            },
            verified: match self.state {
                ModerationState::Verified => true,
                _ => false,
            },
        }
    }

    /// A copy of this item.
    pub fn duplicate(&self) -> (copy: IngestedItem)
        ensures
            copy@ == self@,
    {
        IngestedItem {
            id: self.id,
            digest: copy_bytes(self.digest.as_slice()),
            permalink: self.permalink.clone(),
            source_url: self.source_url.clone(),
            content_type: self.content_type.clone(),
            state: self.state,
        }
    }
}

/// Rows as a repository keeps them: numbered from 1 in rising order, and no
/// two with the same digest.
pub open spec fn well_formed(rows: Seq<ItemView>) -> bool {
    &&& forall|i: int| 0 <= i < rows.len() ==> (#[trigger] rows[i]).id >= 1
    &&& forall|i: int, j: int|
        0 <= i < j < rows.len() ==> (#[trigger] rows[i]).id < (#[trigger] rows[j]).id
    &&& forall|i: int, j: int|
        0 <= i < j < rows.len() ==> (#[trigger] rows[i]).digest != (#[trigger] rows[j]).digest
}

/// Whether some row has this digest.
pub open spec fn has_digest(rows: Seq<ItemView>, digest: Seq<u8>) -> bool {
    exists|i: int| 0 <= i < rows.len() && (#[trigger] rows[i]).digest == digest
}

/// The number that the next new row gets: one more than the last.
pub open spec fn next_id(rows: Seq<ItemView>) -> int {
    if rows.len() == 0 {
        1
    } else {
        rows.last().id + 1
    }
}

/// A new row as it is first stored: pending.
pub open spec fn new_row(
    id: u32,
    digest: Seq<u8>,
    permalink: Seq<char>,
    source_url: Seq<char>,
    content_type: Seq<char>,
) -> ItemView {
    ItemView { id, digest, permalink, source_url, content_type, state: ModerationState::Pending }
}

/// The rows after an insert was asked for: unchanged where the digest is
/// taken or the numbers have run out, else with the new row at the end.
pub open spec fn after_insert(
    rows: Seq<ItemView>,
    digest: Seq<u8>,
    permalink: Seq<char>,
    source_url: Seq<char>,
    content_type: Seq<char>,
) -> Seq<ItemView> {
    if has_digest(rows, digest) || next_id(rows) > u32::MAX {
        rows
    } else {
        rows.push(new_row(next_id(rows) as u32, digest, permalink, source_url, content_type))
    }
}

/// What an insert answers.
pub open spec fn insert_result(rows: Seq<ItemView>, digest: Seq<u8>) -> Result<
    u32,
    RepositoryError,
> {
    if has_digest(rows, digest) {
        Err(RepositoryError::Duplicate)
    } else if next_id(rows) > u32::MAX {
        Err(RepositoryError::Persistence)
    } else {
        Ok(next_id(rows) as u32)
    }
}

/// The rows after the row numbered `id`, if there is one, was put in
/// `state`.
pub open spec fn after_transition(rows: Seq<ItemView>, id: u32, state: ModerationState) -> Seq<
    ItemView,
> {
    Seq::new(
        rows.len(),
        |i: int|
            if rows[i].id == id {
                ItemView { state, ..rows[i] }
            } else {
                rows[i]
            },
    )
}

/// Row `k` is pending and numbered above `after`.
pub open spec fn pending_after(rows: Seq<ItemView>, after: u32, k: int) -> bool {
    0 <= k < rows.len() && rows[k].state == ModerationState::Pending && rows[k].id > after
}

/// Some row is pending and numbered above `after`.
pub open spec fn any_pending_after(rows: Seq<ItemView>, after: u32) -> bool {
    exists|k: int| pending_after(rows, after, k)
}

/// Row `k` is, of the pending rows numbered above `after`, the one with the
/// smallest number.
pub open spec fn first_pending_after(rows: Seq<ItemView>, after: u32, k: int) -> bool {
    &&& pending_after(rows, after, k)
    &&& forall|j: int| pending_after(rows, after, j) ==> rows[k].id <= rows[j].id
}

/// Row `k` is the one numbered `id`.
pub open spec fn row_at(rows: Seq<ItemView>, id: u32, k: int) -> bool {
    0 <= k < rows.len() && rows[k].id == id
}

/// Some row is numbered `id`.
pub open spec fn has_id(rows: Seq<ItemView>, id: u32) -> bool {
    exists|k: int| row_at(rows, id, k)
}

/// Row `k` is numbered `id` and may be shown.
pub open spec fn servable_at(rows: Seq<ItemView>, id: u32, k: int) -> bool {
    row_at(rows, id, k) && rows[k].state != ModerationState::Banned
}

/// The rows that may be shown: all but the banned ones, in their order.
pub open spec fn servable(rows: Seq<ItemView>) -> Seq<ItemView> {
    rows.filter(|row: ItemView| row.state != ModerationState::Banned)
}

/// A metadata repository held in memory. It behaves as every metadata
/// repository must: a digest is stored once, numbers rise and are never
/// used twice, and rows are never removed.
pub struct MetadataRepository {
    rows: Vec<IngestedItem>,
}

impl View for MetadataRepository {
    type V = Seq<ItemView>;

    /// The rows, in the order in which they were inserted.
    closed spec fn view(&self) -> Seq<ItemView> {
        Seq::new(self.rows@.len(), |i: int| self.rows@[i]@)
    }
}

impl MetadataRepository {
    /// The rows are numbered in rising order from 1 and no digest is stored
    /// twice.
    pub open spec fn wf(&self) -> bool {
        well_formed(self@)
    }

    /// A repository without rows.
    pub fn new() -> (repository: MetadataRepository)
        ensures
            repository.wf(),
            repository@.len() == 0,
    {
        MetadataRepository { rows: Vec::new() }
    }

    /// The number of rows.
    pub fn len(&self) -> (count: usize)
        ensures
            count == self@.len(),
    {
        self.rows.len()
    }

    /// Whether a row with this digest is stored.
    pub fn contains_digest(&self, digest: &[u8]) -> (found: bool)
        ensures
            found == has_digest(self@, digest@),
    {
        let mut i: usize = 0;
        while i < self.rows.len()
            invariant
                i <= self.rows@.len(),
                self@.len() == self.rows@.len(),
                forall|k: int| 0 <= k < i ==> (#[trigger] self@[k]).digest != digest@,
            decreases self.rows@.len() - i,
        {
            if same_bytes(self.rows[i].digest.as_slice(), digest) {
                assert(self@[i as int].digest == digest@);
                return true;
            }
            i += 1;
        }
        false
    }

    /// Stores a new item as pending and answers the number it was given,
    /// one more than the last row's. Where a row with this digest exists
    /// the answer is `Duplicate`; where the numbers have run out it is
    /// `Persistence`; in both cases nothing changes.
    pub fn insert(
        &mut self,
        digest: &[u8],
        permalink: &str,
        source_url: &str,
        content_type: &str,
    ) -> (outcome: Result<u32, RepositoryError>)
        requires
            old(self).wf(),
        ensures
            final(self).wf(),
            outcome == insert_result(old(self)@, digest@),
            final(self)@ == after_insert(
                old(self)@,
                digest@,
                permalink@,
                source_url@,
                content_type@,
            ),
    {
        if self.contains_digest(digest) {
            return Err(RepositoryError::Duplicate);
        }
        let count = self.rows.len();
        let id: u32 = if count == 0 {
            1
        } else {
            let last = self.rows[count - 1].id;
            assert(self@.last().id == last);
            if last == u32::MAX {
                return Err(RepositoryError::Persistence);
            }
            last + 1
        };
        let item = IngestedItem {
            id,
            digest: copy_bytes(digest),
            permalink: String::from_str(permalink),
            source_url: String::from_str(source_url),
            content_type: String::from_str(content_type),
            state: ModerationState::Pending,
        };
        self.rows.push(item);
        proof {
            let before = old(self)@;
            let row = new_row(id, digest@, permalink@, source_url@, content_type@);
            assert(self@ =~= before.push(row));
            lemma_insert_keeps_well_formed(before, digest@, permalink@, source_url@, content_type@);
        }
        Ok(id)
    }

    /// Puts the row numbered `id` in `state`, whatever state it was in.
    /// Where no row has that number nothing changes. Held in memory, the
    /// repository never fails here.
    pub fn transition(&mut self, id: u32, state: ModerationState) -> (outcome: Result<
        (),
        RepositoryError,
    >)
        requires
            old(self).wf(),
        ensures
            final(self).wf(),
            outcome == Ok::<(), RepositoryError>(()),
            final(self)@ == after_transition(old(self)@, id, state),
    {
        let mut i: usize = 0;
        while i < self.rows.len()
            invariant
                i <= self.rows@.len(),
                self@.len() == old(self)@.len(),
                forall|k: int|
                    0 <= k < i ==> #[trigger] self@[k] == after_transition(old(self)@, id, state)[k],
                forall|k: int| i <= k < self@.len() ==> #[trigger] self@[k] == old(self)@[k],
            decreases self.rows@.len() - i,
        {
            let ghost before = self.rows@;
            let ghost shown = self@;
            if self.rows[i].id == id {
                self.rows[i].state = state;
                assert(self.rows@.len() == before.len());
                assert(self.rows@[i as int].id == before[i as int].id);
                assert(self.rows@[i as int].state == state);
                assert(self.rows@[i as int].digest == before[i as int].digest);
                assert(forall|k: int| 0 <= k < before.len() && k != i ==> self.rows@[k] == before[k]);
            }
            assert forall|k: int| 0 <= k < i + 1 implies #[trigger] self@[k] == after_transition(
                old(self)@,
                id,
                state,
            )[k] by {
                if k < i {
                    assert(self@[k] == shown[k]);
                } else {
                    assert(shown[k] == old(self)@[k]);
                }
            }
            assert forall|k: int| i + 1 <= k < self@.len() implies #[trigger] self@[k] == old(
                self,
            )@[k] by {
                assert(self@[k] == shown[k]);
            }
            i += 1;
        }
        proof {
            assert(self@ =~= after_transition(old(self)@, id, state));
            lemma_transition_keeps_well_formed(old(self)@, id, state);
        }
        Ok(())
    }

    /// The item numbered `id`, with its state, whatever that is.
    pub fn get(&self, id: u32) -> (found: Option<IngestedItem>)
        ensures
            found is Some <==> has_id(self@, id),
            found matches Some(item) ==> exists|k: int| row_at(self@, id, k) && item@ == self@[k],
    {
        let mut i: usize = 0;
        while i < self.rows.len()
            invariant
                i <= self.rows@.len(),
                self@.len() == self.rows@.len(),
                forall|k: int| 0 <= k < i ==> !row_at(self@, id, k),
            decreases self.rows@.len() - i,
        {
            if self.rows[i].id == id {
                let item = self.rows[i].duplicate();
                assert(row_at(self@, id, i as int) && item@ == self@[i as int]);
                return Some(item);
            }
            assert(!row_at(self@, id, i as int));
            i += 1;
        }
        None
    }

    /// The item numbered `id` if it may be shown: `None` where there is no
    /// such item or it is banned.
    pub fn get_servable(&self, id: u32) -> (found: Option<IngestedItem>)
        ensures
            found is Some <==> exists|k: int| servable_at(self@, id, k),
            found matches Some(item) ==> exists|k: int|
                servable_at(self@, id, k) && item@ == self@[k],
    {
        let mut i: usize = 0;
        while i < self.rows.len()
            invariant
                i <= self.rows@.len(),
                self@.len() == self.rows@.len(),
                forall|k: int| 0 <= k < i ==> !servable_at(self@, id, k),
            decreases self.rows@.len() - i,
        {
            if self.rows[i].id == id && self.rows[i].state.is_servable() {
                let item = self.rows[i].duplicate();
                assert(servable_at(self@, id, i as int) && item@ == self@[i as int]);
                return Some(item);
            }
            assert(!servable_at(self@, id, i as int));
            i += 1;
        }
        None
    }

    /// How many items may be shown.
    pub fn servable_count(&self) -> (count: usize)
        ensures
            count == servable(self@).len(),
    {
        let mut count: usize = 0;
        let mut i: usize = 0;
        let ghost keep = |row: ItemView| row.state != ModerationState::Banned;
        proof {
            reveal(Seq::filter);
            assert(self@.take(0) =~= Seq::empty());
        }
        while i < self.rows.len()
            invariant
                i <= self.rows@.len(),
                self@.len() == self.rows@.len(),
                keep == |row: ItemView| row.state != ModerationState::Banned,
                count == self@.take(i as int).filter(keep).len(),
                count <= i,
            decreases self.rows@.len() - i,
        {
            proof {
                let next = self@.take(i + 1);
                assert(next.drop_last() =~= self@.take(i as int));
                assert(next.last() == self@[i as int]);
                reveal(Seq::filter);
            }
            if self.rows[i].state.is_servable() {
                count += 1;
            }
            i += 1;
        }
        assert(self@.take(self@.len() as int) =~= self@);
        count
    }

    /// The item at place `n`, counted from 0, among those that may be
    /// shown; `None` where there are `n` of them or fewer. Drawing `n`
    /// evenly below `servable_count` shows each such item as often as any
    /// other.
    pub fn nth_servable(&self, n: usize) -> (found: Option<IngestedItem>)
        ensures
            n < servable(self@).len() ==> (found matches Some(item) && item@ == servable(
                self@,
            )[n as int]),
            n >= servable(self@).len() ==> found is None,
    {
        let mut seen: usize = 0;
        let mut i: usize = 0;
        let ghost keep = |row: ItemView| row.state != ModerationState::Banned;
        proof {
            reveal(Seq::filter);
            assert(self@.take(0) =~= Seq::empty());
        }
        while i < self.rows.len()
            invariant
                i <= self.rows@.len(),
                self@.len() == self.rows@.len(),
                keep == |row: ItemView| row.state != ModerationState::Banned,
                seen == self@.take(i as int).filter(keep).len(),
                seen <= i,
                seen <= n,
            decreases self.rows@.len() - i,
        {
            proof {
                let next = self@.take(i + 1);
                assert(next.drop_last() =~= self@.take(i as int));
                assert(next.last() == self@[i as int]);
                reveal(Seq::filter);
            }
            if self.rows[i].state.is_servable() {
                if seen == n {
                    let item = self.rows[i].duplicate();
                    proof {
                        let upto = self@.take(i + 1);
                        assert(upto.filter(keep)[n as int] == self@[i as int]);
                        assert(upto.is_prefix_of(self@));
                        upto.lemma_filter_monotone(self@, keep);
                    }
                    return Some(item);
                }
                seen += 1;
            }
            i += 1;
        }
        assert(self@.take(self@.len() as int) =~= self@);
        None
    }

    /// The pending item with the smallest number above `id`, by its number
    /// and the address of its post; `None` where no pending item has a
    /// number above `id`.
    pub fn next_pending_after(&self, id: u32) -> (next: Option<(u32, String)>)
        requires
            self.wf(),
        ensures
            next is None <==> !any_pending_after(self@, id),
            next matches Some((found, permalink)) ==> exists|k: int|
                first_pending_after(self@, id, k) && self@[k].id == found && self@[k].permalink
                    == permalink@,
    {
        let mut i: usize = 0;
        while i < self.rows.len()
            invariant
                i <= self.rows@.len(),
                self@.len() == self.rows@.len(),
                self.wf(),
                forall|k: int| 0 <= k < i ==> !pending_after(self@, id, k),
            decreases self.rows@.len() - i,
        {
            let row = &self.rows[i];
            if row.id > id && row.state == ModerationState::Pending {
                let permalink = row.permalink.clone();
                proof {
                    let k = i as int;
                    assert(self@[k] == self.rows@[k]@);
                    assert(pending_after(self@, id, k));
                    assert forall|j: int| pending_after(self@, id, j) implies self@[k].id
                        <= self@[j].id by {
                        if j < k {
                            assert(!pending_after(self@, id, j));
                        } else if j > k {
                            assert(self@[k].id < self@[j].id);
                        }
                    }
                    assert(first_pending_after(self@, id, k));
                }
                return Some((row.id, permalink));
            }
            assert(!pending_after(self@, id, i as int));
            i += 1;
        }
        None
    }
}

/// An insert leaves the rows as a repository keeps them.
pub proof fn lemma_insert_keeps_well_formed(
    rows: Seq<ItemView>,
    digest: Seq<u8>,
    permalink: Seq<char>,
    source_url: Seq<char>,
    content_type: Seq<char>,
)
    requires
        well_formed(rows),
    ensures
        well_formed(after_insert(rows, digest, permalink, source_url, content_type)),
{
    let after = after_insert(rows, digest, permalink, source_url, content_type);
    if !(has_digest(rows, digest) || next_id(rows) > u32::MAX) {
        let n = rows.len() as int;
        assert(after.len() == n + 1);
        assert forall|i: int, j: int| 0 <= i < j < after.len() implies (#[trigger] after[i]).id < (
        #[trigger] after[j]).id by {
            if j == n {
                assert(after[i] == rows[i]);
                if i < n - 1 {
                    assert(rows[i].id < rows[n - 1].id);
                }
            } else {
                assert(after[i] == rows[i] && after[j] == rows[j]);
            }
        }
        assert forall|i: int, j: int| 0 <= i < j < after.len() implies (#[trigger] after[i]).digest
            != (#[trigger] after[j]).digest by {
            if j == n {
                assert(after[i] == rows[i]);
            } else {
                assert(after[i] == rows[i] && after[j] == rows[j]);
            }
        }
        assert forall|i: int| 0 <= i < after.len() implies (#[trigger] after[i]).id >= 1 by {
            if i < n {
                assert(after[i] == rows[i]);
            }
        }
    }
}

/// A change of state leaves the rows as a repository keeps them, and
/// changes neither a number nor a digest.
pub proof fn lemma_transition_keeps_well_formed(
    rows: Seq<ItemView>,
    id: u32,
    state: ModerationState,
)
    requires
        well_formed(rows),
    ensures
        well_formed(after_transition(rows, id, state)),
        after_transition(rows, id, state).len() == rows.len(),
        forall|k: int|
            0 <= k < rows.len() ==> {
                &&& (#[trigger] after_transition(rows, id, state)[k]).id == rows[k].id
                &&& after_transition(rows, id, state)[k].digest == rows[k].digest
            },
{
    let after = after_transition(rows, id, state);
    assert forall|i: int, j: int| 0 <= i < j < after.len() implies (#[trigger] after[i]).id < (
    #[trigger] after[j]).id by {
        assert(rows[i].id < rows[j].id);
    }
    assert forall|i: int, j: int| 0 <= i < j < after.len() implies (#[trigger] after[i]).digest != (
    #[trigger] after[j]).digest by {
        assert(rows[i].digest != rows[j].digest);
    }
    assert forall|i: int| 0 <= i < after.len() implies (#[trigger] after[i]).id >= 1 by {
        assert(rows[i].id >= 1);
    }
}

/// Row `k` has this digest and no other row has it.
pub open spec fn only_row(rows: Seq<ItemView>, digest: Seq<u8>, k: int) -> bool {
    &&& 0 <= k < rows.len()
    &&& rows[k].digest == digest
    &&& forall|j: int| 0 <= j < rows.len() && j != k ==> (#[trigger] rows[j]).digest != digest
}

/// Exactly one row has this digest.
pub open spec fn exactly_one_row(rows: Seq<ItemView>, digest: Seq<u8>) -> bool {
    exists|k: int| only_row(rows, digest, k)
}

/// A repository holds one row for each digest that it holds at all.
pub proof fn lemma_one_row_per_digest(rows: Seq<ItemView>, digest: Seq<u8>)
    requires
        well_formed(rows),
        has_digest(rows, digest),
    ensures
        exactly_one_row(rows, digest),
{
    let k = choose|k: int| 0 <= k < rows.len() && (#[trigger] rows[k]).digest == digest;
    let found = rows[k];
    assert forall|j: int| 0 <= j < rows.len() && j != k implies (#[trigger] rows[j]).digest
        != digest by {
        let other = rows[j];
        if j < k {
            assert(other.digest != found.digest);
        } else {
            assert(found.digest != other.digest);
        }
    }
    assert(only_row(rows, digest, k));
}

/// Inserting the same digest twice: unless the numbers ran out at the
/// first insert, the second one answers `Duplicate`, changes nothing, and
/// exactly one row has the digest.
pub proof fn lemma_insert_twice(
    rows: Seq<ItemView>,
    digest: Seq<u8>,
    permalink: Seq<char>,
    source_url: Seq<char>,
    content_type: Seq<char>,
    second_permalink: Seq<char>,
    second_source_url: Seq<char>,
    second_content_type: Seq<char>,
)
    requires
        well_formed(rows),
        insert_result(rows, digest) != Err::<u32, RepositoryError>(RepositoryError::Persistence),
    ensures
        ({
            let once = after_insert(rows, digest, permalink, source_url, content_type);
            &&& insert_result(once, digest) == Err::<u32, RepositoryError>(
                RepositoryError::Duplicate,
            )
            &&& after_insert(
                once,
                digest,
                second_permalink,
                second_source_url,
                second_content_type,
            ) == once
            &&& exactly_one_row(once, digest)
        }),
{
    let once = after_insert(rows, digest, permalink, source_url, content_type);
    lemma_insert_keeps_well_formed(rows, digest, permalink, source_url, content_type);
    if !has_digest(rows, digest) {
        assert(once.last().digest == digest);
        assert(once[once.len() - 1].digest == digest);
    }
    assert(has_digest(once, digest));
    lemma_one_row_per_digest(once, digest);
}

/// An insert that succeeds adds one pending row with a number above all
/// others and touches no other row.
pub proof fn lemma_insert_adds_pending_row(
    rows: Seq<ItemView>,
    digest: Seq<u8>,
    permalink: Seq<char>,
    source_url: Seq<char>,
    content_type: Seq<char>,
)
    requires
        well_formed(rows),
        insert_result(rows, digest) is Ok,
    ensures
        ({
            let after = after_insert(rows, digest, permalink, source_url, content_type);
            &&& after.len() == rows.len() + 1
            &&& after.last().state == ModerationState::Pending
            &&& after.last().id == insert_result(rows, digest)->Ok_0
            &&& forall|k: int| 0 <= k < rows.len() ==> after[k] == rows[k] && rows[k].id < after.last().id
        }),
{
    let after = after_insert(rows, digest, permalink, source_url, content_type);
    assert forall|k: int| 0 <= k < rows.len() implies after[k] == rows[k] && rows[k].id
        < after.last().id by {
        if k < rows.len() - 1 {
            assert(rows[k].id < rows[rows.len() - 1].id);
        }
    }
}

/// A change of state is unconditional: whatever state the row was in, it
/// is in the new state afterwards, and every other row is as it was.
pub proof fn lemma_transition_overwrites(
    rows: Seq<ItemView>,
    id: u32,
    state: ModerationState,
    k: int,
)
    requires
        0 <= k < rows.len(),
    ensures
        rows[k].id == id ==> after_transition(rows, id, state)[k].state == state,
        rows[k].id != id ==> after_transition(rows, id, state)[k] == rows[k],
{
}

} // verus!
