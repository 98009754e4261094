//! The content store: blobs kept under their digest, each written once.

use crate::bytes::{copy_bytes, same_bytes};
use crate::error::StoreError;
use vstd::prelude::*;

verus! {

/// The contents of a store after `bytes` was offered to it under `digest`:
/// a digest that is taken keeps its blob.
pub open spec fn after_write(
    contents: Map<Seq<u8>, Seq<u8>>,
    digest: Seq<u8>,
    bytes: Seq<u8>,
) -> Map<Seq<u8>, Seq<u8>> {
    if contents.dom().contains(digest) {
        contents
    } else {
        contents.insert(digest, bytes)
    }
}

/// One stored blob with the digest it is kept under.
struct Blob {
    digest: Vec<u8>,
    bytes: Vec<u8>,
}

/// A content store held in memory. It behaves as every content store must:
/// a blob is written once under its digest, never overwritten and never
/// removed.
pub struct ContentStore {
    blobs: Vec<Blob>,
    contents: Ghost<Map<Seq<u8>, Seq<u8>>>,
}

impl View for ContentStore {
    type V = Map<Seq<u8>, Seq<u8>>;

    /// The blobs in the store, by digest.
    closed spec fn view(&self) -> Map<Seq<u8>, Seq<u8>> {
        self.contents@
    }
}

impl ContentStore {
    /// The list of blobs and the map of contents say the same, and the store
    /// holds finitely many blobs.
    pub closed spec fn wf(&self) -> bool {
        &&& self.contents@.dom().finite()
        &&& self.contents@.dom().len() == self.blobs@.len()
        &&& forall|i: int|
            0 <= i < self.blobs@.len() ==> {
                &&& self.contents@.dom().contains(#[trigger] self.blobs@[i].digest@)
                &&& self.contents@[self.blobs@[i].digest@] == self.blobs@[i].bytes@
            }
        &&& forall|d: Seq<u8>|
            self.contents@.dom().contains(d) ==> exists|i: int|
                0 <= i < self.blobs@.len() && #[trigger] self.blobs@[i].digest@ == d
    }

    /// An empty store.
    pub fn new() -> (store: ContentStore)
        ensures
            store.wf(),
            store@ == Map::<Seq<u8>, Seq<u8>>::empty(),
    {
        ContentStore { blobs: Vec::new(), contents: Ghost(Map::empty()) }
    }

    /// Where in the list the blob with this digest is.
    fn position(&self, digest: &[u8]) -> (found: Option<usize>)
        requires
            self.wf(),
        ensures
            found is Some <==> self@.dom().contains(digest@),
            found matches Some(i) ==> i < self.blobs@.len() && self.blobs@[i as int].digest@
                == digest@,
    {
        let mut i: usize = 0;
        while i < self.blobs.len()
            invariant
                self.wf(),
                i <= self.blobs@.len(),
                forall|k: int| 0 <= k < i ==> self.blobs@[k].digest@ != digest@,
            decreases self.blobs@.len() - i,
        {
            if same_bytes(self.blobs[i].digest.as_slice(), digest) {
                return Some(i);
            }
            i += 1;
        }
        None
    }

    /// Whether a blob is stored under this digest.
    pub fn contains(&self, digest: &[u8]) -> (found: bool)
        requires
            self.wf(),
        ensures
            found == self@.dom().contains(digest@),
    {
        self.position(digest).is_some()
    }

    /// How many blobs the store holds.
    pub fn len(&self) -> (count: usize)
        requires
            self.wf(),
        ensures
            count == self@.dom().len(),
    {
        self.blobs.len()
    }

    /// Stores `bytes` under `digest`, unless a blob is stored there already:
    /// then nothing is written, the stored blob stays as it is, and the
    /// answer is `AlreadyExists`.
    pub fn write(&mut self, digest: &[u8], bytes: &[u8]) -> (outcome: Result<(), StoreError>)
        requires
            old(self).wf(),
        ensures
            final(self).wf(),
            final(self)@ == after_write(old(self)@, digest@, bytes@),
            old(self)@.dom().contains(digest@) ==> outcome == Err::<(), StoreError>(
                StoreError::AlreadyExists,
            ),
            !old(self)@.dom().contains(digest@) ==> outcome == Ok::<(), StoreError>(()),
    {
        if self.contains(digest) {
            return Err(StoreError::AlreadyExists);
        }
        let blob = Blob { digest: copy_bytes(digest), bytes: copy_bytes(bytes) };
        self.blobs.push(blob);
        self.contents = Ghost(self.contents@.insert(digest@, bytes@));
        proof {
            let blobs = self.blobs@;
            let last = blobs.len() - 1;
            assert(blobs[last].digest@ == digest@);
            assert forall|d: Seq<u8>| self.contents@.dom().contains(d) implies exists|i: int|
                0 <= i < blobs.len() && #[trigger] blobs[i].digest@ == d by {
                if d == digest@ {
                    assert(blobs[last].digest@ == d);
                } else {
                    let i = choose|i: int|
                        0 <= i < old(self).blobs@.len() && #[trigger] old(self).blobs@[i].digest@
                            == d;
                    assert(blobs[i].digest@ == d);
                }
            }
        }
        Ok(())
    }

    /// The blob stored under this digest, or `NotFound`.
    pub fn read(&self, digest: &[u8]) -> (outcome: Result<Vec<u8>, StoreError>)
        requires
            self.wf(),
        ensures
            self@.dom().contains(digest@) ==> (outcome matches Ok(bytes) && bytes@
                == self@[digest@]),
            !self@.dom().contains(digest@) ==> outcome == Err::<Vec<u8>, StoreError>(
                StoreError::NotFound,
            ),
    {
        match self.position(digest) {
            Some(i) => Ok(copy_bytes(self.blobs[i].bytes.as_slice())),
            None => Err(StoreError::NotFound),
        }
    }
}

/// Once a blob was offered under a digest, a blob is stored there.
pub proof fn lemma_written_is_stored(
    contents: Map<Seq<u8>, Seq<u8>>,
    digest: Seq<u8>,
    bytes: Seq<u8>,
)
    ensures
        after_write(contents, digest, bytes).dom().contains(digest),
{
}

/// Offering a blob a second time under the same digest changes nothing:
/// no second blob appears, and the first one stays as it was written.
pub proof fn lemma_write_twice(
    contents: Map<Seq<u8>, Seq<u8>>,
    digest: Seq<u8>,
    first: Seq<u8>,
    second: Seq<u8>,
)
    requires
        contents.dom().finite(),
    ensures
        after_write(after_write(contents, digest, first), digest, second) == after_write(
            contents,
            digest,
            first,
        ),
        after_write(after_write(contents, digest, first), digest, second).dom().len()
            == after_write(contents, digest, first).dom().len(),
        !contents.dom().contains(digest) ==> after_write(
            after_write(contents, digest, first),
            digest,
            second,
        )[digest] == first,
{
}

/// A write never touches what is stored under another digest, and never
/// removes a blob.
pub proof fn lemma_write_keeps_others(
    contents: Map<Seq<u8>, Seq<u8>>,
    digest: Seq<u8>,
    bytes: Seq<u8>,
    other: Seq<u8>,
)
    requires
        contents.dom().contains(other),
    ensures
        after_write(contents, digest, bytes).dom().contains(other),
        after_write(contents, digest, bytes)[other] == contents[other],
{
}

} // verus!
