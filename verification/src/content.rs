use vstd::prelude::*;
use std::path::PathBuf;
use crate::hasher::bytes_covered;
use crate::hasher::chunk_count;
use crate::hasher::scan_from;
use crate::hasher::Hasher;
use crate::hasher::Step;
use crate::hasher::CHUNK_SIZE;
use crate::metadata::Metadata;
use crate::relation::Relation;
use crate::relation::Side;

verus! {

/// What a candidate is, as far as comparisons go.
pub ghost struct Candidate {
    /// Where the file is.
    pub path: PathBuf,
    /// The snapshot taken when the candidate was made.
    pub metadata: Metadata,
    /// What tells this candidate from every other one.
    pub id: u64,
    /// The digests of the chunks read so far.
    pub digests: Seq<Seq<u8>>,
}

impl Candidate {
    /// No more chunks are recorded than the file has.
    pub open spec fn valid(self) -> bool {
        self.digests.len() <= chunk_count(self.metadata.size)
    }

    /// Number of bytes of the file that were read so far.
    pub open spec fn consumed(self) -> nat {
        bytes_covered(self.metadata.size, self.digests.len())
    }
}

/// What the snapshots and identifiers of two candidates decide: the order of
/// the snapshots where these differ, equality where the identifiers say that
/// the two are one and the same candidate, and nothing otherwise.
pub open spec fn unread_decision(a: Metadata, a_id: u64, b: Metadata, b_id: u64) -> Option<
    Relation,
> {
    if a.order(b) != Relation::Equal {
        Some(a.order(b))
    } else if a_id == b_id {
        Some(Relation::Equal)
    } else {
        None
    }
}

/// What can be said of two candidates without reading either file.
pub open spec fn fast_path(a: Candidate, b: Candidate) -> Option<Relation> {
    unread_decision(a.metadata, a.id, b.metadata, b.id)
}

/// What the comparison of two candidates has come to: what can be said
/// without reading, or else what the digests kept of the two files show,
/// looked through from the first chunk on.
pub open spec fn step_of(a: Candidate, b: Candidate) -> Step {
    match fast_path(a, b) {
        Some(r) => Step::Decided(r),
        None => scan_from(a.digests, b.digests, a.metadata.size, 0),
    }
}

/// Where `step` asks for a read, it asks the candidate on that side for the
/// bytes that follow those it has read: the next chunk, which begins where
/// reading stopped, is not empty and ends within the file.
pub open spec fn continues(step: Step, a: Candidate, b: Candidate) -> bool {
    match step {
        Step::Read { side, index, offset, len } => {
            let c = if side == Side::Left {
                a
            } else {
                b
            };
            &&& index == c.digests.len()
            &&& index < chunk_count(c.metadata.size)
            &&& offset == c.consumed()
            &&& len > 0
            &&& offset + len == bytes_covered(c.metadata.size, c.digests.len() + 1)
            &&& offset + len <= c.metadata.size
        },
        _ => true,
    }
}

/// The candidate after the digest of chunk `index` was offered to it: the
/// digest is kept where `chosen` holds and chunk `index` is the next one that
/// the candidate has not read; otherwise nothing changes.
pub open spec fn absorbed(c: Candidate, chosen: bool, index: nat, digest: Seq<u8>) -> Candidate {
    if chosen && index == c.digests.len() && index < chunk_count(c.metadata.size) {
        Candidate { digests: c.digests.push(digest), ..c }
    } else {
        c
    }
}

/// The candidate whose progress is locked first when two are compared: the
/// one with the lower identifier, whichever way round they are given.
pub open spec fn lock_order(a: u64, b: u64) -> Side {
    if a <= b {
        Side::Left
    } else {
        Side::Right
    }
}

/// Decides what the snapshots and identifiers of two candidates can decide.
/// It needs neither file nor the progress of reading either.
pub fn decide_unread(a: &Metadata, a_id: u64, b: &Metadata, b_id: u64) -> (r: Option<Relation>)
    ensures
        r == unread_decision(*a, a_id, *b, b_id),
{
    let by_metadata = a.compare(b);
    if by_metadata != Relation::Equal {
        Some(by_metadata)
    } else if a_id == b_id {
        Some(Relation::Equal)
    } else {
        None
    }
}

/// Which of two candidates, given by their identifiers, is locked first.
pub fn lock_side(a_id: u64, b_id: u64) -> (side: Side)
    ensures
        side == lock_order(a_id, b_id),
{
    if a_id <= b_id {
        Side::Left
    } else {
        Side::Right
    }
}

/// Hands out identifiers in the order in which candidates are made, each one
/// once.
#[derive(Debug)]
pub struct Sequence {
    next: u64,
}

impl View for Sequence {
    type V = nat;

    /// The number of identifiers handed out so far.
    closed spec fn view(&self) -> nat {
        self.next as nat
    }
}

impl Sequence {
    /// A sequence of which no identifier was handed out.
    pub fn new() -> (s: Sequence)
        ensures
            s@ == 0,
    {
        Sequence { next: 0 }
    }

    /// The next identifier: the number of those handed out before it. There
    /// is none left once `u64::MAX` of them were handed out.
    pub fn issue(&mut self) -> (id: Option<u64>)
        ensures
            old(self)@ < u64::MAX ==> id == Some(old(self)@ as u64) && final(self)@ == old(self)@
                + 1,
            old(self)@ >= u64::MAX ==> id.is_none() && final(self)@ == old(self)@,
    {
        if self.next < u64::MAX {
            let id: u64 = self.next;
            self.next = self.next + 1;
            Some(id)
        } else {
            None
        }
    }
}

/// One file under consideration: its path, the metadata snapshot taken when
/// the candidate was made, an identifier, and the progress of reading it.
#[derive(Debug)]
pub struct FileContent {
    path: PathBuf,
    metadata: Metadata,
    id: u64,
    hashes: Hasher,
}

impl View for FileContent {
    type V = Candidate;

    closed spec fn view(&self) -> Candidate {
        Candidate {
            path: self.path,
            metadata: self.metadata,
            id: self.id,
            digests: self.hashes@,
        }
    }
}

/// Whether a file of `size` bytes has a chunk `index`.
fn has_chunk(size: u64, index: u64) -> (r: bool)
    ensures
        r == (index < chunk_count(size)),
{
    index < size / CHUNK_SIZE || (index == size / CHUNK_SIZE && size % CHUNK_SIZE != 0)
}

impl FileContent {
    /// The candidate's record of progress fits its file.
    pub open spec fn wf(&self) -> bool {
        self@.valid()
    }

    /// A candidate of which nothing was read yet. Its identifier is the next
    /// one of `ids`, so that the candidates made from one sequence all differ
    /// in it. There is no candidate where `ids` has no identifier left, and
    /// `ids` is then as it was.
    pub fn new<P: Into<PathBuf>>(path: P, metadata: Metadata, ids: &mut Sequence) -> (made: Option<
        FileContent,
    >)
        ensures
            made.is_some() <==> old(ids)@ < u64::MAX,
            made.is_some() ==> final(ids)@ == old(ids)@ + 1,
            made.is_none() ==> final(ids)@ == old(ids)@,
            made.is_some() ==> call_ensures(P::into, (path,), made.unwrap()@.path),
            made.is_some() ==> made.unwrap()@.metadata == metadata,
            made.is_some() ==> made.unwrap()@.id == old(ids)@,
            made.is_some() ==> made.unwrap()@.digests == Seq::<Seq<u8>>::empty(),
            made.is_some() ==> made.unwrap().wf(),
    {
        match ids.issue() {
            Some(id) => {
                let path: PathBuf = path.into();
                Some(FileContent { path, metadata, id, hashes: Hasher::new() })
            },
            None => None,
        }
    }

    /// Where the file is.
    pub fn path(&self) -> (p: &PathBuf)
        ensures
            *p == self@.path,
    {
        &self.path
    }

    /// The snapshot that the candidate was made with.
    pub fn metadata(&self) -> (m: Metadata)
        ensures
            m == self@.metadata,
    {
        self.metadata
    }

    /// The identifier that the candidate was made with.
    pub fn id(&self) -> (id: u64)
        ensures
            id == self@.id,
    {
        self.id
    }

    /// Number of bytes of the file that were read so far.
    pub fn bytes_consumed(&self) -> (n: u64)
        ensures
            n == self@.consumed(),
            n <= self@.metadata.size,
    {
        self.hashes.bytes_consumed(self.metadata.size)
    }

    /// The part of a comparison that reads no file.
    pub fn precheck(&self, other: &FileContent) -> (r: Option<Relation>)
        ensures
            r == fast_path(self@, other@),
    {
        decide_unread(&self.metadata, self.id, &other.metadata, other.id)
    }

    /// Which of the two candidates is locked first.
    pub fn locks_first(&self, other: &FileContent) -> (side: Side)
        ensures
            side == lock_order(self@.id, other@.id),
    {
        lock_side(self.id, other.id)
    }

    /// Starts, or takes up again, the comparison of two candidates. It reads
    /// nothing: it looks at the snapshots, the identifiers and the digests
    /// kept so far.
    pub fn begin(&self, other: &FileContent) -> (step: Step)
        requires
            self.wf(),
            other.wf(),
        ensures
            step == step_of(self@, other@),
            continues(step, self@, other@),
    {
        proof {
            crate::laws::lemma_reads_continue(self@, other@);
        }
        match self.precheck(other) {
            Some(r) => Step::Decided(r),
            None => self.hashes.scan(&other.hashes, self.metadata.size),
        }
    }

    /// Keeps the digest where it is that of the next chunk to read.
    fn absorb(&mut self, chosen: bool, index: u64, digest: Vec<u8>)
        requires
            old(self).wf(),
        ensures
            final(self)@ == absorbed(old(self)@, chosen, index as nat, digest@),
            final(self).wf(),
    {
        if chosen && index == self.hashes.chunks() as u64 && has_chunk(self.metadata.size, index) {
            self.hashes.record(digest);
        }
    }

    /// Goes on with a comparison after chunk `index` of the candidate on
    /// `side` was asked for. `event` is the digest of that chunk, or nothing
    /// where reading it failed. A digest is kept only where chunk `index` is
    /// the next one that the candidate has not read. Whatever is handed in,
    /// the step that comes back is the one that the digests then kept give,
    /// looked through from the first chunk on.
    pub fn resume(
        &mut self,
        other: &mut FileContent,
        side: Side,
        index: u64,
        event: Option<Vec<u8>>,
    ) -> (step: Step)
        requires
            old(self).wf(),
            old(other).wf(),
        ensures
            final(self).wf(),
            final(other).wf(),
            final(self)@.consumed() >= old(self)@.consumed(),
            final(other)@.consumed() >= old(other)@.consumed(),
            continues(step, final(self)@, final(other)@),
            event is None ==> !step.shows_equal(),
            (match event {
                None => step == Step::Incomparable && final(self)@ == old(self)@ && final(other)@
                    == old(other)@,
                Some(digest) => final(self)@ == absorbed(
                    old(self)@,
                    side == Side::Left,
                    index as nat,
                    digest@,
                ) && final(other)@ == absorbed(
                    old(other)@,
                    side == Side::Right,
                    index as nat,
                    digest@,
                ) && step == step_of(final(self)@, final(other)@),
            }),
    {
        match event {
            None => Step::Incomparable,
            Some(digest) => {
                proof {
                    crate::laws::lemma_absorbed_grows(
                        self@,
                        side == Side::Left,
                        index as nat,
                        digest@,
                    );
                    crate::laws::lemma_absorbed_grows(
                        other@,
                        side == Side::Right,
                        index as nat,
                        digest@,
                    );
                }
                match side {
                    Side::Left => {
                        self.absorb(true, index, digest);
                    },
                    Side::Right => {
                        other.absorb(true, index, digest);
                    },
                }
                self.begin(other)
            },
        }
    }
}

} // verus!
