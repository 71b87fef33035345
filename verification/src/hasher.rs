use vstd::prelude::*;
use crate::relation::Relation;
use crate::relation::Side;

verus! {

/// Number of bytes in every chunk of a file but the last.
pub const CHUNK_SIZE: u64 = 65536;

/// Number of chunks that a file of `size` bytes is read in.
pub open spec fn chunk_count(size: u64) -> nat {
    (size / CHUNK_SIZE + if size % CHUNK_SIZE == 0 { 0int } else { 1int }) as nat
}

/// Offset in the file of the first byte of chunk `index`.
pub open spec fn chunk_offset(index: nat) -> nat {
    index * (CHUNK_SIZE as nat)
}

/// Number of bytes in chunk `index` of a file of `size` bytes.
pub open spec fn chunk_len(size: u64, index: nat) -> nat {
    if (index + 1) * CHUNK_SIZE <= size {
        CHUNK_SIZE as nat
    } else {
        (size - index * CHUNK_SIZE) as nat
    }
}

/// Number of bytes covered by the first `chunks` chunks of a file of `size`
/// bytes.
pub open spec fn bytes_covered(size: u64, chunks: nat) -> nat {
    if chunks * CHUNK_SIZE <= size {
        chunks * (CHUNK_SIZE as nat)
    } else {
        size as nat
    }
}

/// Lexicographic order of two byte strings from position `i` on, given that
/// they agree before it. A string that ends first is the lesser one.
pub open spec fn lex_order_from(a: Seq<u8>, b: Seq<u8>, i: nat) -> Relation
    decreases a.len() - i,
{
    if i >= a.len() {
        if i >= b.len() {
            Relation::Equal
        } else {
            Relation::Less
        }
    } else if i >= b.len() {
        Relation::Greater
    } else if a[i as int] < b[i as int] {
        Relation::Less
    } else if a[i as int] > b[i as int] {
        Relation::Greater
    } else {
        lex_order_from(a, b, i + 1)
    }
}

/// Lexicographic order of two byte strings.
pub open spec fn lex_order(a: Seq<u8>, b: Seq<u8>) -> Relation {
    lex_order_from(a, b, 0)
}

/// Orders two byte strings lexicographically.
pub fn compare_bytes(a: &Vec<u8>, b: &Vec<u8>) -> (r: Relation)
    ensures
        r == lex_order(a@, b@),
{
    let mut i: usize = 0;
    while i < a.len() && i < b.len()
        invariant
            i <= a.len(),
            i <= b.len(),
            lex_order(a@, b@) == lex_order_from(a@, b@, i as nat),
        decreases a.len() - i,
    {
        if a[i] < b[i] {
            return Relation::Less;
        }
        if a[i] > b[i] {
            return Relation::Greater;
        }
        i = i + 1;
    }
    if i < b.len() {
        Relation::Less
    } else if i < a.len() {
        Relation::Greater
    } else {
        Relation::Equal
    }
}

/// From position `i` on, two byte strings that agree before it are equal
/// under the order exactly when they are the same string.
pub proof fn lemma_lex_equal_from(a: Seq<u8>, b: Seq<u8>, i: nat)
    requires
        i <= a.len(),
        i <= b.len(),
        forall|k: int| 0 <= k < i ==> a[k] == b[k],
    ensures
        lex_order_from(a, b, i) == Relation::Equal <==> a == b,
    decreases a.len() - i,
{
    if i >= a.len() || i >= b.len() {
        if a.len() == b.len() {
            assert(a =~= b);
        }
    } else if a[i as int] == b[i as int] {
        lemma_lex_equal_from(a, b, i + 1);
    }
}

/// Two byte strings are equal under the order exactly when they are the same
/// string.
pub proof fn lemma_lex_equal(a: Seq<u8>, b: Seq<u8>)
    ensures
        lex_order(a, b) == Relation::Equal <==> a == b,
{
    lemma_lex_equal_from(a, b, 0);
}

/// Swapping the operands reverses the order, from any position on.
pub proof fn lemma_lex_reversed_from(a: Seq<u8>, b: Seq<u8>, i: nat)
    ensures
        lex_order_from(b, a, i) == lex_order_from(a, b, i).reversed(),
    decreases a.len() - i,
{
    if i < a.len() && i < b.len() && a[i as int] == b[i as int] {
        lemma_lex_reversed_from(a, b, i + 1);
    }
}

/// Swapping the operands reverses the order.
pub proof fn lemma_lex_reversed(a: Seq<u8>, b: Seq<u8>)
    ensures
        lex_order(b, a) == lex_order(a, b).reversed(),
{
    lemma_lex_reversed_from(a, b, 0);
}

/// The order of byte strings is transitive, from any position on.
pub proof fn lemma_lex_transitive_from(a: Seq<u8>, b: Seq<u8>, c: Seq<u8>, i: nat)
    requires
        lex_order_from(a, b, i) != Relation::Greater,
        lex_order_from(b, c, i) != Relation::Greater,
    ensures
        lex_order_from(a, c, i) == (if lex_order_from(a, b, i) == Relation::Less
            || lex_order_from(b, c, i) == Relation::Less {
            Relation::Less
        } else {
            Relation::Equal
        }),
    decreases a.len() - i,
{
    if i < a.len() && i < b.len() && i < c.len() && a[i as int] == b[i as int] && b[i as int]
        == c[i as int] {
        lemma_lex_transitive_from(a, b, c, i + 1);
    }
}

/// The order of byte strings is transitive.
pub proof fn lemma_lex_transitive(a: Seq<u8>, b: Seq<u8>, c: Seq<u8>)
    requires
        lex_order(a, b) != Relation::Greater,
        lex_order(b, c) != Relation::Greater,
    ensures
        lex_order(a, c) == (if lex_order(a, b) == Relation::Less || lex_order(b, c)
            == Relation::Less {
            Relation::Less
        } else {
            Relation::Equal
        }),
{
    lemma_lex_transitive_from(a, b, c, 0);
}

/// What a comparison of two files with the same metadata has come to.
#[derive(Clone, Copy, Debug, PartialEq, Eq, Structural)]
pub enum Step {
    /// The comparison is over, with this result.
    Decided(Relation),
    /// Chunk `index` of the file on `side` has to be read: `len` bytes from
    /// `offset` on. Its digest is then handed to the comparison.
    Read { side: Side, index: u64, offset: u64, len: u64 },
    /// A read failed: nothing can be said of the two files.
    Incomparable,
}

impl Step {
    /// The comparison is over and has found the two files to be the same.
    pub open spec fn shows_equal(self) -> bool {
        self == Step::Decided(Relation::Equal)
    }

    /// Whether the comparison has shown the two files to be the same. One
    /// that came to nothing, or is not over, has not.
    pub fn equals(self) -> (same: bool)
        ensures
            same == self.shows_equal(),
    {
        match self {
            Step::Decided(Relation::Equal) => true,
            _ => false,
        }
    }

    /// The order that the comparison has found. There is none to give unless
    /// the comparison is over and has not come to nothing.
    pub fn total_order(self) -> (r: Relation)
        requires
            self is Decided,
        ensures
            self == Step::Decided(r),
    {
        match self {
            Step::Decided(r) => r,
            _ => unreached(),
        }
    }
}

/// What follows from the chunk digests known of two files of `size` bytes,
/// looking at the chunks from `index` on: the order of the first pair of
/// digests that differ, or the first chunk that is missing on one side (on
/// the left first), or equality when every chunk is known and none differs.
pub open spec fn scan_from(a: Seq<Seq<u8>>, b: Seq<Seq<u8>>, size: u64, index: nat) -> Step
    decreases chunk_count(size) - index,
{
    if index >= chunk_count(size) {
        Step::Decided(Relation::Equal)
    } else if index >= a.len() {
        Step::Read {
            side: Side::Left,
            index: index as u64,
            offset: chunk_offset(index) as u64,
            len: chunk_len(size, index) as u64,
        }
    } else if index >= b.len() {
        Step::Read {
            side: Side::Right,
            index: index as u64,
            offset: chunk_offset(index) as u64,
            len: chunk_len(size, index) as u64,
        }
    } else if lex_order(a[index as int], b[index as int]) != Relation::Equal {
        Step::Decided(lex_order(a[index as int], b[index as int]))
    } else {
        scan_from(a, b, size, index + 1)
    }
}

/// Chunk `k` is known of both files, and is the same in both.
pub open spec fn same_chunk(a: Seq<Seq<u8>>, b: Seq<Seq<u8>>, k: int) -> bool {
    0 <= k < a.len() && k < b.len() && a[k] == b[k]
}

/// A scan that starts within what is known of both files asks, if it asks for
/// anything, for the first chunk that the file on that side has not read: for
/// the bytes that follow those already covered, and for at least one.
pub proof fn lemma_scan_reads_next(a: Seq<Seq<u8>>, b: Seq<Seq<u8>>, size: u64, from: nat)
    requires
        from <= a.len(),
        from <= b.len(),
    ensures
        (match scan_from(a, b, size, from) {
            Step::Decided(_) => true,
            Step::Read { side, index, offset, len } => {
                let known = if side == Side::Left {
                    a.len()
                } else {
                    b.len()
                };
                &&& index == known
                &&& from <= index < chunk_count(size)
                &&& side == Side::Right ==> index < a.len()
                &&& offset == bytes_covered(size, known)
                &&& len > 0
                &&& offset + len == bytes_covered(size, known + 1)
            },
            Step::Incomparable => false,
        }),
    decreases chunk_count(size) - from,
{
    if from < chunk_count(size) && from < a.len() && from < b.len() && lex_order(
        a[from as int],
        b[from as int],
    ) == Relation::Equal {
        lemma_scan_reads_next(a, b, size, from + 1);
    }
}

/// A scan finds the files equal only where every chunk from its start on is
/// known on both sides and is the same on both.
pub proof fn lemma_scan_equal(a: Seq<Seq<u8>>, b: Seq<Seq<u8>>, size: u64, from: nat)
    requires
        scan_from(a, b, size, from) == Step::Decided(Relation::Equal),
    ensures
        forall|k: int| from <= k < chunk_count(size) ==> #[trigger] same_chunk(a, b, k),
    decreases chunk_count(size) - from,
{
    if from < chunk_count(size) {
        lemma_lex_equal(a[from as int], b[from as int]);
        lemma_scan_equal(a, b, size, from + 1);
        assert(same_chunk(a, b, from as int));
    }
}

/// Where the chunks known on both sides are the same from the start of the
/// scan on, the scan finds no difference: it asks for a chunk, or, where
/// every chunk is known on both sides, finds the files equal.
pub proof fn lemma_scan_same(a: Seq<Seq<u8>>, b: Seq<Seq<u8>>, size: u64, from: nat)
    requires
        forall|k: int| from <= k < a.len() && k < b.len() ==> #[trigger] same_chunk(a, b, k),
    ensures
        scan_from(a, b, size, from) is Read || scan_from(a, b, size, from) == Step::Decided(
            Relation::Equal,
        ),
        a.len() >= chunk_count(size) && b.len() >= chunk_count(size) ==> scan_from(
            a,
            b,
            size,
            from,
        ) == Step::Decided(Relation::Equal),
    decreases chunk_count(size) - from,
{
    if from < chunk_count(size) && from < a.len() && from < b.len() {
        assert(same_chunk(a, b, from as int));
        lemma_lex_equal(a[from as int], b[from as int]);
        lemma_scan_same(a, b, size, from + 1);
    }
}

/// A scan that decides one way decides the other way when the two sides are
/// swapped.
pub proof fn lemma_scan_reversed(
    a: Seq<Seq<u8>>,
    b: Seq<Seq<u8>>,
    size: u64,
    from: nat,
    r: Relation,
)
    requires
        scan_from(a, b, size, from) == Step::Decided(r),
    ensures
        scan_from(b, a, size, from) == Step::Decided(r.reversed()),
    decreases chunk_count(size) - from,
{
    if from < chunk_count(size) {
        lemma_lex_reversed(a[from as int], b[from as int]);
        if lex_order(a[from as int], b[from as int]) == Relation::Equal {
            lemma_scan_reversed(a, b, size, from + 1, r);
        }
    }
}

/// What scans decide is transitive: where the first of three files is found
/// not to come after the second, and the second not after the third, the
/// first is found not to come after the third, and before it where either
/// of the two was found to come before.
pub proof fn lemma_scan_transitive(
    a: Seq<Seq<u8>>,
    b: Seq<Seq<u8>>,
    c: Seq<Seq<u8>>,
    size: u64,
    from: nat,
)
    requires
        scan_from(a, b, size, from) is Decided,
        scan_from(b, c, size, from) is Decided,
        scan_from(a, b, size, from)->Decided_0 != Relation::Greater,
        scan_from(b, c, size, from)->Decided_0 != Relation::Greater,
    ensures
        scan_from(a, c, size, from) == Step::Decided(
            if scan_from(a, b, size, from)->Decided_0 == Relation::Less || scan_from(
                b,
                c,
                size,
                from,
            )->Decided_0 == Relation::Less {
                Relation::Less
            } else {
                Relation::Equal
            },
        ),
    decreases chunk_count(size) - from,
{
    if from < chunk_count(size) {
        let x = a[from as int];
        let y = b[from as int];
        let z = c[from as int];
        lemma_lex_equal(x, y);
        lemma_lex_equal(y, z);
        lemma_lex_equal(x, z);
        lemma_lex_transitive(x, y, z);
        if x == y && y == z {
            lemma_scan_transitive(a, b, c, size, from + 1);
        }
    }
}

/// Progress of the incremental reading of one file: the digests of the
/// chunks read so far, in the order of the chunks. It only ever grows.
#[derive(Debug)]
pub struct Hasher {
    digests: Vec<Vec<u8>>,
}

impl View for Hasher {
    type V = Seq<Seq<u8>>;

    closed spec fn view(&self) -> Seq<Seq<u8>> {
        self.digests@.map_values(|d: Vec<u8>| d@)
    }
}

impl Hasher {
    /// The progress of a file of which nothing was read.
    pub fn new() -> (h: Hasher)
        ensures
            h@ == Seq::<Seq<u8>>::empty(),
    {
        let h = Hasher { digests: Vec::new() };
        assert(h@ =~= Seq::<Seq<u8>>::empty());
        h
    }

    /// Number of chunks read so far.
    pub fn chunks(&self) -> (n: usize)
        ensures
            n == self@.len(),
    {
        self.digests.len()
    }

    /// Number of bytes read so far of a file of `size` bytes.
    pub fn bytes_consumed(&self, size: u64) -> (n: u64)
        ensures
            n == bytes_covered(size, self@.len()),
    {
        let n: usize = self.digests.len();
        if n as u64 <= size / CHUNK_SIZE {
            (n as u64) * CHUNK_SIZE
        } else {
            size
        }
    }

    /// The digest of chunk `index`, if that chunk was read.
    pub fn digest(&self, index: usize) -> (d: Option<&Vec<u8>>)
        ensures
            index < self@.len() ==> d.is_some() && d.unwrap()@ == self@[index as int],
            index >= self@.len() ==> d.is_none(),
    {
        if index < self.digests.len() {
            Some(&self.digests[index])
        } else {
            None
        }
    }

    /// Records the digest of the next chunk.
    pub fn record(&mut self, digest: Vec<u8>)
        ensures
            final(self)@ == old(self)@.push(digest@),
    {
        self.digests.push(digest);
        assert(self@ =~= old(self)@.push(digest@));
    }

    /// Looks through the chunks, from the first one on, for what decides the
    /// comparison of two files of `size` bytes, or for what has to be read
    /// next.
    pub fn scan(&self, other: &Hasher, size: u64) -> (step: Step)
        ensures
            step == scan_from(self@, other@, size, 0),
    {
        let whole: u64 = size / CHUNK_SIZE;
        let mut i: usize = 0;
        loop
            invariant
                whole == size / CHUNK_SIZE,
                scan_from(self@, other@, size, 0) == scan_from(self@, other@, size, i as nat),
            decreases chunk_count(size) - i,
        {
            let at: u64 = i as u64;
            if at > whole || (at == whole && size % CHUNK_SIZE == 0) {
                return Step::Decided(Relation::Equal);
            }
            let offset: u64 = at * CHUNK_SIZE;
            let len: u64 = if size - offset >= CHUNK_SIZE {
                CHUNK_SIZE
            } else {
                size - offset
            };
            if i >= self.digests.len() {
                return Step::Read { side: Side::Left, index: at, offset, len };
            }
            if i >= other.digests.len() {
                return Step::Read { side: Side::Right, index: at, offset, len };
            }
            let r = compare_bytes(&self.digests[i], &other.digests[i]);
            if r != Relation::Equal {
                return Step::Decided(r);
            }
            i = i + 1;
        }
    }
}

} // verus!
