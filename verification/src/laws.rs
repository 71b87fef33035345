use vstd::prelude::*;
use crate::content::absorbed;
use crate::content::continues;
use crate::content::fast_path;
use crate::content::lock_order;
use crate::content::step_of;
use crate::content::Candidate;
use crate::hasher::bytes_covered;
use crate::hasher::chunk_count;
use crate::hasher::lemma_scan_equal;
use crate::hasher::lemma_scan_reads_next;
use crate::hasher::lemma_scan_reversed;
use crate::hasher::lemma_scan_same;
use crate::hasher::lemma_scan_transitive;
use crate::hasher::same_chunk;
use crate::hasher::Step;
use crate::relation::Relation;
use crate::relation::Side;

verus! {

/// A candidate compares equal to itself, whatever was read of it.
pub proof fn lemma_reflexive(a: Candidate)
    ensures
        step_of(a, a) == Step::Decided(Relation::Equal),
        step_of(a, a).shows_equal(),
{
}

/// Candidates whose snapshots differ in size or in device are never equal,
/// and their comparison never asks for a read: it is decided by the order of
/// the snapshots, whatever was read of either file.
pub proof fn lemma_metadata_decides(a: Candidate, b: Candidate)
    requires
        a.metadata.size != b.metadata.size || a.metadata.dev != b.metadata.dev,
    ensures
        step_of(a, b) == Step::Decided(a.metadata.order(b.metadata)),
        a.metadata.order(b.metadata) != Relation::Equal,
        !step_of(a, b).shows_equal(),
        !(step_of(a, b) is Read),
{
}

/// Two candidates with equal snapshots whose chunks, as far as both were
/// read, have the same digests are never found to differ. Once both were
/// read to the end they are found equal, though they are two candidates.
pub proof fn lemma_same_digests(a: Candidate, b: Candidate)
    requires
        a.valid(),
        b.valid(),
        a.metadata == b.metadata,
        forall|k: int| 0 <= k < a.digests.len() && k < b.digests.len() ==> a.digests[k] == b.digests[k],
    ensures
        step_of(a, b) is Read || step_of(a, b).shows_equal(),
        a.digests.len() == chunk_count(a.metadata.size) && b.digests.len() == chunk_count(
            b.metadata.size,
        ) ==> step_of(a, b).shows_equal(),
{
    assert forall|k: int| 0 <= k < a.digests.len() && k < b.digests.len() implies #[trigger] same_chunk(
        a.digests,
        b.digests,
        k,
    ) by {}
    lemma_scan_same(a.digests, b.digests, a.metadata.size, 0);
}

/// Two candidates are found equal only where they are one candidate, or
/// where their snapshots are equal, both files were read to the end, and
/// every chunk of the one has the same digest as that chunk of the other.
pub proof fn lemma_equal_is_earned(a: Candidate, b: Candidate)
    requires
        a.valid(),
        b.valid(),
        step_of(a, b).shows_equal(),
    ensures
        a.metadata == b.metadata,
        a.id == b.id || (a.digests.len() == chunk_count(a.metadata.size) && a.digests
            == b.digests),
{
    if a.id != b.id {
        lemma_scan_equal(a.digests, b.digests, a.metadata.size, 0);
        if a.digests.len() < chunk_count(a.metadata.size) {
            assert(same_chunk(a.digests, b.digests, a.digests.len() as int));
        }
        if b.digests.len() < chunk_count(a.metadata.size) {
            assert(same_chunk(a.digests, b.digests, b.digests.len() as int));
        }
        assert forall|k: int| 0 <= k < a.digests.len() implies a.digests[k] == b.digests[k] by {
            assert(same_chunk(a.digests, b.digests, k));
        }
        assert(a.digests =~= b.digests);
    }
}

/// Being found equal carries over: where identifiers tell candidates apart,
/// a candidate found equal to a second, and that one to a third, is found
/// equal to the third.
pub proof fn lemma_equal_transitive(a: Candidate, b: Candidate, c: Candidate)
    requires
        a.valid(),
        b.valid(),
        c.valid(),
        a.id == b.id ==> a == b,
        b.id == c.id ==> b == c,
        step_of(a, b).shows_equal(),
        step_of(b, c).shows_equal(),
    ensures
        step_of(a, c).shows_equal(),
{
    if a.id != b.id && b.id != c.id && a.id != c.id {
        lemma_equal_is_earned(a, b);
        lemma_equal_is_earned(b, c);
        lemma_same_digests(a, c);
    }
}

/// What comparisons decide is transitive, so that candidates can be sorted
/// by it: where identifiers tell candidates apart, a candidate found not to
/// come after a second, and that one not after a third, is found not to come
/// after the third, and before it where either of the two came before.
pub proof fn lemma_order_transitive(a: Candidate, b: Candidate, c: Candidate)
    requires
        a.id == b.id ==> a == b,
        b.id == c.id ==> b == c,
        a.id == c.id ==> a == c,
        step_of(a, b) is Decided,
        step_of(b, c) is Decided,
        step_of(a, b)->Decided_0 != Relation::Greater,
        step_of(b, c)->Decided_0 != Relation::Greater,
    ensures
        step_of(a, c) == Step::Decided(
            if step_of(a, b)->Decided_0 == Relation::Less || step_of(b, c)->Decided_0
                == Relation::Less {
                Relation::Less
            } else {
                Relation::Equal
            },
        ),
{
    if a.metadata == b.metadata && b.metadata == c.metadata && a.id != b.id && b.id != c.id {
        if a.id != c.id {
            lemma_scan_transitive(a.digests, b.digests, c.digests, a.metadata.size, 0);
        } else {
            lemma_swapped(a, b, step_of(a, b)->Decided_0);
        }
    }
}

/// A comparison that is decided one way is decided the other way when the
/// two candidates are swapped.
pub proof fn lemma_swapped(a: Candidate, b: Candidate, r: Relation)
    requires
        step_of(a, b) == Step::Decided(r),
    ensures
        step_of(b, a) == Step::Decided(r.reversed()),
{
    if fast_path(a, b) is None {
        lemma_scan_reversed(a.digests, b.digests, a.metadata.size, 0, r);
    }
}

/// No byte is read twice: a comparison asks a candidate only for the chunk
/// that begins where its reading stopped, and for no more than is left of
/// the file.
pub proof fn lemma_reads_continue(a: Candidate, b: Candidate)
    requires
        a.valid(),
        b.valid(),
    ensures
        continues(step_of(a, b), a, b),
        step_of(a, b) != Step::Incomparable,
{
    if fast_path(a, b) is None {
        lemma_scan_reads_next(a.digests, b.digests, a.metadata.size, 0);
    }
}

/// Offering a digest to a candidate never takes back what was read: the
/// candidate stays valid, the bytes read never get fewer nor more than the
/// file has, and where the digest is kept they grow by the chunk it stands
/// for.
pub proof fn lemma_absorbed_grows(c: Candidate, chosen: bool, index: nat, digest: Seq<u8>)
    requires
        c.valid(),
    ensures
        absorbed(c, chosen, index, digest).valid(),
        absorbed(c, chosen, index, digest).consumed() >= c.consumed(),
        absorbed(c, chosen, index, digest).consumed() <= c.metadata.size,
        absorbed(c, chosen, index, digest).consumed() == (if absorbed(c, chosen, index, digest)
            == c {
            c.consumed()
        } else {
            bytes_covered(c.metadata.size, c.digests.len() + 1)
        }),
        absorbed(c, chosen, index, digest) != c ==> absorbed(c, chosen, index, digest).consumed()
            > c.consumed(),
{
    let after = absorbed(c, chosen, index, digest);
    if chosen && index == c.digests.len() && index < chunk_count(c.metadata.size) {
        assert(after.digests.len() == c.digests.len() + 1);
    }
}

/// The bytes that a comparison asks a candidate to read are accounted for:
/// once the digest of the chunk is kept, the candidate has one chunk more,
/// the bytes read of the file are those read before and the bytes of that
/// chunk, and no more than the file has. So a comparison asks for a chunk
/// no more often than the two files have chunks.
pub proof fn lemma_read_is_counted(a: Candidate, b: Candidate, digest: Seq<u8>)
    requires
        a.valid(),
        b.valid(),
        step_of(a, b) is Read,
    ensures
        ({
            let side = step_of(a, b)->side;
            let index = step_of(a, b)->index as nat;
            let len = step_of(a, b)->len;
            let asked = if side == Side::Left {
                a
            } else {
                b
            };
            let after = absorbed(asked, true, index, digest);
            &&& after.digests == asked.digests.push(digest)
            &&& after.valid()
            &&& after.consumed() == asked.consumed() + len
            &&& after.consumed() <= asked.metadata.size
        }),
{
    lemma_reads_continue(a, b);
}

/// The order in which the progress of two candidates is locked does not
/// depend on the order in which they are given: the candidate with the lower
/// identifier comes first either way.
pub proof fn lemma_lock_order_canonical(a: u64, b: u64)
    requires
        a != b,
    ensures
        lock_order(a, b) == Side::Left <==> lock_order(b, a) == Side::Right,
        lock_order(a, b) == Side::Left <==> a < b,
{
}

} // verus!
