use vstd::prelude::*;

use crate::buffer::{
    is_pointer, name_at, out_of_bounds, pointer_target, u16_at, u32_at, walk_name,
    BUFFER_SIZE, MAX_JUMPS,
};
use crate::error::DnsPacketError;
use crate::message::{header_at, question_at, record_at, DnsHeader, RecordView};
use crate::packet::QuestionView;

verus! {

/// Whether the bytes at `p` start with the labels `labels`, each written out
/// as a length byte (1 to 63) followed by its bytes, all inside the buffer.
pub open spec fn spells(buf: Seq<u8>, p: int, labels: Seq<Seq<u8>>) -> bool
    decreases labels.len(),
{
    labels.len() == 0 || {
        let l = labels[0];
        &&& 1 <= l.len() <= 63
        &&& 0 <= p
        &&& p + 1 + l.len() <= BUFFER_SIZE
        &&& buf[p] as int == l.len()
        &&& buf.subrange(p + 1, p + 1 + l.len()) == l
        &&& spells(buf, p + 1 + l.len(), labels.drop_first())
    }
}

/// How many bytes the labels take when written out.
pub open spec fn spelled_len(labels: Seq<Seq<u8>>) -> int
    decreases labels.len(),
{
    if labels.len() == 0 {
        0
    } else {
        labels[0].len() + 1 + spelled_len(labels.drop_first())
    }
}

/// Whether `n` compression pointers, each leading to the next, start at `p`.
pub open spec fn pointer_chain(buf: Seq<u8>, p: int, n: nat) -> bool
    decreases n,
{
    n == 0 || {
        &&& 0 <= p
        &&& p + 1 < BUFFER_SIZE
        &&& is_pointer(buf[p])
        &&& pointer_chain(buf, pointer_target(buf[p], buf[p + 1]), (n - 1) as nat)
    }
}

/// Where a chain of `n` pointers from `p` leads.
pub open spec fn chain_end(buf: Seq<u8>, p: int, n: nat) -> int
    decreases n,
{
    if n == 0 {
        p
    } else {
        chain_end(buf, pointer_target(buf[p], buf[p + 1]), (n - 1) as nat)
    }
}

/// Whether the name at `q` is written out in full, with no pointer, and ends
/// at `end` with the labels `labels`.
pub open spec fn plain_name(buf: Seq<u8>, q: int, labels: Seq<Seq<u8>>, end: int) -> bool {
    walk_name(buf, q, 0, None) == (Ok::<int, DnsPacketError>(end), labels, None::<int>)
}

proof fn lemma_commit_kept(buf: Seq<u8>, pos: int, jumps: int, c: int)
    ensures
        walk_name(buf, pos, jumps, Some(c)).2 == Some(c),
    decreases 6 - jumps, BUFFER_SIZE - pos,
{
    if jumps <= MAX_JUMPS && 0 <= pos < BUFFER_SIZE {
        let len = buf[pos];
        if is_pointer(len) {
            if pos + 1 < BUFFER_SIZE {
                lemma_commit_kept(buf, pointer_target(len, buf[pos + 1]), jumps + 1, c);
            }
        } else if len != 0 && pos + 1 + len <= BUFFER_SIZE {
            lemma_commit_kept(buf, pos + 1 + len, jumps, c);
        }
    }
}

/// A name written out in full reads the same after any number of earlier
/// jumps within the limit, and keeps the cursor where the first jump left it.
proof fn lemma_plain_after_jumps(buf: Seq<u8>, q: int, jumps: int, c: int)
    requires
        0 <= jumps <= MAX_JUMPS,
        walk_name(buf, q, 0, None).0 is Ok,
        walk_name(buf, q, 0, None).2 is None,
    ensures
        walk_name(buf, q, jumps, Some(c)) == (
            walk_name(buf, q, 0, None).0,
            walk_name(buf, q, 0, None).1,
            Some(c),
        ),
    decreases BUFFER_SIZE - q,
{
    let len = buf[q];
    if is_pointer(len) {
        if q + 2 < BUFFER_SIZE {
            lemma_commit_kept(buf, pointer_target(len, buf[q + 1]), 1, q + 2);
        }
    } else if len != 0 {
        lemma_plain_after_jumps(buf, q + 1 + len, jumps, c);
    }
}

proof fn lemma_small_len_not_pointer(b: u8)
    requires
        b <= 63,
    ensures
        !is_pointer(b),
{
    assert(b <= 63 ==> b & 0xC0 != 0xC0) by (bit_vector);
}

/// Labels written out in full are read one by one, before whatever follows.
proof fn lemma_walk_spelled(buf: Seq<u8>, p: int, labels: Seq<Seq<u8>>, jumps: int)
    requires
        buf.len() == BUFFER_SIZE,
        0 <= jumps <= MAX_JUMPS,
        spells(buf, p, labels),
    ensures
        ({
            let w = walk_name(buf, p + spelled_len(labels), jumps, None);
            walk_name(buf, p, jumps, None) == (w.0, labels + w.1, w.2)
        }),
    decreases labels.len(),
{
    if labels.len() == 0 {
        let w = walk_name(buf, p, jumps, None);
        assert(labels + w.1 =~= w.1);
    } else {
        let l = labels[0];
        let rest = labels.drop_first();
        lemma_small_len_not_pointer(buf[p]);
        lemma_walk_spelled(buf, p + 1 + l.len(), rest, jumps);
        let w = walk_name(buf, p + spelled_len(labels), jumps, None);
        assert(labels =~= seq![l] + rest);
        assert(labels + w.1 =~= seq![l] + (rest + w.1));
    }
}

/// Qname decompression: a name whose labels end in a pointer to a name
/// written out in full reads as its own labels followed by those of the name
/// pointed to, and leaves the cursor just past the two pointer bytes, not at
/// the target. The name pointed to reads the same on its own.
pub proof fn lemma_pointer_resolves(
    buf: Seq<u8>,
    p: int,
    prefix: Seq<Seq<u8>>,
    q: int,
    target: Seq<Seq<u8>>,
    end: int,
)
    requires
        buf.len() == BUFFER_SIZE,
        spells(buf, p, prefix),
        pointer_chain(buf, p + spelled_len(prefix), 1),
        chain_end(buf, p + spelled_len(prefix), 1) == q,
        p + spelled_len(prefix) + 2 < BUFFER_SIZE,
        plain_name(buf, q, target, end),
        end < BUFFER_SIZE,
    ensures
        name_at(buf, p) == (
            Ok::<Seq<Seq<u8>>, DnsPacketError>(prefix + target),
            p + spelled_len(prefix) + 2,
        ),
        name_at(buf, q) == (Ok::<Seq<Seq<u8>>, DnsPacketError>(target), end),
{
    let x = p + spelled_len(prefix);
    lemma_walk_spelled(buf, p, prefix, 0);
    lemma_plain_after_jumps(buf, q, 1, x + 2);
    assert(chain_end(buf, pointer_target(buf[x], buf[x + 1]), 0) == pointer_target(buf[x], buf[x + 1]));
    assert(q == pointer_target(buf[x], buf[x + 1]));
    assert(walk_name(buf, x, 0, None) == walk_name(buf, q, 1, Some(x + 2)));
    assert(prefix + target =~= prefix + walk_name(buf, q, 0, None).1);
}
proof fn lemma_chain_exceeds(buf: Seq<u8>, q: int, jumps: int, k: nat, c: int)
    requires
        0 <= jumps <= MAX_JUMPS + 1,
        jumps + k >= MAX_JUMPS + 1,
        pointer_chain(buf, q, k),
    ensures
        walk_name(buf, q, jumps, Some(c)) == (
            Err::<int, DnsPacketError>(DnsPacketError::MaxJumpsLimit(MAX_JUMPS)),
            Seq::<Seq<u8>>::empty(),
            Some(c),
        ),
    decreases MAX_JUMPS + 1 - jumps,
{
    if jumps <= MAX_JUMPS {
        lemma_chain_exceeds(buf, pointer_target(buf[q], buf[q + 1]), jumps + 1, (k - 1) as nat, c);
    }
}

proof fn lemma_chain_within(buf: Seq<u8>, q: int, jumps: int, k: nat, c: int)
    requires
        0 <= jumps,
        jumps + k <= MAX_JUMPS,
        pointer_chain(buf, q, k),
        walk_name(buf, chain_end(buf, q, k), 0, None).0 is Ok,
        walk_name(buf, chain_end(buf, q, k), 0, None).2 is None,
    ensures
        walk_name(buf, q, jumps, Some(c)) == (
            walk_name(buf, chain_end(buf, q, k), 0, None).0,
            walk_name(buf, chain_end(buf, q, k), 0, None).1,
            Some(c),
        ),
    decreases k,
{
    if k == 0 {
        lemma_plain_after_jumps(buf, q, jumps, c);
    } else {
        lemma_chain_within(buf, pointer_target(buf[q], buf[q + 1]), jumps + 1, (k - 1) as nat, c);
    }
}

/// A chain of up to five pointers that ends at a name written out in full
/// reads as that name, with the cursor just past the first pointer.
pub proof fn lemma_chain_within_limit(
    buf: Seq<u8>,
    p: int,
    n: nat,
    target: Seq<Seq<u8>>,
    end: int,
)
    requires
        1 <= n <= MAX_JUMPS,
        pointer_chain(buf, p, n),
        p + 2 < BUFFER_SIZE,
        plain_name(buf, chain_end(buf, p, n), target, end),
    ensures
        name_at(buf, p) == (Ok::<Seq<Seq<u8>>, DnsPacketError>(target), p + 2),
{
    let t = pointer_target(buf[p], buf[p + 1]);
    lemma_chain_within(buf, t, 1, (n - 1) as nat, p + 2);
}

/// A chain of six or more pointers fails with the jump limit, whatever it
/// leads to, and leaves the cursor just past the first pointer.
pub proof fn lemma_chain_over_limit(buf: Seq<u8>, p: int, n: nat)
    requires
        n >= MAX_JUMPS + 1,
        pointer_chain(buf, p, n),
        p + 2 < BUFFER_SIZE,
    ensures
        name_at(buf, p) == (
            Err::<Seq<Seq<u8>>, DnsPacketError>(DnsPacketError::MaxJumpsLimit(MAX_JUMPS)),
            p + 2,
        ),
{
    let t = pointer_target(buf[p], buf[p + 1]);
    lemma_chain_exceeds(buf, t, 1, (n - 1) as nat, p + 2);
}

/// A length byte that claims more bytes than the buffer has left makes the
/// name fail with `OutOfBounds` at the end of the buffer, and leaves the
/// cursor where it was.
pub proof fn lemma_label_past_end(buf: Seq<u8>, p: int)
    requires
        buf.len() == BUFFER_SIZE,
        0 <= p < BUFFER_SIZE,
        !is_pointer(buf[p]),
        p + 1 + buf[p] > BUFFER_SIZE,
    ensures
        name_at(buf, p) == (
            Err::<Seq<Seq<u8>>, DnsPacketError>(out_of_bounds(BUFFER_SIZE as int)),
            p,
        ),
{
}

/// Every read that starts at or beyond the end of the buffer fails with
/// `OutOfBounds` at that position, and leaves the cursor there.
pub proof fn lemma_reads_past_end(buf: Seq<u8>, p: int)
    requires
        p >= BUFFER_SIZE,
    ensures
        u16_at(buf, p) == (Err::<u16, DnsPacketError>(out_of_bounds(p)), p),
        u32_at(buf, p) == (Err::<u32, DnsPacketError>(out_of_bounds(p)), p),
        name_at(buf, p) == (Err::<Seq<Seq<u8>>, DnsPacketError>(out_of_bounds(p)), p),
        header_at(buf, p) == (Err::<DnsHeader, DnsPacketError>(out_of_bounds(p)), p),
        question_at(buf, p).0 == Err::<QuestionView, DnsPacketError>(out_of_bounds(p)),
        question_at(buf, p).1 == p,
        record_at(buf, p) == (Err::<RecordView, DnsPacketError>(out_of_bounds(p)), p),
{
}

} // verus!
