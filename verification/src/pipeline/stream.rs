//! A stream with bytes put back in front of it.

use vstd::prelude::*;

verus! {

/// A stream that yields bytes read before, then those of the inner stream.
/// It serves to look at the head of a request and then read it again.
pub struct PrefixedStream<S> {
    inner: S,
    prefix: Vec<u8>,
    prefix_offset: usize,
}

impl<S> PrefixedStream<S> {
    /// Whether the offset lies within the prefix.
    pub closed spec fn wf(self) -> bool {
        self.prefix_offset <= self.prefix.len()
    }

    /// The bytes of the prefix that are still to be read.
    pub closed spec fn pending(self) -> Seq<u8> {
        self.prefix@.skip(self.prefix_offset as int)
    }

    /// The inner stream.
    pub closed spec fn stream(self) -> S {
        self.inner
    }

    /// `inner` with `prefix` in front of it.
    pub fn new(inner: S, prefix: Vec<u8>) -> (r: Self)
        ensures
            r.wf(),
            r.pending() == prefix@,
            r.stream() == inner,
    {
        let r = PrefixedStream { inner, prefix, prefix_offset: 0 };
        assert(r.pending() =~= prefix@);
        r
    }

    /// The number of bytes of the prefix that are still to be read.
    pub fn prefix_remaining(&self) -> (r: usize)
        requires
            self.wf(),
        ensures
            r == self.pending().len(),
    {
        self.prefix.len() - self.prefix_offset
    }

    /// Reads from the prefix: as many bytes as are left, at most `capacity`.
    /// `None` where the prefix is used up and the inner stream is to be read.
    pub fn read_prefix(&mut self, capacity: usize) -> (r: Option<Vec<u8>>)
        requires
            old(self).wf(),
        ensures
            final(self).wf(),
            final(self).stream() == old(self).stream(),
            match r {
                None => old(self).pending().len() == 0 && final(self).pending() == old(
                    self,
                ).pending(),
                Some(bytes) => {
                    let n = read_size(old(self).pending(), capacity as nat);
                    &&& old(self).pending().len() > 0
                    &&& bytes@ == old(self).pending().take(n)
                    &&& final(self).pending() == old(self).pending().skip(n)
                },
            },
    {
        let remaining = self.prefix_remaining();
        if remaining == 0 {
            return None;
        }
        let count: usize = if remaining <= capacity {
            remaining
        } else {
            capacity
        };
        let ghost pending = self.pending();
        let mut bytes: Vec<u8> = Vec::new();
        let mut i: usize = 0;
        while i < count
            invariant
                self.wf(),
                self.pending() == pending,
                i <= count <= pending.len(),
                self.prefix_offset + pending.len() == self.prefix.len(),
                bytes@ == pending.take(i as int),
            decreases count - i,
        {
            bytes.push(self.prefix[self.prefix_offset + i]);
            i += 1;
            assert(bytes@ =~= pending.take(i as int));
        }
        self.prefix_offset = self.prefix_offset + count;
        assert(self.pending() =~= pending.skip(count as int));
        Some(bytes)
    }

    /// The inner stream.
    pub fn inner_mut(&mut self) -> (r: &mut S)
        requires
            old(self).wf(),
        ensures
            *r == old(self).stream(),
            final(self).stream() == *final(r),
            final(self).pending() == old(self).pending(),
            final(self).wf(),
    {
        &mut self.inner
    }
}

/// What `reads` reads of a prefix give, one after the other, is the start of
/// the prefix, and what is left over is its rest: nothing is lost, doubled or
/// swapped.
pub proof fn law_reads_follow_each_other(prefix: Seq<u8>, capacities: Seq<nat>)
    ensures
        read_out(prefix, capacities) + left_over(prefix, capacities) == prefix,
    decreases capacities.len(),
{
    if capacities.len() > 0 {
        let n = read_size(prefix, capacities[0]);
        law_reads_follow_each_other(prefix.skip(n), capacities.skip(1));
        let rest = prefix.skip(n);
        assert(prefix.take(n) + rest =~= prefix);
        assert(prefix.take(n) + read_out(rest, capacities.skip(1)) + left_over(
            rest,
            capacities.skip(1),
        ) =~= prefix.take(n) + (read_out(rest, capacities.skip(1)) + left_over(
            rest,
            capacities.skip(1),
        )));
    } else {
        assert(read_out(prefix, capacities) + left_over(prefix, capacities) =~= prefix);
    }
}

/// The number of bytes that one read of a prefix gives.
pub open spec fn read_size(pending: Seq<u8>, capacity: nat) -> int {
    if pending.len() <= capacity {
        pending.len() as int
    } else {
        capacity as int
    }
}

/// What reads of these capacities give together.
pub open spec fn read_out(pending: Seq<u8>, capacities: Seq<nat>) -> Seq<u8>
    decreases capacities.len(),
{
    if capacities.len() == 0 {
        Seq::empty()
    } else {
        let n = read_size(pending, capacities[0]);
        pending.take(n) + read_out(pending.skip(n), capacities.skip(1))
    }
}

/// What reads of these capacities leave.
pub open spec fn left_over(pending: Seq<u8>, capacities: Seq<nat>) -> Seq<u8>
    decreases capacities.len(),
{
    if capacities.len() == 0 {
        pending
    } else {
        left_over(pending.skip(read_size(pending, capacities[0])), capacities.skip(1))
    }
}

/// A read gives as many bytes as there are and as fit: it stops short only
/// where one of the two runs out.
pub proof fn law_reads_give_what_fits(pending: Seq<u8>, capacity: nat)
    ensures
        0 <= read_size(pending, capacity) <= pending.len(),
        read_size(pending, capacity) <= capacity,
        read_size(pending, capacity) == pending.len() || read_size(pending, capacity) == capacity,
{
}

} // verus!
