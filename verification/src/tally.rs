use vstd::prelude::*;

verus! {

/// The number of bytes that the window-size check expects on one channel:
/// two writers that send 64 KiB each.
pub const WINDOW_CHECK_TOTAL: usize = 2 * 1024 * 64;

/// A count of the data bytes that a server still expects on a channel; it
/// stops reading once the count reaches zero.
pub struct DataTally {
    remaining: usize,
    total: Ghost<int>,
    lens: Ghost<Seq<int>>,
}

/// The count left after data messages of the lengths `lens`, in order,
/// arrived on a channel whose count started at `total`.
pub open spec fn remaining_after(total: int, lens: Seq<int>) -> int
    decreases lens.len(),
{
    if lens.len() == 0 {
        total
    } else {
        remaining_after(total, lens.drop_last()) - lens.last()
    }
}

/// The number of bytes in data messages of the lengths `lens`.
pub open spec fn received(lens: Seq<int>) -> int
    decreases lens.len(),
{
    if lens.len() == 0 {
        0
    } else {
        lens[0] + received(lens.drop_first())
    }
}

impl DataTally {
    /// The count left is the total less what the messages so far carried.
    #[verifier::type_invariant]
    spec fn inv(self) -> bool {
        self.remaining == remaining_after(self.total@, self.lens@)
    }

    /// The bytes still expected.
    pub closed spec fn spec_remaining(&self) -> nat {
        self.remaining as nat
    }

    /// The bytes that the count started from.
    pub closed spec fn total(&self) -> int {
        self.total@
    }

    /// The lengths of the data messages counted so far, in order.
    pub closed spec fn lens(&self) -> Seq<int> {
        self.lens@
    }

    /// A count that expects `total` bytes and has counted no message.
    pub fn new(total: usize) -> (t: Self)
        ensures
            t.spec_remaining() == total,
            t.total() == total,
            t.lens() == Seq::<int>::empty(),
            t.spec_remaining() == remaining_after(t.total(), t.lens()),
    {
        DataTally { remaining: total, total: Ghost(total as int), lens: Ghost(Seq::empty()) }
    }

    /// The bytes still expected.
    pub fn remaining(&self) -> (n: usize)
        ensures
            n == self.spec_remaining(),
            n == remaining_after(self.total(), self.lens()),
    {
        proof {
            use_type_invariant(self);
        }
        self.remaining
    }

    /// Counts a data message of `len` bytes; tells whether the count reached
    /// zero, where the server stops reading. More bytes than expected is an
    /// error of the peer that the bench does not survive.
    pub fn on_data(&mut self, len: usize) -> (done: bool)
        requires
            len <= old(self).spec_remaining(),
        ensures
            final(self).spec_remaining() == old(self).spec_remaining() - len,
            done == (final(self).spec_remaining() == 0),
            final(self).total() == old(self).total(),
            final(self).lens() == old(self).lens().push(len as int),
            final(self).spec_remaining() == remaining_after(final(self).total(), final(self).lens()),
    {
        proof {
            use_type_invariant(&*self);
        }
        let ghost lens = self.lens@.push(len as int);
        assert(lens.drop_last() =~= self.lens@);
        let remaining = self.remaining - len;
        *self = DataTally { remaining, total: self.total, lens: Ghost(lens) };
        remaining == 0
    }
}

proof fn lemma_received_push(lens: Seq<int>, x: int)
    ensures
        received(lens.push(x)) == received(lens) + x,
    decreases lens.len(),
{
    if lens.len() > 0 {
        lemma_received_push(lens.drop_first(), x);
        assert(lens.push(x).drop_first() =~= lens.drop_first().push(x));
        assert(lens.push(x)[0] == lens[0]);
    } else {
        assert(lens.push(x).drop_first() =~= Seq::<int>::empty());
        assert(received(Seq::<int>::empty()) == 0);
        assert(lens.push(x)[0] == x);
    }
}

/// However the data is cut into messages, the count that a `DataTally` holds
/// after counting them (`remaining_after` of its total and its messages'
/// lengths) is the total less the bytes received, so the server stops exactly
/// when the bytes received reach the total.
pub proof fn law_tally_counts_received(total: int, lens: Seq<int>)
    ensures
        remaining_after(total, lens) == total - received(lens),
        remaining_after(total, lens) == 0 <==> received(lens) == total,
    decreases lens.len(),
{
    if lens.len() > 0 {
        law_tally_counts_received(total, lens.drop_last());
        lemma_received_push(lens.drop_last(), lens.last());
        assert(lens.drop_last().push(lens.last()) =~= lens);
    }
}

} // verus!
