use std::collections::VecDeque;
use vstd::prelude::*;

verus! {

/// What a rolling buffer holds: the retained samples, oldest first, the
/// capacity it was made with, the absolute index of the oldest retained
/// sample and the absolute index the next pushed sample will get.
pub ghost struct BufferState<T> {
    pub samples: Seq<T>,
    pub capacity: nat,
    pub start: int,
    pub next: int,
}

/// A window over a stream of samples that keeps at most `capacity` of the
/// latest samples and numbers every sample by its position in the stream.
pub struct RollingBuffer<T> {
    samples: VecDeque<T>,
    capacity: usize,
    start_sample: u64,
    next_sample: u64,
}

impl<T> View for RollingBuffer<T> {
    type V = BufferState<T>;

    closed spec fn view(&self) -> BufferState<T> {
        BufferState {
            samples: self.samples@,
            capacity: self.capacity as nat,
            start: self.start_sample as int,
            next: self.next_sample as int,
        }
    }
}

/// The buffer after one more sample: when it is full, the oldest sample
/// leaves first and the start moves on by one.
pub open spec fn push_one<T>(b: BufferState<T>, x: T) -> BufferState<T> {
    if b.samples.len() == b.capacity {
        BufferState {
            samples: (if b.samples.len() == 0 {
                b.samples
            } else {
                b.samples.drop_first()
            }).push(x),
            capacity: b.capacity,
            start: b.start + 1,
            next: b.next + 1,
        }
    } else {
        BufferState { samples: b.samples.push(x), capacity: b.capacity, start: b.start, next: b.next + 1 }
    }
}

/// The buffer after pushing `xs` one by one.
pub open spec fn push_all<T>(b: BufferState<T>, xs: Seq<T>) -> BufferState<T>
    decreases xs.len(),
{
    if xs.len() == 0 {
        b
    } else {
        push_one(push_all(b, xs.drop_last()), xs.last())
    }
}

/// A well-formed buffer state: the start never passes the next index, the
/// retained samples cover the indices from the start to the next index, and
/// with a positive capacity they are exactly those samples and no more than
/// the capacity.
pub open spec fn state_ok<T>(b: BufferState<T>) -> bool {
    &&& 0 <= b.start <= b.next
    &&& b.next - b.start <= b.samples.len()
    &&& b.capacity > 0 ==> b.samples.len() == b.next - b.start && b.samples.len() <= b.capacity
}

pub open spec fn clamp(x: int, lo: int, hi: int) -> int {
    if x < lo {
        if lo < hi {
            lo
        } else {
            hi
        }
    } else if x < hi {
        x
    } else {
        hi
    }
}

/// The samples with absolute indices from `start` to `end`, both clamped to
/// what the buffer retains: from `min(max(start, b.start), b.next)` to
/// `min(max(end, that), b.next)`.
pub open spec fn slice_of<T>(b: BufferState<T>, start: int, end: int) -> Seq<T> {
    let s = clamp(start, b.start, b.next);
    let e = clamp(end, s, b.next);
    b.samples.subrange(s - b.start, e - b.start)
}

proof fn lemma_push_one_ok<T>(b: BufferState<T>, x: T)
    requires
        state_ok(b),
    ensures
        state_ok(push_one(b, x)),
{
}

pub proof fn lemma_push_all_ok<T>(b: BufferState<T>, xs: Seq<T>)
    requires
        state_ok(b),
    ensures
        state_ok(push_all(b, xs)),
        push_all(b, xs).next == b.next + xs.len(),
        push_all(b, xs).capacity == b.capacity,
    decreases xs.len(),
{
    if xs.len() > 0 {
        lemma_push_all_ok(b, xs.drop_last());
        lemma_push_one_ok(push_all(b, xs.drop_last()), xs.last());
    }
}

impl<T: Copy> RollingBuffer<T> {
    pub open spec fn inv(&self) -> bool {
        state_ok(self@)
    }

    /// An empty buffer that keeps at most `capacity` samples, numbering from 0.
    pub fn new(capacity: usize) -> (r: Self)
        ensures
            r.inv(),
            r@.samples == Seq::<T>::empty(),
            r@.capacity == capacity,
            r@.start == 0,
            r@.next == 0,
    {
        RollingBuffer {
            samples: VecDeque::with_capacity(capacity),
            capacity,
            start_sample: 0,
            next_sample: 0,
        }
    }

    /// Drop every retained sample; numbering goes on from where it was.
    pub fn clear(&mut self)
        requires
            old(self).inv(),
        ensures
            final(self).inv(),
            final(self)@.samples == Seq::<T>::empty(),
            final(self)@.capacity == old(self)@.capacity,
            final(self)@.start == old(self)@.next,
            final(self)@.next == old(self)@.next,
    {
        self.samples.clear();
        self.start_sample = self.next_sample;
    }

    /// Push the samples one by one; each sample pushed into a full buffer
    /// first drops the oldest one.
    pub fn push(&mut self, incoming: &[T])
        requires
            old(self).inv(),
            old(self)@.next + incoming@.len() <= u64::MAX,
        ensures
            final(self).inv(),
            final(self)@ == push_all(old(self)@, incoming@),
            final(self)@.next == old(self)@.next + incoming@.len(),
            old(self)@.capacity > 0 ==> {
                &&& final(self)@.samples == (old(self)@.samples + incoming@).skip(
                    if old(self)@.samples.len() + incoming@.len() > old(self)@.capacity {
                        old(self)@.samples.len() + incoming@.len() - old(self)@.capacity
                    } else {
                        0
                    },
                )
                &&& final(self)@.start == final(self)@.next - final(self)@.samples.len()
                &&& final(self)@.samples.len() <= old(self)@.capacity
            },
    {
        let ghost b0 = self@;
        let mut i: usize = 0;
        while i < incoming.len()
            invariant
                i <= incoming.len(),
                b0.next + incoming@.len() <= u64::MAX,
                state_ok(b0),
                self@ == push_all(b0, incoming@.take(i as int)),
                self.inv(),
            decreases incoming.len() - i,
        {
            proof {
                lemma_push_all_ok(b0, incoming@.take(i as int));
                assert(incoming@.take(i + 1).drop_last() =~= incoming@.take(i as int));
                assert(incoming@.take(i + 1).last() == incoming@[i as int]);
            }
            let sample = incoming[i];
            if self.samples.len() == self.capacity {
                self.samples.pop_front();
                self.start_sample = self.start_sample + 1;
            }
            self.samples.push_back(sample);
            self.next_sample = self.next_sample + 1;
            i += 1;
            proof {
                lemma_push_all_ok(b0, incoming@.take(i as int));
            }
        }
        proof {
            assert(incoming@.take(incoming@.len() as int) =~= incoming@);
            lemma_push_all_ok(b0, incoming@);
            if b0.capacity > 0 {
                lemma_push_keeps_latest(b0, incoming@);
            }
        }
    }

    /// The absolute index of the oldest retained sample.
    pub fn start_sample(&self) -> (r: u64)
        ensures
            r == self@.start,
    {
        self.start_sample
    }

    /// The absolute index that the next pushed sample will get.
    pub fn next_sample(&self) -> (r: u64)
        ensures
            r == self@.next,
    {
        self.next_sample
    }

    /// A copy of the retained samples with absolute indices in
    /// `[start, end)`, clamped to what the buffer retains.
    pub fn slice(&self, start: u64, end: u64) -> (r: Vec<T>)
        requires
            self.inv(),
        ensures
            r@ == slice_of(self@, start as int, end as int),
    {
        let start = if start < self.start_sample {
            self.start_sample
        } else {
            start
        };
        let start = if start < self.next_sample {
            start
        } else {
            self.next_sample
        };
        let end = if end < start {
            start
        } else {
            end
        };
        let end = if end < self.next_sample {
            end
        } else {
            self.next_sample
        };
        let n = self.samples.len();
        proof {
            assert(state_ok(self@));
            assert(self@.samples == self.samples@);
            assert(end - self.start_sample <= n);
        }
        let offset = (start - self.start_sample) as usize;
        let stop = (end - self.start_sample) as usize;
        let mut r: Vec<T> = Vec::new();
        let mut i: usize = offset;
        while i < stop
            invariant
                offset <= i <= stop,
                stop <= self.samples@.len(),
                r@ == self.samples@.subrange(offset as int, i as int),
            decreases stop - i,
        {
            r.push(self.samples[i]);
            i += 1;
            proof {
                assert(r@ =~= self.samples@.subrange(offset as int, i as int));
            }
        }
        r
    }
}

/// With a positive capacity, a well-formed buffer stays well formed and keeps
/// exactly the latest `capacity` samples of everything it held and was given;
/// the start is the absolute index of the oldest of them.
pub proof fn lemma_push_keeps_latest<T>(b: BufferState<T>, xs: Seq<T>)
    requires
        state_ok(b),
        b.capacity > 0,
    ensures
        state_ok(push_all(b, xs)),
        push_all(b, xs).next == b.next + xs.len(),
        push_all(b, xs).capacity == b.capacity,
        push_all(b, xs).samples == (b.samples + xs).skip(
            if b.samples.len() + xs.len() > b.capacity {
                b.samples.len() + xs.len() - b.capacity
            } else {
                0
            },
        ),
        push_all(b, xs).start == push_all(b, xs).next - push_all(b, xs).samples.len(),
    decreases xs.len(),
{
    lemma_push_all_ok(b, xs);
    if xs.len() == 0 {
        assert(b.samples + xs =~= b.samples);
        assert(b.samples.skip(0) =~= b.samples);
    } else {
        let xp = xs.drop_last();
        lemma_push_keeps_latest(b, xp);
        let bp = push_all(b, xp);
        let ep: int = if b.samples.len() + xp.len() > b.capacity {
            b.samples.len() + xp.len() - b.capacity
        } else {
            0
        };
        let whole = b.samples + xs;
        assert(whole.drop_last() =~= b.samples + xp);
        if bp.samples.len() == b.capacity {
            assert(bp.samples.drop_first().push(xs.last()) =~= whole.skip(ep + 1));
        } else {
            assert(ep == 0);
            assert(bp.samples.push(xs.last()) =~= whole.skip(0));
        }
    }
}

} // verus!
