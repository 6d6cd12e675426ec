//! A fixed-capacity buffer that keeps only the most recent items.
use vstd::prelude::*;
use std::collections::VecDeque;
use vstd::std_specs::iter::IteratorSpec;

verus! {

/// The last `cap` items of `s` (all of `s` when it is shorter).
pub open spec fn keep_last<T>(s: Seq<T>, cap: nat) -> Seq<T> {
    if s.len() <= cap {
        s
    } else {
        s.skip(s.len() - cap)
    }
}

/// The buffer contents after pushing each of `items`, in order, onto `start`
/// with capacity `cap`.
pub open spec fn push_all<T>(start: Seq<T>, items: Seq<T>, cap: nat) -> Seq<T>
    decreases items.len(),
{
    if items.len() == 0 {
        start
    } else {
        push_all(keep_last(start.push(items[0]), cap), items.drop_first(), cap)
    }
}

/// Pushing onto a buffer that already dropped old items gives the same
/// contents as if nothing had been dropped: a buffer always holds the last
/// `cap` items of everything pushed into it.
pub proof fn lemma_push_keeps_history<T>(history: Seq<T>, item: T, cap: nat)
    requires
        cap > 0,
    ensures
        keep_last(keep_last(history, cap).push(item), cap) == keep_last(history.push(item), cap),
{
    let k = keep_last(history, cap);
    if history.len() > cap {
        assert(keep_last(k.push(item), cap) =~= keep_last(history.push(item), cap));
    } else {
        assert(k == history);
    }
}

/// Pushing a sequence of items one at a time leaves the last `cap` items of
/// the whole history, whatever the buffer held before.
pub proof fn lemma_push_all_is_keep_last<T>(history: Seq<T>, items: Seq<T>, cap: nat)
    requires
        cap > 0,
    ensures
        push_all(keep_last(history, cap), items, cap) == keep_last(history + items, cap),
    decreases items.len(),
{
    if items.len() == 0 {
        assert(history + items =~= history);
        if history.len() > cap {
            assert(keep_last(keep_last(history, cap), cap) =~= keep_last(history, cap));
        }
    } else {
        lemma_push_keeps_history(history, items[0], cap);
        lemma_push_all_is_keep_last(history.push(items[0]), items.drop_first(), cap);
        assert(history.push(items[0]) + items.drop_first() =~= history + items);
    }
}

/// Filling a buffer from a vector gives the same contents as pushing the
/// vector's items one by one into an empty buffer of the same capacity.
pub proof fn lemma_from_vec_is_pushes<T>(items: Seq<T>, cap: nat)
    requires
        cap > 0,
    ensures
        keep_last(items, cap) == push_all(Seq::<T>::empty(), items, cap),
{
    lemma_push_all_is_keep_last(Seq::<T>::empty(), items, cap);
    assert(Seq::<T>::empty() + items =~= items);
}

/// After a push the buffer is one longer unless it was full, never exceeds
/// its capacity, and the pushed item is the newest.
pub proof fn lemma_push_len_newest<T>(before: Seq<T>, item: T, cap: nat)
    requires
        cap > 0,
        before.len() <= cap,
    ensures
        keep_last(before.push(item), cap).len() == if before.len() < cap {
            before.len() + 1int
        } else {
            cap as int
        },
        keep_last(before.push(item), cap).last() == item,
        keep_last(before.push(item), cap).len() <= cap,
{
}

/// A fixed-capacity ring buffer backed by `VecDeque<T>`.
///
/// When the buffer is full and a new item is pushed, the oldest item
/// is silently discarded. Iteration yields items from oldest to newest.
#[derive(Debug)]
pub struct RingBuffer<T> {
    buf: VecDeque<T>,
    capacity: usize,
}

impl<T> View for RingBuffer<T> {
    type V = Seq<T>;

    /// The items held, oldest first.
    closed spec fn view(&self) -> Seq<T> {
        self.buf@
    }
}

impl<T> RingBuffer<T> {
    #[verifier::type_invariant]
    spec fn well_formed(&self) -> bool {
        &&& 0 < self.capacity
        &&& self.buf@.len() <= self.capacity
    }

    /// The capacity the buffer was created with.
    pub closed spec fn cap(&self) -> nat {
        self.capacity as nat
    }

    /// Create an empty ring buffer with the given capacity.
    /// A capacity of zero is not a valid buffer.
    pub fn new(capacity: usize) -> (rb: Self)
        requires
            capacity > 0,
        ensures
            rb@ == Seq::<T>::empty(),
            rb.cap() == capacity,
    {
        RingBuffer { buf: VecDeque::with_capacity(capacity), capacity }
    }

    /// Create a ring buffer pre-filled from a vector: only the last `capacity`
    /// items are kept when the vector is longer.
    pub fn from_vec(capacity: usize, vec: Vec<T>) -> (rb: Self)
        requires
            capacity > 0,
        ensures
            rb@ == keep_last(vec@, capacity as nat),
            rb.cap() == capacity,
    {
        let mut rb = Self::new(capacity);
        let mut vec = vec;
        let start = vec.len().saturating_sub(capacity);
        let tail = vec.split_off(start);
        let ghost tail_seq = tail@;
        for item in it: tail
            invariant
                rb.cap() == capacity,
                tail_seq == it.seq(),
                tail_seq.len() <= capacity,
                rb@ == tail_seq.take(it.index() as int),
        {
            rb.push(item);
            assert(tail_seq.take(it.index() + 1) == tail_seq.take(it.index() as int).push(item));
        }
        assert(tail_seq.take(tail_seq.len() as int) == tail_seq);
        rb
    }

    /// Push an item into the buffer. If at capacity, the oldest item is dropped.
    pub fn push(&mut self, item: T)
        ensures
            final(self)@ == keep_last(old(self)@.push(item), old(self).cap()),
            final(self).cap() == old(self).cap(),
    {
        proof {
            use_type_invariant(&*self);
        }
        let mut buf = VecDeque::new();
        std::mem::swap(&mut buf, &mut self.buf);
        if buf.len() == self.capacity {
            buf.pop_front();
        }
        buf.push_back(item);
        self.buf = buf;
    }

    pub fn len(&self) -> (n: usize)
        ensures
            n == self@.len(),
            n <= self.cap(),
    {
        proof {
            use_type_invariant(self);
        }
        self.buf.len()
    }

    pub fn is_empty(&self) -> (b: bool)
        ensures
            b == (self@.len() == 0),
    {
        self.buf.len() == 0
    }

    pub fn clear(&mut self)
        ensures
            final(self)@ == Seq::<T>::empty(),
            final(self).cap() == old(self).cap(),
    {
        proof {
            use_type_invariant(&*self);
        }
        self.buf = VecDeque::new();
    }

    /// Get an item by logical index (0 = oldest).
    pub fn get(&self, index: usize) -> (r: Option<&T>)
        ensures
            r == (if index < self@.len() { Some(&self@[index as int]) } else { None }),
    {
        if index < self.buf.len() {
            Some(&self.buf[index])
        } else {
            None
        }
    }

    pub fn oldest(&self) -> (r: Option<&T>)
        ensures
            r == (if self@.len() > 0 { Some(&self@[0]) } else { None }),
    {
        self.get(0)
    }

    pub fn newest(&self) -> (r: Option<&T>)
        ensures
            r == (if self@.len() > 0 { Some(&self@.last()) } else { None }),
    {
        let n = self.buf.len();
        if n == 0 {
            None
        } else {
            self.get(n - 1)
        }
    }

    /// Iterator from oldest to newest.
    pub fn iter(&self) -> (it: std::collections::vec_deque::Iter<'_, T>)
        ensures
            it.remaining() == self@.as_ref(),
    {
        self.buf.iter()
    }

    pub fn capacity(&self) -> (c: usize)
        ensures
            c == self.cap(),
            c > 0,
    {
        proof {
            use_type_invariant(self);
        }
        self.capacity
    }
}

impl<T: Clone> Clone for RingBuffer<T> {
    /// An independent copy holding clones of the same items, with the same capacity.
    fn clone(&self) -> (res: Self)
        ensures
            res.cap() == self.cap(),
            res@.len() == self@.len(),
            forall|i: int| 0 <= i < self@.len() ==> cloned::<T>(self@[i], #[trigger] res@[i]),
    {
        proof {
            use_type_invariant(self);
        }
        RingBuffer { buf: self.buf.clone(), capacity: self.capacity }
    }
}

} // verus!
