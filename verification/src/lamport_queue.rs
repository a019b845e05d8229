//! The queue itself: one ring buffer, two monotonic counters, a liveness
//! flag, and a pair of role handles so that only the producer side can push
//! and only the consumer side can pop.

use vstd::prelude::*;

verus! {

/// Mathematical model of a queue state.
///
/// `head` and `tail` count, over the whole life of the queue, how many
/// elements were ever removed and ever inserted; they never wrap. `slots`
/// is the backing ring: the element with absolute position `i` lives in
/// slot `i % capacity` until it is overwritten. `pushed` and `popped` are
/// the full histories of inserted and removed elements, in order.
pub ghost struct QueueModel<D> {
    pub slots: Seq<D>,
    pub head: nat,
    pub tail: nat,
    pub open: bool,
    pub pushed: Seq<D>,
    pub popped: Seq<D>,
}

impl<D> QueueModel<D> {
    /// Number of slots in the ring; fixed at construction.
    pub open spec fn capacity(self) -> nat {
        self.slots.len()
    }

    /// Number of elements currently held: inserted and not yet removed.
    pub open spec fn len(self) -> nat {
        (self.tail - self.head) as nat
    }

    /// The elements currently held, oldest first.
    pub open spec fn pending(self) -> Seq<D> {
        self.pushed.skip(self.head as int)
    }

    /// Well-formedness: the counters stay ordered and at most `capacity`
    /// apart, the histories have exactly the lengths the counters say,
    /// everything removed is a prefix of what was inserted, and every
    /// element still held is present in its ring slot.
    pub open spec fn inv(self) -> bool {
        &&& self.slots.len() >= 1
        &&& self.head <= self.tail
        &&& self.tail - self.head <= self.slots.len()
        &&& self.pushed.len() == self.tail
        &&& self.popped.len() == self.head
        &&& self.popped == self.pushed.take(self.head as int)
        &&& forall|i: int|
            self.head <= i < self.tail ==> self.slots[i % (self.slots.len() as int)]
                == self.pushed[i]
    }

    /// How one `close` call changes the state: the flag drops, nothing else
    /// moves.
    pub open spec fn close_step(self, post: Self) -> bool {
        post == (QueueModel { open: false, ..self })
    }

    /// How one `push` call changes the state. With room available the value
    /// enters the slot at `tail % capacity`, the insertion counter and the
    /// insertion history grow by that one value, and nothing else moves;
    /// against a full ring nothing at all moves.
    pub open spec fn push_step(self, post: Self, d: D) -> bool {
        if self.len() < self.capacity() {
            post == (QueueModel {
                slots: self.slots.update((self.tail as int) % (self.slots.len() as int), d),
                tail: (self.tail + 1) as nat,
                pushed: self.pushed.push(d),
                ..self
            })
        } else {
            post == self
        }
    }

    /// How one `pop` call changes the state. From a non-empty ring the
    /// oldest pending value leaves: the removal counter and the removal
    /// history grow by it, and nothing else moves; from an empty ring
    /// nothing at all moves.
    pub open spec fn pop_step(self, post: Self) -> bool {
        if self.len() > 0 {
            post == (QueueModel {
                head: (self.head + 1) as nat,
                popped: self.popped.push(self.pushed[self.head as int]),
                ..self
            })
        } else {
            post == self
        }
    }
}

/// FIFO delivery: at every well-formed instant, the sequence of elements
/// removed so far is exactly a prefix of the sequence inserted so far —
/// nothing is lost, duplicated or reordered — and once the queue is empty
/// the two histories agree completely.
pub proof fn lemma_fifo_delivery<D>(m: QueueModel<D>)
    requires
        m.inv(),
    ensures
        m.popped == m.pushed.take(m.popped.len() as int),
        m.len() == 0 ==> m.popped == m.pushed,
{
    if m.len() == 0 {
        assert(m.pushed.take(m.head as int) =~= m.pushed);
    }
}

/// The queue is never over capacity and its length never underflows.
pub proof fn lemma_len_bounds<D>(m: QueueModel<D>)
    requires
        m.inv(),
    ensures
        0 <= m.len() <= m.capacity(),
{
}

/// `close` is idempotent: a second call leaves the state of the first call
/// exactly as it was.
pub proof fn lemma_close_idempotent<D>(q0: QueueModel<D>, q1: QueueModel<D>, q2: QueueModel<D>)
    requires
        q0.close_step(q1),
        q1.close_step(q2),
    ensures
        q2 == q1,
{
}

/// Once closed, always closed: no operation — a push, a pop or another
/// close — ever raises the liveness flag again.
pub proof fn lemma_no_reopen<D>(pre: QueueModel<D>, post: QueueModel<D>)
    requires
        !pre.open,
        pre.close_step(post) || pre.pop_step(post) || exists|d: D| pre.push_step(post, d),
    ensures
        !post.open,
{
    if !(pre.close_step(post) || pre.pop_step(post)) {
        let d = choose|d: D| pre.push_step(post, d);
        assert(pre.push_step(post, d));
    }
}

/// Two absolute positions less than one full ring apart occupy the same
/// slot only when they are the same position.
proof fn lemma_slot_distinct(a: int, b: int, m: int)
    requires
        0 < m,
        0 <= a <= b,
        b - a < m,
        a % m == b % m,
    ensures
        a == b,
{
    vstd::arithmetic::div_mod::lemma_mod_equivalence(b, a, m);
    vstd::arithmetic::div_mod::lemma_small_mod((b - a) as nat, m as nat);
}

/// The shared queue state: a fixed-length ring of element slots, the two
/// counters, and the liveness flag. The ghost fields carry the insertion
/// and removal histories that the contracts speak of.
pub struct LamportQueue<D> {
    elements: Vec<D>,
    head: usize,
    tail: usize,
    open: bool,
    pushed: Ghost<Seq<D>>,
    popped: Ghost<Seq<D>>,
}

/// The consumer's handle: the only way to pop. Created once, by
/// `LamportQueue::new`, so a second consumer can never exist.
pub struct LamportQueueReader {
    _role: (),
}

/// The producer's handle: the only way to push. Created once, by
/// `LamportQueue::new`, so a second producer can never exist.
pub struct LamportQueueWriter {
    _role: (),
}

impl<D> View for LamportQueue<D> {
    type V = QueueModel<D>;

    closed spec fn view(&self) -> QueueModel<D> {
        QueueModel {
            slots: self.elements@,
            head: self.head as nat,
            tail: self.tail as nat,
            open: self.open,
            pushed: self.pushed@,
            popped: self.popped@,
        }
    }
}

impl<D: Default + Copy> LamportQueue<D> {
    /// Builds the queue and its matched pair of handles. This is the only
    /// constructor: the single-producer / single-consumer discipline is
    /// enforced by there being exactly one handle of each role.
    pub fn new(capacity: usize) -> (r: (LamportQueue<D>, LamportQueueReader, LamportQueueWriter))
        requires
            capacity >= 1,
        ensures
            r.0@.inv(),
            r.0@.capacity() == capacity,
            r.0@.head == 0,
            r.0@.tail == 0,
            r.0@.open,
            r.0@.pushed == Seq::<D>::empty(),
            r.0@.popped == Seq::<D>::empty(),
            r.0@.len() == 0,
    {
        let mut elements: Vec<D> = Vec::new();
        let mut i: usize = 0;
        while i < capacity
            invariant
                i <= capacity,
                elements@.len() == i,
            decreases capacity - i,
        {
            elements.push(D::default());
            i = i + 1;
        }
        let q = LamportQueue {
            elements,
            head: 0,
            tail: 0,
            open: true,
            pushed: Ghost(Seq::empty()),
            popped: Ghost(Seq::empty()),
        };
        proof {
            assert(q@.popped =~= q@.pushed.take(0));
        }
        (q, LamportQueueReader { _role: () }, LamportQueueWriter { _role: () })
    }

    /// How many elements are currently held.
    pub fn len(&self) -> (r: usize)
        requires
            self@.inv(),
        ensures
            r == self@.len(),
            r <= self@.capacity(),
    {
        self.tail - self.head
    }

    /// The fixed number of slots.
    pub fn capacity(&self) -> (r: usize)
        ensures
            r == self@.capacity(),
    {
        self.elements.len()
    }

    /// Whether `close` has ever been called.
    pub fn closed(&self) -> (r: bool)
        ensures
            r == !self@.open,
    {
        !self.open
    }

    /// Drops the liveness flag. Purely an advisory signal for the opposite
    /// side's termination check: it does not block later pushes or pops.
    /// Calling it again changes nothing.
    pub fn close(&mut self)
        ensures
            old(self)@.close_step(final(self)@),
            !final(self)@.open,
            old(self)@.inv() ==> final(self)@.inv(),
    {
        self.open = false;
    }
}

impl LamportQueueWriter {
    /// Inserts one value, by move, unless the ring is full.
    ///
    /// Returns `true` and appends the value exactly when the queue held
    /// fewer elements than its capacity; returns `false` and changes
    /// nothing at all otherwise. A `false` is the designed backpressure
    /// signal, not an error: the caller retries later. Closing the queue
    /// does not stop further pushes.
    pub fn push<D: Default + Copy>(&mut self, q: &mut LamportQueue<D>, d: D) -> (r: bool)
        requires
            old(q)@.inv(),
            old(q)@.tail < usize::MAX,
        ensures
            final(q)@.inv(),
            r == (old(q)@.len() < old(q)@.capacity()),
            old(q)@.push_step(final(q)@, d),
            r ==> final(q)@.pending() == old(q)@.pending().push(d),
            !r ==> final(q)@ == old(q)@,
    {
        let tail = q.tail;
        let head = q.head;
        let cap = q.elements.len();

        // Full from the producer's point of view: refuse, touch nothing.
        if tail - head == cap {
            return false;
        }

        let idx = tail % cap;
        q.elements[idx] = d;
        q.pushed = Ghost(q.pushed@.push(d));
        q.tail = tail + 1;

        proof {
            let m0 = old(q)@;
            let m1 = q@;
            assert forall|i: int|
                m1.head <= i < m1.tail implies m1.slots[i % (m1.slots.len() as int)]
                == m1.pushed[i] by {
                if i < m0.tail {
                    if i % (m0.slots.len() as int) == (m0.tail as int) % (m0.slots.len() as int) {
                        lemma_slot_distinct(i, m0.tail as int, m0.slots.len() as int);
                    }
                }
            };
            assert(m1.popped =~= m1.pushed.take(m1.head as int));
            assert(m1.pending() =~= m0.pending().push(d));
        }
        true
    }
}

impl LamportQueueReader {
    /// Removes and returns the oldest pending value, unless the ring is
    /// empty.
    ///
    /// Returns the front of the pending sequence and advances past it
    /// exactly when the queue held at least one element; returns `None`
    /// and changes nothing at all otherwise. A `None` alone does not mean
    /// the queue is finished: the caller tells a lull from the end by also
    /// checking `closed()` and `len()`.
    pub fn pop<D: Default + Copy>(&mut self, q: &mut LamportQueue<D>) -> (r: Option<D>)
        requires
            old(q)@.inv(),
        ensures
            final(q)@.inv(),
            (r is Some) == (old(q)@.len() > 0),
            old(q)@.pop_step(final(q)@),
            old(q)@.len() > 0 ==> r == Some(old(q)@.pending()[0]),
            old(q)@.len() > 0 ==> final(q)@.pending() == old(q)@.pending().skip(1),
            old(q)@.len() == 0 ==> final(q)@ == old(q)@,
    {
        let tail = q.tail;
        let head = q.head;

        // Empty from the consumer's point of view: refuse, touch nothing.
        if tail - head == 0 {
            return None;
        }

        let cap = q.elements.len();
        let idx = head % cap;
        let e = q.elements[idx];
        q.popped = Ghost(q.popped@.push(e));
        q.head = head + 1;

        proof {
            let m0 = old(q)@;
            let m1 = q@;
            assert(m0.slots[(m0.head as int) % (m0.slots.len() as int)]
                == m0.pushed[m0.head as int]);
            assert(m1.popped =~= m1.pushed.take(m1.head as int));
            assert(m1.pending() =~= m0.pending().skip(1));
        }
        Some(e)
    }

    /// Sequential form of the canonical consumer loop: keep popping until
    /// the queue is empty, collecting every pending element, oldest first.
    /// Afterwards everything ever inserted has been removed, in order.
    pub fn drain<D: Default + Copy>(&mut self, q: &mut LamportQueue<D>) -> (r: Vec<D>)
        requires
            old(q)@.inv(),
        ensures
            final(q)@.inv(),
            r@ == old(q)@.pending(),
            final(q)@.len() == 0,
            final(q)@.pushed == old(q)@.pushed,
            final(q)@.popped == final(q)@.pushed,
            final(q)@.open == old(q)@.open,
    {
        let mut out: Vec<D> = Vec::new();
        let ghost m0 = q@;
        while q.len() > 0
            invariant
                q@.inv(),
                q@.pushed == m0.pushed,
                q@.tail == m0.tail,
                q@.slots == m0.slots,
                q@.open == m0.open,
                out@ + q@.pending() == m0.pending(),
            decreases q@.len(),
        {
            let v = self.pop(q).unwrap();
            out.push(v);
            proof {
                assert(out@ + q@.pending() =~= m0.pending());
            }
        }
        proof {
            assert(out@ + q@.pending() =~= out@);
            assert(q@.pushed.take(q@.head as int) =~= q@.pushed);
        }
        out
    }
}

} // verus!
