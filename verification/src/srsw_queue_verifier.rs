//! Support for the harness that checks a producer/consumer run: the
//! element-for-element comparison of the sent and received lists, and a
//! verified sequential transfer that states what a correct run delivers.

use vstd::prelude::*;

use crate::lamport_queue::LamportQueue;

verus! {

/// One full producer/consumer run over a queue of the given capacity,
/// scheduled sequentially. The producer inserts the values in order,
/// retrying a refused push once the consumer has made room, and closes
/// the queue after its last value; the consumer keeps polling and stops
/// only once the queue is closed and empty. The run always terminates and
/// delivers exactly the input, in order — for every capacity of at least
/// one and every input length.
pub fn transfer<D: Default + Copy>(values: &Vec<D>, capacity: usize) -> (r: Vec<D>)
    requires
        capacity >= 1,
    ensures
        r@ == values@,
{
    let (mut q, mut consumer, mut producer) = LamportQueue::<D>::new(capacity);
    let mut out: Vec<D> = Vec::new();
    let mut i: usize = 0;
    while !(q.closed() && q.len() == 0)
        invariant
            q@.inv(),
            i <= values@.len(),
            q@.pushed == values@.take(i as int),
            q@.popped == out@,
            out@.len() <= i,
            !q@.open ==> i == values@.len(),
        decreases 2 * (values@.len() - i) + q@.len() + (if q@.open { 1int } else { 0int }),
    {
        if i < values.len() {
            let accepted = producer.push(&mut q, values[i]);
            if accepted {
                i = i + 1;
                proof {
                    assert(q@.pushed =~= values@.take(i as int));
                }
            } else {
                // The ring is full: let the consumer take one first.
                let v = consumer.pop(&mut q);
                out.push(v.unwrap());
            }
        } else if !q.closed() {
            // Everything is in: signal the consumer that no more will come.
            q.close();
        } else {
            let v = consumer.pop(&mut q);
            out.push(v.unwrap());
        }
    }
    proof {
        assert(q@.pushed.take(q@.head as int) =~= q@.pushed);
        assert(out@ =~= values@);
    }
    out
}

/// The harness's acceptance check: the received list equals the sent list,
/// element for element and in length.
pub fn lists_match(sent: &Vec<usize>, received: &Vec<usize>) -> (r: bool)
    ensures
        r == (sent@ == received@),
{
    if sent.len() != received.len() {
        return false;
    }
    let mut i: usize = 0;
    while i < sent.len()
        invariant
            i <= sent@.len(),
            sent@.len() == received@.len(),
            forall|j: int| 0 <= j < i ==> sent@[j] == received@[j],
        decreases sent@.len() - i,
    {
        if sent[i] != received[i] {
            return false;
        }
        i = i + 1;
    }
    proof {
        assert(sent@ =~= received@);
    }
    true
}

} // verus!
