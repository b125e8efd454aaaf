//! The sample ring between the two halves of a buffer.
//!
//! Both halves of an [`rtrb`] ring are held side by side, so what the ring holds
//! is a plain sequence of samples: pushed at the back, popped or skipped at the
//! front, never more of them than the ring was made for.
use rtrb::{Consumer, Producer, RingBuffer};
use vstd::prelude::*;

verus! {

/// The writing half of an rtrb ring.
#[verifier::external_type_specification]
#[verifier::external_body]
#[verifier::reject_recursive_types(T)]
pub struct ExProducer<T>(rtrb::Producer<T>);

/// The reading half of an rtrb ring.
#[verifier::external_type_specification]
#[verifier::external_body]
#[verifier::reject_recursive_types(T)]
pub struct ExConsumer<T>(rtrb::Consumer<T>);

/// What waits in the ring between its two halves, oldest first.
pub uninterp spec fn ring_queue(p: Producer<i16>, c: Consumer<i16>) -> Seq<i16>;

/// The capacity of the ring that both halves belong to; `None` for halves of
/// two different rings.
pub uninterp spec fn ring_limit(p: Producer<i16>, c: Consumer<i16>) -> Option<nat>;

/// `n` frames of silence.
pub open spec fn silence(n: nat) -> Seq<i16> {
    Seq::new(n, |i: int| 0i16)
}

/// The smaller of two counts.
pub open spec fn least(a: int, b: int) -> int {
    if a <= b {
        a
    } else {
        b
    }
}

/// `rtrb::RingBuffer::new`: a fresh ring of the given capacity, as its two halves,
/// with nothing in it. It panics beyond `isize::MAX` bytes, which two bytes a
/// sample rule out below.
#[verifier::external_body]
fn ring_new(capacity: usize) -> (r: (Producer<i16>, Consumer<i16>))
    requires
        2 * capacity <= isize::MAX,
    ensures
        ring_limit(r.0, r.1) == Some(capacity as nat),
        ring_queue(r.0, r.1) == Seq::<i16>::empty(),
{
    RingBuffer::new(capacity)
}

/// `rtrb::Producer::slots`: how many more samples fit. The reading half is borrowed
/// along with the writing one, so nothing leaves the ring meanwhile.
#[verifier::external_body]
fn ring_free(p: &Producer<i16>, c: &Consumer<i16>) -> (n: usize)
    requires
        ring_limit(*p, *c) is Some,
    ensures
        n + ring_queue(*p, *c).len() == ring_limit(*p, *c)->0,
{
    p.slots()
}

/// `rtrb::Consumer::slots`: how many samples wait. The writing half is borrowed
/// along with the reading one, so nothing enters the ring meanwhile.
#[verifier::external_body]
fn ring_len(p: &Producer<i16>, c: &Consumer<i16>) -> (n: usize)
    requires
        ring_limit(*p, *c) is Some,
    ensures
        n == ring_queue(*p, *c).len(),
        n <= ring_limit(*p, *c)->0,
{
    c.slots()
}

/// `rtrb::Producer::push_partial_slice`: as many samples off the front of `data` as
/// fit go in at the back; the result says how many.
#[verifier::external_body]
fn ring_push(p: &mut Producer<i16>, c: &Consumer<i16>, data: &[i16]) -> (n: usize)
    requires
        ring_limit(*old(p), *c) is Some,
    ensures
        n == least(
            data@.len() as int,
            ring_limit(*old(p), *c)->0 - ring_queue(*old(p), *c).len(),
        ),
        ring_limit(*final(p), *c) == ring_limit(*old(p), *c),
        ring_queue(*final(p), *c) == ring_queue(*old(p), *c) + data@.take(n as int),
{
    let (pushed, _) = p.push_partial_slice(data);
    pushed.len()
}

/// `rtrb::Producer::write_chunk`, committed whole: `n` default samples, which are
/// zeros, go in at the back if all of them fit, and none otherwise. The result says
/// which.
#[verifier::external_body]
fn ring_push_zeros(p: &mut Producer<i16>, c: &Consumer<i16>, n: usize) -> (ok: bool)
    requires
        ring_limit(*old(p), *c) is Some,
    ensures
        ok == (ring_queue(*old(p), *c).len() + n <= ring_limit(*old(p), *c)->0),
        ring_limit(*final(p), *c) == ring_limit(*old(p), *c),
        ring_queue(*final(p), *c) == if ok {
            ring_queue(*old(p), *c) + silence(n as nat)
        } else {
            ring_queue(*old(p), *c)
        },
{
    match p.write_chunk(n) {
        Ok(chunk) => {
            chunk.commit_all();
            true
        },
        Err(_) => false,
    }
}

/// `rtrb::Consumer::pop_partial_slice`: as many samples as wait and `dst` has room
/// for leave the front of the ring for the front of `dst`, the rest of which stays as
/// it was; the result says how many.
#[verifier::external_body]
fn ring_pop(p: &Producer<i16>, c: &mut Consumer<i16>, dst: &mut [i16]) -> (n: usize)
    requires
        ring_limit(*p, *old(c)) is Some,
    ensures
        n == least(old(dst)@.len() as int, ring_queue(*p, *old(c)).len() as int),
        ring_limit(*p, *final(c)) == ring_limit(*p, *old(c)),
        ring_queue(*p, *final(c)) == ring_queue(*p, *old(c)).skip(n as int),
        final(dst)@ == ring_queue(*p, *old(c)).take(n as int) + old(dst)@.skip(n as int),
{
    let (popped, _) = c.pop_partial_slice(dst);
    popped.len()
}

/// `rtrb::Consumer::read_chunk`, committed whole: `n` samples are dropped off the
/// front if that many wait, and none otherwise. The result says which.
#[verifier::external_body]
fn ring_drop(p: &Producer<i16>, c: &mut Consumer<i16>, n: usize) -> (ok: bool)
    requires
        ring_limit(*p, *old(c)) is Some,
    ensures
        ok == (n <= ring_queue(*p, *old(c)).len()),
        ring_limit(*p, *final(c)) == ring_limit(*p, *old(c)),
        ring_queue(*p, *final(c)) == if ok {
            ring_queue(*p, *old(c)).skip(n as int)
        } else {
            ring_queue(*p, *old(c))
        },
{
    match c.read_chunk(n) {
        Ok(chunk) => {
            chunk.commit_all();
            true
        },
        Err(_) => false,
    }
}

/// Both halves of one ring of samples.
pub struct SampleRing {
    producer: Producer<i16>,
    consumer: Consumer<i16>,
}

impl View for SampleRing {
    type V = Seq<i16>;

    /// What waits in the ring, oldest first.
    closed spec fn view(&self) -> Seq<i16> {
        ring_queue(self.producer, self.consumer)
    }
}

impl SampleRing {
    /// How many samples the ring was made for.
    pub closed spec fn limit(&self) -> nat {
        ring_limit(self.producer, self.consumer)->0
    }

    /// The two halves belong together, and no more waits than fits.
    pub closed spec fn wf(&self) -> bool {
        &&& ring_limit(self.producer, self.consumer) is Some
        &&& self@.len() <= self.limit()
    }

    /// An empty ring for `capacity` samples.
    pub fn new(capacity: usize) -> (r: SampleRing)
        requires
            2 * capacity <= isize::MAX,
        ensures
            r.wf(),
            r.limit() == capacity,
            r@ == Seq::<i16>::empty(),
    {
        let (producer, consumer) = ring_new(capacity);
        SampleRing { producer, consumer }
    }

    /// How many more samples fit.
    pub fn free(&self) -> (n: usize)
        requires
            self.wf(),
        ensures
            n == self.limit() - self@.len(),
    {
        ring_free(&self.producer, &self.consumer)
    }

    /// How many samples wait.
    pub fn len(&self) -> (n: usize)
        requires
            self.wf(),
        ensures
            n == self@.len(),
            n <= self.limit(),
    {
        ring_len(&self.producer, &self.consumer)
    }

    /// Pushes as much of `data` as fits and says how much that was.
    pub fn push(&mut self, data: &[i16]) -> (n: usize)
        requires
            old(self).wf(),
        ensures
            final(self).wf(),
            final(self).limit() == old(self).limit(),
            n == least(data@.len() as int, old(self).limit() - old(self)@.len()),
            final(self)@ == old(self)@ + data@.take(n as int),
    {
        ring_push(&mut self.producer, &self.consumer, data)
    }

    /// Pushes as much of `frames` frames of silence as fits and says how much that was.
    pub fn push_silence(&mut self, frames: usize) -> (n: usize)
        requires
            old(self).wf(),
        ensures
            final(self).wf(),
            final(self).limit() == old(self).limit(),
            n == least(frames as int, old(self).limit() - old(self)@.len()),
            final(self)@ == old(self)@ + silence(n as nat),
    {
        let free: usize = self.free();
        let n: usize = if frames < free {
            frames
        } else {
            free
        };
        if ring_push_zeros(&mut self.producer, &self.consumer, n) {
            n
        } else {
            0
        }
    }

    /// Fills the front of `dst` with what waits and says how much that was.
    pub fn pop(&mut self, dst: &mut [i16]) -> (n: usize)
        requires
            old(self).wf(),
        ensures
            final(self).wf(),
            final(self).limit() == old(self).limit(),
            n == least(old(dst)@.len() as int, old(self)@.len() as int),
            final(self)@ == old(self)@.skip(n as int),
            final(dst)@ == old(self)@.take(n as int) + old(dst)@.skip(n as int),
    {
        ring_pop(&self.producer, &mut self.consumer, dst)
    }

    /// Drops up to `frames` of the oldest samples and says how many that was.
    pub fn skip(&mut self, frames: usize) -> (n: usize)
        requires
            old(self).wf(),
        ensures
            final(self).wf(),
            final(self).limit() == old(self).limit(),
            n == least(frames as int, old(self)@.len() as int),
            final(self)@ == old(self)@.skip(n as int),
    {
        let len: usize = self.len();
        let n: usize = if frames < len {
            frames
        } else {
            len
        };
        if ring_drop(&self.producer, &mut self.consumer, n) {
            n
        } else {
            0
        }
    }
}

/// Silence is as many zeros as were asked for, and of two counts the smaller one is one of
/// them and no larger than either.
pub proof fn law_silence_is_zeros(n: nat, a: int, b: int)
    ensures
        silence(n).len() == n,
        forall|i: int| 0 <= i < n ==> #[trigger] silence(n)[i] == 0,
        least(a, b) <= a && least(a, b) <= b,
        least(a, b) == a || least(a, b) == b,
{
}

} // verus!
