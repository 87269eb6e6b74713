//! The queues that the benchmark measures, and the pairwise workload that each
//! thread runs against them.
//!
//! The queues are shared by all threads of a run, and every operation takes
//! them by shared reference: what a `pop` returns depends on what the other
//! threads did meanwhile, so no contract here speaks of a queue's contents.
use vstd::prelude::*;
use crossbeam_queue::{ArrayQueue, SegQueue};
use rbbq::FastFifo;
use crate::settings::{rbbq_num_blocks, rbbq_num_blocks_spec};

verus! {

#[verifier::external_type_specification]
#[verifier::external_body]
#[verifier::reject_recursive_types(T)]
pub struct ExSegQueue<T>(crossbeam_queue::SegQueue<T>);

#[verifier::external_type_specification]
#[verifier::external_body]
#[verifier::reject_recursive_types(T)]
pub struct ExArrayQueue<T>(crossbeam_queue::ArrayQueue<T>);

#[verifier::external_type_specification]
#[verifier::external_body]
#[verifier::reject_recursive_types(T)]
pub struct ExFastFifo<T>(rbbq::FastFifo<T>);

/// `crossbeam_queue::SegQueue::new`: an empty unbounded queue; it never panics.
/// Nothing about the result is stated.
#[verifier::external_body]
fn seg_queue_new() -> (queue: SegQueue<usize>) {
    SegQueue::new()
}

/// `crossbeam_queue::SegQueue::push`: appends `value`; the queue is unbounded,
/// so the call always succeeds. What it does to the contents is not stated,
/// since other threads share the queue.
pub assume_specification<T>[ crossbeam_queue::SegQueue::<T>::push ](queue: &crossbeam_queue::SegQueue<T>, value: T);

/// `crossbeam_queue::SegQueue::pop`: takes the oldest element, `None` when the
/// queue is empty at that moment. Which element comes out depends on the other
/// threads and is not stated.
pub assume_specification<T>[ crossbeam_queue::SegQueue::<T>::pop ](queue: &crossbeam_queue::SegQueue<T>) -> Option<T>;

/// `crossbeam_queue::ArrayQueue::push`: appends `value` unless the queue is
/// full, in which case the very same `value` is handed back as the error.
pub assume_specification<T>[ crossbeam_queue::ArrayQueue::<T>::push ](queue: &crossbeam_queue::ArrayQueue<T>, value: T) -> (r:
    Result<(), T>)
    ensures
        r matches Err(v) ==> v == value,
;

/// `crossbeam_queue::ArrayQueue::pop`: takes the oldest element, `None` when
/// the queue is empty at that moment; which element depends on other threads.
pub assume_specification<T>[ crossbeam_queue::ArrayQueue::<T>::pop ](queue: &crossbeam_queue::ArrayQueue<T>) -> Option<T>;

/// The capacity that a crossbeam `ArrayQueue` of tokens was made with.
pub uninterp spec fn array_queue_capacity(queue: ArrayQueue<usize>) -> usize;

/// `crossbeam_queue::ArrayQueue::new`: a bounded queue that holds `capacity`
/// tokens. It panics on a capacity of zero, and when the buffer of
/// `capacity` slots (a stamp and a token, 16 bytes each) would exceed
/// `isize::MAX` bytes; `requires` leaves both out.
#[verifier::external_body]
fn array_queue_new(capacity: usize) -> (queue: ArrayQueue<usize>)
    requires
        0 < capacity <= isize::MAX as int / 16,
    ensures
        array_queue_capacity(queue) == capacity,
{
    ArrayQueue::new(capacity)
}

/// `crossbeam_queue::ArrayQueue::capacity`: the capacity the queue was made with.
#[verifier::external_body]
fn array_queue_capacity_of(queue: &ArrayQueue<usize>) -> (r: usize)
    ensures
        r == array_queue_capacity(*queue),
{
    queue.capacity()
}

/// The number of blocks that an RBBQ `FastFifo` of tokens was made with.
pub uninterp spec fn fast_fifo_num_blocks(fifo: FastFifo<usize>) -> usize;

/// The number of tokens in one block of an RBBQ `FastFifo` of tokens, as it
/// was made.
pub uninterp spec fn fast_fifo_block_size(fifo: FastFifo<usize>) -> usize;

/// `rbbq::FastFifo::new`: a bounded queue of `num_blocks` blocks of
/// `block_size` tokens. It asserts that there is more than one block, and
/// its allocations panic when the blocks (640 bytes each: four counters on
/// 128-byte lines, the size and the entries) or the entries of one block
/// (8 bytes each) would exceed `isize::MAX` bytes; `requires` leaves these out.
/// The queue keeps the number of blocks and the block size it was made with
/// for its whole life.
#[verifier::external_body]
fn fast_fifo_new(num_blocks: usize, block_size: usize) -> (fifo: FastFifo<usize>)
    requires
        1 < num_blocks <= isize::MAX as int / 640,
        block_size <= isize::MAX as int / 8,
    ensures
        fast_fifo_num_blocks(fifo) == num_blocks,
        fast_fifo_block_size(fifo) == block_size,
{
    FastFifo::new(num_blocks, block_size)
}

/// `rbbq::FastFifo::push`: whether `value` went in; it fails when the queue is
/// full or busy. The error's type lies in a private module of rbbq, so only
/// whether the call succeeded is handed on.
#[verifier::external_body]
fn fast_fifo_push(fifo: &FastFifo<usize>, value: usize) -> (r: bool) {
    fifo.push(value).is_ok()
}

/// `rbbq::FastFifo::pop`: the token taken, `None` when the queue is empty or
/// busy at that moment; which token depends on other threads. The error's type
/// lies in a private module of rbbq, so it is not handed on.
#[verifier::external_body]
fn fast_fifo_pop(fifo: &FastFifo<usize>) -> (r: Option<usize>) {
    fifo.pop().ok()
}

/// Crossbeam's unbounded segmented queue of tokens.
pub struct SegTokenQueue {
    queue: SegQueue<usize>,
}

impl SegTokenQueue {
    /// An empty queue.
    pub fn new() -> (r: SegTokenQueue) {
        SegTokenQueue { queue: seg_queue_new() }
    }

    /// Appends `val`; the queue is unbounded, so this never waits.
    pub fn enqueue(&self, val: usize) {
        self.queue.push(val)
    }

    /// The oldest token, or `None` when the queue is empty at that moment.
    pub fn try_dequeue(&self) -> (r: Option<usize>) {
        self.queue.pop()
    }
}

/// Crossbeam's bounded array queue of tokens.
pub struct ArrayTokenQueue {
    queue: ArrayQueue<usize>,
}

impl ArrayTokenQueue {
    /// The number of tokens the queue holds at most.
    pub closed spec fn spec_capacity(&self) -> usize {
        array_queue_capacity(self.queue)
    }

    /// An empty queue that holds at most `capacity` tokens.
    pub fn new(capacity: usize) -> (r: ArrayTokenQueue)
        requires
            0 < capacity <= isize::MAX as int / 16,
        ensures
            r.spec_capacity() == capacity,
    {
        ArrayTokenQueue { queue: array_queue_new(capacity) }
    }

    /// The number of tokens the queue holds at most.
    pub fn capacity(&self) -> (r: usize)
        ensures
            r == self.spec_capacity(),
    {
        array_queue_capacity_of(&self.queue)
    }

    /// Appends `val` unless the queue is full, in which case `val` comes back.
    pub fn try_enqueue(&self, val: usize) -> (r: Result<(), usize>)
        ensures
            r matches Err(v) ==> v == val,
    {
        self.queue.push(val)
    }

    /// The oldest token, or `None` when the queue is empty at that moment.
    pub fn try_dequeue(&self) -> (r: Option<usize>) {
        self.queue.pop()
    }
}

/// RBBQ's bounded queue of tokens, made of blocks.
pub struct RbbqTokenQueue {
    fifo: FastFifo<usize>,
    num_blocks: usize,
    block_size: usize,
}

impl RbbqTokenQueue {
    /// The kept sizes are those the queue was made with.
    #[verifier::type_invariant]
    closed spec fn sizes_agree(self) -> bool {
        &&& self.num_blocks == fast_fifo_num_blocks(self.fifo)
        &&& self.block_size == fast_fifo_block_size(self.fifo)
    }

    /// The number of blocks of the queue.
    pub closed spec fn spec_num_blocks(&self) -> usize {
        fast_fifo_num_blocks(self.fifo)
    }

    /// The number of tokens in one block.
    pub closed spec fn spec_block_size(&self) -> usize {
        fast_fifo_block_size(self.fifo)
    }

    /// An empty queue of blocks of `block_size` tokens that holds at least
    /// `capacity` tokens: the capacity divided by the block size, rounded up,
    /// gives the number of blocks. RBBQ needs more than one block, hence
    /// `capacity > block_size`.
    pub fn new(capacity: usize, block_size: usize) -> (r: RbbqTokenQueue)
        requires
            0 < block_size < capacity,
            rbbq_num_blocks_spec(capacity as int, block_size as int) <= isize::MAX as int / 640,
            block_size <= isize::MAX as int / 8,
        ensures
            r.spec_num_blocks() == rbbq_num_blocks_spec(capacity as int, block_size as int),
            r.spec_block_size() == block_size,
            r.spec_num_blocks() * block_size >= capacity,
    {
        let num_blocks = rbbq_num_blocks(capacity, block_size);
        RbbqTokenQueue { fifo: fast_fifo_new(num_blocks, block_size), num_blocks, block_size }
    }

    /// The number of blocks of the queue.
    pub fn num_blocks(&self) -> (r: usize)
        ensures
            r == self.spec_num_blocks(),
    {
        proof {
            use_type_invariant(self);
        }
        self.num_blocks
    }

    /// The number of tokens in one block.
    pub fn block_size(&self) -> (r: usize)
        ensures
            r == self.spec_block_size(),
    {
        proof {
            use_type_invariant(self);
        }
        self.block_size
    }

    /// Whether `val` went in; it does not when the queue is full or busy.
    pub fn try_enqueue(&self, val: usize) -> (r: bool) {
        fast_fifo_push(&self.fifo, val)
    }

    /// The oldest token, or `None` when the queue is empty or busy at that moment.
    pub fn try_dequeue(&self) -> (r: Option<usize>) {
        fast_fifo_pop(&self.fifo)
    }
}

/// One operation made through a handle of a benchmark queue.
#[derive(Clone, Copy, Debug, PartialEq, Eq, Structural)]
pub enum QueueOp {
    /// The token put into the queue.
    Enqueue(usize),
    /// The token taken out of the queue.
    Dequeue(usize),
}

/// A queue as the benchmark uses it: `enqueue` and `dequeue` wait until the
/// operation succeeds, however long the other threads make them wait.
pub trait BenchQueue: Sized {
    /// A queue for a run of `nprocs` threads.
    fn new(nprocs: usize) -> Self;

    /// Appends `val`, waiting while the queue is full.
    fn enqueue(&self, val: usize);

    /// Takes a token, waiting while the queue is empty.
    fn dequeue(&self) -> usize;
}

/// A thread's own handle to a shared benchmark queue, which keeps the log of
/// the operations made through it.
pub struct QueueHandle<Q> {
    queue: Q,
    log: Ghost<Seq<QueueOp>>,
}

impl<Q: BenchQueue> QueueHandle<Q> {
    /// The operations made through this handle, oldest first.
    pub closed spec fn history(&self) -> Seq<QueueOp> {
        self.log@
    }

    /// A handle to `queue` through which nothing has been done yet.
    pub fn new(queue: Q) -> (r: QueueHandle<Q>)
        ensures
            r.history() == Seq::<QueueOp>::empty(),
    {
        QueueHandle { queue, log: Ghost(Seq::empty()) }
    }

    /// Appends `val` to the queue, waiting while it is full.
    pub fn enqueue(&mut self, val: usize)
        ensures
            final(self).history() == old(self).history().push(QueueOp::Enqueue(val)),
    {
        self.queue.enqueue(val);
        self.log = Ghost(self.log@.push(QueueOp::Enqueue(val)));
    }

    /// Takes a token out of the queue, waiting while it is empty.
    pub fn dequeue(&mut self) -> (r: usize)
        ensures
            final(self).history() == old(self).history().push(QueueOp::Dequeue(r)),
    {
        let r = self.queue.dequeue();
        self.log = Ghost(self.log@.push(QueueOp::Dequeue(r)));
        r
    }
}

/// The token a thread holds after taking out `tokens`, having started with `start`.
pub open spec fn held_token(start: usize, tokens: Seq<usize>) -> usize {
    if tokens.len() == 0 {
        start
    } else {
        tokens.last()
    }
}

/// The operations of the rounds of a thread that starts with the token `start`
/// and takes out `tokens` in turn: each round puts in the token held, then
/// takes out the next one.
pub open spec fn rounds(start: usize, tokens: Seq<usize>) -> Seq<QueueOp>
    decreases tokens.len(),
{
    if tokens.len() == 0 {
        Seq::empty()
    } else {
        rounds(start, tokens.drop_last()).push(
            QueueOp::Enqueue(held_token(start, tokens.drop_last())),
        ).push(QueueOp::Dequeue(tokens.last()))
    }
}

/// The workload of thread `id`: it starts with the token `id + 1` and, `per_thread`
/// times, puts the token it holds into the queue and takes one out; it ends with
/// the last token taken, or its own when it did nothing. Which tokens come out
/// of the shared queue depends on the other threads.
pub fn pairwise<Q: BenchQueue>(queue: &mut QueueHandle<Q>, id: usize, per_thread: u64) -> (r: usize)
    requires
        id < usize::MAX,
    ensures
        per_thread == 0 ==> r == id + 1,
        exists|tokens: Seq<usize>|
            {
                &&& tokens.len() == per_thread
                &&& final(queue).history() == old(queue).history() + rounds(
                    (id + 1) as usize,
                    tokens,
                )
                &&& r == held_token((id + 1) as usize, tokens)
            },
{
    let ghost h0 = queue.history();
    let ghost mut tokens: Seq<usize> = Seq::empty();
    let mut val = id + 1;
    let mut done: u64 = 0;
    assert(h0 + rounds(val, tokens) =~= h0);
    while done < per_thread
        invariant
            done <= per_thread,
            tokens.len() == done,
            val == held_token((id + 1) as usize, tokens),
            queue.history() == h0 + rounds((id + 1) as usize, tokens),
        decreases per_thread - done,
    {
        queue.enqueue(val);
        let next = queue.dequeue();
        proof {
            let old_tokens = tokens;
            tokens = tokens.push(next);
            assert(tokens.drop_last() =~= old_tokens);
            assert(queue.history() =~= h0 + rounds((id + 1) as usize, tokens));
        }
        val = next;
        done = done + 1;
    }
    val
}

} // verus!
