use queue_bench::queues::{pairwise, QueueHandle, ArrayTokenQueue, BenchQueue, RbbqTokenQueue, SegTokenQueue};
use queue_bench::results::verify_results;
use std::cell::RefCell;
use std::collections::VecDeque;

#[test]
fn results_that_are_a_permutation_pass() {
    assert!(verify_results(vec![2, 1, 3]).is_empty());
    assert!(verify_results(vec![]).is_empty());
    assert!(verify_results(vec![1]).is_empty());
    assert!(verify_results(vec![4, 3, 2, 1]).is_empty());
}

#[test]
fn results_with_a_duplicate_fail() {
    assert_eq!(verify_results(vec![1, 1, 3]), vec![(2, 1)]);
    assert_eq!(verify_results(vec![3, 3, 3]), vec![(1, 3), (2, 3)]);
    assert_eq!(verify_results(vec![0]), vec![(1, 0)]);
}

#[test]
fn seg_queue_hands_back_what_went_in() {
    let q = SegTokenQueue::new();
    assert_eq!(q.try_dequeue(), None);
    q.enqueue(5);
    q.enqueue(6);
    assert_eq!(q.try_dequeue(), Some(5));
    assert_eq!(q.try_dequeue(), Some(6));
    assert_eq!(q.try_dequeue(), None);
}

#[test]
fn array_queue_is_bounded() {
    let q = ArrayTokenQueue::new(2);
    assert_eq!(q.capacity(), 2);
    assert_eq!(q.try_enqueue(7), Ok(()));
    assert_eq!(q.try_enqueue(8), Ok(()));
    assert_eq!(q.try_enqueue(9), Err(9));
    assert_eq!(q.try_dequeue(), Some(7));
    assert_eq!(q.try_enqueue(10), Ok(()));
    assert_eq!(q.try_dequeue(), Some(8));
    assert_eq!(q.try_dequeue(), Some(10));
    assert_eq!(q.try_dequeue(), None);
    assert_eq!(ArrayTokenQueue::new(4096).capacity(), 4096);
}

#[test]
fn rbbq_queue_has_enough_blocks() {
    let q = RbbqTokenQueue::new(4096, 128);
    assert_eq!(q.num_blocks(), 32);
    assert_eq!(q.block_size(), 128);
    assert_eq!(RbbqTokenQueue::new(4097, 128).num_blocks(), 33);
    assert_eq!(q.try_dequeue(), None);
    assert!(q.try_enqueue(11));
    assert_eq!(q.try_dequeue(), Some(11));
}

struct LocalQueue(RefCell<VecDeque<usize>>);

impl BenchQueue for LocalQueue {
    fn new(_nprocs: usize) -> Self {
        LocalQueue(RefCell::new(VecDeque::new()))
    }
    fn enqueue(&self, val: usize) {
        self.0.borrow_mut().push_back(val);
    }
    fn dequeue(&self) -> usize {
        self.0.borrow_mut().pop_front().unwrap()
    }
}

#[test]
fn pairwise_alone_keeps_its_token() {
    let mut q = QueueHandle::new(LocalQueue::new(1));
    assert_eq!(pairwise(&mut q, 0, 0), 1);
    assert_eq!(pairwise(&mut q, 4, 10), 5);
    q.enqueue(42);
    assert_eq!(pairwise(&mut q, 1, 1), 42);
    assert_eq!(q.dequeue(), 2);
}
