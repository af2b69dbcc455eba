use std::sync::Mutex;
use stitches::fast_deque::FastDeque;
use stitches::tree_search::{expand, prepare, seeded, Pending, TreeSpace, Withdrawal, SLICE};

struct Binary {
    depth: u32,
    visited: Mutex<Vec<u32>>,
}

impl Binary {
    fn new(depth: u32) -> Self {
        Binary { depth, visited: Mutex::new(Vec::new()) }
    }

    fn level(node: u32) -> u32 {
        31 - node.leading_zeros()
    }
}

impl TreeSpace for Binary {
    type Candidate = u32;

    fn roots(&self) -> Vec<u32> {
        self.initial()
    }

    fn initial(&self) -> Vec<u32> {
        vec![1]
    }

    fn successors(&self, candidate: u32) -> Vec<u32> {
        self.following(candidate)
    }

    fn following(&self, candidate: u32) -> Vec<u32> {
        if Binary::level(candidate) < self.depth {
            vec![2 * candidate, 2 * candidate + 1]
        } else {
            Vec::new()
        }
    }

    fn each(&self, candidate: &u32) {
        self.visited.lock().unwrap().push(*candidate);
    }
}

#[test]
fn slice_is_1024() {
    assert_eq!(SLICE, 1024);
}

#[test]
fn expand_visits_all_and_returns_their_successors_in_order() {
    let tree = Binary::new(5);
    let next = expand(&tree, vec![vec![4, 5], vec![], vec![6]]);
    assert_eq!(next, vec![8, 9, 10, 11, 12, 13]);
    assert_eq!(*tree.visited.lock().unwrap(), vec![4, 5, 6]);
    let leaves = expand(&tree, vec![vec![32, 33]]);
    assert!(leaves.is_empty());
}

#[test]
fn seeded_queue_holds_the_roots() {
    let tree = Binary::new(3);
    let queue = seeded(&tree, 4);
    assert_eq!(queue.outer_len(), 2);
    assert_eq!(queue.len(), 1);
    assert_eq!(queue.get(0), Some(&1));
    let queue = seeded(&tree, 0);
    assert_eq!(queue.outer_len(), 1);
    assert_eq!(queue.peek_head(), Some(&1));
}

#[test]
fn prepared_queue_suggests_a_chunk_per_thread() {
    let tree = Binary::new(3);
    let (threads, pending) = prepare(&tree);
    assert_eq!(threads, rayon::current_num_threads());
    assert_eq!(pending.busy_workers(), 0);
    assert_eq!(pending.pending().len(), 1);
    assert_eq!(pending.pending().outer_len(), if threads > 0 { 2 } else { 1 });
}

fn search(depth: u32, suggested: usize, amount: usize) -> Vec<u32> {
    let tree = Binary::new(depth);
    let queue: FastDeque<u32> = seeded(&tree, suggested);
    let mut pending = Pending::new(queue);
    let mut rounds = 0;
    loop {
        match pending.withdraw(amount) {
            Withdrawal::Finished => break,
            Withdrawal::Idle => assert!(!pending.pending().is_empty()),
            Withdrawal::Work(work) => {
                let items: usize = work.iter().map(|chunk| chunk.len()).sum();
                assert!(0 < items && items <= amount);
                assert_eq!(pending.busy_workers(), 1);
                pending.deposit(expand(&tree, work));
                assert_eq!(pending.busy_workers(), 0);
            }
        }
        rounds += 1;
        assert!(rounds < 1_000_000);
    }
    assert!(pending.pending().is_empty());
    let mut visited = tree.visited.lock().unwrap().clone();
    visited.sort();
    visited
}

#[test]
fn one_worker_visits_every_node_once() {
    for (suggested, amount) in [(0, 1), (1, 3), (1, 1024), (4, 16), (8, 1024)] {
        let visited = search(6, suggested, amount);
        let all: Vec<u32> = (1..128).collect();
        assert_eq!(visited, all);
    }
}

#[test]
fn search_is_not_over_while_a_worker_is_busy() {
    let tree = Binary::new(2);
    let mut pending = Pending::new(seeded(&tree, 0));
    let first = match pending.withdraw(8) {
        Withdrawal::Work(work) => work,
        _ => panic!("the root is there to withdraw"),
    };
    assert_eq!(first, vec![vec![1]]);
    assert!(matches!(pending.withdraw(8), Withdrawal::Idle));
    pending.deposit(expand(&tree, first));
    let second = match pending.withdraw(8) {
        Withdrawal::Work(work) => work,
        _ => panic!("the successors of the root are there to withdraw"),
    };
    assert_eq!(second, vec![vec![2, 3]]);
    pending.deposit(Vec::new());
    assert!(matches!(pending.withdraw(8), Withdrawal::Finished));
    assert!(matches!(pending.withdraw(0), Withdrawal::Finished));
}

#[test]
fn withdrawing_nothing_from_pending_work_is_idle() {
    let tree = Binary::new(2);
    let mut pending = Pending::new(seeded(&tree, 0));
    assert!(matches!(pending.withdraw(0), Withdrawal::Idle));
    assert_eq!(pending.busy_workers(), 0);
    assert_eq!(pending.pending().len(), 1);
}
