//! The bulk work queue: a queue of chunks of items, so that large slices of
//! pending work move in and out at a cost that depends on the number of chunks
//! and not on the number of items.

use std::collections::VecDeque;
use vstd::prelude::*;
use vstd::seq_lib::{lemma_flatten_concat, lemma_multiset_commutative};

verus! {

/// The chunks that a vector of vectors holds, as sequences.
pub open spec fn chunks_of<T>(vecs: Seq<Vec<T>>) -> Seq<Seq<T>> {
    vecs.map_values(|v: Vec<T>| v@)
}

/// The chunks after `items` were deposited: while there are fewer chunks than
/// suggested, the second half of the items goes in as one chunk and the first
/// half as another behind it; else all items go in as one chunk at the back.
pub open spec fn given<T>(chunks: Seq<Seq<T>>, suggested: nat, items: Seq<T>) -> Seq<Seq<T>> {
    let half = items.len() / 2;
    if chunks.len() < suggested {
        chunks.push(items.skip(half as int)).push(items.take(half as int))
    } else {
        chunks.push(items)
    }
}

/// The chunks that a withdrawal of `amount` items hands out. Chunks leave from
/// the front, whole; a chunk larger than what is still wanted gives its first
/// items only. The withdrawal ends when the amount is reached, or when a chunk
/// has left and fewer chunks than suggested remain.
pub open spec fn taken<T>(chunks: Seq<Seq<T>>, suggested: nat, amount: nat) -> Seq<Seq<T>>
    decreases chunks.len(),
{
    if amount == 0 || chunks.len() == 0 {
        Seq::empty()
    } else if amount < chunks[0].len() {
        seq![chunks[0].take(amount as int)]
    } else if chunks.len() - 1 < suggested {
        seq![chunks[0]]
    } else {
        seq![chunks[0]] + taken(
            chunks.skip(1),
            suggested,
            (amount - chunks[0].len()) as nat,
        )
    }
}

/// The chunks that a withdrawal of `amount` items leaves in the queue. The
/// rest of a chunk that gave only its first items stays at the front.
pub open spec fn left<T>(chunks: Seq<Seq<T>>, suggested: nat, amount: nat) -> Seq<Seq<T>>
    decreases chunks.len(),
{
    if amount == 0 || chunks.len() == 0 {
        chunks
    } else if amount < chunks[0].len() {
        seq![chunks[0].skip(amount as int)] + chunks.skip(1)
    } else if chunks.len() - 1 < suggested {
        chunks.skip(1)
    } else {
        left(chunks.skip(1), suggested, (amount - chunks[0].len()) as nat)
    }
}

/// A withdrawal hands out at most the amount asked for, and what it hands out,
/// followed by what it leaves, is what the queue held, in the same order.
pub proof fn lemma_withdrawal_keeps_items<T>(chunks: Seq<Seq<T>>, suggested: nat, amount: nat)
    ensures
        taken(chunks, suggested, amount).flatten().len() <= amount,
        taken(chunks, suggested, amount).flatten() + left(chunks, suggested, amount).flatten()
            == chunks.flatten(),
    decreases chunks.len(),
{
    if amount > 0 && chunks.len() > 0 {
        let tail = chunks.skip(1);
        assert(chunks =~= seq![chunks[0]] + tail);
        lemma_flatten_concat(seq![chunks[0]], tail);
        if amount < chunks[0].len() {
            let head = chunks[0].take(amount as int);
            let back = chunks[0].skip(amount as int);
            seq![head].lemma_flatten_one_element();
            seq![back].lemma_flatten_one_element();
            lemma_flatten_concat(seq![back], tail);
        } else if chunks.len() - 1 >= suggested {
            let more = (amount - chunks[0].len()) as nat;
            lemma_withdrawal_keeps_items(tail, suggested, more);
            lemma_flatten_concat(seq![chunks[0]], taken(tail, suggested, more));
        }
    }
}

/// A deposit adds the deposited items to the queue's items, and nothing else.
pub proof fn lemma_deposit_adds_items<T>(chunks: Seq<Seq<T>>, suggested: nat, items: Seq<T>)
    ensures
        given(chunks, suggested, items).flatten().to_multiset() == chunks.flatten().to_multiset().add(
            items.to_multiset(),
        ),
        given(chunks, suggested, items).flatten().len() == chunks.flatten().len() + items.len(),
{
    let half = (items.len() / 2) as int;
    let front = items.take(half);
    let back = items.skip(half);
    chunks.lemma_flatten_push(items);
    chunks.lemma_flatten_push(back);
    chunks.push(back).lemma_flatten_push(front);
    assert(front + back =~= items);
    lemma_multiset_commutative(front, back);
    lemma_multiset_commutative(chunks.flatten(), items);
    lemma_multiset_commutative(chunks.flatten(), back);
    lemma_multiset_commutative(chunks.flatten() + back, front);
}

/// Where at most one chunk is suggested, a withdrawal of as many items as the
/// queue holds hands out all of them, in order, and leaves no item behind.
pub proof fn lemma_withdraw_everything<T>(chunks: Seq<Seq<T>>, suggested: nat, amount: nat)
    requires
        suggested <= 1,
        amount >= chunks.flatten().len(),
    ensures
        taken(chunks, suggested, amount).flatten() == chunks.flatten(),
        left(chunks, suggested, amount).flatten().len() == 0,
    decreases chunks.len(),
{
    lemma_withdrawal_keeps_items(chunks, suggested, amount);
    if amount > 0 && chunks.len() > 0 {
        let tail = chunks.skip(1);
        assert(chunks =~= seq![chunks[0]] + tail);
        lemma_flatten_concat(seq![chunks[0]], tail);
        seq![chunks[0]].lemma_flatten_one_element();
        if chunks.len() - 1 >= suggested {
            lemma_withdraw_everything(tail, suggested, (amount - chunks[0].len()) as nat);
        } else {
            assert(tail =~= Seq::<Seq<T>>::empty());
        }
    }
}

/// Whoever deposits items into an empty queue and then withdraws as many as
/// were deposited gets the deposited items back, each as often as it was
/// deposited, where the suggested number of chunks is at most 1 or at most one
/// item was deposited. (With more suggested chunks the withdrawal stops after
/// the first chunk, to leave the other to another worker.)
pub proof fn lemma_deposit_then_withdraw<T>(suggested: nat, items: Seq<T>)
    requires
        suggested <= 1 || items.len() <= 1,
    ensures
        taken(given(Seq::<Seq<T>>::empty(), suggested, items), suggested, items.len()).flatten().to_multiset()
            == items.to_multiset(),
{
    let chunks = given(Seq::<Seq<T>>::empty(), suggested, items);
    let out = taken(chunks, suggested, items.len());
    let half = (items.len() / 2) as int;
    let front = items.take(half);
    let back = items.skip(half);
    if items.len() == 0 {
        assert(out.flatten() =~= items);
    } else if suggested == 0 {
        // One chunk went in, and it comes out whole.
        assert(taken(chunks.skip(1), suggested, 0) =~= Seq::<Seq<T>>::empty());
        out.lemma_flatten_one_element();
    } else if items.len() == 1 {
        // The one item went in with the first chunk, which comes out whole.
        assert(chunks.skip(1) =~= seq![front]);
        assert(back =~= items);
        assert(taken(seq![front], suggested, 0) =~= Seq::<Seq<T>>::empty());
        out.lemma_flatten_one_element();
    } else {
        // Both halves come out, the second half first.
        assert(chunks.skip(1) =~= seq![front]);
        assert(taken(seq![front], suggested, front.len()) =~= seq![front]);
        lemma_flatten_concat(seq![back], seq![front]);
        seq![back].lemma_flatten_one_element();
        seq![front].lemma_flatten_one_element();
        lemma_multiset_commutative(back, front);
        lemma_multiset_commutative(front, back);
        assert(front + back =~= items);
    }
}

/// The chunks after a series of deposits, made in order.
pub open spec fn given_each<T>(chunks: Seq<Seq<T>>, suggested: nat, deposits: Seq<Seq<T>>) -> Seq<
    Seq<T>,
>
    decreases deposits.len(),
{
    if deposits.len() == 0 {
        chunks
    } else {
        given(given_each(chunks, suggested, deposits.drop_last()), suggested, deposits.last())
    }
}

/// A series of deposits adds the items of all of them to the queue's items,
/// and nothing else.
pub proof fn lemma_deposits_add_items<T>(
    chunks: Seq<Seq<T>>,
    suggested: nat,
    deposits: Seq<Seq<T>>,
)
    ensures
        given_each(chunks, suggested, deposits).flatten().to_multiset()
            == chunks.flatten().to_multiset().add(deposits.flatten().to_multiset()),
    decreases deposits.len(),
{
    if deposits.len() == 0 {
        lemma_multiset_commutative(chunks.flatten(), deposits.flatten());
    } else {
        let before = deposits.drop_last();
        let mid = given_each(chunks, suggested, before);
        lemma_deposits_add_items(chunks, suggested, before);
        lemma_deposit_adds_items(mid, suggested, deposits.last());
        assert(deposits =~= before.push(deposits.last()));
        before.lemma_flatten_push(deposits.last());
        lemma_multiset_commutative(before.flatten(), deposits.last());
    }
}

/// The items of the first `i + 1` chunks are those of the first `i` chunks
/// followed by those of chunk `i`, and the items of all chunks begin with them.
proof fn lemma_prefix_items<T>(chunks: Seq<Seq<T>>, i: int)
    requires
        0 <= i < chunks.len(),
    ensures
        chunks.take(i + 1).flatten() == chunks.take(i).flatten() + chunks[i],
        chunks.flatten() == chunks.take(i + 1).flatten() + chunks.skip(i + 1).flatten(),
{
    assert(chunks.take(i + 1) =~= chunks.take(i).push(chunks[i]));
    chunks.take(i).lemma_flatten_push(chunks[i]);
    assert(chunks =~= chunks.take(i + 1) + chunks.skip(i + 1));
    lemma_flatten_concat(chunks.take(i + 1), chunks.skip(i + 1));
}

/// A queue that holds any item holds a chunk.
pub proof fn lemma_items_have_chunk<T>(chunks: Seq<Seq<T>>)
    requires
        chunks.flatten().len() > 0,
    ensures
        chunks.len() > 0,
{
}

/// A queue of chunks of items. Deposits go in at the back, withdrawals come
/// out at the front.
pub struct FastDeque<T> {
    collection: VecDeque<Vec<T>>,
    suggested_outer_len: usize,
}

impl<T> View for FastDeque<T> {
    type V = Seq<Seq<T>>;

    /// The chunks, from the front of the queue to its back.
    closed spec fn view(&self) -> Seq<Seq<T>> {
        chunks_of(self.collection@)
    }
}

impl<T> FastDeque<T> {
    /// The number of chunks that the queue tries to keep available.
    pub closed spec fn suggested(&self) -> usize {
        self.suggested_outer_len
    }

    /// All queued items, chunk after chunk from the front.
    pub open spec fn items(&self) -> Seq<T> {
        self@.flatten()
    }

    /// An empty queue.
    pub fn new(suggested_outer_len: usize) -> (r: FastDeque<T>)
        ensures
            r@ == Seq::<Seq<T>>::empty(),
            r.suggested() == suggested_outer_len,
    {
        let r = FastDeque { collection: VecDeque::new(), suggested_outer_len };
        r
    }

    /// Withdraws up to `amount` items, as whole chunks from the front and
    /// possibly the first part of one more.
    pub fn split_off(&mut self, amount: usize) -> (result: Vec<Vec<T>>)
        ensures
            final(self).suggested() == old(self).suggested(),
            chunks_of(result@) == taken(old(self)@, old(self).suggested() as nat, amount as nat),
            final(self)@ == left(old(self)@, old(self).suggested() as nat, amount as nat),
            chunks_of(result@).flatten().len() <= amount,
            chunks_of(result@).flatten() + final(self).items() == old(self).items(),
    {
        let ghost before = self@;
        let ghost s = self.suggested() as nat;
        let mut remaining: usize = amount;
        let mut result: Vec<Vec<T>> = Vec::new();
        let mut open = true;
        while open && remaining > 0
            invariant
                self.suggested() == s,
                open ==> taken(before, s, amount as nat) == chunks_of(result@) + taken(
                    self@,
                    s,
                    remaining as nat,
                ),
                open ==> left(before, s, amount as nat) == left(self@, s, remaining as nat),
                !open ==> taken(before, s, amount as nat) == chunks_of(result@),
                !open ==> left(before, s, amount as nat) == self@,
            decreases self@.len() + (if open { 1nat } else { 0nat }),
        {
            let ghost now = self@;
            match self.collection.pop_front() {
                None => {
                    open = false;
                },
                Some(mut front) => {
                    assert(chunks_of(self.collection@) =~= now.skip(1));
                    if remaining < front.len() {
                        let end = front.split_off(remaining);
                        self.collection.push_front(end);
                        open = false;
                    }
                    remaining -= front.len();
                    result.push(front);
                    if self.collection.len() < self.suggested_outer_len {
                        open = false;
                    }
                },
            }
        }
        proof {
            lemma_withdrawal_keeps_items(before, s, amount as nat);
        }
        result
    }

    /// The number of chunks.
    pub fn outer_len(&self) -> (r: usize)
        ensures
            r == self@.len(),
    {
        self.collection.len()
    }

    /// The number of queued items.
    pub fn len(&self) -> (r: usize)
        requires
            self.items().len() <= usize::MAX,
        ensures
            r == self.items().len(),
    {
        let mut total: usize = 0;
        let mut i: usize = 0;
        while i < self.collection.len()
            invariant
                i <= self@.len(),
                self@.len() == self.collection@.len(),
                total == self@.take(i as int).flatten().len(),
                self.items().len() <= usize::MAX,
            decreases self@.len() - i,
        {
            proof {
                lemma_prefix_items(self@, i as int);
            }
            total = total + self.collection[i].len();
            i += 1;
        }
        assert(self@.take(i as int) =~= self@);
        total
    }

    /// Whether no item is queued, whatever chunks there are.
    pub fn is_empty(&self) -> (r: bool)
        ensures
            r == (self.items().len() == 0),
    {
        let mut i: usize = 0;
        while i < self.collection.len()
            invariant
                i <= self@.len(),
                self@.len() == self.collection@.len(),
                self@.take(i as int).flatten().len() == 0,
            decreases self@.len() - i,
        {
            proof {
                lemma_prefix_items(self@, i as int);
            }
            if self.collection[i].len() > 0 {
                return false;
            }
            i += 1;
        }
        assert(self@.take(i as int) =~= self@);
        true
    }

    /// The queued item at position `index`, counted from the front; `None`
    /// where the queue holds no more than `index` items.
    pub fn get(&self, index: usize) -> (r: Option<&T>)
        ensures
            match r {
                Some(item) => index < self.items().len() && *item == self.items()[index as int],
                None => index >= self.items().len(),
            },
    {
        let mut rest: usize = index;
        let mut i: usize = 0;
        while i < self.collection.len()
            invariant
                i <= self@.len(),
                self@.len() == self.collection@.len(),
                index == rest + self@.take(i as int).flatten().len(),
            decreases self@.len() - i,
        {
            proof {
                lemma_prefix_items(self@, i as int);
            }
            let vec = &self.collection[i];
            if rest < vec.len() {
                return Some(&vec[rest]);
            }
            rest -= vec.len();
            i += 1;
        }
        assert(self@.take(i as int) =~= self@);
        None
    }

    /// Deposits `vec`: as two chunks of about half its items each while the
    /// queue has fewer chunks than suggested, else as one chunk.
    pub fn give(&mut self, vec: Vec<T>)
        ensures
            final(self).suggested() == old(self).suggested(),
            final(self)@ == given(old(self)@, old(self).suggested() as nat, vec@),
            final(self).items().to_multiset() == old(self).items().to_multiset().add(
                vec@.to_multiset(),
            ),
            final(self).items().len() == old(self).items().len() + vec@.len(),
    {
        let mut vec = vec;
        let ghost items = vec@;
        if self.collection.len() < self.suggested_outer_len {
            let half: usize = vec.len() / 2;
            let tail = vec.split_off(half);
            self.collection.push_back(tail);
        }
        self.collection.push_back(vec);
        proof {
            assert(self@ =~= given(old(self)@, old(self).suggested() as nat, items));
            lemma_deposit_adds_items(old(self)@, old(self).suggested() as nat, items);
        }
    }

    /// Deposits each of `vecs` in turn.
    pub fn give_each(&mut self, vecs: Vec<Vec<T>>)
        ensures
            final(self).suggested() == old(self).suggested(),
            final(self)@ == given_each(
                old(self)@,
                old(self).suggested() as nat,
                chunks_of(vecs@),
            ),
            final(self).items().to_multiset() == old(self).items().to_multiset().add(
                chunks_of(vecs@).flatten().to_multiset(),
            ),
    {
        let ghost deposits = chunks_of(vecs@);
        let ghost before = self@;
        let ghost s = self.suggested() as nat;
        for vec in it: vecs
            invariant
                self.suggested() == s,
                chunks_of(it.seq()) == deposits,
                self@ == given_each(before, s, deposits.take(it.index() as int)),
        {
            proof {
                let i = it.index() as int;
                assert(deposits.take(i + 1).drop_last() =~= deposits.take(i));
            }
            self.give(vec);
        }
        proof {
            assert(deposits.take(deposits.len() as int) =~= deposits);
            lemma_deposits_add_items(before, s, deposits);
        }
    }

    /// The first item of the chunk at the front; `None` where there is no
    /// chunk or the chunk at the front is empty.
    pub fn peek_head(&self) -> (r: Option<&T>)
        ensures
            match r {
                Some(item) => self@.len() > 0 && self@[0].len() > 0 && *item == self@[0][0],
                None => self@.len() == 0 || self@[0].len() == 0,
            },
    {
        if self.collection.len() == 0 {
            return None;
        }
        let front = &self.collection[0];
        if front.len() == 0 {
            None
        } else {
            Some(&front[0])
        }
    }

    /// All queued items, chunk after chunk from the front.
    pub fn iter(&self) -> (r: Vec<&T>)
        ensures
            r@.len() == self.items().len(),
            forall|k: int| 0 <= k < r@.len() ==> *r@[k] == self.items()[k],
    {
        let mut out: Vec<&T> = Vec::new();
        let mut i: usize = 0;
        while i < self.collection.len()
            invariant
                i <= self@.len(),
                self@.len() == self.collection@.len(),
                out@.len() == self@.take(i as int).flatten().len(),
                forall|k: int| 0 <= k < out@.len() ==> *out@[k] == self@.take(i as int).flatten()[k],
            decreases self@.len() - i,
        {
            let chunk = &self.collection[i];
            let ghost done = self@.take(i as int).flatten();
            let mut j: usize = 0;
            while j < chunk.len()
                invariant
                    j <= chunk@.len(),
                    out@.len() == done.len() + j,
                    forall|k: int| 0 <= k < done.len() ==> *out@[k] == done[k],
                    forall|k: int| 0 <= k < j ==> *out@[done.len() + k] == chunk@[k],
                decreases chunk@.len() - j,
            {
                out.push(&chunk[j]);
                j += 1;
            }
            proof {
                lemma_prefix_items(self@, i as int);
            }
            i += 1;
        }
        assert(self@.take(i as int) =~= self@);
        out
    }
}

} // verus!
