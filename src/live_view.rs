//! The live-view side: a last-write-wins cache per source, and the
//! cooperative step that polls the live-view channel without ever blocking.
use crate::channel::{try_recv, Received};
use vstd::prelude::*;

verus! {

/// The most recent entry of each source, keyed by the source's identifier.
/// An update replaces a source's entry wholesale; nothing is ever evicted.
pub struct LiveCache<E> {
    entries: Vec<(String, E)>,
}

impl<E> View for LiveCache<E> {
    type V = Map<Seq<char>, E>;

    closed spec fn view(&self) -> Map<Seq<char>, E> {
        Map::new(
            |k: Seq<char>| exists|i: int| 0 <= i < self.entries.len() && self.entries[i].0@ == k,
            |k: Seq<char>|
                self.entries[choose|i: int| 0 <= i < self.entries.len() && self.entries[i].0@ == k].1,
        )
    }
}

impl<E> LiveCache<E> {
    /// No source is held twice.
    pub closed spec fn wf(&self) -> bool {
        forall|i: int, j: int|
            0 <= i < self.entries.len() && 0 <= j < self.entries.len() && i != j
                ==> self.entries[i].0@ != self.entries[j].0@
    }

    /// The source held at index `i`.
    pub closed spec fn key_at(&self, i: int) -> Seq<char> {
        self.entries[i].0@
    }

    /// The indices `0..len` enumerate the sources held, each exactly once.
    pub proof fn lemma_indices_enumerate(&self)
        requires
            self.wf(),
        ensures
            forall|i: int, j: int|
                0 <= i < self@.len() && 0 <= j < self@.len() && i != j ==> self.key_at(i)
                    != self.key_at(j),
            forall|i: int| 0 <= i < self@.len() ==> self@.contains_key(#[trigger] self.key_at(i)),
            forall|k: Seq<char>|
                self@.contains_key(k) ==> exists|i: int| 0 <= i < self@.len() && self.key_at(i) == k,
    {
        self.lemma_len();
        assert forall|i: int| 0 <= i < self@.len() implies self@.contains_key(
            #[trigger] self.key_at(i),
        ) by {
            self.lemma_at(i);
        }
        assert forall|k: Seq<char>| self@.contains_key(k) implies exists|i: int|
            0 <= i < self@.len() && self.key_at(i) == k by {
            let i = choose|i: int| 0 <= i < self.entries.len() && self.entries[i].0@ == k;
            assert(self.key_at(i) == k);
        }
    }

    pub fn new() -> (r: Self)
        ensures
            r.wf(),
            r@ == Map::<Seq<char>, E>::empty(),
    {
        let r = LiveCache { entries: Vec::new() };
        assert(r@ =~= Map::<Seq<char>, E>::empty());
        r
    }

    /// The number of sources held.
    pub fn len(&self) -> (r: usize)
        requires
            self.wf(),
        ensures
            r == self@.len(),
    {
        proof {
            self.lemma_len();
        }
        self.entries.len()
    }

    /// The source held at index `i`, and its entry. The indices `0..len` visit
    /// every source once, in no particular order.
    pub fn entry(&self, i: usize) -> (r: (&String, &E))
        requires
            self.wf(),
            i < self@.len(),
        ensures
            r.0@ == self.key_at(i as int),
            self@.contains_key(r.0@),
            self@[r.0@] == *r.1,
    {
        proof {
            self.lemma_len();
            self.lemma_at(i as int);
        }
        (&self.entries[i].0, &self.entries[i].1)
    }

    /// The entry of the source `key`, if it has one.
    pub fn get(&self, key: &String) -> (r: Option<&E>)
        requires
            self.wf(),
        ensures
            r.is_some() == self@.contains_key(key@),
            r.is_some() ==> *r.unwrap() == self@[key@],
    {
        let mut i: usize = 0;
        while i < self.entries.len()
            invariant
                i <= self.entries.len(),
                self.wf(),
                forall|j: int| 0 <= j < i ==> self.entries[j].0@ != key@,
            decreases self.entries.len() - i,
        {
            if self.entries[i].0 == *key {
                proof {
                    self.lemma_at(i as int);
                }
                return Some(&self.entries[i].1);
            }
            i = i + 1;
        }
        None
    }

    /// Replaces the entry of the source `key` with `entry`, or adds it.
    pub fn insert(&mut self, key: String, entry: E)
        requires
            old(self).wf(),
        ensures
            final(self).wf(),
            final(self)@ == old(self)@.insert(key@, entry),
    {
        let mut i: usize = 0;
        while i < self.entries.len()
            invariant
                i <= self.entries.len(),
                *self == *old(self),
                self.wf(),
                forall|j: int| 0 <= j < i ==> self.entries[j].0@ != key@,
            decreases self.entries.len() - i,
        {
            if self.entries[i].0 == key {
                let ghost before = *self;
                self.entries.set(i, (key, entry));
                proof {
                    self.lemma_after_set(before, i as int);
                }
                return;
            }
            i = i + 1;
        }
        let ghost before = *self;
        self.entries.push((key, entry));
        proof {
            self.lemma_after_push(before);
        }
    }

    /// Applies a batch of updates in order: for a source updated more than
    /// once in the batch the last update wins.
    pub fn apply_all(&mut self, updates: Vec<(String, E)>)
        requires
            old(self).wf(),
        ensures
            final(self).wf(),
            final(self)@ == apply_updates(old(self)@, updates@),
    {
        let mut rest = updates;
        while rest.len() > 0
            invariant
                self.wf(),
                apply_updates(self@, rest@) == apply_updates(old(self)@, updates@),
            decreases rest.len(),
        {
            let ghost before = rest@;
            let (key, entry) = rest.remove(0);
            assert(rest@ =~= before.drop_first());
            self.insert(key, entry);
        }
    }

    proof fn lemma_at(&self, i: int)
        requires
            self.wf(),
            0 <= i < self.entries.len(),
        ensures
            self@.contains_key(self.entries[i].0@),
            self@[self.entries[i].0@] == self.entries[i].1,
    {
        let k = self.entries[i].0@;
        assert(self@.contains_key(k));
        let c = choose|j: int| 0 <= j < self.entries.len() && self.entries[j].0@ == k;
        assert(c == i);
    }

    proof fn lemma_len(&self)
        requires
            self.wf(),
        ensures
            self@.len() == self.entries.len(),
    {
        let keys = self.entries@.map_values(|e: (String, E)| e.0@);
        assert(keys.no_duplicates());
        assert forall|k: Seq<char>| #[trigger] self@.dom().contains(k) == keys.to_set().contains(k) by {
            if self@.dom().contains(k) {
                let j = choose|j: int| 0 <= j < self.entries.len() && self.entries[j].0@ == k;
                assert(keys[j] == k);
            }
            if keys.contains(k) {
                let j = choose|j: int| 0 <= j < keys.len() && keys[j] == k;
                assert(self.entries[j].0@ == k);
            }
        }
        assert(self@.dom() =~= keys.to_set());
        keys.unique_seq_to_set();
    }

    proof fn lemma_after_set(&self, before: Self, i: int)
        requires
            before.wf(),
            0 <= i < before.entries.len(),
            self.entries@ == before.entries@.update(i, self.entries[i]),
            self.entries[i].0@ == before.entries[i].0@,
        ensures
            self.wf(),
            self@ == before@.insert(self.entries[i].0@, self.entries[i].1),
    {
        let key = self.entries[i].0@;
        assert forall|k: Seq<char>| #[trigger] self@.contains_key(k) == before@.insert(
            key,
            self.entries[i].1,
        ).contains_key(k) by {
            if exists|j: int| 0 <= j < before.entries.len() && before.entries[j].0@ == k {
                let j = choose|j: int| 0 <= j < before.entries.len() && before.entries[j].0@ == k;
                assert(self.entries[j].0@ == k);
            }
            if exists|j: int| 0 <= j < self.entries.len() && self.entries[j].0@ == k {
                let j = choose|j: int| 0 <= j < self.entries.len() && self.entries[j].0@ == k;
                assert(before.entries[j].0@ == k);
            }
        }
        assert forall|k: Seq<char>| #[trigger] self@.contains_key(k) implies self@[k]
            == before@.insert(key, self.entries[i].1)[k] by {
            let j = choose|j: int| 0 <= j < self.entries.len() && self.entries[j].0@ == k;
            if k == key {
                assert(j == i);
            } else {
                let jb = choose|j: int| 0 <= j < before.entries.len() && before.entries[j].0@ == k;
                assert(before.entries[j].0@ == k);
                assert(jb == j);
            }
        }
        assert(self@ =~= before@.insert(key, self.entries[i].1));
    }

    proof fn lemma_after_push(&self, before: Self)
        requires
            before.wf(),
            self.entries@ == before.entries@.push(self.entries@.last()),
            forall|j: int|
                0 <= j < before.entries.len() ==> before.entries[j].0@ != self.entries@.last().0@,
        ensures
            self.wf(),
            self@ == before@.insert(self.entries@.last().0@, self.entries@.last().1),
    {
        let n = before.entries.len() as int;
        let key = self.entries@.last().0@;
        assert forall|k: Seq<char>| #[trigger] self@.contains_key(k) == before@.insert(
            key,
            self.entries@.last().1,
        ).contains_key(k) by {
            if exists|j: int| 0 <= j < before.entries.len() && before.entries[j].0@ == k {
                let j = choose|j: int| 0 <= j < before.entries.len() && before.entries[j].0@ == k;
                assert(self.entries[j].0@ == k);
            }
            if k == key {
                assert(self.entries[n].0@ == k);
            }
        }
        assert forall|k: Seq<char>| #[trigger] self@.contains_key(k) implies self@[k]
            == before@.insert(key, self.entries@.last().1)[k] by {
            let j = choose|j: int| 0 <= j < self.entries.len() && self.entries[j].0@ == k;
            if k == key {
                assert(j == n);
            } else {
                let jb = choose|j: int| 0 <= j < before.entries.len() && before.entries[j].0@ == k;
                assert(before.entries[j].0@ == k);
                assert(jb == j);
            }
        }
        assert(self@ =~= before@.insert(key, self.entries@.last().1));
    }
}

/// The cache after applying `updates` in order to `cache`.
pub open spec fn apply_updates<E>(cache: Map<Seq<char>, E>, updates: Seq<(String, E)>) -> Map<
    Seq<char>,
    E,
>
    decreases updates.len(),
{
    if updates.len() == 0 {
        cache
    } else {
        apply_updates(cache.insert(updates[0].0@, updates[0].1), updates.drop_first())
    }
}

/// Delivering an update twice leaves the cache as delivering it once.
pub proof fn lemma_update_idempotent<E>(cache: Map<Seq<char>, E>, key: Seq<char>, entry: E)
    ensures
        cache.insert(key, entry).insert(key, entry) == cache.insert(key, entry),
{
    assert(cache.insert(key, entry).insert(key, entry) =~= cache.insert(key, entry));
}

/// Re-applying the update that a cache already holds changes nothing.
pub proof fn lemma_update_already_applied<E>(cache: Map<Seq<char>, E>, key: Seq<char>, entry: E)
    requires
        cache.contains_key(key),
        cache[key] == entry,
    ensures
        cache.insert(key, entry) == cache,
{
    assert(cache.insert(key, entry) =~= cache);
}

/// What one step of the render loop does next.
pub enum StepOutcome<T> {
    /// Close the window: the loop is over.
    Close,
    /// Apply these items, in order, to the cache, then draw it.
    Render(Vec<T>),
}

/// Where a drain stands after one receive result.
#[derive(Clone, Copy, Debug, PartialEq, Eq, Structural)]
pub enum DrainState {
    /// An item was taken: receive again.
    More,
    /// The channel is empty for now: the batch is complete.
    Done,
    /// The channel is empty and every sender is gone.
    Closed,
}

/// Takes one receive result into the batch being gathered: an item is
/// appended, and the other results end the drain.
pub fn absorb<T>(batch: &mut Vec<T>, received: Received<T>) -> (r: DrainState)
    ensures
        match received {
            Received::Item(item) => final(batch)@ == old(batch)@.push(item) && r == DrainState::More,
            Received::Empty => final(batch)@ == old(batch)@ && r == DrainState::Done,
            Received::Closed => final(batch)@ == old(batch)@ && r == DrainState::Closed,
        },
{
    match received {
        Received::Item(item) => {
            batch.push(item);
            DrainState::More
        },
        Received::Empty => DrainState::Done,
        Received::Closed => DrainState::Closed,
    }
}

/// The items carried by the first `n` receive results.
pub open spec fn received_items<T>(results: Seq<Received<T>>, n: int) -> Seq<T> {
    Seq::new(n as nat, |i: int| results[i]->Item_0)
}

/// The first `n` receive results all carried an item.
pub open spec fn all_items<T>(results: Seq<Received<T>>, n: int) -> bool {
    forall|i: int| 0 <= i < n ==> #[trigger] results[i] is Item
}

/// `results` are the receive results of one drain of at most `max_items`
/// items: receives go on while they yield items, and stop at the first
/// result that is not an item, or once `max_items` items are taken.
pub open spec fn is_drain<T>(results: Seq<Received<T>>, max_items: nat) -> bool {
    if results.len() > 0 && !(results.last() is Item) {
        all_items(results, results.len() - 1) && results.len() <= max_items
    } else {
        all_items(results, results.len() as int) && results.len() == max_items
    }
}

/// What a drain with these receive results hands back: `None` where it ended
/// on a closed channel, else the items received, in order.
pub open spec fn drain_result<T>(results: Seq<Received<T>>) -> Option<Seq<T>> {
    if results.len() > 0 && results.last() is Closed {
        None
    } else if results.len() > 0 && results.last() is Empty {
        Some(received_items(results, results.len() - 1))
    } else {
        Some(received_items(results, results.len() as int))
    }
}

/// The receive results logged after `before`, where `after` extends it.
pub open spec fn new_results<T>(before: Seq<Received<T>>, after: Seq<Received<T>>) -> Seq<
    Received<T>,
> {
    after.skip(before.len() as int)
}

pub open spec fn extends<T>(before: Seq<Received<T>>, after: Seq<Received<T>>) -> bool {
    after.len() >= before.len() && after.take(before.len() as int) == before
}

/// The consumer of the live-view channel, stepped once per display frame.
/// Once it has closed it stays closed.
#[verifier::reject_recursive_types(T)]
pub struct LiveViewSink<T> {
    rx: flume::Receiver<T>,
    closed: bool,
    results: Ghost<Seq<Received<T>>>,
}

impl<T> LiveViewSink<T> {
    pub closed spec fn is_closed(&self) -> bool {
        self.closed
    }

    /// Every receive result this sink has had from its channel, in order.
    pub closed spec fn results(&self) -> Seq<Received<T>> {
        self.results@
    }

    pub fn new(rx: flume::Receiver<T>) -> (r: Self)
        ensures
            !r.is_closed(),
            r.results() == Seq::<Received<T>>::empty(),
    {
        LiveViewSink { rx, closed: false, results: Ghost(Seq::empty()) }
    }

    /// Whether the sink has closed.
    pub fn is_finished(&self) -> (r: bool)
        ensures
            r == self.is_closed(),
    {
        self.closed
    }

    /// Drains what the channel holds now, without waiting, up to
    /// `max_items` items: it receives until the channel reports empty or
    /// closed. `None` where the channel turns out empty and without senders;
    /// the items drained in the same call are then dropped.
    pub fn gather_msgs(&mut self, max_items: usize) -> (r: Option<Vec<T>>)
        ensures
            final(self).is_closed() == old(self).is_closed(),
            extends(old(self).results(), final(self).results()),
            is_drain(new_results(old(self).results(), final(self).results()), max_items as nat),
            drain_result(new_results(old(self).results(), final(self).results())) == (match r {
                Some(batch) => Some(batch@),
                None => None,
            }),
    {
        let ghost start = self.results@.len() as int;
        let mut batch: Vec<T> = Vec::new();
        assert(self.results@.take(start) =~= self.results@);
        while batch.len() < max_items
            invariant
                batch.len() <= max_items,
                self.closed == old(self).closed,
                self.results@.len() == start + batch.len(),
                start == old(self).results@.len(),
                self.results@.take(start) == old(self).results@,
                forall|i: int|
                    0 <= i < batch.len() ==> #[trigger] self.results@[start + i] == Received::Item(
                        batch[i],
                    ),
            decreases max_items - batch.len(),
        {
            let received = try_recv(&self.rx);
            let ghost before = self.results@;
            self.results = Ghost(self.results@.push(received));
            let ghost old_batch = batch@;
            let state = absorb(&mut batch, received);
            proof {
                assert(self.results@.take(start) =~= before.take(start));
                let fresh = new_results(old(self).results@, self.results@);
                assert forall|i: int| 0 <= i < fresh.len() - 1 implies #[trigger] fresh[i] is Item by {
                    assert(self.results@[start + i] == Received::Item(old_batch[i]));
                }
                if state != DrainState::More {
                    assert(fresh.last() == received);
                    assert(received_items(fresh, fresh.len() - 1) =~= batch@) by {
                        assert forall|i: int| 0 <= i < batch.len() implies received_items(
                            fresh,
                            fresh.len() - 1,
                        )[i] == batch@[i] by {
                            assert(self.results@[start + i] == Received::Item(old_batch[i]));
                        }
                    }
                }
            }
            match state {
                DrainState::More => {},
                DrainState::Done => {
                    return Some(batch);
                },
                DrainState::Closed => {
                    return None;
                },
            }
        }
        proof {
            let fresh = new_results(old(self).results@, self.results@);
            assert forall|i: int| 0 <= i < fresh.len() implies #[trigger] fresh[i] is Item by {
                assert(self.results@[start + i] == Received::Item(batch[i]));
            }
            assert(received_items(fresh, fresh.len() as int) =~= batch@) by {
                assert forall|i: int| 0 <= i < batch.len() implies received_items(
                    fresh,
                    fresh.len() as int,
                )[i] == batch@[i] by {
                    assert(self.results@[start + i] == Received::Item(batch[i]));
                }
            }
        }
        Some(batch)
    }

    /// One step of the render loop. The termination flag is looked at
    /// before anything is received: once it is set the step closes and
    /// leaves what is buffered in the channel. Otherwise it drains up to
    /// `max_items` items without waiting, and closes where the channel is
    /// empty and every producer has gone.
    pub fn step(&mut self, terminated: bool, max_items: usize) -> (r: StepOutcome<T>)
        ensures
            final(self).is_closed() == (r is Close),
            old(self).is_closed() || terminated ==> r is Close && final(self).results() == old(
                self,
            ).results(),
            !old(self).is_closed() && !terminated ==> {
                let fresh = new_results(old(self).results(), final(self).results());
                &&& extends(old(self).results(), final(self).results())
                &&& is_drain(fresh, max_items as nat)
                &&& drain_result(fresh) == (match r {
                    StepOutcome::Render(batch) => Some(batch@),
                    StepOutcome::Close => None,
                })
            },
    {
        if self.closed || terminated {
            self.closed = true;
            return StepOutcome::Close;
        }
        match self.gather_msgs(max_items) {
            Some(batch) => StepOutcome::Render(batch),
            None => {
                self.closed = true;
                StepOutcome::Close
            },
        }
    }
}

} // verus!
