//! Finding out when no reader can still be on the copy that was swapped out.
//!
//! Every reader owns an epoch counter. It adds one when it begins to read, and
//! when it is done it stores the counter with the highest bit set. After a swap
//! the writer notes every counter. A reader that was not reading then, or whose
//! counter has changed since, can only see the new copy.

use vstd::prelude::*;

verus! {

/// How often a counter is loaded again at once before the writer yields.
pub const EAGER_RETRIES: usize = 20;

/// A reader with this epoch is not reading: the highest bit is set.
pub open spec fn finished(epoch: usize) -> bool {
    epoch > usize::MAX / 2
}

/// A reader whose epoch was `last` right after the swap, and is `now`, has
/// seen the swap: it has moved on, is not reading, or has never read.
pub open spec fn has_moved(last: usize, now: usize) -> bool {
    now != last || finished(now) || now == 0
}

/// The first index from `from` on whose epoch was not finished, or the length
/// where there is none.
pub open spec fn next_active(last: Seq<usize>, from: int) -> int
    decreases last.len() - from,
{
    if 0 <= from < last.len() && finished(last[from]) {
        next_active(last, from + 1)
    } else {
        from
    }
}

/// `last` cut off, or filled up with zeros, to the length `len`.
pub open spec fn resized(last: Seq<usize>, len: nat) -> Seq<usize> {
    Seq::new(
        len,
        |i: int|
            if i < last.len() {
                last[i]
            } else {
                0
            },
    )
}

/// What the writer has to do next while it waits for the readers.
#[derive(Clone, Copy, Debug, PartialEq, Eq)]
pub enum WaitAction {
    /// Load the epoch of this reader.
    Load(usize),
    /// Let other threads run, then load the epoch of this reader.
    YieldAndLoad(usize),
    /// Every reader has departed from the old copy.
    Departed,
}

/// The progress of a wait, as a mathematical value.
#[verifier::ext_equal]
pub struct Wait {
    /// The epoch of each reader right after the last swap.
    pub last: Seq<usize>,
    /// The readers before this one have departed.
    pub next: int,
    /// How often a reader was found that had not moved, up to the eager retries.
    pub iter: int,
    /// The copies were swapped, and the epochs have not been noted since.
    pub due: bool,
    /// The epoch that showed a reader to have moved.
    pub seen: Map<int, usize>,
}

impl Wait {
    /// Nothing to wait for: no reader is known.
    pub open spec fn none() -> Wait {
        Wait { last: Seq::empty(), next: 0, iter: 0, due: false, seen: Map::empty() }
    }

    /// Each reader that has been passed over was not reading at the swap, or
    /// was seen to have moved since.
    pub open spec fn inv(self) -> bool {
        &&& 0 <= self.next <= self.last.len()
        &&& 0 <= self.iter <= EAGER_RETRIES
        &&& forall|i: int|
            0 <= i < self.next && !finished(#[trigger] self.last[i]) ==> self.seen.contains_key(i)
                && has_moved(self.last[i], self.seen[i])
    }

    /// No reader can still be on the old copy.
    pub open spec fn all_departed(self) -> bool {
        self.next == self.last.len() && !self.due
    }

    /// A reader has to be looked at.
    pub open spec fn waiting(self) -> bool {
        self.next < self.last.len() && !self.due
    }

    /// The wait at its start, with `readers` readers.
    pub open spec fn started(self, readers: nat) -> Wait {
        let last = resized(self.last, readers);
        Wait { last, next: next_active(last, 0), iter: 0, due: false, seen: Map::empty() }
    }

    /// The wait once the epoch of the reader at `next` was loaded as `now`.
    pub open spec fn observed(self, now: usize) -> Wait {
        if has_moved(self.last[self.next], now) {
            Wait {
                next: next_active(self.last, self.next + 1),
                seen: self.seen.insert(self.next, now),
                ..self
            }
        } else {
            Wait {
                iter: if self.iter < EAGER_RETRIES {
                    self.iter + 1
                } else {
                    self.iter
                },
                ..self
            }
        }
    }

    /// What follows when the epoch of the reader at `next` was loaded as `now`.
    pub open spec fn action_after(self, now: usize) -> WaitAction {
        if !has_moved(self.last[self.next], now) && self.iter == EAGER_RETRIES {
            WaitAction::YieldAndLoad(self.next as usize)
        } else {
            self.observed(now).action()
        }
    }

    /// The reader to look at, if there is one left.
    pub open spec fn action(self) -> WaitAction {
        if self.next < self.last.len() {
            WaitAction::Load(self.next as usize)
        } else {
            WaitAction::Departed
        }
    }

    /// The state right after a swap.
    pub open spec fn swapped(self) -> Wait {
        Wait { next: 0, iter: 0, due: true, seen: Map::empty(), ..self }
    }

    /// The state once the epochs after a swap have been noted.
    pub open spec fn recorded(self, epochs: Seq<usize>) -> Wait {
        Wait { last: epochs, next: 0, iter: 0, due: false, seen: Map::empty() }
    }
}

/// The active reader that is found next lies in range, and all before it had
/// finished.
pub proof fn lemma_next_active(last: Seq<usize>, from: int)
    requires
        0 <= from <= last.len(),
    ensures
        from <= next_active(last, from) <= last.len(),
        forall|i: int| from <= i < next_active(last, from) ==> finished(#[trigger] last[i]),
        next_active(last, from) < last.len() ==> !finished(last[next_active(last, from)]),
    decreases last.len() - from,
{
    if from < last.len() && finished(last[from]) {
        lemma_next_active(last, from + 1);
    }
}

/// Whether the highest bit of an epoch is set.
fn is_finished(epoch: usize) -> (set: bool)
    ensures
        set == finished(epoch),
{
    let high_bit: usize = 1usize << (usize::BITS - 1);
    let ghost max: usize = usize::MAX;
    assert(max <= !0usize) by (bit_vector);
    assert(epoch & (1usize << ((usize::BITS - 1) as u32)) != 0 <==> epoch > !0usize / 2)
        by (bit_vector);
    epoch & high_bit != 0
}

/// The epochs noted at the last swap, and how far the writer has got since in
/// making sure that every reader has moved on.
pub struct EpochTracker {
    last_epochs: Vec<usize>,
    next: usize,
    iter: usize,
    due: bool,
    seen: Ghost<Map<int, usize>>,
}

impl View for EpochTracker {
    type V = Wait;

    closed spec fn view(&self) -> Wait {
        Wait {
            last: self.last_epochs@,
            next: self.next as int,
            iter: self.iter as int,
            due: self.due,
            seen: self.seen@,
        }
    }
}

impl EpochTracker {
    /// A tracker that knows of no reader.
    pub fn new() -> (tracker: Self)
        ensures
            tracker@ == Wait::none(),
    {
        EpochTracker {
            last_epochs: Vec::new(),
            next: 0,
            iter: 0,
            due: false,
            seen: Ghost(Map::empty()),
        }
    }

    /// The reader to look at next: passes over those that had finished.
    fn skip_finished(&mut self) -> (action: WaitAction)
        requires
            old(self)@.inv(),
        ensures
            final(self)@ == (Wait {
                next: next_active(old(self)@.last, old(self)@.next),
                ..old(self)@
            }),
            action == final(self)@.action(),
    {
        while self.next < self.last_epochs.len() && is_finished(self.last_epochs[self.next])
            invariant
                self.next <= self.last_epochs@.len(),
                self@ == (Wait { next: self@.next, ..old(self)@ }),
                next_active(self@.last, self@.next) == next_active(
                    old(self)@.last,
                    old(self)@.next,
                ),
            decreases self.last_epochs@.len() - self.next,
        {
            self.next = self.next + 1;
        }
        if self.next < self.last_epochs.len() {
            WaitAction::Load(self.next)
        } else {
            WaitAction::Departed
        }
    }

    /// Begins to wait for `readers` readers. One that is new since the epochs
    /// were noted counts as having had the epoch zero.
    pub fn wait(&mut self, readers: usize) -> (action: WaitAction)
        requires
            old(self)@.inv(),
            !old(self)@.due,
        ensures
            final(self)@.inv(),
            final(self)@ == old(self)@.started(readers as nat),
            action == final(self)@.action(),
    {
        self.last_epochs.resize(readers, 0);
        self.next = 0;
        self.iter = 0;
        self.seen = Ghost(Map::empty());
        proof {
            assert(self.last_epochs@ =~= resized(old(self)@.last, readers as nat));
            lemma_next_active(self@.last, 0);
        }
        self.skip_finished()
    }

    /// Takes note of the epoch that was loaded for the reader that the last
    /// action named.
    pub fn observe(&mut self, now: usize) -> (action: WaitAction)
        requires
            old(self)@.inv(),
            old(self)@.waiting(),
        ensures
            final(self)@.inv(),
            final(self)@ == old(self)@.observed(now),
            action == old(self)@.action_after(now),
    {
        if now != self.last_epochs[self.next] || is_finished(now) || now == 0 {
            proof {
                lemma_next_active(self@.last, self@.next + 1);
                assert(self.next < self.last_epochs.len());
            }
            self.seen = Ghost(self.seen@.insert(self.next as int, now));
            self.next = self.next + 1;
            self.skip_finished()
        } else if self.iter != EAGER_RETRIES {
            self.iter = self.iter + 1;
            WaitAction::Load(self.next)
        } else {
            WaitAction::YieldAndLoad(self.next)
        }
    }

    /// The copies have been swapped: whatever is known of the readers is out of
    /// date.
    pub fn swapped(&mut self)
        requires
            old(self)@.inv(),
        ensures
            final(self)@.inv(),
            final(self)@ == old(self)@.swapped(),
    {
        self.next = 0;
        self.iter = 0;
        self.due = true;
        self.seen = Ghost(Map::empty());
    }

    /// Notes the epoch of every reader there is, as loaded after a swap.
    pub fn record(&mut self, epochs: &[usize])
        requires
            old(self)@.inv(),
        ensures
            final(self)@.inv(),
            final(self)@ == old(self)@.recorded(epochs@),
    {
        self.last_epochs.clear();
        for i in 0..epochs.len()
            invariant
                self.last_epochs@ == epochs@.take(i as int),
        {
            self.last_epochs.push(epochs[i]);
        }
        self.next = 0;
        self.iter = 0;
        self.due = false;
        self.seen = Ghost(Map::empty());
        assert(epochs@.take(epochs@.len() as int) =~= epochs@);
    }
}

} // verus!
