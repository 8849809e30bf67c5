//! Two equal-length buffers of elements that swap roles on every step: one is
//! the read-only snapshot of the current state, the other receives the next.
use rayon::iter::{IndexedParallelIterator, IntoParallelRefIterator, ParallelIterator};
use vstd::prelude::*;

verus! {

/// Relies on rayon's `par_iter().map(..).collect_into_vec(..)`: `out` is
/// cleared, keeps its allocation, and receives, in order, the image of each
/// element of `cur` under `update`, the elements being mapped concurrently.
#[verifier::external_body]
fn par_map_into<T, F>(cur: &Vec<T>, out: &mut Vec<T>, update: &F)
    where
        T: Send + Sync,
        F: Fn(&T, &Vec<T>) -> T + Sync,
    requires
        forall|x: &T, s: &Vec<T>| update.requires((x, s)),
    ensures
        final(out)@.len() == cur@.len(),
        forall|i: int|
            0 <= i < cur@.len() ==> update.ensures((&cur@[i], cur), #[trigger] final(out)@[i]),
{
    cur.par_iter().map(|x| update(x, cur)).collect_into_vec(out);
}

/// Writes `update(&cur[i], cur)` into slot `i` of `out`, in index order.
fn map_into<T, F>(cur: &Vec<T>, out: &mut Vec<T>, update: &F)
    where
        F: Fn(&T, &Vec<T>) -> T,
    requires
        old(out)@.len() == cur@.len(),
        forall|x: &T, s: &Vec<T>| update.requires((x, s)),
    ensures
        final(out)@.len() == cur@.len(),
        forall|i: int|
            0 <= i < cur@.len() ==> update.ensures((&cur@[i], cur), #[trigger] final(out)@[i]),
{
    let mut i: usize = 0;
    while i < cur.len()
        invariant
            i <= cur@.len(),
            out@.len() == cur@.len(),
            forall|x: &T, s: &Vec<T>| update.requires((x, s)),
            forall|j: int| 0 <= j < i ==> update.ensures((&cur@[j], cur), #[trigger] out@[j]),
        decreases cur.len() - i,
    {
        let x = update(&cur[i], cur);
        out.set(i, x);
        i = i + 1;
    }
}

/// A population kept twice. On an even iteration buffer 0 is current and
/// buffer 1 is written; on an odd iteration the roles are reversed.
pub struct DoubleBuffer<T> {
    front: Vec<T>,
    back: Vec<T>,
    iter: u64,
}

impl<T> DoubleBuffer<T> {
    /// Buffer `k` (0 or 1).
    pub closed spec fn buffer(&self, k: int) -> Vec<T> {
        if k == 0 {
            self.front
        } else {
            self.back
        }
    }

    /// The number of completed steps.
    pub closed spec fn iteration(&self) -> nat {
        self.iter as nat
    }

    /// Which buffer holds the current state.
    pub open spec fn current_index(&self) -> int {
        self.iteration() as int % 2
    }

    /// Which buffer the next step writes.
    pub open spec fn next_index(&self) -> int {
        1 - self.current_index()
    }

    /// The current state.
    pub open spec fn current(&self) -> Vec<T> {
        self.buffer(self.current_index())
    }

    /// The population size, shared by both buffers.
    pub open spec fn size(&self) -> nat {
        self.buffer(0)@.len()
    }

    /// Both buffers have the same length.
    pub open spec fn wf(&self) -> bool {
        self.buffer(0)@.len() == self.buffer(1)@.len()
    }

    /// Every value of the type is well formed.
    #[verifier::type_invariant]
    spec fn inv(&self) -> bool {
        self.wf()
    }

    /// `post` is `pre` after one step: the count went up by one, both
    /// buffers kept the common length, and the buffer that was current, read
    /// during the step, is unchanged and is now the one to be written next.
    pub open spec fn advanced(pre: Self, post: Self) -> bool {
        &&& post.iteration() == pre.iteration() + 1
        &&& post.wf()
        &&& post.size() == pre.size()
        &&& post.buffer(pre.current_index()) == pre.current()
    }

    /// `post` is `pre` after one step with `update`: slot `i` of the new
    /// current state is a result of `update` on element `i` of the old current
    /// state and the whole old current state.
    pub open spec fn stepped_with<F: Fn(&T, &Vec<T>) -> T>(update: F, pre: Self, post: Self) -> bool {
        &&& Self::advanced(pre, post)
        &&& forall|i: int|
            0 <= i < pre.size() ==> update.ensures(
                (&pre.current()@[i], &pre.current()),
                #[trigger] post.current()@[i],
            )
    }

    /// Starts from `init` held in both buffers, with no step taken.
    pub fn new(init: Vec<T>) -> (r: Self)
        where T: Copy,
        ensures
            r.wf(),
            r.iteration() == 0,
            r.buffer(0)@ == init@,
            r.buffer(1)@ == init@,
    {
        let mut copy: Vec<T> = Vec::with_capacity(init.len());
        let mut i: usize = 0;
        while i < init.len()
            invariant
                i <= init.len(),
                copy@ == init@.subrange(0, i as int),
            decreases init.len() - i,
        {
            copy.push(init[i]);
            i = i + 1;
            assert(copy@ =~= init@.subrange(0, i as int));
        }
        assert(copy@ =~= init@);
        DoubleBuffer { front: init, back: copy, iter: 0 }
    }

    /// Moves both buffers and the count out, leaving an empty population.
    fn take_parts(&mut self) -> (r: (Vec<T>, Vec<T>, u64))
        ensures
            r.0 == old(self).buffer(0),
            r.1 == old(self).buffer(1),
            r.2 == old(self).iteration(),
            r.0@.len() == r.1@.len(),
    {
        let mut parts = DoubleBuffer { front: Vec::new(), back: Vec::new(), iter: 0 };
        std::mem::swap(self, &mut parts);
        proof {
            use_type_invariant(&parts);
        }
        let DoubleBuffer { front, back, iter } = parts;
        (front, back, iter)
    }

    /// Advances the population by one step on the calling thread: every slot
    /// of the buffer that is not current is overwritten with `update` applied
    /// to the element of the same index and to the whole current state, which
    /// is only read. The written buffer becomes current and is returned.
    pub fn step<F>(&mut self, update: F) -> (r: &Vec<T>)
        where F: Fn(&T, &Vec<T>) -> T,
        requires
            old(self).iteration() < u64::MAX,
            forall|x: &T, s: &Vec<T>| update.requires((x, s)),
        ensures
            Self::stepped_with(update, *old(self), *final(self)),
            *r == final(self).current(),
    {
        let (mut front, mut back, iter) = self.take_parts();
        if iter % 2 == 0 {
            map_into(&front, &mut back, &update);
        } else {
            map_into(&back, &mut front, &update);
        }
        *self = DoubleBuffer { front, back, iter: iter + 1 };
        self.population()
    }

    /// Advances the population by one step as `step` does, with the slots
    /// computed concurrently on rayon's thread pool. Each worker reads only the
    /// current buffer and writes only its own slots of the other one.
    pub fn par_step<F>(&mut self, update: F) -> (r: &Vec<T>)
        where
            T: Send + Sync,
            F: Fn(&T, &Vec<T>) -> T + Sync,
        requires
            old(self).iteration() < u64::MAX,
            forall|x: &T, s: &Vec<T>| update.requires((x, s)),
        ensures
            Self::stepped_with(update, *old(self), *final(self)),
            *r == final(self).current(),
    {
        let (mut front, mut back, iter) = self.take_parts();
        if iter % 2 == 0 {
            par_map_into(&front, &mut back, &update);
        } else {
            par_map_into(&back, &mut front, &update);
        }
        *self = DoubleBuffer { front, back, iter: iter + 1 };
        self.population()
    }

    /// Over a run of steps from a fresh population, the state after `k` steps
    /// is held in buffer `k mod 2`, and for `k >= 1` the other buffer still
    /// holds the state after `k - 1` steps, untouched by step `k`.
    pub proof fn lemma_buffer_alternation(history: Seq<Self>)
        requires
            history.len() > 0,
            history[0].wf(),
            history[0].iteration() == 0,
            forall|j: int|
                0 <= j < history.len() - 1 ==> #[trigger] Self::advanced(history[j], history[j + 1]),
        ensures
            forall|k: int|
                0 <= k < history.len() ==> (#[trigger] history[k]).iteration() == k
                    && history[k].current() == history[k].buffer(k % 2)
                    && history[k].wf()
                    && history[k].size() == history[0].size(),
            forall|k: int|
                1 <= k < history.len() ==> (#[trigger] history[k]).buffer((k + 1) % 2)
                    == history[k - 1].current(),
        decreases history.len(),
    {
        if history.len() > 1 {
            let prefix = history.drop_last();
            assert forall|j: int| 0 <= j < prefix.len() - 1 implies #[trigger] Self::advanced(
                prefix[j],
                prefix[j + 1],
            ) by {
                assert(Self::advanced(history[j], history[j + 1]));
            }
            Self::lemma_buffer_alternation(prefix);
            let n = history.len() - 1;
            let last = n - 1;
            assert(Self::advanced(history[last], history[last + 1]));
            assert(prefix[n - 1] == history[n - 1]);
            assert forall|k: int| 0 <= k < history.len() implies (#[trigger] history[k]).iteration() == k
                && history[k].current() == history[k].buffer(k % 2)
                && history[k].wf()
                && history[k].size() == history[0].size() by {
                if k < n {
                    assert(prefix[k] == history[k]);
                }
            }
            assert forall|k: int| 1 <= k < history.len() implies (#[trigger] history[k]).buffer(
                (k + 1) % 2,
            ) == history[k - 1].current() by {
                if k < n {
                    assert(prefix[k] == history[k]);
                    assert(prefix[k - 1] == history[k - 1]);
                } else {
                    assert(history[k - 1].current_index() == (k + 1) % 2);
                }
            }
        }
    }

    /// A step is fixed by the state it starts from: where `update` gives one
    /// result for each pair of arguments, two steps with it from the same
    /// state end in the same buffers, whether each ran on one thread or many.
    pub proof fn lemma_step_deterministic<F: Fn(&T, &Vec<T>) -> T>(
        update: F,
        pre: Self,
        a: Self,
        b: Self,
    )
        requires
            pre.wf(),
            Self::stepped_with(update, pre, a),
            Self::stepped_with(update, pre, b),
            forall|x: &T, s: &Vec<T>, r1: T, r2: T|
                update.ensures((x, s), r1) && update.ensures((x, s), r2) ==> r1 == r2,
        ensures
            a.iteration() == b.iteration(),
            a.buffer(0)@ == b.buffer(0)@,
            a.buffer(1)@ == b.buffer(1)@,
    {
        assert(a.current()@ =~= b.current()@);
        assert(a.buffer(pre.current_index()) == b.buffer(pre.current_index()));
        assert(a.current_index() == pre.next_index());
        if pre.current_index() == 0 {
            assert(a.buffer(0)@ == b.buffer(0)@);
        } else {
            assert(a.buffer(1)@ == b.buffer(1)@);
        }
    }

    /// The number of completed steps.
    pub fn iterations(&self) -> (r: u64)
        ensures
            r == self.iteration(),
    {
        self.iter
    }

    /// The current state: the buffer that the latest step wrote, or the
    /// initial population before any step.
    pub fn population(&self) -> (r: &Vec<T>)
        ensures
            *r == self.current(),
    {
        if self.iter % 2 == 0 {
            &self.front
        } else {
            &self.back
        }
    }
}

} // verus!
