use std::collections::VecDeque;
use vstd::prelude::*;

verus! {

broadcast use vstd::std_specs::vecdeque::group_vec_dequeue_axioms;

/// The contents after committing `c` to a palette holding `s` with room for `cap`:
/// `c` goes last, and the oldest entry leaves when the palette was full.
pub open spec fn commit_spec<T>(s: Seq<T>, cap: nat, c: T) -> Seq<T> {
    if s.len() >= cap {
        s.subrange(1, s.len() as int).push(c)
    } else {
        s.push(c)
    }
}

/// The contents after committing each of `cs` in turn.
pub open spec fn commit_all<T>(s: Seq<T>, cap: nat, cs: Seq<T>) -> Seq<T>
    decreases cs.len(),
{
    if cs.len() == 0 {
        s
    } else {
        commit_spec(commit_all(s, cap, cs.drop_last()), cap, cs.last())
    }
}

/// A bounded history of committed colors, oldest first.
pub struct Palette<T> {
    cap: usize,
    colors: VecDeque<T>,
}

impl<T: Copy> Palette<T> {
    /// What the palette holds, oldest first.
    pub closed spec fn view_colors(&self) -> Seq<T> {
        self.colors@
    }

    pub closed spec fn capacity_spec(&self) -> nat {
        self.cap as nat
    }

    /// Never more entries than room, and room for at least one.
    pub closed spec fn wf(&self) -> bool {
        self.cap >= 1 && self.colors@.len() <= self.cap
    }

    /// An empty palette with room for `cap` colors.
    pub fn new(cap: usize) -> (p: Palette<T>)
        requires
            cap >= 1,
        ensures
            p.wf(),
            p.view_colors() == Seq::<T>::empty(),
            p.capacity_spec() == cap,
    {
        Palette { cap, colors: VecDeque::with_capacity(cap) }
    }

    pub fn capacity(&self) -> (c: usize)
        ensures
            c == self.capacity_spec(),
    {
        self.cap
    }

    pub fn len(&self) -> (n: usize)
        ensures
            n == self.view_colors().len(),
    {
        self.colors.len()
    }

    /// Appends `c`, evicting the oldest color when the palette is full.
    pub fn commit(&mut self, c: T)
        requires
            old(self).wf(),
        ensures
            final(self).wf(),
            final(self).capacity_spec() == old(self).capacity_spec(),
            final(self).view_colors() == commit_spec(
                old(self).view_colors(),
                old(self).capacity_spec(),
                c,
            ),
    {
        if self.colors.len() >= self.cap {
            let _ = self.colors.pop_front();
        }
        self.colors.push_back(c);
    }

    /// The color in slot `index` (oldest first), if that slot is filled.
    pub fn select(&self, index: usize) -> (c: Option<T>)
        ensures
            c == if index < self.view_colors().len() {
                Some(self.view_colors()[index as int])
            } else {
                None
            },
    {
        if index < self.colors.len() {
            Some(self.colors[index])
        } else {
            None
        }
    }
}

/// Committing a run of colors to an empty palette leaves the last `cap` of them (all of
/// them when there are fewer), in the order they were committed.
pub proof fn lemma_commit_keeps_newest<T>(cap: nat, cs: Seq<T>)
    requires
        cap >= 1,
    ensures
        commit_all(Seq::<T>::empty(), cap, cs) == cs.subrange(
            if cs.len() > cap {
                cs.len() - cap
            } else {
                0
            },
            cs.len() as int,
        ),
    decreases cs.len(),
{
    if cs.len() == 0 {
        assert(cs.subrange(0, 0) =~= Seq::<T>::empty());
    } else {
        let prev = cs.drop_last();
        lemma_commit_keeps_newest(cap, prev);
        let lo_prev: int = if prev.len() > cap {
            prev.len() - cap
        } else {
            0
        };
        let s = commit_all(Seq::<T>::empty(), cap, prev);
        assert(s == prev.subrange(lo_prev, prev.len() as int));
        if s.len() >= cap {
            assert(s.subrange(1, s.len() as int).push(cs.last()) =~= cs.subrange(
                cs.len() - cap,
                cs.len() as int,
            ));
        } else {
            assert(s.push(cs.last()) =~= cs.subrange(0, cs.len() as int));
        }
    }
}

} // verus!
