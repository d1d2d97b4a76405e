//! The scene registry: a mutable collection of owned shapes keyed by
//! monotonically increasing integer ids.
//!
//! Ids are handed out once and never reused within a registry's lifetime.
//! Editing applies a pure transform to the shape under a key and leaves
//! absent keys untouched.  Snapshotting appends the drawing commands of
//! every registered shape, in id order, to a command timeline.
use vstd::prelude::*;
use crate::draw::{DrawCommand, DrawCommands};
use crate::shapes::Shape;

verus! {

/// The registered shapes, in strictly increasing id order.
pub struct SceneRegistry {
    pub entries: Vec<(usize, Shape)>,
    pub next_id: usize,
}

/// The drawing commands of a snapshot: the concatenation of `draw()` of
/// every registered shape, in registry order.
pub open spec fn spec_snapshot(entries: Seq<(usize, Shape)>) -> Seq<DrawCommand>
    decreases entries.len(),
{
    if entries.len() == 0 {
        Seq::<DrawCommand>::empty()
    } else {
        spec_snapshot(entries.drop_last()) + entries.last().1.spec_draw()
    }
}

/// Every command of a snapshot of well-formed shapes is well formed.
pub proof fn lemma_snapshot_wf(entries: Seq<(usize, Shape)>)
    requires
        forall|i: int| 0 <= i < entries.len() ==> (#[trigger] entries[i]).1.wf(),
    ensures
        forall|k: int|
            0 <= k < spec_snapshot(entries).len() ==> (#[trigger] spec_snapshot(entries)[k]).wf(),
    decreases entries.len(),
{
    if entries.len() > 0 {
        assert forall|i: int| 0 <= i < entries.drop_last().len() implies (#[trigger] entries.drop_last()[i]).1.wf() by {
            assert(entries.drop_last()[i] == entries[i]);
        }
        lemma_snapshot_wf(entries.drop_last());
        let s = entries.last().1;
        assert(entries[entries.len() - 1].1.wf());
        match s {
            Shape::Triangle(t) => {
                assert(s.spec_draw()[0].wf());
            },
            Shape::Circle(c) => {
                assert(s.spec_draw()[0].wf());
            },
            Shape::Line(l) => {
                assert(s.spec_draw()[0].wf());
            },
        }
        let prefix = spec_snapshot(entries.drop_last());
        assert forall|k: int|
            0 <= k < spec_snapshot(entries).len() implies (#[trigger] spec_snapshot(
            entries,
        )[k]).wf() by {
            if k < prefix.len() {
                assert(spec_snapshot(entries)[k] == prefix[k]);
            } else {
                assert(spec_snapshot(entries)[k] == s.spec_draw()[k - prefix.len()]);
            }
        }
    }
}

impl SceneRegistry {
    /// Every registered shape is well formed.
    pub open spec fn shapes_wf(self) -> bool {
        forall|i: int| 0 <= i < self.entries@.len() ==> (#[trigger] self.entries@[i]).1.wf()
    }

    /// Ids strictly increase along the vector and stay below the next
    /// fresh id, so every id occurs at most once.
    pub open spec fn wf(self) -> bool {
        &&& forall|i: int, j: int|
            0 <= i < j < self.entries@.len() ==> self.entries@[i].0 < self.entries@[j].0
        &&& forall|i: int|
            0 <= i < self.entries@.len() ==> #[trigger] self.entries@[i].0 < self.next_id
    }

    /// Whether some shape is registered under `id`.
    pub open spec fn spec_contains(self, id: usize) -> bool {
        exists|i: int| 0 <= i < self.entries@.len() && #[trigger] self.entries@[i].0 == id
    }

    /// An empty registry; the first id handed out is zero.
    pub fn new() -> (r: SceneRegistry)
        ensures
            r.entries@ == Seq::<(usize, Shape)>::empty(),
            r.next_id == 0,
            r.wf(),
    {
        SceneRegistry { entries: Vec::new(), next_id: 0 }
    }

    /// Inserts a shape under a fresh id (the previous maximum plus one,
    /// starting at zero) and returns that id.
    pub fn add(&mut self, shape: Shape) -> (id: usize)
        requires
            old(self).wf(),
            old(self).next_id < usize::MAX,
        ensures
            final(self).wf(),
            id == old(self).next_id,
            final(self).entries@ == old(self).entries@.push((id, shape)),
            final(self).next_id == old(self).next_id + 1,
            final(self).spec_contains(id),
    {
        let id: usize = self.next_id;
        self.entries.push((id, shape));
        self.next_id = self.next_id + 1;
        proof {
            assert(self.entries@[self.entries@.len() - 1].0 == id);
        }
        id
    }

    /// Applies the pure transform to the shape under `id`, atomically
    /// replacing it in place.  An absent id is a no-op: the registry is
    /// left exactly as it was, and no entry is created.
    pub fn edit<F: Fn(Shape) -> Shape>(&mut self, id: usize, transform: F)
        requires
            old(self).wf(),
            forall|args: (Shape,)| #[trigger] call_requires(transform, args),
        ensures
            final(self).wf(),
            final(self).next_id == old(self).next_id,
            final(self).entries@.len() == old(self).entries@.len(),
            forall|i: int|
                0 <= i < old(self).entries@.len() && old(self).entries@[i].0 != id
                    ==> final(self).entries@[i] == old(self).entries@[i],
            forall|i: int|
                0 <= i < old(self).entries@.len() && (#[trigger] old(self).entries@[i]).0 == id
                    ==> final(self).entries@[i].0 == id
                        && call_ensures(transform, (old(self).entries@[i].1,), final(self).entries@[i].1),
            !old(self).spec_contains(id) ==> final(self).entries@ == old(self).entries@,
    {
        let n: usize = self.entries.len();
        let mut i: usize = 0;
        while i < n
            invariant
                n == self.entries@.len(),
                0 <= i <= n,
                *self == *old(self),
                old(self).wf(),
                forall|args: (Shape,)| #[trigger] call_requires(transform, args),
                forall|k: int| 0 <= k < i ==> self.entries@[k].0 != id,
            decreases n - i,
        {
            if self.entries[i].0 == id {
                let pair: (usize, Shape) = self.entries.remove(i);
                let replaced: Shape = transform(pair.1);
                self.entries.insert(i, (id, replaced));
                proof {
                    assert(self.entries@ =~= old(self).entries@.update(
                        i as int,
                        (id, replaced),
                    ));
                    assert(forall|k: int|
                        0 <= k < self.entries@.len()
                            ==> #[trigger] self.entries@[k].0 == old(self).entries@[k].0);
                    assert forall|k: int|
                        0 <= k < old(self).entries@.len() && old(self).entries@[k].0 == id
                        implies k == i as int by {
                        if k < i as int {
                            assert(old(self).entries@[k].0 < old(self).entries@[i as int].0);
                        }
                        if k > i as int {
                            assert(old(self).entries@[i as int].0 < old(self).entries@[k].0);
                        }
                    }
                }
                return ;
            }
            i = i + 1;
        }
        proof {
            assert(self.entries@ =~= old(self).entries@);
        }
    }

    /// Appends the drawing commands of every registered shape, in registry
    /// order, to the timeline.
    pub fn snapshot_into(&self, timeline: &mut DrawCommands)
        ensures
            final(timeline).commands@ == old(timeline).commands@ + spec_snapshot(self.entries@),
    {
        let n: usize = self.entries.len();
        let mut i: usize = 0;
        while i < n
            invariant
                n == self.entries@.len(),
                0 <= i <= n,
                timeline.commands@ == old(timeline).commands@ + spec_snapshot(
                    self.entries@.take(i as int),
                ),
            decreases n - i,
        {
            let pair: (usize, Shape) = self.entries[i];
            let drawn: DrawCommands = pair.1.draw();
            let m: usize = drawn.commands.len();
            let mut j: usize = 0;
            while j < m
                invariant
                    m == drawn.commands@.len(),
                    0 <= j <= m,
                    drawn.commands@ == self.entries@[i as int].1.spec_draw(),
                    i < n == self.entries@.len(),
                    timeline.commands@ == old(timeline).commands@ + spec_snapshot(
                        self.entries@.take(i as int),
                    ) + drawn.commands@.take(j as int),
                decreases m - j,
            {
                timeline.push(drawn.commands[j]);
                proof {
                    assert(drawn.commands@.take(j + 1) =~= drawn.commands@.take(j as int).push(
                        drawn.commands@[j as int],
                    ));
                }
                j = j + 1;
            }
            proof {
                assert(drawn.commands@.take(m as int) =~= drawn.commands@);
                assert(self.entries@.take(i + 1).drop_last() =~= self.entries@.take(i as int));
                assert(self.entries@.take(i + 1).last() == self.entries@[i as int]);
                assert(spec_snapshot(self.entries@.take(i + 1)) == spec_snapshot(
                    self.entries@.take(i as int),
                ) + self.entries@[i as int].1.spec_draw());
            }
            i = i + 1;
        }
        proof {
            assert(self.entries@.take(n as int) =~= self.entries@);
        }
    }
}

} // verus!
