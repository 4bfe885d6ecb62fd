//! Undo/redo history for the annotation canvas.

use vstd::prelude::*;

verus! {

/// A snapshot of the annotation layer for undo/redo.
#[derive(Debug, Clone)]
pub struct Snapshot {
    /// RGBA pixel data of the annotations layer.
    pub data: Vec<u8>,
}

impl View for Snapshot {
    type V = Seq<u8>;

    open spec fn view(&self) -> Seq<u8> {
        self.data@
    }
}

impl Snapshot {
    /// Create a new snapshot from pixel data.
    pub fn new(data: Vec<u8>) -> (s: Self)
        ensures
            s.data@ == data@,
    {
        Snapshot { data }
    }
}

/// Abstract state of a history: the undo stack (last = most recent),
/// the redo stack (last = most recently undone) and the depth limit.
pub struct HistoryModel {
    pub undo: Seq<Seq<u8>>,
    pub redo: Seq<Seq<u8>>,
    pub max_depth: nat,
}

/// Keep only the last `max_depth` entries of `s`.
pub open spec fn keep_last(s: Seq<Seq<u8>>, max_depth: nat) -> Seq<Seq<u8>> {
    if s.len() > max_depth {
        s.skip(s.len() - max_depth)
    } else {
        s
    }
}

impl HistoryModel {
    /// Recording a new state: redo is dropped, the state goes on top of the
    /// undo stack, and the oldest states are dropped beyond the depth limit.
    pub open spec fn pushed(self, snap: Seq<u8>) -> HistoryModel {
        HistoryModel {
            undo: keep_last(self.undo.push(snap), self.max_depth),
            redo: Seq::empty(),
            max_depth: self.max_depth,
        }
    }

    /// Undoing with `current` as the state being left: the top of the undo
    /// stack comes back and `current` goes on the redo stack.
    pub open spec fn undone(self, current: Seq<u8>) -> (HistoryModel, Option<Seq<u8>>) {
        if self.undo.len() == 0 {
            (self, None)
        } else {
            (
                HistoryModel {
                    undo: self.undo.drop_last(),
                    redo: self.redo.push(current),
                    max_depth: self.max_depth,
                },
                Some(self.undo.last()),
            )
        }
    }

    /// Redoing with `current` as the state being left: the top of the redo
    /// stack comes back and `current` goes on the undo stack.
    pub open spec fn redone(self, current: Seq<u8>) -> (HistoryModel, Option<Seq<u8>>) {
        if self.redo.len() == 0 {
            (self, None)
        } else {
            (
                HistoryModel {
                    undo: self.undo.push(current),
                    redo: self.redo.drop_last(),
                    max_depth: self.max_depth,
                },
                Some(self.redo.last()),
            )
        }
    }
}

/// Undo/redo history stack.
pub struct History {
    undo_stack: Vec<Snapshot>,
    redo_stack: Vec<Snapshot>,
    max_depth: usize,
}

/// The pixel data of each snapshot.
pub open spec fn snapshots_view(s: Seq<Snapshot>) -> Seq<Seq<u8>> {
    s.map_values(|x: Snapshot| x@)
}

impl View for History {
    type V = HistoryModel;

    closed spec fn view(&self) -> HistoryModel {
        HistoryModel {
            undo: snapshots_view(self.undo_stack@),
            redo: snapshots_view(self.redo_stack@),
            max_depth: self.max_depth as nat,
        }
    }
}

/// The pixel data of a snapshot, if any.
pub open spec fn option_view(o: Option<Snapshot>) -> Option<Seq<u8>> {
    match o {
        Some(s) => Some(s@),
        None => None,
    }
}

impl History {
    /// Create a new history with the default depth of 50.
    pub fn new() -> (h: Self)
        ensures
            h@.undo.len() == 0,
            h@.redo.len() == 0,
            h@.max_depth == 50,
    {
        Self::with_max_depth(50)
    }

    /// Create a new history with the given depth limit.
    pub fn with_max_depth(max_depth: usize) -> (h: Self)
        ensures
            h@.undo.len() == 0,
            h@.redo.len() == 0,
            h@.max_depth == max_depth,
    {
        let h = History { undo_stack: Vec::new(), redo_stack: Vec::new(), max_depth };
        proof {
            assert(h@.undo =~= Seq::<Seq<u8>>::empty());
            assert(h@.redo =~= Seq::<Seq<u8>>::empty());
        }
        h
    }

    /// Push a new snapshot onto the undo stack, discarding the redo stack and
    /// the oldest snapshots beyond the depth limit.
    pub fn push(&mut self, snapshot: Snapshot)
        ensures
            final(self)@ == old(self)@.pushed(snapshot@),
    {
        let ghost target = old(self)@.pushed(snapshot@);
        self.redo_stack.clear();
        self.undo_stack.push(snapshot);
        let ghost pushed = snapshots_view(self.undo_stack@);
        proof {
            assert(pushed =~= old(self)@.undo.push(snapshot@));
        }
        while self.undo_stack.len() > self.max_depth
            invariant
                self.max_depth == old(self).max_depth,
                self.redo_stack@.len() == 0,
                self.max_depth < pushed.len() ==> pushed.len() - self.max_depth
                    >= pushed.len() - self.undo_stack@.len(),
                self.undo_stack@.len() <= pushed.len(),
                self.undo_stack@.len() >= self.max_depth || self.undo_stack@.len() == pushed.len(),
                snapshots_view(self.undo_stack@) =~= pushed.skip(
                    pushed.len() - self.undo_stack@.len(),
                ),
            decreases self.undo_stack.len(),
        {
            let ghost before = self.undo_stack@;
            self.undo_stack.remove(0);
            proof {
                assert(snapshots_view(self.undo_stack@) =~= snapshots_view(before).skip(1));
            }
        }
        proof {
            assert(self@.redo =~= Seq::<Seq<u8>>::empty());
            assert(self@.undo =~= target.undo);
        }
    }

    /// Undo: give back the most recent snapshot and keep `current` for redo.
    pub fn undo(&mut self, current: Snapshot) -> (r: Option<Snapshot>)
        ensures
            (final(self)@, option_view(r)) == old(self)@.undone(current@),
    {
        if let Some(previous) = self.undo_stack.pop() {
            self.redo_stack.push(current);
            proof {
                assert(self@.undo =~= old(self)@.undo.drop_last());
                assert(self@.redo =~= old(self)@.redo.push(current@));
            }
            Some(previous)
        } else {
            None
        }
    }

    /// Redo: give back the most recently undone snapshot and keep `current`
    /// for undo.
    pub fn redo(&mut self, current: Snapshot) -> (r: Option<Snapshot>)
        ensures
            (final(self)@, option_view(r)) == old(self)@.redone(current@),
    {
        if let Some(next) = self.redo_stack.pop() {
            self.undo_stack.push(current);
            proof {
                assert(self@.redo =~= old(self)@.redo.drop_last());
                assert(self@.undo =~= old(self)@.undo.push(current@));
            }
            Some(next)
        } else {
            None
        }
    }

    /// Whether an undo step is available.
    pub fn can_undo(&self) -> (b: bool)
        ensures
            b == (self@.undo.len() > 0),
    {
        !self.undo_stack.is_empty()
    }

    /// Whether a redo step is available.
    pub fn can_redo(&self) -> (b: bool)
        ensures
            b == (self@.redo.len() > 0),
    {
        !self.redo_stack.is_empty()
    }

    /// Number of undo steps available.
    pub fn undo_count(&self) -> (n: usize)
        ensures
            n == self@.undo.len(),
    {
        self.undo_stack.len()
    }

    /// Number of redo steps available.
    pub fn redo_count(&self) -> (n: usize)
        ensures
            n == self@.redo.len(),
    {
        self.redo_stack.len()
    }

    /// Clear all history; the depth limit stays.
    pub fn clear(&mut self)
        ensures
            final(self)@.undo.len() == 0,
            final(self)@.redo.len() == 0,
            final(self)@.max_depth == old(self)@.max_depth,
    {
        self.undo_stack.clear();
        self.redo_stack.clear();
        proof {
            assert(self@.undo =~= Seq::<Seq<u8>>::empty());
            assert(self@.redo =~= Seq::<Seq<u8>>::empty());
        }
    }
}

impl Default for History {
    fn default() -> (h: Self)
        ensures
            h@.undo.len() == 0,
            h@.redo.len() == 0,
            h@.max_depth == 50,
    {
        Self::new()
    }
}

/// A new action always discards whatever could have been redone.
pub proof fn lemma_push_clears_redo(h: HistoryModel, snap: Seq<u8>)
    ensures
        h.pushed(snap).redo.len() == 0,
        h.pushed(snap).undo.len() > 0 <==> h.max_depth > 0,
        h.max_depth > 0 ==> h.pushed(snap).undo.last() == snap,
{
}

/// After a push the undo stack never holds more than the depth limit.
pub proof fn lemma_push_respects_depth(h: HistoryModel, snap: Seq<u8>)
    ensures
        h.pushed(snap).undo.len() <= h.max_depth,
        h.pushed(snap).undo.len() == if h.undo.len() + 1 <= h.max_depth {
            h.undo.len() + 1
        } else {
            h.max_depth
        },
{
}

/// Undoing and then redoing with the restored snapshot gives back the state
/// that was current, and the history exactly as it was.
pub proof fn lemma_undo_then_redo(h: HistoryModel, current: Seq<u8>)
    requires
        h.undo.len() > 0,
    ensures
        h.undone(current).1 == Some(h.undo.last()),
        h.undone(current).0.redone(h.undo.last()).1 == Some(current),
        h.undone(current).0.redone(h.undo.last()).0 == h,
{
    let h1 = h.undone(current).0;
    let h2 = h1.redone(h.undo.last()).0;
    assert(h2.undo =~= h.undo);
    assert(h2.redo =~= h.redo);
}

/// Redoing and then undoing with the restored snapshot gives back the state
/// that was current, and the history exactly as it was.
pub proof fn lemma_redo_then_undo(h: HistoryModel, current: Seq<u8>)
    requires
        h.redo.len() > 0,
    ensures
        h.redone(current).1 == Some(h.redo.last()),
        h.redone(current).0.undone(h.redo.last()).1 == Some(current),
        h.redone(current).0.undone(h.redo.last()).0 == h,
{
    let h1 = h.redone(current).0;
    let h2 = h1.undone(h.redo.last()).0;
    assert(h2.undo =~= h.undo);
    assert(h2.redo =~= h.redo);
}

/// With nothing recorded, undo and redo give nothing and change nothing.
pub proof fn lemma_empty_stacks_unchanged(h: HistoryModel, current: Seq<u8>)
    ensures
        h.undo.len() == 0 ==> h.undone(current) == (h, None::<Seq<u8>>),
        h.redo.len() == 0 ==> h.redone(current) == (h, None::<Seq<u8>>),
{
}

/// Undo and redo steps together never exceed the depth limit.
pub open spec fn within_depth(h: HistoryModel) -> bool {
    h.undo.len() + h.redo.len() <= h.max_depth
}

/// A new history, with any depth limit, is within that limit; recording,
/// undoing and redoing keep a history within its limit (clearing empties
/// both stacks), so every sequence of these calls does.
pub proof fn lemma_history_within_depth(h: HistoryModel, max_depth: nat, snap: Seq<u8>, current: Seq<u8>)
    requires
        within_depth(h),
    ensures
        within_depth(HistoryModel { undo: Seq::empty(), redo: Seq::empty(), max_depth }),
        within_depth(h.pushed(snap)),
        within_depth(h.undone(current).0),
        within_depth(h.redone(current).0),
{
}

} // verus!
