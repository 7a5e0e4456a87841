//! Fixed-capacity ring buffer of audio frames. New frames overwrite the
//! oldest; the renderer draws the waveform from what it holds.

use vstd::prelude::*;

verus! {

/// A ring buffer holding the last `capacity` frames pushed.
pub struct FrameRing<T> {
    buf: Vec<Option<T>>,
    head: usize,
    len: usize,
    frames: Ghost<Seq<T>>,
}

/// Where the `i`-th held frame lies in a buffer of `cap` slots whose oldest
/// frame is at `start`.
pub open spec fn slot(start: int, i: int, cap: int) -> int {
    if start + i < cap {
        start + i
    } else {
        start + i - cap
    }
}

/// The slot of the oldest frame.
pub open spec fn start_of(head: int, len: int, cap: int) -> int {
    if head >= len {
        head - len
    } else {
        head + cap - len
    }
}

/// The frames held after `f` is pushed onto `frames` in a ring of `cap`:
/// the oldest is dropped when the ring is full.
pub open spec fn pushed<T>(frames: Seq<T>, f: T, cap: nat) -> Seq<T> {
    if frames.len() < cap {
        frames.push(f)
    } else {
        frames.drop_first().push(f)
    }
}

impl<T> FrameRing<T> {
    /// The frames held, oldest first.
    pub closed spec fn view(&self) -> Seq<T> {
        self.frames@
    }

    /// The number of frames the ring holds at most.
    pub closed spec fn cap(&self) -> nat {
        self.buf@.len()
    }

    /// The buffer's slots hold the frames, oldest first, ending just before
    /// `head`.
    pub closed spec fn wf(&self) -> bool {
        let cap = self.buf@.len() as int;
        &&& self.len <= cap
        &&& self.frames@.len() == self.len
        &&& cap > 0 ==> self.head < cap
        &&& cap == 0 ==> self.head == 0
        &&& forall|i: int|
            0 <= i < self.len ==> #[trigger] self.buf@[slot(
                start_of(self.head as int, self.len as int, cap),
                i,
                cap,
            )] == Some(self.frames@[i])
    }

}

impl<T: Copy> FrameRing<T> {
    /// An empty ring of `capacity` slots.
    pub fn new(capacity: usize) -> (r: Self)
        ensures
            r.wf(),
            r.view() == Seq::<T>::empty(),
            r.cap() == capacity,
    {
        let mut buf: Vec<Option<T>> = Vec::new();
        let mut i: usize = 0;
        while i < capacity
            invariant
                i <= capacity,
                buf@.len() == i,
            decreases capacity - i,
        {
            buf.push(None);
            i = i + 1;
        }
        FrameRing { buf, head: 0, len: 0, frames: Ghost(Seq::empty()) }
    }

    /// The number of slots.
    pub fn capacity(&self) -> (r: usize)
        ensures
            r == self.cap(),
    {
        self.buf.len()
    }

    /// Pushes a frame, overwriting the oldest when the ring is full.
    pub fn push(&mut self, frame: T)
        requires
            old(self).wf(),
            old(self).cap() > 0,
        ensures
            final(self).wf(),
            final(self).cap() == old(self).cap(),
            final(self).view() == pushed(old(self).view(), frame, old(self).cap()),
    {
        let cap = self.buf.len();
        let ghost old_frames = self.frames@;
        let ghost old_buf = self.buf@;
        let ghost old_head = self.head as int;
        let ghost old_len = self.len as int;
        let ghost start = start_of(old_head, old_len, cap as int);
        self.buf.set(self.head, Some(frame));
        let new_head = if self.head + 1 == cap {
            0
        } else {
            self.head + 1
        };
        if self.len < cap {
            self.len = self.len + 1;
            self.frames = Ghost(old_frames.push(frame));
        } else {
            self.frames = Ghost(old_frames.drop_first().push(frame));
        }
        self.head = new_head;
        proof {
            let new_start = start_of(self.head as int, self.len as int, cap as int);
            assert forall|i: int| 0 <= i < self.len implies #[trigger] self.buf@[slot(
                new_start,
                i,
                cap as int,
            )] == Some(self.frames@[i]) by {
                if old_len < cap {
                    assert(new_start == start);
                    if i < old_len {
                        assert(slot(start, i, cap as int) != old_head);
                        assert(old_buf[slot(start, i, cap as int)] == Some(old_frames[i]));
                    }
                } else {
                    if i < old_len - 1 {
                        assert(slot(new_start, i, cap as int) == slot(start, i + 1, cap as int));
                        assert(slot(start, i + 1, cap as int) != old_head);
                        assert(old_buf[slot(start, i + 1, cap as int)] == Some(old_frames[i + 1]));
                    }
                }
            }
        }
    }

    /// The newest frame, if any.
    pub fn latest(&self) -> (r: Option<T>)
        requires
            self.wf(),
        ensures
            r == (if self.view().len() == 0 {
                None
            } else {
                Some(self.view().last())
            }),
    {
        if self.len == 0 {
            return None;
        }
        let cap = self.buf.len();
        let idx = if self.head == 0 {
            cap - 1
        } else {
            self.head - 1
        };
        proof {
            let start = start_of(self.head as int, self.len as int, cap as int);
            assert(slot(start, self.len - 1, cap as int) == idx);
        }
        self.buf[idx]
    }

    /// The number of frames held.
    pub fn len(&self) -> (r: usize)
        requires
            self.wf(),
        ensures
            r == self.view().len(),
            r <= self.cap(),
    {
        self.len
    }
}

/// After a push the newest frame is the one pushed, and the ring holds one
/// more frame, up to its capacity.
pub proof fn law_push_latest<T>(frames: Seq<T>, f: T, cap: nat)
    requires
        cap > 0,
        frames.len() <= cap,
    ensures
        pushed(frames, f, cap).last() == f,
        pushed(frames, f, cap).len() == (if frames.len() < cap {
            frames.len() + 1int
        } else {
            cap as int
        }),
{
}

/// A ring of capacity `cap` that has had the frames `fs` pushed, one after
/// another, into an empty ring holds the last `min(fs.len(), cap)` of them.
pub open spec fn pushed_all<T>(fs: Seq<T>, cap: nat) -> Seq<T>
    decreases fs.len(),
{
    if fs.len() == 0 {
        Seq::empty()
    } else {
        pushed(pushed_all(fs.drop_last(), cap), fs.last(), cap)
    }
}

/// Pushing frames into an empty ring keeps exactly the most recent
/// `capacity` of them, in order.
pub proof fn law_keeps_latest_within_capacity<T>(fs: Seq<T>, cap: nat)
    requires
        cap > 0,
    ensures
        pushed_all(fs, cap) == fs.skip(
            (if fs.len() > cap {
                fs.len() - cap
            } else {
                0
            }),
        ),
    decreases fs.len(),
{
    if fs.len() > 0 {
        law_keeps_latest_within_capacity(fs.drop_last(), cap);
        let p = fs.drop_last();
        let k: int = if p.len() > cap {
            p.len() - cap
        } else {
            0
        };
        let k2: int = if fs.len() > cap {
            fs.len() - cap
        } else {
            0
        };
        if p.skip(k).len() < cap {
            assert(p.skip(k).push(fs.last()) =~= fs.skip(k2));
        } else {
            assert(p.skip(k).drop_first().push(fs.last()) =~= fs.skip(k2));
        }
    } else {
        assert(fs.skip(0) =~= fs);
    }
}

} // verus!
