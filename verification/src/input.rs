//! Shared input state between the event-collecting thread and the render
//! thread.
//!
//! The event thread records key-down and key-up events into a set of
//! currently pressed keys (duplicate key-downs are idempotent, a key-up for
//! an absent key is a no-op, so lost or reordered events are tolerated),
//! and accumulates relative mouse motion. Once per frame the render thread
//! snapshots the pressed keys and consumes the accumulated mouse delta,
//! resetting it to zero.

use vstd::prelude::*;

verus! {

/// The keys the renderer reacts to. Everything else is dropped by the
/// event-translation layer before it reaches this state.
#[derive(Clone, Copy, PartialEq, Eq, Structural, Debug)]
pub enum Key {
    /// Move up.
    Space,
    /// Move down.
    LShift,
    /// Move forward.
    KeyW,
    /// Move left.
    KeyA,
    /// Move backward.
    KeyS,
    /// Move right.
    KeyD,
    /// Pitch up.
    ArrowUp,
    /// Pitch down.
    ArrowDown,
    /// Yaw left.
    ArrowLeft,
    /// Yaw right.
    ArrowRight,
    /// Quit.
    Escape,
    /// Quit.
    KeyQ,
}

/// The keys that request immediate shutdown, bypassing the pressed-key
/// set entirely.
pub open spec fn is_quit_key(k: Key) -> bool {
    k == Key::Escape || k == Key::KeyQ
}

/// Set-semantics insert: unchanged when the key is already down, appended
/// at the end when it is not.
pub open spec fn spec_key_down(s: Seq<Key>, k: Key) -> Seq<Key> {
    if s.contains(k) {
        s
    } else {
        s.push(k)
    }
}

/// Removal of the first (with no duplicates: the only) occurrence; a no-op
/// when the key is not down.
pub open spec fn spec_key_up(s: Seq<Key>, k: Key) -> Seq<Key> {
    s.remove_value(k)
}

/// No key occurs twice.
pub open spec fn no_dups(s: Seq<Key>) -> bool {
    forall|n1: int, n2: int| 0 <= n1 < n2 < s.len() ==> s[n1] != s[n2]
}

/// 64-bit saturating addition.
pub open spec fn sat_add_model(a: int, b: int) -> int {
    if a + b > i64::MAX {
        i64::MAX as int
    } else if a + b < i64::MIN {
        i64::MIN as int
    } else {
        a + b
    }
}

/// Saturating addition on `i64`, total.
pub fn sat_add(a: i64, b: i64) -> (r: i64)
    ensures
        r as int == sat_add_model(a as int, b as int),
{
    if b >= 0 {
        if a > i64::MAX - b {
            i64::MAX
        } else {
            a + b
        }
    } else {
        if a < i64::MIN - b {
            i64::MIN
        } else {
            a + b
        }
    }
}

/// Pushing an element makes it contained and keeps everything else.
proof fn lemma_push_contains(s: Seq<Key>, k: Key, x: Key)
    ensures
        s.push(k).contains(x) == (s.contains(x) || x == k),
{
    if s.contains(x) {
        let n = choose|n: int| 0 <= n < s.len() && s[n] == x;
        assert(s.push(k)[n] == x);
    }
    if x == k {
        assert(s.push(k)[s.len() as int] == x);
    }
    if s.push(k).contains(x) && x != k {
        let n = choose|n: int| 0 <= n < s.push(k).len() && s.push(k)[n] == x;
        assert(s[n] == x);
    }
}

/// With no duplicates, removing a key's occurrence removes exactly that
/// key from the contained set and keeps the sequence duplicate-free.
proof fn lemma_remove_value_contains(s: Seq<Key>, k: Key)
    requires
        no_dups(s),
    ensures
        forall|x: Key| #[trigger]
            s.remove_value(k).contains(x) == (s.contains(x) && x != k),
        no_dups(s.remove_value(k)),
{
    s.index_of_first_ensures(k);
    if s.contains(k) {
        let i = s.index_of_first(k)->Some_0;
        let r = s.remove(i);
        s.remove_ensures(i);
        assert forall|x: Key| #[trigger] r.contains(x) == (s.contains(x) && x != k) by {
            if r.contains(x) {
                let n = choose|n: int| 0 <= n < r.len() && r[n] == x;
                if n < i {
                    assert(s[n] == x);
                    assert(s[n] != s[i]);
                } else {
                    assert(s[n + 1] == x);
                    assert(s[n + 1] != s[i]);
                }
            }
            if s.contains(x) && x != k {
                let n = choose|n: int| 0 <= n < s.len() && s[n] == x;
                if n < i {
                    assert(r[n] == x);
                } else {
                    assert(n != i);
                    assert(r[n - 1] == s[n]);
                }
            }
        }
        assert forall|n1: int, n2: int| 0 <= n1 < n2 < r.len() implies r[n1] != r[n2] by {
            let m1: int = if n1 < i {
                n1
            } else {
                n1 + 1
            };
            let m2: int = if n2 < i {
                n2
            } else {
                n2 + 1
            };
            assert(r[n1] == s[m1]);
            assert(r[n2] == s[m2]);
        }
    }
}

/// Shared input state: the set of currently pressed keys (kept as a
/// duplicate-free vector) and the accumulated mouse delta in fixed point.
#[derive(Debug)]
pub struct InputState {
    pub pressed_keys: Vec<Key>,
    pub mouse_dx: i64,
    pub mouse_dy: i64,
}

impl InputState {
    /// The pressed-keys vector holds no duplicates, so it represents a set.
    pub open spec fn wf(&self) -> bool {
        no_dups(self.pressed_keys@)
    }

    /// The set of currently pressed keys.
    pub open spec fn key_set(&self) -> Set<Key> {
        Set::new(|k: Key| self.pressed_keys@.contains(k))
    }

    /// Fresh state: no key down, no accumulated motion.
    pub fn new() -> (s: InputState)
        ensures
            s.pressed_keys@.len() == 0,
            s.mouse_dx == 0,
            s.mouse_dy == 0,
            s.wf(),
    {
        InputState { pressed_keys: Vec::new(), mouse_dx: 0, mouse_dy: 0 }
    }

    /// Whether `k` is currently down.
    pub fn is_pressed(&self, k: Key) -> (b: bool)
        ensures
            b == self.pressed_keys@.contains(k),
    {
        let mut n: usize = 0;
        while n < self.pressed_keys.len()
            invariant
                0 <= n <= self.pressed_keys@.len(),
                forall|m: int| 0 <= m < n ==> self.pressed_keys@[m] != k,
            decreases self.pressed_keys@.len() - n,
        {
            if self.pressed_keys[n] == k {
                assert(self.pressed_keys@[n as int] == k);
                return true;
            }
            n = n + 1;
        }
        false
    }

    /// Record a key-down event: set-semantics insert, so repeated
    /// key-downs for an already-pressed key change nothing.
    pub fn key_down(&mut self, k: Key)
        requires
            old(self).wf(),
        ensures
            final(self).pressed_keys@ == spec_key_down(old(self).pressed_keys@, k),
            final(self).key_set() == old(self).key_set().insert(k),
            final(self).wf(),
            final(self).mouse_dx == old(self).mouse_dx,
            final(self).mouse_dy == old(self).mouse_dy,
    {
        let ghost s0 = self.pressed_keys@;
        if !self.is_pressed(k) {
            self.pressed_keys.push(k);
        }
        proof {
            assert forall|x: Key| #[trigger]
                self.pressed_keys@.contains(x) == (s0.contains(x) || x == k) by {
                lemma_push_contains(s0, k, x);
            }
            assert(self.key_set() =~= old(self).key_set().insert(k));
            if !s0.contains(k) {
                assert forall|n1: int, n2: int|
                    0 <= n1 < n2 < self.pressed_keys@.len() implies self.pressed_keys@[n1]
                    != self.pressed_keys@[n2] by {
                    if n2 == s0.len() {
                        assert(s0[n1] == self.pressed_keys@[n1]);
                        assert(s0.contains(s0[n1]));
                    }
                }
            }
        }
    }

    /// Record a key-up event: remove the key if present; a key-up for a
    /// key that is not down is a no-op, tolerating lost events.
    pub fn key_up(&mut self, k: Key)
        requires
            old(self).wf(),
        ensures
            final(self).pressed_keys@ == spec_key_up(old(self).pressed_keys@, k),
            final(self).key_set() == old(self).key_set().remove(k),
            final(self).wf(),
            final(self).mouse_dx == old(self).mouse_dx,
            final(self).mouse_dy == old(self).mouse_dy,
    {
        let ghost s0 = self.pressed_keys@;
        let mut n: usize = 0;
        let len = self.pressed_keys.len();
        while n < len
            invariant
                old(self) == self,
                s0 == self.pressed_keys@,
                no_dups(s0),
                len == s0.len(),
                0 <= n <= len,
                forall|m: int| 0 <= m < n ==> s0[m] != k,
            decreases len - n,
        {
            if self.pressed_keys[n] == k {
                proof {
                    assert(s0[n as int] == k);
                    s0.index_of_first_ensures(k);
                    lemma_remove_value_contains(s0, k);
                    let i0 = s0.index_of_first(k)->Some_0;
                    assert(i0 == n as int) by {
                        if i0 < n as int {
                            assert(s0[i0] != k);
                        }
                    }
                }
                self.pressed_keys.remove(n);
                proof {
                    assert(self.pressed_keys@ == s0.remove_value(k));
                    assert(self.key_set() =~= old(self).key_set().remove(k));
                }
                return ;
            }
            n = n + 1;
        }
        proof {
            assert(!s0.contains(k));
            s0.index_of_first_ensures(k);
            lemma_remove_value_contains(s0, k);
            assert(self.pressed_keys@ == s0.remove_value(k));
            assert(self.key_set() =~= old(self).key_set().remove(k));
        }
    }

    /// Accumulate a mouse-motion event into the delta (never overwrite),
    /// saturating at the extremes of the representable range.
    pub fn accumulate_mouse(&mut self, dx: i64, dy: i64)
        requires
            old(self).wf(),
        ensures
            final(self).mouse_dx as int == sat_add_model(old(self).mouse_dx as int, dx as int),
            final(self).mouse_dy as int == sat_add_model(old(self).mouse_dy as int, dy as int),
            final(self).pressed_keys == old(self).pressed_keys,
            final(self).wf(),
    {
        self.mouse_dx = sat_add(self.mouse_dx, dx);
        self.mouse_dy = sat_add(self.mouse_dy, dy);
    }

    /// Consume the accumulated mouse delta: return it and reset the
    /// accumulator to zero, as one atomic step on this state.
    pub fn consume_mouse(&mut self) -> (d: (i64, i64))
        requires
            old(self).wf(),
        ensures
            d.0 == old(self).mouse_dx,
            d.1 == old(self).mouse_dy,
            final(self).mouse_dx == 0,
            final(self).mouse_dy == 0,
            final(self).pressed_keys == old(self).pressed_keys,
            final(self).wf(),
    {
        let d = (self.mouse_dx, self.mouse_dy);
        self.mouse_dx = 0;
        self.mouse_dy = 0;
        d
    }

    /// Snapshot of the pressed keys, for one frame's input consumption.
    pub fn pressed_snapshot(&self) -> (v: Vec<Key>)
        ensures
            v@ == self.pressed_keys@,
    {
        let mut v: Vec<Key> = Vec::new();
        let mut n: usize = 0;
        while n < self.pressed_keys.len()
            invariant
                0 <= n <= self.pressed_keys@.len(),
                v@ == self.pressed_keys@.subrange(0, n as int),
            decreases self.pressed_keys@.len() - n,
        {
            v.push(self.pressed_keys[n]);
            proof {
                assert(v@ =~= self.pressed_keys@.subrange(0, n as int + 1));
            }
            n = n + 1;
        }
        proof {
            assert(v@ =~= self.pressed_keys@);
        }
        v
    }
}

/// Law: a key-down for an already-pressed key leaves the pressed keys
/// unchanged, so repeated key-downs are idempotent.
pub proof fn lemma_key_down_idempotent(s: Seq<Key>, k: Key)
    ensures
        spec_key_down(spec_key_down(s, k), k) == spec_key_down(s, k),
        s.contains(k) ==> spec_key_down(s, k) == s,
{
    lemma_push_contains(s, k, k);
}

/// Law: a key-up for a key that is not pressed changes nothing.
pub proof fn lemma_key_up_absent_noop(s: Seq<Key>, k: Key)
    requires
        !s.contains(k),
    ensures
        spec_key_up(s, k) == s,
{
    s.index_of_first_ensures(k);
}

} // verus!
