//! A double buffer: one slot is live for reading and writing, the other is
//! held in reserve until the switch is thrown.

use vstd::prelude::*;

verus! {

#[derive(Debug, Clone, Copy, PartialEq, Eq, Structural)]
enum TransferSwitchPosition {
    A,
    B,
}

/// Two slots of which one, selected by the switch, is live.
#[derive(Debug, Clone)]
pub struct TransferSwitch<T> {
    a: T,
    b: T,
    ptr: TransferSwitchPosition,
}

impl<T> TransferSwitch<T> {
    /// The live slot.
    pub closed spec fn live(&self) -> T {
        match self.ptr {
            TransferSwitchPosition::A => self.a,
            TransferSwitchPosition::B => self.b,
        }
    }

    /// The reserve slot.
    pub closed spec fn reserve(&self) -> T {
        match self.ptr {
            TransferSwitchPosition::A => self.b,
            TransferSwitchPosition::B => self.a,
        }
    }

    /// The state after throwing the switch.
    pub closed spec fn switched(&self) -> Self {
        TransferSwitch {
            a: self.a,
            b: self.b,
            ptr: match self.ptr {
                TransferSwitchPosition::A => TransferSwitchPosition::B,
                TransferSwitchPosition::B => TransferSwitchPosition::A,
            },
        }
    }

    /// The state after writing `v` into the live slot.
    pub closed spec fn written(&self, v: T) -> Self {
        match self.ptr {
            TransferSwitchPosition::A => TransferSwitch { a: v, b: self.b, ptr: self.ptr },
            TransferSwitchPosition::B => TransferSwitch { a: self.a, b: v, ptr: self.ptr },
        }
    }

    /// Slot `a` is live and holds `a`; slot `b` is in reserve and holds `b`.
    pub fn new(a: T, b: T) -> (r: Self)
        ensures
            r.live() == a,
            r.reserve() == b,
    {
        TransferSwitch { a, b, ptr: TransferSwitchPosition::A }
    }

    /// Throws the switch: the reserve slot becomes live and the live one
    /// goes into reserve.
    pub fn switch(&mut self)
        ensures
            *final(self) == old(self).switched(),
            final(self).live() == old(self).reserve(),
            final(self).reserve() == old(self).live(),
    {
        self.ptr = match self.ptr {
            TransferSwitchPosition::A => TransferSwitchPosition::B,
            TransferSwitchPosition::B => TransferSwitchPosition::A,
        };
    }

    /// The live slot.
    pub fn read(&self) -> (r: &T)
        ensures
            *r == self.live(),
    {
        match self.ptr {
            TransferSwitchPosition::A => &self.a,
            TransferSwitchPosition::B => &self.b,
        }
    }

    /// Replaces the value in the live slot.
    pub fn write(&mut self, value: T)
        ensures
            *final(self) == old(self).written(value),
            final(self).live() == value,
            final(self).reserve() == old(self).reserve(),
    {
        match self.ptr {
            TransferSwitchPosition::A => self.a = value,
            TransferSwitchPosition::B => self.b = value,
        }
    }
}

/// A read after a write gives the value written.
pub proof fn law_read_after_write<T>(s: TransferSwitch<T>, v: T)
    ensures
        s.written(v).live() == v,
{
}

/// Throwing the switch twice restores the state.
pub proof fn law_switch_twice<T>(s: TransferSwitch<T>)
    ensures
        s.switched().switched() == s,
{
}

/// A write leaves the reserve slot as it was: after throwing the switch the
/// value read is the one held in reserve before the write.
pub proof fn law_write_spares_reserve<T>(s: TransferSwitch<T>, v: T)
    ensures
        s.written(v).switched().live() == s.reserve(),
        s.written(v).reserve() == s.reserve(),
{
}

/// A second write replaces the first.
pub proof fn law_write_twice<T>(s: TransferSwitch<T>, v: T, w: T)
    ensures
        s.written(v).written(w) == s.written(w),
{
}

/// The state after throwing the switch `k` times.
pub open spec fn switched_times<T>(s: TransferSwitch<T>, k: nat) -> TransferSwitch<T>
    decreases k,
{
    if k == 0 { s } else { switched_times(s, (k - 1) as nat).switched() }
}

/// After `k` throws of the switch and no write, the live slot is the one
/// live at the start when `k` is even and the one in reserve when it is odd.
pub proof fn law_switch_parity<T>(s: TransferSwitch<T>, k: nat)
    ensures
        switched_times(s, k).live() == if k % 2 == 0 { s.live() } else { s.reserve() },
        switched_times(s, k).reserve() == if k % 2 == 0 { s.reserve() } else { s.live() },
    decreases k,
{
    if k > 0 {
        law_switch_parity(s, (k - 1) as nat);
    }
}

} // verus!
