use core::sync::atomic::Ordering;
use portable_atomic::AtomicU16;
use vstd::prelude::*;

verus! {

#[verifier::external_type_specification]
#[verifier::external_body]
pub struct ExAtomicU16(AtomicU16);

/// Relies on portable_atomic::AtomicU16::new: an atomic holding `v`.
#[verifier::external_body]
fn atomic_new(v: u16) -> (r: AtomicU16) {
    AtomicU16::new(v)
}

/// Relies on portable_atomic::AtomicU16::swap: stores 0 and hands back what was there, which
/// other tasks may have changed at any moment before.
#[verifier::external_body]
fn atomic_take(a: &AtomicU16) -> (r: u16) {
    a.swap(0, Ordering::AcqRel)
}

/// Relies on portable_atomic::AtomicU16::load: what is stored now.
#[verifier::external_body]
fn atomic_load(a: &AtomicU16) -> (r: u16) {
    a.load(Ordering::Acquire)
}

/// Relies on portable_atomic::AtomicU16::bit_set: sets one bit of the stored value.
#[verifier::external_body]
fn atomic_bit_set(a: &AtomicU16, bit: u32)
    requires
        bit < 16,
{
    a.bit_set(bit, Ordering::AcqRel);
}

/// Relies on portable_atomic::AtomicU16::bit_clear: clears one bit of the stored value.
#[verifier::external_body]
fn atomic_bit_clear(a: &AtomicU16, bit: u32)
    requires
        bit < 16,
{
    a.bit_clear(bit, Ordering::AcqRel);
}

/// The most channels that one flag word can carry.
pub const MAX_CHANNELS: usize = 16;

/// Whether bit `channel` of `mask` is set.
pub open spec fn channel_bit(mask: u16, channel: nat) -> bool {
    (mask >> (channel as u16)) & 1u16 == 1u16
}

/// Reads bit `channel` of a flag word.
pub fn mask_bit(mask: u16, channel: usize) -> (r: bool)
    requires
        channel < MAX_CHANNELS,
    ensures
        r == channel_bit(mask, channel as nat),
{
    (mask >> (channel as u16)) & 1u16 == 1u16
}

/// The flags that cross between tasks, one bit per channel: limit switches that fired since
/// the last tick, and channels whose motor turns the other way.
pub struct SharedFlags {
    endstops: AtomicU16,
    reversals: AtomicU16,
}

impl SharedFlags {
    pub fn new() -> (r: Self) {
        SharedFlags { endstops: atomic_new(0), reversals: atomic_new(0) }
    }

    /// Called by a limit-switch task when the switch of `channel` closes.
    pub fn signal_endstop(&self, channel: u8)
        requires
            channel < MAX_CHANNELS,
    {
        atomic_bit_set(&self.endstops, channel as u32);
    }

    /// Takes the limit-switch bits gathered since the last call, leaving none.
    pub fn take_endstops(&self) -> (r: u16) {
        atomic_take(&self.endstops)
    }

    /// Records whether the motor of `channel` runs reversed.
    pub fn set_reversed(&self, channel: u8, reversed: bool)
        requires
            channel < MAX_CHANNELS,
    {
        if reversed {
            atomic_bit_set(&self.reversals, channel as u32);
        } else {
            atomic_bit_clear(&self.reversals, channel as u32);
        }
    }

    /// The reversal bits of all channels.
    pub fn reversals(&self) -> (r: u16) {
        atomic_load(&self.reversals)
    }
}

} // verus!
