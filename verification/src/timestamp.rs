use vstd::prelude::*;

use crate::duration::Duration;

verus! {

/// A playback position, counted in nanoseconds from the start of the media.
///
/// Never negative: signed engine positions are clamped to zero on conversion.
#[derive(Clone, Copy, Debug, PartialEq, Eq, Structural)]
pub struct Timestamp(u64);

impl View for Timestamp {
    type V = u64;

    closed spec fn view(&self) -> u64 {
        self.0
    }
}

impl Timestamp {
    pub fn new(value: u64) -> (r: Self)
        ensures
            r@ == value,
    {
        Timestamp(value)
    }

    /// Converts a signed engine position, clamping negative values to zero.
    pub fn from_signed(value: i64) -> (r: Self)
        ensures
            r@ == if value >= 0 {
                value as u64
            } else {
                0u64
            },
    {
        if value >= 0 {
            Timestamp(value as u64)
        } else {
            Timestamp(0)
        }
    }

    /// This position split into the units people read.
    pub fn for_humans(self) -> (r: crate::timestamp_4_humans::Timestamp)
        ensures
            r == crate::timestamp_4_humans::from_nano_spec(self@),
    {
        crate::timestamp_4_humans::Timestamp::from_nano(self.as_u64())
    }

    pub fn from_duration(duration: Duration) -> (r: Self)
        ensures
            r@ == duration@,
    {
        Timestamp(duration.as_u64())
    }

    pub fn as_u64(self) -> (r: u64)
        ensures
            r == self@,
    {
        self.0
    }

    pub fn saturating_sub(self, rhs: Duration) -> (r: Self)
        ensures
            r@ == if self@ >= rhs@ {
                (self@ - rhs@) as u64
            } else {
                0u64
            },
    {
        if self.0 >= rhs.as_u64() {
            Timestamp(self.0 - rhs.as_u64())
        } else {
            Timestamp(0)
        }
    }

    pub fn add_duration(self, rhs: Duration) -> (r: Self)
        requires
            self@ + rhs@ <= u64::MAX,
        ensures
            r@ == self@ + rhs@,
    {
        Timestamp(self.0 + rhs.as_u64())
    }

    pub fn sub_duration(self, rhs: Duration) -> (r: Self)
        requires
            self@ >= rhs@,
        ensures
            r@ == self@ - rhs@,
    {
        Timestamp(self.0 - rhs.as_u64())
    }

    /// The span separating two positions, the later one first.
    pub fn duration_since(self, rhs: Timestamp) -> (r: Duration)
        requires
            self@ >= rhs@,
        ensures
            r@ == self@ - rhs@,
    {
        Duration::from_nanos(self.0 - rhs.0)
    }
}

impl Default for Timestamp {
    fn default() -> (r: Self)
        ensures
            r@ == 0,
    {
        Timestamp(0)
    }
}

} // verus!
