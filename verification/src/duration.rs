use vstd::prelude::*;

verus! {

pub const NANOS_PER_SEC: u64 = 1_000_000_000;

/// A span of media time, counted in nanoseconds.
#[derive(Clone, Copy, Debug, PartialEq, Eq, Structural)]
pub struct Duration(u64);

impl View for Duration {
    type V = u64;

    closed spec fn view(&self) -> u64 {
        self.0
    }
}

impl Duration {
    pub fn from_nanos(nanos: u64) -> (r: Self)
        ensures
            r@ == nanos,
    {
        Duration(nanos)
    }

    pub fn from_secs(secs: u64) -> (r: Self)
        requires
            secs * NANOS_PER_SEC <= u64::MAX,
        ensures
            r@ == secs * NANOS_PER_SEC,
    {
        Duration(secs * NANOS_PER_SEC)
    }

    pub fn as_u64(self) -> (r: u64)
        ensures
            r == self@,
    {
        self.0
    }

    pub fn as_i64(self) -> (r: i64)
        requires
            self@ <= i64::MAX,
        ensures
            r == self@,
    {
        self.0 as i64
    }

    /// Scalar multiply.
    pub fn mul_scalar(self, rhs: u64) -> (r: Self)
        requires
            self@ * rhs <= u64::MAX,
        ensures
            r@ == self@ * rhs,
    {
        Duration(self.0 * rhs)
    }

    /// Scalar divide.
    pub fn div_scalar(self, rhs: u64) -> (r: Self)
        requires
            rhs != 0,
        ensures
            r@ == self@ / rhs,
    {
        Duration(self.0 / rhs)
    }

    /// Duration-by-duration divide: how many times `rhs` fits in `self`.
    pub fn div_duration(self, rhs: Duration) -> (r: Self)
        requires
            rhs@ != 0,
        ensures
            r@ == self@ / rhs@,
    {
        Duration(self.0 / rhs.0)
    }
}

impl Default for Duration {
    fn default() -> (r: Self)
        ensures
            r@ == 0,
    {
        Duration(0)
    }
}

} // verus!
