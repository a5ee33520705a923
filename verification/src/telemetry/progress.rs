//! How much of a dump file has been read.

use vstd::prelude::*;

verus! {

/// Progress is reported at most once per this many bytes.
pub const PROGRESS_REPORT_STEP: u64 = 8388608;

/// A part of a whole.
#[derive(Debug, Clone, Copy, PartialEq, Eq, Structural)]
pub struct Fraction {
    pub part: u64,
    pub whole: u64,
}

/// The fraction of a file that was read: none of it where its size is zero.
pub open spec fn fraction(read: u64, total: u64) -> Fraction {
    if total == 0 {
        Fraction { part: 0, whole: 1 }
    } else {
        Fraction { part: read, whole: total }
    }
}

/// A fraction kept between zero and one: zero where there is no whole, and one where the part
/// exceeds it.
pub open spec fn clamped(ratio: Fraction) -> Fraction {
    if ratio.whole == 0 {
        Fraction { part: 0, whole: 1 }
    } else if ratio.part > ratio.whole {
        Fraction { part: ratio.whole, whole: ratio.whole }
    } else {
        ratio
    }
}

impl Fraction {
    /// This fraction, kept between zero and one.
    pub fn in_bounds(self) -> (kept: Fraction)
        ensures
            kept == clamped(self),
    {
        if self.whole == 0 {
            Fraction { part: 0, whole: 1 }
        } else if self.part > self.whole {
            Fraction { part: self.whole, whole: self.whole }
        } else {
            self
        }
    }
}

/// A reader together with how much of it was read.
#[derive(Debug)]
pub struct ProgressReader<R> {
    pub inner: R,
    pub entity: &'static str,
    pub total: u64,
    pub read: u64,
    pub reported_at: u64,
}

/// Wrap a reader of a file of `total` bytes.
pub fn progress_reader<R>(inner: R, total: u64, entity: &'static str) -> (reader: ProgressReader<R>)
    ensures
        reader == (ProgressReader { inner, entity, total, read: 0, reported_at: 0 }),
{
    ProgressReader { inner, entity, total, read: 0, reported_at: 0 }
}

impl<R> ProgressReader<R> {
    /// The fraction that was read.
    pub fn ratio(&self) -> (ratio: Fraction)
        ensures
            ratio == fraction(self.read, self.total),
    {
        if self.total == 0 {
            Fraction { part: 0, whole: 1 }
        } else {
            Fraction { part: self.read, whole: self.total }
        }
    }

    /// Count `n` more bytes, and give the fraction to report where enough were read since the
    /// last report.
    pub fn advance(&mut self, n: u64) -> (report: Option<Fraction>)
        requires
            old(self).read + n <= u64::MAX,
            old(self).reported_at <= old(self).read,
        ensures
            final(self).read == old(self).read + n,
            final(self).inner == old(self).inner,
            final(self).entity == old(self).entity,
            final(self).total == old(self).total,
            final(self).reported_at <= final(self).read,
            report is Some <==> final(self).read - old(self).reported_at >= PROGRESS_REPORT_STEP,
            report matches Some(ratio) ==> ratio == fraction(final(self).read, final(self).total),
            final(self).reported_at == if report is Some {
                final(self).read
            } else {
                old(self).reported_at
            },
    {
        self.read = self.read + n;
        if self.read - self.reported_at >= PROGRESS_REPORT_STEP {
            self.reported_at = self.read;
            Some(self.ratio())
        } else {
            None
        }
    }
}

/// A fraction that is kept in its bounds lies between zero and one.
pub proof fn a_fraction_is_at_most_one(ratio: Fraction)
    ensures
        clamped(ratio).part <= clamped(ratio).whole,
        clamped(ratio).whole > 0,
        clamped(clamped(ratio)) == clamped(ratio),
{
}

/// Once a whole file was read, its fraction is one.
pub proof fn a_whole_file_is_one(read: u64, total: u64)
    requires
        0 < total <= read,
    ensures
        clamped(fraction(read, total)) == (Fraction { part: total, whole: total }),
{
}

/// Reading on never lowers the fraction of a file.
pub proof fn reading_on_never_lowers_the_fraction(read: u64, more: u64, total: u64)
    requires
        read <= more,
    ensures
        clamped(fraction(read, total)).whole == clamped(fraction(more, total)).whole,
        clamped(fraction(read, total)).part <= clamped(fraction(more, total)).part,
{
}

/// The fraction of a file is what was read of its size, as it stands, and zero where there is
/// no size; what lies in its bounds is kept as it is.
pub proof fn a_fraction_is_what_was_read(read: u64, total: u64)
    ensures
        total > 0 ==> fraction(read, total).part == read && fraction(read, total).whole == total,
        total == 0 ==> fraction(read, total).part == 0 && fraction(read, total).whole > 0,
        0 < total && read <= total ==> clamped(fraction(read, total)) == fraction(read, total),
        clamped(Fraction { part: read, whole: 0 }).part == 0,
{
}

} // verus!
