//! The value-frequency histograms that the aggregator fills, kept in an
//! `hdrhistogram::Histogram<u64>` inside `Hdr`. Verus does not take a
//! declaration of that generic type (its parameter is bound by an outside
//! trait), so `Hdr` holds it in a private field and is opaque to proofs.
//!
//! What a histogram holds is named by `hdr_values`: the multiset of every
//! value recorded into it. Every query of the crate is a function of that
//! multiset for a histogram made by `Histogram::new(HDR_SIGFIG)` (lowest
//! discernible value 1, auto-resizing), which is the only way this library
//! makes one; its results are named below, with the facts that callers need.

use vstd::prelude::*;
use vstd::multiset::Multiset;
use hdrhistogram::Histogram;

verus! {

/// Significant decimal digits that every histogram of the library keeps.
pub const HDR_SIGFIG: u8 = 5;

/// Values below this bound (2^18) each have a bin of their own in a
/// histogram of `HDR_SIGFIG` digits and lowest discernible value 1.
pub const HDR_EXACT_LIMIT: u64 = 262144;

/// Whether every value of `m` is below `HDR_EXACT_LIMIT`.
pub open spec fn all_exact(m: Multiset<u64>) -> bool {
    forall|v: u64| #[trigger] m.count(v) > 0 ==> v < HDR_EXACT_LIMIT
}

/// Whether `x` is the largest value of `m`.
pub open spec fn is_max_of(m: Multiset<u64>, x: u64) -> bool {
    m.count(x) > 0 && forall|v: u64| #[trigger] m.count(v) > 0 ==> v <= x
}

/// A histogram of `u64` values, made only by `hdr_new`.
#[verifier::external_body]
pub struct Hdr {
    h: Histogram<u64>,
}

/// The multiset of the values recorded into `h`.
pub uninterp spec fn hdr_values(h: Hdr) -> Multiset<u64>;

/// `Histogram::max` of a histogram made with `HDR_SIGFIG` digits that holds `m`.
pub uninterp spec fn hdr_max(m: Multiset<u64>) -> u64;

/// `Histogram::mean`, truncated to an integer, of a histogram made with
/// `HDR_SIGFIG` digits that holds `m`.
pub uninterp spec fn hdr_mean(m: Multiset<u64>) -> u64;

/// `Histogram::value_at_percentile(p)` of a histogram made with `HDR_SIGFIG`
/// digits that holds `m`.
pub uninterp spec fn hdr_value_at_percentile(m: Multiset<u64>, p: u8) -> u64;

/// `Histogram::count_between(low, high)` of a histogram made with
/// `HDR_SIGFIG` digits that holds `m`.
pub uninterp spec fn hdr_count_between(m: Multiset<u64>, low: u64, high: u64) -> u64;

/// `Histogram::count_at(v)` of a histogram made with `HDR_SIGFIG` digits
/// that holds `m`.
pub uninterp spec fn hdr_count_at(m: Multiset<u64>, v: u64) -> u64;

/// Relies on `Histogram::new`: with at most five significant digits it
/// succeeds and gives an empty, auto-resizing histogram.
#[verifier::external_body]
pub(crate) fn hdr_new() -> (r: Hdr)
    ensures
        hdr_values(r) =~= Multiset::<u64>::empty(),
{
    Hdr { h: Histogram::<u64>::new(HDR_SIGFIG).unwrap() }
}

/// Relies on `Histogram::record`: on an auto-resizing histogram it grows the
/// bins to hold `v` and adds one to the bin of `v`. It can fail only where a
/// `u32` bin count does not fit in `usize`, which no supported target allows,
/// so its `Result` carries nothing.
#[verifier::external_body]
pub(crate) fn hdr_record(h: &mut Hdr, v: u64)
    ensures
        hdr_values(*final(h)) =~= hdr_values(*old(h)).insert(v),
{
    let _ = h.h.record(v);
}

/// Relies on `Histogram::max`: 0 while nothing is recorded, and otherwise
/// the highest value equivalent to the largest recorded one, which is that
/// value itself below `HDR_EXACT_LIMIT`.
#[verifier::external_body]
pub(crate) fn hdr_get_max(h: &Hdr) -> (r: u64)
    ensures
        r == hdr_max(hdr_values(*h)),
        hdr_values(*h).len() == 0 ==> r == 0,
        hdr_values(*h).len() > 0 && all_exact(hdr_values(*h)) ==> is_max_of(hdr_values(*h), r),
{
    h.h.max()
}

/// Relies on `Histogram::mean`: 0.0 while nothing is recorded; the float is
/// truncated to an integer.
#[verifier::external_body]
pub(crate) fn hdr_get_mean(h: &Hdr) -> (r: u64)
    ensures
        r == hdr_mean(hdr_values(*h)),
        hdr_values(*h).len() == 0 ==> r == 0,
{
    h.h.mean() as u64
}

/// Relies on `Histogram::value_at_percentile`: 0 while nothing is recorded.
#[verifier::external_body]
pub(crate) fn hdr_get_value_at_percentile(h: &Hdr, p: u8) -> (r: u64)
    ensures
        r == hdr_value_at_percentile(hdr_values(*h), p),
        hdr_values(*h).len() == 0 ==> r == 0,
{
    h.h.value_at_percentile(p.into())
}

/// Relies on `Histogram::count_between`: a sum of bin counts, 0 while
/// nothing is recorded.
#[verifier::external_body]
pub(crate) fn hdr_get_count_between(h: &Hdr, low: u64, high: u64) -> (r: u64)
    ensures
        r == hdr_count_between(hdr_values(*h), low, high),
        hdr_values(*h).len() == 0 ==> r == 0,
{
    h.h.count_between(low, high)
}

/// Relies on `Histogram::count_at`: one bin count, 0 while nothing is
/// recorded.
#[verifier::external_body]
pub(crate) fn hdr_get_count_at(h: &Hdr, v: u64) -> (r: u64)
    ensures
        r == hdr_count_at(hdr_values(*h), v),
        hdr_values(*h).len() == 0 ==> r == 0,
{
    h.h.count_at(v)
}

} // verus!
