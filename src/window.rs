//! The window calculator: the common time reference of independently
//! started terminals and the steady-state measurement window after it.
//!
//! Reading the first record of every log file is left to the caller; this
//! module merges what was read.

use vstd::prelude::*;

verus! {

/// What the window calculator found in a set of log files.
#[derive(Debug)]
pub struct TermGroupParams {
    /// Number of the files with a readable first record.
    pub term_count: u32,
    /// The files with a readable first record, in the order given.
    pub log_files_valid: Vec<String>,
    pub earliest_start_time_ms: u64,
    pub latest_start_time_ms: u64,
    pub steady_begin_time_ms: u64,
    pub steady_end_time_ms: u64,
}

/// The smallest first-record start time among `scans`; `u64::MAX` where no
/// file has one.
pub open spec fn min_start(scans: Seq<(String, Option<u64>)>) -> u64
    decreases scans.len(),
{
    if scans.len() == 0 {
        u64::MAX
    } else {
        let rest = min_start(scans.drop_last());
        match scans.last().1 {
            Some(t) => if t < rest { t } else { rest },
            None => rest,
        }
    }
}

/// The largest first-record start time among `scans`; 0 where no file has
/// one.
pub open spec fn max_start(scans: Seq<(String, Option<u64>)>) -> u64
    decreases scans.len(),
{
    if scans.len() == 0 {
        0
    } else {
        let rest = max_start(scans.drop_last());
        match scans.last().1 {
            Some(t) => if t > rest { t } else { rest },
            None => rest,
        }
    }
}

/// The paths of the files in `scans` that have a first record, in order.
pub open spec fn valid_paths(scans: Seq<(String, Option<u64>)>) -> Seq<Seq<char>>
    decreases scans.len(),
{
    if scans.len() == 0 {
        Seq::empty()
    } else {
        let rest = valid_paths(scans.drop_last());
        match scans.last().1 {
            Some(_) => rest.push(scans.last().0@),
            None => rest,
        }
    }
}

/// The views of a list of paths.
pub open spec fn path_views(paths: Seq<String>) -> Seq<Seq<char>> {
    paths.map_values(|p: String| p@)
}

/// Merges the first records read from the log files into the group's
/// window. Each entry of `scans` is a path with the start time of its first
/// record, or `None` where the file had no readable record; such files are
/// left out. Where no file has one, both ends are 0. The steady window begins
/// `steady_begin_offset_ms` after the latest start and lasts
/// `steady_length_ms`, both ends saturating at `u64::MAX`.
pub fn analyze_term_group(scans: &Vec<(String, Option<u64>)>, steady_begin_offset_ms: u64, steady_length_ms: u64) -> (r: TermGroupParams)
    requires
        scans@.len() <= u32::MAX,
    ensures
        path_views(r.log_files_valid@) == valid_paths(scans@),
        r.term_count == r.log_files_valid@.len(),
        r.latest_start_time_ms == max_start(scans@),
        r.earliest_start_time_ms == if min_start(scans@) > max_start(scans@) {
            max_start(scans@)
        } else {
            min_start(scans@)
        },
        r.steady_begin_time_ms == max_start(scans@).saturating_add(steady_begin_offset_ms),
        r.steady_end_time_ms == max_start(scans@).saturating_add(steady_begin_offset_ms).saturating_add(
            steady_length_ms),
{
    let mut earliest: u64 = u64::MAX;
    let mut latest: u64 = 0;
    let mut valid: Vec<String> = Vec::new();
    let mut i: usize = 0;
    while i < scans.len()
        invariant
            i <= scans@.len(),
            earliest == min_start(scans@.subrange(0, i as int)),
            latest == max_start(scans@.subrange(0, i as int)),
            path_views(valid@) == valid_paths(scans@.subrange(0, i as int)),
            valid@.len() <= i,
        decreases scans@.len() - i,
    {
        let entry = &scans[i];
        proof {
            assert(scans@.subrange(0, i + 1).drop_last() =~= scans@.subrange(0, i as int));
        }
        match entry.1 {
            Some(t) => {
                if t < earliest {
                    earliest = t;
                }
                if t > latest {
                    latest = t;
                }
                let p = entry.0.clone();
                valid.push(p);
                proof {
                    assert(path_views(valid@) =~= valid_paths(scans@.subrange(0, i + 1)));
                }
            },
            None => {},
        }
        i = i + 1;
    }
    proof {
        assert(scans@.subrange(0, scans@.len() as int) =~= scans@);
    }
    if earliest > latest {
        earliest = latest;
    }
    let begin = latest.saturating_add(steady_begin_offset_ms);
    TermGroupParams {
        term_count: valid.len() as u32,
        log_files_valid: valid,
        earliest_start_time_ms: earliest,
        latest_start_time_ms: latest,
        steady_begin_time_ms: begin,
        steady_end_time_ms: begin.saturating_add(steady_length_ms),
    }
}

} // verus!
