//! Download statistics of one title, decoded from a parsed statistics file.

use vstd::prelude::*;
use crate::json::{Json, member, find_member};
use crate::tid::{tid_of_file_name, tid_from_file_name};
use crate::counts::{counts_map, counts_wf, put_count};

verus! {

/// Download statistics of one title. Counts are unsigned, so a negative
/// count can never be stored.
#[derive(Clone, Debug, PartialEq, Eq)]
pub struct StatsRecord {
    /// Downloads per calendar date, in strictly ascending order of dates.
    pub per_date: Vec<(String, u64)>,
    /// Downloads per sub-identifier, in strictly ascending order of names.
    pub tid_downloads: Vec<(String, u64)>,
    /// Total downloads as recorded in the source; not recomputed.
    pub total_downloads: u64,
}

pub ghost struct StatsView {
    pub per_date: Map<Seq<char>, u64>,
    pub tid_downloads: Map<Seq<char>, u64>,
    pub total_downloads: u64,
    /// Both tables list each name once, in strictly ascending order.
    pub well_ordered: bool,
}

impl StatsRecord {
    /// Both tables list each name once, in strictly ascending order.
    pub open spec fn wf(&self) -> bool {
        counts_wf(self.per_date@) && counts_wf(self.tid_downloads@)
    }
}

impl View for StatsRecord {
    type V = StatsView;

    open spec fn view(&self) -> StatsView {
        StatsView {
            per_date: counts_map(self.per_date@),
            tid_downloads: counts_map(self.tid_downloads@),
            total_downloads: self.total_downloads,
            well_ordered: self.wf(),
        }
    }
}

/// Why a statistics file was not taken into the index.
#[derive(Clone, Debug, PartialEq, Eq)]
pub enum DecodeError {
    /// The file name does not follow `<TID>_downloads.json`.
    NameMismatch,
    /// The content does not have the statistics shape; the text says why.
    Malformed(String),
}

/// The counts by name that an object's members give, if every member's
/// value is a non-negative integer; of repeated names the last one counts.
pub open spec fn counts_of(members: Seq<(String, Json)>) -> Option<Map<Seq<char>, u64>>
    decreases members.len(),
{
    if members.len() == 0 {
        Some(Map::empty())
    } else {
        match (counts_of(members.drop_last()), members.last().1) {
            (Some(init), Json::UInt(n)) => Some(init.insert(members.last().0@, n)),
            _ => None,
        }
    }
}

pub open spec fn count_map_of(j: Option<Json>) -> Option<Map<Seq<char>, u64>> {
    match j {
        Some(Json::Object(ms)) => counts_of(ms@),
        _ => None,
    }
}

pub open spec fn count_of(j: Option<Json>) -> Option<u64> {
    match j {
        Some(Json::UInt(n)) => Some(n),
        _ => None,
    }
}

/// The statistics that a JSON value holds: an object whose members
/// `per_date` and `tid_downloads` map names to non-negative integers and
/// whose member `total_downloads` is a non-negative integer. Other members
/// are ignored.
pub open spec fn stats_of(j: Json) -> Option<StatsView> {
    match j {
        Json::Object(ms) => {
            let p = count_map_of(member(ms@, "per_date"@));
            let t = count_map_of(member(ms@, "tid_downloads"@));
            let n = count_of(member(ms@, "total_downloads"@));
            if p is Some && t is Some && n is Some {
                Some(
                    StatsView {
                        per_date: p.unwrap(),
                        tid_downloads: t.unwrap(),
                        total_downloads: n.unwrap(),
                        well_ordered: true,
                    },
                )
            } else {
                None
            }
        },
        _ => None,
    }
}

/// Reads an object's members as a table of counts in ascending name order.
fn decode_counts(j: &Json) -> (r: Option<Vec<(String, u64)>>)
    ensures
        r.is_some() == count_map_of(Some(*j)).is_some(),
        r matches Some(v) ==> counts_wf(v@) && counts_map(v@) == count_map_of(Some(*j)).unwrap(),
{
    match j {
        Json::Object(ms) => {
            let mut out: Vec<(String, u64)> = Vec::new();
            let mut i: usize = 0;
            while i < ms.len()
                invariant
                    0 <= i <= ms@.len(),
                    count_map_of(Some(*j)) == counts_of(ms@),
                    counts_wf(out@),
                    counts_of(ms@.subrange(0, i as int)) == Some(counts_map(out@)),
                decreases ms@.len() - i,
            {
                proof {
                    assert(ms@.subrange(0, i + 1).drop_last() =~= ms@.subrange(0, i as int));
                }
                match &ms[i].1 {
                    Json::UInt(n) => {
                        let name = ms[i].0.clone();
                        put_count(&mut out, name, *n);
                    },
                    _ => {
                        proof {
                            assert(ms@.subrange(0, i + 1).last() == ms@[i as int]);
                            assert(!(ms@[i as int].1 is UInt));
                            assert(counts_of(ms@.subrange(0, i + 1)) is None);
                            lemma_counts_prefix_none(ms@, i + 1);
                        }
                        return None;
                    },
                }
                i = i + 1;
            }
            assert(ms@.subrange(0, ms@.len() as int) =~= ms@);
            Some(out)
        },
        _ => None,
    }
}

/// Once a prefix of the members fails to read as counts, so does the whole.
proof fn lemma_counts_prefix_none(ms: Seq<(String, Json)>, k: int)
    requires
        0 <= k <= ms.len(),
        counts_of(ms.subrange(0, k)) is None,
    ensures
        counts_of(ms) is None,
    decreases ms.len() - k,
{
    if k < ms.len() {
        assert(ms.subrange(0, k + 1).drop_last() =~= ms.subrange(0, k));
        lemma_counts_prefix_none(ms, k + 1);
    } else {
        assert(ms.subrange(0, k) =~= ms);
    }
}

fn text(s: &str) -> (r: String)
    ensures
        r@ == s@,
{
    String::from_str(s)
}

/// Decodes the statistics that a parsed file holds.
pub fn decode_stats(content: &Json) -> (r: Result<StatsRecord, DecodeError>)
    ensures
        r.is_ok() == stats_of(*content).is_some(),
        r matches Ok(s) ==> s@ == stats_of(*content).unwrap() && s.wf(),
        r matches Err(e) ==> e is Malformed,
{
    let ms = match content {
        Json::Object(ms) => ms,
        _ => {
            return Err(DecodeError::Malformed(text("content is not an object")));
        },
    };
    let k_per_date = text("per_date");
    let k_tid_downloads = text("tid_downloads");
    let k_total = text("total_downloads");
    let per_date = match find_member(ms, &k_per_date) {
        Some(j) => decode_counts(j),
        None => None,
    };
    let per_date = match per_date {
        Some(v) => v,
        None => {
            return Err(DecodeError::Malformed(text("per_date is not a map of non-negative counts")));
        },
    };
    let tid_downloads = match find_member(ms, &k_tid_downloads) {
        Some(j) => decode_counts(j),
        None => None,
    };
    let tid_downloads = match tid_downloads {
        Some(v) => v,
        None => {
            return Err(
                DecodeError::Malformed(text("tid_downloads is not a map of non-negative counts")),
            );
        },
    };
    let total = match find_member(ms, &k_total) {
        Some(Json::UInt(n)) => *n,
        _ => {
            return Err(DecodeError::Malformed(text("total_downloads is not a non-negative count")));
        },
    };
    Ok(StatsRecord { per_date, tid_downloads, total_downloads: total })
}

/// What decoding a file yields: its identifier and statistics, or which
/// error comes first (the name is checked before the content).
pub open spec fn decode_outcome(name: Seq<char>, content: Json) -> Option<(Seq<char>, StatsView)> {
    match (tid_of_file_name(name), stats_of(content)) {
        (Some(t), Some(s)) => Some((t, s)),
        _ => None,
    }
}

/// Decodes one statistics file from its name and parsed content.
pub fn decode(file_name: &str, content: &Json) -> (r: Result<(String, StatsRecord), DecodeError>)
    ensures
        tid_of_file_name(file_name@) is None ==> r == Err::<(String, StatsRecord), DecodeError>(
            DecodeError::NameMismatch,
        ),
        tid_of_file_name(file_name@) is Some && stats_of(*content) is None ==> (r matches Err(
            e,
        ) && e is Malformed),
        r.is_ok() == decode_outcome(file_name@, *content).is_some(),
        r matches Ok(p) ==> (p.0@, p.1@) == decode_outcome(file_name@, *content).unwrap(),
{
    let tid = match tid_from_file_name(file_name) {
        Some(t) => t,
        None => {
            return Err(DecodeError::NameMismatch);
        },
    };
    let stats = decode_stats(content)?;
    Ok((tid, stats))
}

} // verus!
