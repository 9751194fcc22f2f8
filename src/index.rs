//! The index: one entry per title identifier, each replaced whole by a
//! successful upsert and never partly changed.

use vstd::prelude::*;
use dashmap::DashMap;
use crate::json::Json;
use crate::stats::{StatsRecord, StatsView, DecodeError, decode, decode_outcome, stats_of};
use crate::tid::{
    Classification, classify, base_tid, classification_of, base_tid_of, is_valid_tid,
    tid_of_file_name,
};

verus! {

#[verifier::external_type_specification]
#[verifier::external_body]
#[verifier::reject_recursive_types(K)]
#[verifier::reject_recursive_types(V)]
#[verifier::reject_recursive_types(S)]
pub struct ExDashMap<K, V, S>(DashMap<K, V, S>);

/// The record that the index holds for one title.
#[derive(Clone, Debug, PartialEq, Eq)]
pub struct IndexedGame {
    pub tid: String,
    pub classification: Classification,
    /// The base title's identifier; `None` for a base title.
    pub base_tid: Option<String>,
    pub stats: StatsRecord,
    /// When the statistics were decoded, in milliseconds since the Unix epoch.
    pub last_updated: i64,
}

pub ghost struct GameView {
    pub tid: Seq<char>,
    pub classification: Classification,
    pub base_tid: Option<Seq<char>>,
    pub stats: StatsView,
    pub last_updated: i64,
}

pub open spec fn opt_view(o: Option<String>) -> Option<Seq<char>> {
    match o {
        Some(s) => Some(s@),
        None => None,
    }
}

impl View for IndexedGame {
    type V = GameView;

    open spec fn view(&self) -> GameView {
        GameView {
            tid: self.tid@,
            classification: self.classification,
            base_tid: opt_view(self.base_tid),
            stats: self.stats@,
            last_updated: self.last_updated,
        }
    }
}

fn copy_counts(v: &Vec<(String, u64)>) -> (r: Vec<(String, u64)>)
    ensures
        r@ == v@,
{
    let mut out: Vec<(String, u64)> = Vec::new();
    let mut i: usize = 0;
    while i < v.len()
        invariant
            0 <= i <= v@.len(),
            out@ == v@.subrange(0, i as int),
        decreases v@.len() - i,
    {
        out.push((v[i].0.clone(), v[i].1));
        assert(out@ =~= v@.subrange(0, i + 1));
        i = i + 1;
    }
    assert(v@.subrange(0, v@.len() as int) =~= v@);
    out
}

impl StatsRecord {
    /// A copy with the same contents.
    pub fn duplicate(&self) -> (r: StatsRecord)
        ensures
            r@ == self@,
    {
        StatsRecord {
            per_date: copy_counts(&self.per_date),
            tid_downloads: copy_counts(&self.tid_downloads),
            total_downloads: self.total_downloads,
        }
    }
}

impl IndexedGame {
    /// A copy with the same contents.
    pub fn duplicate(&self) -> (r: IndexedGame)
        ensures
            r@ == self@,
    {
        let base_tid = match &self.base_tid {
            Some(b) => Some(b.clone()),
            None => None,
        };
        IndexedGame {
            tid: self.tid.clone(),
            classification: self.classification,
            base_tid,
            stats: self.stats.duplicate(),
            last_updated: self.last_updated,
        }
    }
}

/// The map that holds the index's entries.
pub type GameMap = DashMap<String, IndexedGame>;

/// The entries that a map holds, by key.
pub uninterp spec fn games_of(m: GameMap) -> Map<Seq<char>, GameView>;

/// Relies on DashMap::new: a new map is empty.
#[verifier::external_body]
fn map_new() -> (r: GameMap)
    ensures
        games_of(r) =~= Map::empty(),
{
    DashMap::new()
}

/// Relies on DashMap::insert: the key now maps to the value, every other key
/// keeps its entry.
#[verifier::external_body]
fn map_insert(m: &mut GameMap, k: String, v: IndexedGame)
    ensures
        games_of(*final(m)) == games_of(*old(m)).insert(k@, v@),
{
    m.insert(k, v);
}

/// Relies on DashMap::get: the entry under the key, if there is one.
#[verifier::external_body]
fn map_get(m: &GameMap, k: &String) -> (r: Option<IndexedGame>)
    ensures
        r.is_some() == games_of(*m).contains_key(k@),
        r matches Some(g) ==> g@ == games_of(*m)[k@],
{
    m.get(k).map(|e| e.value().duplicate())
}

/// Relies on DashMap::iter: every entry once, keys distinct, in no given order.
#[verifier::external_body]
fn map_entries(m: &GameMap) -> (r: Vec<(String, IndexedGame)>)
    ensures
        r@.len() == games_of(*m).len(),
        forall|i: int|
            0 <= i < r@.len() ==> #[trigger] games_of(*m).contains_key(r@[i].0@) && games_of(
                *m,
            )[r@[i].0@] == r@[i].1@,
        forall|i: int, j: int| 0 <= i < j < r@.len() ==> r@[i].0@ != r@[j].0@,
        forall|k: Seq<char>|
            #[trigger] games_of(*m).contains_key(k) ==> exists|i: int|
                0 <= i < r@.len() && r@[i].0@ == k,
{
    m.iter().map(|e| (e.key().clone(), e.value().duplicate())).collect()
}

/// Relies on DashMap::len: the number of entries.
#[verifier::external_body]
fn map_len(m: &GameMap) -> (r: usize)
    ensures
        r == games_of(*m).len(),
{
    m.len()
}

/// Relies on chrono's `From<SystemTime>` for `DateTime<Utc>` and on
/// `timestamp_millis`: the current time in milliseconds since the Unix epoch,
/// negative for a clock set before 1970. Nothing is known of the value.
#[verifier::external_body]
fn now_millis() -> (r: i64) {
    chrono::DateTime::<chrono::Utc>::from(std::time::SystemTime::now()).timestamp_millis()
}

/// The record that a successful decode of `tid` and `stats` produces.
pub open spec fn entry_of(tid: Seq<char>, stats: StatsView, stamp: i64) -> GameView {
    GameView {
        tid,
        classification: classification_of(tid),
        base_tid: base_tid_of(tid),
        stats,
        last_updated: stamp,
    }
}

/// The time stamp that a new entry for `tid` gets: the time given, or the
/// stamp of the entry it replaces when that is later, so that stamps of one
/// title never go back.
pub open spec fn stamp_for(m: Map<Seq<char>, GameView>, tid: Seq<char>, now: i64) -> i64 {
    if m.contains_key(tid) && m[tid].last_updated > now {
        m[tid].last_updated
    } else {
        now
    }
}

/// The index after an upsert of a file with this name and content at time
/// `now`: the decoded entry replaces any earlier one, or nothing changes
/// when decoding fails.
pub open spec fn after_upsert(
    m: Map<Seq<char>, GameView>,
    name: Seq<char>,
    content: Json,
    now: i64,
) -> Map<Seq<char>, GameView> {
    match decode_outcome(name, content) {
        Some((t, s)) => m.insert(t, entry_of(t, s, stamp_for(m, t, now))),
        None => m,
    }
}

/// Every entry sits under its own identifier and was derived from it.
pub open spec fn index_wf(m: Map<Seq<char>, GameView>) -> bool {
    forall|k: Seq<char>|
        #[trigger] m.contains_key(k) ==> is_valid_tid(k) && m[k].stats.well_ordered && m[k] == entry_of(
            k,
            m[k].stats,
            m[k].last_updated,
        )
}

/// The index of titles, keyed by identifier.
pub struct GameIndex {
    games: GameMap,
}

impl View for GameIndex {
    type V = Map<Seq<char>, GameView>;

    closed spec fn view(&self) -> Map<Seq<char>, GameView> {
        games_of(self.games)
    }
}

impl GameIndex {
    /// Every entry sits under its own identifier and was derived from it.
    /// `new` establishes this and every method keeps it.
    pub open spec fn wf(&self) -> bool {
        index_wf(self@)
    }

    /// An empty index.
    pub fn new() -> (r: GameIndex)
        ensures
            r@ == Map::<Seq<char>, GameView>::empty(),
            r.wf(),
    {
        GameIndex { games: map_new() }
    }

    /// Decodes a file and, on success, replaces the entry of its title with
    /// a new record stamped `now` (or the replaced entry's stamp, if later).
    /// On failure the index is unchanged.
    pub fn upsert_at(&mut self, file_name: &str, content: &Json, now: i64) -> (r: Result<(), DecodeError>)
        requires
            old(self).wf(),
        ensures
            final(self).wf(),
            final(self)@ == after_upsert(old(self)@, file_name@, *content, now),
            r.is_ok() == decode_outcome(file_name@, *content).is_some(),
            tid_of_file_name(file_name@) is None ==> r == Err::<(), DecodeError>(
                DecodeError::NameMismatch,
            ),
            tid_of_file_name(file_name@) is Some && stats_of(*content) is None ==> (r matches Err(
                e,
            ) && e is Malformed),
    {
        let (tid, stats) = match decode(file_name, content) {
            Ok(p) => p,
            Err(e) => {
                return Err(e);
            },
        };
        let prev = map_get(&self.games, &tid);
        let stamp = match prev {
            Some(g) => if g.last_updated > now {
                g.last_updated
            } else {
                now
            },
            None => now,
        };
        let classification = classify(tid.as_str());
        let base = base_tid(tid.as_str());
        let game = IndexedGame {
            tid: tid.clone(),
            classification,
            base_tid: base,
            stats,
            last_updated: stamp,
        };
        assert(game@ == entry_of(tid@, stats@, stamp));
        map_insert(&mut self.games, tid, game);
        Ok(())
    }

    /// Decodes a file and, on success, replaces the entry of its title with
    /// a new record stamped with the current time; stamps of one title never
    /// go back. On failure the index is unchanged.
    pub fn upsert(&mut self, file_name: &str, content: &Json) -> (r: Result<(), DecodeError>)
        requires
            old(self).wf(),
        ensures
            final(self).wf(),
            exists|now: i64| final(self)@ == after_upsert(old(self)@, file_name@, *content, now),
            r.is_ok() == decode_outcome(file_name@, *content).is_some(),
            tid_of_file_name(file_name@) is None ==> r == Err::<(), DecodeError>(
                DecodeError::NameMismatch,
            ),
            tid_of_file_name(file_name@) is Some && stats_of(*content) is None ==> (r matches Err(
                e,
            ) && e is Malformed),
    {
        let now = now_millis();
        self.upsert_at(file_name, content, now)
    }

    /// The entry of a title, if the index holds one.
    pub fn get(&self, tid: &str) -> (r: Option<IndexedGame>)
        requires
            self.wf(),
        ensures
            r.is_some() == self@.contains_key(tid@),
            r matches Some(g) ==> g@ == self@[tid@] && g.stats.wf(),
    {
        let key = String::from_str(tid);
        map_get(&self.games, &key)
    }

    /// Number of titles in the index.
    pub fn len(&self) -> (r: usize)
        ensures
            r == self@.len(),
    {
        map_len(&self.games)
    }

    /// Every entry of the index once, in no given order.
    pub fn snapshot(&self) -> (r: Vec<IndexedGame>)
        requires
            self.wf(),
        ensures
            r@.len() == self@.len(),
            forall|i: int|
                0 <= i < r@.len() ==> #[trigger] self@.contains_key(r@[i].tid@) && self@[r@[i].tid@]
                    == r@[i]@,
            forall|i: int, j: int| 0 <= i < j < r@.len() ==> r@[i].tid@ != r@[j].tid@,
            forall|i: int| 0 <= i < r@.len() ==> (#[trigger] r@[i]).stats.wf(),
            forall|k: Seq<char>|
                #[trigger] self@.contains_key(k) ==> exists|i: int|
                    0 <= i < r@.len() && r@[i].tid@ == k,
    {
        let entries = map_entries(&self.games);
        let mut out: Vec<IndexedGame> = Vec::new();
        let mut i: usize = 0;
        while i < entries.len()
            invariant
                0 <= i <= entries@.len(),
                out@.len() == i,
                forall|j: int| 0 <= j < i ==> out@[j]@ == entries@[j].1@,
            decreases entries@.len() - i,
        {
            out.push(entries[i].1.duplicate());
            i = i + 1;
        }
        proof {
            assert forall|j: int| 0 <= j < out@.len() implies out@[j].tid@ == entries@[j].0@
                && out@[j].stats.wf() by {
                assert(self@.contains_key(entries@[j].0@));
            }
            assert forall|k: Seq<char>| #[trigger] self@.contains_key(k) implies exists|j: int|
                0 <= j < out@.len() && out@[j].tid@ == k by {
                let j = choose|j: int| 0 <= j < entries@.len() && entries@[j].0@ == k;
                assert(out@[j].tid@ == k);
            }
        }
        out
    }
}

} // verus!
