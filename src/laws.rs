//! Laws that relate several operations of the index.

use vstd::prelude::*;
use crate::json::Json;
use crate::stats::{decode_outcome, stats_of};
use crate::index::{GameView, after_upsert, entry_of, stamp_for};
use crate::tid::{
    Classification, classification_of, base_tid_of, base_marker, update_marker, ends_with,
    is_valid_tid, tid_of_file_name, BASE_PREFIX_LEN,
};

verus! {

/// A valid identifier ending in `000` is a base title with no base
/// identifier; one ending in `800` is an update, and any other is a DLC,
/// both with the base identifier made of the first twelve characters and
/// `000`, which itself classifies as a base title.
pub proof fn lemma_classification(tid: Seq<char>)
    requires
        is_valid_tid(tid),
    ensures
        ends_with(tid, base_marker()) ==> classification_of(tid) == Classification::Base
            && base_tid_of(tid) is None,
        ends_with(tid, update_marker()) ==> classification_of(tid) == Classification::Update
            && base_tid_of(tid) == Some(tid.subrange(0, BASE_PREFIX_LEN as int) + base_marker()),
        !ends_with(tid, base_marker()) && !ends_with(tid, update_marker()) ==> classification_of(
            tid,
        ) == Classification::Dlc && base_tid_of(tid) == Some(
            tid.subrange(0, BASE_PREFIX_LEN as int) + base_marker(),
        ),
        base_tid_of(tid) matches Some(b) ==> classification_of(b) == Classification::Base,
{
    if classification_of(tid) != Classification::Base {
        let b = tid.subrange(0, BASE_PREFIX_LEN as int) + base_marker();
        assert(b.subrange(b.len() - 3, b.len() as int) =~= base_marker());
    }
}

/// Upserting the same file twice leaves the same statistics, classification
/// and base identifier as the first upsert, and a stamp no earlier than the
/// first one.
pub proof fn lemma_upsert_idempotent(
    m: Map<Seq<char>, GameView>,
    name: Seq<char>,
    content: Json,
    now1: i64,
    now2: i64,
)
    ensures
        ({
            let m1 = after_upsert(m, name, content, now1);
            let m2 = after_upsert(m1, name, content, now2);
            &&& m2.dom() == m1.dom()
            &&& forall|k: Seq<char>| #[trigger]
                m1.contains_key(k) ==> m2[k].tid == m1[k].tid && m2[k].stats == m1[k].stats
                    && m2[k].classification == m1[k].classification && m2[k].base_tid
                    == m1[k].base_tid && m2[k].last_updated >= m1[k].last_updated
        }),
{
    let m1 = after_upsert(m, name, content, now1);
    let m2 = after_upsert(m1, name, content, now2);
    if decode_outcome(name, content) is Some {
        assert(m2.dom() =~= m1.dom());
    }
}

/// Content that does not decode leaves the index as it was.
pub proof fn lemma_malformed_keeps_index(
    m: Map<Seq<char>, GameView>,
    name: Seq<char>,
    content: Json,
    now: i64,
)
    requires
        stats_of(content) is None,
    ensures
        after_upsert(m, name, content, now) == m,
{
}

/// A file whose name does not follow the convention leaves the index as it
/// was.
pub proof fn lemma_foreign_name_keeps_index(
    m: Map<Seq<char>, GameView>,
    name: Seq<char>,
    content: Json,
    now: i64,
)
    requires
        tid_of_file_name(name) is None,
    ensures
        after_upsert(m, name, content, now) == m,
{
}

/// A second successful write of a title replaces its whole record: the
/// entry holds the second content's statistics and the second write's stamp.
pub proof fn lemma_second_write_replaces(
    m: Map<Seq<char>, GameView>,
    name: Seq<char>,
    first: Json,
    second: Json,
    now1: i64,
    now2: i64,
)
    requires
        decode_outcome(name, second) is Some,
    ensures
        ({
            let m1 = after_upsert(m, name, first, now1);
            let t = decode_outcome(name, second).unwrap().0;
            let s = decode_outcome(name, second).unwrap().1;
            after_upsert(m1, name, second, now2)[t] == entry_of(t, s, stamp_for(m1, t, now2))
        }),
{
}

/// An upsert changes no entry but its own title's.
pub proof fn lemma_upsert_frame(
    m: Map<Seq<char>, GameView>,
    name: Seq<char>,
    content: Json,
    now: i64,
    k: Seq<char>,
)
    requires
        tid_of_file_name(name) != Some(k),
    ensures
        after_upsert(m, name, content, now).contains_key(k) == m.contains_key(k),
        m.contains_key(k) ==> after_upsert(m, name, content, now)[k] == m[k],
{
}

/// Upserts of two different titles give the same index in either order.
pub proof fn lemma_distinct_titles_commute(
    m: Map<Seq<char>, GameView>,
    name1: Seq<char>,
    content1: Json,
    now1: i64,
    name2: Seq<char>,
    content2: Json,
    now2: i64,
)
    requires
        tid_of_file_name(name1) != tid_of_file_name(name2) || tid_of_file_name(name1) is None,
    ensures
        after_upsert(after_upsert(m, name1, content1, now1), name2, content2, now2) == after_upsert(
            after_upsert(m, name2, content2, now2),
            name1,
            content1,
            now1,
        ),
{
    let a = after_upsert(after_upsert(m, name1, content1, now1), name2, content2, now2);
    let b = after_upsert(after_upsert(m, name2, content2, now2), name1, content1, now1);
    assert(a =~= b);
}

} // verus!
