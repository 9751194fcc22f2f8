use indexer::index::GameIndex;
use indexer::json::Json;
use indexer::stats::{decode, decode_stats, DecodeError};
use indexer::{base_tid, classify, tid_from_file_name, Classification};

fn s(x: &str) -> String {
    x.to_string()
}

fn counts(pairs: &[(&str, u64)]) -> Json {
    Json::Object(pairs.iter().map(|(k, n)| (s(k), Json::UInt(*n))).collect())
}

fn stats_json(per_date: &[(&str, u64)], tids: &[(&str, u64)], total: u64) -> Json {
    Json::Object(vec![
        (s("per_date"), counts(per_date)),
        (s("tid_downloads"), counts(tids)),
        (s("total_downloads"), Json::UInt(total)),
    ])
}

fn sample() -> Json {
    stats_json(&[("2024-01-01", 5)], &[("aaa", 5)], 5)
}

#[test]
fn base_titles_have_no_base_tid() {
    assert_eq!(classify("0100000000010000"), Classification::Base);
    assert_eq!(base_tid("0100000000010000"), None);
    assert_eq!(classify("01007EF00011E000"), Classification::Base);
}

#[test]
fn updates_point_at_their_base() {
    assert_eq!(classify("0100000000010800"), Classification::Update);
    assert_eq!(base_tid("0100000000010800"), Some(s("010000000001000")));
}

#[test]
fn other_suffixes_are_dlc() {
    assert_eq!(classify("0100000000011001"), Classification::Dlc);
    assert_eq!(base_tid("0100000000011001"), Some(s("010000000001000")));
    assert_eq!(classify("01000000000100A0"), Classification::Dlc);
    assert_eq!(classify("0100000000010080"), Classification::Dlc);
}

#[test]
fn base_tid_classifies_as_base() {
    let b = base_tid("0100ABCDEF012345").unwrap();
    assert_eq!(classify(&b), Classification::Base);
}

#[test]
fn file_names_follow_the_convention() {
    assert_eq!(tid_from_file_name("0100000000010000_downloads.json"), Some(s("0100000000010000")));
    assert_eq!(tid_from_file_name("01007ef00011E800_downloads.json"), Some(s("01007ef00011E800")));
    assert_eq!(tid_from_file_name("notes.txt"), None);
    assert_eq!(tid_from_file_name("0100000000010000_downloads.txt"), None);
    assert_eq!(tid_from_file_name("0100000000010000.json"), None);
    assert_eq!(tid_from_file_name("010000000001000_downloads.json"), None);
    assert_eq!(tid_from_file_name("01000000000100000_downloads.json"), None);
    assert_eq!(tid_from_file_name("010000000001000G_downloads.json"), None);
    assert_eq!(tid_from_file_name(""), None);
}

#[test]
fn decodes_valid_stats() {
    let r = decode_stats(&sample()).unwrap();
    assert_eq!(r.per_date, vec![(s("2024-01-01"), 5)]);
    assert_eq!(r.tid_downloads, vec![(s("aaa"), 5)]);
    assert_eq!(r.total_downloads, 5);
}

#[test]
fn total_is_not_recomputed() {
    let r = decode_stats(&stats_json(&[("2024-01-01", 1), ("2024-01-02", 2)], &[], 99)).unwrap();
    assert_eq!(r.total_downloads, 99);
    assert_eq!(r.per_date, vec![(s("2024-01-01"), 1), (s("2024-01-02"), 2)]);
}

#[test]
fn extra_members_are_ignored() {
    let mut members = match sample() {
        Json::Object(m) => m,
        _ => unreachable!(),
    };
    members.push((s("note"), Json::Str(s("x"))));
    assert!(decode_stats(&Json::Object(members)).is_ok());
}

fn is_malformed(r: Result<indexer::stats::StatsRecord, DecodeError>) -> bool {
    matches!(r, Err(DecodeError::Malformed(_)))
}

#[test]
fn negative_count_is_malformed() {
    let j = Json::Object(vec![
        (s("per_date"), Json::Object(vec![(s("2024-01-01"), Json::NegInt(-1))])),
        (s("tid_downloads"), counts(&[])),
        (s("total_downloads"), Json::UInt(0)),
    ]);
    assert!(is_malformed(decode_stats(&j)));
    let k = Json::Object(vec![
        (s("per_date"), counts(&[])),
        (s("tid_downloads"), counts(&[])),
        (s("total_downloads"), Json::NegInt(-5)),
    ]);
    assert!(is_malformed(decode_stats(&k)));
}

#[test]
fn wrong_shapes_are_malformed() {
    assert!(is_malformed(decode_stats(&Json::Array(vec![]))));
    assert!(is_malformed(decode_stats(&Json::Null)));
    let missing = Json::Object(vec![(s("per_date"), counts(&[])), (s("total_downloads"), Json::UInt(1))]);
    assert!(is_malformed(decode_stats(&missing)));
    let fraction = Json::Object(vec![
        (s("per_date"), counts(&[])),
        (s("tid_downloads"), counts(&[])),
        (s("total_downloads"), Json::NonInteger),
    ]);
    assert!(is_malformed(decode_stats(&fraction)));
    let text_count = Json::Object(vec![
        (s("per_date"), counts(&[])),
        (s("tid_downloads"), Json::Object(vec![(s("aaa"), Json::Str(s("5")))])),
        (s("total_downloads"), Json::UInt(1)),
    ]);
    assert!(is_malformed(decode_stats(&text_count)));
    let not_map = Json::Object(vec![
        (s("per_date"), Json::Bool(true)),
        (s("tid_downloads"), counts(&[])),
        (s("total_downloads"), Json::UInt(1)),
    ]);
    assert!(is_malformed(decode_stats(&not_map)));
}

#[test]
fn decode_checks_the_name_first() {
    assert_eq!(decode("notes.txt", &Json::Null), Err(DecodeError::NameMismatch));
    let (tid, stats) = decode("0100000000010000_downloads.json", &sample()).unwrap();
    assert_eq!(tid, "0100000000010000");
    assert_eq!(stats.total_downloads, 5);
    assert!(matches!(decode("0100000000010000_downloads.json", &Json::Null), Err(DecodeError::Malformed(_))));
}

#[test]
fn upsert_indexes_a_base_title() {
    let mut index = GameIndex::new();
    assert_eq!(index.upsert_at("0100000000010000_downloads.json", &sample(), 1000), Ok(()));
    let g = index.get("0100000000010000").unwrap();
    assert_eq!(g.tid, "0100000000010000");
    assert_eq!(g.classification, Classification::Base);
    assert_eq!(g.base_tid, None);
    assert_eq!(g.stats.total_downloads, 5);
    assert_eq!(g.stats.per_date, vec![(s("2024-01-01"), 5)]);
    assert_eq!(g.last_updated, 1000);
    assert_eq!(index.len(), 1);
}

#[test]
fn upsert_indexes_an_update() {
    let mut index = GameIndex::new();
    assert_eq!(index.upsert("0100000000010800_downloads.json", &sample()), Ok(()));
    let g = index.get("0100000000010800").unwrap();
    assert_eq!(g.classification, Classification::Update);
    assert_eq!(g.base_tid, Some(s("010000000001000")));
    // the clock gives a time after 2020-09-13
    assert!(g.last_updated > 1_600_000_000_000);
}

#[test]
fn foreign_file_names_leave_no_entry() {
    let mut index = GameIndex::new();
    assert_eq!(index.upsert("notes.txt", &sample()), Err(DecodeError::NameMismatch));
    assert_eq!(index.len(), 0);
    assert!(index.snapshot().is_empty());
}

#[test]
fn second_write_replaces_the_entry() {
    let mut index = GameIndex::new();
    let name = "0100000000010000_downloads.json";
    index.upsert_at(name, &sample(), 1000).unwrap();
    index.upsert_at(name, &stats_json(&[("2024-01-01", 5)], &[("aaa", 5)], 7), 2000).unwrap();
    let g = index.get("0100000000010000").unwrap();
    assert_eq!(g.stats.total_downloads, 7);
    assert_eq!(g.last_updated, 2000);
    assert_eq!(index.len(), 1);
}

#[test]
fn upsert_twice_is_idempotent() {
    let mut index = GameIndex::new();
    let name = "0100000000011001_downloads.json";
    index.upsert_at(name, &sample(), 5000).unwrap();
    let first = index.get("0100000000011001").unwrap();
    index.upsert_at(name, &sample(), 4000).unwrap();
    let second = index.get("0100000000011001").unwrap();
    assert_eq!(first.stats, second.stats);
    assert_eq!(first.classification, second.classification);
    assert_eq!(first.base_tid, second.base_tid);
    assert!(second.last_updated >= first.last_updated);
    assert_eq!(second.last_updated, 5000);
}

#[test]
fn upsert_twice_with_the_clock() {
    let mut index = GameIndex::new();
    let name = "0100000000010000_downloads.json";
    index.upsert(name, &sample()).unwrap();
    let first = index.get("0100000000010000").unwrap();
    index.upsert(name, &sample()).unwrap();
    let second = index.get("0100000000010000").unwrap();
    assert_eq!(first.stats, second.stats);
    assert!(second.last_updated >= first.last_updated);
}

#[test]
fn malformed_content_keeps_the_old_entry() {
    let mut index = GameIndex::new();
    let name = "0100000000010000_downloads.json";
    index.upsert_at(name, &sample(), 1000).unwrap();
    let before = index.get("0100000000010000").unwrap();
    let bad = stats_json(&[], &[], 1);
    let bad = match bad {
        Json::Object(mut m) => {
            m[2].1 = Json::NegInt(-3);
            Json::Object(m)
        }
        _ => unreachable!(),
    };
    assert!(matches!(index.upsert_at(name, &bad, 2000), Err(DecodeError::Malformed(_))));
    assert!(matches!(index.upsert_at(name, &Json::Str(s("x")), 3000), Err(DecodeError::Malformed(_))));
    assert_eq!(index.get("0100000000010000").unwrap(), before);
}

#[test]
fn distinct_titles_are_independent() {
    let mut a = GameIndex::new();
    let mut b = GameIndex::new();
    a.upsert_at("0100000000010000_downloads.json", &sample(), 1).unwrap();
    a.upsert_at("0100000000010800_downloads.json", &stats_json(&[], &[], 2), 2).unwrap();
    b.upsert_at("0100000000010800_downloads.json", &stats_json(&[], &[], 2), 2).unwrap();
    b.upsert_at("0100000000010000_downloads.json", &sample(), 1).unwrap();
    assert_eq!(a.get("0100000000010000"), b.get("0100000000010000"));
    assert_eq!(a.get("0100000000010800"), b.get("0100000000010800"));
    assert_eq!(a.len(), 2);
}

#[test]
fn snapshot_lists_every_entry_once() {
    let mut index = GameIndex::new();
    index.upsert_at("0100000000010000_downloads.json", &sample(), 1).unwrap();
    index.upsert_at("0100000000010800_downloads.json", &sample(), 2).unwrap();
    index.upsert_at("0100000000011001_downloads.json", &sample(), 3).unwrap();
    index.upsert_at("0100000000011001_downloads.json", &sample(), 4).unwrap();
    let mut tids: Vec<String> = index.snapshot().into_iter().map(|g| g.tid).collect();
    tids.sort();
    assert_eq!(tids, vec![s("0100000000010000"), s("0100000000010800"), s("0100000000011001")]);
    assert_eq!(index.get("0100000000011002"), None);
}

#[test]
fn duplicate_keeps_the_record() {
    let mut index = GameIndex::new();
    index.upsert_at("0100000000011001_downloads.json", &sample(), 9).unwrap();
    let g = index.get("0100000000011001").unwrap();
    assert_eq!(g.duplicate(), g);
    assert_eq!(g.stats.duplicate(), g.stats);
}

#[test]
fn dates_come_out_ascending() {
    let r = decode_stats(&stats_json(&[("2024-01-03", 3), ("2024-01-01", 1), ("2024-01-02", 2)], &[], 6)).unwrap();
    assert_eq!(r.per_date, vec![(s("2024-01-01"), 1), (s("2024-01-02"), 2), (s("2024-01-03"), 3)]);
}

#[test]
fn repeated_names_keep_the_last_count() {
    let r = decode_stats(&stats_json(&[("2024-01-02", 1), ("2024-01-01", 4), ("2024-01-02", 7)], &[("b", 1), ("a", 2), ("b", 5)], 0)).unwrap();
    assert_eq!(r.per_date, vec![(s("2024-01-01"), 4), (s("2024-01-02"), 7)]);
    assert_eq!(r.tid_downloads, vec![(s("a"), 2), (s("b"), 5)]);
}
