use draft_collector::collector::{Args, Collector, Draw, FetchOutcome, RequestStep, SaveStep, COOLDOWN_MILLIS, PAGE_SIZE};
use draft_collector::index::HeroIndex;
use draft_collector::mask::{MatchHistory, MatchId, MatchMask, MatchRecord, Player, Side};
use draft_collector::query::{drafts_of, matches_query, query_matches, MatchDraft};
use draft_collector::rate::RateControl;

const MS: u128 = 1_000_000;

fn record(match_id: u64, seq: u64, radiant: &[u8], dire: &[u8]) -> MatchRecord {
    let mut players = Vec::new();
    for (i, h) in radiant.iter().enumerate() {
        players.push(Player { hero_id: *h, player_slot: i as u8 });
    }
    for (i, h) in dire.iter().enumerate() {
        players.push(Player { hero_id: *h, player_slot: 0x80 | i as u8 });
    }
    MatchRecord { match_id, match_seq_num: seq, players }
}

fn args(keys: usize, batch: usize) -> Args {
    Args {
        start_idx: 0,
        proxy: None,
        clickhouse_server: None,
        clickhouse_database: None,
        clickhouse_user: None,
        clickhouse_password: None,
        min_interval: 5000,
        max_interval: 60000,
        insert_batch_size: batch,
        keys: (0..keys).map(|k| format!("key{}", k)).collect(),
    }
}

fn ids(bucket: &Vec<MatchMask>) -> Vec<u64> {
    bucket.iter().map(|m| m.match_id).collect()
}

#[test]
fn side_from_slot_high_bit() {
    assert_eq!(Side::from(0x80u8), Side::Dire);
    assert_eq!(Side::from(0x84u8), Side::Dire);
    assert_eq!(Side::from(0x04u8), Side::Radiant);
    assert_eq!(Side::from(0u8), Side::Radiant);
    assert_eq!(Side::Radiant.name(), "radiant");
    assert_eq!(Side::Dire.name(), "dire");
}

#[test]
fn match_id_from_u64() {
    assert_eq!(MatchId::from(42u64), MatchId { match_id: 42 });
}

#[test]
fn transform_sets_exactly_player_bits() {
    let r = record(7, 1, &[1, 2, 3, 4, 5], &[6, 7, 8, 9, 255]);
    let m = MatchMask::from_record(&r);
    assert_eq!(m.match_id, 7);
    for h in 0..256usize {
        assert_eq!(m.radiant.bit(h), (1..=5).contains(&h));
        assert_eq!(m.dire.bit(h), [6, 7, 8, 9, 255].contains(&h));
    }
    let d = MatchDraft::from_mask(&m);
    assert_eq!(d.radiant, vec![1, 2, 3, 4, 5]);
    assert_eq!(d.dire, vec![6, 7, 8, 9, 255]);
    let again = MatchMask::from(&r);
    assert_eq!(again.match_id, m.match_id);
    assert_eq!(again.radiant, m.radiant);
    assert_eq!(again.dire, m.dire);
}

#[test]
fn transform_duplicate_hero_single_bit() {
    let r = record(1, 1, &[3, 3, 4, 5, 6], &[7, 8, 9, 10, 11]);
    let m = MatchMask::from_record(&r);
    let d = MatchDraft::from_mask(&m);
    assert_eq!(d.radiant, vec![3, 4, 5, 6]);
    assert_eq!(m.radiant, primitive_types::U256::from(0b111_1000u64));
}

#[test]
fn collect_cursor_is_max_in_any_order() {
    let mut a = HeroIndex::new();
    let page = MatchHistory { matches: vec![record(1, 30, &[1], &[2]), record(2, 10, &[1], &[2]), record(3, 20, &[1], &[2])] };
    assert_eq!(a.collect(5, &page), 31);
    let mut b = HeroIndex::new();
    let page = MatchHistory { matches: vec![record(3, 20, &[1], &[2]), record(1, 30, &[1], &[2]), record(2, 10, &[1], &[2])] };
    assert_eq!(b.collect(5, &page), 31);
    let mut c = HeroIndex::new();
    assert_eq!(c.collect(100, &page), 100);
    let mut d = HeroIndex::new();
    let single = MatchHistory { matches: vec![record(9, 41, &[1], &[2])] };
    assert_eq!(d.collect(0, &single), 42);
    let empty = MatchHistory { matches: vec![] };
    assert_eq!(d.collect(17, &empty), 17);
}

#[test]
fn hero_zero_never_buffered() {
    let mut idx = HeroIndex::new();
    let page = MatchHistory { matches: vec![record(1, 1, &[0, 0, 1, 2, 3], &[0, 4, 5, 6, 7])] };
    idx.collect(0, &page);
    assert!(idx.bucket(0).is_empty());
    assert_eq!(ids(idx.bucket(1)), vec![1]);
    assert_eq!(idx.next_pending(0), Some(1));
}

#[test]
fn duplicate_hero_lands_once_in_bucket() {
    let mut idx = HeroIndex::new();
    let page = MatchHistory { matches: vec![record(1, 1, &[3, 3, 4, 5, 6], &[3, 8, 9, 10, 11])] };
    idx.collect(0, &page);
    assert_eq!(ids(idx.bucket(3)), vec![1]);
    assert_eq!(ids(idx.bucket(8)), vec![1]);
    assert!(idx.bucket(2).is_empty());
}

#[test]
fn governor_initial_and_single_steps() {
    let r = RateControl::new(5000, 60000, 0);
    assert_eq!(r.interval_nanos(), 10_000 * MS);
    let mut fast = RateControl::new(5000, 60000, 0);
    fast.speed_up();
    assert_eq!(fast.interval_nanos(), 9_000 * MS);
    let mut slow = RateControl::new(5000, 60000, 0);
    slow.slow_down();
    assert_eq!(slow.interval_nanos(), 20_000 * MS);
    let mut capped = RateControl::new(5000, 15000, 0);
    capped.slow_down();
    assert_eq!(capped.interval_nanos(), 15_000 * MS);
    let mut floor = RateControl::new(5000, 60000, 0);
    floor.speed_up();
    floor.speed_up();
    floor.speed_up();
    floor.speed_up();
    floor.speed_up();
    floor.speed_up();
    floor.speed_up();
    assert_eq!(floor.interval_nanos(), 5_000 * MS);
}

#[test]
fn governor_repeated_steps_stay_in_bounds() {
    let mut r = RateControl::new(5000, 60000, 0);
    for _ in 0..20 {
        r.slow_down();
        assert!(r.interval_nanos() <= r.max_interval_nanos());
    }
    assert_eq!(r.interval_nanos(), 60_000 * MS);
    for _ in 0..50 {
        r.speed_up();
        assert!(r.interval_nanos() >= r.min_interval_nanos());
    }
    assert_eq!(r.interval_nanos(), 5_000 * MS);
}

#[test]
fn governor_deadline_and_mark() {
    let mut r = RateControl::new(5000, 60000, 7);
    assert_eq!(r.deadline(), 7 + 10_000_000_000u64);
    r.mark(u64::MAX - 1);
    assert_eq!(r.deadline(), u64::MAX);
}

#[test]
fn flush_failure_keeps_bucket() {
    let mut idx = HeroIndex::new();
    let page = MatchHistory { matches: vec![record(1, 1, &[1, 2, 3, 4, 5], &[6, 7, 8, 9, 10])] };
    idx.collect(0, &page);
    // buckets 1 and 2 persisted, bucket 3 failed: the flush stops there
    idx.clear_bucket(1);
    idx.clear_bucket(2);
    let page = MatchHistory { matches: vec![record(2, 2, &[3, 11, 12, 13, 14], &[1, 15, 16, 17, 18])] };
    idx.collect(2, &page);
    assert_eq!(ids(idx.bucket(3)), vec![1, 2]);
    assert_eq!(ids(idx.bucket(1)), vec![2]);
    assert!(idx.bucket(2).is_empty());
    assert_eq!(ids(idx.bucket(6)), vec![1]);
    assert_eq!(idx.next_pending(2), Some(3));
    assert_eq!(idx.next_pending(19), None);
}

#[test]
fn query_both_empty_no_scan() {
    assert_eq!(query_matches("db", &vec![], &vec![], 10, 0), None);
    let m = MatchMask::from_record(&record(1, 1, &[1, 2], &[3, 4]));
    assert!(!matches_query(&m, &vec![], &vec![]));
}

#[test]
fn query_one_set_either_side() {
    let q = query_matches("db", &vec![1, 2], &vec![], 100, 20).unwrap();
    assert_eq!(
        q,
        "SELECT ?fields FROM db.drafts WHERE ((bitmapHasAll(bitmapBuild(radiant), bitmapBuild([1,2]))) OR (bitmapHasAll(bitmapBuild(dire), bitmapBuild([1,2])))) ORDER BY match_id DESC LIMIT 100 OFFSET 20"
    );
    assert_eq!(query_matches("db", &vec![], &vec![1, 2], 100, 20), Some(q));
    let a = MatchMask::from_record(&record(1, 1, &[1, 2, 5], &[3, 4]));
    let b = MatchMask::from_record(&record(2, 1, &[5], &[2, 1, 3]));
    let c = MatchMask::from_record(&record(3, 1, &[1], &[2]));
    for m in [&a, &b] {
        assert!(matches_query(m, &vec![1, 2], &vec![]));
    }
    assert!(!matches_query(&c, &vec![1, 2], &vec![]));
}

#[test]
fn query_two_sets_opposite_sides() {
    let q = query_matches("stats", &vec![1, 2], &vec![3, 4], 5, 0).unwrap();
    assert_eq!(
        q,
        "SELECT ?fields FROM stats.drafts WHERE (((bitmapHasAll(bitmapBuild(radiant), bitmapBuild([1,2]))) AND (bitmapHasAll(bitmapBuild(dire), bitmapBuild([3,4])))) OR ((bitmapHasAll(bitmapBuild(radiant), bitmapBuild([3,4]))) AND (bitmapHasAll(bitmapBuild(dire), bitmapBuild([1,2]))))) ORDER BY match_id DESC LIMIT 5 OFFSET 0"
    );
    let a = MatchMask::from_record(&record(1, 1, &[1, 2, 9], &[3, 4]));
    let b = MatchMask::from_record(&record(2, 1, &[3, 4], &[1, 2, 9]));
    let c = MatchMask::from_record(&record(3, 1, &[1, 2, 3, 4], &[9]));
    assert!(matches_query(&a, &vec![1, 2], &vec![3, 4]));
    assert!(matches_query(&b, &vec![1, 2], &vec![3, 4]));
    assert!(!matches_query(&c, &vec![1, 2], &vec![3, 4]));
}

#[test]
fn end_to_end_page_flush_query() {
    let mut c = Collector::new(args(1, 2), 0);
    let page = MatchHistory {
        matches: vec![
            record(100, 10, &[1, 2, 3, 4, 5], &[6, 7, 8, 9, 10]),
            record(101, 11, &[1, 11, 12, 13, 14], &[15, 16, 17, 18, 19]),
            record(102, 9, &[20, 21, 22, 23, 24], &[25, 26, 27, 28, 29]),
        ],
    };
    assert_eq!(c.next_draw(), Draw::Fetch { credential: 0, start: 0, count: PAGE_SIZE });
    assert_eq!(c.request(FetchOutcome::Page(page)), RequestStep::Continue);
    assert_eq!(c.cursor(), 12);
    assert_eq!(ids(c.index().bucket(1)), vec![100, 101]);
    assert_eq!(ids(c.index().bucket(6)), vec![100]);
    // flush: persist every pending bucket, then clear it
    let mut store: Vec<MatchDraft> = Vec::new();
    let mut step = c.save_step(None);
    while let SaveStep::Persist { hero } = step {
        store.extend(drafts_of(c.index().bucket(hero)));
        step = c.save_step(Some((hero, true)));
    }
    assert_eq!(step, SaveStep::Done);
    assert_eq!(c.index().next_pending(0), None);
    assert!(c.index().bucket(1).is_empty());
    let found: Vec<u64> = c_index_masks(&store)
        .iter()
        .filter(|m| matches_query(m, &vec![1], &vec![6]))
        .map(|m| m.match_id)
        .collect();
    assert!(found.contains(&100));
    assert!(!found.contains(&101));
}

fn c_index_masks(rows: &[MatchDraft]) -> Vec<MatchMask> {
    rows.iter()
        .map(|d| {
            let r = record(d.match_id, 0, &d.radiant, &d.dire);
            MatchMask::from_record(&r)
        })
        .collect()
}

#[test]
fn fatal_failure_stops_loop() {
    let mut c = Collector::new(args(2, 10), 0);
    assert_eq!(c.next_draw(), Draw::Fetch { credential: 0, start: 0, count: PAGE_SIZE });
    let page = MatchHistory { matches: vec![record(1, 50, &[1, 2, 3, 4, 5], &[6, 7, 8, 9, 10])] };
    assert_eq!(c.request(FetchOutcome::Page(page)), RequestStep::Continue);
    assert_eq!(c.next_draw(), Draw::Fetch { credential: 1, start: 51, count: PAGE_SIZE });
    assert_eq!(c.request(FetchOutcome::ShapeMismatch), RequestStep::Fatal { cursor: 51 });
    // what was buffered is still there for the final flush
    assert_eq!(ids(c.index().bucket(1)), vec![1]);
    assert_eq!(c.next_draw(), Draw::Stop);
    assert_eq!(c.next_draw(), Draw::Stop);
}

#[test]
fn transient_failure_backs_off() {
    let mut c = Collector::new(args(1, 10), 0);
    assert_eq!(c.request(FetchOutcome::Transient), RequestStep::Cooldown { millis: COOLDOWN_MILLIS });
    assert_eq!(COOLDOWN_MILLIS, 5000);
    assert_eq!(c.rate().interval_nanos(), 20_000 * MS);
    assert_eq!(c.cursor(), 0);
    assert_eq!(c.next_draw(), Draw::Fetch { credential: 0, start: 0, count: PAGE_SIZE });
}

#[test]
fn short_page_speeds_up_then_slows_down() {
    let mut c = Collector::new(args(1, 10), 0);
    let page = MatchHistory { matches: vec![record(1, 3, &[1], &[2])] };
    c.request(FetchOutcome::Page(page));
    assert_eq!(c.rate().interval_nanos(), 18_000 * MS);
    let full = MatchHistory { matches: (0..100).map(|i| record(i, 10 + i, &[1], &[2])).collect() };
    c.request(FetchOutcome::Page(full));
    assert_eq!(c.rate().interval_nanos(), 16_200 * MS);
    assert_eq!(c.cursor(), 110);
}

#[test]
fn round_robin_with_flush_per_batch() {
    let mut c = Collector::new(args(3, 2), 0);
    let draws: Vec<Draw> = (0..9).map(|_| c.next_draw()).collect();
    assert_eq!(
        draws,
        vec![
            Draw::Fetch { credential: 0, start: 0, count: PAGE_SIZE },
            Draw::Fetch { credential: 1, start: 0, count: PAGE_SIZE },
            Draw::Flush,
            Draw::Fetch { credential: 2, start: 0, count: PAGE_SIZE },
            Draw::Fetch { credential: 0, start: 0, count: PAGE_SIZE },
            Draw::Flush,
            Draw::Fetch { credential: 1, start: 0, count: PAGE_SIZE },
            Draw::Fetch { credential: 2, start: 0, count: PAGE_SIZE },
            Draw::Flush,
        ]
    );
    let mut none = Collector::new(args(0, 2), 0);
    assert_eq!(none.next_draw(), Draw::Stop);
}

#[test]
fn args_validity() {
    assert!(args(1, 1).is_valid());
    let mut a = args(1, 0);
    assert!(!a.is_valid());
    a.insert_batch_size = 3;
    a.min_interval = 0;
    assert!(!a.is_valid());
    a.min_interval = 70000;
    assert!(!a.is_valid());
}

#[test]
fn page_sequence_numbers_fit() {
    let ok = MatchHistory { matches: vec![record(1, u64::MAX - 1, &[1], &[2])] };
    assert!(ok.sequence_numbers_fit());
    let bad = MatchHistory { matches: vec![record(1, 3, &[1], &[2]), record(2, u64::MAX, &[1], &[2])] };
    assert!(!bad.sequence_numbers_fit());
}

#[test]
fn collector_keeps_keys_and_proxy() {
    let mut a = args(3, 2);
    a.proxy = Some("socks5://proxy:1080".to_string());
    let c = Collector::new(a, 0);
    assert_eq!(c.keys(), &vec!["key0".to_string(), "key1".to_string(), "key2".to_string()]);
    assert_eq!(c.proxy(), &Some("socks5://proxy:1080".to_string()));
}

#[test]
fn save_step_stops_at_failure_and_keeps_bucket() {
    let mut c = Collector::new(args(1, 2), 0);
    let page = MatchHistory { matches: vec![record(1, 1, &[1, 2, 3, 4, 5], &[6, 7, 8, 9, 10])] };
    c.request(FetchOutcome::Page(page));
    assert_eq!(c.save_step(None), SaveStep::Persist { hero: 1 });
    assert_eq!(c.save_step(Some((1, true))), SaveStep::Persist { hero: 2 });
    assert_eq!(c.save_step(Some((2, true))), SaveStep::Persist { hero: 3 });
    assert_eq!(c.save_step(Some((3, false))), SaveStep::Stop);
    assert!(c.index().bucket(1).is_empty());
    assert!(c.index().bucket(2).is_empty());
    assert_eq!(ids(c.index().bucket(3)), vec![1]);
    assert_eq!(ids(c.index().bucket(4)), vec![1]);
    let page = MatchHistory { matches: vec![record(2, 2, &[3, 11, 12, 13, 14], &[15, 16, 17, 18, 19])] };
    c.request(FetchOutcome::Page(page));
    assert_eq!(c.save_step(None), SaveStep::Persist { hero: 3 });
    assert_eq!(ids(c.index().bucket(3)), vec![1, 2]);
}

#[test]
fn governor_largest_bounds() {
    let mut r = RateControl::new(1, u64::MAX, 0);
    for _ in 0..80 {
        r.slow_down();
    }
    assert_eq!(r.interval_nanos(), u64::MAX as u128 * MS);
    assert_eq!(r.deadline(), u64::MAX);
    r.speed_up();
    assert_eq!(r.interval_nanos(), u64::MAX as u128 * MS * 9 / 10);
}
