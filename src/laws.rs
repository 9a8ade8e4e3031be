//! Properties that relate several operations of the library.
use crate::index::{hero_entries, is_next_cursor, BUCKETS};
use crate::mask::{heroes_on, MaskModel, MatchRecord, Side};
use crate::query::{has_all, selects};
use crate::rate::{pacing_wf, slowed_down, sped_up, Pacing};
use vstd::prelude::*;

verus! {

/// The cursor a page gives does not depend on the order of its matches: two
/// pages holding the same matches, in any order, advance a cursor alike.
pub proof fn lemma_cursor_order_free(
    cursor: u64,
    ms1: Seq<MatchRecord>,
    ms2: Seq<MatchRecord>,
    r1: u64,
    r2: u64,
)
    requires
        forall|i: int| 0 <= i < ms1.len() ==> ms2.contains(#[trigger] ms1[i]),
        forall|j: int| 0 <= j < ms2.len() ==> ms1.contains(#[trigger] ms2[j]),
        is_next_cursor(r1, cursor, ms1),
        is_next_cursor(r2, cursor, ms2),
    ensures
        r1 == r2,
{
    if r1 != cursor {
        let i = choose|i: int| 0 <= i < ms1.len() && r1 == ms1[i].match_seq_num + 1;
        let j = choose|j: int| 0 <= j < ms2.len() && ms2[j] == ms1[i];
        assert(r2 >= ms2[j].match_seq_num + 1);
    }
    if r2 != cursor {
        let j = choose|j: int| 0 <= j < ms2.len() && r2 == ms2[j].match_seq_num + 1;
        let i = choose|i: int| 0 <= i < ms1.len() && ms1[i] == ms2[j];
        assert(r1 >= ms1[i].match_seq_num + 1);
    }
}

/// Hero identity 0 never receives an entry, whatever the matches.
pub proof fn lemma_hero_zero_never_buffered(ms: Seq<MatchRecord>)
    ensures
        hero_entries(ms, 0) == Seq::<MaskModel>::empty(),
    decreases ms.len(),
{
    if ms.len() > 0 {
        lemma_hero_zero_never_buffered(ms.drop_last());
        assert(hero_entries(ms, 0) =~= Seq::<MaskModel>::empty());
    }
}

/// A second player with the same hero on the same side changes nothing in the
/// mask: dropping one of the two gives the same mask.
pub proof fn lemma_duplicate_hero_once(m: MatchRecord, i: int, j: int)
    requires
        0 <= i < m.players@.len(),
        0 <= j < m.players@.len(),
        i != j,
        m.players@[i].hero_id == m.players@[j].hero_id,
        crate::mask::side_of_slot(m.players@[i].player_slot) == crate::mask::side_of_slot(
            m.players@[j].player_slot,
        ),
    ensures
        heroes_on(m.players@.remove(j), Side::Radiant) == heroes_on(m.players@, Side::Radiant),
        heroes_on(m.players@.remove(j), Side::Dire) == heroes_on(m.players@, Side::Dire),
{
    let ps = m.players@;
    let qs = ps.remove(j);
    let k = if i < j { i } else { i - 1 };
    assert(qs[k] == ps[i]);
    assert forall|side: Side| #[trigger] heroes_on(qs, side) == heroes_on(ps, side) by {
        assert forall|h: nat| heroes_on(ps, side).contains(h) implies heroes_on(qs, side).contains(h) by {
            let a = choose|a: int|
                0 <= a < ps.len() && ps[a].hero_id as nat == h && crate::mask::side_of_slot(
                    ps[a].player_slot,
                ) == side;
            if a < j {
                assert(qs[a] == ps[a]);
            } else if a > j {
                assert(qs[a - 1] == ps[a]);
            } else {
                assert(qs[k] == ps[i]);
            }
        }
        assert forall|h: nat| heroes_on(qs, side).contains(h) implies heroes_on(ps, side).contains(h) by {
            let a = choose|a: int|
                0 <= a < qs.len() && qs[a].hero_id as nat == h && crate::mask::side_of_slot(
                    qs[a].player_slot,
                ) == side;
            if a < j {
                assert(qs[a] == ps[a]);
            } else {
                assert(qs[a] == ps[a + 1]);
            }
        }
        assert(heroes_on(qs, side) =~= heroes_on(ps, side));
    }
}

/// The interval after `n` slow-downs.
pub open spec fn slowed_down_n(p: Pacing, n: nat) -> int
    decreases n,
{
    if n == 0 {
        p.interval
    } else {
        slowed_down(slowed_down_n(p, (n - 1) as nat), p.max_interval)
    }
}

/// The interval after `n` speed-ups.
pub open spec fn sped_up_n(p: Pacing, n: nat) -> int
    decreases n,
{
    if n == 0 {
        p.interval
    } else {
        sped_up(sped_up_n(p, (n - 1) as nat), p.min_interval)
    }
}

/// Repeated slow-downs never take the interval above the maximum.
pub proof fn lemma_slow_down_bounded(p: Pacing, n: nat)
    requires
        pacing_wf(p),
        n > 0,
    ensures
        slowed_down_n(p, n) <= p.max_interval,
{
}

/// Repeated speed-ups never take the interval below the minimum.
pub proof fn lemma_speed_up_bounded(p: Pacing, n: nat)
    requires
        pacing_wf(p),
    ensures
        sped_up_n(p, n) >= p.min_interval,
    decreases n,
{
    if n > 0 {
        lemma_speed_up_bounded(p, (n - 1) as nat);
    }
}

/// The buckets after the buckets of `heroes` were persisted and cleared, one by one.
pub open spec fn cleared_all(v: Seq<Seq<MaskModel>>, heroes: Seq<u8>) -> Seq<Seq<MaskModel>>
    decreases heroes.len(),
{
    if heroes.len() == 0 {
        v
    } else {
        cleared_all(v, heroes.drop_last()).update(heroes.last() as int, Seq::empty())
    }
}

/// A flush clears only the buckets it persisted: those are empty, and every
/// other bucket, the one whose persistence failed included, keeps its entries;
/// a later page then appends to them.
pub proof fn lemma_flush_keeps_unpersisted(
    before: Seq<Seq<MaskModel>>,
    persisted: Seq<u8>,
    page: Seq<MatchRecord>,
    after: Seq<Seq<MaskModel>>,
    failed: u8,
)
    requires
        before.len() == BUCKETS,
        after.len() == BUCKETS,
        !persisted.contains(failed),
        forall|h: int|
            0 <= h < BUCKETS ==> #[trigger] after[h] == cleared_all(before, persisted)[h]
                + hero_entries(page, h as nat),
    ensures
        after[failed as int] == before[failed as int] + hero_entries(page, failed as nat),
        forall|k: int|
            0 <= k < persisted.len() ==> #[trigger] cleared_all(before, persisted)[persisted[k] as int]
                == Seq::<MaskModel>::empty(),
{
    lemma_cleared_all(before, persisted);
}

proof fn lemma_cleared_all(v: Seq<Seq<MaskModel>>, hs: Seq<u8>)
    requires
        v.len() == BUCKETS,
    ensures
        cleared_all(v, hs).len() == BUCKETS,
        forall|h: int|
            0 <= h < BUCKETS && !hs.contains(h as u8) ==> #[trigger] cleared_all(v, hs)[h] == v[h],
        forall|k: int|
            0 <= k < hs.len() ==> #[trigger] cleared_all(v, hs)[hs[k] as int] == Seq::<MaskModel>::empty(),
    decreases hs.len(),
{
    if hs.len() > 0 {
        let rest = hs.drop_last();
        lemma_cleared_all(v, rest);
        assert forall|h: int| 0 <= h < BUCKETS && !hs.contains(h as u8) implies #[trigger] cleared_all(
            v,
            hs,
        )[h] == v[h] by {
            assert(hs.last() != h as u8);
            if rest.contains(h as u8) {
                let k = choose|k: int| 0 <= k < rest.len() && rest[k] == h as u8;
                assert(hs[k] == rest[k]);
            }
        }
        assert forall|k: int| 0 <= k < hs.len() implies #[trigger] cleared_all(v, hs)[hs[k] as int]
            == Seq::<MaskModel>::empty() by {
            if k < hs.len() - 1 && hs[k] != hs.last() {
                assert(rest[k] == hs[k]);
            }
        }
    }
}

/// The set of heroes a query names.
pub open spec fn hero_set(team: Seq<u8>) -> Set<nat> {
    Set::new(|h: nat| exists|i: int| 0 <= i < team.len() && team[i] as nat == h)
}

/// What a query selects, in terms of sets: nothing for two empty sets; for one
/// set, the rows where it is within either side; for two, the rows where they
/// are within opposite sides, either way round.
pub proof fn lemma_query_selects(team1: Seq<u8>, team2: Seq<u8>, m: MaskModel)
    ensures
        team1.len() == 0 && team2.len() == 0 ==> !selects(team1, team2, m),
        team1.len() > 0 && team2.len() == 0 ==> (selects(team1, team2, m) <==> (
        hero_set(team1).subset_of(m.radiant) || hero_set(team1).subset_of(m.dire))),
        team1.len() == 0 && team2.len() > 0 ==> (selects(team1, team2, m) <==> (
        hero_set(team2).subset_of(m.radiant) || hero_set(team2).subset_of(m.dire))),
        team1.len() > 0 && team2.len() > 0 ==> (selects(team1, team2, m) <==> ((hero_set(
            team1,
        ).subset_of(m.radiant) && hero_set(team2).subset_of(m.dire)) || (hero_set(team2).subset_of(
            m.radiant,
        ) && hero_set(team1).subset_of(m.dire)))),
{
    lemma_has_all_subset(team1, m.radiant);
    lemma_has_all_subset(team1, m.dire);
    lemma_has_all_subset(team2, m.radiant);
    lemma_has_all_subset(team2, m.dire);
}

proof fn lemma_has_all_subset(team: Seq<u8>, side: Set<nat>)
    ensures
        has_all(side, team) <==> hero_set(team).subset_of(side),
{
    if has_all(side, team) {
        assert forall|h: nat| hero_set(team).contains(h) implies side.contains(h) by {
            let i = choose|i: int| 0 <= i < team.len() && team[i] as nat == h;
        }
    }
    if hero_set(team).subset_of(side) {
        assert forall|i: int| 0 <= i < team.len() implies side.contains(#[trigger] team[i] as nat) by {
            assert(hero_set(team).contains(team[i] as nat));
        }
    }
}

} // verus!
