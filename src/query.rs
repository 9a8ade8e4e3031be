//! Store gateway: the persisted row of a mask, and the subset query that reads
//! rows back by the heroes on each side.
use crate::mask::{bits_of, MaskModel, MatchMask, Side};
use itertools::Itertools;
use vstd::prelude::*;
use vstd::string::StringExecFns;

verus! {

/// The decimal digit `d`.
pub open spec fn digit(d: nat) -> char {
    "0123456789"@[d as int]
}

/// Decimal form of `n`, without leading zeros.
pub open spec fn decimal(n: nat) -> Seq<char>
    decreases n,
{
    if n < 10 {
        seq![digit(n)]
    } else {
        decimal(n / 10).push(digit(n % 10))
    }
}

/// Decimal forms of the identities, separated by commas.
pub open spec fn joined(s: Seq<u8>) -> Seq<char>
    decreases s.len(),
{
    if s.len() == 0 {
        Seq::empty()
    } else if s.len() == 1 {
        decimal(s[0] as nat)
    } else {
        joined(s.drop_last()) + ","@ + decimal(s.last() as nat)
    }
}

/// Relies on itertools::Itertools::format: each item's decimal form, with the
/// separator between neighbours.
#[verifier::external_body]
fn join_ids(heroes: &Vec<u8>) -> (r: String)
    ensures
        r@ == joined(heroes@),
{
    heroes.iter().format(",").to_string()
}

fn digit_text(d: u64) -> (r: &'static str)
    requires
        d < 10,
    ensures
        r@ == seq![digit(d as nat)],
{
    proof {
        reveal_strlit("0123456789");
        reveal_strlit("0");
        reveal_strlit("1");
        reveal_strlit("2");
        reveal_strlit("3");
        reveal_strlit("4");
        reveal_strlit("5");
        reveal_strlit("6");
        reveal_strlit("7");
        reveal_strlit("8");
        reveal_strlit("9");
    }
    let r = match d {
        0 => "0",
        1 => "1",
        2 => "2",
        3 => "3",
        4 => "4",
        5 => "5",
        6 => "6",
        7 => "7",
        8 => "8",
        _ => "9",
    };
    assert(r@ =~= seq![digit(d as nat)]);
    r
}

/// The decimal form of `n`.
fn decimal_text(n: u64) -> (r: String)
    ensures
        r@ == decimal(n as nat),
    decreases n,
{
    if n < 10 {
        let mut s = String::new();
        push_str(&mut s, digit_text(n));
        assert(s@ =~= decimal(n as nat));
        s
    } else {
        let mut s = decimal_text(n / 10);
        push_str(&mut s, digit_text(n % 10));
        assert(s@ =~= decimal(n as nat));
        s
    }
}

/// The persisted row of a match: its identity and the heroes of each side in
/// ascending order, one element per hero.
#[derive(Clone, Debug)]
pub struct MatchDraft {
    pub match_id: u64,
    pub radiant: Vec<u8>,
    pub dire: Vec<u8>,
}

/// `list` names exactly the heroes of `heroes`, ascending and each once.
pub open spec fn lists_exactly(list: Seq<u8>, heroes: Set<nat>) -> bool {
    &&& forall|i: int, j: int| 0 <= i < j < list.len() ==> list[i] < list[j]
    &&& forall|i: int| 0 <= i < list.len() ==> heroes.contains(#[trigger] list[i] as nat)
    &&& forall|h: nat|
        #![trigger heroes.contains(h)]
        heroes.contains(h) ==> exists|i: int| 0 <= i < list.len() && list[i] as nat == h
}

/// The row that holds what `m` holds.
pub open spec fn draft_of(d: MatchDraft, m: MaskModel) -> bool {
    &&& d.match_id == m.match_id
    &&& lists_exactly(d.radiant@, m.radiant)
    &&& lists_exactly(d.dire@, m.dire)
}

fn hero_list(x: &primitive_types::U256) -> (r: Vec<u8>)
    ensures
        lists_exactly(r@, bits_of(*x)),
{
    let mut r: Vec<u8> = Vec::new();
    let mut h: usize = 0;
    while h < 256
        invariant
            h <= 256,
            forall|i: int, j: int| 0 <= i < j < r@.len() ==> r@[i] < r@[j],
            forall|i: int| 0 <= i < r@.len() ==> (#[trigger] r@[i]) < h,
            forall|i: int| 0 <= i < r@.len() ==> bits_of(*x).contains(#[trigger] r@[i] as nat),
            forall|g: nat|
                #![trigger bits_of(*x).contains(g)]
                g < h && bits_of(*x).contains(g) ==> exists|i: int| 0 <= i < r@.len() && r@[i] as nat == g,
        decreases 256 - h,
    {
        if crate::index::has_bit(x, h as u8) {
            let ghost before = r@;
            r.push(h as u8);
            proof {
                assert forall|g: nat|
                    #![trigger bits_of(*x).contains(g)]
                    g < h + 1 && bits_of(*x).contains(g) implies exists|i: int|
                        0 <= i < r@.len() && r@[i] as nat == g by {
                    if g < h {
                        let i = choose|i: int| 0 <= i < before.len() && before[i] as nat == g;
                        assert(r@[i] == before[i]);
                    } else {
                        assert(r@[before.len() as int] as nat == g);
                    }
                }
            }
        }
        h = h + 1;
    }
    r
}

impl MatchDraft {
    /// The row of one mask.
    pub fn from_mask(m: &MatchMask) -> (r: MatchDraft)
        ensures
            draft_of(r, m@),
    {
        MatchDraft { match_id: m.match_id, radiant: hero_list(&m.radiant), dire: hero_list(&m.dire) }
    }
}

/// The rows of a bucket's worth of masks, in the same order.
pub fn drafts_of(masks: &Vec<MatchMask>) -> (r: Vec<MatchDraft>)
    ensures
        r@.len() == masks@.len(),
        forall|i: int| 0 <= i < r@.len() ==> draft_of(#[trigger] r@[i], masks@[i]@),
{
    let mut r: Vec<MatchDraft> = Vec::new();
    let mut i: usize = 0;
    while i < masks.len()
        invariant
            i <= masks.len(),
            r@.len() == i,
            forall|j: int| 0 <= j < i ==> draft_of(#[trigger] r@[j], masks@[j]@),
        decreases masks.len() - i,
    {
        r.push(MatchDraft::from_mask(&masks[i]));
        i = i + 1;
    }
    r
}

/// Predicate text: every hero of `heroes` is on `side`.
pub open spec fn side_check(side: Side, heroes: Seq<u8>) -> Seq<char> {
    "(bitmapHasAll(bitmapBuild("@ + crate::mask::side_name(side) + "), bitmapBuild(["@ + joined(
        heroes,
    ) + "])))"@
}

/// The two alternatives of the query's condition, or none when both sets are empty.
pub open spec fn conditions(team1: Seq<u8>, team2: Seq<u8>) -> Option<(Seq<char>, Seq<char>)> {
    if team1.len() == 0 && team2.len() == 0 {
        None
    } else if team1.len() == 0 {
        Some((side_check(Side::Radiant, team2), side_check(Side::Dire, team2)))
    } else if team2.len() == 0 {
        Some((side_check(Side::Radiant, team1), side_check(Side::Dire, team1)))
    } else {
        Some(
            (
                "("@ + side_check(Side::Radiant, team1) + " AND "@ + side_check(Side::Dire, team2)
                    + ")"@,
                "("@ + side_check(Side::Radiant, team2) + " AND "@ + side_check(Side::Dire, team1)
                    + ")"@,
            ),
        )
    }
}

/// The full query text, newest match first, with paging.
pub open spec fn query_text(
    database: Seq<char>,
    team1: Seq<u8>,
    team2: Seq<u8>,
    limit: u64,
    offset: u64,
) -> Option<Seq<char>> {
    match conditions(team1, team2) {
        None => None,
        Some((c1, c2)) => Some(
            "SELECT ?fields FROM "@ + database + ".drafts WHERE ("@ + c1 + " OR "@ + c2
                + ") ORDER BY match_id DESC LIMIT "@ + decimal(limit as nat) + " OFFSET "@
                + decimal(offset as nat),
        ),
    }
}

/// Whether every hero of `heroes` is in `side`.
pub open spec fn has_all(side: Set<nat>, heroes: Seq<u8>) -> bool {
    forall|i: int| 0 <= i < heroes.len() ==> side.contains(#[trigger] heroes[i] as nat)
}

/// Whether a row with mask `m` satisfies the query for `team1` and `team2`:
/// one set is searched on either side, two sets on opposite sides either way.
pub open spec fn selects(team1: Seq<u8>, team2: Seq<u8>, m: MaskModel) -> bool {
    if team1.len() == 0 && team2.len() == 0 {
        false
    } else if team1.len() == 0 {
        has_all(m.radiant, team2) || has_all(m.dire, team2)
    } else if team2.len() == 0 {
        has_all(m.radiant, team1) || has_all(m.dire, team1)
    } else {
        (has_all(m.radiant, team1) && has_all(m.dire, team2)) || (has_all(m.radiant, team2)
            && has_all(m.dire, team1))
    }
}

fn push_str(s: &mut String, t: &str)
    ensures
        final(s)@ == old(s)@ + t@,
{
    s.append(t);
}

fn side_check_text(side: Side, heroes: &Vec<u8>) -> (r: String)
    ensures
        r@ == side_check(side, heroes@),
{
    let mut s = String::new();
    push_str(&mut s, "(bitmapHasAll(bitmapBuild(");
    push_str(&mut s, side.name());
    push_str(&mut s, "), bitmapBuild([");
    let ids = join_ids(heroes);
    push_str(&mut s, ids.as_str());
    push_str(&mut s, "])))");
    proof {
        reveal_strlit("(bitmapHasAll(bitmapBuild(");
        reveal_strlit("), bitmapBuild([");
        reveal_strlit("])))");
    }
    assert(s@ =~= side_check(side, heroes@));
    s
}

fn both_sides_text(first: &Vec<u8>, second: &Vec<u8>) -> (r: String)
    ensures
        r@ == "("@ + side_check(Side::Radiant, first@) + " AND "@ + side_check(Side::Dire, second@)
            + ")"@,
{
    let mut s = String::new();
    push_str(&mut s, "(");
    let a = side_check_text(Side::Radiant, first);
    push_str(&mut s, a.as_str());
    push_str(&mut s, " AND ");
    let b = side_check_text(Side::Dire, second);
    push_str(&mut s, b.as_str());
    push_str(&mut s, ")");
    assert(s@ =~= "("@ + side_check(Side::Radiant, first@) + " AND "@ + side_check(
        Side::Dire,
        second@,
    ) + ")"@);
    s
}

/// The query that reads back the matches holding `team1` and `team2`, or
/// `None` when both are empty and no scan is needed.
pub fn query_matches(database: &str, team1: &Vec<u8>, team2: &Vec<u8>, limit: u64, offset: u64) -> (r:
    Option<String>)
    ensures
        r matches Some(q) <==> query_text(database@, team1@, team2@, limit, offset) is Some,
        r matches Some(q) ==> query_text(database@, team1@, team2@, limit, offset) == Some(q@),
        r is None <==> team1@.len() == 0 && team2@.len() == 0,
{
    let (c1, c2) = if team1.len() == 0 && team2.len() == 0 {
        return None;
    } else if team1.len() == 0 {
        (side_check_text(Side::Radiant, team2), side_check_text(Side::Dire, team2))
    } else if team2.len() == 0 {
        (side_check_text(Side::Radiant, team1), side_check_text(Side::Dire, team1))
    } else {
        (both_sides_text(team1, team2), both_sides_text(team2, team1))
    };
    let mut s = String::new();
    push_str(&mut s, "SELECT ?fields FROM ");
    push_str(&mut s, database);
    push_str(&mut s, ".drafts WHERE (");
    push_str(&mut s, c1.as_str());
    push_str(&mut s, " OR ");
    push_str(&mut s, c2.as_str());
    push_str(&mut s, ") ORDER BY match_id DESC LIMIT ");
    let l = decimal_text(limit);
    push_str(&mut s, l.as_str());
    push_str(&mut s, " OFFSET ");
    let o = decimal_text(offset);
    push_str(&mut s, o.as_str());
    proof {
        let (d1, d2) = conditions(team1@, team2@)->0;
        assert(c1@ == d1 && c2@ == d2);
    }
    assert(s@ =~= query_text(database@, team1@, team2@, limit, offset)->0);
    Some(s)
}

fn has_all_bits(x: &primitive_types::U256, heroes: &Vec<u8>) -> (r: bool)
    ensures
        r == has_all(bits_of(*x), heroes@),
{
    let mut i: usize = 0;
    while i < heroes.len()
        invariant
            i <= heroes.len(),
            forall|j: int| 0 <= j < i ==> bits_of(*x).contains(#[trigger] heroes@[j] as nat),
        decreases heroes.len() - i,
    {
        if !crate::index::has_bit(x, heroes[i]) {
            return false;
        }
        i = i + 1;
    }
    true
}

/// Whether `mask` satisfies the query for `team1` and `team2`, as the store
/// evaluates the query's condition on a row.
pub fn matches_query(mask: &MatchMask, team1: &Vec<u8>, team2: &Vec<u8>) -> (r: bool)
    ensures
        r == selects(team1@, team2@, mask@),
{
    if team1.len() == 0 && team2.len() == 0 {
        false
    } else if team1.len() == 0 {
        has_all_bits(&mask.radiant, team2) || has_all_bits(&mask.dire, team2)
    } else if team2.len() == 0 {
        has_all_bits(&mask.radiant, team1) || has_all_bits(&mask.dire, team1)
    } else {
        (has_all_bits(&mask.radiant, team1) && has_all_bits(&mask.dire, team2)) || (has_all_bits(
            &mask.radiant,
            team2,
        ) && has_all_bits(&mask.dire, team1))
    }
}

} // verus!
