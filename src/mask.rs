//! Roster transform: one match's players to a two-sided hero-presence mask.
use primitive_types::U256;
use vstd::prelude::*;

verus! {

/// The 256-bit integer of `primitive_types`, seen through its four
/// little-endian 64-bit words.
#[verifier::external_type_specification]
pub struct ExU256(U256);

/// One player entry of a match: the hero played and the slot byte.
#[derive(Clone, Copy, Debug, PartialEq, Eq)]
pub struct Player {
    pub hero_id: u8,
    pub player_slot: u8,
}

/// One match as the feed reports it.
#[derive(Clone, Debug)]
pub struct MatchRecord {
    pub match_id: u64,
    pub match_seq_num: u64,
    pub players: Vec<Player>,
}

/// One page of the feed.
#[derive(Clone, Debug)]
pub struct MatchHistory {
    pub matches: Vec<MatchRecord>,
}

/// The two opposing teams of a match.
#[derive(Clone, Copy, Debug, PartialEq, Eq, Hash, Structural)]
pub enum Side {
    Radiant,
    Dire,
}

/// The side a slot byte denotes: its high bit marks the Dire side.
pub open spec fn side_of_slot(slot: u8) -> Side {
    if slot & 0x80u8 != 0 {
        Side::Dire
    } else {
        Side::Radiant
    }
}

impl From<u8> for Side {
    fn from(value: u8) -> (r: Side)
        ensures
            r == side_of_slot(value),
    {
        if value & 0x80u8 != 0 {
            Side::Dire
        } else {
            Side::Radiant
        }
    }
}

impl vstd::std_specs::convert::FromSpecImpl<u8> for Side {
    open spec fn obeys_from_spec() -> bool {
        true
    }

    open spec fn from_spec(v: u8) -> Side {
        side_of_slot(v)
    }
}

impl Side {
    /// The lower-case name of the side, as the store's columns are named.
    pub fn name(&self) -> (r: &'static str)
        ensures
            r@ == side_name(*self),
    {
        match self {
            Side::Radiant => "radiant",
            Side::Dire => "dire",
        }
    }
}

pub open spec fn side_name(s: Side) -> Seq<char> {
    match s {
        Side::Radiant => "radiant"@,
        Side::Dire => "dire"@,
    }
}

/// Bit `k` of a 64-bit word.
pub open spec fn word_bit(w: u64, k: u64) -> bool {
    (w >> k) & 1u64 == 1u64
}

/// The set of bit positions (below 256) that are set in `x`.
pub open spec fn bits_of(x: U256) -> Set<nat> {
    Set::new(|h: nat| h < 256 && word_bit(x.0[(h / 64) as int], (h % 64) as u64))
}

/// The heroes that the players of `ps` play on side `side`.
pub open spec fn heroes_on(ps: Seq<Player>, side: Side) -> Set<nat> {
    Set::new(
        |h: nat|
            exists|i: int|
                0 <= i < ps.len() && ps[i].hero_id as nat == h && side_of_slot(ps[i].player_slot)
                    == side,
    )
}

/// What a mask stands for: a match identity and the hero set of each side.
pub struct MaskModel {
    pub match_id: u64,
    pub radiant: Set<nat>,
    pub dire: Set<nat>,
}

/// The mask that a match record determines.
pub open spec fn record_model(m: MatchRecord) -> MaskModel {
    MaskModel {
        match_id: m.match_id,
        radiant: heroes_on(m.players@, Side::Radiant),
        dire: heroes_on(m.players@, Side::Dire),
    }
}

/// Match identity and the heroes present on each side, one bit per hero.
#[derive(Clone, Copy, Debug)]
pub struct MatchMask {
    pub match_id: u64,
    pub radiant: U256,
    pub dire: U256,
}

impl View for MatchMask {
    type V = MaskModel;

    open spec fn view(&self) -> MaskModel {
        MaskModel { match_id: self.match_id, radiant: bits_of(self.radiant), dire: bits_of(self.dire) }
    }
}

proof fn lemma_word_set_bit(w: u64, k: u64, j: u64)
    requires
        k < 64,
        j < 64,
    ensures
        word_bit(w | (1u64 << k), j) <==> (word_bit(w, j) || j == k),
{
    assert(((w | (1u64 << k)) >> j) & 1u64 == 1u64 <==> (((w >> j) & 1u64 == 1u64) || j == k))
        by (bit_vector)
        requires
            k < 64,
            j < 64,
    ;
}

proof fn lemma_word_zero(j: u64)
    requires
        j < 64,
    ensures
        !word_bit(0u64, j),
{
    assert((0u64 >> j) & 1u64 != 1u64) by (bit_vector);
}

/// `x` with bit `h` set.
pub open spec fn with_bit(x: U256, h: u8) -> U256 {
    let i = (h / 64) as int;
    let b = 1u64 << ((h % 64) as u64);
    U256(
        [
            if i == 0 { x.0[0] | b } else { x.0[0] },
            if i == 1 { x.0[1] | b } else { x.0[1] },
            if i == 2 { x.0[2] | b } else { x.0[2] },
            if i == 3 { x.0[3] | b } else { x.0[3] },
        ],
    )
}

/// The mask with no bit set.
pub open spec fn empty_mask() -> U256 {
    U256([0u64, 0u64, 0u64, 0u64])
}

/// The mask word of side `side` over the players `ps`, bit by bit in order.
pub open spec fn side_mask(ps: Seq<Player>, side: Side) -> U256
    decreases ps.len(),
{
    if ps.len() == 0 {
        empty_mask()
    } else {
        let rest = side_mask(ps.drop_last(), side);
        if side_of_slot(ps.last().player_slot) == side {
            with_bit(rest, ps.last().hero_id)
        } else {
            rest
        }
    }
}

/// The mask a match record gives.
pub open spec fn mask_of(m: MatchRecord) -> MatchMask {
    MatchMask {
        match_id: m.match_id,
        radiant: side_mask(m.players@, Side::Radiant),
        dire: side_mask(m.players@, Side::Dire),
    }
}

/// Sets bit `h` of `x`.
fn set_hero_bit(x: &mut U256, h: u8)
    ensures
        bits_of(*final(x)) == bits_of(*old(x)).insert(h as nat),
        *final(x) == with_bit(*old(x), h),
{
    let i: usize = (h / 64) as usize;
    let k: u64 = (h % 64) as u64;
    let w: u64 = x.0[i] | (1u64 << k);
    x.0[i] = w;
    proof {
        let a = bits_of(*old(x));
        let b = bits_of(*final(x));
        assert forall|g: nat| b.contains(g) <==> a.insert(h as nat).contains(g) by {
            if g < 256 {
                let gi = (g / 64) as int;
                let gk = (g % 64) as u64;
                if gi == i as int {
                    lemma_word_set_bit(old(x).0[gi], k, gk);
                    assert(gk == k <==> g == h as nat);
                } else {
                    assert(g != h as nat);
                }
            }
        }
        assert(b =~= a.insert(h as nat));
        assert(final(x).0 =~= with_bit(*old(x), h).0);
    }
}

fn zero_u256() -> (r: U256)
    ensures
        bits_of(r) == Set::<nat>::empty(),
        r == empty_mask(),
{
    let r = U256([0u64, 0u64, 0u64, 0u64]);
    proof {
        assert forall|g: nat| !bits_of(r).contains(g) by {
            if g < 256 {
                lemma_word_zero((g % 64) as u64);
            }
        }
        assert(bits_of(r) =~= Set::<nat>::empty());
        assert(r.0 =~= empty_mask().0);
    }
    r
}

impl MatchMask {
    /// The mask of one match: for each player, the bit of its hero on its side.
    pub fn from_record(value: &MatchRecord) -> (r: MatchMask)
        ensures
            r@ == record_model(*value),
            r == mask_of(*value),
    {
        let mut radiant = zero_u256();
        let mut dire = zero_u256();
        let ps = &value.players;
        let mut i: usize = 0;
        assert(ps@.take(0) =~= Seq::<Player>::empty());
        while i < ps.len()
            invariant
                i <= ps.len(),
                bits_of(radiant) == heroes_on(ps@.take(i as int), Side::Radiant),
                bits_of(dire) == heroes_on(ps@.take(i as int), Side::Dire),
                radiant == side_mask(ps@.take(i as int), Side::Radiant),
                dire == side_mask(ps@.take(i as int), Side::Dire),
            decreases ps.len() - i,
        {
            let p = ps[i];
            let side = Side::from(p.player_slot);
            proof {
                lemma_heroes_on_push(ps@.take(i as int), p, Side::Radiant);
                lemma_heroes_on_push(ps@.take(i as int), p, Side::Dire);
                assert(ps@.take(i as int).push(p) == ps@.take(i + 1));
                assert(ps@.take(i + 1).drop_last() == ps@.take(i as int));
            }
            match side {
                Side::Radiant => set_hero_bit(&mut radiant, p.hero_id),
                Side::Dire => set_hero_bit(&mut dire, p.hero_id),
            }
            i = i + 1;
        }
        assert(ps@.take(ps.len() as int) == ps@);
        MatchMask { match_id: value.match_id, radiant, dire }
    }
}

impl<'a> From<&'a MatchRecord> for MatchMask {
    /// The mask of one match: for each player, the bit of its hero on its side.
    fn from(value: &'a MatchRecord) -> (r: MatchMask)
        ensures
            r@ == record_model(*value),
            r == mask_of(*value),
    {
        MatchMask::from_record(value)
    }
}

impl<'a> vstd::std_specs::convert::FromSpecImpl<&'a MatchRecord> for MatchMask {
    open spec fn obeys_from_spec() -> bool {
        true
    }

    open spec fn from_spec(v: &'a MatchRecord) -> MatchMask {
        mask_of(*v)
    }
}

proof fn lemma_heroes_on_push(ps: Seq<Player>, p: Player, side: Side)
    ensures
        heroes_on(ps.push(p), side) == if side_of_slot(p.player_slot) == side {
            heroes_on(ps, side).insert(p.hero_id as nat)
        } else {
            heroes_on(ps, side)
        },
{
    let q = ps.push(p);
    let rhs = if side_of_slot(p.player_slot) == side {
        heroes_on(ps, side).insert(p.hero_id as nat)
    } else {
        heroes_on(ps, side)
    };
    assert forall|h: nat| heroes_on(q, side).contains(h) <==> rhs.contains(h) by {
        if heroes_on(q, side).contains(h) {
            let i = choose|i: int|
                0 <= i < q.len() && q[i].hero_id as nat == h && side_of_slot(q[i].player_slot)
                    == side;
            if i < ps.len() {
                assert(q[i] == ps[i]);
            }
        }
        if rhs.contains(h) {
            if heroes_on(ps, side).contains(h) {
                let i = choose|i: int|
                    0 <= i < ps.len() && ps[i].hero_id as nat == h && side_of_slot(
                        ps[i].player_slot,
                    ) == side;
                assert(q[i] == ps[i]);
            } else {
                assert(q[ps.len() as int] == p);
            }
        }
    }
    assert(heroes_on(q, side) =~= rhs);
}

/// A match identity as a row of its own.
#[derive(Clone, Copy, Debug, PartialEq, Eq, Structural)]
pub struct MatchId {
    pub match_id: u64,
}

impl From<u64> for MatchId {
    fn from(value: u64) -> (r: MatchId)
        ensures
            r.match_id == value,
    {
        MatchId { match_id: value }
    }
}

impl vstd::std_specs::convert::FromSpecImpl<u64> for MatchId {
    open spec fn obeys_from_spec() -> bool {
        true
    }

    open spec fn from_spec(v: u64) -> MatchId {
        MatchId { match_id: v }
    }
}

} // verus!
