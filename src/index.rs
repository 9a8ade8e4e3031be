//! Hero fan-out index: per-hero buckets of masks awaiting persistence.
use crate::mask::{bits_of, record_model, MaskModel, MatchHistory, MatchMask, MatchRecord};
use primitive_types::U256;
use vstd::prelude::*;

verus! {

/// Number of buckets: one per possible hero identity.
pub const BUCKETS: usize = 256;

/// Whether the mask names hero `h` on either side; hero 0 never counts.
pub open spec fn has_hero(m: MaskModel, h: nat) -> bool {
    h != 0 && (m.radiant.contains(h) || m.dire.contains(h))
}

/// The masks that a sequence of matches appends to the bucket of hero `h`, in order.
pub open spec fn hero_entries(ms: Seq<MatchRecord>, h: nat) -> Seq<MaskModel>
    decreases ms.len(),
{
    if ms.len() == 0 {
        Seq::empty()
    } else {
        let m = record_model(ms.last());
        hero_entries(ms.drop_last(), h) + if has_hero(m, h) {
            seq![m]
        } else {
            Seq::empty()
        }
    }
}

/// The abstract contents of a bucket.
pub open spec fn bucket_model(b: Seq<MatchMask>) -> Seq<MaskModel> {
    b.map_values(|m: MatchMask| m@)
}

/// Whether every sequence number of the page leaves room for its successor.
pub open spec fn page_fits(page: MatchHistory) -> bool {
    forall|i: int| 0 <= i < page.matches@.len() ==> page.matches@[i].match_seq_num < u64::MAX
}

/// The cursor after a page: the largest of `cursor` and every match's
/// sequence number plus one, stated without reference to the order of the page.
pub open spec fn is_next_cursor(r: u64, cursor: u64, ms: Seq<MatchRecord>) -> bool {
    &&& r >= cursor
    &&& forall|i: int| 0 <= i < ms.len() ==> r >= ms[i].match_seq_num + 1
    &&& (r == cursor || exists|i: int| 0 <= i < ms.len() && r == ms[i].match_seq_num + 1)
}

impl MatchHistory {
    /// Whether every sequence number of the page leaves room for its successor.
    pub fn sequence_numbers_fit(&self) -> (r: bool)
        ensures
            r == page_fits(*self),
    {
        let mut i: usize = 0;
        while i < self.matches.len()
            invariant
                i <= self.matches@.len(),
                forall|j: int| 0 <= j < i ==> self.matches@[j].match_seq_num < u64::MAX,
            decreases self.matches.len() - i,
        {
            if self.matches[i].match_seq_num == u64::MAX {
                return false;
            }
            i = i + 1;
        }
        true
    }
}

/// Buckets of masks keyed by hero identity.
pub struct HeroIndex {
    buckets: Vec<Vec<MatchMask>>,
}

pub(crate) fn has_bit(x: &U256, h: u8) -> (r: bool)
    ensures
        r == bits_of(*x).contains(h as nat),
{
    let w: u64 = x.0[(h / 64) as usize];
    let k: u64 = (h % 64) as u64;
    (w >> k) & 1u64 == 1u64
}

impl View for HeroIndex {
    type V = Seq<Seq<MaskModel>>;

    closed spec fn view(&self) -> Seq<Seq<MaskModel>> {
        self.buckets@.map_values(|b: Vec<MatchMask>| bucket_model(b@))
    }
}

impl HeroIndex {
    /// One bucket per hero identity, and the bucket of identity 0 is empty.
    pub closed spec fn wf(&self) -> bool {
        &&& self.buckets@.len() == BUCKETS
        &&& self.buckets@[0]@.len() == 0
    }

    /// An index with every bucket empty.
    pub fn new() -> (r: HeroIndex)
        ensures
            r.wf(),
            r@.len() == BUCKETS,
            forall|h: int| 0 <= h < BUCKETS ==> #[trigger] r@[h] == Seq::<MaskModel>::empty(),
    {
        let mut buckets: Vec<Vec<MatchMask>> = Vec::with_capacity(BUCKETS);
        let mut i: usize = 0;
        while i < BUCKETS
            invariant
                i <= BUCKETS,
                buckets@.len() == i,
                forall|h: int| 0 <= h < i ==> (#[trigger] buckets@[h])@.len() == 0,
            decreases BUCKETS - i,
        {
            buckets.push(Vec::new());
            i = i + 1;
        }
        let r = HeroIndex { buckets };
        assert forall|h: int| 0 <= h < BUCKETS implies #[trigger] r@[h] == Seq::<MaskModel>::empty() by {
            assert(bucket_model(r.buckets@[h]@) =~= Seq::<MaskModel>::empty());
        }
        r
    }

    /// The bucket of hero `hero`.
    pub fn bucket(&self, hero: u8) -> (r: &Vec<MatchMask>)
        requires
            self.wf(),
        ensures
            bucket_model(r@) == self@[hero as int],
            hero == 0 ==> r@.len() == 0,
    {
        &self.buckets[hero as usize]
    }

    /// Appends `m` to the bucket of every distinct nonzero hero that it names.
    fn add_mask(&mut self, m: MatchMask)
        requires
            old(self).wf(),
        ensures
            final(self).wf(),
            final(self)@.len() == BUCKETS,
            forall|h: int|
                0 <= h < BUCKETS ==> #[trigger] final(self)@[h] == old(self)@[h] + if has_hero(
                    m@,
                    h as nat,
                ) {
                    seq![m@]
                } else {
                    Seq::empty()
                },
    {
        let ghost before = self@;
        let mut h: usize = 1;
        while h < BUCKETS
            invariant
                1 <= h <= BUCKETS,
                self.wf(),
                self@.len() == BUCKETS,
                before.len() == BUCKETS,
                forall|g: int|
                    0 <= g < h ==> #[trigger] self@[g] == before[g] + if has_hero(m@, g as nat) {
                        seq![m@]
                    } else {
                        Seq::empty()
                    },
                forall|g: int| h <= g < BUCKETS ==> #[trigger] self@[g] == before[g],
            decreases BUCKETS - h,
        {
            let hero: u8 = h as u8;
            if has_bit(&m.radiant, hero) || has_bit(&m.dire, hero) {
                let ghost prev = self.buckets@;
                let ghost prev_view = self@;
                self.buckets[h].push(m);
                proof {
                    assert(self.buckets@ == prev.update(h as int, self.buckets@[h as int]));
                    assert(bucket_model(self.buckets@[h as int]@) =~= bucket_model(prev[h as int]@)
                        + seq![m@]);
                    assert(self@ =~= prev_view.update(h as int, prev_view[h as int] + seq![m@]));
                }
            }
            proof {
                assert(self@[h as int] == before[h as int] + if has_hero(m@, h as nat) {
                    seq![m@]
                } else {
                    Seq::empty()
                });
            }
            h = h + 1;
        }
        assert(self@[0] == before[0] + if has_hero(m@, 0) { seq![m@] } else { Seq::empty() });
    }

    /// Adds every match of the page to the buckets of its heroes and returns
    /// the advanced cursor.
    pub fn collect(&mut self, cursor: u64, page: &MatchHistory) -> (r: u64)
        requires
            old(self).wf(),
            page_fits(*page),
        ensures
            final(self).wf(),
            final(self)@.len() == BUCKETS,
            forall|h: int|
                0 <= h < BUCKETS ==> #[trigger] final(self)@[h] == old(self)@[h] + hero_entries(
                    page.matches@,
                    h as nat,
                ),
            is_next_cursor(r, cursor, page.matches@),
    {
        let ghost before = self@;
        let ms = &page.matches;
        let mut next: u64 = cursor;
        let mut j: usize = 0;
        while j < ms.len()
            invariant
                j <= ms.len(),
                self.wf(),
                self@.len() == BUCKETS,
                before.len() == BUCKETS,
                ms@ == page.matches@,
                page_fits(*page),
                forall|h: int|
                    0 <= h < BUCKETS ==> #[trigger] self@[h] == before[h] + hero_entries(
                        ms@.take(j as int),
                        h as nat,
                    ),
                is_next_cursor(next, cursor, ms@.take(j as int)),
            decreases ms.len() - j,
        {
            let mask = MatchMask::from_record(&ms[j]);
            self.add_mask(mask);
            assert(page.matches@[j as int].match_seq_num < u64::MAX);
            let s = ms[j].match_seq_num + 1;
            let ghost old_next = next;
            if s > next {
                next = s;
            }
            proof {
                let pre = ms@.take(j as int);
                let post = ms@.take(j + 1);
                assert(post.drop_last() =~= pre);
                assert(post.last() == ms@[j as int]);
                assert forall|h: int| 0 <= h < BUCKETS implies #[trigger] self@[h] == before[h]
                    + hero_entries(post, h as nat) by {
                    assert(before[h] + hero_entries(pre, h as nat) + (if has_hero(
                        mask@,
                        h as nat,
                    ) {
                        seq![mask@]
                    } else {
                        Seq::empty()
                    }) =~= before[h] + hero_entries(post, h as nat));
                }
                assert forall|i: int| 0 <= i < post.len() implies next >= post[i].match_seq_num
                    + 1 by {
                    if i < pre.len() {
                        assert(post[i] == pre[i]);
                    }
                }
                if next != cursor {
                    if next == s {
                        assert(post[j as int] == ms@[j as int]);
                    } else {
                        let i = choose|i: int| 0 <= i < pre.len() && old_next == pre[i].match_seq_num + 1;
                        assert(post[i] == pre[i]);
                    }
                }
            }
            j = j + 1;
        }
        assert(ms@.take(ms.len() as int) =~= ms@);
        next
    }

    /// Empties the bucket of `hero`, keeping its allocation; every other bucket is untouched.
    pub fn clear_bucket(&mut self, hero: u8)
        requires
            old(self).wf(),
        ensures
            final(self).wf(),
            final(self)@ == old(self)@.update(hero as int, Seq::<MaskModel>::empty()),
    {
        self.buckets[hero as usize].clear();
        proof {
            assert(bucket_model(self.buckets@[hero as int]@) =~= Seq::<MaskModel>::empty());
            assert(self@ =~= old(self)@.update(hero as int, Seq::<MaskModel>::empty()));
        }
    }

    /// The least hero identity at or after `from` whose bucket holds entries.
    pub fn next_pending(&self, from: usize) -> (r: Option<u8>)
        requires
            self.wf(),
        ensures
            match r {
                Some(h) => {
                    &&& from <= h
                    &&& self@[h as int].len() > 0
                    &&& forall|g: int| from <= g < h ==> #[trigger] self@[g].len() == 0
                },
                None => forall|g: int| from <= g < BUCKETS ==> #[trigger] self@[g].len() == 0,
            },
    {
        let mut h: usize = from;
        while h < BUCKETS
            invariant
                self.wf(),
                from <= h,
                forall|g: int| from <= g < h && g < BUCKETS ==> #[trigger] self@[g].len() == 0,
            decreases BUCKETS - h,
        {
            if self.buckets[h].len() > 0 {
                return Some(h as u8);
            }
            h = h + 1;
        }
        None
    }
}

} // verus!
