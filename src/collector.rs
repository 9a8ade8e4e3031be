//! Ingestion orchestrator: the decisions of the polling loop, from each fetch
//! outcome to the next state and the action the caller performs.
use crate::index::{is_next_cursor, page_fits, HeroIndex, BUCKETS};
use crate::mask::{MaskModel, MatchHistory};
use crate::rate::{pacing_wf, slowed_down, sped_up, Pacing, RateControl};
use vstd::prelude::*;

verus! {

/// Number of matches asked for in one fetch.
pub const PAGE_SIZE: u64 = 100;

/// Pause after a transient failure, independent of the governor.
pub const COOLDOWN_MILLIS: u64 = 5000;

/// Run configuration: start cursor, credentials, proxy, governor bounds in
/// milliseconds, requests per flush, and the store's connection settings.
pub struct Args {
    pub start_idx: u64,
    pub proxy: Option<String>,
    pub clickhouse_server: Option<String>,
    pub clickhouse_database: Option<String>,
    pub clickhouse_user: Option<String>,
    pub clickhouse_password: Option<String>,
    pub min_interval: u64,
    pub max_interval: u64,
    pub insert_batch_size: usize,
    pub keys: Vec<String>,
}

/// Whether a configuration can drive a run.
pub open spec fn args_ok(args: Args) -> bool {
    &&& 0 < args.min_interval <= args.max_interval
    &&& args.insert_batch_size > 0
}

impl Args {
    /// Whether the configuration can drive a run.
    pub fn is_valid(&self) -> (r: bool)
        ensures
            r == args_ok(*self),
    {
        0 < self.min_interval && self.min_interval <= self.max_interval
            && self.insert_batch_size > 0
    }
}

/// What one fetch came back with.
pub enum FetchOutcome {
    /// A page of matches in the expected shape.
    Page(MatchHistory),
    /// The payload did not match the expected shape: never retried.
    ShapeMismatch,
    /// Transport, timeout or another passing failure: retried after a pause.
    Transient,
}

/// What the caller does after handing over a fetch outcome.
#[derive(Clone, Copy, Debug, PartialEq, Eq, Structural)]
pub enum RequestStep {
    /// Go on with the next draw.
    Continue,
    /// Sleep this many milliseconds, then go on.
    Cooldown { millis: u64 },
    /// Save the payload under the name of `cursor`, flush, and stop with the failure.
    Fatal { cursor: u64 },
}

/// The next thing the loop does.
#[derive(Clone, Copy, Debug, PartialEq, Eq, Structural)]
pub enum Draw {
    /// Wait on the governor, then fetch up to `count` matches from sequence
    /// number `start` with this credential.
    Fetch { credential: usize, start: u64, count: u64 },
    /// A batch of requests is complete: flush the index.
    Flush,
    /// The loop ends: no credentials, or a fatal failure came.
    Stop,
}

/// The next step of a flush.
#[derive(Clone, Copy, Debug, PartialEq, Eq, Structural)]
pub enum SaveStep {
    /// Persist the bucket of this hero, then report how that went.
    Persist { hero: u8 },
    /// Every bucket is persisted and cleared.
    Done,
    /// Persisting failed: the flush ends and that bucket keeps its entries.
    Stop,
}

/// The orchestrator's state.
pub struct CollectorModel {
    pub cursor: u64,
    pub pacing: Pacing,
    pub buckets: Seq<Seq<MaskModel>>,
    pub credentials: nat,
    pub keys: Seq<String>,
    pub proxy: Option<String>,
    pub batch: nat,
    pub served: nat,
    pub next_credential: nat,
    pub failed: bool,
}

pub struct Collector {
    match_seq_num: u64,
    rate: RateControl,
    indices: HeroIndex,
    keys: Vec<String>,
    batch: usize,
    proxy: Option<String>,
    served: usize,
    next_key: usize,
    failed: bool,
}

/// The governor after a page of `len` matches: sped up, and slowed down too
/// when the page came back short.
pub open spec fn pacing_after_page(p: Pacing, len: nat) -> Pacing {
    let fast = Pacing { interval: sped_up(p.interval, p.min_interval), ..p };
    if len < PAGE_SIZE {
        Pacing { interval: slowed_down(fast.interval, fast.max_interval), ..fast }
    } else {
        fast
    }
}

impl View for Collector {
    type V = CollectorModel;

    closed spec fn view(&self) -> CollectorModel {
        CollectorModel {
            cursor: self.match_seq_num,
            pacing: self.rate@,
            buckets: self.indices@,
            credentials: self.keys@.len(),
            keys: self.keys@,
            proxy: self.proxy,
            batch: self.batch as nat,
            served: self.served as nat,
            next_credential: self.next_key as nat,
            failed: self.failed,
        }
    }
}

impl Collector {
    pub closed spec fn wf(&self) -> bool {
        &&& self.indices.wf()
        &&& self.indices@.len() == BUCKETS
        &&& pacing_wf(self.rate@)
        &&& 0 < self.batch
        &&& self.served <= self.batch
        &&& (self.keys@.len() == 0 || self.next_key < self.keys@.len())
    }

    /// A collector at the configured start cursor with empty buckets; `now`
    /// is the instant, in nanoseconds, that the first wait counts from.
    pub fn new(args: Args, now: u64) -> (r: Collector)
        requires
            args_ok(args),
        ensures
            r.wf(),
            r@.cursor == args.start_idx,
            r@.pacing.interval == 2 * args.min_interval * 1_000_000,
            r@.pacing.min_interval == args.min_interval * 1_000_000,
            r@.pacing.max_interval == args.max_interval * 1_000_000,
            r@.pacing.last_timestamp == now,
            r@.buckets.len() == BUCKETS,
            forall|h: int| 0 <= h < BUCKETS ==> #[trigger] r@.buckets[h] == Seq::<MaskModel>::empty(),
            r@.credentials == args.keys@.len(),
            r@.keys == args.keys@,
            r@.proxy == args.proxy,
            r@.batch == args.insert_batch_size,
            r@.served == 0,
            r@.next_credential == 0,
            !r@.failed,
    {
        Collector {
            match_seq_num: args.start_idx,
            rate: RateControl::new(args.min_interval, args.max_interval, now),
            indices: HeroIndex::new(),
            keys: args.keys,
            batch: args.insert_batch_size,
            proxy: args.proxy,
            served: 0,
            next_key: 0,
            failed: false,
        }
    }

    /// The sequence number the next fetch starts at.
    pub fn cursor(&self) -> (r: u64)
        ensures
            r == self@.cursor,
    {
        self.match_seq_num
    }

    /// The access credentials, in the order they are cycled through.
    pub fn keys(&self) -> (r: &Vec<String>)
        ensures
            r@ == self@.keys,
            r@.len() == self@.credentials,
    {
        &self.keys
    }

    /// The outbound proxy every fetch handle goes through, if any.
    pub fn proxy(&self) -> (r: &Option<String>)
        ensures
            *r == self@.proxy,
    {
        &self.proxy
    }

    /// The governor.
    pub fn rate(&self) -> (r: &RateControl)
        ensures
            r@ == self@.pacing,
    {
        &self.rate
    }

    /// Records that a paced request starts at `now`.
    pub fn mark_request(&mut self, now: u64)
        requires
            old(self).wf(),
        ensures
            final(self).wf(),
            final(self)@ == (CollectorModel {
                pacing: Pacing { last_timestamp: now as int, ..old(self)@.pacing },
                ..old(self)@
            }),
    {
        self.rate.mark(now);
    }

    /// The index of buffered masks.
    pub fn index(&self) -> (r: &HeroIndex)
        requires
            self.wf(),
        ensures
            r.wf(),
            r@ == self@.buckets,
    {
        &self.indices
    }

    /// One step of a flush. `last` is `None` to begin, else the hero whose
    /// bucket was just handed to the store and whether that succeeded. A
    /// bucket is cleared only once its persistence succeeded; after a failure
    /// nothing changes and the flush stops. Otherwise the next step persists
    /// the least later hero with a non-empty bucket, or ends the flush.
    pub fn save_step(&mut self, last: Option<(u8, bool)>) -> (r: SaveStep)
        requires
            old(self).wf(),
        ensures
            final(self).wf(),
            final(self)@.buckets.len() == BUCKETS,
            match last {
                Some((hero, false)) => r == SaveStep::Stop && final(self)@ == old(self)@,
                Some((hero, true)) => final(self)@ == (CollectorModel {
                    buckets: old(self)@.buckets.update(hero as int, Seq::<MaskModel>::empty()),
                    ..old(self)@
                }),
                None => final(self)@ == old(self)@,
            },
            !(last matches Some((_, false))) ==> {
                let from: int = match last {
                    Some((hero, _)) => hero + 1,
                    None => 0,
                };
                match r {
                    SaveStep::Persist { hero: g } => {
                        &&& from <= g
                        &&& final(self)@.buckets[g as int].len() > 0
                        &&& forall|k: int| from <= k < g ==> #[trigger] final(self)@.buckets[k].len() == 0
                    },
                    SaveStep::Done => forall|k: int|
                        from <= k < BUCKETS ==> #[trigger] final(self)@.buckets[k].len() == 0,
                    SaveStep::Stop => false,
                }
            },
    {
        let from: usize = match last {
            Some((hero, true)) => {
                self.indices.clear_bucket(hero);
                hero as usize + 1
            },
            Some((_, false)) => {
                return SaveStep::Stop;
            },
            None => 0,
        };
        match self.indices.next_pending(from) {
            Some(hero) => SaveStep::Persist { hero },
            None => SaveStep::Done,
        }
    }

    /// Adds a page to the index and returns the advanced cursor; the cursor
    /// itself is left as it is.
    pub fn collect(&mut self, matches: &MatchHistory) -> (r: u64)
        requires
            old(self).wf(),
            page_fits(*matches),
        ensures
            final(self).wf(),
            final(self)@ == (CollectorModel { buckets: final(self)@.buckets, ..old(self)@ }),
            final(self)@.buckets.len() == BUCKETS,
            forall|h: int|
                0 <= h < BUCKETS ==> #[trigger] final(self)@.buckets[h] == old(self)@.buckets[h]
                    + crate::index::hero_entries(matches.matches@, h as nat),
            is_next_cursor(r, old(self)@.cursor, matches.matches@),
    {
        self.indices.collect(self.match_seq_num, matches)
    }

    /// The next step of the loop: a fetch with the next credential in
    /// round-robin order, a flush after every full batch, or the end.
    pub fn next_draw(&mut self) -> (r: Draw)
        requires
            old(self).wf(),
        ensures
            final(self).wf(),
            old(self)@.failed || old(self)@.credentials == 0 ==> r == Draw::Stop && final(self)@
                == old(self)@,
            !old(self)@.failed && old(self)@.credentials > 0 && old(self)@.served == old(self)@.batch
                ==> r == Draw::Flush && final(self)@ == (CollectorModel { served: 0, ..old(self)@ }),
            !old(self)@.failed && old(self)@.credentials > 0 && old(self)@.served < old(self)@.batch
                ==> r == (Draw::Fetch {
                    credential: old(self)@.next_credential as usize,
                    start: old(self)@.cursor,
                    count: PAGE_SIZE,
                })
                && final(self)@ == (CollectorModel {
                    served: old(self)@.served + 1,
                    next_credential: (old(self)@.next_credential + 1) % old(self)@.credentials,
                    ..old(self)@
                }),
    {
        if self.failed || self.keys.len() == 0 {
            Draw::Stop
        } else if self.served == self.batch {
            self.served = 0;
            Draw::Flush
        } else {
            let credential = self.next_key;
            self.served = self.served + 1;
            self.next_key = (self.next_key + 1) % self.keys.len();
            Draw::Fetch { credential, start: self.match_seq_num, count: PAGE_SIZE }
        }
    }

    /// Takes the outcome of one fetch: a page is indexed, the cursor advanced
    /// and the governor sped up (and slowed down when the page is short); a
    /// transient failure slows the governor and asks for a cooldown; a shape
    /// mismatch ends the loop and names the cursor for the saved payload.
    pub fn request(&mut self, outcome: FetchOutcome) -> (r: RequestStep)
        requires
            old(self).wf(),
            outcome matches FetchOutcome::Page(p) ==> page_fits(p),
        ensures
            final(self).wf(),
            final(self)@.credentials == old(self)@.credentials,
            final(self)@.keys == old(self)@.keys,
            final(self)@.proxy == old(self)@.proxy,
            final(self)@.batch == old(self)@.batch,
            final(self)@.served == old(self)@.served,
            final(self)@.next_credential == old(self)@.next_credential,
            match outcome {
                FetchOutcome::Page(p) => {
                    &&& r == RequestStep::Continue
                    &&& is_next_cursor(final(self)@.cursor, old(self)@.cursor, p.matches@)
                    &&& final(self)@.pacing == pacing_after_page(old(self)@.pacing, p.matches@.len())
                    &&& final(self)@.buckets.len() == BUCKETS
                    &&& forall|h: int|
                        0 <= h < BUCKETS ==> #[trigger] final(self)@.buckets[h]
                            == old(self)@.buckets[h] + crate::index::hero_entries(p.matches@, h as nat)
                    &&& final(self)@.failed == old(self)@.failed
                },
                FetchOutcome::Transient => {
                    &&& r == (RequestStep::Cooldown { millis: COOLDOWN_MILLIS })
                    &&& final(self)@ == (CollectorModel {
                        pacing: Pacing {
                            interval: slowed_down(old(self)@.pacing.interval, old(self)@.pacing.max_interval),
                            ..old(self)@.pacing
                        },
                        ..old(self)@
                    })
                },
                FetchOutcome::ShapeMismatch => {
                    &&& r == (RequestStep::Fatal { cursor: old(self)@.cursor })
                    &&& final(self)@ == (CollectorModel { failed: true, ..old(self)@ })
                },
            },
    {
        match outcome {
            FetchOutcome::Page(matches) => {
                let next = self.collect(&matches);
                self.match_seq_num = next;
                self.rate.speed_up();
                if (matches.matches.len() as u64) < PAGE_SIZE {
                    self.rate.slow_down();
                }
                RequestStep::Continue
            },
            FetchOutcome::Transient => {
                self.rate.slow_down();
                RequestStep::Cooldown { millis: COOLDOWN_MILLIS }
            },
            FetchOutcome::ShapeMismatch => {
                self.failed = true;
                RequestStep::Fatal { cursor: self.match_seq_num }
            },
        }
    }
}

} // verus!
