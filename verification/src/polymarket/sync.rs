//! The decisions of a Polymarket sync: which statuses to query, the query
//! parameters of each page, when paging stops, how rate limiting is retried,
//! the fetch-pressure settings read from the environment, and when the
//! scheduled syncs run.

use crate::text::{
    decimal, parse_u64, parse_u64_spec, parse_usize, parse_usize_spec, usize_to_decimal,
};
use vstd::arithmetic::power2::{lemma2_to64, lemma2_to64_rest, lemma_pow2_strictly_increases, lemma_pow2_unfold, pow2};
use crate::time::Timestamp;
use vstd::prelude::*;

verus! {

/// The events endpoint of the Polymarket API.
pub const POLYMARKET_EVENTS_API: &'static str = "https://gamma-api.polymarket.com/events";

/// Events per page when no setting is given; also the largest allowed.
pub const DEFAULT_PAGE_LIMIT: usize = 100;

/// Pages per status when no setting is given.
pub const DEFAULT_MAX_PAGE_COUNT: usize = 100;

/// Pause between pages, in milliseconds, when no setting is given.
pub const DEFAULT_REQUEST_DELAY_MS: u64 = 250;

/// How many rate-limited answers are retried before giving up.
pub const MAX_RETRIES_ON_429: usize = 5;

/// The first wait after a rate-limited answer, in milliseconds.
pub const DEFAULT_RETRY_WAIT_MS: u64 = 1000;

/// What a sync asks the API for.
#[derive(Clone, Copy, PartialEq, Eq, Debug)]
pub enum EventStatusQuery {
    /// Events that are active and not closed.
    ActiveOpen,
    /// Events that are not closed.
    Open,
}

/// How much a sync covers.
#[derive(Clone, Copy, PartialEq, Eq, Debug)]
pub enum SyncMode {
    /// The regular sync: open, active events.
    Incremental,
    /// The broad sync: every open event.
    Backfill,
}

/// The statuses a sync mode queries, in order.
pub open spec fn statuses_spec(mode: SyncMode) -> Seq<EventStatusQuery> {
    match mode {
        SyncMode::Incremental => seq![EventStatusQuery::ActiveOpen],
        SyncMode::Backfill => seq![EventStatusQuery::Open],
    }
}

impl SyncMode {
    pub fn statuses(self) -> (r: Vec<EventStatusQuery>)
        ensures
            r@ == statuses_spec(self),
    {
        match self {
            SyncMode::Incremental => vec![EventStatusQuery::ActiveOpen],
            SyncMode::Backfill => vec![EventStatusQuery::Open],
        }
    }
}

/// The query parameters of one page request.
pub open spec fn query_spec(status: EventStatusQuery, offset: usize, limit: usize) -> Seq<
    (Seq<char>, Seq<char>),
> {
    let base = seq![("limit"@, decimal(limit as nat)), ("offset"@, decimal(offset as nat))];
    match status {
        EventStatusQuery::ActiveOpen => base + seq![("active"@, "true"@), ("closed"@, "false"@)],
        EventStatusQuery::Open => base + seq![("closed"@, "false"@)],
    }
}

/// The views of query parameters.
pub open spec fn query_views(q: Seq<(&str, String)>) -> Seq<(Seq<char>, Seq<char>)> {
    q.map_values(|p: (&str, String)| (p.0@, p.1@))
}

/// The query parameters of the page at `offset`, `limit` events long.
pub fn build_query(status: EventStatusQuery, offset: usize, limit: usize) -> (q: Vec<
    (&'static str, String),
>)
    ensures
        query_views(q@) == query_spec(status, offset, limit),
{
    let mut query = vec![("limit", usize_to_decimal(limit)), ("offset", usize_to_decimal(offset))];
    match status {
        EventStatusQuery::ActiveOpen => {
            query.push(("active", "true".to_owned()));
            query.push(("closed", "false".to_owned()));
        },
        EventStatusQuery::Open => {
            query.push(("closed", "false".to_owned()));
        },
    }
    assert(query_views(query@) =~= query_spec(status, offset, limit));
    query
}

/// A count setting: the parsed number when it is positive, else `default`.
pub open spec fn positive_count_or(raw: Option<Seq<char>>, default: usize) -> usize {
    match raw {
        Some(r) => match parse_usize_spec(r) {
            Some(c) => if c > 0 {
                c
            } else {
                default
            },
            None => default,
        },
        None => default,
    }
}

/// `POLYMARKET_MAX_PAGES`: a positive count, else 100.
pub open spec fn max_page_count_spec(raw: Option<Seq<char>>) -> usize {
    positive_count_or(raw, DEFAULT_MAX_PAGE_COUNT)
}

/// `POLYMARKET_PAGE_LIMIT`: a count from 1 to 100, else 100.
pub open spec fn page_limit_spec(raw: Option<Seq<char>>) -> usize {
    match raw {
        Some(r) => match parse_usize_spec(r) {
            Some(c) => if 0 < c <= DEFAULT_PAGE_LIMIT {
                c
            } else {
                DEFAULT_PAGE_LIMIT
            },
            None => DEFAULT_PAGE_LIMIT,
        },
        None => DEFAULT_PAGE_LIMIT,
    }
}

/// `POLYMARKET_REQUEST_DELAY_MS`: a positive number of milliseconds, else 250.
pub open spec fn request_delay_ms_spec(raw: Option<Seq<char>>) -> u64 {
    match raw {
        Some(r) => match parse_u64_spec(r) {
            Some(ms) => if ms > 0 {
                ms
            } else {
                DEFAULT_REQUEST_DELAY_MS
            },
            None => DEFAULT_REQUEST_DELAY_MS,
        },
        None => DEFAULT_REQUEST_DELAY_MS,
    }
}

/// The views of an optional text.
pub open spec fn opt_str_view(raw: Option<&str>) -> Option<Seq<char>> {
    match raw {
        Some(r) => Some(r@),
        None => None,
    }
}

/// The page count per status, from the value of `POLYMARKET_MAX_PAGES`.
pub fn max_page_count_from(raw: Option<&str>) -> (n: usize)
    ensures
        n == max_page_count_spec(opt_str_view(raw)),
        n > 0,
{
    match raw {
        Some(r) => match parse_usize(r) {
            Some(c) => if c > 0 {
                c
            } else {
                DEFAULT_MAX_PAGE_COUNT
            },
            None => DEFAULT_MAX_PAGE_COUNT,
        },
        None => DEFAULT_MAX_PAGE_COUNT,
    }
}

/// The page size, from the value of `POLYMARKET_PAGE_LIMIT`.
pub fn page_limit_from(raw: Option<&str>) -> (n: usize)
    ensures
        n == page_limit_spec(opt_str_view(raw)),
        0 < n <= DEFAULT_PAGE_LIMIT,
{
    match raw {
        Some(r) => match parse_usize(r) {
            Some(c) => if c > 0 && c <= DEFAULT_PAGE_LIMIT {
                c
            } else {
                DEFAULT_PAGE_LIMIT
            },
            None => DEFAULT_PAGE_LIMIT,
        },
        None => DEFAULT_PAGE_LIMIT,
    }
}

/// The pause between pages in milliseconds, from the value of
/// `POLYMARKET_REQUEST_DELAY_MS`.
pub fn request_delay_ms_from(raw: Option<&str>) -> (ms: u64)
    ensures
        ms == request_delay_ms_spec(opt_str_view(raw)),
        ms > 0,
{
    match raw {
        Some(r) => match parse_u64(r) {
            Some(ms) => if ms > 0 {
                ms
            } else {
                DEFAULT_REQUEST_DELAY_MS
            },
            None => DEFAULT_REQUEST_DELAY_MS,
        },
        None => DEFAULT_REQUEST_DELAY_MS,
    }
}

/// The factor by which the first retry wait is multiplied before the
/// `attempt`-th retry: `2^(attempt-1)`, saturating at `u64::MAX`; an exponent
/// beyond `u32::MAX` counts as 0.
pub open spec fn retry_multiplier(attempt: nat) -> nat {
    let e: nat = if attempt == 0 {
        0
    } else {
        (attempt - 1) as nat
    };
    if e > u32::MAX {
        1
    } else if e >= 64 {
        u64::MAX as nat
    } else {
        pow2(e)
    }
}

/// The wait before the `attempt`-th retry, in milliseconds, saturating at
/// `u64::MAX`.
pub open spec fn retry_wait_spec(attempt: nat) -> nat {
    let w: nat = (DEFAULT_RETRY_WAIT_MS as nat) * retry_multiplier(attempt);
    if w > u64::MAX {
        u64::MAX as nat
    } else {
        w
    }
}

/// The wait before the `attempt`-th retry after a rate-limited answer, in
/// milliseconds: one second, doubled for each earlier attempt.
pub fn retry_wait_ms(attempt: usize) -> (ms: u64)
    ensures
        ms == retry_wait_spec(attempt as nat),
{
    let attempt_u64 = attempt as u64;
    let e: u64 = if attempt_u64 == 0 {
        0
    } else {
        attempt_u64 - 1
    };
    let exponent: u64 = if e > u32::MAX as u64 {
        0
    } else {
        e
    };
    let multiplier: u64 = if exponent >= 64 {
        u64::MAX
    } else {
        let mut m: u64 = 1;
        let mut k: u64 = 0;
        proof {
            lemma2_to64();
        }
        while k < exponent
            invariant
                k <= exponent < 64,
                m == pow2(k as nat),
                pow2(64) == 0x10000000000000000,
            decreases exponent - k,
        {
            proof {
                lemma_pow2_unfold((k + 1) as nat);
                lemma_pow2_strictly_increases((k + 1) as nat, 64);
            }
            m = m * 2;
            k = k + 1;
        }
        m
    };
    assert(multiplier == retry_multiplier(attempt as nat));
    if multiplier > u64::MAX / DEFAULT_RETRY_WAIT_MS {
        assert(DEFAULT_RETRY_WAIT_MS * multiplier > u64::MAX) by (nonlinear_arith)
            requires
                multiplier > u64::MAX / 1000,
                DEFAULT_RETRY_WAIT_MS == 1000,
        ;
        u64::MAX
    } else {
        assert(DEFAULT_RETRY_WAIT_MS * multiplier <= u64::MAX) by (nonlinear_arith)
            requires
                multiplier <= u64::MAX / 1000,
                DEFAULT_RETRY_WAIT_MS == 1000,
        ;
        DEFAULT_RETRY_WAIT_MS * multiplier
    }
}

/// What to do with an answer of the events endpoint.
#[derive(Clone, Copy, PartialEq, Eq, Debug)]
pub enum ResponseAction {
    /// Rate limited: wait this many milliseconds, then ask again.
    RetryAfterMs(u64),
    /// Rate limited once too often: fail with the answer's status and body.
    GiveUp,
    /// Any other unsuccessful status: fail with the answer's status and body.
    Fail,
    /// A successful status: decode the events.
    Accept,
}

/// HTTP 429, Too Many Requests.
pub const TOO_MANY_REQUESTS: u16 = 429;

/// The retry bookkeeping of one page request.
pub struct RateLimitRetry {
    pub attempts: usize,
}

/// The action for an answer with status `status`, after `attempts`
/// rate-limited answers.
pub open spec fn response_action_spec(attempts: nat, status: u16) -> ResponseAction {
    if status == TOO_MANY_REQUESTS {
        if attempts + 1 > MAX_RETRIES_ON_429 {
            ResponseAction::GiveUp
        } else {
            ResponseAction::RetryAfterMs(retry_wait_spec(attempts + 1) as u64)
        }
    } else if !(200 <= status <= 299) {
        ResponseAction::Fail
    } else {
        ResponseAction::Accept
    }
}

impl RateLimitRetry {
    pub fn new() -> (r: RateLimitRetry)
        ensures
            r.attempts == 0,
    {
        RateLimitRetry { attempts: 0 }
    }

    /// Decides what to do with an answer; a rate-limited answer counts as an
    /// attempt.
    pub fn on_status(&mut self, status: u16) -> (action: ResponseAction)
        requires
            old(self).attempts <= MAX_RETRIES_ON_429,
        ensures
            action == response_action_spec(old(self).attempts as nat, status),
            final(self).attempts == if status == TOO_MANY_REQUESTS {
                old(self).attempts + 1
            } else {
                old(self).attempts as int
            },
            action is RetryAfterMs ==> final(self).attempts <= MAX_RETRIES_ON_429,
    {
        if status == TOO_MANY_REQUESTS {
            self.attempts = self.attempts + 1;
            if self.attempts > MAX_RETRIES_ON_429 {
                return ResponseAction::GiveUp;
            }
            return ResponseAction::RetryAfterMs(retry_wait_ms(self.attempts));
        }
        if !(200 <= status && status <= 299) {
            return ResponseAction::Fail;
        }
        ResponseAction::Accept
    }
}

/// The counts a sync reports.
#[derive(Clone, Copy, PartialEq, Eq, Debug)]
pub struct PolymarketSyncStats {
    pub events_fetched: usize,
    pub events_upserted: usize,
}

/// What to do after a page has been fetched.
#[derive(Clone, Copy, PartialEq, Eq, Debug)]
pub enum PageStep {
    /// The page was empty: this status is done.
    Empty,
    /// The page was short: store its events, then this status is done.
    Last,
    /// The page was full: store its events, pause, and fetch the next page.
    More,
}

/// The paging state of a sync.
pub struct SyncProgress {
    pub page_limit: usize,
    pub max_pages: usize,
    pub page_idx: usize,
    pub status_done: bool,
    pub events_fetched: usize,
    pub fetched_open: usize,
    pub events_upserted: usize,
    pub pending: usize,
}

impl SyncProgress {
    /// The bookkeeping of a sync is consistent: every stored or skipped event
    /// was fetched, and no page beyond the last allowed is ever asked for.
    pub open spec fn wf(&self) -> bool {
        &&& self.page_limit > 0
        &&& self.page_idx <= self.max_pages
        &&& self.events_upserted + self.pending <= self.events_fetched
        &&& self.fetched_open == self.events_fetched
    }

    /// Whether a next page remains to be fetched for the current status.
    pub open spec fn has_next_page(&self) -> bool {
        !self.status_done && self.page_idx < self.max_pages
    }

    /// The offset of the next page to fetch, if any.
    pub open spec fn next_offset_spec(&self) -> Option<usize> {
        if self.status_done || self.page_idx >= self.max_pages {
            None
        } else {
            Some((self.page_idx * self.page_limit) as usize)
        }
    }

    pub fn new(max_pages: usize, page_limit: usize) -> (p: SyncProgress)
        requires
            page_limit > 0,
        ensures
            p.wf(),
            p.page_limit == page_limit,
            p.max_pages == max_pages,
            p.page_idx == 0,
            !p.status_done,
            p.events_fetched == 0,
            p.events_upserted == 0,
            p.pending == 0,
    {
        SyncProgress {
            page_limit,
            max_pages,
            page_idx: 0,
            status_done: false,
            events_fetched: 0,
            fetched_open: 0,
            events_upserted: 0,
            pending: 0,
        }
    }

    /// Starts paging through the next status from its first page.
    pub fn start_status(&mut self)
        requires
            old(self).wf(),
        ensures
            final(self).wf(),
            final(self).page_idx == 0,
            !final(self).status_done,
            final(self).page_limit == old(self).page_limit,
            final(self).max_pages == old(self).max_pages,
            final(self).events_fetched == old(self).events_fetched,
            final(self).events_upserted == old(self).events_upserted,
            final(self).pending == old(self).pending,
    {
        self.page_idx = 0;
        self.status_done = false;
    }

    /// The offset of the next page of the current status, or none when the
    /// status is done. The offset of a page that is fetched must fit in a
    /// `usize`.
    pub fn next_offset(&self) -> (r: Option<usize>)
        requires
            self.wf(),
            self.has_next_page() ==> self.page_idx * self.page_limit <= usize::MAX,
        ensures
            r == self.next_offset_spec(),
            r is Some <==> self.has_next_page(),
            r matches Some(o) ==> o == self.page_idx * self.page_limit,
    {
        if self.status_done || self.page_idx >= self.max_pages {
            None
        } else {
            Some(self.page_idx * self.page_limit)
        }
    }

    /// Records a fetched page of `count` events and says what follows.
    pub fn record_page(&mut self, count: usize) -> (step: PageStep)
        requires
            old(self).wf(),
            old(self).next_offset_spec() is Some,
            old(self).pending == 0,
            old(self).events_fetched + count <= usize::MAX,
        ensures
            final(self).wf(),
            step == (if count == 0 {
                PageStep::Empty
            } else if count < old(self).page_limit {
                PageStep::Last
            } else {
                PageStep::More
            }),
            final(self).events_fetched == old(self).events_fetched + count,
            final(self).events_upserted == old(self).events_upserted,
            final(self).pending == count,
            final(self).page_limit == old(self).page_limit,
            final(self).max_pages == old(self).max_pages,
            step is More ==> final(self).page_idx == old(self).page_idx + 1
                && !final(self).status_done,
            !(step is More) ==> final(self).status_done && final(self).page_idx
                == old(self).page_idx,
    {
        if count == 0 {
            self.status_done = true;
            return PageStep::Empty;
        }
        self.events_fetched = self.events_fetched + count;
        self.fetched_open = self.fetched_open + count;
        self.pending = count;
        if count < self.page_limit {
            self.status_done = true;
            PageStep::Last
        } else {
            self.page_idx = self.page_idx + 1;
            PageStep::More
        }
    }

    /// Records that one event of the last page was stored (`upserted`) or
    /// skipped for lack of an identifier.
    pub fn record_event(&mut self, upserted: bool)
        requires
            old(self).wf(),
            old(self).pending > 0,
        ensures
            final(self).wf(),
            final(self).pending == old(self).pending - 1,
            final(self).events_upserted == old(self).events_upserted + if upserted {
                1int
            } else {
                0int
            },
            final(self).events_fetched == old(self).events_fetched,
            final(self).page_idx == old(self).page_idx,
            final(self).status_done == old(self).status_done,
            final(self).page_limit == old(self).page_limit,
            final(self).max_pages == old(self).max_pages,
    {
        self.pending = self.pending - 1;
        if upserted {
            self.events_upserted = self.events_upserted + 1;
        }
    }

    /// The counts to report.
    pub fn stats(&self) -> (s: PolymarketSyncStats)
        requires
            self.wf(),
        ensures
            s.events_fetched == self.events_fetched,
            s.events_upserted == self.events_upserted,
            s.events_upserted <= s.events_fetched,
    {
        PolymarketSyncStats {
            events_fetched: self.events_fetched,
            events_upserted: self.events_upserted,
        }
    }
}

/// Rate limiting is retried a bounded number of times: from a fresh request,
/// the first five rate-limited answers are retried and the sixth gives up.
pub proof fn lemma_rate_limit_retries_bounded(attempts: nat)
    requires
        attempts <= MAX_RETRIES_ON_429,
    ensures
        response_action_spec(attempts, TOO_MANY_REQUESTS) is GiveUp <==> attempts
            == MAX_RETRIES_ON_429,
        attempts < MAX_RETRIES_ON_429 ==> response_action_spec(attempts, TOO_MANY_REQUESTS)
            == ResponseAction::RetryAfterMs(retry_wait_spec(attempts + 1) as u64),
{
}

/// What each answer leads to, for any earlier number of rate-limited
/// answers: only rate limiting (HTTP 429) is ever retried, and at most five
/// times in a row; any other status outside 200..=299 fails at once; a
/// success is accepted. Only a rate-limited answer counts as an attempt.
pub proof fn lemma_only_rate_limiting_is_retried(attempts: nat, status: u16)
    ensures
        response_action_spec(attempts, status) is RetryAfterMs ==> status == 429 && attempts < 5,
        status != 429 && !(200 <= status <= 299) ==> response_action_spec(attempts, status)
            == ResponseAction::Fail,
        200 <= status <= 299 ==> response_action_spec(attempts, status) == ResponseAction::Accept,
        status == 429 && attempts >= 5 ==> response_action_spec(attempts, status)
            == ResponseAction::GiveUp,
        status == 429 && attempts < 5 ==> response_action_spec(attempts, status)
            == ResponseAction::RetryAfterMs((1000 * pow2(attempts)) as u64),
{
    lemma2_to64();
}

/// The backoff is exponential: the first retry waits one second and each
/// further retry waits twice as long as the one before, for as long as the
/// wait does not saturate (through the 55th attempt).
pub proof fn lemma_backoff_doubles(attempt: nat)
    requires
        1 <= attempt <= 54,
    ensures
        retry_wait_spec(1) == DEFAULT_RETRY_WAIT_MS,
        retry_wait_spec(attempt + 1) == 2 * retry_wait_spec(attempt),
{
    lemma2_to64();
    lemma2_to64_rest();
    let e = (attempt - 1) as nat;
    lemma_pow2_unfold(e + 1);
    if e + 1 < 54 {
        lemma_pow2_strictly_increases(e + 1, 54);
    }
    assert(pow2(54) == 0x40000000000000);
    assert(1000 * pow2(e + 1) <= u64::MAX);
    assert(1000 * pow2(e) <= u64::MAX);
}

/// Syncs after the first run on the half hour (`:00` and `:30`, UTC): the
/// period of the schedule in seconds.
pub const SYNC_PERIOD_SECS: i64 = 1800;

/// The whole milliseconds past the second that an instant's fraction makes.
pub open spec fn subsecond_ms(nanos: u32) -> int {
    if nanos < 1_000_000_000 {
        (nanos / 1_000_000) as int
    } else {
        999
    }
}

/// The milliseconds of an instant past the last half-hour boundary.
pub open spec fn ms_into_period(now: Timestamp) -> int {
    (now.secs % SYNC_PERIOD_SECS) * 1000 + subsecond_ms(now.nanos)
}

/// The wait from `now` until the next half-hour boundary after it.
pub open spec fn delay_to_boundary_spec(now: Timestamp) -> int {
    SYNC_PERIOD_SECS * 1000 - ms_into_period(now)
}

/// The wait before a scheduled sync: none for the sync that runs when the
/// scheduler starts, else until the next half-hour boundary.
pub open spec fn sync_delay_spec(first_sync: bool, now: Timestamp) -> int {
    if first_sync {
        0
    } else {
        delay_to_boundary_spec(now)
    }
}

/// The wait, in milliseconds, before the next scheduled sync at `now`: the
/// sync at start-up runs at once, every later one on the next half-hour
/// boundary (UTC) strictly after `now`.
pub fn delay_to_next_sync_ms(first_sync: bool, now: Timestamp) -> (ms: u64)
    ensures
        ms == sync_delay_spec(first_sync, now),
        !first_sync ==> 1 <= ms <= SYNC_PERIOD_SECS * 1000,
{
    if first_sync {
        return 0;
    }
    let rem: i64 = match now.secs.checked_rem_euclid(SYNC_PERIOD_SECS) {
        Some(r) => r,
        None => 0,
    };
    assert(0 <= rem < SYNC_PERIOD_SECS);
    let sub: u64 = if now.nanos < 1_000_000_000 {
        (now.nanos / 1_000_000) as u64
    } else {
        999
    };
    let into: u64 = (rem as u64) * 1000 + sub;
    (SYNC_PERIOD_SECS as u64) * 1000 - into
}

/// The schedule: the sync at start-up runs at once, and waiting the delay
/// before any later sync lands exactly on a half-hour boundary (counting the
/// whole milliseconds of `now`), at most thirty minutes away.
pub proof fn lemma_sync_schedule(now: Timestamp)
    ensures
        sync_delay_spec(true, now) == 0,
        (now.secs * 1000 + subsecond_ms(now.nanos) + sync_delay_spec(false, now)) % 1_800_000
            == 0,
        0 < sync_delay_spec(false, now) <= 1_800_000,
{
    let s = now.secs as int;
    let q = s / 1800;
    let r = s % 1800;
    assert(s == q * 1800 + r) by (nonlinear_arith)
        requires
            q == s / 1800,
            r == s % 1800,
    ;
    let total = s * 1000 + subsecond_ms(now.nanos) + delay_to_boundary_spec(now);
    assert(total == (q + 1) * 1_800_000) by (nonlinear_arith)
        requires
            s == q * 1800 + r,
            total == s * 1000 + subsecond_ms(now.nanos) + 1_800_000 - (r * 1000 + subsecond_ms(
                now.nanos,
            )),
    ;
    assert(((q + 1) * 1_800_000) % 1_800_000 == 0) by (nonlinear_arith);
}

/// The two sync modes share one pipeline and differ only in their filter:
/// each queries one status, through the same paging, and an incremental
/// page asks for the same parameters as a backfill page plus `active=true`.
pub proof fn lemma_modes_differ_only_in_filter(offset: usize, limit: usize)
    ensures
        statuses_spec(SyncMode::Incremental).len() == 1,
        statuses_spec(SyncMode::Backfill).len() == 1,
        query_spec(statuses_spec(SyncMode::Incremental)[0], offset, limit) == query_spec(
            statuses_spec(SyncMode::Backfill)[0],
            offset,
            limit,
        ).insert(2, ("active"@, "true"@)),
{
    let a = query_spec(EventStatusQuery::ActiveOpen, offset, limit);
    let b = query_spec(EventStatusQuery::Open, offset, limit);
    assert(a =~= b.insert(2, ("active"@, "true"@)));
}

/// Every page request asks for `limit` events from `offset`, in that order,
/// and only for events that are not closed; an incremental sync asks for
/// active events too.
pub proof fn lemma_query_parameters(status: EventStatusQuery, offset: usize, limit: usize)
    ensures
        query_spec(status, offset, limit)[0] == ("limit"@, decimal(limit as nat)),
        query_spec(status, offset, limit)[1] == ("offset"@, decimal(offset as nat)),
        query_spec(status, offset, limit).last() == ("closed"@, "false"@),
        status == EventStatusQuery::ActiveOpen ==> query_spec(status, offset, limit).len() == 4
            && query_spec(status, offset, limit)[2] == ("active"@, "true"@),
        status == EventStatusQuery::Open ==> query_spec(status, offset, limit).len() == 3,
        statuses_spec(SyncMode::Incremental) == seq![EventStatusQuery::ActiveOpen],
        statuses_spec(SyncMode::Backfill) == seq![EventStatusQuery::Open],
{
}

/// The fetch-pressure settings: without a usable value a sync reads at most
/// 100 pages of 100 events, pausing 250 ms between pages; a positive page
/// count, a page size from 1 to 100 and a positive pause are taken as given.
pub proof fn lemma_fetch_pressure_settings(raw: Seq<char>, c: usize, ms: u64)
    ensures
        max_page_count_spec(None) == 100,
        page_limit_spec(None) == 100,
        request_delay_ms_spec(None) == 250,
        parse_usize_spec(raw) == Some(c) && c > 0 ==> max_page_count_spec(Some(raw)) == c,
        parse_usize_spec(raw) == Some(c) && 0 < c <= 100 ==> page_limit_spec(Some(raw)) == c,
        parse_usize_spec(raw) == Some(c) && c > 100 ==> page_limit_spec(Some(raw)) == 100,
        parse_u64_spec(raw) == Some(ms) && ms > 0 ==> request_delay_ms_spec(Some(raw)) == ms,
        1 <= page_limit_spec(Some(raw)) <= 100,
        max_page_count_spec(Some(raw)) >= 1,
        request_delay_ms_spec(Some(raw)) >= 1,
{
}

} // verus!
