//! Shedding with intent: past the admission ceiling a request is refused at
//! once, by name and with a number, rather than queued until something times
//! out.
use vstd::prelude::*;
use crate::decimal::{all_digits, decimal_value, digits_only, parse_digits};
use crate::digits::{is_run, lemma_run, worth};
use crate::refusal::{at_capacity, Refusal};
use crate::text::chars_of;
use tokio::sync::{Semaphore, SemaphorePermit};

verus! {

/// The admission ceiling where none is configured.
pub const DEFAULT_MAX_INFLIGHT: usize = 64;

/// The most permits that a semaphore takes.
pub open spec fn semaphore_limit() -> nat {
    (usize::MAX / 8) as nat
}

/// `tokio::sync::Semaphore`, the pool of permits.
#[verifier::external_type_specification]
#[verifier::external_body]
pub struct ExSemaphore(Semaphore);

/// `tokio::sync::SemaphorePermit`, one permit of a pool.
#[verifier::external_type_specification]
#[verifier::external_body]
pub struct ExSemaphorePermit<'a>(SemaphorePermit<'a>);

/// The number of permits that a pool was made with.
pub uninterp spec fn pool_size(pool: Semaphore) -> nat;

/// The pool that a permit is from.
pub uninterp spec fn pool_of(permit: SemaphorePermit) -> Semaphore;

/// `Semaphore::MAX_PERMITS`, which is `usize::MAX >> 3`.
#[verifier::external_body]
fn max_permits() -> (limit: usize)
    ensures
        limit == semaphore_limit(),
{
    Semaphore::MAX_PERMITS
}

/// `Semaphore::new`: a pool of that many permits. It panics above
/// `MAX_PERMITS`.
#[verifier::external_body]
fn new_pool(size: usize) -> (pool: Semaphore)
    requires
        size <= semaphore_limit(),
    ensures
        pool_size(pool) == size,
{
    Semaphore::new(size)
}

/// `Semaphore::try_acquire`: a permit of that pool, or nothing where none is free at
/// this moment. Which of the two is up to the other holders and left unsaid.
#[verifier::external_body]
fn try_acquire<'a>(pool: &'a Semaphore) -> (permit: Option<SemaphorePermit<'a>>)
    ensures
        permit matches Some(held) ==> pool_of(held) == *pool,
{
    pool.try_acquire().ok()
}

/// The count that a text names: an optional plus sign and digits, up to what a
/// `usize` holds.
pub open spec fn count_in(text: Seq<char>) -> Option<nat> {
    let digits = if text.len() > 0 && text[0] == '+' {
        text.drop_first()
    } else {
        text
    };
    if digits.len() > 0 && all_digits(digits) && decimal_value(digits) <= usize::MAX {
        Some(decimal_value(digits))
    } else {
        None
    }
}

/// The count that a configured text names.
pub open spec fn configured_count(raw: Option<&str>) -> Option<nat> {
    match raw {
        Some(text) => count_in(text@),
        None => None,
    }
}

/// The admission ceiling that a configured text gives: the count that it names,
/// the default where it names none or zero, and never more than a semaphore
/// takes.
pub open spec fn ceiling(raw: Option<&str>) -> nat {
    let asked = match configured_count(raw) {
        Some(n) => if n > 0 {
            n
        } else {
            DEFAULT_MAX_INFLIGHT as nat
        },
        None => DEFAULT_MAX_INFLIGHT as nat,
    };
    if asked <= semaphore_limit() {
        asked
    } else {
        semaphore_limit()
    }
}

fn parse_count(text: &str) -> (count: Option<usize>)
    ensures
        match count {
            Some(n) => count_in(text@) == Some(n as nat),
            None => count_in(text@) is None,
        },
{
    let chars = chars_of(text);
    let start: usize = if chars.len() > 0 && chars[0] == '+' {
        1
    } else {
        0
    };
    let ghost digits = if text@.len() > 0 && text@[0] == '+' {
        text@.drop_first()
    } else {
        text@
    };
    proof {
        assert(digits == chars@.subrange(start as int, chars@.len() as int));
    }
    if start == chars.len() || !digits_only(&chars, start, chars.len()) {
        return None;
    }
    match parse_digits(&chars, start, chars.len()) {
        Some(n) => if n <= usize::MAX as i128 {
            Some(n as usize)
        } else {
            None
        },
        None => None,
    }
}

/// The admission ceiling, from the text that the environment configures.
///
/// Configurable because it is also the control: set absurdly high, it disables
/// shedding.
pub fn bounded_max_inflight(raw: Option<&str>) -> (limit: usize)
    ensures
        limit == ceiling(raw),
        0 < limit <= semaphore_limit(),
{
    let parsed: Option<usize> = match raw {
        Some(text) => parse_count(text),
        None => None,
    };
    let asked: usize = match parsed {
        Some(n) => if n > 0 {
            n
        } else {
            DEFAULT_MAX_INFLIGHT
        },
        None => DEFAULT_MAX_INFLIGHT,
    };
    let most: usize = max_permits();
    if asked <= most {
        asked
    } else {
        most
    }
}

/// The permit pool: the concurrency bound that the Desk has.
pub fn permits(limit: usize) -> (pool: Semaphore)
    requires
        limit <= semaphore_limit(),
    ensures
        pool_size(pool) == limit,
{
    new_pool(limit)
}

/// The admission counters. Refusals are a named, attributable signal, not a
/// spike in failures that an operator has to guess at.
#[derive(Clone, Copy, Debug, PartialEq, Eq)]
pub struct Counters {
    /// Requests that hold a permit.
    pub inflight: i64,
    /// Requests that were given a permit.
    pub served: u64,
    /// Requests that were refused one.
    pub shed: u64,
    /// Smoothed kernel round-trip latency, in microseconds.
    pub latency_us: u64,
}

impl Counters {
    /// Counters that have counted nothing.
    pub fn new() -> (counters: Counters)
        ensures
            counters == (Counters { inflight: 0, served: 0, shed: 0, latency_us: 0 }),
    {
        Counters { inflight: 0, served: 0, shed: 0, latency_us: 0 }
    }
}

/// The latency after one more sample: the sample itself where there was none
/// before, else seven eighths of the old value and one of the sample.
pub open spec fn smoothed(prev: u64, us: u64) -> u64 {
    if prev == 0 {
        us
    } else {
        (prev - prev / 8 + us / 8) as u64
    }
}

/// The counters after a request was given a permit, or refused one.
pub open spec fn after_admission(counters: Counters, granted: bool) -> Counters {
    if granted {
        Counters {
            inflight: counters.inflight.wrapping_add(1),
            served: counters.served.wrapping_add(1),
            ..counters
        }
    } else {
        Counters { shed: counters.shed.wrapping_add(1), ..counters }
    }
}

/// The counters after a permit was given back.
pub open spec fn after_release(counters: Counters) -> Counters {
    Counters { inflight: counters.inflight.wrapping_sub(1), ..counters }
}

/// Feeds the smoothed kernel latency. Called on every kernel round trip,
/// whether it succeeded or failed.
///
/// One eighth of weight on the new sample: slow enough that a single slow query
/// is no alarm, fast enough to follow real saturation.
pub fn record_latency(counters: &mut Counters, us: u64)
    ensures
        *final(counters) == (Counters {
            latency_us: smoothed(old(counters).latency_us, us),
            ..*old(counters)
        }),
{
    let prev: u64 = counters.latency_us;
    counters.latency_us = if prev == 0 {
        us
    } else {
        prev - prev / 8 + us / 8
    };
}

/// The counters as they are reported: in flight, served, shed, and the latency
/// in whole milliseconds.
pub open spec fn report_of(counters: Counters) -> (i64, u64, u64, u64) {
    (counters.inflight, counters.served, counters.shed, counters.latency_us / 1000)
}

/// The counters as they are reported: in flight, served, shed, and the latency
/// in whole milliseconds.
pub fn stats(counters: &Counters) -> (report: (i64, u64, u64, u64))
    ensures
        report == report_of(*counters),
{
    (counters.inflight, counters.served, counters.shed, counters.latency_us / 1000)
}

/// Counts a permit that was given back.
pub fn release(counters: &mut Counters)
    ensures
        *final(counters) == after_release(*old(counters)),
{
    counters.inflight = counters.inflight.wrapping_sub(1);
}

/// A permit to serve a request. The slot is free again when it is dropped.
pub struct Permit<'a>(SemaphorePermit<'a>);

impl<'a> Permit<'a> {
    /// The slot of the pool that the permit holds.
    pub closed spec fn slot(self) -> SemaphorePermit<'a> {
        self.0
    }
}

/// Hands a slot on as a permit, where there is one, and counts what came of the
/// request.
pub fn grant<'a>(slot: Option<SemaphorePermit<'a>>, counters: &mut Counters) -> (permit: Option<
    Permit<'a>,
>)
    ensures
        match slot {
            Some(held) => permit matches Some(p) && p.slot() == held,
            None => permit is None,
        },
        *final(counters) == after_admission(*old(counters), slot is Some),
{
    match slot {
        Some(held) => {
            counters.inflight = counters.inflight.wrapping_add(1);
            counters.served = counters.served.wrapping_add(1);
            Some(Permit(held))
        },
        None => {
            counters.shed = counters.shed.wrapping_add(1);
            None
        },
    }
}

/// Takes a permit, or refuses at once. Waiting for one would be the queue again
/// in a new place; past the bound the honest answer is "busy, come back".
///
/// Whether a slot is free is up to the other holders at that moment.
pub fn try_admit<'a>(pool: &'a Semaphore, counters: &mut Counters) -> (permit: Option<Permit<'a>>)
    ensures
        *final(counters) == after_admission(*old(counters), permit is Some),
        permit matches Some(p) ==> pool_of(p.slot()) == *pool,
{
    grant(try_acquire(pool), counters)
}

/// A permit, or word that the server is at capacity.
pub fn or_busy<'a>(permit: Option<Permit<'a>>) -> (admitted: Result<Permit<'a>, Refusal>)
    ensures
        match permit {
            Some(p) => admitted == Ok::<Permit<'a>, Refusal>(p),
            None => admitted matches Err(refusal) && refusal@ == at_capacity(),
        },
{
    match permit {
        Some(p) => Ok(p),
        None => Err(Refusal::busy()),
    }
}

/// Takes an admission slot or refuses. Every handler that calls the kernel
/// passes through here.
pub fn admit_or_busy<'a>(pool: &'a Semaphore, counters: &mut Counters) -> (admitted: Result<
    Permit<'a>,
    Refusal,
>)
    ensures
        *final(counters) == after_admission(*old(counters), admitted is Ok),
        admitted matches Ok(p) ==> pool_of(p.slot()) == *pool,
        admitted matches Err(refusal) ==> refusal@ == at_capacity(),
{
    or_busy(try_admit(pool, counters))
}

/// Whatever is configured, the ceiling admits at least one request and a
/// semaphore can be made with it.
pub proof fn law_ceiling_makes_a_pool(raw: Option<&str>)
    ensures
        0 < ceiling(raw) <= semaphore_limit(),
{
}

/// Giving a permit back undoes what taking it did to the requests in flight; no
/// slot leaks, and what was served stays counted.
pub proof fn law_release_undoes_admission(counters: Counters)
    ensures
        after_release(after_admission(counters, true)).inflight == counters.inflight,
        after_release(after_admission(counters, true)).served == counters.served.wrapping_add(1),
        after_release(after_admission(counters, true)).shed == counters.shed,
{
}

/// A refusal is counted as shed and as nothing else.
pub proof fn law_refusal_only_sheds(counters: Counters)
    ensures
        after_admission(counters, false) == (Counters {
            shed: counters.shed.wrapping_add(1),
            ..counters
        }),
{
}

/// The smoothed latency stays between what it was and the new sample, and moves
/// by no more than an eighth of the way, rounded up.
pub proof fn law_latency_is_smoothed(prev: u64, us: u64)
    requires
        prev > 0,
    ensures
        prev <= us ==> prev <= smoothed(prev, us) <= us,
        us <= prev ==> us <= smoothed(prev, us) <= prev,
        prev <= us ==> smoothed(prev, us) - prev <= (us - prev + 7) / 8,
        us <= prev ==> prev - smoothed(prev, us) <= (prev - us + 7) / 8,
{
}

/// Something that happens to the counters.
pub enum Happening {
    Granted,
    Refused,
    Released,
    /// A kernel round trip of so many microseconds.
    Called(u64),
}

/// The counters after one happening.
pub open spec fn after_one(counters: Counters, happening: Happening) -> Counters {
    match happening {
        Happening::Granted => after_admission(counters, true),
        Happening::Refused => after_admission(counters, false),
        Happening::Released => after_release(counters),
        Happening::Called(us) => Counters {
            latency_us: smoothed(counters.latency_us, us),
            ..counters
        },
    }
}

/// The counters after a history, from those that have counted nothing.
pub open spec fn after_all(history: Seq<Happening>) -> Counters
    decreases history.len(),
{
    if history.len() == 0 {
        Counters { inflight: 0, served: 0, shed: 0, latency_us: 0 }
    } else {
        after_one(after_all(history.drop_last()), history.last())
    }
}

/// How often something of a kind happened.
pub open spec fn times(history: Seq<Happening>, kind: spec_fn(Happening) -> bool) -> nat
    decreases history.len(),
{
    if history.len() == 0 {
        0
    } else {
        times(history.drop_last(), kind) + if kind(history.last()) {
            1nat
        } else {
            0
        }
    }
}

/// How many permits are alive after a history.
pub open spec fn alive(history: Seq<Happening>) -> int {
    times(history, |h: Happening| h is Granted) - times(history, |h: Happening| h is Released)
}

/// A history that a pool of `n` permits allows: one is granted only while fewer
/// than `n` are alive, and only what is alive is released.
pub open spec fn within(history: Seq<Happening>, n: nat) -> bool
    decreases history.len(),
{
    history.len() > 0 ==> {
        &&& within(history.drop_last(), n)
        &&& history.last() is Granted ==> alive(history.drop_last()) < n
        &&& history.last() is Released ==> alive(history.drop_last()) > 0
    }
}

/// The latencies of a history's kernel calls, in order.
pub open spec fn samples(history: Seq<Happening>) -> Seq<u64>
    decreases history.len(),
{
    if history.len() == 0 {
        Seq::empty()
    } else {
        match history.last() {
            Happening::Called(us) => samples(history.drop_last()).push(us),
            _ => samples(history.drop_last()),
        }
    }
}

/// Latencies, smoothed one after another.
pub open spec fn smoothed_all(latencies: Seq<u64>) -> u64
    decreases latencies.len(),
{
    if latencies.len() == 0 {
        0
    } else {
        smoothed(smoothed_all(latencies.drop_last()), latencies.last())
    }
}

proof fn lemma_times_within(history: Seq<Happening>, kind: spec_fn(Happening) -> bool)
    ensures
        times(history, kind) <= history.len(),
    decreases history.len(),
{
    if history.len() > 0 {
        lemma_times_within(history.drop_last(), kind);
    }
}

/// As many permits are alive as the pool allows, at most.
proof fn lemma_alive_within(history: Seq<Happening>, n: nat)
    requires
        within(history, n),
    ensures
        0 <= alive(history) <= n,
    decreases history.len(),
{
    if history.len() > 0 {
        lemma_alive_within(history.drop_last(), n);
    }
}

/// The latency of a history is its samples, smoothed in order.
proof fn lemma_latency_of(history: Seq<Happening>)
    ensures
        after_all(history).latency_us == smoothed_all(samples(history)),
    decreases history.len(),
{
    if history.len() > 0 {
        lemma_latency_of(history.drop_last());
        if let Happening::Called(us) = history.last() {
            assert(samples(history).drop_last() =~= samples(history.drop_last()));
        }
    }
}

/// The counters count, whatever happened, in whatever order: as many requests are
/// in flight as permits are alive, as many served as were granted and as many shed
/// as were refused; and the latency is that of the calls, smoothed in order. (No
/// history is as long as the counters are wide.)
pub proof fn law_counters_count(history: Seq<Happening>)
    requires
        history.len() <= i64::MAX,
    ensures
        after_all(history).inflight == alive(history),
        after_all(history).served == times(history, |h: Happening| h is Granted),
        after_all(history).shed == times(history, |h: Happening| h is Refused),
        after_all(history).latency_us == smoothed_all(samples(history)),
    decreases history.len(),
{
    let granted = |h: Happening| h is Granted;
    let released = |h: Happening| h is Released;
    let refused = |h: Happening| h is Refused;
    lemma_times_within(history, granted);
    lemma_times_within(history, released);
    lemma_times_within(history, refused);
    lemma_latency_of(history);
    if history.len() > 0 {
        law_counters_count(history.drop_last());
    }
}

/// What is reported after any history that a pool of `n` permits allows: the
/// permits that are alive, between none and `n`; the requests that were granted
/// and those that were refused; and the smoothed latency in whole milliseconds.
pub proof fn law_report_of_a_history(history: Seq<Happening>, n: nat)
    requires
        within(history, n),
        n <= semaphore_limit(),
        history.len() <= u64::MAX,
    ensures
        ({
            let (inflight, served, shed, latency_ms) = report_of(after_all(history));
            &&& inflight == alive(history)
            &&& 0 <= inflight <= n
            &&& served == times(history, |h: Happening| h is Granted)
            &&& shed == times(history, |h: Happening| h is Refused)
            &&& latency_ms == smoothed_all(samples(history)) / 1000
        }),
    decreases history.len(),
{
    let granted = |h: Happening| h is Granted;
    let refused = |h: Happening| h is Refused;
    lemma_times_within(history, granted);
    lemma_times_within(history, refused);
    lemma_alive_within(history, n);
    lemma_latency_of(history);
    if history.len() > 0 {
        law_report_of_a_history(history.drop_last(), n);
    }
}

/// The text that is written for a count is counted: digits, however many noughts stand
/// in front, with or without a plus sign, up to what a `usize` holds; zero stands for
/// the default, and what is beyond a semaphore for its limit.
pub proof fn law_ceiling_of_a_count(raw: &str, plus: bool, digits: Seq<char>)
    requires
        is_run(digits),
        digits.len() > 0,
        raw@ == (if plus {
            seq!['+'] + digits
        } else {
            digits
        }),
    ensures
        worth(digits) == 0 || worth(digits) > usize::MAX ==> ceiling(Some(raw)) == 64,
        1 <= worth(digits) <= semaphore_limit() ==> ceiling(Some(raw)) == worth(digits),
        semaphore_limit() < worth(digits) <= usize::MAX ==> ceiling(Some(raw))
            == semaphore_limit(),
        semaphore_limit() == usize::MAX / 8,
{
    lemma_run(digits);
    if plus {
        assert(raw@.drop_first() =~= digits);
    } else {
        assert('0' <= digits[0] <= '9');
    }
}

/// Any other text, and none, stands for the default: one that is empty or a bare plus
/// sign, or that holds anything but digits behind its front.
pub proof fn law_ceiling_of_anything_else(raw: &str)
    requires
        ({
            ||| raw@.len() == 0
            ||| raw@ == seq!['+']
            ||| exists|i: int| 0 <= i < raw@.len() && !('0' <= #[trigger] raw@[i] <= '9')
                && !(i == 0 && raw@[i] == '+')
        }),
    ensures
        ceiling(Some(raw)) == 64,
        ceiling(None) == 64,
{
    let digits = if raw@.len() > 0 && raw@[0] == '+' {
        raw@.drop_first()
    } else {
        raw@
    };
    if digits.len() > 0 && all_digits(digits) {
        assert forall|i: int| 0 <= i < raw@.len() && !(i == 0 && raw@[i] == '+') implies '0'
            <= #[trigger] raw@[i] <= '9' by {
            let k = i - (raw@.len() - digits.len());
            assert(digits[k] == raw@[i]);
            assert(crate::decimal::is_digit(digits[k]));
        }
    }
}

/// A sample moves the latency by an eighth of each, in whole numbers: of `8 p + r` and
/// `8 q + s` comes `7 p + r + q`. The first sample stands as it is.
pub proof fn law_a_sample_weighs_an_eighth(prev: u64, us: u64, p: int, r: int, q: int, s: int)
    requires
        prev == 8 * p + r,
        us == 8 * q + s,
        0 <= r < 8,
        0 <= s < 8,
    ensures
        prev > 0 ==> smoothed(prev, us) == 7 * p + r + q,
        smoothed(0, us) == us,
{
}

/// A permit that is given counts one more in flight and one more served, one that is
/// refused one more shed, one that is given back one fewer in flight; nothing else
/// changes.
pub proof fn law_each_step_counts_one(counters: Counters)
    requires
        i64::MIN < counters.inflight < i64::MAX,
        counters.served < u64::MAX,
        counters.shed < u64::MAX,
    ensures
        ({
            let c = after_admission(counters, true);
            &&& c.inflight == counters.inflight + 1
            &&& c.served == counters.served + 1
            &&& c.shed == counters.shed
            &&& c.latency_us == counters.latency_us
        }),
        ({
            let c = after_admission(counters, false);
            &&& c.inflight == counters.inflight
            &&& c.served == counters.served
            &&& c.shed == counters.shed + 1
            &&& c.latency_us == counters.latency_us
        }),
        ({
            let c = after_release(counters);
            &&& c.inflight == counters.inflight - 1
            &&& c.served == counters.served
            &&& c.shed == counters.shed
            &&& c.latency_us == counters.latency_us
        }),
{
}

/// The report is the counters, with the latency in milliseconds, rounded down.
pub proof fn law_report_is_the_counters(counters: Counters)
    ensures
        ({
            let (inflight, served, shed, ms) = report_of(counters);
            &&& inflight == counters.inflight
            &&& served == counters.served
            &&& shed == counters.shed
            &&& 1000 * ms <= counters.latency_us < 1000 * ms + 1000
        }),
{
}

} // verus!
