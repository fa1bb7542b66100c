//! The watch: the wait between cycles, the one offer to mend the endpoint,
//! and what the operator may answer to it.

use crate::config::Config;
use crate::errors::{join, AppError};
use crate::json::same_text;
use crate::text::{chars_of, find_sep, next_sep, trim_range, trimmed};
use vstd::prelude::*;
use vstd::string::StrSliceExecFns;

verus! {

/// The shortest time between two cycles, in milliseconds.
pub const MIN_INTERVAL_MS: u64 = 250;

/// The cap on the wait after repeated failures, in milliseconds.
pub const MAX_BACKOFF_MS: u64 = 60_000;

/// The longest uninterrupted part of a wait, in milliseconds.
pub const SLEEP_SLICE_MS: u64 = 100;

/// Whether every character is a digit of ASCII.
pub open spec fn all_digits(s: Seq<char>) -> bool {
    forall|i: int| 0 <= i < s.len() ==> '0' <= (#[trigger] s[i]) && s[i] <= '9'
}

/// Whether `s` begins with `prefix`.
pub open spec fn begins_with(s: Seq<char>, prefix: Seq<char>) -> bool {
    prefix.len() <= s.len() && s.subrange(0, prefix.len() as int) == prefix
}

/// The endpoint that an answer of the operator stands for: a port stands for
/// that port of this machine, a URL for itself, anything else with a colon
/// for a host and port spoken to in plain HTTP; nothing else is an endpoint.
pub open spec fn normalize_user_url_spec(input: Seq<char>) -> Option<Seq<char>> {
    let text = trimmed(input);
    if text.len() == 0 {
        None
    } else if all_digits(text) {
        Some("http://localhost:"@ + text + "/api-docs/openapi.json"@)
    } else if begins_with(text, "http://"@) || begins_with(text, "https://"@) {
        Some(text)
    } else if next_sep(text, ':', 0) < text.len() {
        Some("http://"@ + text + "/api-docs/openapi.json"@)
    } else {
        None
    }
}

/// Whether every character is a digit of ASCII.
fn only_digits(chars: &Vec<char>) -> (r: bool)
    ensures
        r == all_digits(chars@),
{
    let mut i: usize = 0;
    while i < chars.len()
        invariant
            i <= chars.len(),
            forall|k: int| 0 <= k < i ==> '0' <= (#[trigger] chars@[k]) && chars@[k] <= '9',
        decreases chars.len() - i,
    {
        if !('0' <= chars[i] && chars[i] <= '9') {
            return false;
        }
        i += 1;
    }
    true
}

/// Whether `s`, of `len` characters, begins with `prefix`.
fn has_prefix(s: &str, len: usize, prefix: &str) -> (r: bool)
    requires
        len == s@.len(),
    ensures
        r == begins_with(s@, prefix@),
{
    let n = prefix.unicode_len();
    n <= len && same_text(s.substring_char(0, n), prefix)
}

/// Turns an answer of the operator into an endpoint: see [`normalize_user_url_spec`].
pub fn normalize_user_url(input: &str) -> (r: Option<String>)
    ensures
        match r {
            Some(url) => normalize_user_url_spec(input@) == Some(url@),
            None => normalize_user_url_spec(input@) is None,
        },
{
    let chars = chars_of(input);
    let (a, b) = trim_range(&chars, 0, chars.len());
    if a == b {
        return None;
    }
    let text = input.substring_char(a, b);
    let text_chars = chars_of(text);
    if only_digits(&text_chars) {
        let head = join("http://localhost:", text);
        return Some(join(head.as_str(), "/api-docs/openapi.json"));
    }
    if has_prefix(text, b - a, "http://") || has_prefix(text, b - a, "https://") {
        return Some(text.to_owned());
    }
    if find_sep(&text_chars, ':', 0) < text_chars.len() {
        let head = join("http://", text);
        return Some(join(head.as_str(), "/api-docs/openapi.json"));
    }
    None
}

/// What the operator answered when asked for another endpoint.
#[derive(Debug, PartialEq, Eq)]
pub enum Answer {
    /// Nothing but white space: the offer is declined.
    Declined,
    /// An endpoint.
    Endpoint(String),
    /// Something that stands for no endpoint: the operator is asked again.
    Invalid,
}

/// What a line of the operator's input says: see [`normalize_user_url_spec`].
pub fn read_answer(input: &str) -> (r: Answer)
    ensures
        match r {
            Answer::Declined => trimmed(input@).len() == 0,
            Answer::Endpoint(url) => trimmed(input@).len() > 0 && normalize_user_url_spec(input@)
                == Some(url@),
            Answer::Invalid => trimmed(input@).len() > 0 && normalize_user_url_spec(input@)
                is None,
        },
{
    match normalize_user_url(input) {
        Some(url) => Answer::Endpoint(url),
        None => {
            let chars = chars_of(input);
            let (a, b) = trim_range(&chars, 0, chars.len());
            if a == b {
                Answer::Declined
            } else {
                Answer::Invalid
            }
        },
    }
}

/// Whether a failure is one that the operator is asked about: the endpoint
/// is still the default, and another endpoint could mend the failure.
pub open spec fn wants_prompt_spec(config: Config, err: AppError) -> bool {
    config.url_from_default && (err is Network || err is Json)
}

/// Whether the operator is to be asked for another endpoint after this failure.
pub fn wants_prompt(config: &Config, err: &AppError) -> (r: bool)
    ensures
        r == wants_prompt_spec(*config, *err),
{
    config.url_from_default && err.is_url_related()
}

/// Takes in the operator's answer to a failure: where the failure is one to
/// ask about and the answer is an endpoint, the configuration takes it and
/// stops counting as the default; otherwise nothing changes. Returns whether
/// the endpoint changed.
pub fn maybe_prompt_for_url(config: &mut Config, err: &AppError, answer: Option<String>) -> (r:
    bool)
    ensures
        r == (wants_prompt_spec(*old(config), *err) && answer is Some),
        r ==> final(config).url == answer->0 && !final(config).url_from_default,
        !r ==> final(config).url == old(config).url && final(config).url_from_default == old(
            config,
        ).url_from_default,
        final(config).out == old(config).out,
        final(config).outline_out == old(config).outline_out,
        final(config).reduce == old(config).reduce,
        final(config).profile == old(config).profile,
        final(config).minify == old(config).minify,
        final(config).timeout_ms == old(config).timeout_ms,
        final(config).headers == old(config).headers,
        final(config).stdout == old(config).stdout,
{
    if !wants_prompt(config, err) {
        return false;
    }
    match answer {
        Some(url) => {
            config.url = url;
            config.url_from_default = false;
            true
        },
        None => false,
    }
}

/// The time between two cycles: the configured one, but no shorter than the floor.
pub open spec fn base_interval(interval_ms: u64) -> u64 {
    if interval_ms < MIN_INTERVAL_MS {
        MIN_INTERVAL_MS
    } else {
        interval_ms
    }
}

/// The wait that follows a wait of `delay` after one more failure: twice as
/// long while that stays under the cap, then the cap; a wait already over
/// the cap stays as it is.
pub open spec fn grow(delay: int, cap: int) -> int {
    if 2 * delay <= cap {
        2 * delay
    } else if delay <= cap {
        cap
    } else {
        delay
    }
}

/// The wait after `failures` failures in a row, from a wait of `base`.
pub open spec fn backoff_spec(base: int, failures: nat, cap: int) -> int
    decreases failures,
{
    if failures == 0 {
        base
    } else {
        grow(backoff_spec(base, (failures - 1) as nat, cap), cap)
    }
}

/// A wait that one more failure leaves as it is, is left so by any number more.
pub proof fn lemma_backoff_settles(base: int, k: nat, n: nat, cap: int)
    requires
        k <= n,
        grow(backoff_spec(base, k, cap), cap) == backoff_spec(base, k, cap),
    ensures
        backoff_spec(base, n, cap) == backoff_spec(base, k, cap),
    decreases n - k,
{
    if k < n {
        lemma_backoff_settles(base, k, (n - 1) as nat, cap);
    }
}

/// The wait never shrinks as failures follow one another, never passes the
/// cap unless the base interval itself does, and is the base interval when
/// no failure has come since the last success.
pub proof fn lemma_backoff_grows_to_cap(base: int, failures: nat, cap: int)
    requires
        base >= 0,
    ensures
        backoff_spec(base, 0, cap) == base,
        base <= backoff_spec(base, failures, cap),
        backoff_spec(base, failures, cap) <= backoff_spec(base, failures + 1, cap),
        backoff_spec(base, failures, cap) <= if base <= cap {
            cap
        } else {
            base
        },
    decreases failures,
{
    if failures > 0 {
        lemma_backoff_grows_to_cap(base, (failures - 1) as nat, cap);
    }
}

/// More failures in a row never make for a shorter wait.
pub proof fn lemma_backoff_monotone(base: int, fewer: nat, more: nat, cap: int)
    requires
        base >= 0,
        fewer <= more,
    ensures
        backoff_spec(base, fewer, cap) <= backoff_spec(base, more, cap),
    decreases more - fewer,
{
    if fewer < more {
        lemma_backoff_monotone(base, fewer, (more - 1) as nat, cap);
        lemma_backoff_grows_to_cap(base, (more - 1) as nat, cap);
    }
}

/// The wait before the next cycle after `failures` failures in a row: the
/// base interval, doubled once per failure up to `max_ms`.
pub fn backoff_delay(interval_ms: u64, failures: u32, max_ms: u64) -> (r: u64)
    ensures
        r == backoff_spec(base_interval(interval_ms) as int, failures as nat, max_ms as int),
{
    let base = if interval_ms < MIN_INTERVAL_MS {
        MIN_INTERVAL_MS
    } else {
        interval_ms
    };
    let mut delay: u64 = base;
    let mut k: u32 = 0;
    while k < failures
        invariant
            k <= failures,
            base == base_interval(interval_ms),
            delay == backoff_spec(base as int, k as nat, max_ms as int),
        decreases failures - k,
    {
        let next = if delay <= max_ms / 2 {
            delay * 2
        } else if delay <= max_ms {
            max_ms
        } else {
            delay
        };
        if next == delay {
            proof {
                lemma_backoff_settles(base as int, k as nat, failures as nat, max_ms as int);
            }
            return delay;
        }
        delay = next;
        k += 1;
    }
    delay
}

/// What the watch remembers from cycle to cycle.
#[derive(Debug, Clone, Copy)]
pub struct WatchState {
    /// The failures since the last success.
    pub failures: u32,
    /// Whether the operator has been asked for another endpoint; never asked twice.
    pub prompt_offered: bool,
}

/// What the watch does after a cycle.
#[derive(Debug, Clone, Copy, PartialEq, Eq, Structural)]
pub enum WatchAction {
    /// Wait this many milliseconds, then run the next cycle.
    Sleep { ms: u64 },
    /// Ask the operator for another endpoint.
    Prompt,
    /// Run the next cycle at once.
    Retry,
}

/// How a cycle ended.
#[derive(Debug, Clone, Copy, PartialEq, Eq, Structural)]
pub enum CycleOutcome {
    /// The payloads were built and written.
    Success,
    /// The cycle failed in a way that another endpoint could mend.
    UrlFailure,
    /// The cycle failed otherwise.
    OtherFailure,
}

/// One more failure, short of overflow.
pub open spec fn one_more(failures: u32) -> u32 {
    if failures == u32::MAX {
        failures
    } else {
        (failures + 1) as u32
    }
}

/// The state after a cycle and what the watch does next. A success clears
/// the failures and waits the base interval. The first failure that another
/// endpoint could mend, while the endpoint is the default, uses up the one
/// offer and asks the operator. Any other failure counts, and waits the
/// longer the more failures came in a row.
pub open spec fn after_cycle_spec(
    state: WatchState,
    outcome: CycleOutcome,
    url_from_default: bool,
    interval_ms: u64,
) -> (WatchState, WatchAction) {
    match outcome {
        CycleOutcome::Success => (
            WatchState { failures: 0, prompt_offered: state.prompt_offered },
            WatchAction::Sleep { ms: base_interval(interval_ms) },
        ),
        CycleOutcome::UrlFailure => if !state.prompt_offered && url_from_default {
            (WatchState { failures: state.failures, prompt_offered: true }, WatchAction::Prompt)
        } else {
            failed(state, interval_ms)
        },
        CycleOutcome::OtherFailure => failed(state, interval_ms),
    }
}

/// The state after a failure that counts, and the wait that follows it.
pub open spec fn failed(state: WatchState, interval_ms: u64) -> (WatchState, WatchAction) {
    let failures = one_more(state.failures);
    (
        WatchState { failures, prompt_offered: state.prompt_offered },
        WatchAction::Sleep {
            ms: backoff_spec(
                base_interval(interval_ms) as int,
                failures as nat,
                MAX_BACKOFF_MS as int,
            ) as u64,
        },
    )
}

/// The state after the operator has answered and what the watch does next:
/// with another endpoint the next cycle runs at once; without one the
/// failure counts like any other.
pub open spec fn after_prompt_spec(state: WatchState, changed: bool, interval_ms: u64) -> (
    WatchState,
    WatchAction,
) {
    if changed {
        (state, WatchAction::Retry)
    } else {
        failed(state, interval_ms)
    }
}

impl WatchState {
    /// A watch before its first cycle.
    pub fn new() -> (r: WatchState)
        ensures
            r.failures == 0,
            !r.prompt_offered,
    {
        WatchState { failures: 0, prompt_offered: false }
    }

    /// Counts a failure and gives the wait that follows it.
    fn fail(&mut self, interval_ms: u64) -> (r: WatchAction)
        ensures
            (*final(self), r) == failed(*old(self), interval_ms),
    {
        if self.failures < u32::MAX {
            self.failures = self.failures + 1;
        }
        WatchAction::Sleep { ms: backoff_delay(interval_ms, self.failures, MAX_BACKOFF_MS) }
    }

    /// Takes in how a cycle ended, and says what the watch does next: see
    /// [`after_cycle_spec`]. The offer to the operator, once made, is never
    /// made again.
    pub fn after_cycle(
        &mut self,
        outcome: CycleOutcome,
        url_from_default: bool,
        interval_ms: u64,
    ) -> (r: WatchAction)
        ensures
            (*final(self), r) == after_cycle_spec(*old(self), outcome, url_from_default, interval_ms),
            old(self).prompt_offered ==> final(self).prompt_offered && r != WatchAction::Prompt,
    {
        match outcome {
            CycleOutcome::Success => {
                self.failures = 0;
                let ms = if interval_ms < MIN_INTERVAL_MS {
                    MIN_INTERVAL_MS
                } else {
                    interval_ms
                };
                WatchAction::Sleep { ms }
            },
            CycleOutcome::UrlFailure => {
                if !self.prompt_offered && url_from_default {
                    self.prompt_offered = true;
                    WatchAction::Prompt
                } else {
                    self.fail(interval_ms)
                }
            },
            CycleOutcome::OtherFailure => self.fail(interval_ms),
        }
    }

    /// Takes in whether the operator gave another endpoint, and says what
    /// the watch does next: see [`after_prompt_spec`].
    pub fn after_prompt(&mut self, changed: bool, interval_ms: u64) -> (r: WatchAction)
        ensures
            (*final(self), r) == after_prompt_spec(*old(self), changed, interval_ms),
    {
        if changed {
            WatchAction::Retry
        } else {
            self.fail(interval_ms)
        }
    }
}

/// How a cycle that failed with `err` ended.
pub fn failure_outcome(err: &AppError) -> (r: CycleOutcome)
    ensures
        r == if err is Network || err is Json {
            CycleOutcome::UrlFailure
        } else {
            CycleOutcome::OtherFailure
        },
{
    if err.is_url_related() {
        CycleOutcome::UrlFailure
    } else {
        CycleOutcome::OtherFailure
    }
}

/// The next uninterrupted part of a wait of which `remaining_ms` are left:
/// a slice at most, so that an interruption is noticed within a slice.
pub fn sleep_slice(remaining_ms: u64) -> (r: u64)
    ensures
        r <= SLEEP_SLICE_MS,
        r <= remaining_ms,
        r == remaining_ms || r == SLEEP_SLICE_MS,
        remaining_ms > 0 ==> r > 0,
{
    if remaining_ms < SLEEP_SLICE_MS {
        remaining_ms
    } else {
        SLEEP_SLICE_MS
    }
}

} // verus!
