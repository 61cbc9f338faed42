//! What the app's commands compute once the data is read: prices looked up by
//! provider slug, local day boundaries, the daily usage series, the usage
//! report windows and the clamped request limits.

use vstd::prelude::*;
use vstd::string::StringExecFns;
use crate::history::UsageSummary;
use crate::provider::{ModelPricing, ProviderId};
use crate::settings::{first_index, spec_pricing_key, AppSettings};
use crate::errors::{error_view, simple_error, FixError};
use crate::text::{all_ws, eq_str, is_blank, trim, trimmed};

verus! {

broadcast use vstd::string::group_string_axioms;

/// Seconds in a day.
pub const SECONDS_PER_DAY: i64 = 86_400;

/// The provider with this slug, if there is one.
pub open spec fn spec_provider_for_slug(slug: Seq<char>) -> Option<ProviderId> {
    if slug == ProviderId::Gemini.spec_slug() {
        Some(ProviderId::Gemini)
    } else if slug == ProviderId::OpenAiCompatible.spec_slug() {
        Some(ProviderId::OpenAiCompatible)
    } else if slug == ProviderId::Ollama.spec_slug() {
        Some(ProviderId::Ollama)
    } else {
        None
    }
}

/// The provider with this slug, if there is one: the first of `ProviderId::ALL` whose slug it is.
pub fn provider_for_slug(slug: &str) -> (r: Option<ProviderId>)
    ensures
        r == spec_provider_for_slug(slug@),
{
    let ids = ProviderId::ALL;
    let mut i: usize = 0;
    while i < 3
        invariant
            i <= 3,
            ids@ == seq![ProviderId::Gemini, ProviderId::OpenAiCompatible, ProviderId::Ollama],
            forall|j: int| 0 <= j < i ==> (#[trigger] ids@[j]).spec_slug() != slug@,
        decreases 3 - i,
    {
        if eq_str(ids[i].slug(), slug) {
            return Some(ids[i]);
        }
        i = i + 1;
    }
    None
}

/// The price of a model as stored in the settings, zero where none is set.
pub open spec fn stored_price(settings: AppSettings, provider: ProviderId, model: Seq<char>) -> ModelPricing {
    match settings.pricing.spec_get(spec_pricing_key(provider, model)) {
        Some(p) => p,
        None => ModelPricing { input_per_million_bits: 0, output_per_million_bits: 0 },
    }
}

/// The price of a model named by provider slug and model name; zero for an
/// unknown slug or an unpriced model.
pub fn pricing_for(settings: &AppSettings, provider: &str, model: &str) -> (r: ModelPricing)
    ensures
        r == match spec_provider_for_slug(provider@) {
            Some(id) => stored_price(*settings, id, model@),
            None => ModelPricing { input_per_million_bits: 0, output_per_million_bits: 0 },
        },
{
    match provider_for_slug(provider) {
        Some(id) => settings.pricing_for(id, model),
        None => ModelPricing::default(),
    }
}

/// Whether a price was configured: a price whose two amounts equal zero as
/// floats (`0.0` or `-0.0`) means "not priced".
pub fn is_priced(pricing: ModelPricing) -> (b: bool)
    ensures
        b == priced(pricing),
{
    !(is_zero_bits(pricing.input_per_million_bits) && is_zero_bits(pricing.output_per_million_bits))
}

/// Whether the bit pattern of an `f64` is a zero, positive or negative.
pub open spec fn spec_is_zero_bits(bits: u64) -> bool {
    bits == 0 || bits == 0x8000_0000_0000_0000u64
}

/// Whether the bit pattern of an `f64` is a zero, positive or negative: what
/// compares equal to `0.0`.
pub fn is_zero_bits(bits: u64) -> (b: bool)
    ensures
        b == spec_is_zero_bits(bits),
{
    bits == 0 || bits == 0x8000_0000_0000_0000u64
}

/// The earliest Unix time `time` represents: -9999-01-01 00:00:00 UTC.
pub const TIME_MIN: i64 = -377_705_116_800;

/// The latest Unix time `time` represents: 9999-12-31 23:59:59 UTC.
pub const TIME_MAX: i64 = 253_402_300_799;

/// Whether `time` can represent the Unix time `t`.
pub open spec fn time_in_range(t: int) -> bool {
    TIME_MIN <= t <= TIME_MAX
}

/// The largest offset from UTC, in seconds, that a `time::UtcOffset` holds.
pub const MAX_OFFSET_SECONDS: i32 = 93_599;

/// `time`: the Unix time of midnight, in the offset of `offset_seconds`, of the
/// day that holds `now`. The call is
/// `OffsetDateTime::from_unix_timestamp(now)`, then `checked_to_offset`, then
/// `replace_time(Time::MIDNIGHT)`, then `unix_timestamp()`. The contract claims
/// that this succeeds exactly when both `now` and the local time `now + offset`
/// lie within the range `time` represents, and that midnight is then
/// `now - (now + offset) mod 86400`, the calendar having days of 86400 seconds.
#[verifier::external_body]
fn time_local_midnight(now: i64, offset_seconds: i32) -> (r: Option<i64>)
    requires
        -MAX_OFFSET_SECONDS <= offset_seconds <= MAX_OFFSET_SECONDS,
    ensures
        r is Some <==> (time_in_range(now as int) && time_in_range(now + offset_seconds)),
        r matches Some(m) ==> m == now - (now + offset_seconds) % (SECONDS_PER_DAY as int),
{
    let offset = time::UtcOffset::from_whole_seconds(offset_seconds).ok()?;
    let instant = time::OffsetDateTime::from_unix_timestamp(now).ok()?;
    let local = instant.checked_to_offset(offset)?;
    Some(local.replace_time(time::Time::MIDNIGHT).unix_timestamp())
}

/// The start of the local day that holds `now`.
pub open spec fn spec_start_of_local_day(now: int, offset_seconds: int) -> int {
    if time_in_range(now) {
        now - (now + offset_seconds) % (SECONDS_PER_DAY as int)
    } else {
        now - now % (SECONDS_PER_DAY as int)
    }
}

/// The Unix time at which the local day holding `now` began, for a local offset
/// of `offset_seconds` from UTC; UTC midnight where `time` cannot represent
/// `now`.
pub fn start_of_local_day(now: i64, offset_seconds: i32) -> (r: i64)
    requires
        -MAX_OFFSET_SECONDS <= offset_seconds <= MAX_OFFSET_SECONDS,
        time_in_range(now as int) ==> time_in_range(now + offset_seconds),
        now - (now as int) % (SECONDS_PER_DAY as int) >= i64::MIN,
    ensures
        r == spec_start_of_local_day(now as int, offset_seconds as int),
{
    match time_local_midnight(now, offset_seconds) {
        Some(m) => m,
        None => {
            let rem = now.checked_rem_euclid(SECONDS_PER_DAY).unwrap();
            now - rem
        },
    }
}

/// A local day starts at most a day before any moment in it, at a local
/// midnight.
pub proof fn lemma_local_day_starts_at_a_boundary(now: int, offset_seconds: int)
    requires
        time_in_range(now) ==> time_in_range(now + offset_seconds),
    ensures
        spec_start_of_local_day(now, offset_seconds) <= now,
        now - spec_start_of_local_day(now, offset_seconds) < SECONDS_PER_DAY,
        time_in_range(now) ==> (spec_start_of_local_day(now, offset_seconds) + offset_seconds) % (
        SECONDS_PER_DAY as int) == 0,
{
    let d = SECONDS_PER_DAY as int;
    if time_in_range(now) {
        let s = now - (now + offset_seconds) % d;
        assert((s + offset_seconds) % d == 0) by {
            vstd::arithmetic::div_mod::lemma_fundamental_div_mod(now + offset_seconds, d);
            vstd::arithmetic::div_mod::lemma_mod_multiples_basic((now + offset_seconds) / d, d);
            assert(s + offset_seconds == d * ((now + offset_seconds) / d));
            assert(d * ((now + offset_seconds) / d) == ((now + offset_seconds) / d) * d) by (nonlinear_arith);
        }
    }
}

/// Two moments of the same local day share its start.
pub proof fn lemma_local_day_is_stable_within_a_day(morning: int, later: int, offset_seconds: int)
    requires
        time_in_range(morning),
        time_in_range(later),
        morning <= later,
        later < spec_start_of_local_day(morning, offset_seconds) + SECONDS_PER_DAY,
    ensures
        spec_start_of_local_day(later, offset_seconds) == spec_start_of_local_day(morning, offset_seconds),
{
    let d = SECONDS_PER_DAY as int;
    let a = morning + offset_seconds;
    let b = later + offset_seconds;
    vstd::arithmetic::div_mod::lemma_fundamental_div_mod(a, d);
    vstd::arithmetic::div_mod::lemma_fundamental_div_mod(b, d);
    let q = a / d;
    assert(a - a % d == q * d) by {
        assert(a == d * q + a % d);
        assert(d * q == q * d) by (nonlinear_arith);
    }
    assert(q * d <= b < q * d + d);
    vstd::arithmetic::div_mod::lemma_mod_multiples_vanish(q, b - q * d, d);
    vstd::arithmetic::div_mod::lemma_small_mod((b - q * d) as nat, d as nat);
    assert((q * d + (b - q * d)) % d == (b - q * d) % d) by {
        vstd::arithmetic::div_mod::lemma_mod_multiples_vanish(q, b - q * d, d);
    }
}

/// How many days the daily usage series covers: `days` kept between 1 and 365.
pub open spec fn clamped_days(days: u32) -> int {
    if days < 1 {
        1
    } else if days > 365 {
        365
    } else {
        days as int
    }
}

/// One day of the usage chart.
#[derive(Debug, Clone, Copy, PartialEq, Eq, Structural)]
pub struct DailyUsage {
    pub day: i64,
    pub fixes: u32,
    pub tokens: u64,
}

/// Today's start is far enough from the ends of `i64` for a year of days on either side.
pub open spec fn day_start_in_range(today_start: i64) -> bool {
    i64::MIN + 365 * SECONDS_PER_DAY <= today_start <= i64::MAX - SECONDS_PER_DAY
}

/// The window the daily series reads: from the start of the first day shown to
/// the end of today.
pub fn daily_window(today_start: i64, days: u32) -> (r: (i64, i64))
    requires
        day_start_in_range(today_start),
    ensures
        r.0 == today_start - (clamped_days(days) - 1) * SECONDS_PER_DAY,
        r.1 == today_start + SECONDS_PER_DAY,
{
    let n: i64 = if days < 1 {
        1
    } else if days > 365 {
        365
    } else {
        days as i64
    };
    (today_start - (n - 1) * SECONDS_PER_DAY, today_start + SECONDS_PER_DAY)
}

/// Day `index` of the series, with the usage recorded for it or zero.
pub open spec fn series_entry(from: int, index: int, recorded: Seq<(i64, UsageSummary)>) -> (int, u32, u64) {
    let day = from + index * SECONDS_PER_DAY;
    match first_index(recorded.map_values(|e: (i64, UsageSummary)| e.0 as int), day) {
        Some(k) => (day, recorded[k].1.fixes, recorded[k].1.spec_total_tokens()),
        None => (day, 0, 0),
    }
}

/// Where the first bucket for `day` is in `recorded`, if there is one.
fn find_bucket(recorded: &Vec<(i64, UsageSummary)>, day: i64) -> (r: Option<usize>)
    ensures
        match r {
            Some(k) => k < recorded@.len() && first_index(
                recorded@.map_values(|e: (i64, UsageSummary)| e.0 as int),
                day as int,
            ) == Some(k as int),
            None => first_index(recorded@.map_values(|e: (i64, UsageSummary)| e.0 as int), day as int) is None,
        },
{
    let ghost keys = recorded@.map_values(|e: (i64, UsageSummary)| e.0 as int);
    let mut k: usize = 0;
    while k < recorded.len()
        invariant
            k <= recorded@.len(),
            keys == recorded@.map_values(|e: (i64, UsageSummary)| e.0 as int),
            forall|j: int| 0 <= j < k ==> keys[j] != day,
        decreases recorded@.len() - k,
    {
        if recorded[k].0 == day {
            proof {
                crate::settings::lemma_first_index_at(keys, day as int, k as int);
            }
            return Some(k);
        }
        k = k + 1;
    }
    proof {
        crate::settings::lemma_first_index_none(keys, day as int);
    }
    None
}

/// The daily usage series: one entry per day, oldest first, ending today, each
/// with the usage recorded for its day (the first bucket for it) or zero.
pub fn daily_series(today_start: i64, days: u32, recorded: &Vec<(i64, UsageSummary)>) -> (r: Vec<DailyUsage>)
    requires
        day_start_in_range(today_start),
    ensures
        r@.len() == clamped_days(days),
        forall|i: int|
            0 <= i < r@.len() ==> ((#[trigger] r@[i]).day as int, r@[i].fixes, r@[i].tokens) == series_entry(
                today_start - (clamped_days(days) - 1) * SECONDS_PER_DAY,
                i,
                recorded@,
            ),
{
    let (from, _) = daily_window(today_start, days);
    let n: i64 = if days < 1 {
        1
    } else if days > 365 {
        365
    } else {
        days as i64
    };
    let ghost keys = recorded@.map_values(|e: (i64, UsageSummary)| e.0 as int);
    let mut r: Vec<DailyUsage> = Vec::new();
    let mut index: i64 = 0;
    while index < n
        invariant
            n == clamped_days(days),
            from == today_start - (n - 1) * SECONDS_PER_DAY,
            day_start_in_range(today_start),
            0 <= index <= n,
            r@.len() == index,
            keys == recorded@.map_values(|e: (i64, UsageSummary)| e.0 as int),
            forall|i: int|
                0 <= i < r@.len() ==> ((#[trigger] r@[i]).day as int, r@[i].fixes, r@[i].tokens) == series_entry(
                    from as int,
                    i,
                    recorded@,
                ),
        decreases n - index,
    {
        let day = from + index * SECONDS_PER_DAY;
        let entry = match find_bucket(recorded, day) {
            Some(k) => DailyUsage { day, fixes: recorded[k].1.fixes, tokens: recorded[k].1.total_tokens() },
            None => DailyUsage { day, fixes: 0, tokens: 0 },
        };
        assert((entry.day as int, entry.fixes, entry.tokens) == series_entry(from as int, index as int, recorded@));
        r.push(entry);
        index = index + 1;
    }
    r
}

/// The starts of the report's windows: today, the last seven days, the last
/// thirty days, and all time.
pub fn report_windows(day_start: i64) -> (r: (i64, i64, i64, i64))
    requires
        day_start >= i64::MIN + 29 * SECONDS_PER_DAY,
    ensures
        r.0 == day_start,
        r.1 == day_start - 6 * SECONDS_PER_DAY,
        r.2 == day_start - 29 * SECONDS_PER_DAY,
        r.3 == i64::MIN,
{
    (day_start, day_start - 6 * SECONDS_PER_DAY, day_start - 29 * SECONDS_PER_DAY, i64::MIN)
}

/// How many recent corrections to return: `limit` kept between 1 and 500.
pub fn recent_limit(limit: u32) -> (r: u32)
    ensures
        r == (if limit < 1 {
            1
        } else if limit > 500 {
            500
        } else {
            limit
        }),
{
    if limit < 1 {
        1
    } else if limit > 500 {
        500
    } else {
        limit
    }
}

/// How many log lines to return: `limit` kept between 1 and 2000.
pub fn log_limit(limit: u32) -> (r: usize)
    ensures
        r == (if limit < 1 {
            1
        } else if limit > 2000 {
            2000
        } else {
            limit
        }),
{
    if limit < 1 {
        1
    } else if limit > 2000 {
        2000
    } else {
        limit as usize
    }
}

/// Whether saving `next` changes the hotkey, which must then be registered again.
pub fn hotkey_changed(current: &AppSettings, next: &AppSettings) -> (b: bool)
    ensures
        b == (current.hotkey@ != next.hotkey@),
{
    !eq_str(current.hotkey.as_str(), next.hotkey.as_str())
}

/// Whether a stored API key can be used: there is one and it is not blank.
pub fn has_usable_key(stored: &Option<String>) -> (b: bool)
    ensures
        b == (stored matches Some(k) && !all_ws(k@)),
{
    match stored {
        Some(k) => !is_blank(k.as_str()),
        None => false,
    }
}

/// The key as stored: without white space at either end.
pub fn key_to_store(key: &str) -> (r: String)
    ensures
        r@ == trim(key@),
{
    trimmed(key)
}

/// Whether some model used in a period has no configured price, so that the
/// period's cost is only partly known.
pub fn partial_pricing(settings: &AppSettings, models: &Vec<(String, String)>) -> (b: bool)
    ensures
        b == exists|i: int|
            0 <= i < models@.len() && !priced(
                match spec_provider_for_slug((#[trigger] models@[i]).0@) {
                    Some(id) => stored_price(*settings, id, models@[i].1@),
                    None => ModelPricing { input_per_million_bits: 0, output_per_million_bits: 0 },
                },
            ),
{
    let mut i: usize = 0;
    while i < models.len()
        invariant
            i <= models@.len(),
            forall|j: int|
                0 <= j < i ==> priced(
                    match spec_provider_for_slug((#[trigger] models@[j]).0@) {
                        Some(id) => stored_price(*settings, id, models@[j].1@),
                        None => ModelPricing { input_per_million_bits: 0, output_per_million_bits: 0 },
                    },
                ),
        decreases models@.len() - i,
    {
        let pricing = pricing_for(settings, models[i].0.as_str(), models[i].1.as_str());
        if !is_priced(pricing) {
            return true;
        }
        i = i + 1;
    }
    false
}

/// A price was configured: it does not equal the zero price as floats (both
/// amounts `0.0` or `-0.0`).
pub open spec fn priced(p: ModelPricing) -> bool {
    !(spec_is_zero_bits(p.input_per_million_bits) && spec_is_zero_bits(p.output_per_million_bits))
}

/// The error when the settings could not be written.
pub fn settings_write_error(message: String) -> (r: FixError)
    ensures
        error_view(r) == ("settings_write"@, message@, "Check that ZyntaxAI's config directory is writable."@, false),
{
    simple_error("settings_write", message, "Check that ZyntaxAI's config directory is writable.")
}

/// The error when the new hotkey could not be registered.
pub fn hotkey_unavailable_error(message: String) -> (r: FixError)
    ensures
        error_view(r) == (
            "hotkey_unavailable"@,
            message@,
            "Choose a different combination in the Hotkeys panel."@,
            false,
        ),
{
    simple_error("hotkey_unavailable", message, "Choose a different combination in the Hotkeys panel.")
}

/// The error when an accelerator does not parse.
pub fn hotkey_invalid_error(message: String) -> (r: FixError)
    ensures
        error_view(r) == ("hotkey_invalid"@, message@, "Include at least one modifier and one key."@, false),
{
    simple_error("hotkey_invalid", message, "Include at least one modifier and one key.")
}

/// The error when the keychain refused a key.
pub fn keychain_write_error(message: String) -> (r: FixError)
    ensures
        error_view(r) == ("keychain_write"@, message@, "Check that your system keychain is unlocked."@, false),
{
    simple_error("keychain_write", message, "Check that your system keychain is unlocked.")
}

/// The error when the history database could not be read.
pub fn history_error(message: String) -> (r: FixError)
    ensures
        error_view(r) == (
            "history_unavailable"@,
            message@,
            "ZyntaxAI could not read its history database."@,
            false,
        ),
{
    simple_error("history_unavailable", message, "ZyntaxAI could not read its history database.")
}

/// The error when the start-up entry could not be changed.
pub fn autostart_error(message: String) -> (r: FixError)
    ensures
        error_view(r) == (
            "autostart_failed"@,
            message@,
            "ZyntaxAI could not change its start-up entry. On Linux this needs a writable ~/.config/autostart directory."@,
            false,
        ),
{
    simple_error(
        "autostart_failed",
        message,
        "ZyntaxAI could not change its start-up entry. On Linux this needs a writable \
         ~/.config/autostart directory.",
    )
}

/// Whether the hotkey is registered, and if not, why.
#[derive(Debug, Clone)]
pub struct HotkeyStatus {
    pub accelerator: String,
    pub display: String,
    pub registered: bool,
    pub problem: Option<String>,
}

/// The hotkey status the application starts with: the configured hotkey, not
/// registered yet.
pub fn initial_hotkey_status(settings: &AppSettings) -> (r: HotkeyStatus)
    ensures
        r.accelerator == settings.hotkey,
        r.display == settings.hotkey,
        !r.registered,
        r.problem matches Some(p) && p@ == "not registered yet"@,
{
    HotkeyStatus {
        accelerator: settings.hotkey.clone(),
        display: settings.hotkey.clone(),
        registered: false,
        problem: Some(String::from_str("not registered yet")),
    }
}

} // verus!
