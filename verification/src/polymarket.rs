//! The prediction market being followed: which market is current, how
//! long until the next one, how its quote is read, and its summary figures.
use vstd::prelude::*;
use crate::clock::{utc_now, Timestamp};
use crate::text::{nat_text, str_contains, text_contains, u64_to_text};
use crate::decimal::{checked_add, checked_sub, decimal_checked_add, decimal_checked_sub, Decimal, MAX_MANTISSA};

verus! {

/// Length of one market in seconds (a quarter of an hour).
pub const MARKET_SECONDS: u64 = 900u64;

/// The start of the quarter-hour market that contains the instant `now`
/// (seconds since the epoch).
pub fn market_epoch(now: u64) -> (r: u64)
    ensures
        r == now - now % 900,
        r % 900 == 0,
        r <= now < r + 900,
{
    (now / MARKET_SECONDS) * MARKET_SECONDS
}

/// The name of the market starting at `epoch`: `btc-updown-15m-` and the
/// epoch's decimal digits.
pub open spec fn slug_text(epoch: u64) -> Seq<char> {
    "btc-updown-15m-"@ + nat_text(epoch as nat)
}

/// The name of the market starting at `epoch`.
pub fn market_slug(epoch: u64) -> (r: String)
    ensures
        r@ == slug_text(epoch),
{
    let mut s = String::from_str("btc-updown-15m-");
    let digits = u64_to_text(epoch);
    s.append(digits.as_str());
    s
}

/// The name of the market starting at the beginning of the quarter hour
/// that contains `now` (Unix seconds, taken as unsigned as the clock gives them).
pub fn market_slug_at(now: i64) -> (r: String)
    ensures
        r@ == slug_text((now as u64 - (now as u64) % 900) as u64),
{
    market_slug(market_epoch(now as u64))
}

/// The name of the current market.
pub fn current_market_slug() -> (r: String)
    ensures
        exists|now: i64| r@ == #[trigger] slug_text((now as u64 - (now as u64) % 900) as u64),
{
    let now = utc_now();
    market_slug_at(now.secs)
}

/// The minute of the hour and the second of the minute, in UTC, of the
/// instant `secs` seconds after the epoch.
pub open spec fn minute_second_of(secs: i64) -> (u32, u32) {
    (((secs % 3600) / 60) as u32, (secs % 60) as u32)
}

/// A multiple of 3600 at least 2^63, so that adding it to any `i64` gives
/// a value that is not negative.
const HOUR_ALIGNED_OFFSET: i128 = 9_223_372_036_854_777_600i128;

/// The minute of the hour and the second of the minute, in UTC, of the
/// instant `secs` seconds after the epoch.
pub fn minute_second(secs: i64) -> (r: (u32, u32))
    ensures
        r == minute_second_of(secs),
        r.0 < 60,
        r.1 < 60,
{
    let shifted: i128 = secs as i128 + HOUR_ALIGNED_OFFSET;
    let within_hour: i128 = shifted % 3600;
    proof {
        vstd::arithmetic::div_mod::lemma_mod_multiples_vanish(2_562_047_788_015_216, secs as int, 3600);
        assert(HOUR_ALIGNED_OFFSET == 3600 * 2_562_047_788_015_216);
        assert(shifted == 3600 * 2_562_047_788_015_216 + secs);
        assert(within_hour == secs % 3600);
        vstd::arithmetic::div_mod::lemma_mod_mod(secs as int, 60, 60);
        assert((secs % 3600) % 60 == secs % 60);
    }
    let minute = (within_hour / 60) as u32;
    let second = (within_hour % 60) as u32;
    (minute, second)
}

/// Minutes and seconds left until the next quarter hour, as shown: at the
/// start of a minute `m`m `00`s, otherwise one minute fewer and the seconds
/// counted down from 60.
pub fn countdown(minute: u32, second: u32) -> (r: (i64, i64))
    requires
        minute < 60,
        second < 60,
    ensures
        r == countdown_spec(minute, second),
        r.0 * 60 + r.1 == 900 - (minute * 60 + second) % 900,
        0 <= r.0 <= 15,
        0 <= r.1 < 60,
{
    let m = minute as i64;
    let s = second as i64;
    let next_boundary = ((m / 15) + 1) * 15;
    let minutes_remaining = next_boundary - m;
    let seconds_remaining = 60 - s;
    assert((m * 60 + s) % 900 == (m % 15) * 60 + s) by (nonlinear_arith)
        requires
            0 <= m < 60,
            0 <= s < 60,
    ;
    let r = if seconds_remaining == 60 {
        (minutes_remaining, 0)
    } else {
        (minutes_remaining - 1, seconds_remaining)
    };
    let ghost left: int = 900 - (minute * 60 + second) % 900;
    assert(r.0 == left / 60 && r.1 == left % 60) by (nonlinear_arith)
        requires
            r.0 * 60 + r.1 == left,
            0 <= r.1 < 60,
    ;
    r
}

/// The text of a countdown: the minutes, `m `, the seconds padded to two
/// digits, `s` (as `format!("{}m {:02}s")` writes them).
pub open spec fn countdown_text(minutes: nat, seconds: nat) -> Seq<char> {
    nat_text(minutes) + "m "@ + (if seconds < 10 { seq!['0'] } else { Seq::empty() }) + nat_text(seconds) + "s"@
}

/// Writes a countdown.
pub fn format_countdown(minutes: u64, seconds: u64) -> (r: String)
    ensures
        r@ == countdown_text(minutes as nat, seconds as nat),
{
    let mut s = u64_to_text(minutes);
    s.append("m ");
    let ghost head = s@;
    if seconds < 10 {
        s.append("0");
        proof {
            reveal_strlit("0");
        }
    }
    assert(s@ =~= head + (if seconds < 10 { seq!['0'] } else { Seq::<char>::empty() }));
    let digits = u64_to_text(seconds);
    s.append(digits.as_str());
    s.append("s");
    s
}

/// The countdown text at `minute` and `second` past the hour.
fn countdown_at(minute: u32, second: u32) -> (r: String)
    requires
        minute < 60,
        second < 60,
    ensures
        r@ == countdown_text(countdown_spec(minute, second).0 as nat, countdown_spec(minute, second).1 as nat),
{
    let c = countdown(minute, second);
    assert(c == countdown_spec(minute, second));
    format_countdown(c.0 as u64, c.1 as u64)
}

/// The time left until the next quarter hour of the current hour, as text.
pub fn get_time_to_next_interval() -> (r: String)
    ensures
        exists|minute: u32, second: u32|
            minute < 60 && second < 60 && {
                let c = #[trigger] countdown_spec(minute, second);
                r@ == countdown_text(c.0 as nat, c.1 as nat)
            },
{
    let (minute, second) = minute_second(utc_now().secs);
    let r = countdown_at(minute, second);
    assert(countdown_spec(minute, second) == countdown_spec(minute, second));
    r
}

/// The countdown as numbers: the seconds left until the next quarter hour
/// (a full 900 at the quarter hour itself), in whole minutes and the
/// seconds beyond them.
pub open spec fn countdown_spec(minute: u32, second: u32) -> (i64, i64) {
    let left = 900 - (minute * 60 + second) % 900;
    ((left / 60) as i64, (left % 60) as i64)
}

/// What a JSON array of strings parses to: the strings, or `None` where
/// the text is not such an array.
pub uninterp spec fn json_string_array(text: Seq<char>) -> Option<Seq<Seq<char>>>;

/// Parses a JSON array of strings with `serde_json::from_str::<Vec<String>>`.
/// Claimed: only that the result is the named one, a function of the text.
#[verifier::external_body]
fn parse_string_array(text: &str) -> (r: Option<Vec<String>>)
    ensures
        r is Some <==> json_string_array(text@) is Some,
        r matches Some(v) ==> v@.map_values(|s: String| s@) == json_string_array(text@)->0,
{
    serde_json::from_str::<Vec<String>>(text).ok()
}

/// The first two entries of the outcome prices (a JSON array of strings,
/// such as `["0.795", "0.205"]`): the YES price text and the NO price text.
pub fn outcome_price_texts(prices: &str) -> (r: Option<(String, String)>)
    ensures
        match json_string_array(prices@) {
            Some(v) => if v.len() >= 2 {
                r matches Some(p) && p.0@ == v[0] && p.1@ == v[1]
            } else {
                r is None
            },
            None => r is None,
        },
{
    match parse_string_array(prices) {
        Some(v) => {
            if v.len() >= 2 {
                let ghost vv = v@.map_values(|s: String| s@);
                assert(vv[0] == v@[0]@);
                assert(vv[1] == v@[1]@);
                Some((v[0].clone(), v[1].clone()))
            } else {
                None
            }
        },
        None => None,
    }
}

/// What `str::to_lowercase` gives for the text.
pub uninterp spec fn lowercase_text(text: Seq<char>) -> Seq<char>;

/// Calls `str::to_lowercase`. Claimed: only that the result is the named
/// one, a function of the text (Unicode lower-casing is not restated).
#[verifier::external_body]
fn to_lowercase(text: &str) -> (r: String)
    ensures
        r@ == lowercase_text(text@),
{
    text.to_lowercase()
}

/// A question of a quarter-hour bitcoin market: lower-cased, it mentions
/// "15" and "up" or "down".
pub open spec fn is_quarter_hour_question(q: Seq<char>) -> bool {
    let l = lowercase_text(q);
    text_contains(l, "15"@) && (text_contains(l, "up"@) || text_contains(l, "down"@))
}

/// The index of the first question of a quarter-hour bitcoin market.
pub fn find_quarter_hour_market(questions: &Vec<String>) -> (r: Option<usize>)
    ensures
        match r {
            Some(i) => i < questions@.len() && is_quarter_hour_question(questions@[i as int]@)
                && forall|k: int| 0 <= k < i ==> !is_quarter_hour_question(#[trigger] questions@[k]@),
            None => forall|k: int| 0 <= k < questions@.len() ==> !is_quarter_hour_question(#[trigger] questions@[k]@),
        },
{
    let n = questions.len();
    for i in 0..n
        invariant
            n == questions@.len(),
            forall|k: int| 0 <= k < i ==> !is_quarter_hour_question(#[trigger] questions@[k]@),
    {
        let lower = to_lowercase(questions[i].as_str());
        let hit = str_contains(lower.as_str(), "15") && (str_contains(lower.as_str(), "up") || str_contains(
            lower.as_str(),
            "down",
        ));
        if hit {
            return Some(i);
        }
    }
    None
}

/// The instant that an RFC 3339 date-and-time text stands for.
pub uninterp spec fn rfc3339_instant(text: Seq<char>) -> Option<Timestamp>;

/// Parses with `chrono::DateTime::parse_from_rfc3339` and takes the instant
/// (seconds and sub-second nanoseconds). Claimed: the result is the named
/// one, a function of the text, and the sub-second part is in chrono's
/// documented range.
#[verifier::external_body]
fn parse_rfc3339(text: &str) -> (r: Option<Timestamp>)
    ensures
        r == rfc3339_instant(text@),
        r matches Some(t) ==> t.nanos < 2_000_000_000,
{
    match chrono::DateTime::parse_from_rfc3339(text) {
        Ok(d) => Some(Timestamp { secs: d.timestamp(), nanos: d.timestamp_subsec_nanos() }),
        Err(_) => None,
    }
}

/// The end of a market, from its optional ISO date text.
pub fn market_end(end_date_iso: Option<&str>) -> (r: Option<Timestamp>)
    ensures
        r == match end_date_iso {
            Some(t) => rfc3339_instant(t@),
            None => None,
        },
{
    match end_date_iso {
        Some(t) => parse_rfc3339(t),
        None => None,
    }
}

/// `|yes + no - 1|`: how far the two outcome prices are from summing to one.
pub open spec fn spread(yes: Decimal, no: Decimal) -> Option<Decimal> {
    match decimal_checked_add(yes, no) {
        Some(s) => match decimal_checked_sub(s, Decimal { mantissa: 1, scale: 0 }) {
            Some(d) => Some(d.spec_abs()),
            None => None,
        },
        None => None,
    }
}

/// The spread, or `None` where computing it overflows.
pub fn try_market_spread(yes: Decimal, no: Decimal) -> (r: Option<Decimal>)
    requires
        yes.wf(),
        no.wf(),
    ensures
        r == spread(yes, no),
        r matches Some(d) ==> d.wf() && d.mantissa >= 0,
{
    match checked_add(yes, no) {
        Some(s) => match checked_sub(s, Decimal::one()) {
            Some(d) => Some(d.abs()),
            None => None,
        },
        None => None,
    }
}

/// The spread `|yes + no - 1|`.
pub fn market_spread(yes: Decimal, no: Decimal) -> (r: Decimal)
    requires
        yes.wf(),
        no.wf(),
        spread(yes, no) is Some,
    ensures
        r == spread(yes, no)->0,
        r.wf(),
{
    try_market_spread(yes, no).unwrap()
}

/// The figures shown for the current market.
#[derive(Debug)]
pub struct MarketMetrics {
    pub market_id: String,
    pub question: String,
    pub yes_price: Decimal,
    pub no_price: Decimal,
    pub spread: Decimal,
    pub volume_24h: Decimal,
    pub liquidity: Decimal,
    pub ends_at: Option<Timestamp>,
    pub time_remaining: String,
    pub last_update: Timestamp,
}

impl Default for MarketMetrics {
    /// The figures before any quote, stamped now.
    fn default() -> (r: MarketMetrics)
        ensures
            r.market_id@ == Seq::<char>::empty(),
            r.question@ == "BTC 15-Min Market (Loading...)"@,
            r.yes_price == one_half(),
            r.no_price == one_half(),
            r.spread == Decimal::spec_zero(),
            r.volume_24h == Decimal::spec_zero(),
            r.liquidity == Decimal::spec_zero(),
            r.ends_at is None,
            r.time_remaining@ == "Loading..."@,
    {
        MarketMetrics::loading()
    }
}

/// One half, the price of either outcome before a quote is known.
pub open spec fn one_half() -> Decimal {
    Decimal { mantissa: 5, scale: 1 }
}

impl MarketMetrics {
    /// A field-by-field copy.
    pub fn duplicate(&self) -> (r: MarketMetrics)
        ensures
            r == *self,
    {
        MarketMetrics {
            market_id: self.market_id.clone(),
            question: self.question.clone(),
            yes_price: self.yes_price,
            no_price: self.no_price,
            spread: self.spread,
            volume_24h: self.volume_24h,
            liquidity: self.liquidity,
            ends_at: self.ends_at,
            time_remaining: self.time_remaining.clone(),
            last_update: self.last_update,
        }
    }

    /// The figures before any quote: both prices one half, the rest zero or
    /// empty, stamped with `now`.
    pub fn loading_at(now: Timestamp) -> (r: MarketMetrics)
        ensures
            r.market_id@ == Seq::<char>::empty(),
            r.question@ == "BTC 15-Min Market (Loading...)"@,
            r.yes_price == one_half(),
            r.no_price == one_half(),
            r.spread == Decimal::spec_zero(),
            r.volume_24h == Decimal::spec_zero(),
            r.liquidity == Decimal::spec_zero(),
            r.ends_at is None,
            r.time_remaining@ == "Loading..."@,
            r.last_update == now,
    {
        MarketMetrics {
            market_id: String::new(),
            question: String::from_str("BTC 15-Min Market (Loading...)"),
            yes_price: Decimal { mantissa: 5, scale: 1 },
            no_price: Decimal { mantissa: 5, scale: 1 },
            spread: Decimal::zero(),
            volume_24h: Decimal::zero(),
            liquidity: Decimal::zero(),
            ends_at: None,
            time_remaining: String::from_str("Loading..."),
            last_update: now,
        }
    }

    /// The figures before any quote, stamped now.
    pub fn loading() -> (r: MarketMetrics)
        ensures
            r.market_id@ == Seq::<char>::empty(),
            r.question@ == "BTC 15-Min Market (Loading...)"@,
            r.yes_price == one_half(),
            r.no_price == one_half(),
            r.spread == Decimal::spec_zero(),
            r.volume_24h == Decimal::spec_zero(),
            r.liquidity == Decimal::spec_zero(),
            r.ends_at is None,
            r.time_remaining@ == "Loading..."@,
    {
        MarketMetrics::loading_at(utc_now())
    }

    /// The figures of a quoted market. Prices that could not be read count
    /// as one half each; the spread is `|yes + no - 1|`; the end is read
    /// from the ISO date text. `None` where the spread overflows.
    pub fn try_from_quote(
        market_id: String,
        question: String,
        prices: Option<(Decimal, Decimal)>,
        volume_24h: Decimal,
        liquidity: Decimal,
        end_date_iso: Option<&str>,
        time_remaining: String,
        now: Timestamp,
    ) -> (r: Option<MarketMetrics>)
        requires
            prices matches Some(p) ==> p.0.wf() && p.1.wf(),
        ensures
            ({
                let (yes, no) = match prices {
                    Some(p) => p,
                    None => (one_half(), one_half()),
                };
                match spread(yes, no) {
                    None => r is None,
                    Some(s) => r matches Some(m) && {
                        &&& m.market_id == market_id
                        &&& m.question == question
                        &&& m.yes_price == yes
                        &&& m.no_price == no
                        &&& m.spread == s
                        &&& m.volume_24h == volume_24h
                        &&& m.liquidity == liquidity
                        &&& m.ends_at == match end_date_iso {
                            Some(t) => rfc3339_instant(t@),
                            None => None,
                        }
                        &&& m.time_remaining == time_remaining
                        &&& m.last_update == now
                    },
                }
            }),
    {
        let (yes, no) = match prices {
            Some(p) => p,
            None => (Decimal { mantissa: 5, scale: 1 }, Decimal { mantissa: 5, scale: 1 }),
        };
        let spread = match try_market_spread(yes, no) {
            Some(s) => s,
            None => {
                return None;
            },
        };
        let ends_at = market_end(end_date_iso);
        Some(MarketMetrics {
            market_id,
            question,
            yes_price: yes,
            no_price: no,
            spread,
            volume_24h,
            liquidity,
            ends_at,
            time_remaining,
            last_update: now,
        })
    }

    /// The figures of a quoted market, where the spread does not overflow.
    pub fn from_quote(
        market_id: String,
        question: String,
        prices: Option<(Decimal, Decimal)>,
        volume_24h: Decimal,
        liquidity: Decimal,
        end_date_iso: Option<&str>,
        time_remaining: String,
        now: Timestamp,
    ) -> (r: MarketMetrics)
        requires
            prices matches Some(p) ==> p.0.wf() && p.1.wf(),
            ({
                let (yes, no) = match prices {
                    Some(p) => p,
                    None => (one_half(), one_half()),
                };
                spread(yes, no) is Some
            }),
        ensures
            ({
                let (yes, no) = match prices {
                    Some(p) => p,
                    None => (one_half(), one_half()),
                };
                &&& r.market_id == market_id
                &&& r.question == question
                &&& r.yes_price == yes
                &&& r.no_price == no
                &&& r.spread == spread(yes, no)->0
                &&& r.volume_24h == volume_24h
                &&& r.liquidity == liquidity
                &&& r.ends_at == match end_date_iso {
                    Some(t) => rfc3339_instant(t@),
                    None => None,
                }
                &&& r.time_remaining == time_remaining
                &&& r.last_update == now
            }),
    {
        MarketMetrics::try_from_quote(
            market_id,
            question,
            prices,
            volume_24h,
            liquidity,
            end_date_iso,
            time_remaining,
            now,
        ).unwrap()
    }
}

/// A question is a quarter-hour market exactly when its lower-cased text
/// contains "15" and contains "up" or "down": either word will do.
pub proof fn law_quarter_hour_questions(q: Seq<char>)
    ensures
        is_quarter_hour_question(q) <==> text_contains(lowercase_text(q), "15"@) && (text_contains(
            lowercase_text(q),
            "up"@,
        ) || text_contains(lowercase_text(q), "down"@)),
        text_contains(lowercase_text(q), "15"@) && text_contains(lowercase_text(q), "down"@) ==> is_quarter_hour_question(q),
        text_contains(lowercase_text(q), "15"@) && text_contains(lowercase_text(q), "up"@) ==> is_quarter_hour_question(q),
{
}

/// The spread is the distance of the two prices' sum from one: never below
/// zero, and equal to `yes + no - 1` or to its negation (for any difference
/// in the range of the representation).
pub proof fn law_spread_is_the_distance_from_one(yes: Decimal, no: Decimal)
    ensures
        spread(yes, no) is Some <==> match decimal_checked_add(yes, no) {
            Some(s) => decimal_checked_sub(s, Decimal { mantissa: 1, scale: 0 }) is Some,
            None => false,
        },
        spread(yes, no) matches Some(d) ==> {
            let diff = decimal_checked_sub(decimal_checked_add(yes, no)->0, Decimal { mantissa: 1, scale: 0 })->0;
            -MAX_MANTISSA <= diff.mantissa ==> {
            &&& d.mantissa >= 0
            &&& d.scale == diff.scale
            &&& (d.mantissa == diff.mantissa || d.mantissa == -diff.mantissa)
            }
        },
{
}

} // verus!
