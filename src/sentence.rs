use vstd::prelude::*;

use crate::text::{decimal, push_decimal, wide_mul};

verus! {

/// Hourly samples looked at by the hourly forecast sentence: seven days.
pub const HOURLY_WINDOW: usize = 168;

/// The number of consecutive `true` flags from index `from` on.
pub open spec fn run_len(s: Seq<bool>, from: int) -> nat
    decreases s.len() - from,
{
    if from < 0 || from >= s.len() || !s[from] {
        0
    } else {
        1 + run_len(s, from + 1)
    }
}

/// The first index at or after `from` whose flag is `true`, or -1.
pub open spec fn first_true(s: Seq<bool>, from: int) -> int
    decreases s.len() - from,
{
    if from < 0 || from >= s.len() {
        -1
    } else if s[from] {
        from
    } else {
        first_true(s, from + 1)
    }
}

/// Some code of `codes` lies in the hundred `group` (5 for rain, 6 for snow).
pub open spec fn any_in_group(codes: Seq<u16>, group: u16) -> bool {
    exists|i: int| 0 <= i < codes.len() && #[trigger] codes[i] / 100 == group
}

/// "It will continue <verb> for N hours."
pub open spec fn continue_text(verb: Seq<char>, hours: nat) -> Seq<char> {
    "It will continue "@ + verb + " for "@ + decimal(hours) + " hours."@
}

/// "It will <verb> in S hours for D hours"
pub open spec fn upcoming_text(verb: Seq<char>, start: nat, length: nat) -> Seq<char> {
    "It will "@ + verb + " in "@ + decimal(start) + " hours for "@ + decimal(length) + " hours"@
}

/// "Conditions are predicted to be clear for the next N days."
pub open spec fn clear_text(days: nat) -> Seq<char> {
    "Conditions are predicted to be clear for the next "@ + decimal(days) + " days."@
}

/// The forecast sentence over rain and snow flags that start at the current
/// period, each flag covering `step` hours.
pub open spec fn sentence_of(
    rain: Seq<bool>,
    snow: Seq<bool>,
    raining: bool,
    snowing: bool,
    step: nat,
    days: nat,
) -> Seq<char> {
    if raining {
        continue_text("raining"@, run_len(rain, 0) * step)
    } else if snowing {
        continue_text("snowing"@, run_len(snow, 0) * step)
    } else if first_true(rain, 0) >= 0 {
        let s = first_true(rain, 0);
        upcoming_text("rain"@, (s * step) as nat, run_len(rain, s) * step)
    } else if first_true(snow, 0) >= 0 {
        let s = first_true(snow, 0);
        upcoming_text("snow"@, (s * step) as nat, run_len(snow, s) * step)
    } else {
        clear_text(days)
    }
}

fn run_length(s: &Vec<bool>, from: usize) -> (r: usize)
    requires
        from <= s@.len(),
    ensures
        r == run_len(s@, from as int),
{
    let mut i: usize = from;
    while i < s.len() && s[i]
        invariant
            from <= i <= s@.len(),
            run_len(s@, from as int) == (i - from) + run_len(s@, i as int),
        decreases s.len() - i,
    {
        i = i + 1;
    }
    i - from
}

fn first_true_index(s: &Vec<bool>) -> (r: Option<usize>)
    ensures
        r is None <==> first_true(s@, 0) == -1,
        r matches Some(i) ==> i == first_true(s@, 0) && i < s@.len(),
{
    let mut i: usize = 0;
    while i < s.len()
        invariant
            0 <= i <= s@.len(),
            first_true(s@, 0) == first_true(s@, i as int),
        decreases s.len() - i,
    {
        if s[i] {
            return Some(i);
        }
        i = i + 1;
    }
    None
}

fn group_present(codes: &Vec<u16>, group: u16) -> (r: bool)
    ensures
        r == any_in_group(codes@, group),
{
    let mut i: usize = 0;
    while i < codes.len()
        invariant
            0 <= i <= codes@.len(),
            forall|j: int| 0 <= j < i ==> #[trigger] codes@[j] / 100 != group,
        decreases codes.len() - i,
    {
        if codes[i] / 100 == group {
            return true;
        }
        i = i + 1;
    }
    false
}

fn push_continue(s: &mut String, verb: &str, hours: u128)
    ensures
        final(s)@ == old(s)@ + continue_text(verb@, hours as nat),
{
    s.append("It will continue ");
    s.append(verb);
    s.append(" for ");
    push_decimal(s, hours);
    s.append(" hours.");
    proof {
        assert(final(s)@ =~= old(s)@ + continue_text(verb@, hours as nat));
    }
}

fn push_upcoming(s: &mut String, verb: &str, start: u128, length: u128)
    ensures
        final(s)@ == old(s)@ + upcoming_text(verb@, start as nat, length as nat),
{
    s.append("It will ");
    s.append(verb);
    s.append(" in ");
    push_decimal(s, start);
    s.append(" hours for ");
    push_decimal(s, length);
    s.append(" hours");
    proof {
        assert(final(s)@ =~= old(s)@ + upcoming_text(verb@, start as nat, length as nat));
    }
}

/// Builds the forecast sentence from rain and snow flags that start at the
/// current period. Each flag covers `step` hours; `days` is the span named
/// when no rain or snow comes.
pub fn forecast_sentence(
    rain: &Vec<bool>,
    snow: &Vec<bool>,
    raining: bool,
    snowing: bool,
    step: u64,
    days: u64,
) -> (r: String)
    ensures
        r@ == sentence_of(rain@, snow@, raining, snowing, step as nat, days as nat),
{
    let mut s = String::new();
    if raining {
        let n: usize = run_length(rain, 0);
        push_continue(&mut s, "raining", wide_mul(n as u64, step));
    } else if snowing {
        let n: usize = run_length(snow, 0);
        push_continue(&mut s, "snowing", wide_mul(n as u64, step));
    } else {
        match first_true_index(rain) {
            Some(start) => {
                let n: usize = run_length(rain, start);
                push_upcoming(&mut s, "rain", wide_mul(start as u64, step), wide_mul(n as u64, step));
            },
            None => match first_true_index(snow) {
                Some(start) => {
                    let n: usize = run_length(snow, start);
                    push_upcoming(&mut s, "snow", wide_mul(start as u64, step), wide_mul(n as u64, step));
                },
                None => {
                    s.append("Conditions are predicted to be clear for the next ");
                    push_decimal(&mut s, days as u128);
                    s.append(" days.");
                },
            },
        }
    }
    proof {
        reveal_strlit("raining");
        reveal_strlit("snowing");
        reveal_strlit("rain");
        reveal_strlit("snow");
    }
    s
}

/// The flags from index `start` on, at most `HOURLY_WINDOW` of them.
pub open spec fn window(s: Seq<bool>, start: int) -> Seq<bool> {
    let end = if start + HOURLY_WINDOW < s.len() {
        start + HOURLY_WINDOW
    } else {
        s.len() as int
    };
    if start < s.len() {
        s.subrange(start, end)
    } else {
        Seq::empty()
    }
}

fn window_of(s: &Vec<bool>, start: usize) -> (r: Vec<bool>)
    ensures
        r@ == window(s@, start as int),
{
    let mut out: Vec<bool> = Vec::new();
    if start >= s.len() {
        return out;
    }
    let end: usize = if s.len() - start > HOURLY_WINDOW {
        start + HOURLY_WINDOW
    } else {
        s.len()
    };
    let mut i: usize = start;
    while i < end
        invariant
            start <= i <= end <= s@.len(),
            start < s@.len(),
            end == (if start + HOURLY_WINDOW < s@.len() { start + HOURLY_WINDOW } else { s@.len() as int }),
            out@ == s@.subrange(start as int, i as int),
        decreases end - i,
    {
        out.push(s[i]);
        i = i + 1;
    }
    out
}

/// The hourly forecast sentence: looks at up to seven days of hourly rain and
/// snow flags from the current index `start`, where `current` holds the codes
/// of the current period.
pub fn hourly_forecast_sentence(rain: &Vec<bool>, snow: &Vec<bool>, start: usize, current: &Vec<u16>) -> (r:
    String)
    ensures
        r@ == sentence_of(
            window(rain@, start as int),
            window(snow@, start as int),
            any_in_group(current@, 5),
            any_in_group(current@, 6),
            1,
            7,
        ),
{
    let r = window_of(rain, start);
    let s = window_of(snow, start);
    let raining = group_present(current, 5);
    let snowing = group_present(current, 6);
    forecast_sentence(&r, &s, raining, snowing, 1, 7)
}

/// The three-hourly forecast sentence over the first condition code of each
/// period, the current period first: counts are in hours (three per period)
/// and the span named when no rain or snow comes is three days.
pub fn three_hourly_forecast_sentence(first_codes: &Vec<u16>) -> (r: String)
    requires
        first_codes@.len() >= 1,
    ensures
        r@ == sentence_of(
            first_codes@.map_values(|c: u16| c / 100 == 5),
            first_codes@.map_values(|c: u16| c / 100 == 6),
            first_codes@[0] / 100 == 5,
            first_codes@[0] / 100 == 6,
            3,
            3,
        ),
{
    let mut rain: Vec<bool> = Vec::new();
    let mut snow: Vec<bool> = Vec::new();
    let mut i: usize = 0;
    while i < first_codes.len()
        invariant
            0 <= i <= first_codes@.len(),
            rain@ == first_codes@.subrange(0, i as int).map_values(|c: u16| c / 100 == 5),
            snow@ == first_codes@.subrange(0, i as int).map_values(|c: u16| c / 100 == 6),
        decreases first_codes.len() - i,
    {
        rain.push(first_codes[i] / 100 == 5);
        snow.push(first_codes[i] / 100 == 6);
        proof {
            assert(first_codes@.subrange(0, i + 1).map_values(|c: u16| c / 100 == 5) =~= first_codes@.subrange(
                0,
                i as int,
            ).map_values(|c: u16| c / 100 == 5).push(first_codes@[i as int] / 100 == 5));
            assert(first_codes@.subrange(0, i + 1).map_values(|c: u16| c / 100 == 6) =~= first_codes@.subrange(
                0,
                i as int,
            ).map_values(|c: u16| c / 100 == 6).push(first_codes@[i as int] / 100 == 6));
        }
        i = i + 1;
    }
    assert(first_codes@.subrange(0, first_codes@.len() as int) =~= first_codes@);
    forecast_sentence(&rain, &snow, first_codes[0] / 100 == 5, first_codes[0] / 100 == 6, 3, 3)
}

} // verus!
