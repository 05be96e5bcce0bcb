//! The recurrence-time calculator.
//!
//! Given a schedule, a reference instant and the last-run instant, computes
//! the next fire instant on the local civil timeline, or reports that no
//! future fire exists, or that the schedule's configuration is invalid.
//!
//! A fire that was missed by at most the one-minute grace period is made up
//! immediately — the reference instant itself is returned — unless the
//! schedule already ran within that minute.

use vstd::prelude::*;
use crate::errors::SchedulerError;
use crate::models::{RepeatRule, RepeatType, Schedule};
use crate::time::{
    clock_seconds, day_of, day_of_instant, parse_time, parse_time_spec, valid_instant,
    weekday_index_of_day, weekday_of_day, SECONDS_PER_DAY,
};

verus! {

/// A fire missed by at most this many seconds is still made up.
pub const GRACE_SECONDS: i64 = 60;

/// Whether the last-run instant, if any, lies on the covered timeline.
pub open spec fn valid_last_run(last_run: Option<i64>) -> bool {
    match last_run {
        None => true,
        Some(l) => valid_instant(l as int),
    }
}

/// Whether a recurrence rule fires on a weekday index (Monday = 0).
/// The custom-interval rule does not select days and fires on all of them.
pub open spec fn rule_fires_on(rule: RepeatRule, wd: int) -> bool {
    match rule {
        RepeatRule::Weekdays => wd < 5,
        RepeatRule::Weekends => wd >= 5,
        RepeatRule::Weekly { days } => exists|k: int|
            0 <= k < days.len() && #[trigger] days[k].index_from_monday() == wd,
        _ => true,
    }
}

/// Whether some day of the week fires at all.
pub open spec fn rule_has_fire_day(rule: RepeatRule) -> bool {
    match rule {
        RepeatRule::Weekly { days } => days.len() > 0,
        _ => true,
    }
}

/// The grace predicate: a missed fire is made up unless the schedule
/// already ran within the grace period before the reference instant.
pub open spec fn grace_ok(reference: int, last_run: Option<i64>) -> bool {
    match last_run {
        None => true,
        Some(l) => reference - l >= GRACE_SECONDS,
    }
}

/// The first day at or after `d` on which the rule fires, giving up after
/// `fuel` further days.
pub open spec fn first_fire_day(rule: RepeatRule, d: int, fuel: nat) -> int
    decreases fuel,
{
    if rule_fires_on(rule, weekday_index_of_day(d)) || fuel == 0 {
        d
    } else {
        first_fire_day(rule, d + 1, (fuel - 1) as nat)
    }
}

/// What the day-walk returns: today's slot if it is still ahead, the
/// reference instant if the slot was missed within the grace period, and
/// otherwise the slot on the next firing day.
pub open spec fn day_walk_spec(rule: RepeatRule, time: int, reference: int, last_run: Option<
    i64,
>) -> int {
    let d0 = day_of(reference);
    let c0 = d0 * (SECONDS_PER_DAY as int) + time;
    if rule_fires_on(rule, weekday_index_of_day(d0)) && c0 >= reference {
        c0
    } else if rule_fires_on(rule, weekday_index_of_day(d0)) && reference - c0 <= GRACE_SECONDS
        && grace_ok(reference, last_run) {
        reference
    } else {
        first_fire_day(rule, d0 + 1, 6) * (SECONDS_PER_DAY as int) + time
    }
}

/// What the custom-interval rule returns: today's anchor if still ahead,
/// the reference instant under the grace rule, and otherwise the anchor
/// advanced by the smallest positive number of whole intervals that lands
/// strictly after the reference.
pub open spec fn custom_next_spec(interval_minutes: int, time: int, reference: int, last_run:
    Option<i64>) -> int {
    let d0 = day_of(reference);
    let c = d0 * (SECONDS_PER_DAY as int) + time;
    let interval = interval_minutes * 60;
    if c > reference {
        c
    } else if reference - c <= GRACE_SECONDS && grace_ok(reference, last_run) {
        reference
    } else {
        let elapsed = reference - c;
        c + interval * (elapsed / interval + 1)
    }
}

/// The scheduled time of day in seconds, when the `HH:MM` field parses.
pub open spec fn scheduled_time_secs(s: Seq<char>) -> Option<int> {
    match parse_time_spec(s) {
        Some(hm) => Some(hm.0 * 3600 + hm.1 * 60),
        None => None,
    }
}

/// The whole calculator: nothing for a disabled schedule or an empty
/// weekly day set, an error for an unparseable time or a zero custom
/// interval, and otherwise the computed next fire instant.
pub open spec fn next_execution_spec(
    s: crate::models::ScheduleView,
    reference: int,
    last_run: Option<i64>,
) -> Result<Option<int>, ()> {
    if !s.enabled {
        Ok(None)
    } else {
        match scheduled_time_secs(s.scheduled_time@) {
            None => Err(()),
            Some(time) => match s.repeat_type {
                RepeatRule::Weekly { days } => if days.len() == 0 {
                    Ok(None)
                } else {
                    Ok(Some(day_walk_spec(s.repeat_type, time, reference, last_run)))
                },
                RepeatRule::Custom { interval_minutes } => if interval_minutes == 0 {
                    Err(())
                } else {
                    Ok(
                        Some(
                            custom_next_spec(interval_minutes as int, time, reference, last_run),
                        ),
                    )
                },
                _ => Ok(Some(day_walk_spec(s.repeat_type, time, reference, last_run))),
            },
        }
    }
}

/// The walk never returns an earlier day than it started from.
proof fn lemma_first_fire_day_ge(rule: RepeatRule, d: int, fuel: nat)
    ensures
        first_fire_day(rule, d, fuel) >= d,
    decreases fuel,
{
    if !(rule_fires_on(rule, weekday_index_of_day(d)) || fuel == 0) {
        lemma_first_fire_day_ge(rule, d + 1, (fuel - 1) as nat);
    }
}

/// The computed fire instant never lies before the reference instant: a
/// slot still ahead is returned as it is, a slot missed within the grace
/// period comes back as the reference instant itself, and otherwise the
/// rule advances to a later slot.
pub proof fn lemma_next_fire_not_before_reference(
    s: crate::models::ScheduleView,
    reference: int,
    last_run: Option<i64>,
    t: int,
)
    requires
        valid_instant(reference),
        next_execution_spec(s, reference, last_run) == Ok::<Option<int>, ()>(Some(t)),
    ensures
        t >= reference,
{
    let d0 = day_of(reference);
    vstd::arithmetic::div_mod::lemma_fundamental_div_mod(reference, SECONDS_PER_DAY as int);
    vstd::arithmetic::div_mod::lemma_mod_bound(reference, SECONDS_PER_DAY as int);
    assert(d0 * (SECONDS_PER_DAY as int) <= reference < (d0 + 1) * (SECONDS_PER_DAY as int));
    let time = match scheduled_time_secs(s.scheduled_time@) {
        Some(time) => time,
        None => 0,
    };
    assert(0 <= time < SECONDS_PER_DAY);
    match s.repeat_type {
        RepeatRule::Custom { interval_minutes } => {
            let iv = interval_minutes as int * 60;
            let c = d0 * (SECONDS_PER_DAY as int) + time;
            if !(c > reference) && !(reference - c <= GRACE_SECONDS && grace_ok(
                reference,
                last_run,
            )) {
                let e = reference - c;
                let passed = e / iv;
                vstd::arithmetic::div_mod::lemma_fundamental_div_mod(e, iv);
                vstd::arithmetic::div_mod::lemma_mod_bound(e, iv);
                assert(iv * passed == e - (e % iv));
                assert(iv * passed > e - iv);
                assert(iv * (passed + 1) == iv * passed + iv) by (nonlinear_arith);
                assert(t == c + iv * (passed + 1));
                assert(t > c + e);
            }
        },
        _ => {
            let rule = s.repeat_type;
            let d = first_fire_day(rule, d0 + 1, 6);
            lemma_first_fire_day_ge(rule, d0 + 1, 6);
            assert(d >= d0 + 1);
            assert(d * (SECONDS_PER_DAY as int) >= (d0 + 1) * (SECONDS_PER_DAY as int));
            if !(rule_fires_on(rule, weekday_index_of_day(d0)) && d0 * (SECONDS_PER_DAY as int)
                + time >= reference) && !(rule_fires_on(rule, weekday_index_of_day(d0))
                && reference - (d0 * (SECONDS_PER_DAY as int) + time) <= GRACE_SECONDS
                && grace_ok(reference, last_run)) {
                assert(t == d * (SECONDS_PER_DAY as int) + time);
            }
        },
    }
}

/// Success is owed: an enabled schedule whose clock time is readable,
/// whose rule fires on some weekday, and whose custom interval, if any,
/// is positive always receives a fire instant, and that instant is never
/// before the reference.  A due once schedule therefore always reaches
/// its fire, after which the task contracts retire it through the
/// disabling update.
pub proof fn lemma_enabled_schedule_gets_a_fire_instant(
    s: crate::models::ScheduleView,
    reference: int,
    last_run: Option<i64>,
)
    requires
        valid_instant(reference),
        s.enabled,
        scheduled_time_secs(s.scheduled_time@) is Some,
        rule_has_fire_day(s.repeat_type),
        (match s.repeat_type {
            RepeatRule::Custom { interval_minutes } => interval_minutes > 0,
            _ => true,
        }),
    ensures
        next_execution_spec(s, reference, last_run) matches Ok(o) && o matches Some(t) && t
            >= reference,
{
    let r = next_execution_spec(s, reference, last_run);
    match s.repeat_type {
        RepeatRule::Weekly { days } => {
            assert(days.len() > 0);
        },
        _ => {},
    }
    assert(r matches Ok(o) && o is Some);
    let t = match r {
        Ok(Some(t)) => t,
        _ => 0,
    };
    lemma_next_fire_not_before_reference(s, reference, last_run, t);
}

/// A weekly rule with no listed days never fires: whatever the reference
/// and last-run instants, an enabled schedule with a readable time and an
/// empty day list computes no next fire, and a disabled one computes none
/// whatever its rule.
pub proof fn lemma_empty_weekly_never_fires(
    s: crate::models::ScheduleView,
    reference: int,
    last_run: Option<i64>,
)
    requires
        s.repeat_type matches RepeatRule::Weekly { days } && days.len() == 0,
        !s.enabled || scheduled_time_secs(s.scheduled_time@) is Some,
    ensures
        next_execution_spec(s, reference, last_run) == Ok::<Option<int>, ()>(None),
{
}

/// A custom interval of zero is invalid: an enabled schedule with a
/// readable time and a zero interval computes an error.
pub proof fn lemma_zero_custom_interval_is_invalid(
    s: crate::models::ScheduleView,
    reference: int,
    last_run: Option<i64>,
)
    requires
        s.enabled,
        scheduled_time_secs(s.scheduled_time@) is Some,
        s.repeat_type == (RepeatRule::Custom { interval_minutes: 0u32 }),
    ensures
        next_execution_spec(s, reference, last_run) is Err,
{
}

/// Every weekday index is reached within a week from any day.
proof fn lemma_reach_weekday(d: int, w: int)
    requires
        0 <= d,
        0 <= w < 7,
    ensures
        exists|k: int| 0 <= k < 7 && #[trigger] weekday_index_of_day(d + k) == w,
{
    let x = weekday_index_of_day(d);
    vstd::arithmetic::div_mod::lemma_mod_bound(d + 3, 7);
    vstd::arithmetic::div_mod::lemma_fundamental_div_mod(d + 3, 7);
    let q = (d + 3) / 7;
    assert(d + 3 == 7 * q + x);
    let k = if w >= x {
        w - x
    } else {
        w - x + 7
    };
    assert(0 <= k < 7);
    if w >= x {
        vstd::arithmetic::div_mod::lemma_fundamental_div_mod_converse(d + k + 3, 7, q, w);
    } else {
        vstd::arithmetic::div_mod::lemma_fundamental_div_mod_converse(d + k + 3, 7, q + 1, w);
    }
    assert(weekday_index_of_day(d + k) == w);
}

/// A rule with a firing day fires within the week after any day.
proof fn lemma_fire_day_exists(rule: RepeatRule, d: int)
    requires
        0 <= d,
        rule_has_fire_day(rule),
    ensures
        exists|k: int| 0 <= k < 7 && rule_fires_on(rule, #[trigger] weekday_index_of_day(d + k)),
{
    match rule {
        RepeatRule::Weekdays => {
            lemma_reach_weekday(d, 0);
            let k = choose|k: int| 0 <= k < 7 && #[trigger] weekday_index_of_day(d + k) == 0;
            assert(rule_fires_on(rule, weekday_index_of_day(d + k)));
        },
        RepeatRule::Weekends => {
            lemma_reach_weekday(d, 5);
            let k = choose|k: int| 0 <= k < 7 && #[trigger] weekday_index_of_day(d + k) == 5;
            assert(rule_fires_on(rule, weekday_index_of_day(d + k)));
        },
        RepeatRule::Weekly { days } => {
            let w = days[0].index_from_monday();
            lemma_reach_weekday(d, w);
            let k = choose|k: int| 0 <= k < 7 && #[trigger] weekday_index_of_day(d + k) == w;
            assert(rule_fires_on(rule, weekday_index_of_day(d + k)));
        },
        _ => {
            assert(rule_fires_on(rule, weekday_index_of_day(d + 0)));
        },
    }
}

/// Tests whether a recurrence rule fires on a weekday index.
fn weekday_matches(rt: &RepeatType, wd: u8) -> (r: bool)
    requires
        wd < 7,
    ensures
        r == rule_fires_on(rt@, wd as int),
{
    match rt {
        RepeatType::Weekdays => wd < 5,
        RepeatType::Weekends => wd >= 5,
        RepeatType::Weekly { days } => {
            let mut k: usize = 0;
            while k < days.len()
                invariant
                    rt@ == (RepeatRule::Weekly { days: days@ }),
                    0 <= k <= days@.len(),
                    forall|j: int|
                        0 <= j < k ==> (#[trigger] days@[j].index_from_monday()) != wd as int,
                decreases days@.len() - k,
            {
                if days[k].num_days_from_monday() == wd {
                    proof {
                        match rt@ {
                            RepeatRule::Weekly { days: dd } => {
                                assert(dd == days@);
                                assert(0 <= k < dd.len() && dd[k as int].index_from_monday()
                                    == wd as int);
                                assert(exists|j: int|
                                    0 <= j < dd.len() && #[trigger] dd[j].index_from_monday()
                                        == wd as int);
                            },
                            _ => {},
                        }
                        assert(rule_fires_on(rt@, wd as int));
                    }
                    return true;
                }
                k += 1;
            }
            false
        },
        _ => true,
    }
}

/// Tests the grace predicate.
fn grace_check(reference: i64, last_run: &Option<i64>) -> (r: bool)
    requires
        valid_instant(reference as int),
        valid_last_run(*last_run),
    ensures
        r == grace_ok(reference as int, *last_run),
{
    match last_run {
        None => true,
        Some(l) => reference - *l >= GRACE_SECONDS,
    }
}

/// The day-walk: finds the next fire instant of a day-selecting rule.
fn find_next_matching_day(rt: &RepeatType, reference: i64, time_secs: i64, last_run: Option<
    i64,
>) -> (t: i64)
    requires
        valid_instant(reference as int),
        valid_last_run(last_run),
        0 <= time_secs < SECONDS_PER_DAY,
        rule_has_fire_day(rt@),
    ensures
        t == day_walk_spec(rt@, time_secs as int, reference as int, last_run),
        reference <= t <= reference + 8 * SECONDS_PER_DAY,
{
    let d0 = day_of_instant(reference);
    let c0 = d0 * SECONDS_PER_DAY + time_secs;
    let w0 = weekday_of_day(d0);
    if weekday_matches(rt, w0) {
        if c0 >= reference {
            return c0;
        }
        if reference - c0 <= GRACE_SECONDS && grace_check(reference, &last_run) {
            return reference;
        }
    }
    let mut k: u8 = 0;
    while k < 7
        invariant
            0 <= k <= 7,
            valid_instant(reference as int),
            0 <= time_secs < SECONDS_PER_DAY,
            d0 == day_of(reference as int),
            d0 * SECONDS_PER_DAY <= reference < (d0 + 1) * SECONDS_PER_DAY,
            rule_has_fire_day(rt@),
            valid_last_run(last_run),
            day_walk_spec(rt@, time_secs as int, reference as int, last_run) == first_fire_day(
                rt@,
                d0 + 1,
                6,
            ) * (SECONDS_PER_DAY as int) + time_secs,
            forall|j: int|
                0 <= j < k ==> !rule_fires_on(rt@, #[trigger] weekday_index_of_day(d0 + 1 + j)),
            k < 7 ==> first_fire_day(rt@, d0 + 1, 6) == first_fire_day(
                rt@,
                d0 + 1 + k,
                (6 - k) as nat,
            ),
        decreases 7 - k,
    {
        let d = d0 + 1 + (k as i64);
        let w = weekday_of_day(d);
        if weekday_matches(rt, w) {
            let t = d * SECONDS_PER_DAY + time_secs;
            proof {
                assert(first_fire_day(rt@, d0 + 1 + k, (6 - k) as nat) == d);
                assert((d0 + 1) * (SECONDS_PER_DAY as int) > reference);
            }
            return t;
        }
        proof {
            if k < 6 {
                assert(first_fire_day(rt@, d0 + 1 + k, (6 - k) as nat) == first_fire_day(
                    rt@,
                    d0 + 1 + k + 1,
                    (6 - k - 1) as nat,
                ));
            } else {
                lemma_fire_day_exists(rt@, d0 + 1);
                let kk = choose|kk: int|
                    0 <= kk < 7 && rule_fires_on(rt@, #[trigger] weekday_index_of_day(d0 + 1 + kk));
                assert(!rule_fires_on(rt@, weekday_index_of_day(d0 + 1 + kk)));
            }
        }
        k += 1;
    }
    proof {
        lemma_fire_day_exists(rt@, d0 + 1);
        let kk = choose|kk: int|
            0 <= kk < 7 && rule_fires_on(rt@, #[trigger] weekday_index_of_day(d0 + 1 + kk));
        assert(!rule_fires_on(rt@, weekday_index_of_day(d0 + 1 + kk)));
    }
    vstd::pervasive::unreached()
}

/// The custom-interval rule: finds the next fire instant anchored at the
/// scheduled time, advanced by the smallest positive number of whole
/// intervals that lands strictly after the reference.
fn find_next_custom_interval(reference: i64, time_secs: i64, interval_minutes: u32, last_run:
    Option<i64>) -> (t: i64)
    requires
        valid_instant(reference as int),
        valid_last_run(last_run),
        0 <= time_secs < SECONDS_PER_DAY,
        interval_minutes >= 1,
    ensures
        t == custom_next_spec(
            interval_minutes as int,
            time_secs as int,
            reference as int,
            last_run,
        ),
        reference <= t,
{
    let d0 = day_of_instant(reference);
    let c = d0 * SECONDS_PER_DAY + time_secs;
    if c > reference {
        return c;
    }
    if reference - c <= GRACE_SECONDS && grace_check(reference, &last_run) {
        return reference;
    }
    let interval = (interval_minutes as i64) * 60;
    let elapsed = reference - c;
    assert(0 <= elapsed < SECONDS_PER_DAY);
    let passed = elapsed / interval;
    proof {
        let e = elapsed as int;
        let iv = interval as int;
        let q = e / iv;
        vstd::arithmetic::div_mod::lemma_fundamental_div_mod(e, iv);
        vstd::arithmetic::div_mod::lemma_mod_bound(e, iv);
        assert(iv * q == e - (e % iv));
        assert(iv * q <= e);
        assert(iv * q > e - iv);
        assert(passed == q);
    }
    assert(0 <= passed);
    assert(interval * (passed + 1) == interval * passed + interval) by (nonlinear_arith);
    assert(interval * passed <= elapsed);
    assert(interval * passed > elapsed - interval);
    let t = c + interval * (passed + 1);
    assert(t > reference);
    t
}

/// Computes the next fire instant of a schedule at a reference instant,
/// the last recorded run given alongside.  Returns nothing when the
/// schedule can never fire (disabled, or a weekly rule with no days); an
/// error, carrying the schedule's identifier, exactly when the schedule is
/// enabled and its configuration is invalid (an unparseable `HH:MM` time,
/// or a custom interval of zero); and otherwise the fire instant, which is
/// never before the reference instant — a slot missed by at most the grace
/// period comes back as the reference instant itself.
pub fn next_execution_time(schedule: &Schedule, reference: i64, last_run: Option<i64>) -> (r:
    Result<Option<i64>, SchedulerError>)
    requires
        valid_instant(reference as int),
        valid_last_run(last_run),
    ensures
        match r {
            Ok(o) => {
                &&& (match o {
                    Some(t) => next_execution_spec(schedule@, reference as int, last_run)
                        == Ok::<Option<int>, ()>(Some(t as int)) && reference <= t,
                    None => next_execution_spec(schedule@, reference as int, last_run)
                        == Ok::<Option<int>, ()>(None),
                })
            },
            Err(e) => {
                &&& next_execution_spec(schedule@, reference as int, last_run) is Err
                &&& (match e {
                    SchedulerError::InvalidScheduleTime { schedule_id, reason } => schedule_id
                        == schedule.id,
                    _ => false,
                })
            },
        },
{
    if !schedule.enabled {
        return Ok(None);
    }
    let parsed = parse_time(schedule.scheduled_time.as_str());
    let (hour, minute) = match parsed {
        Some(hm) => hm,
        None => {
            let mut reason = String::new();
            reason.append("invalid time, expected HH:MM");
            return Err(
                SchedulerError::InvalidScheduleTime {
                    schedule_id: schedule.id.clone(),
                    reason,
                },
            );
        },
    };
    let time_secs = clock_seconds(hour, minute);
    match &schedule.repeat_type {
        RepeatType::Weekly { days } => {
            if days.len() == 0 {
                return Ok(None);
            }
            Ok(Some(find_next_matching_day(&schedule.repeat_type, reference, time_secs, last_run)))
        },
        RepeatType::Custom { interval_minutes } => {
            if *interval_minutes == 0 {
                let mut reason = String::new();
                reason.append("custom interval must be greater than 0");
                return Err(
                    SchedulerError::InvalidScheduleTime {
                        schedule_id: schedule.id.clone(),
                        reason,
                    },
                );
            }
            Ok(
                Some(
                    find_next_custom_interval(reference, time_secs, *interval_minutes, last_run),
                ),
            )
        },
        _ => {
            Ok(Some(find_next_matching_day(&schedule.repeat_type, reference, time_secs, last_run)))
        },
    }
}

} // verus!
