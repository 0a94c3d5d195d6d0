//! Scheduled jobs: schedules and their next run, the jobs a tick fires, and
//! the job list that the ticker reloads from its JSON file.
//!
//! Sleeping, reading and writing the job file, running shell commands and
//! sending tasks stay with the caller, which calls [`tick`] with the time.
use vstd::prelude::*;
use crate::datetime::now_secs;
use crate::json::{obj_get, JsonValue};
use crate::module::ModuleError;
use crate::scheduler::SessionTask;
use crate::text::{
    append_str, concat2, dec, debug_quote, debug_str, from_chars, join_pieces, join_spec,
    parse_uint, parse_uint_spec, pieces_view, push_range, spec_starts_with, split_words,
    str_eq, strip_all, strip_all_exec, starts_with_chars, to_chars, trim_spec, trim_str,
    u64_to_string, words, find_char, index_of, chars_eq,
};

verus! {

// ─── Schedules ───────────────────────────────────

/// When a job runs.
#[derive(Debug)]
pub enum Schedule {
    /// Every N seconds.
    EverySecs(u64),
    /// Every day at this UTC time.
    Daily { hour: u8, minute: u8 },
    /// Once, after a delay in seconds.
    Once { delay_secs: u64 },
    /// A five-field cron expression (`minute hour day month weekday`).
    CronExpr(String),
}

/// What a configured job does.
#[derive(Debug)]
pub enum CronAction {
    /// Runs a shell command.
    Shell { command: String },
    /// Hands a prompt to the model.
    LlmPrompt { prompt: String },
}

/// A job as the job list shows it.
#[derive(Debug, Clone)]
pub struct CronEntryInfo {
    pub name: String,
    pub schedule: String,
    pub prompt: String,
    pub channel: String,
    pub next_run: u64,
    pub run_count: u64,
    pub enabled: bool,
}

/// A job in the configuration file.
#[derive(Debug)]
pub struct CronJobConfig {
    /// Job name; the configuration key when absent.
    pub name: Option<String>,
    pub schedule: Schedule,
    pub action: CronAction,
    /// Whether the job starts enabled (by default it does).
    pub enabled: bool,
}

/// The next run of a schedule after `now`, in Unix seconds.
pub open spec fn next_run_spec(s: Schedule, now: u64) -> int {
    match s {
        Schedule::EverySecs(secs) => now + secs,
        Schedule::Once { delay_secs } => now + delay_secs,
        Schedule::Daily { hour, minute } => {
            let target = hour * 3600 + minute * 60;
            let today = now % 86400;
            if today < target {
                now - today + target
            } else {
                now - today + 86400 + target
            }
        },
        Schedule::CronExpr(_) => now + 60,
    }
}

/// Whether the next run fits in a `u64` (computing it overflows otherwise).
pub open spec fn next_run_fits(s: Schedule, now: u64) -> bool {
    next_run_spec(s, now) <= u64::MAX
}

/// The next run of `schedule` after `now`.
pub fn calc_next_run_at(schedule: &Schedule, now: u64) -> (r: u64)
    requires
        next_run_fits(*schedule, now),
    ensures
        r == next_run_spec(*schedule, now),
{
    match schedule {
        Schedule::EverySecs(secs) => now + *secs,
        Schedule::Once { delay_secs } => now + *delay_secs,
        Schedule::Daily { hour, minute } => {
            let target = *hour as u64 * 3600 + *minute as u64 * 60;
            let today_secs = now % 86400;
            if today_secs < target {
                now - today_secs + target
            } else {
                now - today_secs + 86400 + target
            }
        },
        Schedule::CronExpr(_) => now + 60,
    }
}

/// The next run of `schedule` from the current time, or `None` where it
/// does not fit in a `u64`.
pub fn calc_next_run(schedule: &Schedule) -> (r: Option<u64>)
    ensures
        exists|now: u64|
            if next_run_fits(*schedule, now) {
                r == Some(next_run_spec(*schedule, now) as u64)
            } else {
                r is None
            },
{
    let now = now_secs();
    if next_run_fits_exec(schedule, now) {
        Some(calc_next_run_at(schedule, now))
    } else {
        None
    }
}

/// Whether the next run of `schedule` after `now` fits in a `u64`.
pub fn next_run_fits_exec(schedule: &Schedule, now: u64) -> (r: bool)
    ensures
        r == next_run_fits(*schedule, now),
{
    match schedule {
        Schedule::EverySecs(secs) => *secs <= u64::MAX - now,
        Schedule::Once { delay_secs } => *delay_secs <= u64::MAX - now,
        Schedule::Daily { hour, minute } => {
            let target = *hour as u64 * 3600 + *minute as u64 * 60;
            let base = now - now % 86400;
            if now % 86400 < target {
                target <= u64::MAX - base
            } else {
                base <= u64::MAX - 86400 - target
            }
        },
        Schedule::CronExpr(_) => now <= u64::MAX - 60,
    }
}

/// A schedule that always lies ahead: a positive interval or delay, a valid
/// time of day, or a cron expression.
pub open spec fn schedule_ahead(s: Schedule) -> bool {
    match s {
        Schedule::EverySecs(secs) => secs > 0,
        Schedule::Once { delay_secs } => delay_secs > 0,
        Schedule::Daily { hour, minute } => hour < 24 && minute < 60,
        Schedule::CronExpr(_) => true,
    }
}

/// The next run lies after `now`; a daily schedule's next run is the first
/// moment after `now` at its time of day, within a day.
pub proof fn law_next_run_ahead(s: Schedule, now: u64)
    requires
        schedule_ahead(s),
    ensures
        next_run_spec(s, now) > now,
        s matches Schedule::Daily { hour, minute } ==> next_run_spec(s, now) <= now + 86400
            && next_run_spec(s, now) % 86400 == hour * 3600 + minute * 60,
{
    if let Schedule::Daily { hour, minute } = s {
        let target = hour * 3600 + minute * 60;
        let today = now % 86400;
        assert(now - today == 86400 * (now / 86400));
        assert(target < 86400);
        let base = now - today;
        assert((base + target) % 86400 == target) by {
            vstd::arithmetic::div_mod::lemma_mod_multiples_vanish(
                (now / 86400) as int,
                target as int,
                86400,
            );
            vstd::arithmetic::div_mod::lemma_small_mod(target as nat, 86400);
        }
        assert((base + 86400 + target) % 86400 == target) by {
            vstd::arithmetic::div_mod::lemma_mod_multiples_vanish(
                (now / 86400 + 1) as int,
                target as int,
                86400,
            );
            vstd::arithmetic::div_mod::lemma_small_mod(target as nat, 86400);
        }
    }
}

/// The `{:?}` rendering of a schedule.
pub open spec fn schedule_debug(s: Schedule) -> Seq<char> {
    match s {
        Schedule::EverySecs(n) => "EverySecs("@ + dec(n as nat) + ")"@,
        Schedule::Daily { hour, minute } => "Daily { hour: "@ + dec(hour as nat) + ", minute: "@
            + dec(minute as nat) + " }"@,
        Schedule::Once { delay_secs } => "Once { delay_secs: "@ + dec(delay_secs as nat) + " }"@,
        Schedule::CronExpr(e) => "CronExpr("@ + debug_str(e@) + ")"@,
    }
}

/// Renders a schedule as `{:?}` does.
pub fn schedule_debug_string(s: &Schedule) -> (r: String)
    ensures
        r@ == schedule_debug(*s),
{
    match s {
        Schedule::EverySecs(n) => {
            let mut out = "EverySecs(".to_string();
            append_str(&mut out, u64_to_string(*n).as_str());
            append_str(&mut out, ")");
            out
        },
        Schedule::Daily { hour, minute } => {
            let mut out = "Daily { hour: ".to_string();
            append_str(&mut out, u64_to_string(*hour as u64).as_str());
            append_str(&mut out, ", minute: ");
            append_str(&mut out, u64_to_string(*minute as u64).as_str());
            append_str(&mut out, " }");
            out
        },
        Schedule::Once { delay_secs } => {
            let mut out = "Once { delay_secs: ".to_string();
            append_str(&mut out, u64_to_string(*delay_secs).as_str());
            append_str(&mut out, " }");
            out
        },
        Schedule::CronExpr(e) => {
            let mut out = "CronExpr(".to_string();
            append_str(&mut out, debug_quote(e.as_str()).as_str());
            append_str(&mut out, ")");
            out
        },
    }
}

/// A copy of a schedule.
pub fn copy_schedule(s: &Schedule) -> (r: Schedule)
    ensures
        r == *s,
{
    match s {
        Schedule::EverySecs(n) => Schedule::EverySecs(*n),
        Schedule::Daily { hour, minute } => Schedule::Daily { hour: *hour, minute: *minute },
        Schedule::Once { delay_secs } => Schedule::Once { delay_secs: *delay_secs },
        Schedule::CronExpr(e) => Schedule::CronExpr(e.clone()),
    }
}

// ─── Schedule strings ────────────────────────────

/// `*/N` in the minutes field of `0 */N * * * *`.
pub open spec fn every_minutes_form(parts: Seq<Seq<char>>) -> bool {
    parts.len() >= 6 && parts[0] == "0"@ && spec_starts_with(parts[1], "*/"@)
}

/// `*/N` in the hours field of `0 0 */N * * *`.
pub open spec fn every_hours_form(parts: Seq<Seq<char>>) -> bool {
    parts.len() >= 6 && parts[0] == "0"@ && parts[1] == "0"@ && spec_starts_with(parts[2], "*/"@)
}

/// A fixed time of day, `0 MM HH * * *`.
pub open spec fn daily_form(parts: Seq<Seq<char>>) -> bool {
    parts.len() >= 6 && parts[3] == "*"@ && parts[4] == "*"@ && parts[5] == "*"@
}

/// The count of a `*/N` field, or `d` when it does not parse.
pub open spec fn count_or(field: Seq<char>, d: nat) -> nat {
    match parse_uint_spec(strip_all(field, "*/"@), u64::MAX as nat) {
        Some(v) => v,
        None => d,
    }
}

/// A `u8` field's value, or 0 when it does not parse.
pub open spec fn small_or_zero(field: Seq<char>) -> nat {
    match parse_uint_spec(field, 255) {
        Some(v) => v,
        None => 0,
    }
}

/// At most the first five pieces.
pub open spec fn first_five(parts: Seq<Seq<char>>) -> Seq<Seq<char>> {
    if parts.len() <= 5 {
        parts
    } else {
        parts.take(5)
    }
}

/// Whether reading the schedule string overflows (an interval of more
/// seconds than a `u64` holds, a panic).
pub open spec fn schedule_parse_overflows(s: Seq<char>) -> bool {
    let parts = words(s);
    if every_minutes_form(parts) {
        count_or(parts[1], 30) * 60 > u64::MAX
    } else if every_hours_form(parts) {
        count_or(parts[2], 1) * 3600 > u64::MAX
    } else {
        false
    }
}

/// Whether `r` is the schedule that the string `s` denotes: a minute or hour
/// interval, a time of day, or else a cron expression of its first five
/// fields.
pub open spec fn parsed_schedule(s: Seq<char>, r: Schedule) -> bool {
    let parts = words(s);
    if every_minutes_form(parts) {
        r == Schedule::EverySecs((count_or(parts[1], 30) * 60) as u64)
    } else if every_hours_form(parts) {
        r == Schedule::EverySecs((count_or(parts[2], 1) * 3600) as u64)
    } else if daily_form(parts) {
        r == Schedule::Daily {
            hour: small_or_zero(parts[2]) as u8,
            minute: small_or_zero(parts[1]) as u8,
        }
    } else {
        r matches Schedule::CronExpr(e) && e@ == join_spec(first_five(parts), " "@)
    }
}

fn count_field(field: &[char], d: u64) -> (r: u64)
    ensures
        r == count_or(field@, d as nat),
{
    proof {
        reveal_strlit("*/");
    }
    let pat = to_chars("*/");
    let body = strip_all_exec(field, pat.as_slice());
    match parse_uint(body.as_slice(), u64::MAX) {
        Some(v) => v,
        None => d,
    }
}

fn small_field(field: &[char]) -> (r: u8)
    ensures
        r == small_or_zero(field@),
{
    match parse_uint(field, 255) {
        Some(v) => v as u8,
        None => 0,
    }
}

fn is_text(piece: &Vec<char>, lit: &str) -> (r: bool)
    ensures
        r == (piece@ == lit@),
{
    let l = to_chars(lit);
    chars_eq(piece.as_slice(), l.as_slice())
}

fn begins_with(piece: &Vec<char>, lit: &str) -> (r: bool)
    ensures
        r == spec_starts_with(piece@, lit@),
{
    let l = to_chars(lit);
    starts_with_chars(piece.as_slice(), l.as_slice())
}

/// Reads a schedule string such as `0 */30 * * * *` or `0 30 8 * * *`.
pub fn parse_schedule_str(s: &str) -> (r: Schedule)
    requires
        !schedule_parse_overflows(s@),
    ensures
        parsed_schedule(s@, r),
{
    let c = to_chars(s);
    let parts = split_words(c.as_slice());
    let ghost ps = pieces_view(parts@);
    assert(ps == words(s@));
    assert(forall|k: int| 0 <= k < parts@.len() ==> #[trigger] ps[k] == parts@[k]@);
    if parts.len() >= 6 && is_text(&parts[0], "0") && begins_with(&parts[1], "*/") {
        let n = count_field(parts[1].as_slice(), 30);
        return Schedule::EverySecs(n * 60);
    }
    if parts.len() >= 6 && is_text(&parts[0], "0") && is_text(&parts[1], "0") && begins_with(
        &parts[2],
        "*/",
    ) {
        let n = count_field(parts[2].as_slice(), 1);
        return Schedule::EverySecs(n * 3600);
    }
    if parts.len() >= 6 && is_text(&parts[3], "*") && is_text(&parts[4], "*") && is_text(
        &parts[5],
        "*",
    ) {
        let hour = small_field(parts[2].as_slice());
        let minute = small_field(parts[1].as_slice());
        return Schedule::Daily { hour, minute };
    }
    let sp = vec![' '];
    assert(!every_minutes_form(ps));
    assert(!every_hours_form(ps));
    assert(!daily_form(ps));
    let joined = if parts.len() <= 5 {
        join_pieces(parts.as_slice(), sp.as_slice())
    } else {
        let mut first: Vec<Vec<char>> = Vec::new();
        let mut k: usize = 0;
        while k < 5
            invariant
                k <= 5,
                parts@.len() > 5,
                ps == pieces_view(parts@),
                pieces_view(first@) == ps.take(k as int),
            decreases 5 - k,
        {
            let mut piece = Vec::new();
            push_range(&mut piece, parts[k].as_slice(), 0, parts[k].len());
            assert(parts@[k as int]@.subrange(0, parts@[k as int]@.len() as int) == parts@[k as int]@);
            let ghost before = pieces_view(first@);
            first.push(piece);
            assert(pieces_view(first@) =~= before.push(ps[k as int]));
            assert(ps.take(k + 1) =~= ps.take(k as int).push(ps[k as int]));
            k += 1;
        }
        assert(pieces_view(first@) =~= ps.take(5));
        join_pieces(first.as_slice(), sp.as_slice())
    };
    proof {
        reveal_strlit(" ");
        assert(sp@ =~= " "@);
    }
    assert(joined@ == join_spec(first_five(ps), " "@));
    Schedule::CronExpr(from_chars(joined.as_slice()))
}

// ─── Delivery ────────────────────────────────────

/// The channel of a `deliver` setting: `all`-like words mean every channel
/// (`__all__`); `channel:type:id` names its channel.
pub open spec fn normalize_deliver_spec(d: Seq<char>) -> Seq<char> {
    if d == ""@ || d == "all"@ || d == "broadcast"@ || d == "everywhere"@ {
        "__all__"@
    } else {
        match index_of(d, ':') {
            Some(p) => d.take(p),
            None => d,
        }
    }
}

/// The `type:id` target of a `channel:type:id` setting, when it has one.
pub open spec fn deliver_target_spec(d: Seq<char>) -> Option<Seq<char>> {
    match index_of(d, ':') {
        Some(p) => if d.skip(p + 1).len() == 0 {
            None
        } else {
            Some(d.skip(p + 1))
        },
        None => None,
    }
}

/// The channel of a `deliver` setting.
pub fn normalize_deliver(d: &str) -> (r: String)
    ensures
        r@ == normalize_deliver_spec(d@),
{
    if str_eq(d, "") || str_eq(d, "all") || str_eq(d, "broadcast") || str_eq(d, "everywhere") {
        return "__all__".to_string();
    }
    let c = to_chars(d);
    match find_char(c.as_slice(), ':') {
        Some(p) => {
            let mut head = Vec::new();
            push_range(&mut head, c.as_slice(), 0, p);
            assert(c@.subrange(0, p as int) == c@.take(p as int));
            from_chars(head.as_slice())
        },
        None => d.to_string(),
    }
}

/// The `type:id` target of a `channel:type:id` setting.
pub fn extract_deliver_target(d: &str) -> (r: Option<String>)
    ensures
        match r {
            Some(t) => deliver_target_spec(d@) == Some(t@),
            None => deliver_target_spec(d@) is None,
        },
{
    let c = to_chars(d);
    match find_char(c.as_slice(), ':') {
        Some(p) => {
            let n = c.len();
            assert(p < n);
            let mut rest = Vec::new();
            push_range(&mut rest, c.as_slice(), p + 1, c.len());
            assert(c@.subrange(p + 1, c@.len() as int) == c@.skip(p + 1));
            if rest.len() == 0 {
                None
            } else {
                Some(from_chars(rest.as_slice()))
            }
        },
        None => None,
    }
}

// ─── Jobs ────────────────────────────────────────

/// What a scheduled job does.
#[derive(Debug)]
pub enum JobAction {
    /// A prompt for a session.
    Prompt(String),
    /// A shell command.
    Shell(String),
}

/// A scheduled job and its run state.
#[derive(Debug)]
pub struct CronJobState {
    pub name: String,
    pub schedule: Schedule,
    pub action: JobAction,
    pub channel: String,
    /// Where to deliver the output, as `type:id` (`group:123456`).
    pub deliver_target: Option<String>,
    pub next_run: u64,
    pub run_count: u64,
    pub enabled: bool,
}

/// A copy of a job action.
pub fn copy_action(a: &JobAction) -> (r: JobAction)
    ensures
        r == *a,
{
    match a {
        JobAction::Prompt(p) => JobAction::Prompt(p.clone()),
        JobAction::Shell(c) => JobAction::Shell(c.clone()),
    }
}

/// The string member `key` of a JSON object.
pub open spec fn str_field(v: JsonValue, key: Seq<char>) -> Option<Seq<char>> {
    match crate::json::json_get(v, key) {
        Some(JsonValue::Str(s)) => Some(s@),
        _ => None,
    }
}

/// The non-negative integer member `key` of a JSON object.
pub open spec fn u64_field(v: JsonValue, key: Seq<char>) -> Option<u64> {
    match crate::json::json_get(v, key) {
        Some(f) => crate::json::json_u64(f),
        None => None,
    }
}

/// The next run after `now` of the schedule that `s` denotes.
pub open spec fn parsed_next_run(s: Seq<char>, now: u64) -> int {
    let parts = words(s);
    if every_minutes_form(parts) {
        now + count_or(parts[1], 30) * 60
    } else if every_hours_form(parts) {
        now + count_or(parts[2], 1) * 3600
    } else if daily_form(parts) {
        next_run_spec(
            Schedule::Daily {
                hour: small_or_zero(parts[2]) as u8,
                minute: small_or_zero(parts[1]) as u8,
            },
            now,
        )
    } else {
        now + 60
    }
}

proof fn lemma_parsed_next_run(s: Seq<char>, r: Schedule, now: u64)
    requires
        parsed_schedule(s, r),
        !schedule_parse_overflows(s),
    ensures
        next_run_spec(r, now) == parsed_next_run(s, now),
{
}

/// The count of `*/N`, with `N` written in decimal, is `N`.
proof fn lemma_count_of(n: nat, d: nat)
    requires
        n <= u64::MAX,
    ensures
        count_or("*/"@ + dec(n), d) == n,
{
    reveal_strlit("*/");
    let f = "*/"@ + dec(n);
    crate::text::lemma_dec_reads_back(n);
    crate::text::lemma_dec_first(n);
    assert(f.take(2) =~= "*/"@);
    assert(f.skip(2) =~= dec(n));
    assert(!spec_starts_with(dec(n), "*/"@)) by {
        if dec(n).len() >= 2 {
            assert(dec(n).take(2)[0] == dec(n)[0]);
        }
    }
    assert(strip_all(dec(n), "*/"@) == dec(n));
    assert(spec_starts_with(f, "*/"@));
    assert(f.skip("*/"@.len() as int) == dec(n));
    assert(strip_all(f, "*/"@) == strip_all(f.skip("*/"@.len() as int), "*/"@));
}

/// A field written as the decimal text of `m`, at most 255, reads as `m`,
/// and does not begin with `*/`.
proof fn lemma_small_of(m: nat)
    requires
        m <= 255,
    ensures
        small_or_zero(dec(m)) == m,
        !spec_starts_with(dec(m), "*/"@),
        dec(m) != "0"@ ==> m != 0,
{
    reveal_strlit("*/");
    reveal_strlit("0");
    crate::text::lemma_dec_reads_back(m);
    crate::text::lemma_dec_first(m);
    if dec(m).len() >= 2 {
        assert(dec(m).take(2)[0] == dec(m)[0]);
    }
    if m == 0 {
        assert(dec(0) =~= "0"@);
    }
}

/// A schedule string of the every-minutes form, `0 */N` followed by four
/// more fields, runs every `N` minutes: its schedule is `N * 60` seconds,
/// and its next run is that long after `now`.
pub proof fn law_every_minutes(s: Seq<char>, n: nat, r: Schedule, now: u64)
    requires
        words(s).len() >= 6,
        words(s)[0] == "0"@,
        words(s)[1] == "*/"@ + dec(n),
        n * 60 <= u64::MAX,
        parsed_schedule(s, r),
    ensures
        !schedule_parse_overflows(s),
        r == Schedule::EverySecs((n * 60) as u64),
        parsed_next_run(s, now) == now + n * 60,
{
    reveal_strlit("*/");
    lemma_count_of(n, 30);
    assert(words(s)[1].take(2) =~= "*/"@);
}

/// A schedule string of the every-hours form, `0 0 */N` followed by three
/// more fields, runs every `N` hours: its schedule is `N * 3600` seconds,
/// and its next run is that long after `now`.
pub proof fn law_every_hours(s: Seq<char>, n: nat, r: Schedule, now: u64)
    requires
        words(s).len() >= 6,
        words(s)[0] == "0"@,
        words(s)[1] == "0"@,
        words(s)[2] == "*/"@ + dec(n),
        n * 3600 <= u64::MAX,
        parsed_schedule(s, r),
    ensures
        !schedule_parse_overflows(s),
        r == Schedule::EverySecs((n * 3600) as u64),
        parsed_next_run(s, now) == now + n * 3600,
{
    reveal_strlit("*/");
    reveal_strlit("0");
    lemma_count_of(n, 1);
    assert(words(s)[2].take(2) =~= "*/"@);
    assert(!spec_starts_with(words(s)[1], "*/"@));
}

/// A schedule string `S MM HH * * *`, with minute `MM` and hour `HH`
/// written in decimal, runs daily at that time.
pub proof fn law_daily(s: Seq<char>, minute: nat, hour: nat, r: Schedule)
    requires
        words(s).len() >= 6,
        words(s)[1] == dec(minute),
        words(s)[2] == dec(hour),
        words(s)[3] == "*"@ && words(s)[4] == "*"@ && words(s)[5] == "*"@,
        minute <= 255 && hour <= 255,
        parsed_schedule(s, r),
    ensures
        !schedule_parse_overflows(s),
        r == (Schedule::Daily { hour: hour as u8, minute: minute as u8 }),
{
    lemma_small_of(minute);
    lemma_small_of(hour);
}

/// Two every-minutes schedule strings with different counts run at
/// different intervals.
pub proof fn law_every_minutes_distinct(
    s1: Seq<char>,
    n1: nat,
    r1: Schedule,
    s2: Seq<char>,
    n2: nat,
    r2: Schedule,
)
    requires
        words(s1).len() >= 6 && words(s1)[0] == "0"@ && words(s1)[1] == "*/"@ + dec(n1),
        words(s2).len() >= 6 && words(s2)[0] == "0"@ && words(s2)[1] == "*/"@ + dec(n2),
        n1 * 60 <= u64::MAX && n2 * 60 <= u64::MAX,
        parsed_schedule(s1, r1) && parsed_schedule(s2, r2),
        n1 != n2,
    ensures
        r1 != r2,
{
    law_every_minutes(s1, n1, r1, 0);
    law_every_minutes(s2, n2, r2, 0);
}

/// The schedule text of a job entry (empty when absent).
pub open spec fn entry_schedule(entry: JsonValue) -> Seq<char> {
    crate::module::or_text(str_field(entry, "schedule"@), Seq::empty())
}

/// Whether loading a job entry at `now` panics: its schedule overflows, or
/// it has no `next_run` and the computed one does not fit in a `u64`.
pub open spec fn entry_load_panics(entry: JsonValue, now: u64) -> bool {
    schedule_parse_overflows(entry_schedule(entry)) || (u64_field(entry, "next_run"@) is None
        && parsed_next_run(entry_schedule(entry), now) > u64::MAX)
}

/// Whether `j` is the job that a JSON entry of the job file describes, read
/// at `now`.
pub open spec fn job_from_entry_spec(entry: JsonValue, now: u64, j: CronJobState) -> bool {
    let raw = crate::module::or_text(str_field(entry, "deliver"@), "origin"@);
    let cmd = crate::module::or_text(str_field(entry, "command"@), Seq::empty());
    &&& j.name@ == crate::module::or_text(str_field(entry, "name"@), "未命名"@)
    &&& parsed_schedule(entry_schedule(entry), j.schedule)
    &&& j.channel@ == normalize_deliver_spec(raw)
    &&& match deliver_target_spec(raw) {
        Some(t) => j.deliver_target matches Some(x) && x@ == t,
        None => j.deliver_target is None,
    }
    &&& j.enabled == match crate::json::json_get(entry, "enabled"@) {
        Some(JsonValue::Bool(b)) => b,
        _ => true,
    }
    &&& j.next_run == match u64_field(entry, "next_run"@) {
        Some(n) => n as int,
        None => next_run_spec(j.schedule, now),
    }
    &&& if str_field(entry, "type"@) == Some("prompt"@) {
        j.action matches JobAction::Prompt(c) && c@ == cmd
    } else {
        j.action matches JobAction::Shell(c) && c@ == cmd
    }
    &&& j.run_count == 0
}

fn entry_str<'a>(entry: &'a JsonValue, key: &str) -> (r: Option<&'a str>)
    ensures
        match r {
            Some(t) => str_field(*entry, key@) == Some(t@),
            None => str_field(*entry, key@) is None,
        },
{
    match entry.get(key) {
        Some(v) => v.as_str(),
        None => None,
    }
}

/// Reads one entry of the job file at `now`.
pub fn job_from_entry(entry: &JsonValue, now: u64) -> (r: CronJobState)
    requires
        !entry_load_panics(*entry, now),
    ensures
        job_from_entry_spec(*entry, now, r),
{
    proof {
        reveal_strlit("");
        assert(""@ =~= Seq::<char>::empty());
    }
    let name = match entry_str(entry, "name") {
        Some(n) => n,
        None => "未命名",
    };
    let sched_str = match entry_str(entry, "schedule") {
        Some(t) => t,
        None => "",
    };
    let sched = parse_schedule_str(sched_str);
    let cmd = match entry_str(entry, "command") {
        Some(t) => t,
        None => "",
    };
    let raw = match entry_str(entry, "deliver") {
        Some(t) => t,
        None => "origin",
    };
    let channel = normalize_deliver(raw);
    let deliver_target = extract_deliver_target(raw);
    let enabled = match entry.get("enabled") {
        Some(v) => match v.as_bool() {
            Some(b) => b,
            None => true,
        },
        None => true,
    };
    let next_run = match entry.get("next_run") {
        Some(v) => match v.as_u64() {
            Some(n) => n,
            None => {
                proof {
                    lemma_parsed_next_run(sched_str@, sched, now);
                }
                calc_next_run_at(&sched, now)
            },
        },
        None => {
            proof {
                lemma_parsed_next_run(sched_str@, sched, now);
            }
            calc_next_run_at(&sched, now)
        },
    };
    let is_prompt = match entry_str(entry, "type") {
        Some(t) => str_eq(t, "prompt"),
        None => false,
    };
    let action = if is_prompt {
        JobAction::Prompt(cmd.to_string())
    } else {
        JobAction::Shell(cmd.to_string())
    };
    CronJobState {
        name: name.to_string(),
        schedule: sched,
        action,
        channel,
        deliver_target,
        next_run,
        run_count: 0,
        enabled,
    }
}

/// The jobs of the job file's entries, read at `now`, in file order.
pub fn jobs_from_entries(entries: &Vec<JsonValue>, now: u64) -> (r: Vec<CronJobState>)
    requires
        forall|i: int| 0 <= i < entries@.len() ==> !entry_load_panics(#[trigger] entries@[i], now),
    ensures
        r@.len() == entries@.len(),
        forall|i: int|
            0 <= i < r@.len() ==> job_from_entry_spec(entries@[i], now, #[trigger] r@[i]),
{
    let mut out: Vec<CronJobState> = Vec::new();
    let mut i: usize = 0;
    while i < entries.len()
        invariant
            i <= entries.len(),
            out@.len() == i,
            forall|k: int| 0 <= k < entries@.len() ==> !entry_load_panics(#[trigger] entries@[k], now),
            forall|k: int| 0 <= k < i ==> job_from_entry_spec(entries@[k], now, #[trigger] out@[k]),
        decreases entries.len() - i,
    {
        let j = job_from_entry(&entries[i], now);
        out.push(j);
        i += 1;
    }
    out
}

// ─── Ticks ───────────────────────────────────────

/// A job that a tick fires.
#[derive(Debug)]
pub struct Firing {
    pub name: String,
    pub action: JobAction,
    pub channel: String,
    /// Who the output is sent as: the job's deliver target, or `cron-<name>`.
    pub sender: String,
    /// The job's next run.
    pub next: u64,
}

/// Whether a job is due at `now`.
pub open spec fn job_due(j: CronJobState, now: u64) -> bool {
    j.enabled && j.next_run <= now
}

/// Who a job's output is sent as.
pub open spec fn sender_of(j: CronJobState) -> Seq<char> {
    match j.deliver_target {
        Some(t) => t@,
        None => "cron-"@ + j.name@,
    }
}

/// A job after it fires at `now`.
pub open spec fn ticked(j: CronJobState, now: u64) -> CronJobState {
    CronJobState {
        next_run: next_run_spec(j.schedule, now) as u64,
        run_count: (j.run_count + 1) as u64,
        ..j
    }
}

/// Whether a tick at `now` panics: some due job's next run or run count
/// overflows.
pub open spec fn tick_panics(jobs: Seq<CronJobState>, now: u64) -> bool {
    exists|i: int|
        0 <= i < jobs.len() && job_due(#[trigger] jobs[i], now) && (!next_run_fits(
            jobs[i].schedule,
            now,
        ) || jobs[i].run_count == u64::MAX)
}

/// The jobs due at `now`, in order.
pub open spec fn due_jobs(jobs: Seq<CronJobState>, now: u64) -> Seq<CronJobState>
    decreases jobs.len(),
{
    if jobs.len() == 0 {
        Seq::empty()
    } else if job_due(jobs.last(), now) {
        due_jobs(jobs.drop_last(), now).push(jobs.last())
    } else {
        due_jobs(jobs.drop_last(), now)
    }
}

/// Whether `f` reports job `j` firing at `now`.
pub open spec fn firing_of(j: CronJobState, now: u64, f: Firing) -> bool {
    &&& f.name == j.name
    &&& f.action == j.action
    &&& f.channel == j.channel
    &&& f.sender@ == sender_of(j)
    &&& f.next == next_run_spec(j.schedule, now)
}

/// A job that fired at `now` is not due again at `now`: its next run lies
/// ahead, so one tick fires a job at most once.
pub proof fn law_fired_job_waits(j: CronJobState, now: u64)
    requires
        job_due(j, now),
        schedule_ahead(j.schedule),
        next_run_fits(j.schedule, now),
    ensures
        !job_due(ticked(j, now), now),
        ticked(j, now).run_count == j.run_count + 1 || j.run_count == u64::MAX,
{
    law_next_run_ahead(j.schedule, now);
}

/// Fires every enabled job whose next run has come: each gets its next run
/// after `now` and one more run; the fired jobs are returned in order.
pub fn tick(jobs: &mut Vec<CronJobState>, now: u64) -> (r: Vec<Firing>)
    requires
        !tick_panics(old(jobs)@, now),
    ensures
        final(jobs)@.len() == old(jobs)@.len(),
        forall|i: int|
            0 <= i < final(jobs)@.len() ==> #[trigger] final(jobs)@[i] == if job_due(
                old(jobs)@[i],
                now,
            ) {
                ticked(old(jobs)@[i], now)
            } else {
                old(jobs)@[i]
            },
        r@.len() == due_jobs(old(jobs)@, now).len(),
        forall|k: int|
            0 <= k < r@.len() ==> firing_of(due_jobs(old(jobs)@, now)[k], now, #[trigger] r@[k]),
{
    let ghost orig = jobs@;
    let mut out: Vec<Firing> = Vec::new();
    let mut i: usize = 0;
    while i < jobs.len()
        invariant
            i <= jobs@.len(),
            jobs@.len() == orig.len(),
            !tick_panics(orig, now),
            forall|k: int|
                0 <= k < i ==> #[trigger] jobs@[k] == if job_due(orig[k], now) {
                    ticked(orig[k], now)
                } else {
                    orig[k]
                },
            forall|k: int| i <= k < jobs@.len() ==> #[trigger] jobs@[k] == orig[k],
            out@.len() == due_jobs(orig.take(i as int), now).len(),
            forall|k: int|
                0 <= k < out@.len() ==> firing_of(
                    due_jobs(orig.take(i as int), now)[k],
                    now,
                    #[trigger] out@[k],
                ),
        decreases jobs@.len() - i,
    {
        assert(orig.take(i + 1).drop_last() == orig.take(i as int));
        assert(orig.take(i + 1).last() == orig[i as int]);
        assert(jobs@[i as int] == orig[i as int]);
        if jobs[i].enabled && jobs[i].next_run <= now {
            assert(job_due(orig[i as int], now));
            let sender = match &jobs[i].deliver_target {
                Some(t) => t.clone(),
                None => concat2("cron-", jobs[i].name.as_str()),
            };
            let next = calc_next_run_at(&jobs[i].schedule, now);
            let f = Firing {
                name: jobs[i].name.clone(),
                action: copy_action(&jobs[i].action),
                channel: jobs[i].channel.clone(),
                sender,
                next,
            };
            let ghost before = jobs@;
            let count = jobs[i].run_count + 1;
            jobs[i].next_run = next;
            jobs[i].run_count = count;
            assert(jobs@ =~= before.update(i as int, ticked(orig[i as int], now)));
            let ghost prev = out@;
            out.push(f);
            assert forall|k: int| 0 <= k < out@.len() implies firing_of(
                due_jobs(orig.take(i + 1), now)[k],
                now,
                #[trigger] out@[k],
            ) by {
                if k < prev.len() {
                    assert(out@[k] == prev[k]);
                }
            }
        }
        i += 1;
    }
    assert(orig.take(orig.len() as int) == orig);
    out
}

/// The task that a fired prompt job hands to the scheduler; shell jobs hand
/// over none until their command has run.
pub open spec fn prompt_task_spec(f: Firing, t: Option<SessionTask>) -> bool {
    match f.action {
        JobAction::Prompt(p) => t matches Some(task) && task.session_id@ == "cron-"@ + f.name@
            && task.input == p && task.channel == f.channel && task.sender@ == "cron-"@ + f.name@,
        JobAction::Shell(_) => t is None,
    }
}

/// The task of a fired prompt job.
pub fn prompt_task(f: &Firing) -> (r: Option<SessionTask>)
    ensures
        prompt_task_spec(*f, r),
{
    match &f.action {
        JobAction::Prompt(p) => Some(
            SessionTask {
                session_id: concat2("cron-", f.name.as_str()),
                input: p.clone(),
                channel: f.channel.clone(),
                sender: concat2("cron-", f.name.as_str()),
            },
        ),
        JobAction::Shell(_) => None,
    }
}

/// The task that a shell job's standard output makes: its trimmed text, when
/// there is any.
pub fn shell_output_task(f: &Firing, stdout: &str) -> (r: Option<SessionTask>)
    ensures
        trim_spec(stdout@).len() == 0 ==> r is None,
        trim_spec(stdout@).len() > 0 ==> (r matches Some(task) && task.session_id@ == "cron-"@
            + f.name@ && task.input@ == trim_spec(stdout@) && task.channel == f.channel
            && task.sender == f.sender),
{
    let t = trim_str(stdout);
    if t.as_str().is_empty() {
        None
    } else {
        Some(
            SessionTask {
                session_id: concat2("cron-", f.name.as_str()),
                input: t,
                channel: f.channel.clone(),
                sender: f.sender.clone(),
            },
        )
    }
}

// ─── The job file ────────────────────────────────

/// Whether `v` is the JSON number `n`.
pub open spec fn is_json_u64(v: JsonValue, n: u64) -> bool {
    if n <= i64::MAX {
        v == JsonValue::Int(n as i64)
    } else {
        v matches JsonValue::OtherNumber(t) && t@ == dec(n as nat)
    }
}

/// The JSON number `n`.
pub fn json_u64(n: u64) -> (r: JsonValue)
    ensures
        is_json_u64(r, n),
{
    if n <= i64::MAX as u64 {
        JsonValue::Int(n as i64)
    } else {
        JsonValue::OtherNumber(u64_to_string(n))
    }
}

/// Sets member `key` of an object's members: the first member with that key
/// gets the value, or a new member is added at the end.
pub fn set_member(members: &mut Vec<(String, JsonValue)>, key: &str, v: JsonValue)
    ensures
        obj_get(final(members)@, key@) == Some(v),
        forall|k: Seq<char>| k != key@ ==> #[trigger] obj_get(final(members)@, k) == obj_get(old(members)@, k),
{
    let ghost orig = members@;
    let mut i: usize = 0;
    while i < members.len()
        invariant
            i <= members@.len(),
            members@ == orig,
            orig == old(members)@,
            forall|j: int| 0 <= j < i ==> #[trigger] orig[j].0@ != key@,
        decreases members@.len() - i,
    {
        if str_eq(members[i].0.as_str(), key) {
            let ghost vv = v;
            members[i].1 = v;
            proof {
                assert(members@ =~= orig.update(i as int, (orig[i as int].0, vv)));
                lemma_obj_get_update(orig, i as int, vv);
                assert forall|k: Seq<char>| k != key@ implies #[trigger] obj_get(members@, k) == obj_get(
                    orig,
                    k,
                ) by {
                    assert(obj_get(orig.update(i as int, (orig[i as int].0, vv)), k) == obj_get(orig, k));
                }
            }
            return;
        }
        i += 1;
    }
    let entry = (key.to_string(), v);
    let ghost e = entry;
    members.push(entry);
    proof {
        lemma_obj_get_push(orig, key@, e);
    }
}

proof fn lemma_obj_get_update(m: Seq<(String, JsonValue)>, i: int, v: JsonValue)
    requires
        0 <= i < m.len(),
        forall|j: int| 0 <= j < i ==> #[trigger] m[j].0@ != m[i].0@,
    ensures
        obj_get(m.update(i, (m[i].0, v)), m[i].0@) == Some(v),
        forall|k: Seq<char>| k != m[i].0@ ==> #[trigger] obj_get(m.update(i, (m[i].0, v)), k) == obj_get(m, k),
    decreases m.len(),
{
    let u = m.update(i, (m[i].0, v));
    assert(u[0] == if i == 0 { (m[i].0, v) } else { m[0] });
    if i == 0 {
        assert(u.skip(1) =~= m.skip(1));
        assert forall|k: Seq<char>| k != m[i].0@ implies #[trigger] obj_get(u, k) == obj_get(m, k) by {}
    } else {
        assert(u.skip(1) =~= m.skip(1).update(i - 1, (m[i].0, v)));
        assert(m.skip(1)[i - 1] == m[i]);
        assert forall|j: int| 0 <= j < i - 1 implies #[trigger] m.skip(1)[j].0@ != m.skip(1)[i - 1].0@ by {
            assert(m.skip(1)[j] == m[j + 1]);
        }
        lemma_obj_get_update(m.skip(1), i - 1, v);
        assert(m[0].0@ != m[i].0@);
        assert forall|k: Seq<char>| k != m[i].0@ implies #[trigger] obj_get(u, k) == obj_get(m, k) by {
            assert(obj_get(m.skip(1).update(i - 1, (m[i].0, v)), k) == obj_get(m.skip(1), k));
        }
    }
}

proof fn lemma_obj_get_push(m: Seq<(String, JsonValue)>, key: Seq<char>, p: (String, JsonValue))
    requires
        p.0@ == key,
        forall|j: int| 0 <= j < m.len() ==> #[trigger] m[j].0@ != key,
    ensures
        obj_get(m.push(p), key) == Some(p.1),
        forall|k: Seq<char>| k != key ==> #[trigger] obj_get(m.push(p), k) == obj_get(m, k),
    decreases m.len(),
{
    if m.len() == 0 {
        assert(m.push(p).skip(1) =~= Seq::<(String, JsonValue)>::empty());
        assert forall|k: Seq<char>| k != key implies #[trigger] obj_get(m.push(p), k) == obj_get(m, k) by {
            assert(obj_get(Seq::<(String, JsonValue)>::empty(), k) is None);
        }
    } else {
        assert(m.push(p).skip(1) =~= m.skip(1).push(p));
        assert forall|j: int| 0 <= j < m.skip(1).len() implies #[trigger] m.skip(1)[j].0@ != key by {
            assert(m.skip(1)[j] == m[j + 1]);
        }
        lemma_obj_get_push(m.skip(1), key, p);
        assert forall|k: Seq<char>| k != key implies #[trigger] obj_get(m.push(p), k) == obj_get(m, k) by {
            assert(m.push(p)[0] == m[0]);
            assert(obj_get(m.skip(1).push(p), k) == obj_get(m.skip(1), k));
        }
    }
}

/// Whether a job file entry is the one of job `name`.
pub open spec fn entry_named(entry: JsonValue, name: Seq<char>) -> bool {
    str_field(entry, "name"@) == Some(name)
}

/// Whether `after` is the job file entry `before` with `last_run` set to
/// `now` and `next_run` to `next`, its other members unchanged.
pub open spec fn marked_entry(before: JsonValue, after: JsonValue, now: u64, next: u64) -> bool {
    &&& before is Object
    &&& after is Object
    &&& obj_get(after->Object_0@, "last_run"@) is Some
    &&& is_json_u64(obj_get(after->Object_0@, "last_run"@)->0, now)
    &&& obj_get(after->Object_0@, "next_run"@) is Some
    &&& is_json_u64(obj_get(after->Object_0@, "next_run"@)->0, next)
    &&& forall|k: Seq<char>|
        k != "last_run"@ && k != "next_run"@ ==> #[trigger] obj_get(after->Object_0@, k) == obj_get(
            before->Object_0@,
            k,
        )
}

/// Records in the job file's entries that job `name` ran at `now` and runs
/// next at `next`: every object entry of that name gets `last_run` and
/// `next_run`; the other entries stay as they are.
pub fn mark_run(entries: &mut Vec<JsonValue>, name: &str, now: u64, next: u64)
    ensures
        final(entries)@.len() == old(entries)@.len(),
        forall|i: int|
            0 <= i < old(entries)@.len() ==> if entry_named(old(entries)@[i], name@) {
                marked_entry(old(entries)@[i], #[trigger] final(entries)@[i], now, next)
            } else {
                final(entries)@[i] == old(entries)@[i]
            },
{
    let ghost orig = entries@;
    let mut i: usize = 0;
    while i < entries.len()
        invariant
            i <= entries@.len(),
            entries@.len() == orig.len(),
            forall|j: int| i <= j < orig.len() ==> #[trigger] entries@[j] == orig[j],
            forall|j: int|
                0 <= j < i && !entry_named(orig[j], name@) ==> #[trigger] entries@[j] == orig[j],
            forall|j: int|
                0 <= j < i && entry_named(orig[j], name@) ==> marked_entry(
                    orig[j],
                    #[trigger] entries@[j],
                    now,
                    next,
                ),
        decreases entries@.len() - i,
    {
        let named = match entries[i].get("name") {
            Some(v) => match v.as_str() {
                Some(t) => str_eq(t, name),
                None => false,
            },
            None => false,
        };
        if named {
            let ghost before = entries@;
            proof {
                reveal_strlit("last_run");
                reveal_strlit("next_run");
                assert("last_run"@ != "next_run"@) by {
                    assert("last_run"@[0] != "next_run"@[0]);
                }
            }
            match &mut entries[i] {
                JsonValue::Object(m) => {
                    let ghost m0 = *m;
                    set_member(m, "last_run", json_u64(now));
                    let ghost m1 = *m;
                    set_member(m, "next_run", json_u64(next));
                    assert(obj_get(m@, "last_run"@) == obj_get(m1@, "last_run"@));
                },
                _ => {},
            }
            assert(forall|j: int| 0 <= j < entries@.len() && j != i ==> entries@[j] == before[j]);
        }
        i += 1;
    }
}

// ─── Job list ────────────────────────────────────

/// The first 40 characters of `s`.
pub open spec fn first40(s: Seq<char>) -> Seq<char> {
    if s.len() <= 40 {
        s
    } else {
        s.take(40)
    }
}

/// How the job list describes an action.
pub open spec fn action_desc(a: JobAction) -> Seq<char> {
    match a {
        JobAction::Prompt(p) => "prompt: "@ + first40(p@),
        JobAction::Shell(c) => "shell: "@ + first40(c@),
    }
}

/// Whether `info` is how the job list shows job `j`.
pub open spec fn info_of(j: CronJobState, info: CronEntryInfo) -> bool {
    &&& info.name == j.name
    &&& info.schedule@ == schedule_debug(j.schedule)
    &&& info.prompt@ == action_desc(j.action)
    &&& info.channel == j.channel
    &&& info.next_run == j.next_run
    &&& info.run_count == j.run_count
    &&& info.enabled == j.enabled
}

fn first40_exec(s: &str) -> (r: Vec<char>)
    ensures
        r@ == first40(s@),
{
    let c = to_chars(s);
    if c.len() <= 40 {
        c
    } else {
        let mut out = Vec::new();
        push_range(&mut out, c.as_slice(), 0, 40);
        assert(c@.subrange(0, 40) == c@.take(40));
        out
    }
}

/// How the job list describes an action.
pub fn action_description(a: &JobAction) -> (r: String)
    ensures
        r@ == action_desc(*a),
{
    match a {
        JobAction::Prompt(p) => {
            let mut out = "prompt: ".to_string();
            crate::text::push_chars(&mut out, first40_exec(p.as_str()).as_slice());
            out
        },
        JobAction::Shell(c) => {
            let mut out = "shell: ".to_string();
            crate::text::push_chars(&mut out, first40_exec(c.as_str()).as_slice());
            out
        },
    }
}

/// The job list: one entry per job, in order.
pub fn list_jobs(jobs: &Vec<CronJobState>) -> (r: Vec<CronEntryInfo>)
    ensures
        r@.len() == jobs@.len(),
        forall|i: int| 0 <= i < r@.len() ==> info_of(jobs@[i], #[trigger] r@[i]),
{
    let mut out: Vec<CronEntryInfo> = Vec::new();
    let mut i: usize = 0;
    while i < jobs.len()
        invariant
            i <= jobs@.len(),
            out@.len() == i,
            forall|k: int| 0 <= k < i ==> info_of(jobs@[k], #[trigger] out@[k]),
        decreases jobs@.len() - i,
    {
        let j = &jobs[i];
        out.push(
            CronEntryInfo {
                name: j.name.clone(),
                schedule: schedule_debug_string(&j.schedule),
                prompt: action_description(&j.action),
                channel: j.channel.clone(),
                next_run: j.next_run,
                run_count: j.run_count,
                enabled: j.enabled,
            },
        );
        i += 1;
    }
    out
}

/// One line of the `cron_list` answer, at `now`.
pub open spec fn cron_line(info: CronEntryInfo, now: u64) -> Seq<char> {
    "\n"@ + (if info.enabled {
        "🟢"@
    } else {
        "🔴"@
    }) + " "@ + info.name@ + " — "@ + info.schedule@ + " (下次: "@ + dec(
        (if info.next_run > now {
            info.next_run - now
        } else {
            0
        }) as nat,
    ) + "秒后, 已跑 "@ + dec(info.run_count as nat) + " 次)"@
}

/// The lines of the `cron_list` answer.
pub open spec fn cron_lines(infos: Seq<CronEntryInfo>, now: u64) -> Seq<char>
    decreases infos.len(),
{
    if infos.len() == 0 {
        Seq::empty()
    } else {
        cron_lines(infos.drop_last(), now) + cron_line(infos.last(), now)
    }
}

/// The answer of the `cron_list` tool at `now`.
pub open spec fn cron_list_text(infos: Seq<CronEntryInfo>, now: u64) -> Seq<char> {
    if infos.len() == 0 {
        "暂无定时任务呢~"@
    } else {
        "定时任务（"@ + dec(infos.len()) + "）："@ + cron_lines(infos, now)
    }
}

fn cron_line_string(info: &CronEntryInfo, now: u64) -> (r: String)
    ensures
        r@ == cron_line(*info, now),
{
    let mut out = "\n".to_string();
    append_str(
        &mut out,
        if info.enabled {
            "🟢"
        } else {
            "🔴"
        },
    );
    append_str(&mut out, " ");
    append_str(&mut out, info.name.as_str());
    append_str(&mut out, " — ");
    append_str(&mut out, info.schedule.as_str());
    append_str(&mut out, " (下次: ");
    let left = if info.next_run > now {
        info.next_run - now
    } else {
        0
    };
    append_str(&mut out, u64_to_string(left).as_str());
    append_str(&mut out, "秒后, 已跑 ");
    append_str(&mut out, u64_to_string(info.run_count).as_str());
    append_str(&mut out, " 次)");
    assert(out@ =~= cron_line(*info, now));
    out
}

/// The `cron_list` answer for a job list, at `now`.
pub fn cron_list_answer(infos: &Vec<CronEntryInfo>, now: u64) -> (r: String)
    ensures
        r@ == cron_list_text(infos@, now),
{
    if infos.len() == 0 {
        return "暂无定时任务呢~".to_string();
    }
    let mut out = "定时任务（".to_string();
    append_str(&mut out, u64_to_string(infos.len() as u64).as_str());
    append_str(&mut out, "）：");
    let ghost head = out@;
    let mut i: usize = 0;
    while i < infos.len()
        invariant
            i <= infos@.len(),
            out@ == head + cron_lines(infos@.take(i as int), now),
        decreases infos@.len() - i,
    {
        let line = cron_line_string(&infos[i], now);
        append_str(&mut out, line.as_str());
        assert(infos@.take(i + 1).drop_last() == infos@.take(i as int));
        assert(infos@.take(i + 1).last() == infos@[i as int]);
        assert(out@ =~= head + cron_lines(infos@.take(i + 1), now));
        i += 1;
    }
    assert(infos@.take(infos@.len() as int) == infos@);
    out
}

/// The scheduled jobs.
#[derive(Debug)]
pub struct CronModule {
    jobs: Vec<CronJobState>,
}

impl View for CronModule {
    type V = Seq<CronJobState>;

    closed spec fn view(&self) -> Seq<CronJobState> {
        self.jobs@
    }
}

/// Whether `j` is a new, enabled job registered at `now`.
pub open spec fn new_job(
    j: CronJobState,
    name: Seq<char>,
    schedule: Schedule,
    channel: Seq<char>,
    now: u64,
) -> bool {
    &&& j.name@ == name
    &&& j.schedule == schedule
    &&& j.channel@ == channel
    &&& j.deliver_target is None
    &&& j.next_run == next_run_spec(schedule, now)
    &&& j.run_count == 0
    &&& j.enabled
}

impl CronModule {
    /// No jobs.
    pub fn new() -> (r: Self)
        ensures
            r@ == Seq::<CronJobState>::empty(),
    {
        CronModule { jobs: Vec::new() }
    }

    /// Adds an enabled job registered at `now`.
    pub fn add_job_at(
        &mut self,
        name: &str,
        schedule: Schedule,
        action: JobAction,
        channel: &str,
        now: u64,
    )
        requires
            next_run_fits(schedule, now),
        ensures
            final(self)@.len() == old(self)@.len() + 1,
            final(self)@.drop_last() == old(self)@,
            new_job(final(self)@.last(), name@, schedule, channel@, now),
            final(self)@.last().action == action,
    {
        let next_run = calc_next_run_at(&schedule, now);
        self.jobs.push(
            CronJobState {
                name: name.to_string(),
                schedule,
                action,
                channel: channel.to_string(),
                deliver_target: None,
                next_run,
                run_count: 0,
                enabled: true,
            },
        );
        assert(self.jobs@.drop_last() == old(self).jobs@);
    }

    /// Adds an enabled prompt job registered now; `None` (and nothing
    /// added) where its next run does not fit in a `u64`.
    pub fn add_job(&mut self, name: &str, schedule: Schedule, prompt: &str, channel: &str) -> (r: Option<()>)
        ensures
            exists|now: u64|
                {
                    &&& (r is Some <==> #[trigger] next_run_fits(schedule, now))
                    &&& r is None ==> final(self)@ == old(self)@
                    &&& r is Some ==> final(self)@.len() == old(self)@.len() + 1 && final(self)@.drop_last()
                        == old(self)@ && new_job(final(self)@.last(), name@, schedule, channel@, now)
                        && (final(self)@.last().action matches JobAction::Prompt(p) && p@ == prompt@)
                },
            (forall|t: u64| #[trigger] next_run_fits(schedule, t)) ==> r is Some,
    {
        let now = now_secs();
        if !next_run_fits_exec(&schedule, now) {
            assert(next_run_fits(schedule, now) == false);
            return None;
        }
        self.add_job_at(name, schedule, JobAction::Prompt(prompt.to_string()), channel, now);
        assert(next_run_fits(schedule, now));
        Some(())
    }

    /// Adds an enabled shell job registered now; `None` (and nothing added)
    /// where its next run does not fit in a `u64`.
    pub fn add_shell_job(&mut self, name: &str, schedule: Schedule, command: &str, channel: &str) -> (r: Option<()>)
        ensures
            exists|now: u64|
                {
                    &&& (r is Some <==> #[trigger] next_run_fits(schedule, now))
                    &&& r is None ==> final(self)@ == old(self)@
                    &&& r is Some ==> final(self)@.len() == old(self)@.len() + 1 && final(self)@.drop_last()
                        == old(self)@ && new_job(final(self)@.last(), name@, schedule, channel@, now)
                        && (final(self)@.last().action matches JobAction::Shell(c) && c@ == command@)
                },
            (forall|t: u64| #[trigger] next_run_fits(schedule, t)) ==> r is Some,
    {
        let now = now_secs();
        if !next_run_fits_exec(&schedule, now) {
            assert(next_run_fits(schedule, now) == false);
            return None;
        }
        self.add_job_at(name, schedule, JobAction::Shell(command.to_string()), channel, now);
        assert(next_run_fits(schedule, now));
        Some(())
    }

    /// The job list.
    pub fn list_jobs(&self) -> (r: Vec<CronEntryInfo>)
        ensures
            r@.len() == self@.len(),
            forall|i: int| 0 <= i < r@.len() ==> info_of(self@[i], #[trigger] r@[i]),
    {
        list_jobs(&self.jobs)
    }

    /// Replaces the jobs by those of the job file's entries, read at `now`.
    pub fn reload(&mut self, entries: &Vec<JsonValue>, now: u64)
        requires
            forall|i: int|
                0 <= i < entries@.len() ==> !entry_load_panics(#[trigger] entries@[i], now),
        ensures
            final(self)@.len() == entries@.len(),
            forall|i: int|
                0 <= i < entries@.len() ==> job_from_entry_spec(entries@[i], now, #[trigger] final(self)@[i]),
    {
        self.jobs = jobs_from_entries(entries, now);
    }

    /// Fires the jobs due at `now` (see [`tick`]).
    pub fn tick_at(&mut self, now: u64) -> (r: Vec<Firing>)
        requires
            !tick_panics(old(self)@, now),
        ensures
            final(self)@.len() == old(self)@.len(),
            forall|i: int|
                0 <= i < final(self)@.len() ==> #[trigger] final(self)@[i] == if job_due(
                    old(self)@[i],
                    now,
                ) {
                    ticked(old(self)@[i], now)
                } else {
                    old(self)@[i]
                },
            r@.len() == due_jobs(old(self)@, now).len(),
            forall|k: int|
                0 <= k < r@.len() ==> firing_of(due_jobs(old(self)@, now)[k], now, #[trigger] r@[k]),
    {
        tick(&mut self.jobs, now)
    }

    /// Runs the module's tool `cron_list` at `now`.
    pub fn execute_tool_at(&self, name: &str, now: u64) -> (r: Result<String, ModuleError>)
        ensures
            name@ == "cron_list"@ ==> exists|infos: Seq<CronEntryInfo>|
                infos.len() == self@.len() && (forall|i: int|
                    0 <= i < infos.len() ==> info_of(self@[i], #[trigger] infos[i]))
                    && crate::module::ok_with(r, cron_list_text(infos, now)),
            name@ != "cron_list"@ ==> (r matches Err(ModuleError::ToolNotFound(n)) && n@ == name@),
    {
        if str_eq(name, "cron_list") {
            let infos = self.list_jobs();
            Ok(cron_list_answer(&infos, now))
        } else {
            Err(ModuleError::ToolNotFound(name.to_string()))
        }
    }
}

// ─── Panic checks ────────────────────────────────

fn schedule_overflows_exec(s: &str) -> (r: bool)
    ensures
        r == schedule_parse_overflows(s@),
{
    let c = to_chars(s);
    let parts = split_words(c.as_slice());
    let ghost ps = pieces_view(parts@);
    assert(forall|k: int| 0 <= k < parts@.len() ==> #[trigger] ps[k] == parts@[k]@);
    if parts.len() >= 6 && is_text(&parts[0], "0") && begins_with(&parts[1], "*/") {
        let n = count_field(parts[1].as_slice(), 30);
        return n > u64::MAX / 60;
    }
    if parts.len() >= 6 && is_text(&parts[0], "0") && is_text(&parts[1], "0") && begins_with(
        &parts[2],
        "*/",
    ) {
        let n = count_field(parts[2].as_slice(), 1);
        return n > u64::MAX / 3600;
    }
    false
}

/// Whether loading a job entry at `now` would panic (see
/// [`entry_load_panics`]).
pub fn entry_would_panic(entry: &JsonValue, now: u64) -> (r: bool)
    ensures
        r == entry_load_panics(*entry, now),
{
    proof {
        reveal_strlit("");
        assert(""@ =~= Seq::<char>::empty());
    }
    let sched_str = match entry_str(entry, "schedule") {
        Some(t) => t,
        None => "",
    };
    if schedule_overflows_exec(sched_str) {
        return true;
    }
    let has_next = match entry.get("next_run") {
        Some(v) => v.as_u64().is_some(),
        None => false,
    };
    if has_next {
        return false;
    }
    let sched = parse_schedule_str(sched_str);
    proof {
        lemma_parsed_next_run(sched_str@, sched, now);
    }
    !next_run_fits_exec(&sched, now)
}

/// Whether a tick at `now` would panic (see [`tick_panics`]).
pub fn tick_would_panic(jobs: &Vec<CronJobState>, now: u64) -> (r: bool)
    ensures
        r == tick_panics(jobs@, now),
{
    let mut i: usize = 0;
    while i < jobs.len()
        invariant
            i <= jobs@.len(),
            forall|k: int|
                0 <= k < i ==> !(job_due(#[trigger] jobs@[k], now) && (!next_run_fits(
                    jobs@[k].schedule,
                    now,
                ) || jobs@[k].run_count == u64::MAX)),
        decreases jobs@.len() - i,
    {
        let j = &jobs[i];
        if j.enabled && j.next_run <= now && (!next_run_fits_exec(&j.schedule, now) || j.run_count
            == u64::MAX) {
            assert(job_due(jobs@[i as int], now));
            return true;
        }
        i += 1;
    }
    false
}

impl CronModule {
    /// Whether a tick at `now` would panic (see [`tick_panics`]).
    pub fn tick_would_panic(&self, now: u64) -> (r: bool)
        ensures
            r == tick_panics(self@, now),
    {
        tick_would_panic(&self.jobs, now)
    }
}

impl CronModule {
    /// The module's one tool, `cron_list`, which takes no parameters.
    pub fn tool_definitions(&self) -> (r: Vec<crate::llm::ToolDefinition>)
        ensures
            r@.len() == 1,
            crate::schema::tool_of(r@[0], "cron_list"@, "列出所有已注册的定时任务"@, Seq::empty(), Some(Seq::empty())),
    {
        let schema = crate::schema::object_schema(Vec::new(), Some(Vec::new()));
        assert(crate::schema::texts(Seq::<String>::empty()) =~= Seq::<Seq<char>>::empty());
        let mut v: Vec<crate::llm::ToolDefinition> = Vec::new();
        v.push(crate::schema::function_tool("cron_list", "列出所有已注册的定时任务", schema));
        v
    }
}

/// Reading some entry at `now` would overflow (see [`entry_load_panics`]).
pub open spec fn some_entry_overflows(entries: Seq<JsonValue>, now: u64) -> bool {
    exists|i: int| 0 <= i < entries.len() && entry_load_panics(#[trigger] entries[i], now)
}

/// What became of the job file's text.
#[derive(Debug, PartialEq, Eq, Structural)]
pub enum JobFileLoad {
    /// The jobs are now those of the file's entries.
    Loaded,
    /// The text is not a JSON array: the jobs stay as they were.
    Unparsed,
    /// Reading some entry's schedule or next run would overflow: the jobs
    /// stay as they were.
    Overflows,
}

impl CronModule {
    /// Replaces the jobs by those of the job file, given as its text and
    /// read at `now`; a text that is not a JSON array changes nothing.
    pub fn load_from_json(&mut self, content: &str, now: u64) -> (r: JobFileLoad)
        ensures
            match crate::json::parsed_json_array(content@) {
                None => r == JobFileLoad::Unparsed && final(self)@ == old(self)@,
                Some(entries) => if some_entry_overflows(entries, now) {
                    r == JobFileLoad::Overflows && final(self)@ == old(self)@
                } else {
                    r == JobFileLoad::Loaded && final(self)@.len() == entries.len() && forall|i: int|
                        0 <= i < entries.len() ==> job_from_entry_spec(entries[i], now, #[trigger] final(self)@[i])
                },
            },
    {
        let entries = match crate::json::parse_json_array(content) {
            Some(v) => v,
            None => return JobFileLoad::Unparsed,
        };
        let mut i: usize = 0;
        while i < entries.len()
            invariant
                i <= entries@.len(),
                crate::json::parsed_json_array(content@) == Some(entries@),
                forall|k: int| 0 <= k < i ==> !entry_load_panics(#[trigger] entries@[k], now),
            decreases entries@.len() - i,
        {
            if entry_would_panic(&entries[i], now) {
                assert(entry_load_panics(entries@[i as int], now));
                assert(some_entry_overflows(entries@, now));
                return JobFileLoad::Overflows;
            }
            i += 1;
        }
        self.reload(&entries, now);
        JobFileLoad::Loaded
    }
}

/// The job file's entries, from its text, with the run of job `name` at
/// `now` recorded as [`mark_run`] does; nothing where the text is not a JSON
/// array.
pub fn mark_run_in_json(content: &str, name: &str, now: u64, next: u64) -> (r: Option<Vec<JsonValue>>)
    ensures
        match crate::json::parsed_json_array(content@) {
            None => r is None,
            Some(entries) => r matches Some(v) && v@.len() == entries.len() && forall|i: int|
                0 <= i < entries.len() ==> if entry_named(entries[i], name@) {
                    marked_entry(entries[i], #[trigger] v@[i], now, next)
                } else {
                    v@[i] == entries[i]
                },
        },
{
    match crate::json::parse_json_array(content) {
        Some(v) => {
            let mut entries = v;
            mark_run(&mut entries, name, now, next);
            Some(entries)
        },
        None => None,
    }
}

} // verus!
