//! How much of the agent's limits is used, and how that is told.

use vstd::prelude::*;
use vstd::string::StringExecFns;

use crate::codex_reset_ledger::EstimateView;
use crate::codex_reset_ledger::ResetCreditEstimate;
use crate::config;
use crate::config::Config;
use crate::config::ConfigView;
use crate::decimal;
use crate::formats;
use crate::html;
use crate::json;
use crate::json::Json;
use crate::json::JsonView;
use crate::outside;
use crate::text;
use crate::times;
use crate::times::Moment;
use crate::web;
use crate::web::Reply;
use crate::web::ReplyView;

verus! {

/// A window of time with a limit of its own. The share that is used is kept as
/// the number's text, where it was told.
#[derive(Debug)]
pub struct CodexRateWindow {
    pub label: String,
    pub used_percent: Option<String>,
    pub window_minutes: i64,
    pub resets_at: Option<i64>,
}

/// The credits with which a limit can be reset.
#[derive(Debug)]
pub struct CodexResetCreditsSummary {
    pub available_count: i64,
    pub estimate: Option<ResetCreditEstimate>,
}

/// The usage at one time.
#[derive(Debug)]
pub struct CodexUsageSnapshot {
    pub observed_at: String,
    pub plan_type: String,
    pub total_units: i64,
    pub last_units: i64,
    pub cached_input_units: i64,
    pub context_window: i64,
    pub primary: Option<CodexRateWindow>,
    pub secondary: Option<CodexRateWindow>,
    pub credits: Option<String>,
    pub reset_credits: Option<CodexResetCreditsSummary>,
}

/// The shares of a window in whole percent, as they are shown.
#[derive(Debug)]
pub struct Percents {
    pub remaining: String,
    pub used: String,
}

#[verifier::ext_equal]
pub struct WindowView {
    pub label: Seq<char>,
    pub used_percent: Option<Seq<char>>,
    pub window_minutes: i64,
    pub resets_at: Option<i64>,
}

#[verifier::ext_equal]
pub struct CreditsView {
    pub available_count: i64,
    pub estimate: Option<EstimateView>,
}

#[verifier::ext_equal]
pub struct UsageView {
    pub observed_at: Seq<char>,
    pub plan_type: Seq<char>,
    pub total_units: i64,
    pub last_units: i64,
    pub cached_input_units: i64,
    pub context_window: i64,
    pub primary: Option<WindowView>,
    pub secondary: Option<WindowView>,
    pub credits: Option<Seq<char>>,
    pub reset_credits: Option<CreditsView>,
}

impl View for CodexRateWindow {
    type V = WindowView;

    open spec fn view(&self) -> WindowView {
        WindowView {
            label: self.label@,
            used_percent: text::opt_text(self.used_percent),
            window_minutes: self.window_minutes,
            resets_at: self.resets_at,
        }
    }
}

impl View for CodexResetCreditsSummary {
    type V = CreditsView;

    open spec fn view(&self) -> CreditsView {
        CreditsView {
            available_count: self.available_count,
            estimate: match self.estimate {
                Some(estimate) => Some(estimate@),
                None => None,
            },
        }
    }
}

pub open spec fn opt_window(window: Option<CodexRateWindow>) -> Option<WindowView> {
    match window {
        Some(window) => Some(window@),
        None => None,
    }
}

pub open spec fn opt_credits(credits: Option<CodexResetCreditsSummary>) -> Option<CreditsView> {
    match credits {
        Some(credits) => Some(credits@),
        None => None,
    }
}

pub open spec fn opt_usage(usage: Option<CodexUsageSnapshot>) -> Option<UsageView> {
    match usage {
        Some(usage) => Some(usage@),
        None => None,
    }
}

impl View for CodexUsageSnapshot {
    type V = UsageView;

    open spec fn view(&self) -> UsageView {
        UsageView {
            observed_at: self.observed_at@,
            plan_type: self.plan_type@,
            total_units: self.total_units,
            last_units: self.last_units,
            cached_input_units: self.cached_input_units,
            context_window: self.context_window,
            primary: opt_window(self.primary),
            secondary: opt_window(self.secondary),
            credits: text::opt_text(self.credits),
            reset_credits: opt_credits(self.reset_credits),
        }
    }
}

// ---------------------------------------------------------------------------
// Reading
// ---------------------------------------------------------------------------

/// A number's text.
pub open spec fn number_text(value: Option<JsonView>) -> Option<Seq<char>> {
    match value {
        Some(JsonView::Number(_, s)) => Some(s),
        _ => None,
    }
}

pub open spec fn integer_of(value: Option<JsonView>) -> Option<i64> {
    match value {
        Some(value) => value.as_integer(),
        None => None,
    }
}

pub open spec fn integer_or(value: Option<i64>, other: i64) -> i64 {
    match value {
        Some(value) => value,
        None => other,
    }
}

/// The window that a value describes, in either of two spellings.
pub open spec fn window_of(label: Seq<char>, value: Option<JsonView>) -> Option<WindowView> {
    match value {
        None => None,
        Some(value) => Some(
            WindowView {
                label,
                used_percent: number_text(value.get_either("used_percent"@, "usedPercent"@)),
                window_minutes: integer_or(
                    integer_of(value.get_either("window_minutes"@, "windowDurationMins"@)),
                    0,
                ),
                resets_at: integer_of(value.get_either("resets_at"@, "resetsAt"@)),
            },
        ),
    }
}

fn number_in(value: Option<&Json>) -> (res: Option<String>)
    ensures
        text::opt_text(res) == number_text(json::opt_json(value)),
{
    match value {
        Some(Json::Number(_, s)) => Some(s.clone()),
        _ => None,
    }
}

fn integer_in(value: Option<&Json>) -> (res: Option<i64>)
    ensures
        res == integer_of(json::opt_json(value)),
{
    match value {
        Some(value) => value.as_i64(),
        None => None,
    }
}

fn or_integer(value: Option<i64>, other: i64) -> (res: i64)
    ensures
        res == integer_or(value, other),
{
    match value {
        Some(value) => value,
        None => other,
    }
}

pub fn codex_rate_window(label: &str, value: Option<&Json>) -> (res: Option<CodexRateWindow>)
    ensures
        opt_window(res) == window_of(label@, json::opt_json(value)),
{
    match value {
        None => None,
        Some(value) => Some(
            CodexRateWindow {
                label: label.to_owned(),
                used_percent: number_in(value.get_or("used_percent", "usedPercent")),
                window_minutes: or_integer(
                    integer_in(value.get_or("window_minutes", "windowDurationMins")),
                    0,
                ),
                resets_at: integer_in(value.get_or("resets_at", "resetsAt")),
            },
        ),
    }
}

/// The text that a value is written as; nothing for null and for texts.
pub open spec fn written(value: JsonView) -> Seq<char> {
    match value {
        JsonView::Bool(b) => if b {
            "true"@
        } else {
            "false"@
        },
        JsonView::Number(_, s) => s,
        JsonView::List(_, s) => s,
        JsonView::Object(_, s) => s,
        _ => ""@,
    }
}

/// What is told of the credits that were bought.
pub open spec fn credits_text(value: Option<JsonView>) -> Option<Seq<char>> {
    match value {
        None => None,
        Some(JsonView::Null) => None,
        Some(JsonView::Text(s)) => Some(s),
        Some(value) => match value.text_at("balance"@) {
            Some(balance) => if value.get("unlimited"@) == Some(JsonView::Bool(true)) {
                Some("unlimited"@)
            } else {
                Some(balance)
            },
            None => Some(written(value)),
        },
    }
}

fn write_value(value: &Json) -> (res: String)
    ensures
        res@ == written(value.view()),
{
    match value {
        Json::Bool(b) => if *b {
            "true".to_owned()
        } else {
            "false".to_owned()
        },
        Json::Number(_, s) => s.clone(),
        Json::List(_, s) => s.clone(),
        Json::Object(_, s) => s.clone(),
        _ => "".to_owned(),
    }
}

pub fn codex_credits_text(value: Option<&Json>) -> (res: Option<String>)
    ensures
        text::opt_text(res) == credits_text(json::opt_json(value)),
{
    match value {
        None => None,
        Some(Json::Null) => None,
        Some(Json::Text(s)) => Some(s.clone()),
        Some(value) => match value.text_of("balance") {
            Some(balance) => {
                let unlimited = match value.get("unlimited") {
                    Some(Json::Bool(b)) => *b,
                    _ => false,
                };
                if unlimited {
                    Some("unlimited".to_owned())
                } else {
                    Some(balance.to_owned())
                }
            },
            None => Some(write_value(value)),
        },
    }
}

/// The reset credits that a value tells of.
pub open spec fn reset_credits(value: Option<JsonView>) -> Option<CreditsView> {
    match value {
        None => None,
        Some(value) => match integer_of(value.get_either("available_count"@, "availableCount"@)) {
            Some(available_count) => Some(CreditsView { available_count, estimate: None }),
            None => None,
        },
    }
}

pub fn codex_reset_credits_summary(value: Option<&Json>) -> (res: Option<CodexResetCreditsSummary>)
    ensures
        opt_credits(res) == reset_credits(json::opt_json(value)),
{
    match value {
        None => None,
        Some(value) => match integer_in(value.get_or("available_count", "availableCount")) {
            Some(available_count) => Some(
                CodexResetCreditsSummary { available_count, estimate: None },
            ),
            None => None,
        },
    }
}

fn or_text(value: Option<&str>, other: &str) -> (res: String)
    ensures
        res@ == text::text_or(text::opt_str(value), other@),
{
    match value {
        Some(value) => value.to_owned(),
        None => other.to_owned(),
    }
}

/// Where an event tells of reset credits: with the limits, in either of two
/// spellings, or beside them.
pub open spec fn credits_place(limits: JsonView, payload: JsonView) -> Option<JsonView> {
    match limits.get_either("rate_limit_reset_credits"@, "rateLimitResetCredits"@) {
        Some(value) => Some(value),
        None => payload.get_either("rate_limit_reset_credits"@, "rateLimitResetCredits"@),
    }
}

/// The usage that an event tells of.
pub open spec fn usage_of(observed_at: Seq<char>, payload: JsonView) -> UsageView {
    let info = payload.at("info"@);
    let limits = payload.at("rate_limits"@);
    let total = info.at("total_token_usage"@);
    let last = info.at("last_token_usage"@);
    UsageView {
        observed_at,
        plan_type: text::text_or(limits.text_at("plan_type"@), "unknown"@),
        total_units: integer_or(total.integer_at("total_tokens"@), 0),
        last_units: integer_or(last.integer_at("total_tokens"@), 0),
        cached_input_units: integer_or(total.integer_at("cached_input_tokens"@), 0),
        context_window: integer_or(info.integer_at("model_context_window"@), 0),
        primary: window_of("Primary"@, limits.get("primary"@)),
        secondary: window_of("Secondary"@, limits.get("secondary"@)),
        credits: credits_text(limits.get("credits"@)),
        reset_credits: reset_credits(credits_place(limits, payload)),
    }
}

pub fn codex_usage_from_payload(observed_at: &str, payload: &Json) -> (res: CodexUsageSnapshot)
    ensures
        res@ == usage_of(observed_at@, payload.view()),
{
    let null = Json::Null;
    let info = match payload.get("info") {
        Some(value) => value,
        None => &null,
    };
    let limits = match payload.get("rate_limits") {
        Some(value) => value,
        None => &null,
    };
    let total = match info.get("total_token_usage") {
        Some(value) => value,
        None => &null,
    };
    let last = match info.get("last_token_usage") {
        Some(value) => value,
        None => &null,
    };
    let place = match limits.get_or("rate_limit_reset_credits", "rateLimitResetCredits") {
        Some(value) => Some(value),
        None => payload.get_or("rate_limit_reset_credits", "rateLimitResetCredits"),
    };
    CodexUsageSnapshot {
        observed_at: observed_at.to_owned(),
        plan_type: or_text(limits.text_of("plan_type"), "unknown"),
        total_units: or_integer(total.integer_of("total_tokens"), 0),
        last_units: or_integer(last.integer_of("total_tokens"), 0),
        cached_input_units: or_integer(total.integer_of("cached_input_tokens"), 0),
        context_window: or_integer(info.integer_of("model_context_window"), 0),
        primary: codex_rate_window("Primary", limits.get("primary")),
        secondary: codex_rate_window("Secondary", limits.get("secondary")),
        credits: codex_credits_text(limits.get("credits")),
        reset_credits: codex_reset_credits_summary(place),
    }
}

/// The usage that a line of a session tells of, where it is an event that counts tokens.
pub open spec fn usage_event(value: JsonView) -> Option<UsageView> {
    let payload = value.at("payload"@);
    if value.text_at("type"@) == Some("event_msg"@) && payload.text_at("type"@) == Some(
        "token_count"@,
    ) {
        Some(usage_of(text::text_or(value.text_at("timestamp"@), ""@), payload))
    } else {
        None
    }
}

/// Of two usages the later one; the first where their times are equal.
pub open spec fn later(first: Option<UsageView>, second: Option<UsageView>) -> Option<UsageView> {
    match (first, second) {
        (Some(a), Some(b)) => if text::precedes(a.observed_at, b.observed_at) {
            second
        } else {
            first
        },
        (None, _) => second,
        (_, None) => first,
    }
}

/// The latest usage that the lines of a session tell of.
pub open spec fn latest_usage(values: Seq<JsonView>) -> Option<UsageView>
    decreases values.len(),
{
    if values.len() == 0 {
        None
    } else {
        later(latest_usage(values.drop_last()), usage_event(values.last()))
    }
}

fn read_usage_event(value: &Json) -> (res: Option<CodexUsageSnapshot>)
    ensures
        opt_usage(res) == usage_event(value.view()),
{
    if !json::text_is(value, "type", "event_msg") {
        return None;
    }
    let null = Json::Null;
    let payload = match value.get("payload") {
        Some(payload) => payload,
        None => &null,
    };
    if !json::text_is(payload, "type", "token_count") {
        return None;
    }
    let observed_at = or_text(value.text_of("timestamp"), "");
    Some(codex_usage_from_payload(observed_at.as_str(), payload))
}

/// Of two usages the later one; the first where their times are equal.
pub fn later_usage(first: Option<CodexUsageSnapshot>, second: Option<CodexUsageSnapshot>) -> (res:
    Option<CodexUsageSnapshot>)
    ensures
        opt_usage(res) == later(opt_usage(first), opt_usage(second)),
{
    match first {
        None => second,
        Some(a) => match second {
            None => Some(a),
            Some(b) => if text::before(a.observed_at.as_str(), b.observed_at.as_str()) {
                Some(b)
            } else {
                Some(a)
            },
        },
    }
}

pub fn latest_codex_usage(values: &Vec<Json>) -> (res: Option<CodexUsageSnapshot>)
    ensures
        opt_usage(res) == latest_usage(json::list_views(values@)),
{
    let ghost all = json::list_views(values@);
    let mut latest: Option<CodexUsageSnapshot> = None;
    let mut i: usize = 0;
    while i < values.len()
        invariant
            i <= values@.len(),
            all == json::list_views(values@),
            opt_usage(latest) == latest_usage(all.take(i as int)),
        decreases values@.len() - i,
    {
        assert(all.take(i + 1).drop_last() =~= all.take(i as int));
        latest = later_usage(latest, read_usage_event(&values[i]));
        i += 1;
    }
    assert(all.take(i as int) =~= all);
    latest
}

/// The usage before anything is known.
pub open spec fn unknown_usage(now: Seq<char>) -> UsageView {
    UsageView {
        observed_at: now,
        plan_type: "unknown"@,
        total_units: 0,
        last_units: 0,
        cached_input_units: 0,
        context_window: 0,
        primary: None,
        secondary: None,
        credits: None,
        reset_credits: None,
    }
}

pub open spec fn first_some<T>(first: Option<T>, second: Option<T>) -> Option<T> {
    match first {
        Some(value) => Some(value),
        None => second,
    }
}

/// The usage with what the service answers at `now`; what it does not tell stays.
pub open spec fn merged(
    usage: Option<UsageView>,
    answer: Option<JsonView>,
    now: Seq<char>,
) -> Option<UsageView> {
    match answer {
        None => usage,
        Some(answer) => {
            let limits = match answer.get_either("rateLimits"@, "rate_limits"@) {
                Some(value) => value,
                None => JsonView::Null,
            };
            let usage = match usage {
                Some(usage) => usage,
                None => unknown_usage(now),
            };
            let plan = match limits.get_either("planType"@, "plan_type"@) {
                Some(value) => value.as_text(),
                None => None,
            };
            Some(
                UsageView {
                    observed_at: now,
                    plan_type: text::text_or(plan, usage.plan_type),
                    primary: first_some(
                        window_of("Primary"@, limits.get("primary"@)),
                        usage.primary,
                    ),
                    secondary: first_some(
                        window_of("Secondary"@, limits.get("secondary"@)),
                        usage.secondary,
                    ),
                    credits: first_some(credits_text(limits.get("credits"@)), usage.credits),
                    reset_credits: first_some(
                        reset_credits(
                            answer.get_either(
                                "rateLimitResetCredits"@,
                                "rate_limit_reset_credits"@,
                            ),
                        ),
                        usage.reset_credits,
                    ),
                    ..usage
                },
            )
        },
    }
}

pub fn merge_codex_rate_limit_status(
    usage: Option<CodexUsageSnapshot>,
    answer: Option<&Json>,
    now: &str,
) -> (res: Option<CodexUsageSnapshot>)
    ensures
        opt_usage(res) == merged(opt_usage(usage), json::opt_json(answer), now@),
{
    let answer = match answer {
        Some(answer) => answer,
        None => {
            return usage;
        },
    };
    let null = Json::Null;
    let limits = match answer.get_or("rateLimits", "rate_limits") {
        Some(value) => value,
        None => &null,
    };
    let usage = match usage {
        Some(usage) => usage,
        None => CodexUsageSnapshot {
            observed_at: now.to_owned(),
            plan_type: "unknown".to_owned(),
            total_units: 0,
            last_units: 0,
            cached_input_units: 0,
            context_window: 0,
            primary: None,
            secondary: None,
            credits: None,
            reset_credits: None,
        },
    };
    let plan = match limits.get_or("planType", "plan_type") {
        Some(value) => value.as_str(),
        None => None,
    };
    let primary = match codex_rate_window("Primary", limits.get("primary")) {
        Some(window) => Some(window),
        None => usage.primary,
    };
    let secondary = match codex_rate_window("Secondary", limits.get("secondary")) {
        Some(window) => Some(window),
        None => usage.secondary,
    };
    let credits = match codex_credits_text(limits.get("credits")) {
        Some(credits) => Some(credits),
        None => usage.credits,
    };
    let told = codex_reset_credits_summary(
        answer.get_or("rateLimitResetCredits", "rate_limit_reset_credits"),
    );
    let reset_credits = match told {
        Some(told) => Some(told),
        None => usage.reset_credits,
    };
    Some(
        CodexUsageSnapshot {
            observed_at: now.to_owned(),
            plan_type: or_text(plan, usage.plan_type.as_str()),
            total_units: usage.total_units,
            last_units: usage.last_units,
            cached_input_units: usage.cached_input_units,
            context_window: usage.context_window,
            primary,
            secondary,
            credits,
            reset_credits,
        },
    )
}

/// The usage with an estimate of when its reset credits expire.
pub open spec fn with_estimate(usage: UsageView, estimate: EstimateView) -> UsageView {
    UsageView {
        reset_credits: match usage.reset_credits {
            Some(credits) => Some(CreditsView { estimate: Some(estimate), ..credits }),
            None => None,
        },
        ..usage
    }
}

/// Adds an estimate to the reset credits, where there are any.
pub fn attach_reset_credit_estimate(usage: &mut CodexUsageSnapshot, estimate: ResetCreditEstimate)
    ensures
        final(usage)@ == with_estimate(old(usage)@, estimate@),
{
    let available_count = match &usage.reset_credits {
        Some(credits) => credits.available_count,
        None => {
            return;
        },
    };
    usage.reset_credits =
    Some(CodexResetCreditsSummary { available_count, estimate: Some(estimate) });
}

// ---------------------------------------------------------------------------
// Telling
// ---------------------------------------------------------------------------

/// The end of a time that is told in seconds, in short.
pub open spec fn reset_text(resets_at: Option<i64>, now: Moment) -> Seq<char> {
    match resets_at {
        Some(epoch) => match times::epoch_text(epoch) {
            Some(stamp) => times::short_time_text(stamp, times::read_moment(stamp), now),
            None => "unknown"@,
        },
        None => "unknown"@,
    }
}

fn reset_label(resets_at: Option<i64>, now: &Moment) -> (res: String)
    requires
        now.valid(),
    ensures
        res@ == reset_text(resets_at, *now),
{
    match resets_at {
        Some(epoch) => match times::epoch_to_rfc3339(epoch) {
            Some(stamp) => times::short_time_at(stamp.as_str(), now),
            None => "unknown".to_owned(),
        },
        None => "unknown".to_owned(),
    }
}

pub open spec fn card_text(
    fallback: Seq<char>,
    window: Option<WindowView>,
    percents: Percents,
    reset: Seq<char>,
) -> Seq<char> {
    match window {
        None => "<section class=\"usage-card\"><strong>"@ + fallback
            + "</strong><span class=\"muted\">not reported</span></section>"@,
        Some(window) => "<section class=\"usage-card\"><strong>"@ + html::escaped(window.label)
            + "</strong><span>"@ + percents.remaining@ + "% remaining · "@ + percents.used@
            + "% used</span><div class=\"meter\" title=\""@ + percents.remaining@
            + "% remaining\"><span style=\"width:"@ + percents.remaining@
            + "%\"></span></div><span class=\"muted\">"@ + html::escaped(
            formats::window_text(window.window_minutes as int),
        ) + " window · resets "@ + html::escaped(reset) + "</span></section>"@,
    }
}

/// A card of one window, given how the time of its reset is told.
pub fn window_card(
    fallback: &str,
    window: Option<&CodexRateWindow>,
    percents: &Percents,
    reset: &str,
) -> (res: String)
    ensures
        res@ == card_text(fallback@, match window {
            Some(window) => Some(window@),
            None => None,
        }, *percents, reset@),
{
    let mut out = String::from_str("<section class=\"usage-card\"><strong>");
    match window {
        None => {
            out.append(fallback);
            out.append("</strong><span class=\"muted\">not reported</span></section>");
        },
        Some(window) => {
            out.append(html::html_escape(window.label.as_str()).as_str());
            out.append("</strong><span>");
            out.append(percents.remaining.as_str());
            out.append("% remaining · ");
            out.append(percents.used.as_str());
            out.append("% used</span><div class=\"meter\" title=\"");
            out.append(percents.remaining.as_str());
            out.append("% remaining\"><span style=\"width:");
            out.append(percents.remaining.as_str());
            out.append("%\"></span></div><span class=\"muted\">");
            let length = formats::usage_window_duration(window.window_minutes);
            out.append(html::html_escape(length.as_str()).as_str());
            out.append(" window · resets ");
            out.append(html::html_escape(reset).as_str());
            out.append("</span></section>");
        },
    }
    out
}

pub open spec fn line_text(fallback: Seq<char>, window: Option<WindowView>, reset: Seq<char>) -> Seq<
    char,
> {
    match window {
        None => "<span>"@ + fallback + ": not reported</span>"@,
        Some(window) => "<span>"@ + html::escaped(window.label) + ": "@ + html::escaped(
            formats::window_text(window.window_minutes as int),
        ) + " window resets "@ + html::escaped(reset) + "</span>"@,
    }
}

/// A line on the reset of one window, given how its time is told.
pub fn reset_line(fallback: &str, window: Option<&CodexRateWindow>, reset: &str) -> (res: String)
    ensures
        res@ == line_text(fallback@, match window {
            Some(window) => Some(window@),
            None => None,
        }, reset@),
{
    let mut out = String::from_str("<span>");
    match window {
        None => {
            out.append(fallback);
            out.append(": not reported</span>");
        },
        Some(window) => {
            out.append(html::html_escape(window.label.as_str()).as_str());
            out.append(": ");
            let length = formats::usage_window_duration(window.window_minutes);
            out.append(html::html_escape(length.as_str()).as_str());
            out.append(" window resets ");
            out.append(html::html_escape(reset).as_str());
            out.append("</span>");
        },
    }
    out
}

pub open spec fn window_reset(window: Option<WindowView>, now: Moment) -> Seq<char> {
    match window {
        Some(window) => reset_text(window.resets_at, now),
        None => "unknown"@,
    }
}

fn window_reset_label(window: Option<&CodexRateWindow>, now: &Moment) -> (res: String)
    requires
        now.valid(),
    ensures
        res@ == window_reset(match window {
            Some(window) => Some(window@),
            None => None,
        }, *now),
{
    match window {
        Some(window) => reset_label(window.resets_at, now),
        None => "unknown".to_owned(),
    }
}

pub fn usage_window_card(
    fallback: &str,
    window: Option<&CodexRateWindow>,
    percents: &Percents,
    now: &Moment,
) -> (res: String)
    requires
        now.valid(),
    ensures
        ({
            let seen = match window {
                Some(window) => Some(window@),
                None => None,
            };
            res@ == card_text(fallback@, seen, *percents, window_reset(seen, *now))
        }),
{
    let reset = window_reset_label(window, now);
    window_card(fallback, window, percents, reset.as_str())
}

pub fn usage_reset_line(fallback: &str, window: Option<&CodexRateWindow>, now: &Moment) -> (res:
    String)
    requires
        now.valid(),
    ensures
        ({
            let seen = match window {
                Some(window) => Some(window@),
                None => None,
            };
            res@ == line_text(fallback@, seen, window_reset(seen, *now))
        }),
{
    let reset = window_reset_label(window, now);
    reset_line(fallback, window, reset.as_str())
}

/// How many credits there are.
pub open spec fn count_text(count: int) -> Seq<char> {
    decimal::decimal(count) + " "@ + if count == 1 {
        "credit"@
    } else {
        "credits"@
    } + " available"@
}

/// What is told of the credits that the ledger saw arrive.
pub open spec fn followed_text(count: int, next: Option<Seq<char>>) -> Seq<char> {
    let head = decimal::decimal(count) + " "@ + if count == 1 {
        "tracked credit"@
    } else {
        "tracked credits"@
    };
    match next {
        Some(next) => head + " · next expires "@ + next,
        None => head,
    }
}

/// What is told of the credits that were there before the ledger.
pub open spec fn earlier_text(count: int) -> Seq<char> {
    decimal::decimal(count) + " "@ + if count == 1 {
        "existing credit"@
    } else {
        "existing credits"@
    } + " from before tracking; expiry unknown"@
}

/// What is told of the reset credits, given how the next expiry is told.
pub open spec fn credit_text(credits: Option<CreditsView>, next: Option<Seq<char>>) -> Seq<char> {
    match credits {
        None => "not reported by Codex"@,
        Some(credits) => {
            let count = count_text(credits.available_count as int);
            match credits.estimate {
                None => count + " · local expiry tracking not initialized yet"@,
                Some(e) => text::joined(
                    seq![count] + text::when(e.followed > 0, followed_text(e.followed, next)) + text::when(
                        e.unfollowed > 0,
                        earlier_text(e.unfollowed),
                    ) + text::when(
                        e.followed == 0 && e.unfollowed == 0,
                        "tracking future grants"@,
                    ),
                    " · "@,
                ),
            }
        },
    }
}

/// How the next expiry of a credit is told.
pub open spec fn next_expiry(credits: Option<CreditsView>, now: Moment) -> Option<Seq<char>> {
    match credits {
        Some(credits) => match credits.estimate {
            Some(e) => match e.next_expires_at {
                Some(stamp) => Some(
                    times::short_time_text(stamp, times::read_moment(stamp), now),
                ),
                None => None,
            },
            None => None,
        },
        None => None,
    }
}

fn count_label(count: i64) -> (res: String)
    ensures
        res@ == count_text(count as int),
{
    let mut out = decimal::integer_text(count);
    out.append(" ");
    if count == 1 {
        out.append("credit");
    } else {
        out.append("credits");
    }
    out.append(" available");
    out
}

/// Tells of the reset credits, given how the next expiry is told.
pub fn reset_credit_text(credits: Option<&CodexResetCreditsSummary>, next: Option<&str>) -> (res:
    String)
    ensures
        res@ == credit_text(match credits {
            Some(credits) => Some(credits@),
            None => None,
        }, text::opt_str(next)),
{
    let credits = match credits {
        Some(credits) => credits,
        None => {
            return "not reported by Codex".to_owned();
        },
    };
    let count = count_label(credits.available_count);
    let estimate = match &credits.estimate {
        Some(estimate) => estimate,
        None => {
            let mut out = count;
            out.append(" · local expiry tracking not initialized yet");
            return out;
        },
    };
    let ghost e = estimate@;
    let mut parts: Vec<String> = Vec::new();
    text::push_text(&mut parts, count);
    assert(text::texts(parts@) =~= seq![count@]);
    if estimate.tracked_available_count > 0 {
        let mut part = decimal::integer_text(estimate.tracked_available_count);
        part.append(" ");
        if estimate.tracked_available_count == 1 {
            part.append("tracked credit");
        } else {
            part.append("tracked credits");
        }
        if let Some(next) = next {
            part.append(" · next expires ");
            part.append(next);
        }
        text::push_text(&mut parts, part);
    }
    assert(text::texts(parts@) =~= seq![count@] + text::when(
        e.followed > 0,
        followed_text(e.followed, text::opt_str(next)),
    ));
    let ghost so_far = text::texts(parts@);
    if estimate.untracked_available_count > 0 {
        let mut part = decimal::integer_text(estimate.untracked_available_count);
        part.append(" ");
        if estimate.untracked_available_count == 1 {
            part.append("existing credit");
        } else {
            part.append("existing credits");
        }
        part.append(" from before tracking; expiry unknown");
        text::push_text(&mut parts, part);
    }
    assert(text::texts(parts@) =~= so_far + text::when(e.unfollowed > 0, earlier_text(e.unfollowed)));
    let ghost so_far = text::texts(parts@);
    if estimate.tracked_available_count == 0 && estimate.untracked_available_count == 0 {
        text::push_text(&mut parts, "tracking future grants".to_owned());
    }
    assert(text::texts(parts@) =~= so_far + text::when(
        e.followed == 0 && e.unfollowed == 0,
        "tracking future grants"@,
    ));
    text::join(&parts, " · ")
}

fn next_expiry_label(credits: Option<&CodexResetCreditsSummary>, now: &Moment) -> (res: Option<
    String,
>)
    requires
        now.valid(),
    ensures
        text::opt_text(res) == next_expiry(match credits {
            Some(credits) => Some(credits@),
            None => None,
        }, *now),
{
    match credits {
        Some(credits) => match &credits.estimate {
            Some(estimate) => match &estimate.next_expires_at {
                Some(stamp) => Some(times::short_time_at(stamp.as_str(), now)),
                None => None,
            },
            None => None,
        },
        None => None,
    }
}

/// Tells of the reset credits.
pub fn codex_reset_credit_text(credits: Option<&CodexResetCreditsSummary>, now: &Moment) -> (res:
    String)
    requires
        now.valid(),
    ensures
        ({
            let seen = match credits {
                Some(credits) => Some(credits@),
                None => None,
            };
            res@ == credit_text(seen, next_expiry(seen, *now))
        }),
{
    match next_expiry_label(credits, now) {
        Some(next) => reset_credit_text(credits, Some(next.as_str())),
        None => reset_credit_text(credits, None),
    }
}

// ---------------------------------------------------------------------------
// All of it
// ---------------------------------------------------------------------------

impl UsageView {
    /// The numbers can be written with their thousands apart.
    pub open spec fn countable(self) -> bool {
        self.total_units != i64::MIN && self.last_units != i64::MIN && self.cached_input_units
            != i64::MIN && self.context_window != i64::MIN
    }
}

/// Whether the numbers can be written with their thousands apart.
pub fn is_countable(usage: &CodexUsageSnapshot) -> (res: bool)
    ensures
        res == usage@.countable(),
{
    usage.total_units != i64::MIN && usage.last_units != i64::MIN && usage.cached_input_units
        != i64::MIN && usage.context_window != i64::MIN
}

/// The parts of a usage that tell times, as they are shown.
pub struct UsageTimes {
    pub observed: String,
    pub credits: String,
    pub primary_reset: String,
    pub secondary_reset: String,
}

#[verifier::ext_equal]
pub struct TimesView {
    pub observed: Seq<char>,
    pub credits: Seq<char>,
    pub primary_reset: Seq<char>,
    pub secondary_reset: Seq<char>,
}

impl View for UsageTimes {
    type V = TimesView;

    open spec fn view(&self) -> TimesView {
        TimesView {
            observed: self.observed@,
            credits: self.credits@,
            primary_reset: self.primary_reset@,
            secondary_reset: self.secondary_reset@,
        }
    }
}

/// How the times of a usage are told at `now`.
pub open spec fn usage_times(usage: UsageView, now: Moment) -> TimesView {
    TimesView {
        observed: times::short_time_text(
            usage.observed_at,
            times::read_moment(usage.observed_at),
            now,
        ),
        credits: credit_text(usage.reset_credits, next_expiry(usage.reset_credits, now)),
        primary_reset: window_reset(usage.primary, now),
        secondary_reset: window_reset(usage.secondary, now),
    }
}

fn tell_times(usage: &CodexUsageSnapshot, now: &Moment) -> (res: UsageTimes)
    requires
        now.valid(),
    ensures
        res@ == usage_times(usage@, *now),
{
    UsageTimes {
        observed: times::short_time_at(usage.observed_at.as_str(), now),
        credits: codex_reset_credit_text(usage.reset_credits.as_ref(), now),
        primary_reset: window_reset_label(usage.primary.as_ref(), now),
        secondary_reset: window_reset_label(usage.secondary.as_ref(), now),
    }
}

pub open spec fn share_line(name: Seq<char>, percents: Percents, reset: Seq<char>) -> Seq<char> {
    "- "@ + name + ": "@ + percents.remaining@ + "% left, "@ + percents.used@ + "% used, resets "@
        + reset
}

/// The lines that tell of a usage.
pub open spec fn usage_lines(
    usage: UsageView,
    told: TimesView,
    primary: Percents,
    secondary: Percents,
) -> Seq<Seq<char>> {
    seq![
        "Codex usage:"@,
        "- observed: "@ + told.observed,
        "- plan: "@ + usage.plan_type,
        "- total tokens: "@ + decimal::grouped_decimal(usage.total_units as int),
        "- last turn: "@ + decimal::grouped_decimal(usage.last_units as int),
        "- cached input: "@ + decimal::grouped_decimal(usage.cached_input_units as int),
        "- context window: "@ + decimal::grouped_decimal(usage.context_window as int),
        "- add-on credits: "@ + text::text_or(usage.credits, "not reported"@),
        "- usage reset credits: "@ + told.credits,
    ] + text::when(usage.primary is Some, share_line("primary"@, primary, told.primary_reset)) + text::when(
        usage.secondary is Some,
        share_line("secondary"@, secondary, told.secondary_reset),
    )
}

fn labelled(label: &str, value: &str) -> (res: String)
    ensures
        res@ == label@ + value@,
{
    let mut out = label.to_owned();
    out.append(value);
    out
}

fn share(name: &str, percents: &Percents, reset: &str) -> (res: String)
    ensures
        res@ == share_line(name@, *percents, reset@),
{
    let mut out = String::from_str("- ");
    out.append(name);
    out.append(": ");
    out.append(percents.remaining.as_str());
    out.append("% left, ");
    out.append(percents.used.as_str());
    out.append("% used, resets ");
    out.append(reset);
    out
}

fn opt_as_str(value: &Option<String>) -> (res: Option<&str>)
    ensures
        text::opt_str(res) == text::opt_text(*value),
{
    match value {
        Some(value) => Some(value.as_str()),
        None => None,
    }
}

/// Tells of a usage in lines, given how its times are told.
pub fn tell_usage(
    usage: &CodexUsageSnapshot,
    told: &UsageTimes,
    primary: &Percents,
    secondary: &Percents,
) -> (res: String)
    requires
        usage@.countable(),
    ensures
        res@ == text::joined(usage_lines(usage@, told@, *primary, *secondary), "\n"@),
{
    let credits = or_text(opt_as_str(&usage.credits), "not reported");
    let mut lines: Vec<String> = Vec::new();
    text::push_text(&mut lines, "Codex usage:".to_owned());
    text::push_text(&mut lines, labelled("- observed: ", told.observed.as_str()));
    text::push_text(&mut lines, labelled("- plan: ", usage.plan_type.as_str()));
    text::push_text(
        &mut lines,
        labelled("- total tokens: ", decimal::format_number(usage.total_units).as_str()),
    );
    text::push_text(
        &mut lines,
        labelled("- last turn: ", decimal::format_number(usage.last_units).as_str()),
    );
    text::push_text(
        &mut lines,
        labelled("- cached input: ", decimal::format_number(usage.cached_input_units).as_str()),
    );
    text::push_text(
        &mut lines,
        labelled("- context window: ", decimal::format_number(usage.context_window).as_str()),
    );
    text::push_text(&mut lines, labelled("- add-on credits: ", credits.as_str()));
    text::push_text(&mut lines, labelled("- usage reset credits: ", told.credits.as_str()));
    let ghost head = text::texts(lines@);
    if usage.primary.is_some() {
        text::push_text(&mut lines, share("primary", primary, told.primary_reset.as_str()));
    }
    assert(text::texts(lines@) =~= head + text::when(
        usage@.primary is Some,
        share_line("primary"@, *primary, told@.primary_reset),
    ));
    let ghost middle = text::texts(lines@);
    if usage.secondary.is_some() {
        text::push_text(&mut lines, share("secondary", secondary, told.secondary_reset.as_str()));
    }
    assert(text::texts(lines@) =~= middle + text::when(
        usage@.secondary is Some,
        share_line("secondary"@, *secondary, told@.secondary_reset),
    ));
    assert(text::texts(lines@) =~= usage_lines(usage@, told@, *primary, *secondary));
    text::join(&lines, "\n")
}

/// What is told of a usage in lines at `now`.
pub open spec fn usage_text(
    usage: Option<UsageView>,
    primary: Percents,
    secondary: Percents,
    now: Moment,
) -> Seq<char> {
    match usage {
        None => "Codex usage: no saved `/status` data found yet."@,
        Some(usage) => text::joined(
            usage_lines(usage, usage_times(usage, now), primary, secondary),
            "\n"@,
        ),
    }
}

/// Tells of a usage in lines.
pub fn codex_usage_text(
    usage: Option<&CodexUsageSnapshot>,
    primary: &Percents,
    secondary: &Percents,
    now: &Moment,
) -> (res: String)
    requires
        now.valid(),
        usage matches Some(usage) ==> usage@.countable(),
    ensures
        res@ == usage_text(match usage {
            Some(usage) => Some(usage@),
            None => None,
        }, *primary, *secondary, *now),
{
    match usage {
        None => "Codex usage: no saved `/status` data found yet.".to_owned(),
        Some(usage) => {
            let told = tell_times(usage, now);
            tell_usage(usage, &told, primary, secondary)
        },
    }
}

/// The form that uses a reset, or a button that says there is none.
pub open spec fn reset_form(usable: bool) -> Seq<char> {
    if usable {
        "<form class=\"reset-form\" action=\"/agents/codex/reset\" method=\"post\" data-reset-form>\n  <input type=\"hidden\" name=\"confirm\" value=\"USE_RESET\">\n  <button type=\"submit\" class=\"danger-icon ghost\">Use reset</button>\n</form>"@
    } else {
        "<button type=\"button\" class=\"ghost\" disabled title=\"No Codex reset credits are currently reported.\">Use reset</button>"@
    }
}

/// A reset can be used with a command for it or with a credit.
pub open spec fn reset_usable(config: ConfigView, usage: Option<UsageView>) -> bool {
    config.codex_reset_command is Some || (usage matches Some(usage) && usage.reset_credits matches Some(
        credits,
    ) && credits.available_count > 0)
}

pub open spec fn known_body(
    command: Seq<char>,
    usage: UsageView,
    told: TimesView,
    primary: Percents,
    secondary: Percents,
    reset: Seq<char>,
) -> Seq<char> {
    "<p class=\"muted\">Launcher: <strong>"@ + command
        + "</strong></p>\n<section class=\"usage-total\">\n  <strong>Total usage</strong>\n  <span>Plan: "@
        + html::escaped(usage.plan_type) + "</span>\n  <span>Total tokens recorded: "@
        + decimal::grouped_decimal(usage.total_units as int) + "</span>\n  <span>Last turn: "@
        + decimal::grouped_decimal(usage.last_units as int) + " · cached input: "@
        + decimal::grouped_decimal(usage.cached_input_units as int)
        + "</span>\n  <span>Context window: "@ + decimal::grouped_decimal(
        usage.context_window as int,
    ) + "</span>\n  <span>Add-on credits: "@ + html::escaped(
        text::text_or(usage.credits, "not reported"@),
    ) + "</span>\n  <span>Usage reset credits: "@ + told.credits
        + "</span>\n</section>\n<div class=\"usage-grid\">"@ + card_text(
        "Primary"@,
        usage.primary,
        primary,
        told.primary_reset,
    ) + card_text("Secondary"@, usage.secondary, secondary, told.secondary_reset)
        + "</div>\n<section class=\"usage-total\"><strong>Reset windows</strong>"@ + line_text(
        "Primary"@,
        usage.primary,
        told.primary_reset,
    ) + line_text("Secondary"@, usage.secondary, told.secondary_reset)
        + "</section>\n<p class=\"muted\">Observed "@ + html::escaped(told.observed)
        + "</p>\n            "@ + reset
}

/// The body of the panel for a usage, given how its times are told.
pub fn usage_body(
    command: &str,
    usage: &CodexUsageSnapshot,
    told: &UsageTimes,
    primary: &Percents,
    secondary: &Percents,
    reset: &str,
) -> (res: String)
    requires
        usage@.countable(),
    ensures
        res@ == known_body(command@, usage@, told@, *primary, *secondary, reset@),
{
    let credits = or_text(opt_as_str(&usage.credits), "not reported");
    let mut out = String::from_str("<p class=\"muted\">Launcher: <strong>");
    out.append(command);
    out.append(
        "</strong></p>\n<section class=\"usage-total\">\n  <strong>Total usage</strong>\n  <span>Plan: ",
    );
    out.append(html::html_escape(usage.plan_type.as_str()).as_str());
    out.append("</span>\n  <span>Total tokens recorded: ");
    out.append(decimal::format_number(usage.total_units).as_str());
    out.append("</span>\n  <span>Last turn: ");
    out.append(decimal::format_number(usage.last_units).as_str());
    out.append(" · cached input: ");
    out.append(decimal::format_number(usage.cached_input_units).as_str());
    out.append("</span>\n  <span>Context window: ");
    out.append(decimal::format_number(usage.context_window).as_str());
    out.append("</span>\n  <span>Add-on credits: ");
    out.append(html::html_escape(credits.as_str()).as_str());
    out.append("</span>\n  <span>Usage reset credits: ");
    out.append(told.credits.as_str());
    out.append("</span>\n</section>\n<div class=\"usage-grid\">");
    out.append(
        window_card(
            "Primary",
            usage.primary.as_ref(),
            primary,
            told.primary_reset.as_str(),
        ).as_str(),
    );
    out.append(
        window_card(
            "Secondary",
            usage.secondary.as_ref(),
            secondary,
            told.secondary_reset.as_str(),
        ).as_str(),
    );
    out.append("</div>\n<section class=\"usage-total\"><strong>Reset windows</strong>");
    out.append(
        reset_line("Primary", usage.primary.as_ref(), told.primary_reset.as_str()).as_str(),
    );
    out.append(
        reset_line("Secondary", usage.secondary.as_ref(), told.secondary_reset.as_str()).as_str(),
    );
    out.append("</section>\n<p class=\"muted\">Observed ");
    out.append(html::html_escape(told.observed.as_str()).as_str());
    out.append("</p>\n            ");
    out.append(reset);
    out
}

pub open spec fn panel_text(
    config: ConfigView,
    usage: Option<UsageView>,
    loaded: bool,
    primary: Percents,
    secondary: Percents,
    now: Moment,
) -> Seq<char> {
    let command = html::escaped(config::command_label(config));
    let reset = reset_form(reset_usable(config, usage));
    let body = match usage {
        Some(usage) => known_body(
            command,
            usage,
            usage_times(usage, now),
            primary,
            secondary,
            reset,
        ),
        None => if loaded {
            "<p class=\"muted\">No Codex usage event has been recorded yet. Open `/status` in Codex once and Plugdeck will show the saved rate-limit data here.</p><p>Launcher: <strong>"@
                + command + "</strong></p>"@ + reset
        } else {
            "<p class=\"muted\">Loading Codex usage from saved sessions...</p><p>Launcher: <strong>"@
                + command + "</strong></p>"@ + reset
        },
    };
    "<dialog class=\"codex-panel\" id=\"codexPanel\">\n  <header><strong>Codex Usage</strong><button type=\"button\" class=\"icon\" data-codex-close aria-label=\"Close\">x</button></header>\n  <main>"@
        + body + "</main>\n</dialog>"@
}

fn can_reset(config: &Config, usage: Option<&CodexUsageSnapshot>) -> (res: bool)
    ensures
        res == reset_usable(config@, match usage {
            Some(usage) => Some(usage@),
            None => None,
        }),
{
    if config.codex_reset_command.is_some() {
        return true;
    }
    match usage {
        Some(usage) => match &usage.reset_credits {
            Some(credits) => credits.available_count > 0,
            None => false,
        },
        None => false,
    }
}

/// The panel that shows a usage.
pub fn codex_usage_dialog(
    config: &Config,
    usage: Option<&CodexUsageSnapshot>,
    loaded: bool,
    primary: &Percents,
    secondary: &Percents,
    now: &Moment,
) -> (res: String)
    requires
        now.valid(),
        usage matches Some(usage) ==> usage@.countable(),
    ensures
        res@ == panel_text(config@, match usage {
            Some(usage) => Some(usage@),
            None => None,
        }, loaded, *primary, *secondary, *now),
{
    let label = config::agent_command_label(config);
    let command = html::html_escape(label.as_str());
    let reset = if can_reset(config, usage) {
        "<form class=\"reset-form\" action=\"/agents/codex/reset\" method=\"post\" data-reset-form>\n  <input type=\"hidden\" name=\"confirm\" value=\"USE_RESET\">\n  <button type=\"submit\" class=\"danger-icon ghost\">Use reset</button>\n</form>"
    } else {
        "<button type=\"button\" class=\"ghost\" disabled title=\"No Codex reset credits are currently reported.\">Use reset</button>"
    };
    let body = match usage {
        Some(usage) => {
            let told = tell_times(usage, now);
            usage_body(command.as_str(), usage, &told, primary, secondary, reset)
        },
        None => {
            let mut out = if loaded {
                String::from_str(
                    "<p class=\"muted\">No Codex usage event has been recorded yet. Open `/status` in Codex once and Plugdeck will show the saved rate-limit data here.</p><p>Launcher: <strong>",
                )
            } else {
                String::from_str(
                    "<p class=\"muted\">Loading Codex usage from saved sessions...</p><p>Launcher: <strong>",
                )
            };
            out.append(command.as_str());
            out.append("</strong></p>");
            out.append(reset);
            out
        },
    };
    let mut out = String::from_str(
        "<dialog class=\"codex-panel\" id=\"codexPanel\">\n  <header><strong>Codex Usage</strong><button type=\"button\" class=\"icon\" data-codex-close aria-label=\"Close\">x</button></header>\n  <main>",
    );
    out.append(body.as_str());
    out.append("</main>\n</dialog>");
    out
}

// ---------------------------------------------------------------------------
// The service's answers
// ---------------------------------------------------------------------------

/// The answer to the request with a number.
pub open spec fn answer_to(values: Seq<JsonView>, id: i64) -> Option<JsonView>
    decreases values.len(),
{
    if values.len() == 0 {
        None
    } else if values[0].integer_at("id"@) == Some(id) {
        Some(values[0])
    } else {
        answer_to(values.skip(1), id)
    }
}

/// Finds the answer to the request with a number.
pub fn find_answer(values: &Vec<Json>, id: i64) -> (res: Option<&Json>)
    ensures
        json::opt_json(res) == answer_to(json::list_views(values@), id),
{
    let ghost all = json::list_views(values@);
    let mut i: usize = 0;
    assert(all.skip(0) =~= all);
    while i < values.len()
        invariant
            i <= values@.len(),
            all == json::list_views(values@),
            answer_to(all.skip(i as int), id) == answer_to(all, id),
        decreases values@.len() - i,
    {
        assert(all.skip(i as int)[0] == values@[i as int].view());
        assert(all.skip(i as int).skip(1) =~= all.skip(i + 1));
        match values[i].integer_of("id") {
            Some(n) => {
                if n == id {
                    return Some(&values[i]);
                }
            },
            None => {},
        }
        i += 1;
    }
    None
}

/// The limits in what the service answered.
pub open spec fn limits_answer(values: Seq<JsonView>) -> Option<JsonView> {
    match answer_to(values, 1) {
        Some(value) => value.get("result"@),
        None => None,
    }
}

/// The limits in what the service answered, given the values of its lines.
pub fn rate_limits_result(values: &Vec<Json>) -> (res: Option<&Json>)
    ensures
        json::opt_json(res) == limits_answer(json::list_views(values@)),
{
    match find_answer(values, 1) {
        Some(value) => value.get("result"),
        None => None,
    }
}

/// How the use of a reset credit went, by what the service answered.
pub open spec fn outcome_answer(values: Seq<JsonView>) -> Option<Seq<char>> {
    match limits_answer(values) {
        Some(result) => result.text_at("outcome"@),
        None => None,
    }
}

/// How the use of a reset credit went, given the values of the answer's lines.
pub fn reset_outcome(values: &Vec<Json>) -> (res: Option<&str>)
    ensures
        text::opt_str(res) == outcome_answer(json::list_views(values@)),
{
    match rate_limits_result(values) {
        Some(result) => result.text_of("outcome"),
        None => None,
    }
}

/// How long the service is waited for, in milliseconds.
pub const SERVICE_WAIT_MS: u64 = 12000;

/// What is done while the service runs.
#[derive(Clone, Copy, Debug, PartialEq, Eq, Structural)]
pub enum ServiceStep {
    /// Read what it wrote.
    Read,
    /// Kill it, and read what it wrote.
    Kill,
    /// Look again after a while.
    Sleep,
}

/// What is done once the service has run for a number of milliseconds.
pub fn service_step(exited: bool, elapsed_ms: u64) -> (res: ServiceStep)
    ensures
        res == if exited {
            ServiceStep::Read
        } else if elapsed_ms >= SERVICE_WAIT_MS {
            ServiceStep::Kill
        } else {
            ServiceStep::Sleep
        },
{
    if exited {
        ServiceStep::Read
    } else if elapsed_ms >= SERVICE_WAIT_MS {
        ServiceStep::Kill
    } else {
        ServiceStep::Sleep
    }
}

/// What is known of a run of the service: whether it ended well, and what it
/// wrote. There is nothing to read where it failed without a word, or where
/// what it wrote is no text.
pub fn server_output(success: bool, output: Vec<u8>) -> (res: Option<String>)
    ensures
        res is Some <==> (success || output@.len() > 0) && vstd::utf8::valid_utf8(output@),
        res matches Some(s) ==> vstd::utf8::encode_utf8(s@) == output@,
{
    if !success && output.len() == 0 {
        return None;
    }
    outside::utf8_text(output)
}

/// Reads what the service wrote, line by line.
pub fn read_answers(output: &str) -> (res: Vec<Json>)
    ensures
        json::list_views(res@) == json::line_values(text::lines_of(output@)),
{
    let lines = text::lines(output);
    json::parse_lines(&lines)
}

/// What the service is told first.
pub open spec fn greeting(version: Seq<char>) -> Seq<char> {
    "{\"id\":0,\"method\":\"initialize\",\"params\":{\"capabilities\":{\"experimentalApi\":true},\"clientInfo\":{\"name\":\"plugdeck\",\"version\":\""@
        + version + "\"}}}\n{\"method\":\"initialized\"}\n"@
}

/// What the service is asked for its limits.
pub open spec fn limits_request_text(version: Seq<char>) -> Seq<char> {
    greeting(version) + "{\"id\":1,\"method\":\"account/rateLimits/read\",\"params\":null}\n"@
}

/// What the service is asked to use a reset credit, once for each key.
pub open spec fn reset_request_text(version: Seq<char>, key: Seq<char>) -> Seq<char> {
    greeting(version)
        + "{\"id\":1,\"method\":\"account/rateLimitResetCredit/consume\",\"params\":{\"idempotencyKey\":\""@
        + key + "\"}}\n"@
}

fn greet(version: &str) -> (res: String)
    ensures
        res@ == greeting(version@),
{
    let mut out = String::from_str(
        "{\"id\":0,\"method\":\"initialize\",\"params\":{\"capabilities\":{\"experimentalApi\":true},\"clientInfo\":{\"name\":\"plugdeck\",\"version\":\"",
    );
    out.append(version);
    out.append("\"}}}\n{\"method\":\"initialized\"}\n");
    out
}

/// What the service is asked for its limits by a deck of a version, which
/// stands for itself in JSON.
pub fn limits_request(version: &str) -> (res: String)
    requires
        text::all_in(version@, text::CharSet::FileName),
    ensures
        res@ == limits_request_text(version@),
{
    let mut out = greet(version);
    out.append("{\"id\":1,\"method\":\"account/rateLimits/read\",\"params\":null}\n");
    out
}

/// What the service is asked to use a reset credit, under a key that stands
/// for itself in JSON.
pub fn reset_request_with(version: &str, key: &str) -> (res: String)
    requires
        text::all_in(version@, text::CharSet::FileName),
        text::all_in(key@, text::CharSet::FileName),
    ensures
        res@ == reset_request_text(version@, key@),
{
    let mut out = greet(version);
    out.append(
        "{\"id\":1,\"method\":\"account/rateLimitResetCredit/consume\",\"params\":{\"idempotencyKey\":\"",
    );
    out.append(key);
    out.append("\"}}\n");
    out
}

/// What the service is asked to use a reset credit, under a key of its own.
pub fn reset_request(version: &str) -> (res: String)
    requires
        text::all_in(version@, text::CharSet::FileName),
    ensures
        exists|key: Seq<char>|
            key.len() == 36 && text::all_in(key, text::CharSet::FileName) && res@
                == #[trigger] reset_request_text(version@, key),
{
    let key = outside::random_key();
    assert forall|i: int| 0 <= i < key@.len() implies text::CharSet::FileName.has(
        #[trigger] key@[i],
    ) by {
        assert(key@[i] == '-' || outside::is_hex_digit(key@[i]));
    }
    reset_request_with(version, key.as_str())
}

/// What follows from the use of a reset: whether the usage is read again, and the reply.
pub open spec fn outcome_reply(outcome: Option<Seq<char>>) -> (bool, ReplyView) {
    match outcome {
        None => (false, ReplyView::Plain(500, "could not ask Codex to use a reset credit"@)),
        Some(outcome) => if outcome == "reset"@ || outcome == "alreadyRedeemed"@ {
            (true, ReplyView::Redirect("/agents"@))
        } else if outcome == "nothingToReset"@ {
            (
                false,
                ReplyView::Plain(409, "no current Codex limit window is eligible for reset"@),
            )
        } else if outcome == "noCredit"@ {
            (false, ReplyView::Plain(409, "Codex reports no reset credits available"@))
        } else {
            (false, ReplyView::Plain(500, "unexpected Codex reset outcome: "@ + outcome))
        },
    }
}

/// What follows from the answer to the use of a reset credit.
pub fn answer_reset(outcome: Option<&str>) -> (res: (bool, Reply))
    ensures
        (res.0, res.1@) == outcome_reply(text::opt_str(outcome)),
{
    match outcome {
        None => (false, web::plain(500, "could not ask Codex to use a reset credit")),
        Some(outcome) => if text::same(outcome, "reset") || text::same(outcome, "alreadyRedeemed") {
            (true, web::redirect("/agents"))
        } else if text::same(outcome, "nothingToReset") {
            (false, web::plain(409, "no current Codex limit window is eligible for reset"))
        } else if text::same(outcome, "noCredit") {
            (false, web::plain(409, "Codex reports no reset credits available"))
        } else {
            let body = labelled("unexpected Codex reset outcome: ", outcome);
            (false, Reply::Plain(500, body))
        },
    }
}

/// How the command that resets a limit ended.
pub enum CommandEnd {
    Success,
    /// What it wrote on its error output.
    Failure(String),
    /// Why it did not start.
    NotStarted(String),
}

/// What follows from the command that resets a limit.
pub open spec fn command_reply(end: CommandEnd) -> (bool, ReplyView) {
    match end {
        CommandEnd::Success => (true, ReplyView::Redirect("/agents"@)),
        CommandEnd::Failure(errors) => (
            false,
            ReplyView::Plain(500, "reset command failed: "@ + formats::truncated(errors@, 1000)),
        ),
        CommandEnd::NotStarted(why) => (
            false,
            ReplyView::Plain(500, "could not start reset command: "@ + why@),
        ),
    }
}

/// What follows from the command that resets a limit.
pub fn answer_command(end: &CommandEnd) -> (res: (bool, Reply))
    ensures
        (res.0, res.1@) == command_reply(*end),
{
    match end {
        CommandEnd::Success => (true, web::redirect("/agents")),
        CommandEnd::Failure(errors) => {
            let short = formats::truncate_text(errors.as_str(), 1000);
            (false, Reply::Plain(500, labelled("reset command failed: ", short.as_str())))
        },
        CommandEnd::NotStarted(why) => (
            false,
            Reply::Plain(500, labelled("could not start reset command: ", why.as_str())),
        ),
    }
}

/// What a request to use a reset leads to.
pub enum ResetStep {
    /// A reply without further work.
    Answer(Reply),
    /// Run this program with these arguments.
    Run(String, Vec<String>),
    /// Ask the service to use a credit.
    Consume,
}

pub open spec fn reset_plan(confirm: Seq<char>, config: ConfigView) -> ResetPlan {
    if text::trimmed(confirm) != "USE_RESET"@ {
        ResetPlan::Answer(ReplyView::Plain(400, "confirmation required"@))
    } else {
        match config.codex_reset_command {
            Some(command) => if command.len() == 0 {
                ResetPlan::Answer(ReplyView::Plain(409, "no reset command configured"@))
            } else {
                ResetPlan::Run(command[0], command.skip(1))
            },
            None => ResetPlan::Consume,
        }
    }
}

#[verifier::ext_equal]
pub enum ResetPlan {
    Answer(ReplyView),
    Run(Seq<char>, Seq<Seq<char>>),
    Consume,
}

impl View for ResetStep {
    type V = ResetPlan;

    open spec fn view(&self) -> ResetPlan {
        match *self {
            ResetStep::Answer(reply) => ResetPlan::Answer(reply@),
            ResetStep::Run(program, args) => ResetPlan::Run(program@, text::texts(args@)),
            ResetStep::Consume => ResetPlan::Consume,
        }
    }
}

/// What a request to use a reset leads to: nothing without the word that
/// confirms it; else the command for it, or a credit.
pub fn codex_reset_post(confirm: &str, config: &Config) -> (res: ResetStep)
    ensures
        res@ == reset_plan(confirm@, config@),
{
    if !text::same(text::trim(confirm), "USE_RESET") {
        return ResetStep::Answer(web::plain(400, "confirmation required"));
    }
    match &config.codex_reset_command {
        Some(command) => {
            let ghost all = text::texts(command@);
            if command.len() == 0 {
                return ResetStep::Answer(web::plain(409, "no reset command configured"));
            }
            let program = command[0].clone();
            let mut args: Vec<String> = Vec::new();
            let mut i: usize = 1;
            assert(text::texts(args@) =~= all.subrange(1, 1));
            while i < command.len()
                invariant
                    1 <= i <= command@.len(),
                    all == text::texts(command@),
                    text::texts(args@) == all.subrange(1, i as int),
                decreases command@.len() - i,
            {
                text::push_text(&mut args, command[i].clone());
                assert(all.subrange(1, i + 1) =~= all.subrange(1, i as int).push(all[i as int]));
                i += 1;
            }
            assert(all.subrange(1, i as int) =~= all.skip(1));
            ResetStep::Run(program, args)
        },
        None => ResetStep::Consume,
    }
}

// ---------------------------------------------------------------------------
// What holds of the usage
// ---------------------------------------------------------------------------

/// No usage that the lines tell of is later than the latest.
pub proof fn latest_is_latest(values: Seq<JsonView>, i: int)
    requires
        0 <= i < values.len(),
        usage_event(values[i]) is Some,
    ensures
        latest_usage(values) is Some,
        !text::precedes(
            latest_usage(values).unwrap().observed_at,
            usage_event(values[i]).unwrap().observed_at,
        ),
    decreases values.len(),
{
    let front = latest_usage(values.drop_last());
    let last = usage_event(values.last());
    let event = usage_event(values[i]).unwrap();
    if i < values.len() - 1 {
        latest_is_latest(values.drop_last(), i);
        if let Some(b) = last {
            let a = front.unwrap();
            if text::precedes(a.observed_at, b.observed_at) && text::precedes(
                b.observed_at,
                event.observed_at,
            ) {
                text::text_order_is_transitive(a.observed_at, b.observed_at, event.observed_at);
            }
        }
    } else {
        text::text_order_is_total(event.observed_at, event.observed_at);
    }
}

/// What the service does not tell stays as it was; its silence changes nothing.
pub proof fn silence_changes_nothing(usage: Option<UsageView>, now: Seq<char>)
    ensures
        merged(usage, None, now) == usage,
        usage matches Some(u) ==> merged(usage, Some(JsonView::Null), now) == Some(
            UsageView { observed_at: now, ..u },
        ),
{
}

/// Without the word that confirms it, no reset is used.
pub proof fn resets_need_confirmation(confirm: Seq<char>, config: ConfigView)
    requires
        text::trimmed(confirm) != "USE_RESET"@,
    ensures
        reset_plan(confirm, config) is Answer,
{
}

/// Whether a window holds what `value` tells of it, in either spelling of its
/// members.
pub open spec fn window_tells(window: WindowView, value: JsonView) -> bool {
    &&& value.get("used_percent"@) matches Some(JsonView::Number(_, s)) ==> window.used_percent
        == Some(s)
    &&& value.get("used_percent"@) is None ==> (value.get("usedPercent"@) matches Some(
        JsonView::Number(_, s),
    ) ==> window.used_percent == Some(s))
    &&& value.get("used_percent"@) is None && value.get("usedPercent"@) is None
        ==> window.used_percent is None
    &&& value.get("window_minutes"@) matches Some(JsonView::Number(Some(n), _))
        ==> window.window_minutes == n
    &&& value.get("window_minutes"@) is None ==> (value.get("windowDurationMins"@) matches Some(
        JsonView::Number(Some(n), _),
    ) ==> window.window_minutes == n)
    &&& value.get("window_minutes"@) is None && value.get("windowDurationMins"@) is None
        ==> window.window_minutes == 0
    &&& value.get("resets_at"@) matches Some(JsonView::Number(Some(n), _)) ==> window.resets_at
        == Some(n)
    &&& value.get("resets_at"@) is None ==> (value.get("resetsAt"@) matches Some(
        JsonView::Number(Some(n), _),
    ) ==> window.resets_at == Some(n))
    &&& value.get("resets_at"@) is None && value.get("resetsAt"@) is None ==> window.resets_at
        is None
}

/// What the service tells wins: its windows, plan, credits and reset credits
/// stand in the merged usage, whatever the usage held before; the rest of it
/// stays.
pub proof fn what_the_service_tells_wins(
    usage: Option<UsageView>,
    answer: JsonView,
    limits: JsonView,
    now: Seq<char>,
)
    requires
        answer.get("rateLimits"@) == Some(limits) || (answer.get("rateLimits"@) is None
            && answer.get("rate_limits"@) == Some(limits)),
    ensures
        merged(usage, Some(answer), now) matches Some(u) && {
            &&& u.observed_at == now
            &&& limits.get("primary"@) matches Some(v) ==> (u.primary matches Some(w) && w.label
                == "Primary"@ && window_tells(w, v))
            &&& limits.get("secondary"@) matches Some(v) ==> (u.secondary matches Some(w)
                && w.label == "Secondary"@ && window_tells(w, v))
            &&& limits.get("primary"@) is None && usage is Some ==> u.primary
                == usage.unwrap().primary
            &&& limits.get("secondary"@) is None && usage is Some ==> u.secondary
                == usage.unwrap().secondary
            &&& limits.get("planType"@) matches Some(JsonView::Text(plan)) ==> u.plan_type == plan
            &&& limits.get("planType"@) is None ==> (limits.get("plan_type"@) matches Some(
                JsonView::Text(plan),
            ) ==> u.plan_type == plan)
            &&& limits.get("credits"@) matches Some(JsonView::Text(s)) ==> u.credits == Some(s)
            &&& limits.get("credits"@) is None && usage is Some ==> u.credits
                == usage.unwrap().credits
            &&& usage matches Some(before) ==> u.total_units == before.total_units && u.last_units
                == before.last_units && u.cached_input_units == before.cached_input_units
                && u.context_window == before.context_window
            &&& usage is None ==> u.total_units == 0 && u.last_units == 0 && u.cached_input_units
                == 0 && u.context_window == 0
        },
{
}

/// A count of reset credits in the answer replaces the one known before, and its
/// estimate with it; without one in the answer the known one stays.
pub proof fn told_reset_credits_win(
    usage: Option<UsageView>,
    answer: JsonView,
    credits: JsonView,
    n: i64,
    raw: Seq<char>,
    now: Seq<char>,
)
    requires
        answer.get("rateLimitResetCredits"@) == Some(credits) || (answer.get(
            "rateLimitResetCredits"@,
        ) is None && answer.get("rate_limit_reset_credits"@) == Some(credits)),
        credits.get("available_count"@) == Some(JsonView::Number(Some(n), raw)) || (credits.get(
            "available_count"@,
        ) is None && credits.get("availableCount"@) == Some(JsonView::Number(Some(n), raw))),
    ensures
        merged(usage, Some(answer), now) matches Some(u) && u.reset_credits == Some(
            CreditsView { available_count: n, estimate: None },
        ),
        usage is Some ==> merged(usage, Some(JsonView::Null), now).unwrap().reset_credits
            == usage.unwrap().reset_credits,
{
}

/// A saved event tells a usage exactly where it is a message about a count, and
/// the usage holds the event's time, counts, plan and windows.
pub proof fn usage_is_read_from_its_events(
    value: JsonView,
    payload: JsonView,
    info: JsonView,
    total: JsonView,
    last: JsonView,
    limits: JsonView,
)
    requires
        value.get("payload"@) == Some(payload),
        payload.get("info"@) == Some(info),
        payload.get("rate_limits"@) == Some(limits),
        info.get("total_token_usage"@) == Some(total),
        info.get("last_token_usage"@) == Some(last),
    ensures
        usage_event(value) is Some <==> value.get("type"@) == Some(JsonView::Text("event_msg"@))
            && payload.get("type"@) == Some(JsonView::Text("token_count"@)),
        usage_event(value) matches Some(u) ==> {
            &&& value.get("timestamp"@) matches Some(JsonView::Text(stamp)) ==> u.observed_at
                == stamp
            &&& total.get("total_tokens"@) matches Some(JsonView::Number(Some(n), _))
                ==> u.total_units == n
            &&& total.get("total_tokens"@) is None ==> u.total_units == 0
            &&& last.get("total_tokens"@) matches Some(JsonView::Number(Some(n), _))
                ==> u.last_units == n
            &&& last.get("total_tokens"@) is None ==> u.last_units == 0
            &&& total.get("cached_input_tokens"@) matches Some(JsonView::Number(Some(n), _))
                ==> u.cached_input_units == n
            &&& total.get("cached_input_tokens"@) is None ==> u.cached_input_units == 0
            &&& info.get("model_context_window"@) matches Some(JsonView::Number(Some(n), _))
                ==> u.context_window == n
            &&& info.get("model_context_window"@) is None ==> u.context_window == 0
            &&& limits.get("plan_type"@) matches Some(JsonView::Text(plan)) ==> u.plan_type == plan
            &&& limits.get("plan_type"@) is None ==> u.plan_type == "unknown"@
            &&& limits.get("primary"@) matches Some(v) ==> (u.primary matches Some(w) && w.label
                == "Primary"@ && window_tells(w, v))
            &&& limits.get("primary"@) is None ==> u.primary is None
            &&& limits.get("secondary"@) matches Some(v) ==> (u.secondary matches Some(w)
                && w.label == "Secondary"@ && window_tells(w, v))
            &&& limits.get("secondary"@) is None ==> u.secondary is None
        },
{
}

/// A usage's reset credits are those that its limits tell of; where the limits
/// tell of none, those that the event tells of.
pub proof fn limits_tell_reset_credits_first(
    observed_at: Seq<char>,
    payload: JsonView,
    limits: JsonView,
    credits: JsonView,
    n: i64,
    raw: Seq<char>,
)
    requires
        payload.get("rate_limits"@) == Some(limits),
        credits.get("available_count"@) == Some(JsonView::Number(Some(n), raw)),
    ensures
        limits.get("rate_limit_reset_credits"@) == Some(credits) ==> usage_of(
            observed_at,
            payload,
        ).reset_credits == Some(CreditsView { available_count: n, estimate: None }),
        limits.get("rate_limit_reset_credits"@) is None && limits.get("rateLimitResetCredits"@)
            is None && payload.get("rate_limit_reset_credits"@) == Some(credits) ==> usage_of(
            observed_at,
            payload,
        ).reset_credits == Some(CreditsView { available_count: n, estimate: None }),
{
}

/// Add-on credits are shown as their balance, or as unlimited where they are;
/// nothing and null tell of none.
pub proof fn credits_show_their_balance(value: JsonView, balance: Seq<char>)
    requires
        value.get("balance"@) == Some(JsonView::Text(balance)),
    ensures
        value.get("unlimited"@) == Some(JsonView::Bool(true)) ==> credits_text(Some(value)) == Some(
            "unlimited"@,
        ),
        value.get("unlimited"@) != Some(JsonView::Bool(true)) ==> credits_text(Some(value)) == Some(
            balance,
        ),
        credits_text(None) is None,
        credits_text(Some(JsonView::Null)) is None,
        credits_text(Some(JsonView::Text(balance))) == Some(balance),
{
}

/// The latest usage is one that a line tells; of usages of the same time it is
/// the first.
pub proof fn the_latest_usage_is_told(values: Seq<JsonView>)
    ensures
        latest_usage(values) matches Some(u) ==> exists|i: int|
            0 <= i < values.len() && usage_event(#[trigger] values[i]) == Some(u) && forall|j: int|
                0 <= j < i && usage_event(#[trigger] values[j]) is Some ==> text::precedes(
                    usage_event(values[j]).unwrap().observed_at,
                    u.observed_at,
                ),
    decreases values.len(),
{
    if values.len() > 0 {
        let front = values.drop_last();
        the_latest_usage_is_told(front);
        let n = values.len() - 1;
        if let Some(u) = latest_usage(values) {
            if latest_usage(front) == Some(u) {
                let i = choose|i: int|
                    0 <= i < front.len() && usage_event(#[trigger] front[i]) == Some(u) && forall|
                        j: int,
                    |
                        0 <= j < i && usage_event(#[trigger] front[j]) is Some ==> text::precedes(
                            usage_event(front[j]).unwrap().observed_at,
                            u.observed_at,
                        );
                assert(values[i] == front[i]);
                assert forall|j: int|
                    0 <= j < i && usage_event(#[trigger] values[j]) is Some implies text::precedes(
                    usage_event(values[j]).unwrap().observed_at,
                    u.observed_at,
                ) by {
                    assert(front[j] == values[j]);
                }
            } else {
                assert(usage_event(values[n]) == Some(u));
                assert forall|j: int|
                    0 <= j < n && usage_event(#[trigger] values[j]) is Some implies text::precedes(
                    usage_event(values[j]).unwrap().observed_at,
                    u.observed_at,
                ) by {
                    assert(front[j] == values[j]);
                    latest_is_latest(front, j);
                    let a = latest_usage(front).unwrap().observed_at;
                    let e = usage_event(values[j]).unwrap().observed_at;
                    text::text_order_is_total(a, e);
                    if text::precedes(e, a) {
                        text::text_order_is_transitive(e, a, u.observed_at);
                    }
                }
            }
        }
    }
}

/// The answer to a request is the first line with its number.
pub proof fn answers_are_found_by_number(values: Seq<JsonView>, id: i64)
    ensures
        match answer_to(values, id) {
            Some(v) => exists|k: int|
                0 <= k < values.len() && #[trigger] values[k] == v && v.integer_at("id"@) == Some(
                    id,
                ) && forall|j: int|
                    0 <= j < k ==> (#[trigger] values[j]).integer_at("id"@) != Some(id),
            None => forall|k: int|
                0 <= k < values.len() ==> (#[trigger] values[k]).integer_at("id"@) != Some(id),
        },
    decreases values.len(),
{
    if values.len() > 0 && values[0].integer_at("id"@) != Some(id) {
        let rest = values.skip(1);
        answers_are_found_by_number(rest, id);
        match answer_to(rest, id) {
            Some(v) => {
                let k = choose|k: int|
                    0 <= k < rest.len() && #[trigger] rest[k] == v && v.integer_at("id"@) == Some(
                        id,
                    ) && forall|j: int|
                        0 <= j < k ==> (#[trigger] rest[j]).integer_at("id"@) != Some(id);
                assert(values[k + 1] == v);
                assert forall|j: int| 0 <= j < k + 1 implies (#[trigger] values[j]).integer_at(
                    "id"@,
                ) != Some(id) by {
                    if j > 0 {
                        assert(rest[j - 1].integer_at("id"@) != Some(id));
                    }
                }
            },
            None => {
                assert forall|k: int| 0 <= k < values.len() implies (
                #[trigger] values[k]).integer_at("id"@) != Some(id) by {
                    if k > 0 {
                        assert(rest[k - 1].integer_at("id"@) != Some(id));
                    }
                }
            },
        }
    }
}

/// The service is asked with number one: what it answers to other numbers is
/// passed over, and its result and outcome are those of the first answer.
pub proof fn the_first_answer_is_read(values: Seq<JsonView>, result: JsonView, outcome: Seq<char>)
    requires
        values.len() > 0,
    ensures
        values[0].integer_at("id"@) == Some(1i64) && values[0].get("result"@) == Some(result) ==> {
            &&& limits_answer(values) == Some(result)
            &&& result.get("outcome"@) == Some(JsonView::Text(outcome)) ==> outcome_answer(values)
                == Some(outcome)
        },
        values[0].integer_at("id"@) != Some(1i64) ==> limits_answer(values) == limits_answer(
            values.skip(1),
        ) && outcome_answer(values) == outcome_answer(values.skip(1)),
{
}

/// A reset that was made, now or before, leads back to the page and has the usage
/// read again; everything else is told as a failure, and has nothing read again.
pub proof fn outcomes_are_told(outcome: Seq<char>)
    ensures
        outcome_reply(Some("reset"@)) == (true, ReplyView::Redirect("/agents"@)),
        outcome_reply(Some("alreadyRedeemed"@)) == (true, ReplyView::Redirect("/agents"@)),
        outcome_reply(Some("nothingToReset"@)) == (
            false,
            ReplyView::Plain(409, "no current Codex limit window is eligible for reset"@),
        ),
        outcome_reply(Some("noCredit"@)) == (
            false,
            ReplyView::Plain(409, "Codex reports no reset credits available"@),
        ),
        outcome != "reset"@ && outcome != "alreadyRedeemed"@ ==> !outcome_reply(Some(outcome)).0
            && outcome_reply(Some(outcome)).1 is Plain,
        outcome != "reset"@ && outcome != "alreadyRedeemed"@ && outcome != "nothingToReset"@
            && outcome != "noCredit"@ ==> outcome_reply(Some(outcome)).1 == ReplyView::Plain(
            500,
            "unexpected Codex reset outcome: "@ + outcome,
        ),
        outcome_reply(None) == (
            false,
            ReplyView::Plain(500, "could not ask Codex to use a reset credit"@),
        ),
{
    reveal_strlit("reset");
    reveal_strlit("alreadyRedeemed");
    reveal_strlit("nothingToReset");
    reveal_strlit("noCredit");
    assert("nothingToReset"@.len() == 14 && "alreadyRedeemed"@.len() == 15 && "noCredit"@.len() == 8
        && "reset"@.len() == 5);
}

/// A reset command that succeeds leads back to the page; one that fails or does
/// not start is told, with at most its first thousand characters.
pub proof fn ends_of_commands_are_told(errors: String, why: String)
    ensures
        command_reply(CommandEnd::Success) == (true, ReplyView::Redirect("/agents"@)),
        !command_reply(CommandEnd::Failure(errors)).0,
        command_reply(CommandEnd::Failure(errors)).1 == ReplyView::Plain(
            500,
            "reset command failed: "@ + formats::truncated(errors@, 1000),
        ),
        command_reply(CommandEnd::NotStarted(why)) == (
            false,
            ReplyView::Plain(500, "could not start reset command: "@ + why@),
        ),
{
}

/// A confirmed reset runs the command of the settings, its first word with the
/// rest as arguments; an empty one is refused, and without one the service is
/// asked.
pub proof fn confirmed_resets_run_the_command(
    confirm: Seq<char>,
    config: ConfigView,
    program: Seq<char>,
    args: Seq<Seq<char>>,
)
    requires
        text::trimmed(confirm) == "USE_RESET"@,
    ensures
        config.codex_reset_command == Some(seq![program] + args) ==> reset_plan(confirm, config)
            == ResetPlan::Run(program, args),
        config.codex_reset_command == Some(Seq::<Seq<char>>::empty()) ==> reset_plan(confirm, config)
            == ResetPlan::Answer(ReplyView::Plain(409, "no reset command configured"@)),
        config.codex_reset_command is None ==> reset_plan(confirm, config) == ResetPlan::Consume,
{
    assert((seq![program] + args).skip(1) =~= args);
}

/// A reset can be used where a command is set, or where the service reports at
/// least one credit; and the form offers it exactly then.
#[verifier::rlimit(50)]
#[verifier::spinoff_prover]
pub proof fn resets_need_a_command_or_a_credit(config: ConfigView, usage: UsageView)
    ensures
        config.codex_reset_command is Some ==> reset_usable(config, Some(usage)) && reset_usable(
            config,
            None,
        ),
        config.codex_reset_command is None ==> !reset_usable(config, None),
        config.codex_reset_command is None && usage.reset_credits is None ==> !reset_usable(
            config,
            Some(usage),
        ),
        config.codex_reset_command is None && usage.reset_credits is Some ==> (reset_usable(
            config,
            Some(usage),
        ) <==> usage.reset_credits.unwrap().available_count >= 1),
        text::has_text(reset_form(true), "USE_RESET"@),
        !text::has_text(reset_form(false), "USE_RESET"@),
{
    reveal_strlit("USE_RESET");
    reveal_strlit(
        "<form class=\"reset-form\" action=\"/agents/codex/reset\" method=\"post\" data-reset-form>\n  <input type=\"hidden\" name=\"confirm\" value=\"USE_RESET\">\n  <button type=\"submit\" class=\"danger-icon ghost\">Use reset</button>\n</form>",
    );
    reveal_strlit(
        "<button type=\"button\" class=\"ghost\" disabled title=\"No Codex reset credits are currently reported.\">Use reset</button>",
    );
    let on = reset_form(true);
    assert(on.subrange(130, 139) =~= "USE_RESET"@);
    assert(text::occurs_at(on, "USE_RESET"@, 130));
    let off = reset_form(false);
    if text::has_text(off, "USE_RESET"@) {
        let i = choose|i: int| text::occurs_at(off, "USE_RESET"@, i);
        assert(off.subrange(i, i + 9)[3] == off[i + 3]);
        assert(off.subrange(i, i + 9)[3] == '_');
    }
}

/// The words about reset credits start with their count, one credit in the
/// singular; they tell of the credits that are followed, of those from before,
/// and of the next expiry exactly where there are any.
pub proof fn reset_credits_are_told(credits: CreditsView, next: Seq<char>, n: int)
    ensures
        credit_text(None, None) == "not reported by Codex"@,
        count_text(1) == decimal::decimal(1) + " "@ + "credit"@ + " available"@,
        credits.available_count != 1 ==> count_text(credits.available_count as int)
            == decimal::decimal(credits.available_count as int) + " "@ + "credits"@
            + " available"@,
        credits.estimate is None ==> credit_text(Some(credits), None) == count_text(
            credits.available_count as int,
        ) + " · local expiry tracking not initialized yet"@,
        credits.estimate matches Some(e) ==> {
            let told = credit_text(Some(credits), Some(next));
            let count = count_text(credits.available_count as int);
            &&& e.followed == 0 && e.unfollowed == 0 ==> told == count + " · "@
                + "tracking future grants"@
            &&& e.followed > 0 && e.unfollowed == 0 ==> told == count + " · "@ + followed_text(
                e.followed,
                Some(next),
            )
            &&& e.followed == 0 && e.unfollowed > 0 ==> told == count + " · "@ + earlier_text(
                e.unfollowed,
            )
            &&& e.followed > 0 && e.unfollowed > 0 ==> told == count + " · "@ + followed_text(
                e.followed,
                Some(next),
            ) + " · "@ + earlier_text(e.unfollowed)
        },
        followed_text(n, None) == decimal::decimal(n) + " "@ + if n == 1 {
            "tracked credit"@
        } else {
            "tracked credits"@
        },
        followed_text(n, Some(next)) == followed_text(n, None) + " · next expires "@ + next,
        earlier_text(n) == decimal::decimal(n) + " "@ + if n == 1 {
            "existing credit"@
        } else {
            "existing credits"@
        } + " from before tracking; expiry unknown"@,
{
    if let Some(e) = credits.estimate {
        let count = count_text(credits.available_count as int);
        let a = followed_text(e.followed, Some(next));
        let b = earlier_text(e.unfollowed);
        let c = "tracking future grants"@;
        two_are_joined(count, c, " · "@);
        two_are_joined(count, a, " · "@);
        two_are_joined(count, b, " · "@);
        three_are_joined(count, a, b, " · "@);
        let none = Seq::<Seq<char>>::empty();
        assert(seq![count] + none + none + seq![c] =~= seq![count, c]);
        assert(seq![count] + seq![a] + none + none =~= seq![count, a]);
        assert(seq![count] + none + seq![b] + none =~= seq![count, b]);
        assert(seq![count] + seq![a] + seq![b] + none =~= seq![count, a, b]);
    }
}

proof fn two_are_joined(a: Seq<char>, b: Seq<char>, sep: Seq<char>)
    ensures
        text::joined(seq![a, b], sep) == a + sep + b,
{
    assert(seq![a, b].drop_last() =~= seq![a]);
    assert(text::joined(seq![a], sep) == a);
}

proof fn three_are_joined(a: Seq<char>, b: Seq<char>, c: Seq<char>, sep: Seq<char>)
    ensures
        text::joined(seq![a, b, c], sep) == a + sep + b + sep + c,
{
    assert(seq![a, b, c].drop_last() =~= seq![a, b]);
    two_are_joined(a, b, sep);
}

/// An estimate is added to the credits that are known, and to nothing else.
pub proof fn estimates_join_known_credits(usage: UsageView, estimate: EstimateView)
    ensures
        with_estimate(usage, estimate).reset_credits is Some <==> usage.reset_credits is Some,
        usage.reset_credits matches Some(c) ==> with_estimate(usage, estimate).reset_credits
            == Some(CreditsView { available_count: c.available_count, estimate: Some(estimate) }),
        with_estimate(usage, estimate).primary == usage.primary,
        with_estimate(usage, estimate).secondary == usage.secondary,
        with_estimate(usage, estimate).observed_at == usage.observed_at,
        with_estimate(usage, estimate).plan_type == usage.plan_type,
        with_estimate(usage, estimate).total_units == usage.total_units,
        with_estimate(usage, estimate).last_units == usage.last_units,
        with_estimate(usage, estimate).cached_input_units == usage.cached_input_units,
        with_estimate(usage, estimate).context_window == usage.context_window,
        with_estimate(usage, estimate).credits == usage.credits,
{
}

/// The usage in lines tells its time, plan and counts, each in its own line, and
/// a share for each window that is known.
#[verifier::rlimit(50)]
#[verifier::spinoff_prover]
pub proof fn usage_is_told_in_lines(
    usage: UsageView,
    told: TimesView,
    primary: Percents,
    secondary: Percents,
    now: Moment,
)
    ensures
        usage_text(None, primary, secondary, now)
            == "Codex usage: no saved `/status` data found yet."@,
        usage_text(Some(usage), primary, secondary, now) == text::joined(
            usage_lines(usage, usage_times(usage, now), primary, secondary),
            "\n"@,
        ),
        ({
            let lines = usage_lines(usage, told, primary, secondary);
            let first = "- primary: "@ + primary.remaining@ + "% left, "@ + primary.used@
                + "% used, resets "@ + told.primary_reset;
            let second = "- secondary: "@ + secondary.remaining@ + "% left, "@ + secondary.used@
                + "% used, resets "@ + told.secondary_reset;
            &&& lines[0] == "Codex usage:"@
            &&& lines[1] == "- observed: "@ + told.observed
            &&& lines[2] == "- plan: "@ + usage.plan_type
            &&& lines[3] == "- total tokens: "@ + decimal::grouped_decimal(usage.total_units as int)
            &&& lines[4] == "- last turn: "@ + decimal::grouped_decimal(usage.last_units as int)
            &&& lines[5] == "- cached input: "@ + decimal::grouped_decimal(
                usage.cached_input_units as int,
            )
            &&& lines[6] == "- context window: "@ + decimal::grouped_decimal(
                usage.context_window as int,
            )
            &&& usage.credits matches Some(s) ==> lines[7] == "- add-on credits: "@ + s
            &&& usage.credits is None ==> lines[7] == "- add-on credits: "@ + "not reported"@
            &&& lines[8] == "- usage reset credits: "@ + told.credits
            &&& usage.primary is Some && usage.secondary is Some ==> lines.len() == 11 && lines[9]
                == first && lines[10] == second
            &&& usage.primary is Some && usage.secondary is None ==> lines.len() == 10 && lines[9]
                == first
            &&& usage.primary is None && usage.secondary is Some ==> lines.len() == 10 && lines[9]
                == second
            &&& usage.primary is None && usage.secondary is None ==> lines.len() == 9
        }),
{
    assert("- primary: "@ =~= "- "@ + "primary"@ + ": "@) by {
        reveal_strlit("- primary: ");
        reveal_strlit("- ");
        reveal_strlit("primary");
        reveal_strlit(": ");
    }
    assert("- secondary: "@ =~= "- "@ + "secondary"@ + ": "@) by {
        reveal_strlit("- secondary: ");
        reveal_strlit("- ");
        reveal_strlit("secondary");
        reveal_strlit(": ");
    }
}

/// The times that are told of a usage are those of the usage and of its own
/// windows and credits.
pub proof fn times_are_told_of_their_windows(usage: UsageView, now: Moment)
    ensures
        ({
            let told = usage_times(usage, now);
            &&& told.observed == times::short_time_text(
                usage.observed_at,
                times::read_moment(usage.observed_at),
                now,
            )
            &&& usage.primary matches Some(w) ==> told.primary_reset == reset_text(w.resets_at, now)
            &&& usage.secondary matches Some(w) ==> told.secondary_reset == reset_text(
                w.resets_at,
                now,
            )
            &&& usage.primary is None ==> told.primary_reset == "unknown"@
            &&& usage.secondary is None ==> told.secondary_reset == "unknown"@
            &&& usage.reset_credits is None ==> told.credits == "not reported by Codex"@
        }),
{
}

/// A window's reset is told from now; one that is not known, or that no calendar
/// holds, is unknown.
pub proof fn resets_are_told_from_now(epoch: i64, now: Moment)
    ensures
        reset_text(None, now) == "unknown"@,
        times::FIRST_SECOND <= epoch <= times::LAST_SECOND ==> ({
            let stamp = outside::rfc3339_text(epoch, 0);
            reset_text(Some(epoch), now) == times::short_time_text(
                stamp,
                times::read_moment(stamp),
                now,
            )
        }),
        epoch < times::FIRST_SECOND || epoch > times::LAST_SECOND ==> reset_text(Some(epoch), now)
            == "unknown"@,
{
}

/// A window is shown with what is left of it and what is used, its length and its
/// reset, under its label; one that is not known is said not to be reported.
pub proof fn windows_are_shown(
    fallback: Seq<char>,
    window: WindowView,
    percents: Percents,
    reset: Seq<char>,
)
    ensures
        card_text(fallback, None, percents, reset) == "<section class=\"usage-card\"><strong>"@
            + fallback + "</strong><span class=\"muted\">not reported</span></section>"@,
        line_text(fallback, None, reset) == "<span>"@ + fallback + ": not reported</span>"@,
        card_text(fallback, Some(window), percents, reset)
            == "<section class=\"usage-card\"><strong>"@ + html::escaped(window.label)
            + "</strong><span>"@ + percents.remaining@ + "% remaining · "@ + percents.used@
            + "% used</span><div class=\"meter\" title=\""@ + percents.remaining@
            + "% remaining\"><span style=\"width:"@ + percents.remaining@
            + "%\"></span></div><span class=\"muted\">"@ + html::escaped(
            formats::window_text(window.window_minutes as int),
        ) + " window · resets "@ + html::escaped(reset) + "</span></section>"@,
        line_text(fallback, Some(window), reset) == "<span>"@ + html::escaped(window.label) + ": "@
            + html::escaped(formats::window_text(window.window_minutes as int))
            + " window resets "@ + html::escaped(reset) + "</span>"@,
{
}

/// The panel shows each window's card and line under its own name, and ends with
/// the form for the reset.
#[verifier::rlimit(50)]
#[verifier::spinoff_prover]
pub proof fn the_panel_shows_both_windows(
    command: Seq<char>,
    usage: UsageView,
    told: TimesView,
    primary: Percents,
    secondary: Percents,
    reset: Seq<char>,
)
    ensures
        ({
            let body = known_body(command, usage, told, primary, secondary, reset);
            &&& text::has_text(
                body,
                card_text("Primary"@, usage.primary, primary, told.primary_reset),
            )
            &&& text::has_text(
                body,
                card_text("Secondary"@, usage.secondary, secondary, told.secondary_reset),
            )
            &&& text::has_text(body, line_text("Primary"@, usage.primary, told.primary_reset))
            &&& text::has_text(body, line_text("Secondary"@, usage.secondary, told.secondary_reset))
            &&& text::has_text(body, told.credits)
            &&& text::has_text(body, reset)
        }),
{
    let head = "<p class=\"muted\">Launcher: <strong>"@ + command + "</strong></p>\n<section class=\"usage-total\">\n  <strong>Total usage</strong>\n  <span>Plan: "@ + html::escaped(usage.plan_type) + "</span>\n  <span>Total tokens recorded: "@ + decimal::grouped_decimal(usage.total_units as int) + "</span>\n  <span>Last turn: "@ + decimal::grouped_decimal(usage.last_units as int) + " · cached input: "@ + decimal::grouped_decimal(usage.cached_input_units as int) + "</span>\n  <span>Context window: "@ + decimal::grouped_decimal(usage.context_window as int) + "</span>\n  <span>Add-on credits: "@ + html::escaped(text::text_or(usage.credits, "not reported"@)) + "</span>\n  <span>Usage reset credits: "@;
    let credits = told.credits;
    let grid = "</span>\n</section>\n<div class=\"usage-grid\">"@;
    let first = card_text("Primary"@, usage.primary, primary, told.primary_reset);
    let second = card_text("Secondary"@, usage.secondary, secondary, told.secondary_reset);
    let lines = "</div>\n<section class=\"usage-total\"><strong>Reset windows</strong>"@;
    let third = line_text("Primary"@, usage.primary, told.primary_reset);
    let fourth = line_text("Secondary"@, usage.secondary, told.secondary_reset);
    let seen = "</section>\n<p class=\"muted\">Observed "@;
    let observed = html::escaped(told.observed);
    let end = "</p>\n            "@;
    let t0 = head;
    let t1 = t0 + credits;
    let t2 = t1 + grid;
    let t3 = t2 + first;
    let t4 = t3 + second;
    let t5 = t4 + lines;
    let t6 = t5 + third;
    let t7 = t6 + fourth;
    let t8 = t7 + seen;
    let t9 = t8 + observed;
    let t10 = t9 + end;
    let t11 = t10 + reset;
    assert(known_body(command, usage, told, primary, secondary, reset) == t11);
    text::longer_texts_keep_their_parts(t0, credits, Seq::empty());
    text::longer_texts_keep_their_parts(t1, credits, grid);
    text::longer_texts_keep_their_parts(t2, credits, first);
    text::longer_texts_keep_their_parts(t3, credits, second);
    text::longer_texts_keep_their_parts(t4, credits, lines);
    text::longer_texts_keep_their_parts(t5, credits, third);
    text::longer_texts_keep_their_parts(t6, credits, fourth);
    text::longer_texts_keep_their_parts(t7, credits, seen);
    text::longer_texts_keep_their_parts(t8, credits, observed);
    text::longer_texts_keep_their_parts(t9, credits, end);
    text::longer_texts_keep_their_parts(t10, credits, reset);
    text::longer_texts_keep_their_parts(t2, first, Seq::empty());
    text::longer_texts_keep_their_parts(t3, first, second);
    text::longer_texts_keep_their_parts(t4, first, lines);
    text::longer_texts_keep_their_parts(t5, first, third);
    text::longer_texts_keep_their_parts(t6, first, fourth);
    text::longer_texts_keep_their_parts(t7, first, seen);
    text::longer_texts_keep_their_parts(t8, first, observed);
    text::longer_texts_keep_their_parts(t9, first, end);
    text::longer_texts_keep_their_parts(t10, first, reset);
    text::longer_texts_keep_their_parts(t3, second, Seq::empty());
    text::longer_texts_keep_their_parts(t4, second, lines);
    text::longer_texts_keep_their_parts(t5, second, third);
    text::longer_texts_keep_their_parts(t6, second, fourth);
    text::longer_texts_keep_their_parts(t7, second, seen);
    text::longer_texts_keep_their_parts(t8, second, observed);
    text::longer_texts_keep_their_parts(t9, second, end);
    text::longer_texts_keep_their_parts(t10, second, reset);
    text::longer_texts_keep_their_parts(t5, third, Seq::empty());
    text::longer_texts_keep_their_parts(t6, third, fourth);
    text::longer_texts_keep_their_parts(t7, third, seen);
    text::longer_texts_keep_their_parts(t8, third, observed);
    text::longer_texts_keep_their_parts(t9, third, end);
    text::longer_texts_keep_their_parts(t10, third, reset);
    text::longer_texts_keep_their_parts(t6, fourth, Seq::empty());
    text::longer_texts_keep_their_parts(t7, fourth, seen);
    text::longer_texts_keep_their_parts(t8, fourth, observed);
    text::longer_texts_keep_their_parts(t9, fourth, end);
    text::longer_texts_keep_their_parts(t10, fourth, reset);
    text::longer_texts_keep_their_parts(t10, reset, Seq::empty());
}

/// The service is greeted and then asked once, under number one; a credit is used
/// under the key that was given, so that asking again uses no second one.
pub proof fn requests_follow_a_greeting(version: Seq<char>, key: Seq<char>)
    ensures
        limits_request_text(version) == greeting(version)
            + "{\"id\":1,\"method\":\"account/rateLimits/read\",\"params\":null}\n"@,
        reset_request_text(version, key) == greeting(version)
            + "{\"id\":1,\"method\":\"account/rateLimitResetCredit/consume\",\"params\":{\"idempotencyKey\":\""@
            + key + "\"}}\n"@,
        greeting(version)
            == "{\"id\":0,\"method\":\"initialize\",\"params\":{\"capabilities\":{\"experimentalApi\":true},\"clientInfo\":{\"name\":\"plugdeck\",\"version\":\""@
            + version + "\"}}}\n{\"method\":\"initialized\"}\n"@,
{
}

/// The panel says that usage loads, that there is none, or shows it, and offers
/// the reset exactly where one can be used.
#[verifier::rlimit(50)]
#[verifier::spinoff_prover]
pub proof fn the_panel_offers_usable_resets(
    config: ConfigView,
    usage: Option<UsageView>,
    loaded: bool,
    primary: Percents,
    secondary: Percents,
    now: Moment,
)
    ensures
        ({
            let panel = panel_text(config, usage, loaded, primary, secondary, now);
            let launcher = html::escaped(config::command_label(config));
            &&& text::has_text(panel, reset_form(reset_usable(config, usage)))
            &&& usage matches Some(u) ==> text::has_text(
                panel,
                known_body(
                    launcher,
                    u,
                    usage_times(u, now),
                    primary,
                    secondary,
                    reset_form(reset_usable(config, usage)),
                ),
            )
        }),
{
    let launcher = html::escaped(config::command_label(config));
    let reset = reset_form(reset_usable(config, usage));
    let open = "<dialog class=\"codex-panel\" id=\"codexPanel\">\n  <header><strong>Codex Usage</strong><button type=\"button\" class=\"icon\" data-codex-close aria-label=\"Close\">x</button></header>\n  <main>"@;
    let end = "</main>\n</dialog>"@;
    let loading = if loaded {
        "<p class=\"muted\">No Codex usage event has been recorded yet. Open `/status` in Codex once and Plugdeck will show the saved rate-limit data here.</p><p>Launcher: <strong>"@
    } else {
        "<p class=\"muted\">Loading Codex usage from saved sessions...</p><p>Launcher: <strong>"@
    };
    let body = match usage {
        Some(u) => known_body(launcher, u, usage_times(u, now), primary, secondary, reset),
        None => loading + launcher + "</strong></p>"@ + reset,
    };
    assert(panel_text(config, usage, loaded, primary, secondary, now) == open + body + end);
    text::parts_of_a_text(open, body, end);
    match usage {
        Some(u) => {
            the_panel_shows_both_windows(
                launcher,
                u,
                usage_times(u, now),
                primary,
                secondary,
                reset,
            );
        },
        None => {
            text::longer_texts_keep_their_parts(
                loading + launcher + "</strong></p>"@,
                reset,
                Seq::empty(),
            );
        },
    }
    let i = choose|i: int| text::occurs_at(body, reset, i);
    let all = open + body + end;
    let k = open.len() as int + i;
    assert(all.subrange(k, k + reset.len()) =~= body.subrange(i, i + reset.len()));
    assert(text::occurs_at(all, reset, k));
}

/// Credits without a balance are shown as they were sent.
pub proof fn other_credits_are_shown_as_sent(
    raw: Seq<char>,
    n: Option<i64>,
    items: Seq<JsonView>,
    fields: Seq<(Seq<char>, JsonView)>,
)
    requires
        JsonView::Object(fields, raw).get("balance"@) is None,
    ensures
        credits_text(Some(JsonView::Bool(true))) == Some("true"@),
        credits_text(Some(JsonView::Bool(false))) == Some("false"@),
        credits_text(Some(JsonView::Number(n, raw))) == Some(raw),
        credits_text(Some(JsonView::List(items, raw))) == Some(raw),
        credits_text(Some(JsonView::Object(fields, raw))) == Some(raw),
{
}

/// Reset credits without a count are not known, and an answer about an unknown
/// usage starts one of which nothing is known but the time.
pub proof fn unknown_credits_and_usage(value: JsonView, now: Seq<char>)
    ensures
        reset_credits(None) is None,
        value.get("available_count"@) is None && value.get("availableCount"@) is None
            ==> reset_credits(Some(value)) is None,
        merged(None, None, now) is None,
        merged(None, Some(JsonView::Null), now) == Some(
            (UsageView {
                observed_at: now,
                plan_type: "unknown"@,
                total_units: 0,
                last_units: 0,
                cached_input_units: 0,
                context_window: 0,
                primary: None,
                secondary: None,
                credits: None,
                reset_credits: None,
            }),
        ),
{
}

/// The next expiry that is told is the one that the estimate knows, seen from now.
pub proof fn the_next_expiry_is_told_from_now(credits: CreditsView, usage: UsageView, now: Moment)
    ensures
        next_expiry(None, now) is None,
        credits.estimate is None ==> next_expiry(Some(credits), now) is None,
        credits.estimate matches Some(e) ==> e.next_expires_at is None ==> next_expiry(
            Some(credits),
            now,
        ) is None,
        credits.estimate matches Some(e) ==> (e.next_expires_at matches Some(stamp) ==> next_expiry(
            Some(credits),
            now,
        ) == Some(times::short_time_text(stamp, times::read_moment(stamp), now))),
        usage.reset_credits == Some(credits) ==> usage_times(usage, now).credits == credit_text(
            Some(credits),
            next_expiry(Some(credits), now),
        ),
{
}

} // verus!
