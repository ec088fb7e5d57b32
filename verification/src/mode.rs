//! Token-counting mode: how a session's usage components collapse into the single total
//! that drives the pet. Each mode is an independent level lens over the same pet.
//!
//!   Raw          — cache-inclusive sum (input + output + cache + legacy carryover).
//!   Subscription — content tokens only (input + output).
//!   Api          — cache-discounted, input-equivalent cost:
//!                  input + output + 1.25·cache_creation + 0.1·cache_read (integer ×5/4, /10).

use vstd::prelude::*;

use crate::ledger::Comp;
use crate::text::{
    ascii_lowercase, chars_of, has_prefix, lower_eq, skip_ws_backward, skip_ws_forward,
    slice_eq, starts_with, trim,
};

verus! {

#[derive(Clone, Copy, PartialEq, Eq, PartialOrd, Ord, Hash, Debug, Structural)]
pub enum CountMode {
    Raw,
    Subscription,
    Api,
}

/// `x` clamped to the `u64` range from above (saturating arithmetic on naturals).
pub open spec fn clamp_u64(x: int) -> u64 {
    if x > u64::MAX {
        u64::MAX
    } else {
        x as u64
    }
}

/// The weighted token count of one session's components under `mode`.
pub open spec fn weight_spec(mode: CountMode, c: Comp) -> u64 {
    match mode {
        CountMode::Raw => clamp_u64(
            c.input + c.output + c.cache_creation + c.cache_read + c.legacy,
        ),
        CountMode::Subscription => clamp_u64(c.input + c.output),
        CountMode::Api => clamp_u64(
            c.input + c.output + clamp_u64(c.cache_creation * 5) / 4 + c.cache_read / 10,
        ),
    }
}

/// The short tag of each mode.
pub open spec fn label_spec(mode: CountMode) -> &'static str {
    match mode {
        CountMode::Raw => "raw",
        CountMode::Subscription => "sub",
        CountMode::Api => "api",
    }
}

/// The dev-panel cycle order: raw → sub → api → raw.
pub open spec fn next_spec(mode: CountMode) -> CountMode {
    match mode {
        CountMode::Raw => CountMode::Subscription,
        CountMode::Subscription => CountMode::Api,
        CountMode::Api => CountMode::Raw,
    }
}

impl CountMode {
    /// Collapse one session's components into this mode's weighted token count.
    /// Saturating throughout, so a runaway transcript cannot overflow.
    pub fn weight(&self, c: &Comp) -> (w: u64)
        ensures
            w == weight_spec(*self, *c),
    {
        let content = c.input.saturating_add(c.output);
        match self {
            CountMode::Raw => content.saturating_add(c.cache_creation).saturating_add(
                c.cache_read,
            ).saturating_add(c.legacy),
            CountMode::Subscription => content,
            CountMode::Api => {
                let cw5 = if c.cache_creation > u64::MAX / 5 {
                    u64::MAX
                } else {
                    c.cache_creation * 5
                };
                content.saturating_add(cw5 / 4).saturating_add(c.cache_read / 10)
            },
        }
    }

    /// Short tag for the dev panel and diagnostics.
    pub fn label(&self) -> (s: &'static str)
        ensures
            s == label_spec(*self),
    {
        match self {
            CountMode::Raw => "raw",
            CountMode::Subscription => "sub",
            CountMode::Api => "api",
        }
    }

    /// Dev-panel cycle order: raw → sub → api → raw.
    pub fn next(&self) -> (m: CountMode)
        ensures
            m == next_spec(*self),
    {
        match self {
            CountMode::Raw => CountMode::Subscription,
            CountMode::Subscription => CountMode::Api,
            CountMode::Api => CountMode::Raw,
        }
    }
}

/// Three steps of the cycle come back to the start.
pub proof fn lemma_next_cycles(m: CountMode)
    ensures
        next_spec(next_spec(next_spec(m))) == m,
        next_spec(m) != m,
{
}

/// The legacy carryover counts in Raw only: Subscription and Api ignore it.
pub proof fn lemma_legacy_only_in_raw(c: Comp, legacy: u64)
    ensures
        weight_spec(CountMode::Subscription, Comp { legacy, ..c }) == weight_spec(
            CountMode::Subscription,
            c,
        ),
        weight_spec(CountMode::Api, Comp { legacy, ..c }) == weight_spec(CountMode::Api, c),
{
}

/// Content tokens count in every mode: Subscription is a lower bound of Raw and Api.
pub proof fn lemma_subscription_is_least(c: Comp)
    ensures
        weight_spec(CountMode::Subscription, c) <= weight_spec(CountMode::Raw, c),
        weight_spec(CountMode::Subscription, c) <= weight_spec(CountMode::Api, c),
{
}

/// The `oauthAccount` fields read from the user's account configuration.
pub struct Account {
    /// e.g. "claude_max", "claude_pro"
    pub organization_type: Option<String>,
    /// e.g. "stripe_subscription"
    pub billing_type: Option<String>,
}

/// The mode an explicit override word names, after trimming whitespace and folding ASCII
/// case; `None` for "auto", empty or unknown words.
pub open spec fn mode_word(word: Seq<char>) -> Option<CountMode> {
    let w = ascii_lowercase(trim(word));
    if w == "raw"@ {
        Some(CountMode::Raw)
    } else if w == "subscription"@ || w == "sub"@ {
        Some(CountMode::Subscription)
    } else if w == "api"@ {
        Some(CountMode::Api)
    } else {
        None
    }
}

/// Whether an account looks like a subscription plan: a `claude_*` organization, or
/// Stripe subscription billing.
pub open spec fn is_subscription_account(a: &Account) -> bool {
    ||| (a.organization_type matches Some(t) && starts_with(t@, "claude_"@))
    ||| (a.billing_type matches Some(b) && b@ == "stripe_subscription"@)
}

/// The detection decision, first match wins:
///   1. an explicit override word naming a mode,
///   2. a non-empty API key ⇒ Api,
///   3. the account's plan shape (subscription plan ⇒ Subscription, other account ⇒ Api),
///   4. no signal ⇒ Raw.
pub open spec fn decide_spec(
    env_mode: Option<Seq<char>>,
    has_api_key: bool,
    account: Option<&Account>,
) -> CountMode {
    if env_mode matches Some(w) && mode_word(w) is Some {
        mode_word(env_mode->0)->0
    } else if has_api_key {
        CountMode::Api
    } else if account is Some {
        if is_subscription_account(account->0) {
            CountMode::Subscription
        } else {
            CountMode::Api
        }
    } else {
        CountMode::Raw
    }
}

/// The mode an override word names, if any (see `mode_word`).
fn parse_mode_word(word: &str) -> (r: Option<CountMode>)
    ensures
        r == mode_word(word@),
{
    let v = chars_of(word);
    let start = skip_ws_forward(&v, 0, v.len());
    let end = skip_ws_backward(&v, start, v.len());
    proof {
        assert(v@.subrange(0, v@.len() as int) =~= v@);
        assert(trim(word@) == v@.subrange(start as int, end as int));
    }
    if lower_eq(&v, start, end, "raw") {
        Some(CountMode::Raw)
    } else if lower_eq(&v, start, end, "subscription") || lower_eq(&v, start, end, "sub") {
        Some(CountMode::Subscription)
    } else if lower_eq(&v, start, end, "api") {
        Some(CountMode::Api)
    } else {
        None
    }
}

/// Whether `account` is on a subscription plan.
fn subscription_account(a: &Account) -> (r: bool)
    ensures
        r == is_subscription_account(a),
{
    let by_org = match &a.organization_type {
        Some(t) => {
            let v = chars_of(t.as_str());
            let r = has_prefix(&v, 0, v.len(), "claude_");
            assert(v@.subrange(0, v@.len() as int) =~= v@);
            r
        },
        None => false,
    };
    let by_billing = match &a.billing_type {
        Some(b) => {
            let v = chars_of(b.as_str());
            let r = slice_eq(&v, 0, v.len(), "stripe_subscription");
            assert(v@.subrange(0, v@.len() as int) =~= v@);
            r
        },
        None => false,
    };
    by_org || by_billing
}

/// Pure detection decision. Resolution order, first match wins:
///   1. an explicit override (auto/raw/subscription/sub/api, trimmed, any ASCII case),
///   2. a non-empty API key ⇒ Api,
///   3. the account's plan shape (`claude_*` org or stripe subscription ⇒ Subscription;
///      any other account ⇒ Api),
///   4. no signal ⇒ Raw.
pub fn decide(env_mode: Option<&str>, has_api_key: bool, account: Option<&Account>) -> (m:
    CountMode)
    ensures
        m == decide_spec(
            match env_mode {
                Some(s) => Some(s@),
                None => None,
            },
            has_api_key,
            account,
        ),
{
    if let Some(w) = env_mode {
        if let Some(m) = parse_mode_word(w) {
            return m;
        }
    }
    if has_api_key {
        return CountMode::Api;
    }
    if let Some(a) = account {
        return if subscription_account(a) {
            CountMode::Subscription
        } else {
            CountMode::Api
        };
    }
    CountMode::Raw
}

} // verus!
