use crate::otp::{generate, totp_code, valid_seed};
use crate::scenario::{opt_view, Rule};
use crate::url_pattern::{guard_accepts, opt_ref_view};
use vstd::prelude::*;

verus! {

/// What a rule asks of the page on this tick.
#[derive(Clone, Debug, PartialEq, Eq)]
pub enum Action {
    /// The guard does not admit the current page: nothing is done.
    Skip,
    /// Click the element that `target` selects.
    Click { target: String },
    /// Click the element that `target` selects, to focus it, then type `text`.
    Fill { target: String, text: String },
}

/// Why a rule could not be applied on this tick. None of these ends a run:
/// the rule is tried again on the next tick.
#[derive(Clone, Copy, Debug, PartialEq, Eq)]
pub enum ActionError {
    /// No element matches the rule's selector.
    ElementNotFound,
    /// The element was found, but clicking or typing failed.
    InteractionFailed,
    /// The rule's TOTP seed is not valid base32.
    InvalidSeed,
}

/// The URL pattern that gates a rule.
pub open spec fn rule_guard(rule: Rule) -> Option<Seq<char>> {
    match rule {
        Rule::Input(i) => opt_view(i.on),
        Rule::Totp(t) => opt_view(t.on),
        Rule::Click(c) => opt_view(c.on),
    }
}

impl Rule {
    /// The URL pattern that gates this rule, if any.
    pub fn guard(&self) -> (r: Option<&String>)
        ensures
            opt_ref_view(r) == rule_guard(*self),
    {
        let on = match self {
            Rule::Input(i) => &i.on,
            Rule::Totp(t) => &t.on,
            Rule::Click(c) => &c.on,
        };
        match on {
            Some(p) => Some(p),
            None => None,
        }
    }

    /// Decides what this rule does on the page at `current_url` at Unix time
    /// `now` (seconds). A guard that does not admit the page gives `Skip`;
    /// otherwise an `Input` fills in its value, a `Totp` fills in the
    /// passcode of its seed at `now`, and a `Click` clicks. A `Totp` with a
    /// seed that is not base32 fails with `InvalidSeed`.
    pub fn plan(&self, current_url: Option<&String>, now: u64) -> (r: Result<Action, ActionError>)
        ensures
            !guard_accepts(rule_guard(*self), opt_ref_view(current_url)) ==> r == Ok::<
                Action,
                ActionError,
            >(Action::Skip),
            guard_accepts(rule_guard(*self), opt_ref_view(current_url)) ==> match *self {
                Rule::Input(i) => r == Ok::<Action, ActionError>(
                    Action::Fill { target: i.to, text: i.value },
                ),
                Rule::Click(c) => r == Ok::<Action, ActionError>(Action::Click { target: c.to }),
                Rule::Totp(t) => if valid_seed(t.seed@) {
                    &&& r is Ok
                    &&& r->Ok_0 matches Action::Fill { target, text }
                    &&& target == t.to
                    &&& text@ == totp_code(t.seed@, now)
                } else {
                    r == Err::<Action, ActionError>(ActionError::InvalidSeed)
                },
            },
    {
        if !crate::url_pattern::matches(self.guard(), current_url) {
            return Ok(Action::Skip);
        }
        match self {
            Rule::Input(i) => Ok(Action::Fill { target: i.to.clone(), text: i.value.clone() }),
            Rule::Click(c) => Ok(Action::Click { target: c.to.clone() }),
            Rule::Totp(t) => match generate(t.seed.as_str(), now) {
                Ok(code) => Ok(Action::Fill { target: t.to.clone(), text: code }),
                Err(_) => Err(ActionError::InvalidSeed),
            },
        }
    }
}

} // verus!
