//! Scenario execution engine for acquiring single-sign-on session cookies.
//!
//! The library holds the decisions of a browser-driven login flow: the
//! declarative scenario model, the URL guard that gates each rule, the
//! one-time passcode used by TOTP rules, the per-rule dispatch decision and
//! the completion poller. Performing page actions is left to the caller.

pub mod dispatch;
pub mod otp;
pub mod poller;
pub mod scenario;
pub mod url_pattern;

pub use dispatch::{Action, ActionError};
pub use poller::{Cookie, PollState, Poller, Step};
pub use scenario::{Click, Finish, Input, Rule, Scenario, ScenarioError, Start, Totp};
