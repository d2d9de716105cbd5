use ssocca::otp::generate;
use ssocca::{Action, ActionError, Click, Input, Rule, Totp};

fn s(x: &str) -> String {
    x.to_string()
}

const NOW: u64 = 1_111_111_109;

#[test]
fn unguarded_input_fills_its_value() {
    let rule = Rule::Input(Input { on: None, to: s("#user"), value: s("alice") });
    assert_eq!(
        rule.plan(None, NOW),
        Ok(Action::Fill { target: s("#user"), text: s("alice") })
    );
}

#[test]
fn guarded_click_runs_on_matching_page() {
    let rule = Rule::Click(Click { on: Some(s("https://*.com/login")), to: s("#submit") });
    let url = s("https://example.com/login?next=/");
    assert_eq!(rule.plan(Some(&url), NOW), Ok(Action::Click { target: s("#submit") }));
}

#[test]
fn guarded_rule_is_skipped_on_other_page() {
    let rule = Rule::Click(Click { on: Some(s("/mfa")), to: s("#submit") });
    let url = s("https://example.com/login");
    assert_eq!(rule.plan(Some(&url), NOW), Ok(Action::Skip));
}

#[test]
fn guarded_rule_is_skipped_without_url() {
    let rule = Rule::Input(Input { on: Some(s("/login")), to: s("#user"), value: s("alice") });
    assert_eq!(rule.plan(None, NOW), Ok(Action::Skip));
}

#[test]
fn totp_fills_current_code() {
    let rule = Rule::Totp(Totp {
        on: Some(s("/mfa")),
        to: s("#otp"),
        seed: s("GEZDGNBVGY3TQOJQGEZDGNBVGY3TQOJQ"),
    });
    let url = s("https://example.com/mfa");
    assert_eq!(
        rule.plan(Some(&url), NOW),
        Ok(Action::Fill { target: s("#otp"), text: s("081804") })
    );
    assert_eq!(
        rule.plan(Some(&url), NOW),
        Ok(Action::Fill {
            target: s("#otp"),
            text: generate("GEZDGNBVGY3TQOJQGEZDGNBVGY3TQOJQ", NOW).unwrap()
        })
    );
}

#[test]
fn totp_with_bad_seed_fails() {
    let rule = Rule::Totp(Totp { on: None, to: s("#otp"), seed: s("0189") });
    assert_eq!(rule.plan(None, NOW), Err(ActionError::InvalidSeed));
}

#[test]
fn totp_with_bad_seed_is_skipped_off_its_page() {
    let rule = Rule::Totp(Totp { on: Some(s("/mfa")), to: s("#otp"), seed: s("0189") });
    let url = s("https://example.com/login");
    assert_eq!(rule.plan(Some(&url), NOW), Ok(Action::Skip));
}

#[test]
fn guard_reports_pattern() {
    let rule = Rule::Click(Click { on: Some(s("/mfa")), to: s("#go") });
    assert_eq!(rule.guard(), Some(&s("/mfa")));
    let rule = Rule::Input(Input { on: None, to: s("#u"), value: s("v") });
    assert_eq!(rule.guard(), None);
}
