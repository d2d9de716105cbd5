use ssocca::{Action, Click, Cookie, Finish, Input, PollState, Poller, Rule, Scenario, Start, Step};

fn s(x: &str) -> String {
    x.to_string()
}

fn cookie(name: &str, value: &str, domain: &str) -> Cookie {
    Cookie { name: s(name), value: s(value), domain: s(domain) }
}

fn finish(with: &[&str]) -> Finish {
    Finish { on: None, with: with.iter().map(|k| s(k)).collect() }
}

#[test]
fn empty_finish_is_satisfied_on_first_tick() {
    let mut p = Poller::new(&finish(&[]), 1_000);
    assert_eq!(p.state(), PollState::Polling);
    assert_eq!(p.tick(&vec![cookie("x", "1", "example.com")], 500), Step::Finished);
    assert_eq!(p.state(), PollState::Satisfied);
    assert_eq!(p.outcome(), Some(vec![]));
}

#[test]
fn pending_keys_shrink_as_cookies_appear() {
    let mut p = Poller::new(&finish(&["a", "b", "c"]), 10_000);
    assert_eq!(p.pending(), vec![s("a"), s("b"), s("c")]);
    assert_eq!(p.tick(&vec![cookie("b", "2", "example.com")], 500), Step::SweepRules);
    assert_eq!(p.pending(), vec![s("a"), s("c")]);
    // a key once seen stays seen, even when the cookie is gone
    assert_eq!(p.tick(&vec![cookie("c", "3", "example.com")], 1_000), Step::SweepRules);
    assert_eq!(p.pending(), vec![s("a")]);
    assert_eq!(p.outcome(), None);
    assert_eq!(p.tick(&vec![cookie("a", "1", "example.com")], 1_500), Step::Finished);
    assert!(p.pending().is_empty());
    assert_eq!(p.state(), PollState::Satisfied);
    assert_eq!(
        p.outcome(),
        Some(vec![(s("a"), s("1")), (s("b"), s("2")), (s("c"), s("3"))])
    );
}

#[test]
fn first_value_seen_is_kept() {
    let mut p = Poller::new(&finish(&["sid"]), 10_000);
    let cookies = vec![cookie("sid", "first", "a.com"), cookie("sid", "second", "b.com")];
    assert_eq!(p.tick(&cookies, 500), Step::Finished);
    assert_eq!(p.outcome(), Some(vec![(s("sid"), s("first"))]));
}

#[test]
fn domain_filter_ignores_other_domains() {
    let f = Finish { on: Some(s("example.com")), with: vec![s("sid")] };
    let mut p = Poller::new(&f, 10_000);
    assert_eq!(p.tick(&vec![cookie("sid", "wrong", "evil.org")], 500), Step::SweepRules);
    assert_eq!(p.tick(&vec![cookie("sid", "right", ".example.com")], 1_000), Step::Finished);
    assert_eq!(p.outcome(), Some(vec![(s("sid"), s("right"))]));
}

#[test]
fn deadline_passed_times_out() {
    let mut p = Poller::new(&finish(&["never_set"]), 1_200);
    assert_eq!(p.tick(&vec![], 500), Step::SweepRules);
    assert_eq!(p.tick(&vec![cookie("other", "1", "example.com")], 1_000), Step::SweepRules);
    assert_eq!(p.tick(&vec![], 1_500), Step::Finished);
    assert_eq!(p.state(), PollState::TimedOut);
    assert_eq!(p.outcome(), None);
    // a final phase is kept
    assert_eq!(p.tick(&vec![cookie("never_set", "late", "example.com")], 1_600), Step::Finished);
    assert_eq!(p.state(), PollState::TimedOut);
    assert_eq!(p.outcome(), None);
}

#[test]
fn partial_set_is_no_success_at_timeout() {
    let mut p = Poller::new(&finish(&["a", "b"]), 100);
    assert_eq!(p.tick(&vec![cookie("a", "1", "example.com")], 500), Step::Finished);
    assert_eq!(p.state(), PollState::TimedOut);
    assert_eq!(p.outcome(), None);
    assert_eq!(p.pending(), vec![s("b")]);
}

#[test]
fn time_out_mid_tick() {
    let mut p = Poller::new(&finish(&["sid"]), 60_000);
    assert_eq!(p.tick(&vec![], 500), Step::SweepRules);
    p.time_out();
    assert_eq!(p.state(), PollState::TimedOut);
    assert_eq!(p.outcome(), None);
}

#[test]
fn time_out_keeps_satisfied() {
    let mut p = Poller::new(&finish(&["sid"]), 60_000);
    assert_eq!(p.tick(&vec![cookie("sid", "v", "x")], 500), Step::Finished);
    p.time_out();
    assert_eq!(p.state(), PollState::Satisfied);
    assert_eq!(p.outcome(), Some(vec![(s("sid"), s("v"))]));
}

/// A login page that sets `session_id` once the right user and password are
/// submitted.
struct FakePage {
    url: Option<String>,
    user: String,
    pass: String,
    focused: Option<String>,
    cookies: Vec<Cookie>,
}

impl FakePage {
    fn new() -> FakePage {
        FakePage { url: None, user: s(""), pass: s(""), focused: None, cookies: vec![] }
    }

    fn click(&mut self, target: &str) {
        self.focused = Some(s(target));
        if target == "#submit" && self.user == "alice" && self.pass == "secret" {
            self.cookies.push(cookie("session_id", "abc123", "example.com"));
            self.url = Some(s("https://example.com/home"));
        }
    }

    fn type_text(&mut self, text: &str) {
        match self.focused.as_deref() {
            Some("#user") => self.user.push_str(text),
            Some("#pass") => self.pass.push_str(text),
            _ => {}
        }
    }
}

#[test]
fn login_flow_acquires_session_cookie() {
    let scenario = Scenario {
        start: Start { url: s("https://example.com/login") },
        rules: vec![
            Rule::Input(Input { on: None, to: s("#user"), value: s("alice") }),
            Rule::Input(Input { on: None, to: s("#pass"), value: s("secret") }),
            Rule::Click(Click { on: None, to: s("#submit") }),
        ],
        finish: finish(&["session_id"]),
    };
    let mut page = FakePage::new();
    page.url = Some(scenario.start.url.clone());
    let mut poller = Poller::new(&scenario.finish, 10_000);
    let mut phases = vec![poller.state()];
    let mut elapsed = 0u64;
    loop {
        elapsed += 500;
        let step = poller.tick(&page.cookies.clone(), elapsed);
        if phases.last() != Some(&poller.state()) {
            phases.push(poller.state());
        }
        if step == Step::Finished {
            break;
        }
        for rule in &scenario.rules {
            match rule.plan(page.url.as_ref(), 0) {
                Ok(Action::Skip) | Err(_) => {}
                Ok(Action::Click { target }) => page.click(&target),
                Ok(Action::Fill { target, text }) => {
                    page.click(&target);
                    page.type_text(&text);
                }
            }
        }
    }
    assert_eq!(phases, vec![PollState::Polling, PollState::Satisfied]);
    assert!(elapsed <= 10_000);
    assert_eq!(poller.outcome(), Some(vec![(s("session_id"), s("abc123"))]));
}

#[test]
fn login_flow_without_session_cookie_times_out() {
    let scenario = Scenario {
        start: Start { url: s("https://example.com/login") },
        rules: vec![Rule::Click(Click { on: None, to: s("#submit") })],
        finish: finish(&["never_set"]),
    };
    let mut page = FakePage::new();
    page.url = Some(scenario.start.url.clone());
    let mut poller = Poller::new(&scenario.finish, 1_200);
    let mut elapsed = 0u64;
    loop {
        elapsed += 500;
        if poller.tick(&page.cookies.clone(), elapsed) == Step::Finished {
            break;
        }
        for rule in &scenario.rules {
            if let Ok(Action::Click { target }) = rule.plan(page.url.as_ref(), 0) {
                page.click(&target);
            }
        }
    }
    assert_eq!(poller.state(), PollState::TimedOut);
    assert_eq!(poller.outcome(), None);
}
