use vstd::prelude::*;

verus! {

/// Where a run begins: the page that is opened before any rule is tried.
#[derive(Clone, Debug, PartialEq, Eq)]
pub struct Start {
    pub url: String,
}

/// Types `value` into the element that `to` selects, after clicking it to
/// give it focus.
#[derive(Clone, Debug, PartialEq, Eq)]
pub struct Input {
    pub on: Option<String>,
    pub to: String,
    pub value: String,
}

/// Types the current one-time passcode of `seed` (base32) into the element
/// that `to` selects, after clicking it to give it focus.
#[derive(Clone, Debug, PartialEq, Eq)]
pub struct Totp {
    pub on: Option<String>,
    pub to: String,
    pub seed: String,
}

/// Clicks the element that `to` selects.
#[derive(Clone, Debug, PartialEq, Eq)]
pub struct Click {
    pub on: Option<String>,
    pub to: String,
}

/// One page action, optionally gated by a URL pattern (`on`).
#[derive(Clone, Debug, PartialEq, Eq)]
pub enum Rule {
    Input(Input),
    Totp(Totp),
    Click(Click),
}

/// What ends a run: every cookie named in `with` has been seen. When `on`
/// is given, only cookies of that domain count.
#[derive(Clone, Debug, PartialEq, Eq)]
pub struct Finish {
    pub on: Option<String>,
    pub with: Vec<String>,
}

/// A whole run: the start page, the rules in the order they are tried on
/// each tick, and the finish criteria.
#[derive(Clone, Debug, PartialEq, Eq)]
pub struct Scenario {
    pub start: Start,
    pub rules: Vec<Rule>,
    pub finish: Finish,
}

/// Why no scenario could be put together.
#[derive(Clone, Copy, Debug, PartialEq, Eq)]
pub enum ScenarioError {
    /// Neither a declarative scenario nor a start URL was given.
    MissingStart,
}

/// The character sequences of a list of strings.
pub open spec fn names(v: Seq<String>) -> Seq<Seq<char>> {
    v.map_values(|s: String| s@)
}

/// The view of an optional string.
pub open spec fn opt_view(o: Option<String>) -> Option<Seq<char>> {
    match o {
        Some(s) => Some(s@),
        None => None,
    }
}

/// `s` without its repeated entries: each one is kept where it first occurs.
pub open spec fn dedup(s: Seq<Seq<char>>) -> Seq<Seq<char>>
    decreases s.len(),
{
    if s.len() == 0 {
        Seq::empty()
    } else {
        let d = dedup(s.drop_last());
        if d.contains(s.last()) {
            d
        } else {
            d.push(s.last())
        }
    }
}

/// The cookie keys of a merged scenario: those of the declarative source,
/// then those given on the command line, each once.
pub open spec fn merged_keys(declared: Seq<Seq<char>>, cli: Seq<Seq<char>>) -> Seq<Seq<char>> {
    dedup(declared + cli)
}

proof fn lemma_dedup(s: Seq<Seq<char>>)
    ensures
        dedup(s).no_duplicates(),
        dedup(s).to_set() == s.to_set(),
    decreases s.len(),
{
    if s.len() > 0 {
        let t = s.drop_last();
        lemma_dedup(t);
        assert(s =~= t.push(s.last()));
        t.lemma_push_to_set_commute(s.last());
        let d = dedup(t);
        if !d.contains(s.last()) {
            d.lemma_push_to_set_commute(s.last());
            assert(d.push(s.last()).no_duplicates()) by {
                assert forall|i: int, j: int|
                    0 <= i < j < d.len() + 1 implies d.push(s.last())[i] != d.push(
                        s.last(),
                    )[j] by {
                    if j == d.len() {
                        assert(d.contains(d[i]));
                    }
                }
            }
        } else {
            assert(d.to_set().contains(s.last()));
            assert(d.to_set() =~= d.to_set().insert(s.last()));
        }
    } else {
        assert(s.to_set() =~= Set::empty());
        assert(dedup(s).to_set() =~= Set::empty());
    }
}

/// Merging cookie keys keeps every key of either source, adds none, and
/// holds each key once.
pub proof fn lemma_merged_keys(declared: Seq<Seq<char>>, cli: Seq<Seq<char>>)
    ensures
        merged_keys(declared, cli).no_duplicates(),
        merged_keys(declared, cli).to_set() == declared.to_set().union(cli.to_set()),
{
    lemma_dedup(declared + cli);
    assert((declared + cli).to_set() =~= declared.to_set().union(cli.to_set())) by {
        assert forall|k: Seq<char>| #[trigger] (declared + cli).contains(k) implies declared.contains(
            k,
        ) || cli.contains(k) by {
            let i = choose|i: int| 0 <= i < (declared + cli).len() && (declared + cli)[i] == k;
            if i >= declared.len() {
                assert(cli[i - declared.len()] == k);
            }
        }
        assert forall|k: Seq<char>| declared.contains(k) implies #[trigger] (declared
            + cli).contains(k) by {
            let i = choose|i: int| 0 <= i < declared.len() && declared[i] == k;
            assert((declared + cli)[i] == k);
        }
        assert forall|k: Seq<char>| cli.contains(k) implies #[trigger] (declared
            + cli).contains(k) by {
            let i = choose|i: int| 0 <= i < cli.len() && cli[i] == k;
            assert((declared + cli)[declared.len() + i] == k);
        }
    }
}

fn contains_key(keys: &Vec<String>, key: &String) -> (r: bool)
    ensures
        r == names(keys@).contains(key@),
{
    let mut k: usize = 0;
    while k < keys.len()
        invariant
            k <= keys@.len(),
            forall|x: int| 0 <= x < k ==> keys@[x]@ != key@,
        decreases keys@.len() - k,
    {
        if keys[k] == *key {
            assert(names(keys@)[k as int] == key@);
            return true;
        }
        k = k + 1;
    }
    assert(!names(keys@).contains(key@)) by {
        if names(keys@).contains(key@) {
            let i = choose|i: int| 0 <= i < names(keys@).len() && names(keys@)[i] == key@;
            assert(keys@[i]@ == key@);
        }
    }
    false
}

/// `all` without repeated keys, each kept where it first occurs.
fn dedup_keys(all: &Vec<String>) -> (r: Vec<String>)
    ensures
        names(r@) == dedup(names(all@)),
{
    let mut r: Vec<String> = Vec::new();
    let mut k: usize = 0;
    while k < all.len()
        invariant
            k <= all@.len(),
            names(r@) == dedup(names(all@.subrange(0, k as int))),
        decreases all@.len() - k,
    {
        let ghost before = r@;
        let ghost prefix = names(all@.subrange(0, k as int + 1));
        assert(prefix.drop_last() =~= names(all@.subrange(0, k as int)));
        assert(prefix.last() == all@[k as int]@);
        if !contains_key(&r, &all[k]) {
            r.push(all[k].clone());
            assert(names(r@) =~= names(before).push(all@[k as int]@));
        }
        k = k + 1;
    }
    assert(all@.subrange(0, all@.len() as int) =~= all@);
    r
}

impl Default for Finish {
    fn default() -> (r: Finish)
        ensures
            r.on is None,
            r.with@.len() == 0,
    {
        Finish { on: None, with: Vec::new() }
    }
}

impl Scenario {
    /// Puts the scenario of a run together from the declarative source, when
    /// there is one, and the command-line options. The declarative start and
    /// rules win; the cookie keys of both are joined, each kept once. With
    /// neither a declarative source nor a URL there is nothing to start
    /// from.
    pub fn override_with_args(declared: Option<Scenario>, url: Option<String>, cookie: Vec<String>) -> (r: Result<Scenario, ScenarioError>)
        ensures
            r is Err <==> (declared is None && url is None),
            r is Err ==> r == Err::<Scenario, ScenarioError>(ScenarioError::MissingStart),
            r is Ok ==> ({
                let s = r->Ok_0;
                match declared {
                    Some(d) => {
                        &&& s.start == d.start
                        &&& s.rules == d.rules
                        &&& s.finish.on == d.finish.on
                        &&& names(s.finish.with@) == merged_keys(names(d.finish.with@), names(cookie@))
                    },
                    None => {
                        &&& s.start.url@ == url->Some_0@
                        &&& s.rules@.len() == 0
                        &&& s.finish.on is None
                        &&& names(s.finish.with@) == merged_keys(Seq::empty(), names(cookie@))
                    },
                }
            }),
    {
        match declared {
            Some(d) => {
                let Scenario { start, rules, finish } = d;
                let Finish { on, with } = finish;
                let mut all = with;
                let ghost declared_with = all@;
                let mut k: usize = 0;
                while k < cookie.len()
                    invariant
                        k <= cookie@.len(),
                        names(all@) == names(declared_with) + names(cookie@.subrange(0, k as int)),
                    decreases cookie@.len() - k,
                {
                    let ghost before = all@;
                    all.push(cookie[k].clone());
                    assert(names(all@) =~= names(before).push(cookie@[k as int]@));
                    assert(names(cookie@.subrange(0, k as int + 1)) =~= names(
                        cookie@.subrange(0, k as int),
                    ).push(cookie@[k as int]@));
                    k = k + 1;
                }
                assert(cookie@.subrange(0, cookie@.len() as int) =~= cookie@);
                let with = dedup_keys(&all);
                Ok(Scenario { start, rules, finish: Finish { on, with } })
            },
            None => match url {
                None => Err(ScenarioError::MissingStart),
                Some(u) => {
                    let with = dedup_keys(&cookie);
                    assert(Seq::<Seq<char>>::empty() + names(cookie@) =~= names(cookie@));
                    Ok(Scenario {
                        start: Start { url: u },
                        rules: Vec::new(),
                        finish: Finish { on: None, with },
                    })
                },
            },
        }
    }
}

} // verus!
