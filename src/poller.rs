use crate::scenario::{names, opt_view, Finish};
use crate::url_pattern::chars_of;
use vstd::prelude::*;

verus! {

/// A cookie as the page reports it.
#[derive(Clone, Debug, PartialEq, Eq)]
pub struct Cookie {
    pub name: String,
    pub value: String,
    pub domain: String,
}

/// The phase of the completion poller. `Satisfied` and `TimedOut` are final.
#[derive(Clone, Copy, Debug, PartialEq, Eq, Structural)]
pub enum PollState {
    Polling,
    Satisfied,
    TimedOut,
}

/// What the caller does after a tick.
#[derive(Clone, Copy, Debug, PartialEq, Eq, Structural)]
pub enum Step {
    /// Some keys are still pending: try every rule, in order, then tick again.
    SweepRules,
    /// The poller reached a final phase.
    Finished,
}

/// A domain without its leading dot.
pub open spec fn trim_dot(d: Seq<char>) -> Seq<char> {
    if d.len() > 0 && d[0] == '.' {
        d.drop_first()
    } else {
        d
    }
}

/// Whether a cookie of `domain` counts under the finish criteria's domain
/// filter: without a filter every cookie counts, with one the domains must
/// agree once a leading dot is set aside.
pub open spec fn domain_accepts(filter: Option<Seq<char>>, domain: Seq<char>) -> bool {
    match filter {
        None => true,
        Some(f) => trim_dot(domain) == trim_dot(f),
    }
}

/// The value of the first cookie from position `k` on that is named `name`
/// and whose domain the filter accepts.
pub open spec fn first_value_from(
    cookies: Seq<Cookie>,
    name: Seq<char>,
    filter: Option<Seq<char>>,
    k: int,
) -> Option<Seq<char>>
    decreases cookies.len() - k,
{
    if k < 0 || k >= cookies.len() {
        None
    } else if cookies[k].name@ == name && domain_accepts(filter, cookies[k].domain@) {
        Some(cookies[k].value@)
    } else {
        first_value_from(cookies, name, filter, k + 1)
    }
}

/// The value of the first cookie named `name` whose domain the filter
/// accepts.
pub open spec fn first_value(
    cookies: Seq<Cookie>,
    name: Seq<char>,
    filter: Option<Seq<char>>,
) -> Option<Seq<char>> {
    first_value_from(cookies, name, filter, 0)
}

fn same_chars_from(a: &Vec<char>, i: usize, b: &Vec<char>, j: usize) -> (r: bool)
    requires
        i <= a@.len(),
        j <= b@.len(),
    ensures
        r == (a@.subrange(i as int, a@.len() as int) == b@.subrange(j as int, b@.len() as int)),
{
    if a.len() - i != b.len() - j {
        assert(a@.subrange(i as int, a@.len() as int).len() != b@.subrange(
            j as int,
            b@.len() as int,
        ).len());
        return false;
    }
    let la = a.len();
    let lb = b.len();
    let n = la - i;
    let mut k: usize = 0;
    while k < n
        invariant
            la == a@.len(),
            lb == b@.len(),
            n == a@.len() - i,
            i <= a@.len(),
            j <= b@.len(),
            a@.len() - i == b@.len() - j,
            k <= a@.len() - i,
            forall|x: int| i <= x < i + k ==> #[trigger] a@[x] == b@[x - i + j],
        decreases a@.len() - i - k,
    {
        if a[i + k] != b[j + k] {
            assert(a@.subrange(i as int, a@.len() as int)[k as int] != b@.subrange(
                j as int,
                b@.len() as int,
            )[k as int]);
            return false;
        }
        k = k + 1;
    }
    assert(a@.subrange(i as int, a@.len() as int) =~= b@.subrange(j as int, b@.len() as int));
    true
}

fn domain_ok(filter: &Option<String>, domain: &String) -> (r: bool)
    ensures
        r == domain_accepts(opt_view(*filter), domain@),
{
    match filter {
        None => true,
        Some(f) => {
            let a = chars_of(domain.as_str());
            let b = chars_of(f.as_str());
            let i: usize = if a.len() > 0 && a[0] == '.' { 1 } else { 0 };
            let j: usize = if b.len() > 0 && b[0] == '.' { 1 } else { 0 };
            assert(trim_dot(a@) =~= a@.subrange(i as int, a@.len() as int));
            assert(trim_dot(b@) =~= b@.subrange(j as int, b@.len() as int));
            same_chars_from(&a, i, &b, j)
        },
    }
}

fn find_value(cookies: &Vec<Cookie>, name: &String, filter: &Option<String>) -> (r: Option<String>)
    ensures
        opt_view(r) == first_value(cookies@, name@, opt_view(*filter)),
{
    let mut k: usize = 0;
    while k < cookies.len()
        invariant
            k <= cookies@.len(),
            first_value(cookies@, name@, opt_view(*filter)) == first_value_from(
                cookies@,
                name@,
                opt_view(*filter),
                k as int,
            ),
        decreases cookies@.len() - k,
    {
        let c = &cookies[k];
        if c.name == *name && domain_ok(filter, &c.domain) {
            return Some(c.value.clone());
        }
        k = k + 1;
    }
    None
}

/// Drives the cookie checks of a run. It keeps, for each requested cookie
/// key, the value seen for it, if any; a key without one is pending. A key
/// once seen is never looked up again, so the pending keys only shrink.
pub struct Poller {
    requested: Vec<String>,
    values: Vec<Option<String>>,
    domain: Option<String>,
    deadline_ms: u64,
    state: PollState,
}

impl Poller {
    /// The requested cookie keys, in the order of the finish criteria.
    pub closed spec fn keys(&self) -> Seq<Seq<char>> {
        names(self.requested@)
    }

    /// For each requested key, the value seen for it so far.
    pub closed spec fn found(&self) -> Seq<Option<Seq<char>>> {
        self.values@.map_values(|o: Option<String>| opt_view(o))
    }

    /// The domain filter of the finish criteria.
    pub closed spec fn domain(&self) -> Option<Seq<char>> {
        opt_view(self.domain)
    }

    /// The overall deadline, in milliseconds since the run began.
    pub closed spec fn deadline(&self) -> u64 {
        self.deadline_ms
    }

    /// The current phase.
    pub closed spec fn phase(&self) -> PollState {
        self.state
    }

    /// Every requested key has a value.
    pub open spec fn all_found(&self) -> bool {
        forall|i: int| 0 <= i < self.found().len() ==> (#[trigger] self.found()[i]) is Some
    }

    /// The keys still waited for.
    pub open spec fn pending_set(&self) -> Set<Seq<char>> {
        Set::new(
            |k: Seq<char>|
                exists|i: int|
                    0 <= i < self.keys().len() && self.keys()[i] == k && (
                    #[trigger] self.found()[i]) is None,
        )
    }

    /// A value slot for every key, and success only once every key has a
    /// value.
    #[verifier::type_invariant]
    spec fn wf(&self) -> bool {
        &&& self.found().len() == self.keys().len()
        &&& self.phase() == PollState::Satisfied ==> self.all_found()
    }

    /// A poller for the finish criteria `finish` that gives up once
    /// `deadline_ms` milliseconds have passed.
    pub fn new(finish: &Finish, deadline_ms: u64) -> (r: Poller)
        ensures
            r.keys() == names(finish.with@),
            forall|i: int| 0 <= i < r.found().len() ==> (#[trigger] r.found()[i]) is None,
            r.domain() == opt_view(finish.on),
            r.deadline() == deadline_ms,
            r.phase() == PollState::Polling,
    {
        let mut requested: Vec<String> = Vec::new();
        let mut values: Vec<Option<String>> = Vec::new();
        let mut k: usize = 0;
        while k < finish.with.len()
            invariant
                k <= finish.with@.len(),
                requested@ == finish.with@.subrange(0, k as int),
                values@.len() == k,
                forall|x: int| 0 <= x < k ==> (#[trigger] values@[x]) is None,
            decreases finish.with@.len() - k,
        {
            requested.push(finish.with[k].clone());
            values.push(None);
            k = k + 1;
        }
        assert(requested@ =~= finish.with@);
        let domain = match &finish.on {
            Some(d) => Some(d.clone()),
            None => None,
        };
        let r = Poller { requested, values, domain, deadline_ms, state: PollState::Polling };
        assert forall|i: int| 0 <= i < r.found().len() implies (#[trigger] r.found()[i]) is None by {
            assert(values@[i] is None);
        }
        r
    }

    /// The current phase.
    pub fn state(&self) -> (r: PollState)
        ensures
            r == self.phase(),
    {
        self.state
    }

    /// The keys still waited for, in the order of the finish criteria.
    pub fn pending(&self) -> (r: Vec<String>)
        ensures
            names(r@).to_set() == self.pending_set(),
    {
        proof {
            use_type_invariant(&*self);
        }
        let mut r: Vec<String> = Vec::new();
        let mut k: usize = 0;
        while k < self.requested.len()
            invariant
                self.wf(),
                k <= self.keys().len(),
                forall|x: Seq<char>|
                    names(r@).contains(x) <==> exists|i: int|
                        0 <= i < k && self.keys()[i] == x && (#[trigger] self.found()[i]) is None,
            decreases self.keys().len() - k,
        {
            let ghost before = r@;
            if self.values[k].is_none() {
                r.push(self.requested[k].clone());
                assert(names(r@) =~= names(before).push(self.keys()[k as int]));
            }
            assert(self.found()[k as int] == opt_view(self.values@[k as int]));
            assert forall|x: Seq<char>|
                names(r@).contains(x) <==> exists|i: int|
                    0 <= i < k + 1 && self.keys()[i] == x && (#[trigger] self.found()[i]) is None by {
                if names(r@).contains(x) {
                    let j = choose|j: int| 0 <= j < names(r@).len() && names(r@)[j] == x;
                    if j < names(before).len() {
                        assert(names(before)[j] == x);
                        assert(names(before).contains(x));
                    } else {
                        assert(self.keys()[k as int] == x && self.found()[k as int] is None);
                    }
                }
                if exists|i: int|
                    0 <= i < k + 1 && self.keys()[i] == x && (#[trigger] self.found()[i]) is None {
                    let i = choose|i: int|
                        0 <= i < k + 1 && self.keys()[i] == x && (#[trigger] self.found()[i]) is None;
                    if i < k {
                        assert(names(before).contains(x));
                        let j = choose|j: int| 0 <= j < names(before).len() && names(before)[j] == x;
                        assert(names(r@)[j] == x);
                    } else {
                        assert(names(r@)[names(r@).len() - 1] == x);
                    }
                }
            }
            k = k + 1;
        }
        assert(names(r@).to_set() =~= self.pending_set());
        r
    }
    /// One tick of the poller, given the cookies the page holds now and the
    /// time passed since the run began. Each pending key takes the value of
    /// the first cookie of that name whose domain the filter accepts. Once no
    /// key is pending the poller is `Satisfied`; otherwise, past the deadline
    /// it is `TimedOut`, and before it the rules are to be swept. A poller in
    /// a final phase stays as it is.
    pub fn tick(&mut self, cookies: &Vec<Cookie>, elapsed_ms: u64) -> (r: Step)
        ensures
            final(self).keys() == old(self).keys(),
            final(self).domain() == old(self).domain(),
            final(self).deadline() == old(self).deadline(),
            final(self).pending_set().subset_of(old(self).pending_set()),
            old(self).phase() != PollState::Polling ==> *final(self) == *old(self) && r
                == Step::Finished,
            old(self).phase() == PollState::Polling ==> {
                &&& forall|i: int|
                    0 <= i < old(self).keys().len() ==> #[trigger] final(self).found()[i] == (
                    if old(self).found()[i] is Some {
                        old(self).found()[i]
                    } else {
                        first_value(cookies@, old(self).keys()[i], old(self).domain())
                    })
                &&& final(self).phase() == (if final(self).all_found() {
                    PollState::Satisfied
                } else if elapsed_ms > old(self).deadline() {
                    PollState::TimedOut
                } else {
                    PollState::Polling
                })
                &&& r == (if final(self).phase() == PollState::Polling {
                    Step::SweepRules
                } else {
                    Step::Finished
                })
            },
            old(self).phase() == PollState::Polling && old(self).keys().len() == 0 ==> r
                == Step::Finished && final(self).phase() == PollState::Satisfied,
    {
        proof {
            use_type_invariant(&*self);
        }
        if self.state != PollState::Polling {
            return Step::Finished;
        }
        let mut next: Vec<Option<String>> = Vec::new();
        let mut all = true;
        let mut k: usize = 0;
        while k < self.requested.len()
            invariant
                *self == *old(self),
                self.wf(),
                k <= self.keys().len(),
                next@.len() == k,
                forall|x: int|
                    0 <= x < k ==> #[trigger] opt_view(next@[x]) == (if self.found()[x] is Some {
                        self.found()[x]
                    } else {
                        first_value(cookies@, self.keys()[x], self.domain())
                    }),
                all == forall|x: int| 0 <= x < k ==> (#[trigger] next@[x]) is Some,
            decreases self.keys().len() - k,
        {
            let ghost before = next@;
            assert(self.found()[k as int] == opt_view(self.values@[k as int]));
            let v = match &self.values[k] {
                Some(s) => Some(s.clone()),
                None => find_value(cookies, &self.requested[k], &self.domain),
            };
            if v.is_none() {
                all = false;
            }
            next.push(v);
            assert forall|x: int| 0 <= x < k + 1 implies #[trigger] opt_view(next@[x]) == (
            if self.found()[x] is Some {
                self.found()[x]
            } else {
                first_value(cookies@, self.keys()[x], self.domain())
            }) by {
                if x < k {
                    assert(next@[x] == before[x]);
                }
            }
            assert(all == forall|x: int| 0 <= x < k + 1 ==> (#[trigger] next@[x]) is Some) by {
                if !all {
                    if next@[k as int] is Some {
                        let x = choose|x: int| 0 <= x < k && !((#[trigger] before[x]) is Some);
                        assert(next@[x] == before[x]);
                    }
                }
                if all {
                    assert forall|x: int| 0 <= x < k + 1 implies (#[trigger] next@[x]) is Some by {
                        if x < k {
                            assert(next@[x] == before[x]);
                        }
                    }
                }
            }
            k = k + 1;
        }
        self.values = next;
        let ghost old_found = old(self).found();
        assert forall|i: int| 0 <= i < self.found().len() implies (#[trigger] self.found()[i]) == (
        if old_found[i] is Some {
            old_found[i]
        } else {
            first_value(cookies@, old(self).keys()[i], old(self).domain())
        }) by {
            assert(self.found()[i] == opt_view(self.values@[i]));
        }
        assert(all == self.all_found()) by {
            if all {
                assert forall|i: int| 0 <= i < self.found().len() implies (
                #[trigger] self.found()[i]) is Some by {
                    assert(self.found()[i] == opt_view(self.values@[i]));
                }
            }
            if self.all_found() {
                assert forall|i: int| 0 <= i < self.values@.len() implies (
                #[trigger] self.values@[i]) is Some by {
                    assert(self.found()[i] == opt_view(self.values@[i]));
                }
            }
        }
        assert forall|key: Seq<char>| self.pending_set().contains(key) implies old(
            self,
        ).pending_set().contains(key) by {
            let i = choose|i: int|
                0 <= i < self.keys().len() && self.keys()[i] == key && (
                #[trigger] self.found()[i]) is None;
            assert(old_found[i] is None);
        }
        if all {
            self.state = PollState::Satisfied;
            Step::Finished
        } else if elapsed_ms > self.deadline_ms {
            self.state = PollState::TimedOut;
            Step::Finished
        } else {
            Step::SweepRules
        }
    }

    /// The overall deadline passed, possibly in the middle of a tick: a
    /// poller still polling times out, one in a final phase stays as it is.
    pub fn time_out(&mut self)
        ensures
            final(self).keys() == old(self).keys(),
            final(self).found() == old(self).found(),
            final(self).domain() == old(self).domain(),
            final(self).deadline() == old(self).deadline(),
            final(self).phase() == (if old(self).phase() == PollState::Polling {
                PollState::TimedOut
            } else {
                old(self).phase()
            }),
    {
        proof {
            use_type_invariant(&*self);
        }
        if self.state == PollState::Polling {
            self.state = PollState::TimedOut;
        }
    }

    /// The cookies acquired, as (key, value) pairs in the order of the
    /// requested keys. There are some only once the poller is `Satisfied`,
    /// and then there is a value for every requested key: a part of them is
    /// never handed out as success.
    pub fn outcome(&self) -> (r: Option<Vec<(String, String)>>)
        ensures
            r is Some <==> self.phase() == PollState::Satisfied,
            r is Some ==> self.all_found(),
            r is Some ==> r->Some_0@.len() == self.keys().len(),
            r is Some ==> forall|i: int|
                0 <= i < self.keys().len() ==> {
                    &&& (#[trigger] r->Some_0@[i]).0@ == self.keys()[i]
                    &&& self.found()[i] == Some(r->Some_0@[i].1@)
                },
    {
        proof {
            use_type_invariant(&*self);
        }
        if self.state != PollState::Satisfied {
            return None;
        }
        let mut pairs: Vec<(String, String)> = Vec::new();
        let mut k: usize = 0;
        while k < self.requested.len()
            invariant
                self.wf(),
                self.phase() == PollState::Satisfied,
                k <= self.keys().len(),
                pairs@.len() == k,
                forall|i: int|
                    0 <= i < k ==> {
                        &&& (#[trigger] pairs@[i]).0@ == self.keys()[i]
                        &&& self.found()[i] == Some(pairs@[i].1@)
                    },
            decreases self.keys().len() - k,
        {
            assert(self.found()[k as int] == opt_view(self.values@[k as int]));
            assert(self.found()[k as int] is Some);
            match &self.values[k] {
                Some(v) => {
                    pairs.push((self.requested[k].clone(), v.clone()));
                },
                None => {},
            }
            k = k + 1;
        }
        Some(pairs)
    }
}

} // verus!
