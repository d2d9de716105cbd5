use vstd::prelude::*;

verus! {

/// Wildcard match of pattern `p` from position `i` against text `s` from
/// position `j`: `*` stands for any run of characters (possibly empty), every
/// other character stands for itself.
pub open spec fn glob_from(p: Seq<char>, s: Seq<char>, i: int, j: int) -> bool
    decreases p.len() - i, s.len() - j,
{
    if i < 0 || j < 0 || i >= p.len() {
        i == p.len() && j == s.len()
    } else if p[i] == '*' {
        glob_from(p, s, i + 1, j) || (j < s.len() && glob_from(p, s, i, j + 1))
    } else {
        j < s.len() && s[j] == p[i] && glob_from(p, s, i + 1, j + 1)
    }
}

/// The whole of `s` matches the wildcard pattern `p`.
pub open spec fn glob_match(p: Seq<char>, s: Seq<char>) -> bool {
    glob_from(p, s, 0, 0)
}

/// A URL pattern matches a URL when the pattern matches some part of it:
/// the pattern is read as if it began and ended with `*`.
pub open spec fn pattern_matches(p: Seq<char>, url: Seq<char>) -> bool {
    glob_match(seq!['*'] + p + seq!['*'], url)
}

/// The guard of a rule: no pattern admits every page, a pattern admits no
/// page whose URL is unknown.
pub open spec fn guard_accepts(pattern: Option<Seq<char>>, url: Option<Seq<char>>) -> bool {
    match pattern {
        None => true,
        Some(p) => match url {
            None => false,
            Some(u) => pattern_matches(p, u),
        },
    }
}

/// The view of an optional borrowed string.
pub open spec fn opt_ref_view(o: Option<&String>) -> Option<Seq<char>> {
    match o {
        Some(s) => Some(s@),
        None => None,
    }
}

pub(crate) fn chars_of(s: &str) -> (r: Vec<char>)
    ensures
        r@ == s@,
{
    let n = s.unicode_len();
    let mut r: Vec<char> = Vec::new();
    let mut k: usize = 0;
    while k < n
        invariant
            n == s@.len(),
            k <= n,
            r@ == s@.subrange(0, k as int),
        decreases n - k,
    {
        r.push(s.get_char(k));
        k = k + 1;
    }
    assert(r@ =~= s@);
    r
}

/// Decides whether the wildcard pattern `p` matches the whole of `s`.
fn glob_vec(p: &Vec<char>, s: &Vec<char>) -> (r: bool)
    ensures
        r == glob_match(p@, s@),
{
    let n = p.len();
    let m = s.len();
    // One row of answers for a fixed pattern position `i`: `row[x]` for each
    // text position `x < m`, and `row_end` for the end of the text.
    let mut row: Vec<bool> = Vec::new();
    let mut k: usize = 0;
    while k < m
        invariant
            n == p@.len(),
            m == s@.len(),
            k <= m,
            row@.len() == k,
            forall|x: int| 0 <= x < k ==> row@[x] == glob_from(p@, s@, n as int, x),
        decreases m - k,
    {
        row.push(false);
        k = k + 1;
    }
    let mut row_end = true;
    let mut i: usize = n;
    while i > 0
        invariant
            n == p@.len(),
            m == s@.len(),
            i <= n,
            row@.len() == m,
            row_end == glob_from(p@, s@, i as int, m as int),
            forall|x: int| 0 <= x < m ==> row@[x] == glob_from(p@, s@, i as int, x),
        decreases i,
    {
        let pi = i - 1;
        let c = p[pi];
        let cur_end = c == '*' && row_end;
        let mut cur: Vec<bool> = row.clone();
        // fill `cur` from the end of the text backwards
        let mut j: usize = m;
        while j > 0
            invariant
                n == p@.len(),
                m == s@.len(),
                pi < n,
                c == p@[pi as int],
                j <= m,
                row@.len() == m,
                cur@.len() == m,
                row_end == glob_from(p@, s@, pi + 1, m as int),
                cur_end == glob_from(p@, s@, pi as int, m as int),
                forall|x: int| 0 <= x < m ==> row@[x] == glob_from(p@, s@, pi + 1, x),
                forall|x: int| j <= x < m ==> cur@[x] == glob_from(p@, s@, pi as int, x),
            decreases j,
        {
            let jj = j - 1;
            let after_cur = if jj + 1 < m { cur[jj + 1] } else { cur_end };
            let after_row = if jj + 1 < m { row[jj + 1] } else { row_end };
            let v = if c == '*' {
                row[jj] || after_cur
            } else {
                s[jj] == c && after_row
            };
            cur.set(jj, v);
            j = jj;
        }
        row = cur;
        row_end = cur_end;
        i = pi;
    }
    if m == 0 {
        row_end
    } else {
        row[0]
    }
}

/// Whether a rule guarded by `pattern` may run on the page at `current_url`.
/// Without a pattern every page qualifies; with one, a page whose URL is
/// unknown does not.
pub fn matches(pattern: Option<&String>, current_url: Option<&String>) -> (r: bool)
    ensures
        r == guard_accepts(opt_ref_view(pattern), opt_ref_view(current_url)),
{
    match pattern {
        None => true,
        Some(p) => match current_url {
            None => false,
            Some(u) => {
                let body = chars_of(p.as_str());
                let mut wrapped: Vec<char> = Vec::new();
                wrapped.push('*');
                let mut k: usize = 0;
                while k < body.len()
                    invariant
                        k <= body@.len(),
                        wrapped@ == seq!['*'] + body@.subrange(0, k as int),
                    decreases body@.len() - k,
                {
                    wrapped.push(body[k]);
                    k = k + 1;
                }
                wrapped.push('*');
                assert(wrapped@ =~= seq!['*'] + p@ + seq!['*']);
                let text = chars_of(u.as_str());
                glob_vec(&wrapped, &text)
            }
        },
    }
}

} // verus!
