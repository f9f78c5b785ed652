use vstd::prelude::*;

verus! {

/// Whether the pattern suffix `p[i..]` matches the text suffix `s[j..]`.
/// In a pattern `*` matches any run of characters, `?` any one character, and
/// every other character itself.
pub open spec fn glob_from(p: Seq<char>, s: Seq<char>, i: int, j: int) -> bool
    decreases (p.len() - i) + (s.len() - j),
{
    if i < 0 || j < 0 || i > p.len() || j > s.len() {
        false
    } else if i == p.len() {
        j == s.len()
    } else if p[i] == '*' {
        glob_from(p, s, i + 1, j) || (j < s.len() && glob_from(p, s, i, j + 1))
    } else {
        j < s.len() && (p[i] == '?' || p[i] == s[j]) && glob_from(p, s, i + 1, j + 1)
    }
}

/// Whether the whole of `s` matches the pattern `p`.
pub open spec fn glob_matches(p: Seq<char>, s: Seq<char>) -> bool {
    glob_from(p, s, 0, 0)
}

/// A shell-style wildcard pattern over entry names.
pub struct Pattern {
    chars: Vec<char>,
}

impl View for Pattern {
    type V = Seq<char>;

    closed spec fn view(&self) -> Seq<char> {
        self.chars@
    }
}

impl Clone for Pattern {
    fn clone(&self) -> (r: Self)
        ensures
            r@ == self@,
    {
        Pattern { chars: self.chars.clone() }
    }
}

fn chars_of(s: &str) -> (r: Vec<char>)
    ensures
        r@ == s@,
{
    let len = s.unicode_len();
    let mut out: Vec<char> = Vec::new();
    let mut i: usize = 0;
    while i < len
        invariant
            len == s@.len(),
            i <= len,
            out@ == s@.subrange(0, i as int),
        decreases len - i,
    {
        out.push(s.get_char(i));
        i = i + 1;
        assert(out@ =~= s@.subrange(0, i as int));
    }
    assert(out@ =~= s@);
    out
}

impl Pattern {
    /// The pattern written `pattern`.
    pub fn new(pattern: &str) -> (r: Pattern)
        ensures
            r@ == pattern@,
    {
        Pattern { chars: chars_of(pattern) }
    }

    /// Whether all of `name` matches this pattern.
    pub fn matches(&self, name: &str) -> (r: bool)
        ensures
            r == glob_matches(self@, name@),
    {
        let s = chars_of(name);
        let p = &self.chars;
        let n = s.len();
        let m = p.len();
        let ghost ps = p@;
        let ghost ss = s@;
        // next[j] holds whether the pattern suffix from row i matches s[j..].
        let mut next: Vec<bool> = Vec::new();
        let mut j: usize = 0;
        while j < n
            invariant
                n == ss.len(),
                m == ps.len(),
                j <= n,
                next@.len() == j,
                forall|k: int| 0 <= k < j ==> next@[k] == glob_from(ps, ss, m as int, k),
            decreases n - j,
        {
            next.push(false);
            j = j + 1;
        }
        next.push(true);
        let mut i: usize = m;
        while i > 0
            invariant
                n == ss.len(),
                m == ps.len(),
                ps == self@,
                p@ == ps,
                s@ == ss,
                i <= m,
                next@.len() == n + 1,
                forall|k: int| 0 <= k <= n ==> next@[k] == glob_from(ps, ss, i as int, k),
            decreases i,
        {
            let r = i - 1;
            let pc = p[r];
            let mut cur: Vec<bool> = Vec::new();
            let mut t: usize = 0;
            while t < n
                invariant
                    t <= n,
                    cur@.len() == t,
                decreases n - t,
            {
                cur.push(false);
                t = t + 1;
            }
            cur.push(pc == '*' && next[n]);
            let mut j: usize = n;
            while j > 0
                invariant
                    n == ss.len(),
                    m == ps.len(),
                    p@ == ps,
                    s@ == ss,
                    r < m,
                    pc == ps[r as int],
                    j <= n,
                    cur@.len() == n + 1,
                    next@.len() == n + 1,
                    forall|k: int|
                        0 <= k <= n ==> next@[k] == glob_from(ps, ss, r + 1, k),
                    forall|k: int| j <= k <= n ==> cur@[k] == glob_from(ps, ss, r as int, k),
                decreases j,
            {
                let jj = j - 1;
                let v = if pc == '*' {
                    next[jj] || cur[jj + 1]
                } else {
                    (pc == '?' || pc == s[jj]) && next[jj + 1]
                };
                cur.set(jj, v);
                j = jj;
            }
            next = cur;
            i = r;
        }
        next[0]
    }
}

} // verus!
