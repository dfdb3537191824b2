//! Verified helpers over strings: trimming, prefix handling, dot-separated
//! segments and line heads.  Every executable function is specified against a
//! small spec function over `Seq<char>`.

use vstd::prelude::*;

verus! {

/// The whitespace characters that trimming removes.
pub open spec fn is_space_char(c: char) -> bool {
    c == ' ' || c == '\t' || c == '\n' || c == '\r'
}

/// `s` with leading whitespace removed.
pub open spec fn trim_front(s: Seq<char>) -> Seq<char>
    decreases s.len(),
{
    if s.len() > 0 && is_space_char(s[0]) {
        trim_front(s.drop_first())
    } else {
        s
    }
}

/// `s` with trailing whitespace removed.
pub open spec fn trim_back(s: Seq<char>) -> Seq<char>
    decreases s.len(),
{
    if s.len() > 0 && is_space_char(s.last()) {
        trim_back(s.drop_last())
    } else {
        s
    }
}

/// `s` with both leading and trailing whitespace removed.
pub open spec fn trimmed_of(s: Seq<char>) -> Seq<char> {
    trim_back(trim_front(s))
}

/// `p` is a prefix of `s`.
pub open spec fn has_prefix(s: Seq<char>, p: Seq<char>) -> bool {
    p.len() <= s.len() && s.subrange(0, p.len() as int) == p
}

/// `s` with the prefix `p` removed when present, `s` itself otherwise.
pub open spec fn without_prefix(s: Seq<char>, p: Seq<char>) -> Seq<char> {
    if has_prefix(s, p) {
        s.skip(p.len() as int)
    } else {
        s
    }
}

/// Whatever follows the first `.`, or `None` when there is no `.` at all.
pub open spec fn after_first_dot(s: Seq<char>) -> Option<Seq<char>>
    decreases s.len(),
{
    if s.len() == 0 {
        None
    } else if s[0] == '.' {
        Some(s.drop_first())
    } else {
        after_first_dot(s.drop_first())
    }
}

/// `s` with its first two dot-separated segments removed: `None` when `s`
/// holds no `.`, the empty sequence when it holds exactly one, and otherwise
/// everything after the second `.`.
pub open spec fn drop_two_segments(s: Seq<char>) -> Option<Seq<char>> {
    match after_first_dot(s) {
        Option::None => Option::None,
        Option::Some(r) => match after_first_dot(r) {
            Option::None => Option::Some(Seq::empty()),
            Option::Some(r2) => Option::Some(r2),
        },
    }
}

/// The last `sep`-separated segment of `s`: the whole of `s` when it holds
/// no `sep`.
pub open spec fn last_segment_of(s: Seq<char>, sep: char) -> Seq<char>
    decreases s.len(),
{
    if s.len() == 0 {
        s
    } else if s.last() == sep {
        Seq::empty()
    } else {
        last_segment_of(s.drop_last(), sep).push(s.last())
    }
}

/// The last dot-separated segment of `s`.
pub open spec fn last_dot_segment(s: Seq<char>) -> Seq<char> {
    last_segment_of(s, '.')
}

/// Everything before the first `\n`, the whole of `s` when there is none.
pub open spec fn line_head(s: Seq<char>) -> Seq<char>
    decreases s.len(),
{
    if s.len() == 0 {
        s
    } else if s[0] == '\n' {
        Seq::empty()
    } else {
        seq![s[0]] + line_head(s.drop_first())
    }
}

/// The first line of `s` as `str::lines` hands it out: the head before the
/// first `\n`, with one trailing `\r` removed when present.
pub open spec fn first_line(s: Seq<char>) -> Seq<char> {
    let h = line_head(s);
    if h.len() > 0 && h.last() == '\r' {
        h.drop_last()
    } else {
        h
    }
}

/// Some element of `v` reads `x`.
pub open spec fn seq_has_string(v: Seq<String>, x: Seq<char>) -> bool {
    exists|k: int| 0 <= k < v.len() && v[k]@ == x
}

/// No two elements of `v` read the same.
pub open spec fn strings_distinct(v: Seq<String>) -> bool {
    forall|i: int, j: int| 0 <= i < j < v.len() ==> v[i]@ != v[j]@
}

fn is_space(c: char) -> (r: bool)
    ensures
        r == is_space_char(c),
{
    c == ' ' || c == '\t' || c == '\n' || c == '\r'
}

/// Character-for-character equality of two string slices.
pub fn str_eq_str(a: &str, b: &str) -> (r: bool)
    ensures
        r == (a@ == b@),
{
    let an = a.unicode_len();
    let bn = b.unicode_len();
    if an != bn {
        return false;
    }
    let mut i: usize = 0;
    while i < an
        invariant
            an == a@.len(),
            an == b@.len(),
            i <= an,
            forall|k: int| 0 <= k < i ==> a@[k] == b@[k],
        decreases an - i,
    {
        if a.get_char(i) != b.get_char(i) {
            return false;
        }
        i = i + 1;
    }
    proof {
        assert(a@ =~= b@);
    }
    true
}

/// Whether `p` is a prefix of `s`.
pub fn str_starts_with(s: &str, p: &str) -> (r: bool)
    ensures
        r == has_prefix(s@, p@),
{
    let sn = s.unicode_len();
    let pn = p.unicode_len();
    if pn > sn {
        return false;
    }
    let mut i: usize = 0;
    while i < pn
        invariant
            sn == s@.len(),
            pn == p@.len(),
            pn <= sn,
            i <= pn,
            forall|k: int| 0 <= k < i ==> s@[k] == p@[k],
        decreases pn - i,
    {
        if s.get_char(i) != p.get_char(i) {
            proof {
                assert(s@.subrange(0, pn as int)[i as int] != p@[i as int]);
            }
            return false;
        }
        i = i + 1;
    }
    proof {
        assert(s@.subrange(0, pn as int) =~= p@);
    }
    true
}

/// `s` with the prefix `p` removed when present, `s` itself otherwise.
pub fn strip_or_keep(s: &str, p: &str) -> (r: String)
    ensures
        r@ == without_prefix(s@, p@),
{
    if str_starts_with(s, p) {
        let pn = p.unicode_len();
        let sn = s.unicode_len();
        s.substring_char(pn, sn).to_owned()
    } else {
        s.to_owned()
    }
}

/// `s` with leading and trailing whitespace removed.
pub fn trim_str(s: &str) -> (r: String)
    ensures
        r@ == trimmed_of(s@),
{
    let n = s.unicode_len();
    proof {
        assert(s@.subrange(0, n as int) =~= s@);
    }
    let mut i: usize = 0;
    while i < n && is_space(s.get_char(i))
        invariant
            n == s@.len(),
            i <= n,
            trim_front(s@) == trim_front(s@.subrange(i as int, n as int)),
        decreases n - i,
    {
        proof {
            let t = s@.subrange(i as int, n as int);
            assert(t.drop_first() =~= s@.subrange(i as int + 1, n as int));
        }
        i = i + 1;
    }
    proof {
        assert(s@.subrange(0, n as int) =~= s@);
        assert(trim_front(s@) == s@.subrange(i as int, n as int));
    }
    let mut j: usize = n;
    while j > i && is_space(s.get_char(j - 1))
        invariant
            n == s@.len(),
            i <= j <= n,
            trim_front(s@) == s@.subrange(i as int, n as int),
            trim_back(s@.subrange(i as int, n as int)) == trim_back(
                s@.subrange(i as int, j as int),
            ),
        decreases j,
    {
        proof {
            let t = s@.subrange(i as int, j as int);
            assert(t.last() == s@[j as int - 1]);
            assert(t.drop_last() =~= s@.subrange(i as int, j as int - 1));
        }
        j = j - 1;
    }
    proof {
        assert(trimmed_of(s@) == s@.subrange(i as int, j as int));
    }
    s.substring_char(i, j).to_owned()
}

/// Everything after the first `.` of `s`, or `None` when `s` holds no `.`.
pub fn split_after_first_dot(s: &str) -> (r: Option<String>)
    ensures
        match r {
            Option::Some(t) => after_first_dot(s@) == Option::Some(t@),
            Option::None => after_first_dot(s@) is None,
        },
{
    let n = s.unicode_len();
    proof {
        assert(s@.subrange(0, n as int) =~= s@);
    }
    let mut i: usize = 0;
    while i < n && s.get_char(i) != '.'
        invariant
            n == s@.len(),
            i <= n,
            after_first_dot(s@) == after_first_dot(s@.subrange(i as int, n as int)),
        decreases n - i,
    {
        proof {
            let t = s@.subrange(i as int, n as int);
            assert(t.drop_first() =~= s@.subrange(i as int + 1, n as int));
        }
        i = i + 1;
    }
    proof {
        assert(s@.subrange(0, n as int) =~= s@);
    }
    if i == n {
        None
    } else {
        proof {
            let t = s@.subrange(i as int, n as int);
            assert(t[0] == s@[i as int]);
            assert(t.drop_first() =~= s@.subrange(i as int + 1, n as int));
        }
        Some(s.substring_char(i + 1, n).to_owned())
    }
}

/// `s` with its first two dot-separated segments removed; `None` when `s`
/// holds no `.` at all.
pub fn drop_two_dot_segments(s: &str) -> (r: Option<String>)
    ensures
        match r {
            Option::Some(t) => drop_two_segments(s@) == Option::Some(t@),
            Option::None => drop_two_segments(s@) is None,
        },
{
    match split_after_first_dot(s) {
        None => None,
        Some(rest) => match split_after_first_dot(rest.as_str()) {
            None => Some(String::new()),
            Some(rest2) => Some(rest2),
        },
    }
}

/// The last `sep`-separated segment of `s`.
pub fn last_segment_from(s: &str, sep: char) -> (r: String)
    ensures
        r@ == last_segment_of(s@, sep),
{
    let n = s.unicode_len();
    proof {
        assert(s@.subrange(0, n as int) =~= s@);
        assert(last_segment_of(s@, sep) + s@.subrange(n as int, n as int) =~= last_segment_of(
            s@,
            sep,
        ));
    }
    let mut j: usize = n;
    while j > 0 && s.get_char(j - 1) != sep
        invariant
            n == s@.len(),
            j <= n,
            last_segment_of(s@, sep) =~= last_segment_of(s@.subrange(0, j as int), sep)
                + s@.subrange(j as int, n as int),
        decreases j,
    {
        proof {
            let t = s@.subrange(0, j as int);
            assert(t.last() == s@[j as int - 1]);
            assert(t.drop_last() =~= s@.subrange(0, j as int - 1));
            assert(last_segment_of(t.drop_last(), sep).push(t.last()) + s@.subrange(
                j as int,
                n as int,
            ) =~= last_segment_of(s@.subrange(0, j as int - 1), sep) + s@.subrange(
                j as int - 1,
                n as int,
            ));
        }
        j = j - 1;
    }
    proof {
        if j == 0 {
            assert(last_segment_of(s@.subrange(0, 0), sep) =~= Seq::<char>::empty());
            assert(last_segment_of(s@, sep) =~= s@.subrange(0, n as int));
        } else {
            assert(s@.subrange(0, j as int).last() == s@[j as int - 1]);
            assert(last_segment_of(s@.subrange(0, j as int), sep) =~= Seq::<char>::empty());
        }
        assert(last_segment_of(s@, sep) =~= s@.subrange(j as int, n as int));
    }
    s.substring_char(j, n).to_owned()
}

/// The last dot-separated segment of `s`.
pub fn last_segment(s: &str) -> (r: String)
    ensures
        r@ == last_dot_segment(s@),
{
    last_segment_from(s, '.')
}

/// The first line of `s`, as `str::lines` would hand it out.
pub fn first_line_of(s: &str) -> (r: String)
    ensures
        r@ == first_line(s@),
{
    let n = s.unicode_len();
    proof {
        assert(s@.subrange(0, n as int) =~= s@);
        assert(s@.subrange(0, 0) + line_head(s@) =~= line_head(s@));
    }
    let mut i: usize = 0;
    while i < n && s.get_char(i) != '\n'
        invariant
            n == s@.len(),
            i <= n,
            line_head(s@) =~= s@.subrange(0, i as int) + line_head(s@.subrange(i as int, n as int)),
        decreases n - i,
    {
        proof {
            let t = s@.subrange(i as int, n as int);
            assert(t[0] == s@[i as int]);
            assert(t.drop_first() =~= s@.subrange(i as int + 1, n as int));
            assert(s@.subrange(0, i as int) + (seq![s@[i as int]] + line_head(
                s@.subrange(i as int + 1, n as int),
            )) =~= s@.subrange(0, i as int + 1) + line_head(s@.subrange(i as int + 1, n as int)));
        }
        i = i + 1;
    }
    proof {
        if i == n {
            assert(line_head(s@.subrange(i as int, n as int)) =~= Seq::<char>::empty());
        } else {
            assert(s@.subrange(i as int, n as int)[0] == s@[i as int]);
        }
        assert(line_head(s@) =~= s@.subrange(0, i as int));
    }
    if i > 0 && s.get_char(i - 1) == '\r' {
        proof {
            assert(line_head(s@).last() == s@[i as int - 1]);
            assert(line_head(s@).drop_last() =~= s@.subrange(0, i as int - 1));
        }
        s.substring_char(0, i - 1).to_owned()
    } else {
        s.substring_char(0, i).to_owned()
    }
}

/// Some element of `v` reads `x`.
pub fn contains_string(v: &Vec<String>, x: &str) -> (r: bool)
    ensures
        r == seq_has_string(v@, x@),
{
    let mut k: usize = 0;
    while k < v.len()
        invariant
            k <= v@.len(),
            forall|m: int| 0 <= m < k ==> v@[m]@ != x@,
        decreases v@.len() - k,
    {
        if str_eq_str(v[k].as_str(), x) {
            return true;
        }
        k = k + 1;
    }
    false
}

} // verus!
