//! Character-level string helpers with exact contracts.

use vstd::prelude::*;
use vstd::std_specs::iter::IteratorSpec;
use vstd::string::StrSliceExecFns;
use vstd::string::StringExecFns;

verus! {

broadcast use vstd::string::group_string_axioms;

/// `p` is a prefix of `s`.
pub open spec fn is_prefix(p: Seq<char>, s: Seq<char>) -> bool {
    p.len() <= s.len() && s.take(p.len() as int) == p
}

/// `p` occurs in `s` at position `i`.
pub open spec fn occurs_at(s: Seq<char>, p: Seq<char>, i: int) -> bool {
    0 <= i && i + p.len() <= s.len() && s.subrange(i, i + p.len()) == p
}

/// `p` occurs somewhere in `s`.
pub open spec fn occurs_in(s: Seq<char>, p: Seq<char>) -> bool {
    exists|i: int| occurs_at(s, p, i)
}

/// Every non-overlapping occurrence of `pat` in `s`, scanning left to right,
/// replaced by `rep`.
pub open spec fn replace_all(s: Seq<char>, pat: Seq<char>, rep: Seq<char>) -> Seq<char>
    decreases s.len(),
{
    if pat.len() == 0 || s.len() < pat.len() {
        s
    } else if s.take(pat.len() as int) == pat {
        rep + replace_all(s.skip(pat.len() as int), pat, rep)
    } else {
        seq![s[0]] + replace_all(s.skip(1), pat, rep)
    }
}

/// The characters that carry the Unicode `White_Space` property.
pub open spec fn is_white_space(c: char) -> bool {
    let v = c as u32;
    ||| 0x09 <= v <= 0x0d
    ||| v == 0x20
    ||| v == 0x85
    ||| v == 0xa0
    ||| v == 0x1680
    ||| 0x2000 <= v <= 0x200a
    ||| v == 0x2028
    ||| v == 0x2029
    ||| v == 0x202f
    ||| v == 0x205f
    ||| v == 0x3000
}

/// Number of leading white-space characters of `s`.
pub open spec fn leading_ws(s: Seq<char>) -> nat
    decreases s.len(),
{
    if s.len() > 0 && is_white_space(s[0]) {
        1 + leading_ws(s.skip(1))
    } else {
        0
    }
}

/// Number of trailing white-space characters of `s`.
pub open spec fn trailing_ws(s: Seq<char>) -> nat
    decreases s.len(),
{
    if s.len() > 0 && is_white_space(s.last()) {
        1 + trailing_ws(s.drop_last())
    } else {
        0
    }
}

/// `s` without its leading and trailing white space.
pub open spec fn trim(s: Seq<char>) -> Seq<char> {
    let t = s.skip(leading_ws(s) as int);
    t.take(t.len() - trailing_ws(t))
}

/// `s` with `p` removed from its front for as long as `s` starts with it.
pub open spec fn strip_prefix_repeatedly(s: Seq<char>, p: Seq<char>) -> Seq<char>
    decreases s.len(),
{
    if p.len() > 0 && is_prefix(p, s) {
        strip_prefix_repeatedly(s.skip(p.len() as int), p)
    } else {
        s
    }
}

/// Executable test for white space.
pub fn is_white_space_char(c: char) -> (b: bool)
    ensures
        b == is_white_space(c),
{
    let v = c as u32;
    (0x09 <= v && v <= 0x0d) || v == 0x20 || v == 0x85 || v == 0xa0 || v == 0x1680 || (0x2000
        <= v && v <= 0x200a) || v == 0x2028 || v == 0x2029 || v == 0x202f || v == 0x205f || v
        == 0x3000
}

/// The characters of `s`, in order.
pub fn chars_of(s: &str) -> (v: Vec<char>)
    ensures
        v@ == s@,
{
    let mut v: Vec<char> = Vec::new();
    for c in it: s.chars()
        invariant
            v@ == it.seq().take(it.index()),
            it.seq() == s@,
    {
        v.push(c);
    }
    v
}

/// Whether `p` occurs in `s` at position `start`.
pub fn matches_at(s: &Vec<char>, start: usize, p: &Vec<char>) -> (b: bool)
    ensures
        b == occurs_at(s@, p@, start as int),
{
    if start > s.len() || p.len() > s.len() - start {
        return false;
    }
    let mut k: usize = 0;
    while k < p.len()
        invariant
            start + p.len() <= s.len(),
            k <= p.len(),
            forall|j: int| 0 <= j < k ==> s@[start + j] == p@[j],
        decreases p.len() - k,
    {
        if s[start + k] != p[k] {
            assert(s@.subrange(start as int, start + p.len())[k as int] != p@[k as int]);
            return false;
        }
        k = k + 1;
    }
    assert(s@.subrange(start as int, start + p.len()) =~= p@);
    true
}

/// Whether `a` and `b` hold the same characters.
pub fn str_equal(a: &str, b: &str) -> (r: bool)
    ensures
        r == (a@ == b@),
{
    let av = chars_of(a);
    let bv = chars_of(b);
    if av.len() != bv.len() {
        return false;
    }
    let r = matches_at(&av, 0, &bv);
    assert(av@.subrange(0, bv@.len() as int) =~= av@);
    r
}

/// Whether `s` starts with `p`.
pub fn starts_with(s: &str, p: &str) -> (r: bool)
    ensures
        r == is_prefix(p@, s@),
{
    let sv = chars_of(s);
    let pv = chars_of(p);
    let r = matches_at(&sv, 0, &pv);
    assert(r ==> sv@.take(pv@.len() as int) =~= sv@.subrange(0, pv@.len() as int));
    assert(is_prefix(pv@, sv@) ==> sv@.take(pv@.len() as int) =~= sv@.subrange(0, pv@.len() as int));
    r
}

/// Whether `p` occurs anywhere in `s`.
pub fn contains(s: &str, p: &str) -> (r: bool)
    ensures
        r == occurs_in(s@, p@),
{
    let sv = chars_of(s);
    let pv = chars_of(p);
    if pv.len() > sv.len() {
        assert forall|i: int| !occurs_at(s@, p@, i) by {}
        return false;
    }
    if pv.len() == 0 {
        assert(s@.subrange(0, 0) =~= p@);
        assert(occurs_at(s@, p@, 0));
        return true;
    }
    let last = sv.len() - pv.len();
    let mut i: usize = 0;
    while i <= last
        invariant
            sv@ == s@,
            pv@ == p@,
            pv.len() > 0,
            last == sv.len() - pv.len(),
            i <= last + 1,
            forall|j: int| 0 <= j < i ==> !occurs_at(s@, p@, j),
        decreases last + 1 - i,
    {
        if matches_at(&sv, i, &pv) {
            return true;
        }
        i = i + 1;
    }
    assert forall|j: int| !occurs_at(s@, p@, j) by {
        if 0 <= j && j + p@.len() <= s@.len() {
            assert(j < i);
        }
    }
    false
}


proof fn lemma_leading_ws(s: Seq<char>, a: int)
    requires
        0 <= a <= s.len(),
        forall|k: int| 0 <= k < a ==> is_white_space(#[trigger] s[k]),
        a == s.len() || !is_white_space(s[a]),
    ensures
        leading_ws(s) == a,
    decreases a,
{
    if a > 0 {
        let t = s.skip(1);
        assert forall|k: int| 0 <= k < a - 1 implies is_white_space(#[trigger] t[k]) by {
            assert(t[k] == s[k + 1]);
        }
        if a < s.len() {
            assert(t[a - 1] == s[a]);
        }
        lemma_leading_ws(t, a - 1);
    }
}

proof fn lemma_trailing_ws(t: Seq<char>, c: int)
    requires
        0 <= c <= t.len(),
        forall|k: int| t.len() - c <= k < t.len() ==> is_white_space(#[trigger] t[k]),
        c == t.len() || !is_white_space(t[t.len() - c - 1]),
    ensures
        trailing_ws(t) == c,
    decreases c,
{
    if c > 0 {
        let u = t.drop_last();
        assert forall|k: int| u.len() - (c - 1) <= k < u.len() implies is_white_space(#[trigger] u[k]) by {
            assert(u[k] == t[k]);
        }
        if c < t.len() {
            assert(u[u.len() - (c - 1) - 1] == t[t.len() - c - 1]);
        }
        assert(is_white_space(t[t.len() - 1]));
        lemma_trailing_ws(u, c - 1);
    }
}

/// `s` without leading and trailing white space.
pub fn trim_str<'a>(s: &'a str) -> (r: &'a str)
    ensures
        r@ == trim(s@),
{
    let sv = chars_of(s);
    let n = sv.len();
    let mut a: usize = 0;
    while a < n && is_white_space_char(sv[a])
        invariant
            sv@ == s@,
            n == sv.len(),
            a <= n,
            forall|k: int| 0 <= k < a ==> is_white_space(#[trigger] sv@[k]),
        decreases n - a,
    {
        a = a + 1;
    }
    let mut j: usize = n;
    while j > a && is_white_space_char(sv[j - 1])
        invariant
            sv@ == s@,
            n == sv.len(),
            a <= j <= n,
            forall|k: int| j <= k < n ==> is_white_space(#[trigger] sv@[k]),
        decreases j,
    {
        j = j - 1;
    }
    proof {
        lemma_leading_ws(s@, a as int);
        let t = s@.skip(a as int);
        let c = (n - j) as int;
        assert forall|k: int| t.len() - c <= k < t.len() implies is_white_space(#[trigger] t[k]) by {
            assert(t[k] == s@[k + a]);
        }
        if c < t.len() {
            assert(t[t.len() - c - 1] == s@[j - 1]);
        }
        lemma_trailing_ws(t, c);
        assert(t.take(t.len() - c) =~= s@.subrange(a as int, j as int));
    }
    s.substring_char(a, j)
}

/// `s` with every non-overlapping occurrence of `pat`, taken left to right,
/// replaced by `rep`.
pub fn replace_str(s: &str, pat: &str, rep: &str) -> (r: String)
    requires
        pat@.len() > 0,
    ensures
        r@ == replace_all(s@, pat@, rep@),
{
    let sv = chars_of(s);
    let pv = chars_of(pat);
    let n = sv.len();
    let m = pv.len();
    let mut out = String::new();
    let mut seg: usize = 0;
    let mut i: usize = 0;
    assert(s@.skip(0) =~= s@);
    assert(out@ + s@.subrange(0, 0) =~= Seq::<char>::empty());
    while m <= n - i
        invariant
            sv@ == s@,
            pv@ == pat@,
            n == sv.len(),
            m == pv.len(),
            m > 0,
            seg <= i <= n,
            out@ + s@.subrange(seg as int, i as int) + replace_all(s@.skip(i as int), pat@, rep@)
                == replace_all(s@, pat@, rep@),
        decreases n - i,
    {
        let ghost t = s@.skip(i as int);
        if matches_at(&sv, i, &pv) {
            let piece = s.substring_char(seg, i);
            let ghost old_out = out@;
            out.append(piece);
            out.append(rep);
            proof {
                assert(t.take(m as int) =~= s@.subrange(i as int, i + m));
                assert(t.skip(m as int) =~= s@.skip(i + m));
                assert(replace_all(t, pat@, rep@) == rep@ + replace_all(s@.skip(i + m), pat@, rep@));
                assert(out@ + s@.subrange(i + m, i + m) =~= old_out + s@.subrange(seg as int, i as int) + rep@);
            }
            i = i + m;
            seg = i;
        } else {
            proof {
                assert(t.take(m as int) =~= s@.subrange(i as int, i + m));
                assert(t.skip(1) =~= s@.skip(i + 1));
                assert(t[0] == s@[i as int]);
                assert(replace_all(t, pat@, rep@) == seq![s@[i as int]] + replace_all(s@.skip(i + 1), pat@, rep@));
                assert(s@.subrange(seg as int, i + 1) =~= s@.subrange(seg as int, i as int) + seq![s@[i as int]]);
            }
            i = i + 1;
        }
    }
    let ghost old_out = out@;
    let tail = s.substring_char(seg, n);
    out.append(tail);
    proof {
        let t = s@.skip(i as int);
        assert(replace_all(t, pat@, rep@) == t);
        assert(s@.subrange(seg as int, i as int) + t =~= s@.subrange(seg as int, n as int));
        assert(out@ =~= old_out + s@.subrange(seg as int, i as int) + t);
    }
    out
}


proof fn lemma_occurs_at_is_prefix(s: Seq<char>, p: Seq<char>, i: int)
    requires
        0 <= i <= s.len(),
    ensures
        occurs_at(s, p, i) == is_prefix(p, s.skip(i)),
{
    if i + p.len() <= s.len() {
        assert(s.skip(i).take(p.len() as int) =~= s.subrange(i, i + p.len()));
    }
}

/// `s` with `p` removed from its front for as long as it starts with `p`.
pub fn strip_prefix_repeatedly_str<'a>(s: &'a str, p: &str) -> (r: &'a str)
    ensures
        r@ == strip_prefix_repeatedly(s@, p@),
{
    let sv = chars_of(s);
    let pv = chars_of(p);
    let n = sv.len();
    let mut i: usize = 0;
    assert(s@.skip(0) =~= s@);
    if pv.len() > 0 {
        loop
            invariant
                sv@ == s@,
                pv@ == p@,
                n == sv.len(),
                pv.len() > 0,
                i <= n,
                strip_prefix_repeatedly(s@.skip(i as int), p@) == strip_prefix_repeatedly(s@, p@),
            ensures
                i <= n,
                strip_prefix_repeatedly(s@.skip(i as int), p@) == s@.skip(i as int),
                strip_prefix_repeatedly(s@.skip(i as int), p@) == strip_prefix_repeatedly(s@, p@),
            decreases n - i,
        {
            proof {
                lemma_occurs_at_is_prefix(s@, p@, i as int);
            }
            if matches_at(&sv, i, &pv) {
                assert(s@.skip(i as int).skip(p@.len() as int) =~= s@.skip(i + pv.len()));
                i = i + pv.len();
            } else {
                break;
            }
        }
    }
    assert(s@.skip(i as int) =~= s@.subrange(i as int, n as int));
    s.substring_char(i, n)
}

proof fn lemma_leading_ws_props(s: Seq<char>)
    ensures
        leading_ws(s) <= s.len(),
        forall|k: int| 0 <= k < leading_ws(s) ==> is_white_space(#[trigger] s[k]),
        leading_ws(s) < s.len() ==> !is_white_space(s[leading_ws(s) as int]),
    decreases s.len(),
{
    if s.len() > 0 && is_white_space(s[0]) {
        let t = s.skip(1);
        lemma_leading_ws_props(t);
        assert forall|k: int| 0 <= k < leading_ws(s) implies is_white_space(#[trigger] s[k]) by {
            if k > 0 {
                assert(s[k] == t[k - 1]);
            }
        }
        if leading_ws(s) < s.len() {
            assert(s[leading_ws(s) as int] == t[leading_ws(t) as int]);
        }
    }
}

proof fn lemma_trailing_ws_props(t: Seq<char>)
    ensures
        trailing_ws(t) <= t.len(),
        forall|k: int| t.len() - trailing_ws(t) <= k < t.len() ==> is_white_space(#[trigger] t[k]),
        trailing_ws(t) < t.len() ==> !is_white_space(t[t.len() - trailing_ws(t) - 1]),
    decreases t.len(),
{
    if t.len() > 0 && is_white_space(t.last()) {
        let u = t.drop_last();
        lemma_trailing_ws_props(u);
        assert forall|k: int| t.len() - trailing_ws(t) <= k < t.len() implies is_white_space(#[trigger] t[k]) by {
            if k < t.len() - 1 {
                assert(t[k] == u[k]);
            }
        }
        if trailing_ws(t) < t.len() {
            assert(t[t.len() - trailing_ws(t) - 1] == u[u.len() - trailing_ws(u) - 1]);
        }
    }
}

/// Trimming is idempotent: a trimmed string has no white space left at
/// either end.
pub proof fn lemma_trim_idempotent(s: Seq<char>)
    ensures
        trim(trim(s)) == trim(s),
        trim(s).len() > 0 ==> !is_white_space(trim(s)[0]) && !is_white_space(trim(s).last()),
{
    lemma_leading_ws_props(s);
    let a = leading_ws(s) as int;
    let t = s.skip(a);
    lemma_trailing_ws_props(t);
    let c = trailing_ws(t) as int;
    let u = t.take(t.len() - c);
    assert(u == trim(s));
    if u.len() == 0 {
        assert(trim(u) =~= u);
    } else {
        assert(u[0] == s[a]);
        assert(u.last() == t[t.len() - c - 1]);
        assert(leading_ws(u) == 0);
        assert(u.skip(0) =~= u);
        assert(trailing_ws(u) == 0);
        assert(trim(u) =~= u);
    }
}

/// Replacing a pattern that does not occur leaves the text unchanged.
pub proof fn lemma_replace_absent(s: Seq<char>, pat: Seq<char>, rep: Seq<char>)
    requires
        !occurs_in(s, pat),
    ensures
        replace_all(s, pat, rep) == s,
    decreases s.len(),
{
    if pat.len() == 0 {
        assert(s.subrange(0, 0) =~= pat);
        assert(occurs_at(s, pat, 0));
    } else if s.len() < pat.len() {
    } else {
        if s.take(pat.len() as int) == pat {
            assert(s.subrange(0, pat.len() as int) =~= s.take(pat.len() as int));
            assert(occurs_at(s, pat, 0));
        }
        let t = s.skip(1);
        assert forall|i: int| !occurs_at(t, pat, i) by {
            if occurs_at(t, pat, i) {
                assert(s.subrange(i + 1, i + 1 + pat.len()) =~= t.subrange(i, i + pat.len()));
                assert(occurs_at(s, pat, i + 1));
            }
        }
        lemma_replace_absent(t, pat, rep);
        assert(seq![s[0]] + t =~= s);
    }
}

/// An upper-case ASCII letter.
pub open spec fn is_upper(c: char) -> bool {
    'A' <= c <= 'Z'
}

/// `s` holds no underscore.
pub open spec fn no_underscore(s: Seq<char>) -> bool {
    forall|i: int| 0 <= i < s.len() ==> s[i] != '_'
}

/// The shape of a placeholder such as `__NAME_B64__`: two underscores, an
/// upper-case letter, a middle in which every underscore is followed by an
/// upper-case letter, and two closing underscores.
pub open spec fn placeholder_shaped(q: Seq<char>) -> bool {
    &&& q.len() >= 4
    &&& q[0] == '_'
    &&& q[1] == '_'
    &&& is_upper(q[2])
    &&& q[q.len() - 2] == '_'
    &&& q[q.len() - 1] == '_'
    &&& forall|i: int| 2 <= i < q.len() - 2 && q[i] == '_' ==> #[trigger] is_upper(q[i + 1])
}

/// Text that may follow a placeholder without a placeholder-shaped pattern
/// being found across the boundary.
pub open spec fn may_follow_placeholder(y: Seq<char>) -> bool {
    y.len() == 0 || (!is_upper(y[0]) && (y[0] == '_' && y.len() >= 2 ==> !is_upper(y[1])))
}

proof fn lemma_skip_prefix(x: Seq<char>, y: Seq<char>, p: Seq<char>, r: Seq<char>)
    requires
        p.len() > 0,
        forall|j: int| 0 <= j < x.len() ==> !occurs_at(x + y, p, j),
    ensures
        replace_all(x + y, p, r) == x + replace_all(y, p, r),
    decreases x.len(),
{
    let s = x + y;
    if x.len() == 0 {
        assert(s =~= y);
        assert(x + replace_all(y, p, r) =~= replace_all(y, p, r));
    } else if s.len() < p.len() {
        assert(replace_all(y, p, r) == y);
    } else {
        assert(s.subrange(0, p.len() as int) =~= s.take(p.len() as int));
        assert(!occurs_at(s, p, 0));
        let x1 = x.skip(1);
        assert(s.skip(1) =~= x1 + y);
        assert forall|j: int| 0 <= j < x1.len() implies !occurs_at(x1 + y, p, j) by {
            if occurs_at(x1 + y, p, j) {
                assert((x1 + y).subrange(j, j + p.len()) =~= s.subrange(j + 1, j + 1 + p.len()));
                assert(occurs_at(s, p, j + 1));
            }
        }
        lemma_skip_prefix(x1, y, p, r);
        assert(s[0] == x[0]);
        assert(seq![x[0]] + (x1 + replace_all(y, p, r)) =~= x + replace_all(y, p, r));
    }
}

/// Text without underscores passes unchanged through the replacement of a
/// pattern that starts with one.
pub proof fn lemma_skip_plain(x: Seq<char>, y: Seq<char>, p: Seq<char>, r: Seq<char>)
    requires
        p.len() > 0,
        p[0] == '_',
        no_underscore(x),
    ensures
        replace_all(x + y, p, r) == x + replace_all(y, p, r),
{
    assert forall|j: int| 0 <= j < x.len() implies !occurs_at(x + y, p, j) by {
        if occurs_at(x + y, p, j) {
            assert((x + y).subrange(j, j + p.len())[0] == p[0]);
        }
    }
    lemma_skip_prefix(x, y, p, r);
}

/// A placeholder passes unchanged through the replacement of another
/// placeholder that differs from it within the first four characters, when
/// what follows it cannot complete a match.
pub proof fn lemma_skip_placeholder(q: Seq<char>, y: Seq<char>, p: Seq<char>, r: Seq<char>)
    requires
        placeholder_shaped(q),
        placeholder_shaped(p),
        q.take(4) != p.take(4),
        may_follow_placeholder(y),
    ensures
        replace_all(q + y, p, r) == q + replace_all(y, p, r),
{
    let s = q + y;
    let n = q.len() as int;
    assert forall|j: int| 0 <= j < n implies !occurs_at(s, p, j) by {
        if occurs_at(s, p, j) {
            let w = s.subrange(j, j + p.len());
            assert(w == p);
            if j == 0 {
                assert forall|k: int| 0 <= k < 4 implies q.take(4)[k] == p.take(4)[k] by {
                    assert(w[k] == s[k]);
                }
                assert(q.take(4) =~= p.take(4));
            } else if q[j] != '_' {
                assert(w[0] == s[j]);
            } else if j == 1 {
                assert(w[1] == s[2]);
            } else if j < n - 2 {
                assert(is_upper(q[j + 1]));
                assert(w[1] == s[j + 1]);
            } else if j == n - 2 {
                assert(w[2] == s[n]);
                assert(s[n] == y[0]);
            } else {
                assert(w[1] == s[n]);
                assert(s[n] == y[0]);
                assert(w[2] == s[n + 1]);
                assert(s[n + 1] == y[1]);
            }
        }
    }
    lemma_skip_prefix(q, y, p, r);
}

/// A pattern at the front is replaced.
pub proof fn lemma_replace_front(p: Seq<char>, y: Seq<char>, r: Seq<char>)
    requires
        p.len() > 0,
    ensures
        replace_all(p + y, p, r) == r + replace_all(y, p, r),
{
    let s = p + y;
    assert(s.take(p.len() as int) =~= p);
    assert(s.skip(p.len() as int) =~= y);
}

/// Trimming removes white space at both ends and nothing else: the result
/// is a stretch of the text from a position before which there is only white
/// space to a position after which there is only white space, and it starts
/// and ends with a character that is not white space.
pub proof fn lemma_trim_removes_only_white_space(s: Seq<char>)
    ensures
        exists|a: int, b: int|
            #![trigger s.subrange(a, b)]
            0 <= a <= b <= s.len() && trim(s) == s.subrange(a, b) && (forall|k: int|
                0 <= k < a ==> is_white_space(#[trigger] s[k])) && (forall|k: int|
                b <= k < s.len() ==> is_white_space(#[trigger] s[k])) && (a < b ==> !is_white_space(
                s[a]) && !is_white_space(s[b - 1])),
{
    lemma_leading_ws_props(s);
    let a = leading_ws(s) as int;
    let t = s.skip(a);
    lemma_trailing_ws_props(t);
    let c = trailing_ws(t) as int;
    let b = s.len() - c;
    assert(trim(s) =~= s.subrange(a, b));
    assert forall|k: int| b <= k < s.len() implies is_white_space(#[trigger] s[k]) by {
        assert(s[k] == t[k - a]);
    }
    if a < b {
        assert(s[b - 1] == t[t.len() - c - 1]);
    }
}

/// Stripping a non-empty prefix repeatedly leaves a tail of the text that no
/// longer starts with the prefix.
pub proof fn lemma_strip_prefix_repeatedly(s: Seq<char>, p: Seq<char>)
    ensures
        p.len() > 0 ==> !is_prefix(p, strip_prefix_repeatedly(s, p)),
        strip_prefix_repeatedly(s, p).len() <= s.len(),
        s.skip(s.len() - strip_prefix_repeatedly(s, p).len()) == strip_prefix_repeatedly(s, p),
    decreases s.len(),
{
    if p.len() > 0 && is_prefix(p, s) {
        let t = s.skip(p.len() as int);
        lemma_strip_prefix_repeatedly(t, p);
        let r = strip_prefix_repeatedly(t, p);
        assert(s.skip(s.len() - r.len()) =~= t.skip(t.len() - r.len()));
    } else {
        assert(s.skip(0) =~= s);
    }
}

} // verus!
