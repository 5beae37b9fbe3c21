//! Character-sequence utilities: conversions between `&str` and `Vec<char>`,
//! a lexicographic total order, and the parsing helpers the rest of the
//! library builds on.

use vstd::prelude::*;

verus! {

/// The characters of `s`, in order.
pub fn str_chars(s: &str) -> (r: Vec<char>)
    ensures
        r@ == s@,
{
    let n = s.unicode_len();
    let mut r: Vec<char> = Vec::new();
    let mut i: usize = 0;
    while i < n
        invariant
            n == s@.len(),
            i <= n,
            r@ == s@.take(i as int),
        decreases n - i,
    {
        let c = s.get_char(i);
        r.push(c);
        assert(s@.take(i + 1 as int) =~= s@.take(i as int).push(s@[i as int]));
        i += 1;
    }
    assert(s@.take(n as int) =~= s@);
    r
}

/// Relies on `String::from_iter` over `core::str::Chars`: collecting a
/// sequence of `char`s yields the string with exactly those characters.
#[verifier::external_body]
pub fn chars_string(v: &Vec<char>) -> (r: String)
    ensures
        r@ == v@,
{
    v.iter().collect()
}

/// Lexicographic order on character sequences, by code point.
pub open spec fn lex_leq(a: Seq<char>, b: Seq<char>) -> bool
    decreases a.len(),
{
    if a.len() == 0 {
        true
    } else if b.len() == 0 {
        false
    } else if a[0] != b[0] {
        (a[0] as u32) < (b[0] as u32)
    } else {
        lex_leq(a.drop_first(), b.drop_first())
    }
}

/// Distinct characters have distinct code points.
proof fn lemma_char_distinct(c1: char, c2: char)
    requires
        c1 != c2,
    ensures
        (c1 as u32) != (c2 as u32),
{
    if c1 as u32 == c2 as u32 {
        vstd::utf8::char_u32_cast(c1, c1 as u32);
        vstd::utf8::char_u32_cast(c2, c2 as u32);
    }
}

pub proof fn lemma_lex_total(a: Seq<char>, b: Seq<char>)
    ensures
        lex_leq(a, b) || lex_leq(b, a),
    decreases a.len(),
{
    if a.len() != 0 && b.len() != 0 {
        if a[0] == b[0] {
            lemma_lex_total(a.drop_first(), b.drop_first());
        } else {
            lemma_char_distinct(a[0], b[0]);
        }
    }
}

pub proof fn lemma_lex_antisymmetric(a: Seq<char>, b: Seq<char>)
    requires
        lex_leq(a, b),
        lex_leq(b, a),
    ensures
        a == b,
    decreases a.len(),
{
    if a.len() != 0 && b.len() != 0 && a[0] == b[0] {
        lemma_lex_antisymmetric(a.drop_first(), b.drop_first());
        assert(a =~= seq![a[0]] + a.drop_first());
        assert(b =~= seq![b[0]] + b.drop_first());
    } else {
        assert(a =~= b);
    }
}

pub proof fn lemma_lex_transitive(a: Seq<char>, b: Seq<char>, c: Seq<char>)
    requires
        lex_leq(a, b),
        lex_leq(b, c),
    ensures
        lex_leq(a, c),
    decreases a.len(),
{
    if a.len() != 0 && b.len() != 0 && c.len() != 0 {
        if a[0] == b[0] && b[0] == c[0] {
            lemma_lex_transitive(a.drop_first(), b.drop_first(), c.drop_first());
        }
    }
}

/// `lex_leq` as a binary relation value, for use with `sort_by`.
pub open spec fn lex_leq_fn() -> spec_fn(Seq<char>, Seq<char>) -> bool {
    |a: Seq<char>, b: Seq<char>| lex_leq(a, b)
}

pub proof fn lemma_lex_total_ordering()
    ensures
        vstd::relations::total_ordering(lex_leq_fn()),
{
    let leq = lex_leq_fn();
    assert forall|a: Seq<char>| #[trigger] leq(a, a) by {
        lemma_lex_total(a, a);
    }
    assert forall|a: Seq<char>, b: Seq<char>| #[trigger] leq(a, b) && #[trigger] leq(b, a)
        implies a == b by {
        lemma_lex_antisymmetric(a, b);
    }
    assert forall|a: Seq<char>, b: Seq<char>, c: Seq<char>|
        #[trigger] leq(a, b) && #[trigger] leq(b, c) implies leq(a, c) by {
        lemma_lex_transitive(a, b, c);
    }
    assert forall|a: Seq<char>, b: Seq<char>| #[trigger] leq(a, b) || #[trigger] leq(b, a) by {
        lemma_lex_total(a, b);
    }
}

/// Steps `lex_leq` past one equal leading character.
proof fn lemma_lex_step(a: Seq<char>, b: Seq<char>, i: int)
    requires
        0 <= i,
        i < a.len(),
        i < b.len(),
        a[i] == b[i],
    ensures
        lex_leq(a.skip(i), b.skip(i)) == lex_leq(a.skip(i + 1), b.skip(i + 1)),
{
    assert(a.skip(i).drop_first() =~= a.skip(i + 1));
    assert(b.skip(i).drop_first() =~= b.skip(i + 1));
    assert(a.skip(i)[0] == a[i]);
    assert(b.skip(i)[0] == b[i]);
}

/// Decides `lex_leq` on character vectors.
pub fn chars_le(a: &Vec<char>, b: &Vec<char>) -> (r: bool)
    ensures
        r == lex_leq(a@, b@),
{
    let mut i: usize = 0;
    assert(a@.skip(0) =~= a@);
    assert(b@.skip(0) =~= b@);
    loop
        invariant
            i <= a.len(),
            i <= b.len(),
            lex_leq(a@, b@) == lex_leq(a@.skip(i as int), b@.skip(i as int)),
        decreases a.len() - i,
    {
        if i >= a.len() {
            assert(a@.skip(i as int).len() == 0);
            return true;
        }
        if i >= b.len() {
            assert(b@.skip(i as int).len() == 0);
            assert(a@.skip(i as int).len() > 0);
            return false;
        }
        let ca = a[i];
        let cb = b[i];
        if ca != cb {
            proof {
                lemma_char_distinct(ca, cb);
            }
            assert(a@.skip(i as int)[0] == a@[i as int]);
            assert(b@.skip(i as int)[0] == b@[i as int]);
            return (ca as u32) < (cb as u32);
        }
        proof {
            lemma_lex_step(a@, b@, i as int);
        }
        i += 1;
    }
}

/// Copies `v[lo..hi]`.
pub fn subrange_vec(v: &Vec<char>, lo: usize, hi: usize) -> (r: Vec<char>)
    requires
        lo <= hi <= v@.len(),
    ensures
        r@ == v@.subrange(lo as int, hi as int),
{
    let mut r: Vec<char> = Vec::new();
    let mut i: usize = lo;
    while i < hi
        invariant
            lo <= i <= hi <= v@.len(),
            r@ == v@.subrange(lo as int, i as int),
        decreases hi - i,
    {
        r.push(v[i]);
        assert(v@.subrange(lo as int, i + 1 as int) =~= v@.subrange(lo as int, i as int).push(
            v@[i as int],
        ));
        i += 1;
    }
    r
}

/// Appends all of `src` to `dst`.
pub fn extend_chars(dst: &mut Vec<char>, src: &Vec<char>)
    ensures
        final(dst)@ == old(dst)@ + src@,
{
    let mut i: usize = 0;
    while i < src.len()
        invariant
            i <= src@.len(),
            dst@ == old(dst)@ + src@.take(i as int),
        decreases src@.len() - i,
    {
        dst.push(src[i]);
        assert(old(dst)@ + src@.take(i + 1 as int) =~= (old(dst)@ + src@.take(i as int)).push(
            src@[i as int],
        ));
        i += 1;
    }
    assert(src@.take(src@.len() as int) =~= src@);
}

/// Decides equality of character vectors.
pub fn chars_eq(a: &Vec<char>, b: &Vec<char>) -> (r: bool)
    ensures
        r == (a@ == b@),
{
    if a.len() != b.len() {
        return false;
    }
    let mut i: usize = 0;
    while i < a.len()
        invariant
            a.len() == b.len(),
            i <= a.len(),
            forall|j: int| 0 <= j < i ==> a@[j] == b@[j],
        decreases a.len() - i,
    {
        if a[i] != b[i] {
            return false;
        }
        i += 1;
    }
    assert(a@ =~= b@);
    true
}

/// Whitespace as the trimming and tokenizing functions understand it.
pub open spec fn spec_is_space(c: char) -> bool {
    c == ' ' || c == '\t' || c == '\n' || c == '\r'
}

pub fn is_space(c: char) -> (r: bool)
    ensures
        r == spec_is_space(c),
{
    c == ' ' || c == '\t' || c == '\n' || c == '\r'
}

/// Drops leading characters satisfying `p`.
pub open spec fn trim_start_by(s: Seq<char>, p: spec_fn(char) -> bool) -> Seq<char>
    decreases s.len(),
{
    if s.len() > 0 && p(s[0]) {
        trim_start_by(s.drop_first(), p)
    } else {
        s
    }
}

/// Drops trailing characters satisfying `p`.
pub open spec fn trim_end_by(s: Seq<char>, p: spec_fn(char) -> bool) -> Seq<char>
    decreases s.len(),
{
    if s.len() > 0 && p(s.last()) {
        trim_end_by(s.drop_last(), p)
    } else {
        s
    }
}

pub open spec fn trim_by(s: Seq<char>, p: spec_fn(char) -> bool) -> Seq<char> {
    trim_start_by(trim_end_by(s, p), p)
}

pub open spec fn trim_spec(s: Seq<char>) -> Seq<char> {
    trim_by(s, |c: char| spec_is_space(c))
}

pub open spec fn trim_end_spec(s: Seq<char>) -> Seq<char> {
    trim_end_by(s, |c: char| spec_is_space(c))
}

proof fn lemma_trim_start_prefix(s: Seq<char>, k: int, p: spec_fn(char) -> bool)
    requires
        0 <= k <= s.len(),
        forall|j: int| 0 <= j < k ==> p(s[j]),
    ensures
        trim_start_by(s, p) == trim_start_by(s.skip(k), p),
    decreases k,
{
    if k > 0 {
        assert(p(s[0]));
        assert(s.drop_first() =~= s.skip(1));
        lemma_trim_start_prefix(s.skip(1), k - 1, p);
        assert(s.skip(1).skip(k - 1) =~= s.skip(k));
    } else {
        assert(s.skip(0) =~= s);
    }
}

proof fn lemma_trim_end_suffix(s: Seq<char>, k: int, p: spec_fn(char) -> bool)
    requires
        0 <= k <= s.len(),
        forall|j: int| k <= j < s.len() ==> p(s[j]),
    ensures
        trim_end_by(s, p) == trim_end_by(s.take(k), p),
    decreases s.len() - k,
{
    if k < s.len() {
        assert(p(s.last()));
        assert(s.drop_last() =~= s.take(s.len() - 1));
        lemma_trim_end_suffix(s.take(s.len() - 1), k, p);
        assert(s.take(s.len() - 1).take(k) =~= s.take(k));
    } else {
        assert(s.take(k) =~= s);
    }
}

/// Trims characters satisfying exec predicate semantics of `spec_is_space`.
#[verifier::loop_isolation(false)]
pub fn trim_chars(v: &Vec<char>) -> (r: Vec<char>)
    ensures
        r@ == trim_spec(v@),
{
    let ghost p = |c: char| spec_is_space(c);
    let mut hi: usize = v.len();
    while hi > 0 && is_space(v[hi - 1])
        invariant
            hi <= v@.len(),
            forall|j: int| hi <= j < v@.len() ==> p(v@[j]),
        decreases hi,
    {
        hi -= 1;
    }
    let mut lo: usize = 0;
    while lo < hi && is_space(v[lo])
        invariant
            lo <= hi <= v@.len(),
            forall|j: int| 0 <= j < lo ==> p(v@[j]),
            forall|j: int| hi <= j < v@.len() ==> p(v@[j]),
        decreases hi - lo,
    {
        lo += 1;
    }
    proof {
        lemma_trim_end_suffix(v@, hi as int, p);
        assert(trim_end_by(v@, p) == v@.take(hi as int));
        let t = v@.take(hi as int);
        lemma_trim_start_prefix(t, lo as int, p);
        assert(trim_start_by(t, p) == t.skip(lo as int));
        assert(t.skip(lo as int) =~= v@.subrange(lo as int, hi as int));
    }
    subrange_vec(v, lo, hi)
}

/// Right-trims whitespace only, as command output is cached.
#[verifier::loop_isolation(false)]
pub fn trim_end_chars(v: &Vec<char>) -> (r: Vec<char>)
    ensures
        r@ == trim_end_spec(v@),
{
    let ghost p = |c: char| spec_is_space(c);
    let mut hi: usize = v.len();
    while hi > 0 && is_space(v[hi - 1])
        invariant
            hi <= v@.len(),
            forall|j: int| hi <= j < v@.len() ==> p(v@[j]),
        decreases hi,
    {
        hi -= 1;
    }
    proof {
        lemma_trim_end_suffix(v@, hi as int, p);
        assert(v@.take(hi as int) =~= v@.subrange(0, hi as int));
    }
    subrange_vec(v, 0, hi)
}

/// Trims double quotes from both ends.
#[verifier::loop_isolation(false)]
pub fn trim_quotes(v: &Vec<char>) -> (r: Vec<char>)
    ensures
        r@ == trim_by(v@, |c: char| c == '"'),
{
    let ghost p = |c: char| c == '"';
    let mut hi: usize = v.len();
    while hi > 0 && v[hi - 1] == '"'
        invariant
            hi <= v@.len(),
            forall|j: int| hi <= j < v@.len() ==> p(v@[j]),
        decreases hi,
    {
        hi -= 1;
    }
    let mut lo: usize = 0;
    while lo < hi && v[lo] == '"'
        invariant
            lo <= hi <= v@.len(),
            forall|j: int| 0 <= j < lo ==> p(v@[j]),
            forall|j: int| hi <= j < v@.len() ==> p(v@[j]),
        decreases hi - lo,
    {
        lo += 1;
    }
    proof {
        lemma_trim_end_suffix(v@, hi as int, p);
        let t = v@.take(hi as int);
        lemma_trim_start_prefix(t, lo as int, p);
        assert(t.skip(lo as int) =~= v@.subrange(lo as int, hi as int));
    }
    subrange_vec(v, lo, hi)
}

/// `p` is a prefix of `s`.
pub open spec fn is_prefix(p: Seq<char>, s: Seq<char>) -> bool {
    p.len() <= s.len() && s.take(p.len() as int) == p
}

/// `p` occurs in `s` starting at `i`.
pub open spec fn match_at(s: Seq<char>, p: Seq<char>, i: int) -> bool {
    0 <= i && i + p.len() <= s.len() && s.subrange(i, i + p.len()) == p
}

/// `p` occurs somewhere in `s`.
pub open spec fn contains_seq(s: Seq<char>, p: Seq<char>) -> bool {
    exists|i: int| match_at(s, p, i)
}

pub fn starts_with(s: &Vec<char>, p: &Vec<char>) -> (r: bool)
    ensures
        r == is_prefix(p@, s@),
{
    if p.len() > s.len() {
        return false;
    }
    let mut i: usize = 0;
    while i < p.len()
        invariant
            p@.len() <= s@.len(),
            i <= p@.len(),
            forall|j: int| 0 <= j < i ==> s@[j] == p@[j],
        decreases p@.len() - i,
    {
        if s[i] != p[i] {
            assert(s@.take(p@.len() as int)[i as int] != p@[i as int]);
            return false;
        }
        i += 1;
    }
    assert(s@.take(p@.len() as int) =~= p@);
    true
}

#[verifier::loop_isolation(false)]
#[verifier::loop_isolation(false)]
fn match_at_exec(s: &Vec<char>, p: &Vec<char>, at: usize) -> (r: bool)
    requires
        at + p@.len() <= s@.len(),
    ensures
        r == match_at(s@, p@, at as int),
{
    let n = s.len();
    let mut i: usize = 0;
    while i < p.len()
        invariant
            n == s@.len(),
            at + p@.len() <= s@.len(),
            i <= p@.len(),
            forall|j: int| 0 <= j < i ==> s@[at + j] == p@[j],
        decreases p@.len() - i,
    {
        if s[at + i] != p[i] {
            assert(s@.subrange(at as int, at + p@.len())[i as int] != p@[i as int]);
            return false;
        }
        i += 1;
    }
    assert(s@.subrange(at as int, at + p@.len()) =~= p@);
    true
}

/// Decides substring containment.
#[verifier::loop_isolation(false)]
pub fn chars_contains(s: &Vec<char>, p: &Vec<char>) -> (r: bool)
    ensures
        r == contains_seq(s@, p@),
{
    if p.len() > s.len() {
        assert(forall|i: int| !match_at(s@, p@, i));
        return false;
    }
    if p.len() == 0 {
        assert(s@.subrange(0, 0) =~= p@);
        assert(match_at(s@, p@, 0));
        return true;
    }
    let last = s.len() - p.len();
    let mut i: usize = 0;
    while i <= last
        invariant
            0 < p@.len() <= s@.len(),
            last == s@.len() - p@.len(),
            i <= last + 1,
            forall|j: int| 0 <= j < i ==> !match_at(s@, p@, j),
        decreases last + 1 - i,
    {
        if match_at_exec(s, p, i) {
            return true;
        }
        i += 1;
    }
    assert(forall|j: int| j > last ==> !match_at(s@, p@, j));
    return false;
}

/// Index of the first occurrence of `c` in `s`.
pub open spec fn find_char(s: Seq<char>, c: char) -> Option<int>
    decreases s.len(),
{
    if s.len() == 0 {
        None
    } else if s[0] == c {
        Some(0int)
    } else {
        match find_char(s.drop_first(), c) {
            None => None,
            Some(i) => Some(i + 1),
        }
    }
}

pub proof fn lemma_find_char(s: Seq<char>, c: char)
    ensures
        match find_char(s, c) {
            None => forall|j: int| 0 <= j < s.len() ==> s[j] != c,
            Some(i) => 0 <= i < s.len() && s[i] == c && forall|j: int| 0 <= j < i ==> s[j] != c,
        },
    decreases s.len(),
{
    if s.len() > 0 && s[0] != c {
        lemma_find_char(s.drop_first(), c);
        match find_char(s.drop_first(), c) {
            None => {
                assert forall|j: int| 0 <= j < s.len() implies s[j] != c by {
                    if j >= 1 {
                        assert(s.drop_first()[j - 1] != c);
                    }
                }
            },
            Some(i0) => {
                assert(s.drop_first()[i0] == c);
                assert forall|j: int| 0 <= j < i0 + 1 implies s[j] != c by {
                    if j >= 1 {
                        assert(s.drop_first()[j - 1] != c);
                    }
                }
            },
        }
    }
}

/// Index of the last occurrence of `c` in `s`.
pub open spec fn rfind_char(s: Seq<char>, c: char) -> Option<int>
    decreases s.len(),
{
    if s.len() == 0 {
        None
    } else if s.last() == c {
        Some(s.len() - 1)
    } else {
        rfind_char(s.drop_last(), c)
    }
}

proof fn lemma_rfind_char_at(s: Seq<char>, c: char, i: int)
    requires
        0 <= i < s.len(),
        s[i] == c,
        forall|j: int| i < j < s.len() ==> s[j] != c,
    ensures
        rfind_char(s, c) == Some(i),
    decreases s.len(),
{
    if i < s.len() - 1 {
        lemma_rfind_char_at(s.drop_last(), c, i);
    }
}

proof fn lemma_rfind_char_none(s: Seq<char>, c: char)
    requires
        forall|j: int| 0 <= j < s.len() ==> s[j] != c,
    ensures
        rfind_char(s, c) is None,
    decreases s.len(),
{
    if s.len() > 0 {
        lemma_rfind_char_none(s.drop_last(), c);
    }
}

/// Index of the last occurrence of `c` in `v`.
#[verifier::loop_isolation(false)]
pub fn rfind_in(v: &Vec<char>, c: char) -> (r: Option<usize>)
    ensures
        match r {
            None => rfind_char(v@, c) is None,
            Some(u) => u < v@.len() && rfind_char(v@, c) == Some(u as int),
        },
{
    let mut i: usize = v.len();
    while i > 0
        invariant
            i <= v@.len(),
            forall|j: int| i <= j < v@.len() ==> v@[j] != c,
        decreases i,
    {
        i -= 1;
        if v[i] == c {
            proof {
                lemma_rfind_char_at(v@, c, i as int);
            }
            return Some(i);
        }
    }
    proof {
        lemma_rfind_char_none(v@, c);
    }
    None
}

/// Splits `s` at every occurrence of `c`; a separator at either end or two
/// adjacent separators contribute empty segments, as `str::split` does.
pub open spec fn split_spec(s: Seq<char>, c: char) -> Seq<Seq<char>>
    decreases s.len(),
    via split_spec_decreases
{
    match find_char(s, c) {
        None => seq![s],
        Some(i) => seq![s.take(i)] + split_spec(s.skip(i + 1), c),
    }
}

#[via_fn]
proof fn split_spec_decreases(s: Seq<char>, c: char) {
    lemma_find_char(s, c);
}

pub proof fn lemma_split_len(s: Seq<char>, c: char)
    ensures
        split_spec(s, c).len() >= 1,
    decreases s.len(),
{
    lemma_find_char(s, c);
    match find_char(s, c) {
        None => {},
        Some(i) => {
            lemma_split_len(s.skip(i + 1), c);
        },
    }
}

/// Splitting a sequence that starts with the separator yields an empty
/// first segment.
proof fn lemma_split_cons_sep(s: Seq<char>, c: char)
    requires
        s.len() > 0,
        s[0] == c,
    ensures
        split_spec(s, c) == seq![Seq::<char>::empty()] + split_spec(s.drop_first(), c),
{
    assert(find_char(s, c) == Some(0int));
    assert(s.take(0) =~= Seq::<char>::empty());
    assert(s.skip(1) =~= s.drop_first());
}

/// Splitting a sequence that starts with a non-separator prepends that
/// character to the first segment.
proof fn lemma_split_cons_nonsep(s: Seq<char>, c: char)
    requires
        s.len() > 0,
        s[0] != c,
    ensures
        split_spec(s, c).len() >= 1,
        split_spec(s.drop_first(), c).len() >= 1,
        split_spec(s, c)[0] == seq![s[0]] + split_spec(s.drop_first(), c)[0],
        split_spec(s, c).drop_first() == split_spec(s.drop_first(), c).drop_first(),
{
    lemma_split_len(s, c);
    lemma_split_len(s.drop_first(), c);
    lemma_find_char(s, c);
    lemma_find_char(s.drop_first(), c);
    match find_char(s, c) {
        None => {
            assert(find_char(s.drop_first(), c) is None) by {
                if s.drop_first().len() > 0 {
                    lemma_find_char(s.drop_first(), c);
                }
            }
            assert(split_spec(s, c) =~= seq![s]);
            assert(split_spec(s.drop_first(), c) =~= seq![s.drop_first()]);
            assert(s =~= seq![s[0]] + s.drop_first());
            assert(split_spec(s, c).drop_first() =~= split_spec(s.drop_first(), c).drop_first());
        },
        Some(i) => {
            assert(i >= 1);
            assert(find_char(s.drop_first(), c) == Some(i - 1));
            assert(s.drop_first().skip(i) =~= s.skip(i + 1));
            assert(s.take(i) =~= seq![s[0]] + s.drop_first().take(i - 1));
            assert(split_spec(s, c).drop_first() =~= split_spec(s.drop_first(), c).drop_first());
        },
    }
}

/// Prepends `p` to the first segment of `segs`.
pub open spec fn cons_first(p: Seq<char>, segs: Seq<Seq<char>>) -> Seq<Seq<char>> {
    seq![p + segs[0]] + segs.drop_first()
}

/// The deep view of a character vector is its view.
pub proof fn lemma_chars_dv(v: &Vec<char>)
    ensures
        v.deep_view() == v@,
{
    assert(v.deep_view() =~= v@);
}

/// Splits `v` at every occurrence of `sep`.
#[verifier::loop_isolation(false)]
pub fn split_chars(v: &Vec<char>, sep: char) -> (r: Vec<Vec<char>>)
    ensures
        r.deep_view() == split_spec(v@, sep),
{
    let mut out: Vec<Vec<char>> = Vec::new();
    let mut cur: Vec<char> = Vec::new();
    let mut i: usize = 0;
    proof {
        assert(v@.skip(0) =~= v@);
        lemma_split_len(v@, sep);
    }
    while i < v.len()
        invariant
            i <= v@.len(),
            split_spec(v@.skip(i as int), sep).len() >= 1,
            split_spec(v@, sep) == out.deep_view() + cons_first(
                cur@,
                split_spec(v@.skip(i as int), sep),
            ),
        decreases v@.len() - i,
    {
        let ghost rest = v@.skip(i as int);
        let ghost rest1 = v@.skip(i + 1 as int);
        proof {
            assert(rest.len() > 0);
            assert(rest[0] == v@[i as int]);
            assert(rest.drop_first() =~= rest1);
            lemma_split_len(rest1, sep);
        }
        let c = v[i];
        if c == sep {
            proof {
                lemma_split_cons_sep(rest, sep);
                lemma_chars_dv(&cur);
            }
            let ghost old_out = out;
            let ghost old_cur = cur@;
            out.push(cur);
            proof {
                assert(out.deep_view() =~~= old_out.deep_view().push(old_cur));
                assert(old_cur + Seq::<char>::empty() =~= old_cur);
                assert(old_out.deep_view() + cons_first(old_cur, split_spec(rest, sep))
                    =~~= out.deep_view() + cons_first(
                    Seq::<char>::empty(),
                    split_spec(rest1, sep),
                ));
            }
            cur = Vec::new();
        } else {
            proof {
                lemma_split_cons_nonsep(rest, sep);
                assert(cur@ + (seq![c] + split_spec(rest1, sep)[0]) =~= cur@.push(c) + split_spec(
                    rest1,
                    sep,
                )[0]);
                assert(cons_first(cur@, split_spec(rest, sep)) =~~= cons_first(
                    cur@.push(c),
                    split_spec(rest1, sep),
                ));
            }
            cur.push(c);
        }
        i += 1;
    }
    proof {
        assert(v@.skip(v@.len() as int) =~= Seq::<char>::empty());
        assert(find_char(Seq::<char>::empty(), sep) is None);
        assert(split_spec(Seq::<char>::empty(), sep) =~= seq![Seq::<char>::empty()]);
        lemma_chars_dv(&cur);
    }
    let ghost old_out = out;
    let ghost old_cur = cur@;
    out.push(cur);
    proof {
        assert(out.deep_view() =~~= old_out.deep_view().push(old_cur));
        assert(old_cur + Seq::<char>::empty() =~= old_cur);
        assert(cons_first(old_cur, seq![Seq::<char>::empty()]) =~~= seq![old_cur]);
        assert(split_spec(v@, sep) =~~= out.deep_view());
    }
    out
}

/// Pushing onto a vector of character vectors pushes its view onto the
/// deep view.
pub proof fn lemma_dv_push(ov: &Vec<Vec<char>>, nv: &Vec<Vec<char>>, x: &Vec<char>)
    requires
        nv@ == ov@.push(*x),
    ensures
        nv.deep_view() == ov.deep_view().push(x@),
{
    lemma_chars_dv(x);
    assert(nv.deep_view() =~~= ov.deep_view().push(x@));
}

/// Length of the leading run of non-whitespace characters.
pub open spec fn nonspace_run(s: Seq<char>) -> nat
    decreases s.len(),
{
    if s.len() == 0 || spec_is_space(s[0]) {
        0
    } else {
        1 + nonspace_run(s.drop_first())
    }
}

pub proof fn lemma_nonspace_run_bound(s: Seq<char>)
    ensures
        nonspace_run(s) <= s.len(),
    decreases s.len(),
{
    if s.len() > 0 && !spec_is_space(s[0]) {
        lemma_nonspace_run_bound(s.drop_first());
    }
}

proof fn lemma_nonspace_run_value(s: Seq<char>, k: int)
    requires
        0 <= k <= s.len(),
        forall|j: int| 0 <= j < k ==> !spec_is_space(s[j]),
        k == s.len() || spec_is_space(s[k]),
    ensures
        nonspace_run(s) == k,
    decreases k,
{
    if k == 0 {
    } else {
        assert(!spec_is_space(s[0]));
        lemma_nonspace_run_value(s.drop_first(), k - 1);
    }
}

/// The whitespace-separated tokens of `s`, in order, each non-empty.
pub open spec fn tokens_spec(s: Seq<char>) -> Seq<Seq<char>>
    decreases s.len(),
    via tokens_spec_decreases
{
    if s.len() == 0 {
        Seq::empty()
    } else if spec_is_space(s[0]) {
        tokens_spec(s.drop_first())
    } else {
        seq![s.take(nonspace_run(s) as int)] + tokens_spec(s.skip(nonspace_run(s) as int))
    }
}

#[via_fn]
proof fn tokens_spec_decreases(s: Seq<char>) {
    lemma_nonspace_run_bound(s);
}

/// Splits `v` into whitespace-separated tokens.
#[verifier::loop_isolation(false)]
pub fn tokens_of(v: &Vec<char>) -> (r: Vec<Vec<char>>)
    ensures
        r.deep_view() == tokens_spec(v@),
{
    let mut out: Vec<Vec<char>> = Vec::new();
    let mut i: usize = 0;
    proof {
        assert(v@.skip(0) =~= v@);
    }
    while i < v.len()
        invariant
            i <= v@.len(),
            tokens_spec(v@) == out.deep_view() + tokens_spec(v@.skip(i as int)),
        decreases v@.len() - i,
    {
        let ghost rest = v@.skip(i as int);
        proof {
            assert(rest[0] == v@[i as int]);
            assert(rest.drop_first() =~= v@.skip(i + 1));
        }
        if is_space(v[i]) {
            i += 1;
        } else {
            let mut j: usize = i + 1;
            while j < v.len() && !is_space(v[j])
                invariant
                    i < j <= v@.len(),
                    forall|k: int| i <= k < j ==> !spec_is_space(v@[k]),
                decreases v@.len() - j,
            {
                j += 1;
            }
            proof {
                assert forall|k: int| 0 <= k < j - i implies !spec_is_space(rest[k]) by {
                    assert(rest[k] == v@[i + k]);
                }
                if j < v.len() {
                    assert(spec_is_space(rest[j - i]));
                }
                lemma_nonspace_run_value(rest, j - i);
                assert(rest.take(j - i) =~= v@.subrange(i as int, j as int));
                assert(rest.skip(j - i) =~= v@.skip(j as int));
            }
            let tok = subrange_vec(v, i, j);
            let ghost old_out = out;
            proof {
                lemma_chars_dv(&tok);
            }
            let ghost tokv = tok@;
            out.push(tok);
            proof {
                assert(out.deep_view() =~~= old_out.deep_view().push(tokv));
                assert(out.deep_view() + tokens_spec(v@.skip(j as int)) =~~= old_out.deep_view()
                    + tokens_spec(rest));
            }
            i = j;
        }
    }
    proof {
        assert(v@.skip(v@.len() as int) =~= Seq::<char>::empty());
        assert(tokens_spec(v@) =~~= out.deep_view());
    }
    out
}

/// Drops one trailing carriage return, as `str::lines` does per line.
pub open spec fn strip_cr(l: Seq<char>) -> Seq<char> {
    if l.len() > 0 && l.last() == '\r' {
        l.drop_last()
    } else {
        l
    }
}

/// The lines of `s`: split at newlines, one trailing empty segment
/// dropped, each line stripped of one trailing carriage return.
pub open spec fn lines_spec(s: Seq<char>) -> Seq<Seq<char>> {
    let parts = split_spec(s, '\n');
    let kept = if parts.len() > 0 && parts.last().len() == 0 {
        parts.drop_last()
    } else {
        parts
    };
    kept.map_values(|l: Seq<char>| strip_cr(l))
}

/// Splits `v` into lines, with `str::lines` semantics.
#[verifier::loop_isolation(false)]
pub fn lines_of(v: &Vec<char>) -> (r: Vec<Vec<char>>)
    ensures
        r.deep_view() == lines_spec(v@),
{
    let mut parts = split_chars(v, '\n');
    let ghost kept0 = parts.deep_view();
    if parts.len() > 0 && parts[parts.len() - 1].len() == 0 {
        proof {
            assert(parts.deep_view().last() == parts@.last().deep_view());
            lemma_chars_dv(&parts@[parts@.len() - 1]);
        }
        parts.pop();
        proof {
            assert(parts.deep_view() =~~= kept0.drop_last());
        }
    }
    let ghost kept = parts.deep_view();
    let mut out: Vec<Vec<char>> = Vec::new();
    let mut i: usize = 0;
    while i < parts.len()
        invariant
            i <= parts@.len(),
            kept == parts.deep_view(),
            out.deep_view().len() == i,
            forall|j: int| 0 <= j < i ==> out.deep_view()[j] == strip_cr(kept[j]),
        decreases parts@.len() - i,
    {
        let mut line = subrange_vec(&parts[i], 0, parts[i].len());
        proof {
            lemma_chars_dv(&parts@[i as int]);
            assert(parts@[i as int]@ =~= parts@[i as int]@.subrange(
                0,
                parts@[i as int]@.len() as int,
            ));
            assert(line@ == kept[i as int]);
        }
        if line.len() > 0 && line[line.len() - 1] == '\r' {
            line.pop();
            proof {
                assert(line@ =~= strip_cr(kept[i as int]));
            }
        }
        let ghost old_out = out;
        let ghost linev = line@;
        out.push(line);
        proof {
            lemma_dv_push(&old_out, &out, &out@[out@.len() - 1]);
            assert(out.deep_view() =~~= old_out.deep_view().push(linev));
        }
        i += 1;
    }
    proof {
        assert(out.deep_view() =~~= lines_spec(v@));
    }
    out
}

/// Every occurrence of `from` in `s`, scanned left to right, replaced by
/// `to`; matches do not overlap.
pub open spec fn replace_spec(s: Seq<char>, from: Seq<char>, to: Seq<char>) -> Seq<char>
    decreases s.len(),
{
    if from.len() == 0 || s.len() < from.len() {
        s
    } else if s.take(from.len() as int) == from {
        to + replace_spec(s.skip(from.len() as int), from, to)
    } else {
        seq![s[0]] + replace_spec(s.drop_first(), from, to)
    }
}

/// Replaces every occurrence of `from` by `to`, left to right.
#[verifier::loop_isolation(false)]
pub fn replace_chars(s: &Vec<char>, from: &Vec<char>, to: &Vec<char>) -> (r: Vec<char>)
    requires
        from@.len() > 0,
    ensures
        r@ == replace_spec(s@, from@, to@),
{
    let mut out: Vec<char> = Vec::new();
    let mut i: usize = 0;
    proof {
        assert(s@.skip(0) =~= s@);
    }
    while i < s.len()
        invariant
            i <= s@.len(),
            replace_spec(s@, from@, to@) == out@ + replace_spec(s@.skip(i as int), from@, to@),
        decreases s@.len() - i,
    {
        let ghost rest = s@.skip(i as int);
        proof {
            assert(rest[0] == s@[i as int]);
            assert(rest.drop_first() =~= s@.skip(i + 1));
        }
        if s.len() - i >= from.len() && match_at_exec(s, from, i) {
            proof {
                assert(rest.take(from@.len() as int) =~= s@.subrange(i as int, i + from@.len()));
                assert(rest.skip(from@.len() as int) =~= s@.skip(i + from@.len()));
            }
            extend_chars(&mut out, to);
            i += from.len();
        } else {
            proof {
                if rest.len() >= from@.len() {
                    assert(rest.take(from@.len() as int) =~= s@.subrange(
                        i as int,
                        i + from@.len(),
                    ));
                    assert(rest.take(from@.len() as int) != from@);
                } else {
                    assert(rest =~= seq![rest[0]] + rest.drop_first());
                }
            }
            out.push(s[i]);
            i += 1;
        }
    }
    proof {
        assert(s@.skip(s@.len() as int) =~= Seq::<char>::empty());
    }
    out
}

/// Collapses runs of adjacent equal elements to one.
pub open spec fn dedup_adjacent(s: Seq<Seq<char>>) -> Seq<Seq<char>>
    decreases s.len(),
{
    if s.len() <= 1 {
        s
    } else if s[0] == s[1] {
        dedup_adjacent(s.drop_first())
    } else {
        seq![s[0]] + dedup_adjacent(s.drop_first())
    }
}

/// Appending an element extends the deduplication by that element
/// unless it repeats the last one.
pub proof fn lemma_dedup_push(s: Seq<Seq<char>>, x: Seq<char>)
    ensures
        s.len() == 0 ==> dedup_adjacent(s.push(x)) == seq![x],
        s.len() > 0 && x == s.last() ==> dedup_adjacent(s.push(x)) == dedup_adjacent(s),
        s.len() > 0 && x != s.last() ==> dedup_adjacent(s.push(x)) == dedup_adjacent(s).push(x),
    decreases s.len(),
{
    reveal_with_fuel(dedup_adjacent, 4);
    let t = s.push(x);
    if s.len() == 0 {
        assert(t =~= seq![x]);
        assert(dedup_adjacent(t) =~= seq![x]);
    } else if s.len() == 1 {
        assert(t[0] == s[0]);
        assert(t[1] == x);
        assert(t.drop_first() =~= seq![x]);
        if x == s[0] {
            assert(dedup_adjacent(t) =~= dedup_adjacent(s));
        } else {
            assert(dedup_adjacent(t) =~= dedup_adjacent(s).push(x));
        }
    } else {
        assert(t[0] == s[0]);
        assert(t[1] == s[1]);
        assert(t.drop_first() =~= s.drop_first().push(x));
        lemma_dedup_push(s.drop_first(), x);
        assert(s.drop_first().last() == s.last());
        if x == s.last() {
            assert(dedup_adjacent(t) =~= dedup_adjacent(s));
        } else {
            if s[0] == s[1] {
                assert(dedup_adjacent(t) =~= dedup_adjacent(s).push(x));
            } else {
                assert(dedup_adjacent(t) =~= (seq![s[0]] + dedup_adjacent(s.drop_first())).push(
                    x,
                ));
                assert(dedup_adjacent(t) =~= dedup_adjacent(s).push(x));
            }
        }
    }
}

/// All parts joined with `sep` between every two.
pub open spec fn join_sep(parts: Seq<Seq<char>>, sep: Seq<char>) -> Seq<char>
    decreases parts.len(),
{
    if parts.len() == 0 {
        Seq::empty()
    } else if parts.len() == 1 {
        parts[0]
    } else {
        parts[0] + sep + join_sep(parts.drop_first(), sep)
    }
}

/// Appending a part appends a separator and the part.
pub proof fn lemma_join_sep_push(parts: Seq<Seq<char>>, sep: Seq<char>, x: Seq<char>)
    ensures
        parts.len() == 0 ==> join_sep(parts.push(x), sep) == x,
        parts.len() > 0 ==> join_sep(parts.push(x), sep) == join_sep(parts, sep) + sep + x,
    decreases parts.len(),
{
    reveal_with_fuel(join_sep, 4);
    let t = parts.push(x);
    if parts.len() == 0 {
        assert(t.len() == 1);
        assert(t[0] == x);
    } else if parts.len() == 1 {
        assert(t[0] == parts[0]);
        assert(t.drop_first() =~= seq![x]);
        assert(join_sep(t, sep) == parts[0] + sep + x);
    } else {
        assert(t[0] == parts[0]);
        assert(t.drop_first() =~= parts.drop_first().push(x));
        lemma_join_sep_push(parts.drop_first(), sep, x);
        assert(join_sep(t, sep) == parts[0] + sep + (join_sep(parts.drop_first(), sep) + sep
            + x));
        assert(parts[0] + sep + (join_sep(parts.drop_first(), sep) + sep + x) =~= (parts[0] + sep
            + join_sep(parts.drop_first(), sep)) + sep + x);
    }
}

/// `c` is an ASCII decimal digit.
pub open spec fn is_digit(c: char) -> bool {
    ('0' as u32) <= (c as u32) && (c as u32) <= ('9' as u32)
}

pub open spec fn digit_val(c: char) -> nat {
    ((c as u32) - ('0' as u32)) as nat
}

pub open spec fn all_digits(s: Seq<char>) -> bool {
    forall|i: int| 0 <= i < s.len() ==> is_digit(#[trigger] s[i])
}

/// The number denoted by a sequence of decimal digits.
pub open spec fn digits_val(s: Seq<char>) -> nat
    decreases s.len(),
{
    if s.len() == 0 {
        0
    } else {
        digits_val(s.drop_last()) * 10 + digit_val(s.last())
    }
}

proof fn lemma_digits_val_mono(s: Seq<char>, k: int)
    requires
        0 <= k <= s.len(),
    ensures
        digits_val(s.take(k)) <= digits_val(s),
    decreases s.len(),
{
    if k < s.len() {
        assert(s.drop_last().take(k) =~= s.take(k));
        lemma_digits_val_mono(s.drop_last(), k);
    } else {
        assert(s.take(k) =~= s);
    }
}

/// Parses a decimal natural number; rejects empty input, any non-digit,
/// and values over `u64::MAX`.
#[verifier::loop_isolation(false)]
pub fn parse_u64(v: &Vec<char>) -> (r: Option<u64>)
    ensures
        r is Some <==> (v@.len() > 0 && all_digits(v@) && digits_val(v@) <= u64::MAX),
        r matches Some(x) ==> x as nat == digits_val(v@),
{
    if v.len() == 0 {
        return None;
    }
    let mut acc: u64 = 0;
    let mut i: usize = 0;
    proof {
        assert(v@.take(0) =~= Seq::<char>::empty());
    }
    while i < v.len()
        invariant
            i <= v@.len(),
            all_digits(v@.take(i as int)),
            acc as nat == digits_val(v@.take(i as int)),
        decreases v@.len() - i,
    {
        let c = v[i];
        let cu = c as u32;
        proof {
            assert(v@.take(i + 1).drop_last() =~= v@.take(i as int));
            assert(v@.take(i + 1).last() == v@[i as int]);
        }
        if !(48 <= cu && cu <= 57) {
            assert(!is_digit(v@[i as int]));
            return None;
        }
        let d: u64 = (cu - 48) as u64;
        assert(is_digit(v@[i as int]) && digit_val(v@[i as int]) == d);
        if acc > (u64::MAX - d) / 10 {
            proof {
                let t = v@.take(i + 1);
                assert(digits_val(t) == acc * 10 + d);
                assert(acc * 10 + d > u64::MAX) by {
                    assert(acc >= (u64::MAX - d) / 10 + 1);
                    assert(((u64::MAX - d) / 10 + 1) * 10 == ((u64::MAX - d) / 10) * 10 + 10);
                    assert(acc * 10 >= ((u64::MAX - d) / 10 + 1) * 10) by (nonlinear_arith)
                        requires
                            acc >= (u64::MAX - d) / 10 + 1,
                    ;
                    assert(((u64::MAX - d) / 10) * 10 + (u64::MAX - d) % 10 == u64::MAX - d);
                }
                lemma_digits_val_mono(v@, i + 1);
            }
            return None;
        }
        proof {
            assert(acc * 10 + d <= u64::MAX) by {
                assert(acc <= (u64::MAX - d) / 10);
                assert(acc * 10 <= ((u64::MAX - d) / 10) * 10) by (nonlinear_arith)
                    requires
                        acc <= (u64::MAX - d) / 10,
                ;
                assert(((u64::MAX - d) / 10) * 10 + (u64::MAX - d) % 10 == u64::MAX - d);
            }
        }
        acc = acc * 10 + d;
        i += 1;
    }
    proof {
        assert(v@.take(v@.len() as int) =~= v@);
    }
    Some(acc)
}

/// Parses a decimal number that must fit in `u8`.
pub fn parse_u8(v: &Vec<char>) -> (r: Option<u8>)
    ensures
        r is Some <==> (v@.len() > 0 && all_digits(v@) && digits_val(v@) <= u8::MAX),
        r matches Some(x) ==> x as nat == digits_val(v@),
{
    match parse_u64(v) {
        None => None,
        Some(x) => {
            if x <= 255 {
                Some(x as u8)
            } else {
                None
            }
        },
    }
}

pub open spec fn dec_digit_char(d: nat) -> char {
    if d == 0 {
        '0'
    } else if d == 1 {
        '1'
    } else if d == 2 {
        '2'
    } else if d == 3 {
        '3'
    } else if d == 4 {
        '4'
    } else if d == 5 {
        '5'
    } else if d == 6 {
        '6'
    } else if d == 7 {
        '7'
    } else if d == 8 {
        '8'
    } else {
        '9'
    }
}

/// The decimal rendering of `n`, most significant digit first, no
/// leading zeros (except for `n == 0`).
pub open spec fn decimal_rep(n: nat) -> Seq<char>
    decreases n,
{
    if n < 10 {
        seq![dec_digit_char(n)]
    } else {
        decimal_rep(n / 10).push(dec_digit_char(n % 10))
    }
}

pub fn dec_digit_exec(d: u64) -> (c: char)
    requires
        d < 10,
    ensures
        c == dec_digit_char(d as nat),
{
    if d == 0 {
        '0'
    } else if d == 1 {
        '1'
    } else if d == 2 {
        '2'
    } else if d == 3 {
        '3'
    } else if d == 4 {
        '4'
    } else if d == 5 {
        '5'
    } else if d == 6 {
        '6'
    } else if d == 7 {
        '7'
    } else if d == 8 {
        '8'
    } else {
        '9'
    }
}

/// Renders `n` in decimal.
pub fn u64_dec(n: u64) -> (r: Vec<char>)
    ensures
        r@ == decimal_rep(n as nat),
    decreases n,
{
    if n < 10 {
        let mut r: Vec<char> = Vec::new();
        r.push(dec_digit_exec(n));
        assert(r@ =~= decimal_rep(n as nat));
        r
    } else {
        let mut r = u64_dec(n / 10);
        r.push(dec_digit_exec(n % 10));
        r
    }
}

} // verus!
