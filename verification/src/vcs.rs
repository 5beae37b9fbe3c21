//! Version-control support: the status-icon merge algorithm, backend
//! detection, and dispatch over the five supported backends.

pub mod darcs;
pub mod git;
pub mod hg;
pub mod jj;
pub mod pijul;

use vstd::prelude::*;

use vstd::multiset::Multiset;

use crate::cmd::opt_str_view;
use vstd::relations::sorted_by;

use crate::text::{
    chars_eq, chars_le, chars_string, decimal_rep, extend_chars, lemma_lex_total,
    lemma_lex_total_ordering, lemma_lex_transitive, lex_leq, lex_leq_fn, str_chars, u64_dec,
};
use crate::style::{superscript_chars, superscript_spec};

verus! {

/// A status glyph; the empty string means "no visual marker".
#[derive(Clone, Copy)]
pub struct StatusIcon {
    pub value: &'static str,
}

impl View for StatusIcon {
    type V = Seq<char>;

    open spec fn view(&self) -> Seq<char> {
        self.value@
    }
}

impl DeepView for StatusIcon {
    type V = Seq<char>;

    open spec fn deep_view(&self) -> Seq<char> {
        self.value@
    }
}

impl StatusIcon {
    pub fn new(value: &'static str) -> (r: StatusIcon)
        ensures
            r@ == value@,
    {
        StatusIcon { value }
    }
}

/// The glyphs that carry a visual marker.
pub open spec fn nonempty_glyphs(s: Seq<Seq<char>>) -> Seq<Seq<char>> {
    s.filter(|g: Seq<char>| g.len() != 0)
}

/// Length of the leading run of elements equal to the first.
pub open spec fn run_len(s: Seq<Seq<char>>) -> nat
    decreases s.len(),
{
    if s.len() == 0 {
        0
    } else if s.len() == 1 || s[1] != s[0] {
        1
    } else {
        1 + run_len(s.drop_first())
    }
}

pub proof fn lemma_run_len_bounds(s: Seq<Seq<char>>)
    requires
        s.len() > 0,
    ensures
        1 <= run_len(s) <= s.len(),
    decreases s.len(),
{
    if s.len() > 1 && s[1] == s[0] {
        lemma_run_len_bounds(s.drop_first());
    }
}

proof fn lemma_run_len_value(s: Seq<Seq<char>>, k: int)
    requires
        1 <= k <= s.len(),
        forall|m: int| 0 <= m < k ==> #[trigger] s[m] == s[0],
        k == s.len() || s[k] != s[0],
    ensures
        run_len(s) == k,
    decreases k,
{
    if k == 1 {
    } else {
        assert(s[1] == s[0]);
        let d = s.drop_first();
        assert forall|m: int| 0 <= m < k - 1 implies #[trigger] d[m] == d[0] by {
            assert(d[m] == s[m + 1]);
        }
        if k - 1 < d.len() {
            assert(d[k - 1] == s[k]);
            assert(d[0] == s[1]);
        }
        lemma_run_len_value(d, k - 1);
    }
}

/// One merged group: the glyph, followed by a superscript count when the
/// group has more than one member.
pub open spec fn render_icon_spec(g: Seq<char>, n: nat) -> Seq<char> {
    if n == 1 {
        g
    } else {
        g + superscript_spec(decimal_rep(n))
    }
}

/// Concatenation of the rendered groups of consecutive equal glyphs.
pub open spec fn merge_sorted(s: Seq<Seq<char>>) -> Seq<char>
    decreases s.len(),
    via merge_sorted_decreases
{
    if s.len() == 0 {
        Seq::empty()
    } else {
        render_icon_spec(s[0], run_len(s)) + merge_sorted(s.skip(run_len(s) as int))
    }
}

#[via_fn]
proof fn merge_sorted_decreases(s: Seq<Seq<char>>) {
    if s.len() > 0 {
        lemma_run_len_bounds(s);
    }
}

/// What the icon merge produces: empty glyphs dropped, the rest sorted,
/// consecutive equal glyphs grouped and rendered with superscript counts.
pub open spec fn merge_spec(glyphs: Seq<Seq<char>>) -> Seq<char> {
    merge_sorted(nonempty_glyphs(glyphs).sort_by(lex_leq_fn()))
}

proof fn lemma_dv_drop_last(ov: &Vec<Vec<char>>, nv: &Vec<Vec<char>>)
    requires
        ov@.len() > 0,
        nv@ == ov@.drop_last(),
    ensures
        nv.deep_view() == ov.deep_view().drop_last(),
{
    assert(nv.deep_view() =~~= ov.deep_view().drop_last());
}

proof fn lemma_dv_insert(ov: &Vec<Vec<char>>, nv: &Vec<Vec<char>>, j: int, x: &Vec<char>)
    requires
        0 <= j <= ov@.len(),
        nv@ == ov@.insert(j, *x),
    ensures
        nv.deep_view() == ov.deep_view().insert(j, x@),
{
    ov@.insert_ensures(j, *x);
    ov.deep_view().insert_ensures(j, x@);
    crate::text::lemma_chars_dv(x);
    assert(nv.deep_view() =~~= ov.deep_view().insert(j, x@));
}

proof fn lemma_sorted_insert(s: Seq<Seq<char>>, x: Seq<char>, j: int)
    requires
        sorted_by(s, lex_leq_fn()),
        0 <= j <= s.len(),
        forall|k: int| 0 <= k < j ==> lex_leq(#[trigger] s[k], x),
        j < s.len() ==> lex_leq(x, s[j]),
    ensures
        sorted_by(s.insert(j, x), lex_leq_fn()),
{
    let t = s.insert(j, x);
    s.insert_ensures(j, x);
    assert forall|a: int, b: int| 0 <= a < b < t.len() implies #[trigger] lex_leq_fn()(
        t[a],
        t[b],
    ) by {
        if b < j {
            assert(lex_leq_fn()(s[a], s[b]));
        } else if a < j && b == j {
            assert(lex_leq(s[a], x));
        } else if a < j && b > j {
            assert(lex_leq_fn()(s[a], s[b - 1]));
        } else if a == j && b > j {
            if j < b - 1 {
                assert(lex_leq_fn()(s[j], s[b - 1]));
                lemma_lex_transitive(x, s[j], s[b - 1]);
            }
        } else {
            assert(lex_leq_fn()(s[a - 1], s[b - 1]));
        }
    }
}

/// Sorts glyphs lexicographically by insertion.
#[verifier::loop_isolation(false)]
pub(crate) fn sort_glyphs(input: Vec<Vec<char>>) -> (r: Vec<Vec<char>>)
    ensures
        sorted_by(r.deep_view(), lex_leq_fn()),
        r.deep_view().to_multiset() == input.deep_view().to_multiset(),
{
    broadcast use vstd::seq_lib::group_to_multiset_ensures;

    let ghost goal = input.deep_view().to_multiset();
    let mut rest = input;
    let mut out: Vec<Vec<char>> = Vec::new();
    proof {
        assert(out.deep_view() =~~= Seq::<Seq<char>>::empty());
        assert(out.deep_view().to_multiset().add(rest.deep_view().to_multiset())
            =~= rest.deep_view().to_multiset());
    }
    while rest.len() > 0
        invariant
            sorted_by(out.deep_view(), lex_leq_fn()),
            out.deep_view().to_multiset().add(rest.deep_view().to_multiset()) == goal,
        decreases rest@.len(),
    {
        let ghost old_rest = rest;
        let x = match rest.pop() {
            Some(x) => x,
            None => {
                return out;
            },
        };
        proof {
            lemma_dv_drop_last(&old_rest, &rest);
            crate::text::lemma_chars_dv(&x);
            assert(old_rest.deep_view() =~= rest.deep_view().push(x@));
            assert(old_rest.deep_view().to_multiset() =~= rest.deep_view().to_multiset().insert(
                x@,
            ));
        }
        let mut j: usize = 0;
        while j < out.len() && chars_le(&out[j], &x)
            invariant
                j <= out@.len(),
                forall|k: int| 0 <= k < j ==> lex_leq(#[trigger] out.deep_view()[k], x@),
            decreases out@.len() - j,
        {
            proof {
                crate::text::lemma_chars_dv(&out@[j as int]);
            }
            j += 1;
        }
        proof {
            if j < out.len() {
                crate::text::lemma_chars_dv(&out@[j as int]);
                lemma_lex_total(x@, out.deep_view()[j as int]);
            }
            lemma_sorted_insert(out.deep_view(), x@, j as int);
        }
        let ghost old_out = out;
        let ghost xv = x@;
        out.insert(j, x);
        proof {
            lemma_dv_insert(&old_out, &out, j as int, &out@[j as int]);
            assert(out@[j as int]@ == xv);
            assert(out.deep_view() == old_out.deep_view().insert(j as int, xv));
            let pre = old_out.deep_view();
            assert(out.deep_view().to_multiset() =~= pre.to_multiset().insert(xv)) by {
                assert(out.deep_view() =~= pre.subrange(0, j as int).push(xv) + pre.subrange(
                    j as int,
                    pre.len() as int,
                ));
                lemma_multiset_split(pre, j as int, xv);
            }
            assert(out.deep_view().to_multiset().add(rest.deep_view().to_multiset()) =~= goal);
        }
    }
    proof {
        assert(rest.deep_view() =~~= Seq::<Seq<char>>::empty());
        assert(out.deep_view().to_multiset().add(rest.deep_view().to_multiset())
            =~= out.deep_view().to_multiset());
    }
    out
}

/// Pushing a status icon pushes its glyph onto the deep view.
pub proof fn lemma_icons_dv_push(ov: &Vec<StatusIcon>, nv: &Vec<StatusIcon>, x: StatusIcon)
    requires
        nv@ == ov@.push(x),
    ensures
        nv.deep_view() == ov.deep_view().push(x@),
{
    assert(nv.deep_view() =~~= ov.deep_view().push(x@));
}

/// Renders one merged group.
pub fn render_icon(icon: &str, n: u64) -> (r: String)
    ensures
        r@ == render_icon_spec(icon@, n as nat),
{
    let mut out = str_chars(icon);
    if n != 1 {
        let digits = u64_dec(n);
        let sup = superscript_chars(&digits);
        extend_chars(&mut out, &sup);
    }
    chars_string(&out)
}

/// Groups consecutive equal glyphs and renders each group.
#[verifier::loop_isolation(false)]
fn merge_runs(v: &Vec<Vec<char>>) -> (r: Vec<char>)
    ensures
        r@ == merge_sorted(v.deep_view()),
{
    let ghost dv = v.deep_view();
    let mut out: Vec<char> = Vec::new();
    let mut i: usize = 0;
    proof {
        assert(dv.skip(0) =~= dv);
    }
    while i < v.len()
        invariant
            i <= v@.len(),
            merge_sorted(dv) == out@ + merge_sorted(dv.skip(i as int)),
        decreases v@.len() - i,
    {
        let ghost rest = dv.skip(i as int);
        let mut j: usize = i + 1;
        while j < v.len() && chars_eq(&v[j], &v[i])
            invariant
                i < j <= v@.len(),
                forall|m: int| i <= m < j ==> #[trigger] dv[m] == dv[i as int],
            decreases v@.len() - j,
        {
            proof {
                crate::text::lemma_chars_dv(&v@[j as int]);
                crate::text::lemma_chars_dv(&v@[i as int]);
            }
            j += 1;
        }
        proof {
            crate::text::lemma_chars_dv(&v@[i as int]);
            if j < v.len() {
                crate::text::lemma_chars_dv(&v@[j as int]);
            }
            assert forall|m: int| 0 <= m < j - i implies #[trigger] rest[m] == rest[0] by {
                assert(rest[m] == dv[i + m]);
                assert(rest[0] == dv[i as int]);
            }
            if (j as int) - (i as int) < rest.len() {
                assert(rest[j - i] == dv[j as int]);
            }
            lemma_run_len_value(rest, j as int - i as int);
            assert(rest.skip(j - i) =~= dv.skip(j as int));
            assert(rest[0] == dv[i as int]);
        }
        let run: u64 = (j - i) as u64;
        let glyph = chars_string(&v[i]);
        let piece = render_icon(glyph.as_str(), run);
        let piecev = str_chars(piece.as_str());
        extend_chars(&mut out, &piecev);
        proof {
            assert(merge_sorted(rest) == render_icon_spec(rest[0], run_len(rest)) + merge_sorted(
                rest.skip(run_len(rest) as int),
            ));
            assert(out@ + merge_sorted(dv.skip(j as int)) =~= merge_sorted(dv));
        }
        i = j;
    }
    proof {
        assert(dv.skip(dv.len() as int) =~= Seq::<Seq<char>>::empty());
    }
    out
}

/// Merges a collection of status glyphs into one deterministic string:
/// empty glyphs are dropped, the rest are sorted, and consecutive equal
/// glyphs collapse to the glyph followed by a superscript count when the
/// group has more than one member. Sorting first makes the result
/// independent of the input order.
#[verifier::loop_isolation(false)]
pub fn merge_icons(icons: Vec<StatusIcon>) -> (r: String)
    ensures
        r@ == merge_spec(icons.deep_view()),
{
    let ghost dv = icons.deep_view();
    let ghost pred = |g: Seq<char>| g.len() != 0;
    let mut kept: Vec<Vec<char>> = Vec::new();
    let mut i: usize = 0;
    proof {
        reveal(Seq::filter);
        assert(dv.take(0) =~= Seq::<Seq<char>>::empty());
        assert(kept.deep_view() =~~= dv.take(0).filter(pred));
    }
    while i < icons.len()
        invariant
            i <= icons@.len(),
            kept.deep_view() == dv.take(i as int).filter(pred),
        decreases icons@.len() - i,
    {
        proof {
            reveal(Seq::filter);
            assert(dv.take(i + 1).drop_last() =~= dv.take(i as int));
            assert(dv.take(i + 1).last() == dv[i as int]);
        }
        let g = str_chars(icons[i].value);
        assert(g@ == dv[i as int]);
        if g.len() > 0 {
            let ghost old_kept = kept;
            let ghost gv = g@;
            kept.push(g);
            proof {
                crate::text::lemma_dv_push(&old_kept, &kept, &kept@[kept@.len() - 1]);
            }
        }
        i += 1;
    }
    proof {
        assert(dv.take(dv.len() as int) =~= dv);
    }
    let sorted = sort_glyphs(kept);
    proof {
        lemma_lex_total_ordering();
        nonempty_glyphs(dv).lemma_sort_by_ensures(lex_leq_fn());
        vstd::seq_lib::lemma_sorted_unique(
            sorted.deep_view(),
            nonempty_glyphs(dv).sort_by(lex_leq_fn()),
            lex_leq_fn(),
        );
    }
    let merged = merge_runs(&sorted);
    chars_string(&merged)
}

/// The merge result depends only on the multiset of its input: any
/// permutation of the glyphs merges to the same string.
pub proof fn lemma_merge_permutation(a: Seq<Seq<char>>, b: Seq<Seq<char>>)
    requires
        a.to_multiset() == b.to_multiset(),
    ensures
        merge_spec(a) == merge_spec(b),
{
    let pred = |g: Seq<char>| g.len() != 0;
    lemma_filter_to_multiset(a, pred);
    lemma_filter_to_multiset(b, pred);
    lemma_lex_total_ordering();
    nonempty_glyphs(a).lemma_sort_by_ensures(lex_leq_fn());
    nonempty_glyphs(b).lemma_sort_by_ensures(lex_leq_fn());
    vstd::seq_lib::lemma_sorted_unique(
        nonempty_glyphs(a).sort_by(lex_leq_fn()),
        nonempty_glyphs(b).sort_by(lex_leq_fn()),
        lex_leq_fn(),
    );
}

/// Filtering commutes with taking the multiset of a sequence.
proof fn lemma_filter_to_multiset(s: Seq<Seq<char>>, pred: spec_fn(Seq<char>) -> bool)
    ensures
        s.filter(pred).to_multiset() == s.to_multiset().filter(pred),
    decreases s.len(),
{
    broadcast use vstd::seq_lib::group_to_multiset_ensures;
    broadcast use vstd::multiset::group_multiset_axioms;

    reveal(Seq::filter);
    if s.len() == 0 {
        assert(s.filter(pred) =~= s);
        assert(s.to_multiset() =~= Multiset::<Seq<char>>::empty()) by {
            s.to_multiset_ensures();
        }
        assert(s.filter(pred).to_multiset().filter(pred) =~= s.to_multiset().filter(pred));
        assert(s.to_multiset() =~= s.to_multiset().filter(pred));
    } else {
        let t = s.drop_last();
        let l = s.last();
        lemma_filter_to_multiset(t, pred);
        assert(s =~= t.push(l));
        assert(s.to_multiset() =~= t.to_multiset().insert(l));
        if pred(l) {
            assert(s.filter(pred) == t.filter(pred).push(l));
            assert(s.filter(pred).to_multiset() =~= t.filter(pred).to_multiset().insert(l));
            assert(t.to_multiset().insert(l).filter(pred) =~= t.to_multiset().filter(pred).insert(
                l,
            ));
        } else {
            assert(s.filter(pred) == t.filter(pred));
            assert(t.to_multiset().insert(l).filter(pred) =~= t.to_multiset().filter(pred));
        }
    }
}

/// Inserting an element anywhere in a sequence inserts it into the
/// multiset of the sequence.
proof fn lemma_multiset_split(s: Seq<Seq<char>>, j: int, x: Seq<char>)
    requires
        0 <= j <= s.len(),
    ensures
        (s.subrange(0, j).push(x) + s.subrange(j, s.len() as int)).to_multiset()
            == s.to_multiset().insert(x),
    decreases s.len() - j,
{
    broadcast use vstd::seq_lib::group_to_multiset_ensures;

    if j == s.len() {
        assert(s.subrange(0, j) =~= s);
        assert(s.subrange(j, s.len() as int) =~= Seq::<Seq<char>>::empty());
        assert(s.subrange(0, j).push(x) + s.subrange(j, s.len() as int) =~= s.push(x));
    } else {
        let t = s.drop_last();
        let l = s.last();
        assert(s =~= t.push(l));
        lemma_multiset_split(t, j, x);
        assert(t.subrange(0, j) =~= s.subrange(0, j));
        assert(s.subrange(j, s.len() as int) =~= t.subrange(j, t.len() as int).push(l));
        assert(s.subrange(0, j).push(x) + s.subrange(j, s.len() as int) =~= (t.subrange(0, j).push(
            x,
        ) + t.subrange(j, t.len() as int)).push(l));
        assert((t.subrange(0, j).push(x) + t.subrange(j, t.len() as int)).push(l).to_multiset()
            =~= (t.subrange(0, j).push(x) + t.subrange(j, t.len() as int)).to_multiset().insert(l));
        assert(t.push(l).to_multiset() =~= t.to_multiset().insert(l));
        assert(t.to_multiset().insert(x).insert(l) =~= t.to_multiset().insert(l).insert(x));
    }
}

/// The five supported backends, in detection priority order.
#[derive(Clone, Copy, Debug, PartialEq, Eq, Structural)]
pub enum Vcs {
    Jj(jj::Jj),
    Git(git::Git),
    Hg(hg::Hg),
    Pijul(pijul::Pijul),
    Darcs(darcs::Darcs),
}

/// Which backend marker entries one directory contains.
#[derive(Clone, Copy, Debug, PartialEq, Eq, Structural)]
pub struct MarkerSet {
    pub jj: bool,
    pub git: bool,
    pub hg: bool,
    pub pijul: bool,
    pub darcs: bool,
}

/// The backend whose marker wins in one directory: `.jj` before `.git`
/// before `.hg` before `.pijul` before `_darcs`.
pub open spec fn detect_in_dir_spec(m: MarkerSet) -> Option<Vcs> {
    if m.jj {
        Some(Vcs::Jj(jj::Jj))
    } else if m.git {
        Some(Vcs::Git(git::Git))
    } else if m.hg {
        Some(Vcs::Hg(hg::Hg))
    } else if m.pijul {
        Some(Vcs::Pijul(pijul::Pijul))
    } else if m.darcs {
        Some(Vcs::Darcs(darcs::Darcs))
    } else {
        None
    }
}

pub fn detect_in_dir(m: &MarkerSet) -> (r: Option<Vcs>)
    ensures
        r == detect_in_dir_spec(*m),
{
    if m.jj {
        Some(Vcs::Jj(jj::Jj))
    } else if m.git {
        Some(Vcs::Git(git::Git))
    } else if m.hg {
        Some(Vcs::Hg(hg::Hg))
    } else if m.pijul {
        Some(Vcs::Pijul(pijul::Pijul))
    } else if m.darcs {
        Some(Vcs::Darcs(darcs::Darcs))
    } else {
        None
    }
}

/// First directory level, from `i` on, whose markers name a backend.
pub open spec fn first_hit(walk: Seq<MarkerSet>, i: int) -> Option<(Vcs, int)>
    decreases walk.len() - i,
{
    if i < 0 || i >= walk.len() {
        None
    } else {
        match detect_in_dir_spec(walk[i]) {
            Some(v) => Some((v, i)),
            None => first_hit(walk, i + 1),
        }
    }
}

/// The detected backend over an upward directory walk: `walk[0]` is the
/// starting directory, each following entry one ancestor further up; the
/// first level with any marker wins, and its index is returned with the
/// backend.
pub open spec fn infer_vcs_spec(walk: Seq<MarkerSet>) -> Option<(Vcs, int)> {
    first_hit(walk, 0)
}

/// Walks the marker sets of the starting directory and its ancestors and
/// returns the first backend found, with the level at which it was found.
#[verifier::loop_isolation(false)]
pub fn infer_vcs(walk: &Vec<MarkerSet>) -> (r: Option<(Vcs, usize)>)
    ensures
        match r {
            None => infer_vcs_spec(walk@) is None,
            Some((v, i)) => infer_vcs_spec(walk@) == Some((v, i as int)),
        },
{
    let mut i: usize = 0;
    while i < walk.len()
        invariant
            i <= walk@.len(),
            first_hit(walk@, 0) == first_hit(walk@, i as int),
        decreases walk@.len() - i,
    {
        let m = walk[i];
        match detect_in_dir(&m) {
            Some(v) => {
                return Some((v, i));
            },
            None => {},
        }
        i += 1;
    }
    None
}

/// The shared detection result: the backend and the directory (as a
/// path string) at which its marker was found.
pub enum MemoSlot {
    NotStarted,
    InFlight,
    Done(Option<(Vcs, String)>),
}

/// Mathematical image of a [`MemoSlot`].
pub enum MemoSlotView {
    NotStarted,
    InFlight,
    Done(Option<(Vcs, Seq<char>)>),
}

pub open spec fn detection_view(d: Option<(Vcs, String)>) -> Option<(Vcs, Seq<char>)> {
    match d {
        Some((v, root)) => Some((v, root@)),
        None => None,
    }
}

impl View for MemoSlot {
    type V = MemoSlotView;

    open spec fn view(&self) -> MemoSlotView {
        match self {
            MemoSlot::NotStarted => MemoSlotView::NotStarted,
            MemoSlot::InFlight => MemoSlotView::InFlight,
            MemoSlot::Done(d) => MemoSlotView::Done(detection_view(*d)),
        }
    }
}

/// What one poll of the memo tells its caller.
pub enum MemoPoll {
    /// The caller must run the detection walk and fulfill the memo.
    Compute,
    /// Another caller is already running the walk.
    Wait,
    /// The walk already ran; here is its result.
    Ready(Option<(Vcs, String)>),
}

/// The memo state after one poll.
pub open spec fn memo_poll_next(s: MemoSlotView) -> MemoSlotView {
    match s {
        MemoSlotView::NotStarted => MemoSlotView::InFlight,
        other => other,
    }
}

/// Whether one poll asks its caller to run the walk.
pub open spec fn memo_poll_computes(s: MemoSlotView) -> bool {
    s is NotStarted
}

/// The write-once memo cell for backend detection. Detection runs at
/// most once per cell: only the first poll asks its caller to compute.
pub struct DetectMemo {
    slot: MemoSlot,
}

impl View for DetectMemo {
    type V = MemoSlotView;

    closed spec fn view(&self) -> MemoSlotView {
        self.slot@
    }
}

impl DetectMemo {
    pub fn new() -> (r: DetectMemo)
        ensures
            r@ is NotStarted,
    {
        DetectMemo { slot: MemoSlot::NotStarted }
    }

    /// Claims the computation if nobody has, else reports its state.
    pub fn poll(&mut self) -> (r: MemoPoll)
        ensures
            final(self)@ == memo_poll_next(old(self)@),
            r is Compute <==> memo_poll_computes(old(self)@),
            r is Wait <==> old(self)@ is InFlight,
            old(self)@ matches MemoSlotView::Done(d) ==> r matches MemoPoll::Ready(v)
                && detection_view(v) == d,
    {
        match &self.slot {
            MemoSlot::NotStarted => {
                self.slot = MemoSlot::InFlight;
                MemoPoll::Compute
            },
            MemoSlot::InFlight => MemoPoll::Wait,
            MemoSlot::Done(d) => {
                let copy = match d {
                    Some((v, root)) => Some((*v, root.clone())),
                    None => None,
                };
                MemoPoll::Ready(copy)
            },
        }
    }

    /// Records the detection result; only the caller that was told to
    /// compute may fulfill, exactly once.
    pub fn fulfill(&mut self, d: Option<(Vcs, String)>)
        requires
            old(self)@ is InFlight,
        ensures
            final(self)@ == MemoSlotView::Done(detection_view(d)),
    {
        self.slot = MemoSlot::Done(d);
    }
}

/// Detection memoization: once a poll has claimed or finished the walk,
/// no later poll of the same cell asks a caller to run it again —
/// however many dependent providers poll, the walk runs at most once.
pub proof fn lemma_detect_once(s: MemoSlotView, n: nat)
    requires
        !(s is NotStarted),
    ensures
        !memo_poll_computes(memo_polls(s, n)),
        memo_polls(s, n) == s,
    decreases n,
{
    if n > 0 {
        lemma_detect_once(memo_poll_next(s), (n - 1) as nat);
    }
}

/// The memo state after `n` successive polls.
pub open spec fn memo_polls(s: MemoSlotView, n: nat) -> MemoSlotView
    decreases n,
{
    if n == 0 {
        s
    } else {
        memo_polls(memo_poll_next(s), (n - 1) as nat)
    }
}

/// Across any number of polls of one cell, at most one poll is told to
/// compute, and after the first poll none ever is.
pub proof fn lemma_single_walk(s: MemoSlotView, n: nat)
    ensures
        memo_walk_count(s, n) <= 1,
        n > 0 && memo_poll_computes(s) ==> memo_walk_count(s, n) == 1,
        !memo_poll_computes(s) ==> memo_walk_count(s, n) == 0,
    decreases n,
{
    if n > 0 {
        lemma_single_walk(memo_poll_next(s), (n - 1) as nat);
    }
}

/// How many of `n` successive polls are told to compute.
pub open spec fn memo_walk_count(s: MemoSlotView, n: nat) -> nat
    decreases n,
{
    if n == 0 {
        0
    } else {
        (if memo_poll_computes(s) {
            1nat
        } else {
            0nat
        }) + memo_walk_count(memo_poll_next(s), (n - 1) as nat)
    }
}


/// The six semantic operations every backend answers.
#[derive(Clone, Copy, Debug, PartialEq, Eq, Structural)]
pub enum VcsOp {
    Branch,
    Commit,
    Status,
    Worktree,
    Stash,
    Divergence,
}

/// What the active backend observed, for dispatch.
pub enum VcsObs {
    Git(git::GitObs),
    Hg(hg::HgObs),
    Jj(jj::JjObs),
    Pijul(pijul::PijulObs),
    Darcs(darcs::DarcsObs),
}

/// Routes the branch operation to the observed backend.
pub fn vcs_branch(obs: &VcsObs) -> (r: Option<crate::chunk::Chunk>)
    ensures
        obs matches VcsObs::Git(o) ==> crate::chunk::opt_chunk_view(r) == git::git_branch_op_spec(
            opt_str_view(o.head_ref),
            opt_str_view(o.origin_ref),
            opt_str_view(o.branch_show),
        ),
        obs matches VcsObs::Hg(o) ==> crate::chunk::opt_chunk_view(r) == hg::hg_branch_spec(
            opt_str_view(o.branch_file),
        ),
        obs matches VcsObs::Jj(o) ==> crate::chunk::opt_chunk_view(r) == jj::jj_branch_spec(
            opt_str_view(o.log_out),
        ),
        obs matches VcsObs::Pijul(o) ==> crate::chunk::opt_chunk_view(r) == pijul::pijul_branch_spec(
            opt_str_view(o.channel_out),
        ),
        obs is Darcs ==> r is None,
{
    match obs {
        VcsObs::Git(o) => (git::Git).branch(o),
        VcsObs::Hg(o) => (hg::Hg).branch(o),
        VcsObs::Jj(o) => (jj::Jj).branch(o),
        VcsObs::Pijul(o) => (pijul::Pijul).branch(o),
        VcsObs::Darcs(o) => (darcs::Darcs).branch(o),
    }
}

/// Routes the commit operation to the observed backend.
pub fn vcs_commit(obs: &VcsObs) -> (r: Option<crate::chunk::Chunk>)
    ensures
        obs matches VcsObs::Git(o) ==> crate::chunk::opt_chunk_view(r) == git::git_commit_op_spec(
            opt_str_view(o.branch_show),
            opt_str_view(o.name_rev),
            opt_str_view(o.describe_long),
        ),
        obs matches VcsObs::Hg(o) ==> crate::chunk::opt_chunk_view(r) == hg::hg_commit_spec(
            hg::opt_bytes_view(o.dirstate),
            opt_str_view(o.bookmark_file),
        ),
        obs matches VcsObs::Jj(o) ==> crate::chunk::opt_chunk_view(r) == jj::jj_commit_spec(
            opt_str_view(o.status_out),
        ),
        obs matches VcsObs::Pijul(o) ==> crate::chunk::opt_chunk_view(r) == pijul::pijul_commit_spec(
            opt_str_view(o.log_out),
        ),
        obs matches VcsObs::Darcs(o) ==> crate::chunk::opt_chunk_view(r) == darcs::darcs_commit_spec(
            opt_str_view(o.log_out),
        ),
{
    match obs {
        VcsObs::Git(o) => (git::Git).commit(o),
        VcsObs::Hg(o) => (hg::Hg).commit(o),
        VcsObs::Jj(o) => (jj::Jj).commit(o),
        VcsObs::Pijul(o) => (pijul::Pijul).commit(o),
        VcsObs::Darcs(o) => (darcs::Darcs).commit(o),
    }
}

/// Routes the status operation to the observed backend.
pub fn vcs_status(obs: &VcsObs) -> (r: Option<crate::chunk::Chunk>)
    ensures
        obs matches VcsObs::Git(o) ==> crate::chunk::opt_chunk_view(r) == git::git_status_op_spec(
            opt_str_view(o.status_out),
        ),
        obs matches VcsObs::Hg(o) ==> crate::chunk::opt_chunk_view(r) == hg::hg_status_spec(
            opt_str_view(o.status_out),
        ),
        obs matches VcsObs::Jj(o) ==> crate::chunk::opt_chunk_view(r) == jj::jj_status_spec(
            opt_str_view(o.status_out),
        ),
        obs matches VcsObs::Pijul(o) ==> crate::chunk::opt_chunk_view(r) == pijul::pijul_status_spec(
            opt_str_view(o.diff_out),
        ),
        obs matches VcsObs::Darcs(o) ==> crate::chunk::opt_chunk_view(r) == darcs::darcs_status_spec(
            opt_str_view(o.whatsnew_out),
        ),
{
    match obs {
        VcsObs::Git(o) => (git::Git).status(o),
        VcsObs::Hg(o) => (hg::Hg).status(o),
        VcsObs::Jj(o) => (jj::Jj).status(o),
        VcsObs::Pijul(o) => (pijul::Pijul).status(o),
        VcsObs::Darcs(o) => (darcs::Darcs).status(o),
    }
}

/// Routes the worktree operation to the observed backend.
pub fn vcs_worktree(obs: &VcsObs) -> (r: Option<crate::chunk::Chunk>)
    ensures
        obs matches VcsObs::Git(o) ==> crate::chunk::opt_chunk_view(r) == git::git_worktree_op_spec(
            o.cwd@,
            opt_str_view(o.worktree_list),
        ),
        obs matches VcsObs::Hg(o) ==> crate::chunk::opt_chunk_view(r) == hg::hg_worktree_spec(
            opt_str_view(o.sharedpath_file),
        ),
        obs matches VcsObs::Jj(o) ==> crate::chunk::opt_chunk_view(r) == jj::jj_worktree_spec(
            opt_str_view(o.log_out),
        ),
        obs is Pijul ==> r is None,
        obs is Darcs ==> r is None,
{
    match obs {
        VcsObs::Git(o) => (git::Git).worktree(o),
        VcsObs::Hg(o) => (hg::Hg).worktree(o),
        VcsObs::Jj(o) => (jj::Jj).worktree(o),
        VcsObs::Pijul(o) => (pijul::Pijul).worktree(o),
        VcsObs::Darcs(o) => (darcs::Darcs).worktree(o),
    }
}

/// Routes the stash operation to the observed backend. Only git counts
/// shelved change sets; for every other backend the answer is a
/// documented capability gap, not an error.
pub fn vcs_stash(obs: &VcsObs) -> (r: Option<crate::chunk::Chunk>)
    ensures
        obs matches VcsObs::Git(o) ==> crate::chunk::opt_chunk_view(r) == git::git_stash_op_spec(
            opt_str_view(o.stash_list),
        ),
        obs is Hg ==> r is None,
        obs is Jj ==> r is None,
        obs is Pijul ==> r is None,
        obs is Darcs ==> r is None,
{
    match obs {
        VcsObs::Git(o) => (git::Git).stash(o),
        VcsObs::Hg(o) => (hg::Hg).stash(o),
        VcsObs::Jj(o) => (jj::Jj).stash(o),
        VcsObs::Pijul(o) => (pijul::Pijul).stash(o),
        VcsObs::Darcs(o) => (darcs::Darcs).stash(o),
    }
}

/// Routes the divergence operation to the observed backend. Only git
/// compares against an upstream.
pub fn vcs_divergence(obs: &VcsObs) -> (r: Option<crate::chunk::Chunk>)
    ensures
        obs matches VcsObs::Git(o) ==> crate::chunk::opt_chunk_view(r)
            == git::git_divergence_op_spec(opt_str_view(o.ahead), opt_str_view(o.behind)),
        obs is Hg ==> r is None,
        obs is Jj ==> r is None,
        obs is Pijul ==> r is None,
        obs is Darcs ==> r is None,
{
    match obs {
        VcsObs::Git(o) => (git::Git).divergence(o),
        VcsObs::Hg(o) => (hg::Hg).divergence(o),
        VcsObs::Jj(o) => (jj::Jj).divergence(o),
        VcsObs::Pijul(o) => (pijul::Pijul).divergence(o),
        VcsObs::Darcs(o) => (darcs::Darcs).divergence(o),
    }
}

/// The command lines one git operation runs.
pub open spec fn git_op_commands(op: VcsOp) -> Seq<(Seq<char>, Seq<Seq<char>>)> {
    match op {
        VcsOp::Branch => seq![
            ("git"@, seq!["rev-parse"@, "--abbrev-ref"@, "HEAD"@]),
            ("git"@, seq!["rev-parse"@, "--abbrev-ref"@, "origin/HEAD"@]),
            ("git"@, seq!["branch"@, "--show"@]),
        ],
        VcsOp::Commit => seq![
            ("git"@, seq!["branch"@, "--show"@]),
            ("git"@, seq!["name-rev"@, "--name-only"@, "HEAD"@]),
            ("git"@, seq!["describe"@, "--abbrev=7"@, "--always"@, "--tag"@, "--long"@]),
        ],
        VcsOp::Status => seq![("git"@, seq!["status"@, "--porcelain"@])],
        VcsOp::Worktree => seq![("git"@, seq!["worktree"@, "list"@])],
        VcsOp::Stash => seq![("git"@, seq!["stash"@, "list"@])],
        VcsOp::Divergence => seq![
            ("git"@, seq!["rev-list"@, "--count"@, "HEAD@{upstream}..HEAD"@]),
            ("git"@, seq!["rev-list"@, "--count"@, "HEAD..HEAD@{upstream}"@]),
        ],
    }
}

/// The command lines one Mercurial operation runs; everything but the
/// status listing comes from files under `.hg/`.
pub open spec fn hg_op_commands(op: VcsOp) -> Seq<(Seq<char>, Seq<Seq<char>>)> {
    match op {
        VcsOp::Status => seq![("hg"@, seq!["status"@])],
        _ => Seq::empty(),
    }
}

/// The command lines one Jujutsu operation runs.
pub open spec fn jj_op_commands(op: VcsOp) -> Seq<(Seq<char>, Seq<Seq<char>>)> {
    match op {
        VcsOp::Branch => seq![("jj"@, seq!["log"@, "--color"@, "never"@, "--no-pager"@])],
        VcsOp::Worktree => seq![("jj"@, seq!["log"@, "--color"@, "never"@, "--no-pager"@])],
        VcsOp::Commit => seq![("jj"@, seq!["status"@, "--color"@, "never"@, "--no-pager"@])],
        VcsOp::Status => seq![("jj"@, seq!["status"@, "--color"@, "never"@, "--no-pager"@])],
        _ => Seq::empty(),
    }
}

/// The command lines one Pijul operation runs.
pub open spec fn pijul_op_commands(op: VcsOp) -> Seq<(Seq<char>, Seq<Seq<char>>)> {
    match op {
        VcsOp::Branch => seq![("pijul"@, seq!["channel"@])],
        VcsOp::Commit => seq![("pijul"@, seq!["log"@, "--limit"@, "1"@])],
        VcsOp::Status => seq![("pijul"@, seq!["diff"@, "--short"@])],
        _ => Seq::empty(),
    }
}

/// The command lines one Darcs operation runs.
pub open spec fn darcs_op_commands(op: VcsOp) -> Seq<(Seq<char>, Seq<Seq<char>>)> {
    match op {
        VcsOp::Commit => seq![("darcs"@, seq!["log"@, "--last"@, "1"@, "--summary"@])],
        VcsOp::Status => seq![("darcs"@, seq!["whatsnew"@, "-s"@])],
        _ => Seq::empty(),
    }
}

/// The commands a VCS operation invokes: none at all without a
/// detected backend, and only the active backend's otherwise.
pub open spec fn vcs_commands_spec(det: Option<Vcs>, op: VcsOp) -> Seq<
    (Seq<char>, Seq<Seq<char>>),
> {
    match det {
        None => Seq::empty(),
        Some(v) => match v {
            Vcs::Git(_) => git_op_commands(op),
            Vcs::Hg(_) => hg_op_commands(op),
            Vcs::Jj(_) => jj_op_commands(op),
            Vcs::Pijul(_) => pijul_op_commands(op),
            Vcs::Darcs(_) => darcs_op_commands(op),
        },
    }
}

fn key1(p: &str, a1: &str) -> (k: crate::cmd::CmdKey)
    ensures
        k@ == (p@, seq![a1@]),
{
    let mut args: Vec<String> = Vec::new();
    args.push(a1.to_owned());
    let k = crate::cmd::CmdKey { program: p.to_owned(), args };
    proof {
        assert(k.args.deep_view() =~= seq![a1@]);
    }
    k
}

fn key2(p: &str, a1: &str, a2: &str) -> (k: crate::cmd::CmdKey)
    ensures
        k@ == (p@, seq![a1@, a2@]),
{
    let mut args: Vec<String> = Vec::new();
    args.push(a1.to_owned());
    args.push(a2.to_owned());
    let k = crate::cmd::CmdKey { program: p.to_owned(), args };
    proof {
        assert(k.args.deep_view() =~= seq![a1@, a2@]);
    }
    k
}

fn key3(p: &str, a1: &str, a2: &str, a3: &str) -> (k: crate::cmd::CmdKey)
    ensures
        k@ == (p@, seq![a1@, a2@, a3@]),
{
    let mut args: Vec<String> = Vec::new();
    args.push(a1.to_owned());
    args.push(a2.to_owned());
    args.push(a3.to_owned());
    let k = crate::cmd::CmdKey { program: p.to_owned(), args };
    proof {
        assert(k.args.deep_view() =~= seq![a1@, a2@, a3@]);
    }
    k
}

fn key4(p: &str, a1: &str, a2: &str, a3: &str, a4: &str) -> (k: crate::cmd::CmdKey)
    ensures
        k@ == (p@, seq![a1@, a2@, a3@, a4@]),
{
    let mut args: Vec<String> = Vec::new();
    args.push(a1.to_owned());
    args.push(a2.to_owned());
    args.push(a3.to_owned());
    args.push(a4.to_owned());
    let k = crate::cmd::CmdKey { program: p.to_owned(), args };
    proof {
        assert(k.args.deep_view() =~= seq![a1@, a2@, a3@, a4@]);
    }
    k
}

fn key5(p: &str, a1: &str, a2: &str, a3: &str, a4: &str, a5: &str) -> (k: crate::cmd::CmdKey)
    ensures
        k@ == (p@, seq![a1@, a2@, a3@, a4@, a5@]),
{
    let mut args: Vec<String> = Vec::new();
    args.push(a1.to_owned());
    args.push(a2.to_owned());
    args.push(a3.to_owned());
    args.push(a4.to_owned());
    args.push(a5.to_owned());
    let k = crate::cmd::CmdKey { program: p.to_owned(), args };
    proof {
        assert(k.args.deep_view() =~= seq![a1@, a2@, a3@, a4@, a5@]);
    }
    k
}

/// Lists the command invocations the operation makes for the detected
/// backend. With no backend detected the list is empty: no VCS binary
/// is invoked at all.
pub fn vcs_commands(det: &Option<Vcs>, op: &VcsOp) -> (r: Vec<crate::cmd::CmdKey>)
    ensures
        r@.map_values(|k: crate::cmd::CmdKey| k@) == vcs_commands_spec(*det, *op),
        det is None ==> r@.len() == 0,
{
    let mut r: Vec<crate::cmd::CmdKey> = Vec::new();
    let v = match det {
        None => {
            assert(r@.map_values(|k: crate::cmd::CmdKey| k@) =~= vcs_commands_spec(*det, *op));
            return r;
        },
        Some(v) => v,
    };
    match v {
        Vcs::Git(_) => {
            match op {
                VcsOp::Branch => {
                    r.push(key3("git", "rev-parse", "--abbrev-ref", "HEAD"));
                    r.push(key3("git", "rev-parse", "--abbrev-ref", "origin/HEAD"));
                    r.push(key2("git", "branch", "--show"));
                },
                VcsOp::Commit => {
                    r.push(key2("git", "branch", "--show"));
                    r.push(key3("git", "name-rev", "--name-only", "HEAD"));
                    r.push(key5("git", "describe", "--abbrev=7", "--always", "--tag", "--long"));
                },
                VcsOp::Status => {
                    r.push(key2("git", "status", "--porcelain"));
                },
                VcsOp::Worktree => {
                    r.push(key2("git", "worktree", "list"));
                },
                VcsOp::Stash => {
                    r.push(key2("git", "stash", "list"));
                },
                VcsOp::Divergence => {
                    r.push(key3("git", "rev-list", "--count", "HEAD@{upstream}..HEAD"));
                    r.push(key3("git", "rev-list", "--count", "HEAD..HEAD@{upstream}"));
                },
            }
        },
        Vcs::Hg(_) => {
            match op {
                VcsOp::Status => {
                    r.push(key1("hg", "status"));
                },
                _ => {},
            }
        },
        Vcs::Jj(_) => {
            match op {
                VcsOp::Branch => {
                    r.push(key4("jj", "log", "--color", "never", "--no-pager"));
                },
                VcsOp::Worktree => {
                    r.push(key4("jj", "log", "--color", "never", "--no-pager"));
                },
                VcsOp::Commit => {
                    r.push(key4("jj", "status", "--color", "never", "--no-pager"));
                },
                VcsOp::Status => {
                    r.push(key4("jj", "status", "--color", "never", "--no-pager"));
                },
                _ => {},
            }
        },
        Vcs::Pijul(_) => {
            match op {
                VcsOp::Branch => {
                    r.push(key1("pijul", "channel"));
                },
                VcsOp::Commit => {
                    r.push(key3("pijul", "log", "--limit", "1"));
                },
                VcsOp::Status => {
                    r.push(key2("pijul", "diff", "--short"));
                },
                _ => {},
            }
        },
        Vcs::Darcs(_) => {
            match op {
                VcsOp::Commit => {
                    r.push(key4("darcs", "log", "--last", "1", "--summary"));
                },
                VcsOp::Status => {
                    r.push(key2("darcs", "whatsnew", "-s"));
                },
                _ => {},
            }
        },
    }
    assert(r@.map_values(|k: crate::cmd::CmdKey| k@) =~= vcs_commands_spec(*det, *op));
    r
}

} // verus!
