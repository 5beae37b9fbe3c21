//! Pure git logic: every function here computes one segment's content
//! from the captured output of a git command (`None` when the command
//! failed), and is shared by the git backend.

use vstd::prelude::*;

use crate::cmd::opt_str_view;
use crate::text::{
    chars_contains, chars_string, contains_seq, lines_spec, replace_chars, replace_spec, rfind_char,
    rfind_in, str_chars, subrange_vec, trim_chars, trim_spec,
};

verus! {

/// Turns a captured output into its characters when it is present and
/// non-empty.
fn nonempty_chars(out: &Option<String>) -> (r: Option<Vec<char>>)
    ensures
        match r {
            None => opt_str_view(*out) is None || opt_str_view(*out)->0.len() == 0,
            Some(v) => opt_str_view(*out) == Some(v@) && v@.len() > 0,
        },
{
    match out {
        None => None,
        Some(s) => {
            let v = str_chars(s.as_str());
            if v.len() == 0 {
                None
            } else {
                Some(v)
            }
        },
    }
}

/// `git branch --show`: the current branch name, trimmed; `None` when
/// the command failed or printed nothing.
pub open spec fn branch_show_spec(out: Option<Seq<char>>) -> Option<Seq<char>> {
    match out {
        None => None,
        Some(s) => if s.len() == 0 {
            None
        } else {
            Some(trim_spec(s))
        },
    }
}

pub fn git_branch_show(out: &Option<String>) -> (r: Option<String>)
    ensures
        opt_str_view(r) == branch_show_spec(opt_str_view(*out)),
{
    match nonempty_chars(out) {
        None => None,
        Some(v) => {
            let t = trim_chars(&v);
            Some(chars_string(&t))
        },
    }
}

/// `git describe --exact-match`: the exact tag, trimmed, with `~`
/// rewritten to `↓`.
pub open spec fn describe_exact_spec(out: Option<Seq<char>>) -> Option<Seq<char>> {
    match out {
        None => None,
        Some(s) => if s.len() == 0 {
            None
        } else {
            Some(replace_spec(trim_spec(s), "~"@, "↓"@))
        },
    }
}

pub fn git_describe_exact_match(out: &Option<String>) -> (r: Option<String>)
    ensures
        opt_str_view(r) == describe_exact_spec(opt_str_view(*out)),
{
    match nonempty_chars(out) {
        None => None,
        Some(v) => {
            let t = trim_chars(&v);
            let from = str_chars("~");
            let to = str_chars("↓");
            proof {
                reveal_strlit("~");
            }
            let rep = replace_chars(&t, &from, &to);
            Some(chars_string(&rep))
        },
    }
}

/// The part of `s` after its last `/`, or all of `s`.
pub open spec fn after_last_slash(s: Seq<char>) -> Seq<char> {
    match rfind_char(s, '/') {
        None => s,
        Some(i) => s.skip(i + 1),
    }
}

/// `git rev-parse --abbrev-ref`: the trimmed ref name, reduced to its
/// last path component.
pub open spec fn rev_parse_spec(out: Option<Seq<char>>) -> Option<Seq<char>> {
    match out {
        None => None,
        Some(s) => if s.len() == 0 {
            None
        } else {
            Some(after_last_slash(trim_spec(s)))
        },
    }
}

pub fn git_rev_parse(out: &Option<String>) -> (r: Option<String>)
    ensures
        opt_str_view(r) == rev_parse_spec(opt_str_view(*out)),
{
    match nonempty_chars(out) {
        None => None,
        Some(v) => {
            let t = trim_chars(&v);
            let tail = match rfind_in(&t, '/') {
                None => subrange_vec(&t, 0, t.len()),
                Some(i) => subrange_vec(&t, i + 1, t.len()),
            };
            proof {
                assert(t@.subrange(0, t@.len() as int) =~= t@);
                if rfind_char(t@, '/') is Some {
                    let i = rfind_char(t@, '/')->0;
                    assert(t@.subrange(i + 1, t@.len() as int) =~= t@.skip(i + 1));
                }
            }
            Some(chars_string(&tail))
        },
    }
}

/// `git name-rev --name-only HEAD` with path segments rewritten to
/// short glyphs: the remote prefixes, the tag prefix, and `~` as a
/// behind-tag distance marker.
pub open spec fn name_rev_spec(fast: bool, out: Option<Seq<char>>) -> Option<Seq<char>> {
    if fast {
        None
    } else {
        match out {
            None => None,
            Some(s) => Some(
                replace_spec(
                    replace_spec(
                        replace_spec(replace_spec(s, "remotes/origin/"@, "ᐲ•"@), "remotes/"@, "⟢•"@),
                        "tags/"@,
                        ""@,
                    ),
                    "~"@,
                    "↓"@,
                ),
            ),
        }
    }
}

pub fn git_name_rev(fast: bool, out: &Option<String>) -> (r: Option<String>)
    ensures
        opt_str_view(r) == name_rev_spec(fast, opt_str_view(*out)),
{
    if fast {
        return None;
    }
    match out {
        None => None,
        Some(s) => {
            let v = str_chars(s.as_str());
            let p1 = str_chars("remotes/origin/");
            let g1 = str_chars("ᐲ•");
            let p2 = str_chars("remotes/");
            let g2 = str_chars("⟢•");
            let p3 = str_chars("tags/");
            let g3 = str_chars("");
            let p4 = str_chars("~");
            let g4 = str_chars("↓");
            proof {
                reveal_strlit("remotes/origin/");
                reveal_strlit("remotes/");
                reveal_strlit("tags/");
                reveal_strlit("~");
            }
            let s1 = replace_chars(&v, &p1, &g1);
            let s2 = replace_chars(&s1, &p2, &g2);
            let s3 = replace_chars(&s2, &p3, &g3);
            let s4 = replace_chars(&s3, &p4, &g4);
            Some(chars_string(&s4))
        },
    }
}

/// The branch name, from the first of `git branch --show`,
/// `git describe --exact-match`, and `git rev-parse --abbrev-ref
/// origin/HEAD` that yields one.
pub open spec fn branch_name_spec(
    branch_out: Option<Seq<char>>,
    exact_out: Option<Seq<char>>,
    origin_out: Option<Seq<char>>,
) -> Option<Seq<char>> {
    match branch_show_spec(branch_out) {
        Some(b) => Some(b),
        None => match describe_exact_spec(exact_out) {
            Some(e) => Some(e),
            None => rev_parse_spec(origin_out),
        },
    }
}

pub fn git_branch_name(
    branch_out: &Option<String>,
    exact_out: &Option<String>,
    origin_out: &Option<String>,
) -> (r: Option<String>)
    ensures
        opt_str_view(r) == branch_name_spec(
            opt_str_view(*branch_out),
            opt_str_view(*exact_out),
            opt_str_view(*origin_out),
        ),
{
    match git_branch_show(branch_out) {
        Some(b) => Some(b),
        None => match git_describe_exact_match(exact_out) {
            Some(e) => Some(e),
            None => git_rev_parse(origin_out),
        },
    }
}

/// The branch icon: `None` when no local ref resolves, a warning icon
/// for a detached head, an "in sync" icon when the local name equals
/// the upstream default, and a "diverged" icon otherwise.
pub open spec fn branch_icon_spec(
    local_out: Option<Seq<char>>,
    origin_out: Option<Seq<char>>,
) -> Option<Seq<char>> {
    match rev_parse_spec(local_out) {
        None => None,
        Some(l) => if l == "HEAD"@ {
            Some("⚠"@)
        } else if rev_parse_spec(origin_out) == Some(l) {
            Some("⟝"@)
        } else {
            Some("⎇"@)
        },
    }
}

pub fn git_branch_icon(local_out: &Option<String>, origin_out: &Option<String>) -> (r: Option<
    &'static str,
>)
    ensures
        match r {
            None => branch_icon_spec(opt_str_view(*local_out), opt_str_view(*origin_out)) is None,
            Some(ic) => branch_icon_spec(opt_str_view(*local_out), opt_str_view(*origin_out))
                == Some(ic@),
        },
{
    let local = git_rev_parse(local_out);
    let origin = git_rev_parse(origin_out);
    match local {
        None => None,
        Some(l) => {
            let lv = str_chars(l.as_str());
            let head = str_chars("HEAD");
            proof {
                reveal_strlit("HEAD");
            }
            if crate::text::chars_eq(&lv, &head) {
                Some("⚠")
            } else {
                let same = match &origin {
                    Some(o) => {
                        let ov = str_chars(o.as_str());
                        crate::text::chars_eq(&lv, &ov)
                    },
                    None => false,
                };
                if same {
                    Some("⟝")
                } else {
                    Some("⎇")
                }
            }
        },
    }
}

/// The human-readable revision descriptor, suppressed when it would
/// duplicate the branch name or the describe output: two strings
/// duplicate one another when either contains the other.
pub open spec fn bidirectional_inclusion(a: Seq<char>, b: Seq<char>) -> bool {
    contains_seq(a, b) || contains_seq(b, a)
}

/// Decides bidirectional containment on strings.
pub fn git_bidirectional_inclusion(a: &str, b: &str) -> (r: bool)
    ensures
        r == bidirectional_inclusion(a@, b@),
{
    let av = str_chars(a);
    let bv = str_chars(b);
    chars_contains(&av, &bv) || chars_contains(&bv, &av)
}

pub open spec fn commit_name_spec(
    name_rev: Option<Seq<char>>,
    branch_name: Option<Seq<char>>,
    descr: Option<Seq<char>>,
) -> Option<Seq<char>> {
    match name_rev {
        None => None,
        Some(n) => if branch_name matches Some(b) && bidirectional_inclusion(n, b) {
            None
        } else if descr matches Some(d) && bidirectional_inclusion(n, d) {
            None
        } else {
            Some(n)
        },
    }
}

/// Decides whether the `name-rev` descriptor is kept, given the branch
/// name and describe output already computed.
pub fn git_commit_name(
    name_rev: &Option<String>,
    branch_name: &Option<String>,
    descr: &Option<String>,
) -> (r: Option<String>)
    ensures
        opt_str_view(r) == commit_name_spec(
            opt_str_view(*name_rev),
            opt_str_view(*branch_name),
            opt_str_view(*descr),
        ),
{
    let n = match name_rev {
        None => {
            return None;
        },
        Some(n) => n,
    };
    let nv = str_chars(n.as_str());
    match branch_name {
        Some(b) => {
            let bv = str_chars(b.as_str());
            if chars_contains(&nv, &bv) || chars_contains(&bv, &nv) {
                return None;
            }
        },
        None => {},
    }
    match descr {
        Some(d) => {
            let dv = str_chars(d.as_str());
            if chars_contains(&nv, &dv) || chars_contains(&dv, &nv) {
                return None;
            }
        },
        None => {},
    }
    Some(n.clone())
}

/// `git describe --abbrev=7 --always --tag --long`, reformatted: the
/// tag alone when the distance is zero, `tag▴distance` otherwise, with
/// `|hash` appended when a hash part is present.
pub open spec fn describe_spec(s: Seq<char>) -> Seq<char> {
    let parts = crate::text::split_spec(trim_spec(s), '-');
    if parts.len() == 0 {
        Seq::empty()
    } else if parts.len() == 1 {
        parts[0]
    } else if parts.len() == 2 {
        if parts[1] == "0"@ {
            parts[0]
        } else {
            parts[0] + "▴"@ + parts[1]
        }
    } else if parts.len() == 3 && parts[1] == "0"@ {
        parts[0] + "|"@ + parts[2]
    } else {
        parts[0] + "▴"@ + parts[1] + "|"@ + parts[2]
    }
}

pub open spec fn describe_slow_spec(out: Option<Seq<char>>) -> Option<Seq<char>> {
    match out {
        None => None,
        Some(s) => Some(describe_spec(s)),
    }
}

pub fn git_describe_slow(out: &Option<String>) -> (r: Option<String>)
    ensures
        opt_str_view(r) == describe_slow_spec(opt_str_view(*out)),
{
    let s = match out {
        None => {
            return None;
        },
        Some(s) => s,
    };
    let v = str_chars(s.as_str());
    let t = trim_chars(&v);
    let parts = crate::text::split_chars(&t, '-');
    proof {
        crate::text::lemma_split_len(t@, '-');
        assert forall|j: int| 0 <= j < parts@.len() implies #[trigger] parts@[j]@
            == parts.deep_view()[j] by {
            crate::text::lemma_chars_dv(&parts@[j]);
        }
    }
    let zero = str_chars("0");
    proof {
        reveal_strlit("0");
        reveal_strlit("\u{25b4}");
        reveal_strlit("|");
    }
    let mut outv: Vec<char> = Vec::new();
    if parts.len() == 1 {
        extend_chars_local(&mut outv, &parts[0]);
    } else if parts.len() == 2 {
        if crate::text::chars_eq(&parts[1], &zero) {
            extend_chars_local(&mut outv, &parts[0]);
        } else {
            extend_chars_local(&mut outv, &parts[0]);
            outv.push('▴');
            extend_chars_local(&mut outv, &parts[1]);
            assert(outv@ =~= parts.deep_view()[0] + "▴"@ + parts.deep_view()[1]);
        }
    } else if parts.len() == 3 && crate::text::chars_eq(&parts[1], &zero) {
        extend_chars_local(&mut outv, &parts[0]);
        outv.push('|');
        extend_chars_local(&mut outv, &parts[2]);
        assert(outv@ =~= parts.deep_view()[0] + "|"@ + parts.deep_view()[2]);
    } else {
        extend_chars_local(&mut outv, &parts[0]);
        outv.push('▴');
        extend_chars_local(&mut outv, &parts[1]);
        outv.push('|');
        extend_chars_local(&mut outv, &parts[2]);
        assert(outv@ =~= parts.deep_view()[0] + "▴"@ + parts.deep_view()[1] + "|"@
            + parts.deep_view()[2]);
    }
    Some(chars_string(&outv))
}

/// Appends `src` to `dst`; a local alias so the borrow of an indexed
/// element stays readable at call sites.
fn extend_chars_local(dst: &mut Vec<char>, src: &Vec<char>)
    ensures
        final(dst)@ == old(dst)@ + src@,
{
    crate::text::extend_chars(dst, src)
}

/// `git rev-parse --short HEAD`: the abbreviated hash, trimmed.
pub open spec fn describe_fast_spec(out: Option<Seq<char>>) -> Option<Seq<char>> {
    branch_show_spec(out)
}

pub fn git_describe_fast(out: &Option<String>) -> (r: Option<String>)
    ensures
        opt_str_view(r) == describe_fast_spec(opt_str_view(*out)),
{
    match nonempty_chars(out) {
        None => None,
        Some(v) => {
            let t = trim_chars(&v);
            Some(chars_string(&t))
        },
    }
}

/// The revision descriptor, from the output of the command the mode
/// selects: `git rev-parse --short HEAD` in fast mode, the long
/// `git describe` form otherwise.
pub open spec fn git_describe_spec(fast: bool, out: Option<Seq<char>>) -> Option<Seq<char>> {
    if fast {
        describe_fast_spec(out)
    } else {
        describe_slow_spec(out)
    }
}

pub fn git_describe(fast: bool, out: &Option<String>) -> (r: Option<String>)
    ensures
        opt_str_view(r) == git_describe_spec(fast, opt_str_view(*out)),
{
    if fast {
        git_describe_fast(out)
    } else {
        git_describe_slow(out)
    }
}

/// The glyph for one `git status --porcelain` line, keyed by its first
/// two characters; unknown or ignorable states map to the empty glyph.
pub open spec fn git_icon_spec(line: Seq<char>) -> Seq<char> {
    if line.len() == 0 {
        ""@
    } else if line.len() == 1 {
        let c0 = line[0];
        if c0 == 'M' {
            "★"@
        } else if c0 == 'T' {
            "¿"@
        } else if c0 == 'A' {
            "✛"@
        } else if c0 == 'D' {
            "-"@
        } else if c0 == 'C' {
            "©"@
        } else if c0 == 'R' {
            "ʀ"@
        } else {
            ""@
        }
    } else {
        let c0 = line[0];
        let c1 = line[1];
        if c0 == ' ' && c1 == 'M' {
            "•"@
        } else if c0 == ' ' && c1 == 'D' {
            "-"@
        } else if c0 == ' ' && c1 == 'A' {
            "+"@
        } else if c0 == ' ' && c1 == 'C' {
            "ᶜ"@
        } else if c0 == ' ' && c1 == 'R' {
            "ᵣ"@
        } else if c0 == 'D' && c1 == 'D' {
            "╌"@
        } else if c0 == 'A' && c1 == 'U' {
            "✛"@
        } else if c0 == 'U' && c1 == 'D' {
            "-"@
        } else if c0 == 'U' && c1 == 'A' {
            "⊕"@
        } else if c0 == 'D' && c1 == 'U' {
            "-"@
        } else if c0 == 'A' && c1 == 'A' {
            "ǂ"@
        } else if c0 == 'U' && c1 == 'U' {
            "☢"@
        } else if c0 == 'M' && c1 == 'D' {
            "✫"@
        } else if c0 == 'M' {
            "★"@
        } else if c0 == 'T' {
            "¿"@
        } else if c0 == 'A' && c1 == 'D' {
            "∓"@
        } else if c0 == 'A' && c1 == 'M' {
            "∔"@
        } else if c0 == 'A' {
            "✛"@
        } else if c0 == 'D' && c1 == 'A' {
            "±"@
        } else if c0 == 'D' && c1 == 'M' {
            "߸"@
        } else if c0 == 'D' {
            "-"@
        } else if c0 == 'C' {
            "©"@
        } else if c0 == 'R' {
            "ʀ"@
        } else {
            ""@
        }
    }
}

/// The glyph for one porcelain status line.
pub struct GitIcon(pub &'static str);

impl View for GitIcon {
    type V = Seq<char>;

    open spec fn view(&self) -> Seq<char> {
        self.0@
    }
}

impl GitIcon {
    pub fn new(input: &str) -> (r: GitIcon)
        ensures
            r@ == git_icon_spec(input@),
    {
        let v = str_chars(input);
        if v.len() == 0 {
            GitIcon("")
        } else if v.len() == 1 {
            let c0 = v[0];
            if c0 == 'M' {
                GitIcon("★")
            } else if c0 == 'T' {
                GitIcon("¿")
            } else if c0 == 'A' {
                GitIcon("✛")
            } else if c0 == 'D' {
                GitIcon("-")
            } else if c0 == 'C' {
                GitIcon("©")
            } else if c0 == 'R' {
                GitIcon("ʀ")
            } else {
                GitIcon("")
            }
        } else {
            let c0 = v[0];
            let c1 = v[1];
            if c0 == ' ' && c1 == 'M' {
                GitIcon("•")
            } else if c0 == ' ' && c1 == 'D' {
                GitIcon("-")
            } else if c0 == ' ' && c1 == 'A' {
                GitIcon("+")
            } else if c0 == ' ' && c1 == 'C' {
                GitIcon("ᶜ")
            } else if c0 == ' ' && c1 == 'R' {
                GitIcon("ᵣ")
            } else if c0 == 'D' && c1 == 'D' {
                GitIcon("╌")
            } else if c0 == 'A' && c1 == 'U' {
                GitIcon("✛")
            } else if c0 == 'U' && c1 == 'D' {
                GitIcon("-")
            } else if c0 == 'U' && c1 == 'A' {
                GitIcon("⊕")
            } else if c0 == 'D' && c1 == 'U' {
                GitIcon("-")
            } else if c0 == 'A' && c1 == 'A' {
                GitIcon("ǂ")
            } else if c0 == 'U' && c1 == 'U' {
                GitIcon("☢")
            } else if c0 == 'M' && c1 == 'D' {
                GitIcon("✫")
            } else if c0 == 'M' {
                GitIcon("★")
            } else if c0 == 'T' {
                GitIcon("¿")
            } else if c0 == 'A' && c1 == 'D' {
                GitIcon("∓")
            } else if c0 == 'A' && c1 == 'M' {
                GitIcon("∔")
            } else if c0 == 'A' {
                GitIcon("✛")
            } else if c0 == 'D' && c1 == 'A' {
                GitIcon("±")
            } else if c0 == 'D' && c1 == 'M' {
                GitIcon("߸")
            } else if c0 == 'D' {
                GitIcon("-")
            } else if c0 == 'C' {
                GitIcon("©")
            } else if c0 == 'R' {
                GitIcon("ʀ")
            } else {
                GitIcon("")
            }
        }
    }

    pub fn is_empty(&self) -> (r: bool)
        ensures
            r == (self@.len() == 0),
    {
        self.0.is_empty()
    }
}

/// The merged status glyphs of a porcelain listing: one glyph per line
/// through the status table, merged by the icon merge algorithm.
pub open spec fn status_icon_spec(out: Option<Seq<char>>) -> Option<Seq<char>> {
    match out {
        None => None,
        Some(s) => if s.len() == 0 {
            None
        } else {
            Some(
                crate::vcs::merge_spec(
                    lines_spec(s).map_values(|l: Seq<char>| git_icon_spec(l)),
                ),
            )
        },
    }
}

#[verifier::loop_isolation(false)]
pub fn git_status_icon(out: &Option<String>) -> (r: Option<String>)
    ensures
        opt_str_view(r) == status_icon_spec(opt_str_view(*out)),
{
    let v = match nonempty_chars(out) {
        None => {
            return None;
        },
        Some(v) => v,
    };
    let lines = crate::text::lines_of(&v);
    let ghost ldv = lines.deep_view();
    let mut icons: Vec<crate::vcs::StatusIcon> = Vec::new();
    let mut i: usize = 0;
    while i < lines.len()
        invariant
            i <= lines@.len(),
            ldv == lines.deep_view(),
            icons.deep_view() == ldv.take(i as int).map_values(|l: Seq<char>| git_icon_spec(l)),
        decreases lines@.len() - i,
    {
        proof {
            crate::text::lemma_chars_dv(&lines@[i as int]);
            assert(ldv[i as int] == lines@[i as int]@);
        }
        let ls = chars_string(&lines[i]);
        let gi = GitIcon::new(ls.as_str());
        let icon = crate::vcs::StatusIcon::new(gi.0);
        proof {
            assert(icon@ == git_icon_spec(ldv[i as int]));
        }
        let ghost old_icons = icons;
        icons.push(icon);
        proof {
            crate::vcs::lemma_icons_dv_push(&old_icons, &icons, icon);
            assert(icons.deep_view() =~~= ldv.take(i + 1).map_values(
                |l: Seq<char>| git_icon_spec(l),
            ));
        }
        i += 1;
    }
    proof {
        assert(ldv.take(ldv.len() as int) =~= ldv);
    }
    Some(crate::vcs::merge_icons(icons))
}

/// Path-prefix in the component sense: `q` leads `p` as a string, and
/// the match ends at a component boundary.
pub open spec fn path_prefix_spec(p: Seq<char>, q: Seq<char>) -> bool {
    crate::text::is_prefix(q, p) && (p.len() == q.len() || p[q.len() as int] == '/' || (q.len() > 0
        && q.last() == '/'))
}

fn path_starts_with(p: &Vec<char>, q: &Vec<char>) -> (r: bool)
    ensures
        r == path_prefix_spec(p@, q@),
{
    if !crate::text::starts_with(p, q) {
        return false;
    }
    if p.len() == q.len() {
        return true;
    }
    if p[q.len()] == '/' {
        return true;
    }
    if q.len() > 0 && q[q.len() - 1] == '/' {
        return true;
    }
    false
}

/// All parts joined with single spaces.
pub open spec fn join_with_space(parts: Seq<Seq<char>>) -> Seq<char>
    decreases parts.len(),
{
    if parts.len() == 0 {
        Seq::empty()
    } else if parts.len() == 1 {
        parts[0]
    } else {
        parts[0] + seq![' '] + join_with_space(parts.drop_first())
    }
}

/// A worktree listing line names the current directory when its first
/// token is a component prefix of it and a branch token follows.
pub open spec fn worktree_line_match(cwd: Seq<char>, line: Seq<char>) -> bool {
    let tk = crate::text::tokens_spec(line);
    tk.len() >= 2 && path_prefix_spec(cwd, tk[0])
}

/// The worktree label: every token after the path and the branch.
pub open spec fn worktree_name(line: Seq<char>) -> Seq<char> {
    join_with_space(crate::text::tokens_spec(line).skip(2))
}

/// The label of the first matching line at or after index `j`;
/// the first line of the listing (the primary worktree) is skipped by
/// starting at 1.
pub open spec fn worktree_find(cwd: Seq<char>, lines: Seq<Seq<char>>, j: int) -> Option<Seq<char>>
    decreases lines.len() - j,
{
    if j < 0 || j >= lines.len() {
        None
    } else if worktree_line_match(cwd, lines[j]) {
        Some(worktree_name(lines[j]))
    } else {
        worktree_find(cwd, lines, j + 1)
    }
}

pub open spec fn worktree_spec(cwd: Seq<char>, out: Option<Seq<char>>) -> Option<Seq<char>> {
    match out {
        None => None,
        Some(s) => worktree_find(cwd, lines_spec(s), 1),
    }
}

/// Finds the secondary worktree containing `cwd` in the output of
/// `git worktree list` and returns its label.
#[verifier::loop_isolation(false)]
pub fn git_worktree(cwd: &str, out: &Option<String>) -> (r: Option<String>)
    ensures
        opt_str_view(r) == worktree_spec(cwd@, opt_str_view(*out)),
{
    let s = match out {
        None => {
            return None;
        },
        Some(s) => s,
    };
    let cwdv = str_chars(cwd);
    let v = str_chars(s.as_str());
    let lines = crate::text::lines_of(&v);
    let ghost ldv = lines.deep_view();
    let mut j: usize = 1;
    while j < lines.len()
        invariant
            1 <= j,
            ldv == lines.deep_view(),
            worktree_find(cwd@, ldv, 1) == worktree_find(cwd@, ldv, j as int),
        decreases lines@.len() - j,
    {
        proof {
            crate::text::lemma_chars_dv(&lines@[j as int]);
        }
        let tk = crate::text::tokens_of(&lines[j]);
        proof {
            assert forall|m: int| 0 <= m < tk@.len() implies #[trigger] tk@[m]@
                == tk.deep_view()[m] by {
                crate::text::lemma_chars_dv(&tk@[m]);
            }
        }
        if tk.len() >= 2 && path_starts_with(&cwdv, &tk[0]) {
            let ghost tdv = tk.deep_view();
            let mut name: Vec<char> = Vec::new();
            let mut m: usize = tk.len();
            proof {
                assert(tdv.skip(tdv.len() as int) =~= Seq::<Seq<char>>::empty());
            }
            while m > 2
                invariant
                    2 <= m <= tk@.len(),
                    tdv == tk.deep_view(),
                    name@ == (if m == tk@.len() {
                        Seq::<char>::empty()
                    } else {
                        join_with_space(tdv.skip(m as int))
                    }),
                decreases m,
            {
                m -= 1;
                proof {
                    assert(tdv.skip(m as int)[0] == tdv[m as int]);
                    assert(tdv.skip(m as int).drop_first() =~= tdv.skip(m + 1));
                }
                let mut piece = crate::text::subrange_vec(&tk[m], 0, tk[m].len());
                proof {
                    crate::text::lemma_chars_dv(&tk@[m as int]);
                    assert(tk@[m as int]@.subrange(0, tk@[m as int]@.len() as int) =~= tdv[
                        m as int
                    ]);
                }
                if m + 1 < tk.len() {
                    piece.push(' ');
                    crate::text::extend_chars(&mut piece, &name);
                    assert(piece@ =~= tdv[m as int] + seq![' '] + join_with_space(tdv.skip(
                        m + 1,
                    )));
                }
                name = piece;
            }
            proof {
                if tk@.len() == 2 {
                    assert(tdv.skip(2).len() == 0);
                }
                assert(name@ == worktree_name(ldv[j as int]));
            }
            return Some(chars_string(&name));
        }
        j += 1;
    }
    None
}

/// `git stash list`: the stash marker with the superscript count of
/// stash entries (the listing's lines); a single entry renders the
/// bare marker, as the merge algorithm renders singleton groups.
pub open spec fn stash_counter_spec(out: Option<Seq<char>>) -> Option<Seq<char>> {
    match out {
        None => None,
        Some(s) => if s.len() == 0 {
            None
        } else {
            Some(crate::vcs::render_icon_spec("≡"@, lines_spec(s).len()))
        },
    }
}

pub fn git_stash_counter(out: &Option<String>) -> (r: Option<String>)
    ensures
        opt_str_view(r) == stash_counter_spec(opt_str_view(*out)),
{
    let v = match nonempty_chars(out) {
        None => {
            return None;
        },
        Some(v) => v,
    };
    let lines = crate::text::lines_of(&v);
    let n: u64 = lines.len() as u64;
    proof {
        assert(n as nat == lines.deep_view().len());
    }
    Some(crate::vcs::render_icon("≡", n))
}

/// An ahead/behind count that contributes nothing: empty or zero.
pub open spec fn count_is_zero(s: Seq<char>) -> bool {
    s.len() == 0 || s == "0"@
}

/// The divergence marker against the configured upstream: `↑N` commits
/// ahead, `↓N` behind, both when both, `None` when both counts are
/// zero or either command failed. Ahead is the count over
/// `HEAD@{upstream}..HEAD`, behind over `HEAD..HEAD@{upstream}` — two
/// distinct ranges.
pub open spec fn divergence_spec(
    ahead: Option<Seq<char>>,
    behind: Option<Seq<char>>,
) -> Option<Seq<char>> {
    match (ahead, behind) {
        (Some(a), Some(b)) => if count_is_zero(a) && count_is_zero(b) {
            None
        } else if count_is_zero(a) {
            Some("↓"@ + b)
        } else if count_is_zero(b) {
            Some("↑"@ + a)
        } else {
            Some("↑"@ + a + "↓"@ + b)
        },
        _ => None,
    }
}

pub fn git_ahead_behind_icon(ahead: &Option<String>, behind: &Option<String>) -> (r: Option<
    String,
>)
    ensures
        opt_str_view(r) == divergence_spec(opt_str_view(*ahead), opt_str_view(*behind)),
{
    let (a, b) = match (ahead, behind) {
        (Some(a), Some(b)) => (a, b),
        _ => {
            return None;
        },
    };
    let av = str_chars(a.as_str());
    let bv = str_chars(b.as_str());
    let zero = str_chars("0");
    proof {
        reveal_strlit("0");
        reveal_strlit("\u{2191}");
        reveal_strlit("\u{2193}");
    }
    let za = av.len() == 0 || crate::text::chars_eq(&av, &zero);
    let zb = bv.len() == 0 || crate::text::chars_eq(&bv, &zero);
    if za && zb {
        return None;
    }
    let mut outv: Vec<char> = Vec::new();
    if za {
        outv.push('↓');
        crate::text::extend_chars(&mut outv, &bv);
        assert(outv@ =~= "↓"@ + bv@);
    } else if zb {
        outv.push('↑');
        crate::text::extend_chars(&mut outv, &av);
        assert(outv@ =~= "↑"@ + av@);
    } else {
        outv.push('↑');
        crate::text::extend_chars(&mut outv, &av);
        outv.push('↓');
        crate::text::extend_chars(&mut outv, &bv);
        assert(outv@ =~= "↑"@ + av@ + "↓"@ + bv@);
    }
    Some(chars_string(&outv))
}

} // verus!
