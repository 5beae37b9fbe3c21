//! The scheduler core: the fixed provider order, order-preserving
//! assembly of concurrently completed results, and composition of the
//! final line or the diagnostic report.
//!
//! Concurrency itself lives in the surrounding binary: it runs one task
//! per provider and hands the completed `(position, result)` pairs —
//! in whatever order they finished — to [`assemble`], which indexes
//! them back into declaration order.

use vstd::prelude::*;

use crate::chunk::{render_spec, Chunk, ChunkView};
use crate::text::{chars_string, extend_chars, str_chars};

verus! {

/// The providers, named by their position in the prompt.
#[derive(Clone, Copy, Debug, PartialEq, Eq, Structural)]
pub enum ProviderId {
    User,
    Realname,
    Hostname,
    DeviceName,
    Distro,
    Pwd,
    FullPwd,
    Os,
    Virt,
    Memory,
    HugePages,
    Ssh,
    Netif,
    Netns,
    Manifest,
    VcsBranch,
    VcsStatus,
    VcsStash,
    VcsWorktree,
    VcsCommit,
    VcsDivergence,
    Duration,
    ExitCode,
}

/// A stable identifying name for each provider, for the diagnostic
/// report.
pub open spec fn provider_name_spec(p: ProviderId) -> Seq<char> {
    match p {
        ProviderId::User => "basic::user"@,
        ProviderId::Realname => "basic::realname"@,
        ProviderId::Hostname => "basic::hostname"@,
        ProviderId::DeviceName => "basic::device_name"@,
        ProviderId::Distro => "basic::distro"@,
        ProviderId::Pwd => "basic::pwd"@,
        ProviderId::FullPwd => "basic::full_pwd"@,
        ProviderId::Os => "os::show"@,
        ProviderId::Virt => "virt::show"@,
        ProviderId::Memory => "memory::show"@,
        ProviderId::HugePages => "huge_pages::show"@,
        ProviderId::Ssh => "ssh::show"@,
        ProviderId::Netif => "netif::show"@,
        ProviderId::Netns => "netns::show"@,
        ProviderId::Manifest => "manifest::show"@,
        ProviderId::VcsBranch => "vcs::branch"@,
        ProviderId::VcsStatus => "vcs::status"@,
        ProviderId::VcsStash => "vcs::stash"@,
        ProviderId::VcsWorktree => "vcs::worktree"@,
        ProviderId::VcsCommit => "vcs::commit"@,
        ProviderId::VcsDivergence => "vcs::divergence"@,
        ProviderId::Duration => "duration::show"@,
        ProviderId::ExitCode => "exit_code::show"@,
    }
}

pub fn provider_name(p: &ProviderId) -> (r: &'static str)
    ensures
        r@ == provider_name_spec(*p),
{
    match p {
        ProviderId::User => "basic::user",
        ProviderId::Realname => "basic::realname",
        ProviderId::Hostname => "basic::hostname",
        ProviderId::DeviceName => "basic::device_name",
        ProviderId::Distro => "basic::distro",
        ProviderId::Pwd => "basic::pwd",
        ProviderId::FullPwd => "basic::full_pwd",
        ProviderId::Os => "os::show",
        ProviderId::Virt => "virt::show",
        ProviderId::Memory => "memory::show",
        ProviderId::HugePages => "huge_pages::show",
        ProviderId::Ssh => "ssh::show",
        ProviderId::Netif => "netif::show",
        ProviderId::Netns => "netns::show",
        ProviderId::Manifest => "manifest::show",
        ProviderId::VcsBranch => "vcs::branch",
        ProviderId::VcsStatus => "vcs::status",
        ProviderId::VcsStash => "vcs::stash",
        ProviderId::VcsWorktree => "vcs::worktree",
        ProviderId::VcsCommit => "vcs::commit",
        ProviderId::VcsDivergence => "vcs::divergence",
        ProviderId::Duration => "duration::show",
        ProviderId::ExitCode => "exit_code::show",
    }
}

/// The declaration order of the providers in the prompt line.
pub open spec fn provider_order_spec() -> Seq<ProviderId> {
    seq![
        ProviderId::User,
        ProviderId::Realname,
        ProviderId::Hostname,
        ProviderId::DeviceName,
        ProviderId::Distro,
        ProviderId::Pwd,
        ProviderId::FullPwd,
        ProviderId::Os,
        ProviderId::Virt,
        ProviderId::Memory,
        ProviderId::HugePages,
        ProviderId::Ssh,
        ProviderId::Netif,
        ProviderId::Netns,
        ProviderId::Manifest,
        ProviderId::VcsBranch,
        ProviderId::VcsStatus,
        ProviderId::VcsStash,
        ProviderId::VcsWorktree,
        ProviderId::VcsCommit,
        ProviderId::VcsDivergence,
        ProviderId::Duration,
        ProviderId::ExitCode,
    ]
}

pub fn provider_order() -> (r: Vec<ProviderId>)
    ensures
        r@ == provider_order_spec(),
{
    let mut r: Vec<ProviderId> = Vec::new();
    r.push(ProviderId::User);
    r.push(ProviderId::Realname);
    r.push(ProviderId::Hostname);
    r.push(ProviderId::DeviceName);
    r.push(ProviderId::Distro);
    r.push(ProviderId::Pwd);
    r.push(ProviderId::FullPwd);
    r.push(ProviderId::Os);
    r.push(ProviderId::Virt);
    r.push(ProviderId::Memory);
    r.push(ProviderId::HugePages);
    r.push(ProviderId::Ssh);
    r.push(ProviderId::Netif);
    r.push(ProviderId::Netns);
    r.push(ProviderId::Manifest);
    r.push(ProviderId::VcsBranch);
    r.push(ProviderId::VcsStatus);
    r.push(ProviderId::VcsStash);
    r.push(ProviderId::VcsWorktree);
    r.push(ProviderId::VcsCommit);
    r.push(ProviderId::VcsDivergence);
    r.push(ProviderId::Duration);
    r.push(ProviderId::ExitCode);
    assert(r@ =~= provider_order_spec());
    r
}

/// Places completed `(position, result)` pairs — in whatever order the
/// tasks finished — into a slot vector indexed by declared position.
/// Positions nobody completed stay `None`, so partial completion is
/// honored in declaration order.
#[verifier::loop_isolation(false)]
pub fn assemble(n: usize, completions: Vec<(usize, Option<Chunk>)>) -> (r: Vec<Option<Chunk>>)
    requires
        forall|k: int| 0 <= k < completions@.len() ==> (#[trigger] completions@[k]).0 < n,
        forall|k1: int, k2: int|
            0 <= k1 < k2 < completions@.len() ==> (#[trigger] completions@[k1]).0 != (
            #[trigger] completions@[k2]).0,
    ensures
        r@.len() == n,
        forall|k: int|
            0 <= k < completions@.len() ==> r@[(#[trigger] completions@[k]).0 as int]
                == completions@[k].1,
        forall|i: int|
            0 <= i < n && (forall|k: int|
                0 <= k < completions@.len() ==> (#[trigger] completions@[k]).0 != i) ==> r@[i]
                is None,
{
    let ghost pairs = completions@;
    let mut slots: Vec<Option<Chunk>> = Vec::new();
    let mut i: usize = 0;
    while i < n
        invariant
            i <= n,
            slots@.len() == i,
            forall|j: int| 0 <= j < i ==> slots@[j] is None,
        decreases n - i,
    {
        slots.push(None);
        i += 1;
    }
    let mut work = completions;
    proof {
        assert(pairs.take(pairs.len() as int) =~= pairs);
    }
    while work.len() > 0
        invariant
            work@.len() <= pairs.len(),
            work@ == pairs.take(work@.len() as int),
            slots@.len() == n,
            forall|k: int|
                work@.len() <= k < pairs.len() ==> slots@[(#[trigger] pairs[k]).0 as int]
                    == pairs[k].1,
            forall|i2: int|
                0 <= i2 < n && (forall|k: int|
                    work@.len() <= k < pairs.len() ==> (#[trigger] pairs[k]).0 != i2)
                    ==> slots@[i2] is None,
        decreases work@.len(),
    {
        let ghost m = work@.len() as int;
        let (pos, chunk) = match work.pop() {
            Some(p) => p,
            None => {
                return slots;
            },
        };
        proof {
            assert(work@ =~= pairs.take(m - 1));
            assert(pairs.take(m)[m - 1] == pairs[m - 1]);
        }
        slots.set(pos, chunk);
        proof {
            assert forall|k: int|
                work@.len() <= k < pairs.len() implies slots@[(#[trigger] pairs[k]).0 as int]
                == pairs[k].1 by {
                if k != m - 1 {
                    assert(pairs[k].0 != pairs[m - 1].0);
                }
            }
        }
    }
    proof {
        assert(pairs.take(0) =~= work@);
    }
    slots
}

/// Some pair in `pairs` completed position `i`.
pub open spec fn covers(pairs: Seq<(usize, Option<ChunkView>)>, i: int) -> bool {
    exists|k: int| 0 <= k < pairs.len() && (#[trigger] pairs[k]).0 == i
}

/// Order preservation: the assembled slot sequence is fully determined
/// by which `(position, result)` pairs completed — never by the order
/// in which they arrived. Any two completion orders of the same pairs
/// yield the same sequence.
pub proof fn lemma_order_preservation(
    pairs1: Seq<(usize, Option<ChunkView>)>,
    pairs2: Seq<(usize, Option<ChunkView>)>,
    n: nat,
    s1: Seq<Option<ChunkView>>,
    s2: Seq<Option<ChunkView>>,
)
    requires
        pairs1.to_multiset() == pairs2.to_multiset(),
        s1.len() == n,
        s2.len() == n,
        forall|i: int| 0 <= i < n ==> #[trigger] covers(pairs1, i),
        forall|k: int|
            0 <= k < pairs1.len() ==> (#[trigger] pairs1[k]).0 < n && s1[pairs1[k].0 as int]
                == pairs1[k].1,
        forall|k: int|
            0 <= k < pairs2.len() ==> (#[trigger] pairs2[k]).0 < n && s2[pairs2[k].0 as int]
                == pairs2[k].1,
    ensures
        s1 == s2,
{
    broadcast use vstd::seq_lib::group_to_multiset_ensures;

    assert forall|i: int| 0 <= i < n implies s1[i] == s2[i] by {
        assert(covers(pairs1, i));
        let k1 = choose|k: int| 0 <= k < pairs1.len() && (#[trigger] pairs1[k]).0 == i;
        assert(pairs1[k1].0 == i);
        assert(pairs1.contains(pairs1[k1]));
        assert(pairs1.to_multiset().contains(pairs1[k1]));
        assert(pairs2.to_multiset().contains(pairs1[k1]));
        assert(pairs2.contains(pairs1[k1]));
        let k2 = choose|k: int| 0 <= k < pairs2.len() && #[trigger] pairs2[k] == pairs1[k1];
        assert(pairs2[k2] == pairs1[k1]);
        assert(pairs2[k2].0 == i);
        assert(s2[i] == pairs2[k2].1);
        assert(s1[i] == pairs1[k1].1);
    }
    assert(s1 =~= s2);
}

/// The rendering of one optional result; an omitted segment renders
/// empty.
pub open spec fn opt_render(o: Option<Chunk>) -> Seq<char> {
    match o {
        Some(c) => render_spec(c@),
        None => Seq::empty(),
    }
}

/// Joins the non-empty parts with single spaces; empty parts contribute
/// neither text nor a separator.
pub open spec fn join_nonempty(parts: Seq<Seq<char>>) -> Seq<char>
    decreases parts.len(),
{
    if parts.len() == 0 {
        Seq::empty()
    } else {
        let rest = join_nonempty(parts.drop_first());
        if parts[0].len() == 0 {
            rest
        } else if rest.len() == 0 {
            parts[0]
        } else {
            parts[0] + seq![' '] + rest
        }
    }
}

/// The composed line: results rendered in declaration order, `None`
/// and empty renderings omitted entirely, the rest joined by single
/// spaces.
pub open spec fn line_spec(results: Seq<Option<Chunk>>) -> Seq<char> {
    join_nonempty(results.map_values(|o: Option<Chunk>| opt_render(o)))
}

/// Renders the ordered results into the final prompt line.
#[verifier::loop_isolation(false)]
pub fn compose_line(results: &Vec<Option<Chunk>>) -> (r: String)
    ensures
        r@ == line_spec(results@),
{
    let ghost parts = results@.map_values(|o: Option<Chunk>| opt_render(o));
    let mut acc: Vec<char> = Vec::new();
    let mut i: usize = results.len();
    proof {
        assert(parts.skip(parts.len() as int) =~= Seq::<Seq<char>>::empty());
    }
    while i > 0
        invariant
            i <= results@.len(),
            acc@ == join_nonempty(parts.skip(i as int)),
        decreases i,
    {
        i -= 1;
        proof {
            assert(parts.skip(i as int)[0] == parts[i as int]);
            assert(parts.skip(i as int).drop_first() =~= parts.skip(i + 1));
        }
        let rendered: Vec<char> = match &results[i] {
            Some(c) => {
                let s = c.render();
                str_chars(s.as_str())
            },
            None => Vec::new(),
        };
        proof {
            assert(rendered@ == parts[i as int]);
        }
        if rendered.len() == 0 {
        } else if acc.len() == 0 {
            acc = rendered;
        } else {
            let mut next = rendered;
            next.push(' ');
            extend_chars(&mut next, &acc);
            proof {
                assert(next@ =~= parts[i as int] + seq![' '] + join_nonempty(
                    parts.skip(i + 1),
                ));
            }
            acc = next;
        }
    }
    proof {
        assert(parts.skip(0) =~= parts);
    }
    chars_string(&acc)
}

/// One row of the diagnostic report.
pub struct ReportRow {
    pub name: String,
    pub duration: String,
    pub chunk: Option<Chunk>,
}

/// `n` spaces.
pub open spec fn spaces(n: nat) -> Seq<char>
    decreases n,
{
    if n == 0 {
        Seq::empty()
    } else {
        spaces((n - 1) as nat).push(' ')
    }
}

/// `s` padded with trailing spaces to at least `w` characters.
pub open spec fn pad_right_spec(s: Seq<char>, w: nat) -> Seq<char> {
    if s.len() >= w {
        s
    } else {
        s + spaces((w - s.len()) as nat)
    }
}

/// `s` padded with leading spaces to at least `w` characters.
pub open spec fn pad_left_spec(s: Seq<char>, w: nat) -> Seq<char> {
    if s.len() >= w {
        s
    } else {
        spaces((w - s.len()) as nat) + s
    }
}

fn push_spaces(out: &mut Vec<char>, n: usize)
    ensures
        final(out)@ == old(out)@ + spaces(n as nat),
{
    let mut i: usize = 0;
    while i < n
        invariant
            i <= n,
            out@ == old(out)@ + spaces(i as nat),
        decreases n - i,
    {
        out.push(' ');
        i += 1;
    }
}

/// The diagnostic line for one row:
/// `<name, padded to 40> -> <duration, padded to 15> : (<chunk or _>)`.
pub open spec fn report_line_spec(name: Seq<char>, duration: Seq<char>, chunk: Option<Chunk>) -> Seq<
    char,
> {
    pad_right_spec(name, 40) + " -> "@ + pad_left_spec(duration, 15) + " : ("@ + (match chunk {
        Some(c) => render_spec(c@),
        None => "_"@,
    }) + ")"@
}

/// Renders one diagnostic report row.
pub fn compose_report_row(row: &ReportRow) -> (r: String)
    ensures
        r@ == report_line_spec(row.name@, row.duration@, row.chunk),
{
    let mut out: Vec<char> = Vec::new();
    let namev = str_chars(row.name.as_str());
    extend_chars(&mut out, &namev);
    if namev.len() < 40 {
        push_spaces(&mut out, 40 - namev.len());
    }
    let arrow = str_chars(" -> ");
    extend_chars(&mut out, &arrow);
    let durv = str_chars(row.duration.as_str());
    if durv.len() < 15 {
        push_spaces(&mut out, 15 - durv.len());
    }
    extend_chars(&mut out, &durv);
    let open_paren = str_chars(" : (");
    extend_chars(&mut out, &open_paren);
    match &row.chunk {
        Some(c) => {
            let s = c.render();
            let sv = str_chars(s.as_str());
            extend_chars(&mut out, &sv);
        },
        None => {
            out.push('_');
            proof {
                reveal_strlit("_");
            }
        },
    }
    out.push(')');
    proof {
        reveal_strlit(")");
        assert(out@ =~= report_line_spec(row.name@, row.duration@, row.chunk));
    }
    chars_string(&out)
}

} // verus!
