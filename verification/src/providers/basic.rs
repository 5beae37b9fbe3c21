//! Thin identity and directory providers: each wraps one observed OS
//! value into a segment when its flag is enabled.

use vstd::prelude::*;

use crate::chunk::{opt_chunk_view, Chunk, ChunkView};
use crate::cmd::opt_str_view;
use crate::options::Options;
use crate::text::{chars_eq, chars_string, extend_chars, str_chars};

verus! {

/// The host name behind an `@`, when enabled and known.
pub open spec fn hostname_spec(enabled: bool, host: Option<Seq<char>>) -> Option<ChunkView> {
    if !enabled {
        None
    } else {
        match host {
            None => None,
            Some(h) => Some(ChunkView { icon: None, info: Some("@"@ + h) }),
        }
    }
}

pub fn hostname(opts: &Options, host: &Option<String>) -> (r: Option<Chunk>)
    ensures
        opt_chunk_view(r) == hostname_spec(opts.hostname, opt_str_view(*host)),
{
    if !opts.hostname {
        return None;
    }
    match host {
        None => None,
        Some(h) => {
            let hv = str_chars(h.as_str());
            let mut outv: Vec<char> = Vec::new();
            outv.push('@');
            extend_chars(&mut outv, &hv);
            proof {
                reveal_strlit("@");
                assert(outv@ =~= "@"@ + hv@);
            }
            let info = chars_string(&outv);
            Some(Chunk::info(info.as_str()))
        },
    }
}

/// The device name behind a terminal icon, when enabled and known.
pub open spec fn device_name_spec(enabled: bool, name: Option<Seq<char>>) -> Option<ChunkView> {
    if !enabled {
        None
    } else {
        match name {
            None => None,
            Some(d) => Some(ChunkView { icon: Some("🖥"@), info: Some(d) }),
        }
    }
}

pub fn device_name(opts: &Options, name: &Option<String>) -> (r: Option<Chunk>)
    ensures
        opt_chunk_view(r) == device_name_spec(opts.device_name, opt_str_view(*name)),
{
    if !opts.device_name {
        return None;
    }
    match name {
        None => None,
        Some(d) => Some(Chunk::new("🖥", d.as_str())),
    }
}

/// An observed value as a bare info segment, when enabled and known.
pub open spec fn plain_info_spec(enabled: bool, value: Option<Seq<char>>) -> Option<ChunkView> {
    if !enabled {
        None
    } else {
        match value {
            None => None,
            Some(v) => Some(ChunkView { icon: None, info: Some(v) }),
        }
    }
}

pub fn user(opts: &Options, name: &Option<String>) -> (r: Option<Chunk>)
    ensures
        opt_chunk_view(r) == plain_info_spec(opts.user, opt_str_view(*name)),
{
    if !opts.user {
        return None;
    }
    match name {
        None => None,
        Some(u) => Some(Chunk::info(u.as_str())),
    }
}

pub fn realname(opts: &Options, name: &Option<String>) -> (r: Option<Chunk>)
    ensures
        opt_chunk_view(r) == plain_info_spec(opts.realname, opt_str_view(*name)),
{
    if !opts.realname {
        return None;
    }
    match name {
        None => None,
        Some(u) => Some(Chunk::info(u.as_str())),
    }
}

pub fn distro(opts: &Options, name: &Option<String>) -> (r: Option<Chunk>)
    ensures
        opt_chunk_view(r) == plain_info_spec(opts.distro, opt_str_view(*name)),
{
    if !opts.distro {
        return None;
    }
    match name {
        None => None,
        Some(u) => Some(Chunk::info(u.as_str())),
    }
}

/// The working directory with the home prefix shortened to `~`: the
/// home directory itself becomes `~`, a path below it keeps its
/// remainder after the `~`, anything else is unchanged.
pub open spec fn pwd_display_spec(p: Seq<char>, home: Option<Seq<char>>) -> Seq<char> {
    match home {
        None => p,
        Some(h) => if p == h {
            "~"@
        } else if p.len() > h.len() && p.take(h.len() as int) == h && p[h.len() as int] == '/' {
            "~"@ + p.skip(h.len() as int)
        } else {
            p
        },
    }
}

pub open spec fn pwd_spec(enabled: bool, p: Seq<char>, home: Option<Seq<char>>) -> Option<
    ChunkView,
> {
    if !enabled {
        None
    } else {
        Some(ChunkView { icon: None, info: Some(pwd_display_spec(p, home)) })
    }
}

pub fn pwd(opts: &Options, cwd: &str, home: &Option<String>) -> (r: Option<Chunk>)
    ensures
        opt_chunk_view(r) == pwd_spec(opts.pwd, cwd@, opt_str_view(*home)),
{
    if !opts.pwd {
        return None;
    }
    let p = str_chars(cwd);
    let shortened: Vec<char> = match home {
        None => p,
        Some(h) => {
            let hv = str_chars(h.as_str());
            if chars_eq(&p, &hv) {
                let mut t: Vec<char> = Vec::new();
                t.push('~');
                proof {
                    reveal_strlit("~");
                    assert(t@ =~= "~"@);
                }
                t
            } else if p.len() > hv.len() && crate::text::starts_with(&p, &hv) && p[hv.len()]
                == '/' {
                let rest = crate::text::subrange_vec(&p, hv.len(), p.len());
                let mut t: Vec<char> = Vec::new();
                t.push('~');
                extend_chars(&mut t, &rest);
                proof {
                    reveal_strlit("~");
                    assert(p@.subrange(hv@.len() as int, p@.len() as int) =~= p@.skip(
                        hv@.len() as int,
                    ));
                    assert(t@ =~= "~"@ + p@.skip(hv@.len() as int));
                }
                t
            } else {
                p
            }
        },
    };
    let info = chars_string(&shortened);
    Some(Chunk::info(info.as_str()))
}

/// The full working directory, when enabled.
pub open spec fn full_pwd_spec(enabled: bool, p: Seq<char>) -> Option<ChunkView> {
    if !enabled {
        None
    } else {
        Some(ChunkView { icon: None, info: Some(p) })
    }
}

pub fn full_pwd(opts: &Options, cwd: &str) -> (r: Option<Chunk>)
    ensures
        opt_chunk_view(r) == full_pwd_spec(opts.full_pwd, cwd@),
{
    if !opts.full_pwd {
        return None;
    }
    Some(Chunk::info(cwd))
}

} // verus!
