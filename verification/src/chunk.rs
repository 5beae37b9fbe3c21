//! A renderable prompt segment: an optional icon and an optional info
//! payload.

use vstd::prelude::*;

use crate::text::{chars_string, extend_chars, str_chars};

verus! {

/// Mathematical image of a [`Chunk`].
pub struct ChunkView {
    pub icon: Option<Seq<char>>,
    pub info: Option<Seq<char>>,
}

/// One prompt segment. Renders as `"<icon> <info>"`, `"<icon>"`,
/// `"<info>"`, or the empty string, depending on which parts are present.
pub struct Chunk {
    icon: Option<String>,
    info: Option<String>,
}

impl View for Chunk {
    type V = ChunkView;

    closed spec fn view(&self) -> ChunkView {
        ChunkView {
            icon: match self.icon {
                Some(ref s) => Some(s@),
                None => None,
            },
            info: match self.info {
                Some(ref s) => Some(s@),
                None => None,
            },
        }
    }
}

/// How a chunk renders: icon and info joined by one space when both are
/// present, either alone otherwise, empty when neither is.
pub open spec fn render_spec(c: ChunkView) -> Seq<char> {
    match (c.icon, c.info) {
        (Some(ic), Some(inf)) => ic + seq![' '] + inf,
        (Some(ic), None) => ic,
        (None, Some(inf)) => inf,
        (None, None) => Seq::empty(),
    }
}

impl Chunk {
    /// A chunk with both an icon and an info payload.
    pub fn new(icon: &str, info: &str) -> (r: Chunk)
        ensures
            r@.icon == Some(icon@),
            r@.info == Some(info@),
    {
        Chunk { icon: Some(icon.to_owned()), info: Some(info.to_owned()) }
    }

    /// A chunk with an icon only.
    pub fn icon(icon: &str) -> (r: Chunk)
        ensures
            r@.icon == Some(icon@),
            r@.info is None,
    {
        Chunk { icon: Some(icon.to_owned()), info: None }
    }

    /// A chunk with an info payload only.
    pub fn info(info: &str) -> (r: Chunk)
        ensures
            r@.icon is None,
            r@.info == Some(info@),
    {
        Chunk { icon: None, info: Some(info.to_owned()) }
    }

    /// Renders the chunk.
    pub fn render(&self) -> (r: String)
        ensures
            r@ == render_spec(self@),
    {
        let mut out: Vec<char> = Vec::new();
        match (&self.icon, &self.info) {
            (Some(ic), Some(inf)) => {
                let icv = str_chars(ic.as_str());
                extend_chars(&mut out, &icv);
                out.push(' ');
                let infv = str_chars(inf.as_str());
                extend_chars(&mut out, &infv);
                assert(out@ =~= render_spec(self@));
            },
            (Some(ic), None) => {
                let icv = str_chars(ic.as_str());
                extend_chars(&mut out, &icv);
                assert(out@ =~= render_spec(self@));
            },
            (None, Some(inf)) => {
                let infv = str_chars(inf.as_str());
                extend_chars(&mut out, &infv);
                assert(out@ =~= render_spec(self@));
            },
            (None, None) => {
                assert(out@ =~= render_spec(self@));
            },
        }
        chars_string(&out)
    }
}

/// The view of an optional chunk.
pub open spec fn opt_chunk_view(c: Option<Chunk>) -> Option<ChunkView> {
    match c {
        Some(ch) => Some(ch@),
        None => None,
    }
}

} // verus!
