//! The manifest provider's classification: which language the files
//! in a directory indicate, reduced to the icons of the entries with
//! the highest confidence. The filename lookup table itself is a
//! static lookup owned by the surrounding binary.

use vstd::prelude::*;

use crate::chunk::{opt_chunk_view, Chunk, ChunkView};
use crate::options::Options;
use crate::text::{chars_string, dedup_adjacent, join_sep, lemma_lex_total_ordering, lex_leq_fn,
    str_chars};

verus! {

/// How strongly a filename indicates its language.
#[derive(Clone, Copy, Debug, PartialEq, Eq, PartialOrd, Ord, Structural)]
pub enum Confidence {
    /// Generic or ambiguous indicator.
    Low,
    /// Strong indicator shared across a close-knit ecosystem.
    Medium,
    /// Unique, unambiguous indicator.
    High,
}

/// The table entry for one language indicator.
pub struct LanguageInfo {
    pub icon: &'static str,
    pub color: &'static str,
    pub cterm_color: &'static str,
    pub name: &'static str,
    pub confidence: Confidence,
}

/// Confidence as an ordering rank.
pub open spec fn rank(c: Confidence) -> nat {
    match c {
        Confidence::Low => 0,
        Confidence::Medium => 1,
        Confidence::High => 2,
    }
}

fn rank_of(c: &Confidence) -> (r: u8)
    ensures
        r as nat == rank(*c),
{
    match c {
        Confidence::Low => 0,
        Confidence::Medium => 1,
        Confidence::High => 2,
    }
}

/// The highest rank among the matched entries.
pub open spec fn max_rank(s: Seq<LanguageInfo>) -> nat
    decreases s.len(),
{
    if s.len() == 0 {
        0
    } else {
        let m = max_rank(s.drop_last());
        if rank(s.last().confidence) > m {
            rank(s.last().confidence)
        } else {
            m
        }
    }
}

/// The icons of the entries at the highest confidence.
pub open spec fn top_icons(s: Seq<LanguageInfo>) -> Seq<Seq<char>> {
    s.filter(|l: LanguageInfo| rank(l.confidence) == max_rank(s)).map_values(
        |l: LanguageInfo| l.icon@,
    )
}

/// The rendered indicator: highest-confidence icons, sorted, adjacent
/// duplicates collapsed, concatenated.
pub open spec fn manifest_info_spec(s: Seq<LanguageInfo>) -> Seq<char> {
    join_sep(dedup_adjacent(top_icons(s).sort_by(lex_leq_fn())), Seq::empty())
}

pub open spec fn manifest_spec(
    nerd_font: bool,
    manifest: bool,
    langs: Seq<LanguageInfo>,
) -> Option<ChunkView> {
    if !nerd_font || !manifest || langs.len() == 0 {
        None
    } else {
        Some(ChunkView { icon: None, info: Some(manifest_info_spec(langs)) })
    }
}

/// Renders the manifest segment from the matched table entries of the
/// directory listing.
#[verifier::loop_isolation(false)]
pub fn show(opts: &Options, langs: Vec<LanguageInfo>) -> (r: Option<Chunk>)
    ensures
        opt_chunk_view(r) == manifest_spec(opts.nerd_font, opts.manifest, langs@),
{
    if !opts.nerd_font || !opts.manifest {
        return None;
    }
    if langs.len() == 0 {
        return None;
    }
    let ghost lv = langs@;
    let mut top: u8 = 0;
    let mut i: usize = 0;
    proof {
        assert(lv.take(0) =~= Seq::<LanguageInfo>::empty());
    }
    while i < langs.len()
        invariant
            i <= lv.len(),
            lv == langs@,
            top as nat == max_rank(lv.take(i as int)),
            top <= 2,
        decreases lv.len() - i,
    {
        proof {
            assert(lv.take(i + 1).drop_last() =~= lv.take(i as int));
            assert(lv.take(i + 1).last() == lv[i as int]);
        }
        let r = rank_of(&langs[i].confidence);
        if r > top {
            top = r;
        }
        i += 1;
    }
    proof {
        assert(lv.take(lv.len() as int) =~= lv);
    }
    let ghost pred = |l: LanguageInfo| rank(l.confidence) == max_rank(lv);
    let mut kept: Vec<Vec<char>> = Vec::new();
    let mut j: usize = 0;
    proof {
        reveal(Seq::filter);
        assert(lv.take(0) =~= Seq::<LanguageInfo>::empty());
        assert(kept.deep_view() =~~= lv.take(0).filter(pred).map_values(
            |l: LanguageInfo| l.icon@,
        ));
    }
    while j < langs.len()
        invariant
            j <= lv.len(),
            lv == langs@,
            top as nat == max_rank(lv),
            kept.deep_view() == lv.take(j as int).filter(pred).map_values(
                |l: LanguageInfo| l.icon@,
            ),
        decreases lv.len() - j,
    {
        proof {
            reveal(Seq::filter);
            assert(lv.take(j + 1).drop_last() =~= lv.take(j as int));
            assert(lv.take(j + 1).last() == lv[j as int]);
        }
        let r = rank_of(&langs[j].confidence);
        if r == top {
            let iconv = str_chars(langs[j].icon);
            let ghost old_kept = kept;
            kept.push(iconv);
            proof {
                crate::text::lemma_dv_push(&old_kept, &kept, &kept@[kept@.len() - 1]);
                assert(kept.deep_view() =~~= lv.take(j + 1).filter(pred).map_values(
                    |l: LanguageInfo| l.icon@,
                ));
            }
        } else {
            proof {
                assert(kept.deep_view() =~~= lv.take(j + 1).filter(pred).map_values(
                    |l: LanguageInfo| l.icon@,
                ));
            }
        }
        j += 1;
    }
    proof {
        assert(lv.take(lv.len() as int) =~= lv);
    }
    let sorted = crate::vcs::sort_glyphs(kept);
    proof {
        lemma_lex_total_ordering();
        top_icons(lv).lemma_sort_by_ensures(lex_leq_fn());
        vstd::seq_lib::lemma_sorted_unique(
            sorted.deep_view(),
            top_icons(lv).sort_by(lex_leq_fn()),
            lex_leq_fn(),
        );
    }
    let joined = concat_unique(&sorted);
    let info = chars_string(&joined);
    Some(Chunk::info(info.as_str()))
}

/// Collapses adjacent duplicates of a sorted glyph list and
/// concatenates the rest.
#[verifier::loop_isolation(false)]
fn concat_unique(sorted: &Vec<Vec<char>>) -> (r: Vec<char>)
    ensures
        r@ == join_sep(dedup_adjacent(sorted.deep_view()), Seq::empty()),
{
    let ghost sdv = sorted.deep_view();
    let mut out: Vec<char> = Vec::new();
    let mut kept_n: usize = 0;
    let mut i: usize = 0;
    proof {
        assert(sdv.take(0) =~= Seq::<Seq<char>>::empty());
        assert(dedup_adjacent(sdv.take(0)) =~= Seq::<Seq<char>>::empty());
    }
    while i < sorted.len()
        invariant
            i <= sdv.len(),
            sdv == sorted.deep_view(),
            kept_n <= i,
            kept_n as int == dedup_adjacent(sdv.take(i as int)).len(),
            out@ == join_sep(dedup_adjacent(sdv.take(i as int)), Seq::empty()),
        decreases sdv.len() - i,
    {
        proof {
            crate::text::lemma_chars_dv(&sorted@[i as int]);
            assert(sdv.take(i + 1) =~= sdv.take(i as int).push(sdv[i as int]));
            crate::text::lemma_dedup_push(sdv.take(i as int), sdv[i as int]);
            if i > 0 {
                assert(sdv.take(i as int).last() == sdv[i as int - 1]);
                crate::text::lemma_chars_dv(&sorted@[i as int - 1]);
            }
        }
        if i > 0 && crate::text::chars_eq(&sorted[i], &sorted[i - 1]) {
            proof {
                assert(dedup_adjacent(sdv.take(i + 1)) == dedup_adjacent(sdv.take(i as int)));
            }
        } else {
            proof {
                crate::text::lemma_join_sep_push(
                    dedup_adjacent(sdv.take(i as int)),
                    Seq::empty(),
                    sdv[i as int],
                );
            }
            crate::text::extend_chars(&mut out, &sorted[i]);
            proof {
                if kept_n == 0 {
                    assert(out@ =~= join_sep(dedup_adjacent(sdv.take(i + 1)), Seq::empty()));
                } else {
                    assert(out@ =~= join_sep(
                        dedup_adjacent(sdv.take(i as int)),
                        Seq::<char>::empty(),
                    ) + Seq::<char>::empty() + sdv[i as int]);
                }
            }
            kept_n = kept_n + 1;
        }
        i += 1;
    }
    proof {
        assert(sdv.take(sdv.len() as int) =~= sdv);
    }
    out
}

} // verus!
