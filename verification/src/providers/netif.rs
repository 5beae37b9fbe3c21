//! The network-interface provider: the names of the interfaces that
//! are up, deduplicated, sorted, and joined by commas.

use vstd::prelude::*;

use crate::chunk::{opt_chunk_view, Chunk, ChunkView};
use crate::options::Options;
use crate::text::{
    chars_eq, chars_string, dedup_adjacent, extend_chars, join_sep, lemma_dedup_push,
    lemma_join_sep_push, lemma_lex_total_ordering, lex_leq_fn, str_chars,
};

verus! {

/// The names of the interfaces that are up, in listing order.
pub open spec fn up_names(ifs: Seq<(String, bool)>) -> Seq<Seq<char>> {
    ifs.filter(|p: (String, bool)| p.1).map_values(|p: (String, bool)| p.0@)
}

/// The rendered interface list: up names, sorted, duplicates
/// collapsed, joined by commas.
pub open spec fn netif_info_spec(ifs: Seq<(String, bool)>) -> Seq<char> {
    join_sep(dedup_adjacent(up_names(ifs).sort_by(lex_leq_fn())), ","@)
}

pub open spec fn netif_spec(enabled: bool, ifs: Option<Seq<(String, bool)>>) -> Option<
    ChunkView,
> {
    if !enabled {
        None
    } else {
        match ifs {
            None => None,
            Some(list) => Some(
                ChunkView { icon: Some("󰛳"@), info: Some(netif_info_spec(list)) },
            ),
        }
    }
}

pub open spec fn opt_ifs_view(o: Option<Vec<(String, bool)>>) -> Option<Seq<(String, bool)>> {
    match o {
        Some(v) => Some(v@),
        None => None,
    }
}

/// Renders the interface segment from the observed `(name, is up)`
/// listing; `None` when the listing could not be taken.
#[verifier::loop_isolation(false)]
pub fn show(opts: &Options, ifs: &Option<Vec<(String, bool)>>) -> (r: Option<Chunk>)
    ensures
        opt_chunk_view(r) == netif_spec(opts.netif, opt_ifs_view(*ifs)),
{
    if !opts.netif {
        return None;
    }
    let list = match ifs {
        None => {
            return None;
        },
        Some(list) => list,
    };
    let ghost lv = list@;
    let ghost pred = |p: (String, bool)| p.1;
    let mut kept: Vec<Vec<char>> = Vec::new();
    let mut i: usize = 0;
    proof {
        reveal(Seq::filter);
        assert(lv.take(0) =~= Seq::<(String, bool)>::empty());
        assert(kept.deep_view() =~~= lv.take(0).filter(pred).map_values(
            |p: (String, bool)| p.0@,
        ));
    }
    while i < list.len()
        invariant
            i <= lv.len(),
            lv == list@,
            kept.deep_view() == lv.take(i as int).filter(pred).map_values(
                |p: (String, bool)| p.0@,
            ),
        decreases lv.len() - i,
    {
        proof {
            reveal(Seq::filter);
            assert(lv.take(i + 1).drop_last() =~= lv.take(i as int));
            assert(lv.take(i + 1).last() == lv[i as int]);
        }
        if list[i].1 {
            let namev = str_chars(list[i].0.as_str());
            let ghost old_kept = kept;
            let ghost nv = namev@;
            kept.push(namev);
            proof {
                crate::text::lemma_dv_push(&old_kept, &kept, &kept@[kept@.len() - 1]);
                assert(kept.deep_view() =~~= lv.take(i + 1).filter(pred).map_values(
                    |p: (String, bool)| p.0@,
                ));
            }
        } else {
            proof {
                assert(kept.deep_view() =~~= lv.take(i + 1).filter(pred).map_values(
                    |p: (String, bool)| p.0@,
                ));
            }
        }
        i += 1;
    }
    proof {
        assert(lv.take(lv.len() as int) =~= lv);
    }
    let sorted = crate::vcs::sort_glyphs(kept);
    proof {
        lemma_lex_total_ordering();
        up_names(lv).lemma_sort_by_ensures(lex_leq_fn());
        vstd::seq_lib::lemma_sorted_unique(
            sorted.deep_view(),
            up_names(lv).sort_by(lex_leq_fn()),
            lex_leq_fn(),
        );
    }
    let joined = dedup_join(&sorted, ',');
    proof {
        reveal_strlit(",");
        assert(seq![','] =~= ","@);
    }
    let info = chars_string(&joined);
    Some(Chunk::new("󰛳", info.as_str()))
}

/// Collapses adjacent duplicates of a sorted glyph list and joins the
/// rest with the separator.
#[verifier::loop_isolation(false)]
pub(crate) fn dedup_join(sorted: &Vec<Vec<char>>, sep: char) -> (r: Vec<char>)
    ensures
        r@ == join_sep(dedup_adjacent(sorted.deep_view()), seq![sep]),
{
    let ghost sdv = sorted.deep_view();
    let mut out: Vec<char> = Vec::new();
    let mut kept_n: usize = 0;
    let mut i: usize = 0;
    proof {
        assert(sdv.take(0) =~= Seq::<Seq<char>>::empty());
        assert(dedup_adjacent(sdv.take(0)) =~= Seq::<Seq<char>>::empty());
    }
    while i < sorted.len()
        invariant
            i <= sdv.len(),
            sdv == sorted.deep_view(),
            kept_n <= i,
            kept_n as int == dedup_adjacent(sdv.take(i as int)).len(),
            i > 0 ==> kept_n >= 1,
            out@ == join_sep(dedup_adjacent(sdv.take(i as int)), seq![sep]),
        decreases sdv.len() - i,
    {
        proof {
            crate::text::lemma_chars_dv(&sorted@[i as int]);
            assert(sdv.take(i + 1) =~= sdv.take(i as int).push(sdv[i as int]));
            lemma_dedup_push(sdv.take(i as int), sdv[i as int]);
            if i > 0 {
                assert(sdv.take(i as int).last() == sdv[i as int - 1]);
                crate::text::lemma_chars_dv(&sorted@[i as int - 1]);
            }
        }
        if i > 0 && chars_eq(&sorted[i], &sorted[i - 1]) {
            proof {
                assert(dedup_adjacent(sdv.take(i + 1)) == dedup_adjacent(sdv.take(i as int)));
            }
        } else {
            proof {
                lemma_join_sep_push(
                    dedup_adjacent(sdv.take(i as int)),
                    seq![sep],
                    sdv[i as int],
                );
            }
            if kept_n > 0 {
                out.push(sep);
            }
            crate::text::extend_chars(&mut out, &sorted[i]);
            proof {
                if kept_n == 0 {
                    assert(out@ =~= join_sep(dedup_adjacent(sdv.take(i + 1)), seq![sep]));
                } else {
                    assert(out@ =~= join_sep(dedup_adjacent(sdv.take(i as int)), seq![sep])
                        + seq![sep] + sdv[i as int]);
                }
            }
            kept_n = kept_n + 1;
        }
        i += 1;
    }
    proof {
        assert(sdv.take(sdv.len() as int) =~= sdv);
    }
    out
}

} // verus!
