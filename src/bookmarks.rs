//! Bookmarks as the launcher uses them: rows of the bookmark query turned
//! into records, and the records that a line of input selects.
use vstd::prelude::*;

use crate::config::{Bib, Config};
use crate::rank::{is_ranking, rank, scores_for, texts_of};
use crate::text::{same_text, strip_prefix, trim, trimmed};
use crate::types::Bookmark;

verus! {

/// The titles that the bookmarks show.
pub open spec fn bookmark_titles(bms: Seq<Bookmark>) -> Seq<Seq<char>> {
    Seq::new(bms.len(), |i: int| bms[i].shown_title())
}

/// The first bookmark from index `i` on whose keyword is non-empty and is
/// exactly `input`.
pub open spec fn keyword_hit(bms: Seq<Bookmark>, input: Seq<char>, i: int) -> Option<int>
    decreases bms.len() - i,
{
    if i < 0 || i >= bms.len() {
        None
    } else if bms[i].keyword is Some && bms[i].keyword->0@.len() > 0 && bms[i].keyword->0@
        == input {
        Some(i)
    } else {
        keyword_hit(bms, input, i + 1)
    }
}

/// `t` is one of `names`.
pub open spec fn is_listed(t: Seq<char>, names: Seq<String>) -> bool {
    exists|k: int| 0 <= k < names.len() && names[k]@ == t
}

/// The indices of the bookmarks whose titles are among `names`, in order.
pub open spec fn listed(bms: Seq<Bookmark>, names: Seq<String>) -> Seq<usize>
    decreases bms.len(),
{
    if bms.len() == 0 {
        Seq::empty()
    } else if is_listed(bms.last().shown_title(), names) {
        listed(bms.drop_last(), names).push((bms.len() - 1) as usize)
    } else {
        listed(bms.drop_last(), names)
    }
}

/// What blank input shows under `bib`: the first `limit` bookmarks, none, or
/// the first `limit` of those listed.
pub open spec fn blank_selection(bms: Seq<Bookmark>, bib: Bib, limit: usize) -> Seq<usize> {
    match bib {
        Bib::All => Seq::new(
            if bms.len() < limit {
                bms.len()
            } else {
                limit as nat
            },
            |i: int| i as usize,
        ),
        Bib::Nothing => Seq::empty(),
        Bib::Currated(v) => {
            let l = listed(bms, v@);
            l.take(
                if l.len() < limit {
                    l.len() as int
                } else {
                    limit as int
                },
            )
        },
    }
}

/// The bookmarks that the rows hold, in order; a row that could not be read
/// (`None`) is left out.
pub open spec fn rows_kept(rows: Seq<Option<(Option<String>, String, Option<String>)>>) -> Seq<
    (Option<String>, String, Option<String>),
>
    decreases rows.len(),
{
    if rows.len() == 0 {
        Seq::empty()
    } else {
        match rows.last() {
            Some(row) => rows_kept(rows.drop_last()).push(row),
            None => rows_kept(rows.drop_last()),
        }
    }
}

/// The bookmarks of the rows that could be read, in order.
pub fn bookmarks_from_rows(rows: Vec<Option<(Option<String>, String, Option<String>)>>) -> (r: Vec<
    Bookmark,
>)
    ensures
        r@.len() == rows_kept(rows@).len(),
        forall|k: int|
            0 <= k < r@.len() ==> (#[trigger] r@[k]).title == rows_kept(rows@)[k].0 && r@[k].url
                == rows_kept(rows@)[k].1 && r@[k].keyword == rows_kept(rows@)[k].2,
{
    let ghost all = rows@;
    let mut rows = rows;
    let mut out: Vec<Bookmark> = Vec::new();
    let n = rows.len();
    let mut i: usize = 0;
    // Take the rows off the back, then put the kept ones in input order.
    let mut kept_rev: Vec<(Option<String>, String, Option<String>)> = Vec::new();
    assert(all.take(n as int) =~= all);
    assert(rows_kept(all) + kept_rev@.reverse() =~= rows_kept(all));
    while i < n
        invariant
            n == all.len(),
            i <= n,
            rows@ == all.take(n - i),
            rows_kept(all) == rows_kept(all.take(n - i)) + kept_rev@.reverse(),
        decreases n - i,
    {
        let ghost before = kept_rev@;
        assert(all.take(n - i).drop_last() =~= all.take(n - i - 1));
        let row = rows.pop().unwrap();
        assert(rows@ =~= all.take(n - i - 1));
        match row {
            Some(t) => {
                kept_rev.push(t);
                assert(kept_rev@.reverse() =~= seq![t] + before.reverse());
            },
            None => {},
        }
        i = i + 1;
    }
    assert(all.take(0) =~= Seq::<Option<(Option<String>, String, Option<String>)>>::empty());
    assert(rows_kept(all) =~= kept_rev@.reverse());
    let m = kept_rev.len();
    let mut j: usize = 0;
    while j < m
        invariant
            m == kept_rev@.len() + j,
            j <= m,
            out@.len() == j,
            rows_kept(all).len() == m,
            kept_rev@.reverse() =~= rows_kept(all).subrange(j as int, m as int),
            forall|k: int|
                0 <= k < j ==> (#[trigger] out@[k]).title == rows_kept(all)[k].0 && out@[k].url
                    == rows_kept(all)[k].1 && out@[k].keyword == rows_kept(all)[k].2,
        decreases m - j,
    {
        let ghost before = kept_rev@;
        let (title, url, keyword) = kept_rev.pop().unwrap();
        assert(before.reverse()[0] == (title, url, keyword));
        assert(kept_rev@.reverse() =~= before.reverse().subrange(1, before.len() as int));
        out.push(Bookmark::new(title, url, keyword));
        j = j + 1;
    }
    out
}

/// The index of the first bookmark whose non-empty keyword is `input`.
pub fn keyword_match(bookmarks: &Vec<Bookmark>, input: &str) -> (r: Option<usize>)
    ensures
        r is Some <==> keyword_hit(bookmarks@, input@, 0) is Some,
        r is Some ==> r->0 as int == keyword_hit(bookmarks@, input@, 0)->0,
{
    let mut i: usize = 0;
    while i < bookmarks.len()
        invariant
            i <= bookmarks@.len(),
            keyword_hit(bookmarks@, input@, 0) == keyword_hit(bookmarks@, input@, i as int),
        decreases bookmarks.len() - i,
    {
        let b = &bookmarks[i];
        match &b.keyword {
            Some(k) => {
                if k.as_str().unicode_len() > 0 && same_text(k.as_str(), input) {
                    return Some(i);
                }
            },
            None => {},
        }
        i = i + 1;
    }
    None
}

/// Whether `t` is one of `names`.
fn title_listed(t: &str, names: &Vec<String>) -> (r: bool)
    ensures
        r == is_listed(t@, names@),
{
    let mut k: usize = 0;
    while k < names.len()
        invariant
            k <= names@.len(),
            forall|m: int| 0 <= m < k ==> names@[m]@ != t@,
        decreases names.len() - k,
    {
        if same_text(names[k].as_str(), t) {
            return true;
        }
        k = k + 1;
    }
    false
}

/// What blank input shows under `bib`, at most `limit` bookmarks.
pub fn blank_matches(bookmarks: &Vec<Bookmark>, bib: &Bib, limit: usize) -> (r: Vec<usize>)
    ensures
        r@ == blank_selection(bookmarks@, *bib, limit),
{
    let mut r: Vec<usize> = Vec::new();
    match bib {
        Bib::All => {
            let m = if bookmarks.len() < limit {
                bookmarks.len()
            } else {
                limit
            };
            let mut i: usize = 0;
            while i < m
                invariant
                    i <= m,
                    r@ == Seq::new(i as nat, |k: int| k as usize),
                decreases m - i,
            {
                r.push(i);
                i = i + 1;
                assert(r@ =~= Seq::new(i as nat, |k: int| k as usize));
            }
            assert(r@ =~= blank_selection(bookmarks@, *bib, limit));
        },
        Bib::Nothing => {
            assert(r@ =~= blank_selection(bookmarks@, *bib, limit));
        },
        Bib::Currated(names) => {
            let n = bookmarks.len();
            let mut all: Vec<usize> = Vec::new();
            let mut i: usize = 0;
            while i < n
                invariant
                    n == bookmarks@.len(),
                    i <= n,
                    all@ == listed(bookmarks@.take(i as int), names@),
                decreases n - i,
            {
                assert(bookmarks@.take(i + 1).drop_last() =~= bookmarks@.take(i as int));
                if title_listed(bookmarks[i].title(), names) {
                    all.push(i);
                }
                i = i + 1;
            }
            assert(bookmarks@.take(n as int) =~= bookmarks@);
            let m = if all.len() < limit {
                all.len()
            } else {
                limit
            };
            let mut k: usize = 0;
            while k < m
                invariant
                    m <= all@.len(),
                    k <= m,
                    r@ == all@.take(k as int),
                decreases m - k,
            {
                r.push(all[k]);
                k = k + 1;
                assert(r@ =~= all@.take(k as int));
            }
        },
    }
    r
}

/// Ranks the bookmarks' titles against `stripped_input`: the indices of at
/// most `max_entries` matching bookmarks, best first, ties in input order.
pub fn fuzzy_match_bookmarks(bookmarks: &Vec<Bookmark>, stripped_input: &str, max_entries: usize) -> (r:
    Vec<usize>)
    ensures
        is_ranking(scores_for(bookmark_titles(bookmarks@), stripped_input@), r@, max_entries as nat),
{
    let mut titles: Vec<String> = Vec::new();
    let mut i: usize = 0;
    while i < bookmarks.len()
        invariant
            i <= bookmarks@.len(),
            texts_of(titles@) == bookmark_titles(bookmarks@.take(i as int)),
        decreases bookmarks.len() - i,
    {
        let t = bookmarks[i].title().to_owned();
        assert(t@ == bookmarks@[i as int].shown_title());
        let ghost before = titles@;
        titles.push(t);
        assert(texts_of(titles@) =~= texts_of(before).push(t@));
        assert(bookmark_titles(bookmarks@.take(i + 1)) =~= bookmark_titles(
            bookmarks@.take(i as int),
        ).push(bookmarks@[i as int].shown_title()));
        i = i + 1;
    }
    assert(bookmarks@.take(bookmarks@.len() as int) =~= bookmarks@);
    rank(&titles, stripped_input, max_entries)
}

/// The bookmarks that `input` selects: the one whose keyword it is; else,
/// where it starts with the configured prefix, the blank-input policy for an
/// empty query or the fuzzy ranking of the query.
pub fn bookmark_matches(input: &str, config: &Config, bookmarks: &Vec<Bookmark>) -> (r: Vec<usize>)
    ensures
        keyword_hit(bookmarks@, input@, 0) is Some ==> r@ == seq![
            keyword_hit(bookmarks@, input@, 0)->0 as usize,
        ],
        keyword_hit(bookmarks@, input@, 0) is None && !config.prefix_text().is_prefix_of(input@)
            ==> r@.len() == 0,
        keyword_hit(bookmarks@, input@, 0) is None && config.prefix_text().is_prefix_of(input@)
            && trimmed(input@.subrange(config.prefix_text().len() as int, input@.len() as int)).len()
            == 0 ==> r@ == blank_selection(bookmarks@, config.blank_policy(), config.entry_limit()),
        keyword_hit(bookmarks@, input@, 0) is None && config.prefix_text().is_prefix_of(input@)
            && trimmed(input@.subrange(config.prefix_text().len() as int, input@.len() as int)).len()
            > 0 ==> is_ranking(
            scores_for(
                bookmark_titles(bookmarks@),
                trimmed(input@.subrange(config.prefix_text().len() as int, input@.len() as int)),
            ),
            r@,
            config.entry_limit() as nat,
        ),
{
    if let Some(i) = keyword_match(bookmarks, input) {
        let mut r: Vec<usize> = Vec::new();
        r.push(i);
        assert(r@ =~= seq![i]);
        return r;
    }
    let rest = match strip_prefix(input, config.prefix()) {
        Some(rest) => rest,
        None => return Vec::new(),
    };
    let query = trim(rest);
    if query.unicode_len() == 0 {
        return blank_matches(bookmarks, config.bib(), config.max_entries());
    }
    fuzzy_match_bookmarks(bookmarks, query, config.max_entries())
}

} // verus!
