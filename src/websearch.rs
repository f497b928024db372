//! Search engines as the launcher uses them: picking the engine that the
//! user's input selects by alias, and building the URL to open.
use vstd::prelude::*;

use crate::text::{replace_text, replaced, strip_prefix, trim, trimmed};

verus! {

/// A user-added search engine: its full URL holds the `{searchTerms}`
/// placeholder.
pub struct Engine {
    pub name: String,
    pub url: String,
    pub alias: String,
    pub icon: String,
}

impl Engine {
    pub fn new(name: &str, url: &str, alias: &str, icon: &str) -> (r: Self)
        ensures
            r.name@ == name@,
            r.url@ == url@,
            r.alias@ == alias@,
            r.icon@ == icon@,
    {
        Engine {
            name: name.to_owned(),
            url: url.to_owned(),
            alias: alias.to_owned(),
            icon: icon.to_owned(),
        }
    }
}

/// The query that remains of `input` once `prefix` is taken off its front and
/// whitespace off both ends.
pub open spec fn query_after(input: Seq<char>, prefix: Seq<char>) -> Seq<char> {
    trimmed(input.subrange(prefix.len() as int, input.len() as int))
}

/// The first engine from index `i` on whose alias is non-empty and starts
/// `query`.
pub open spec fn first_aliased(engines: Seq<Engine>, query: Seq<char>, i: int) -> Option<int>
    decreases engines.len() - i,
{
    if i < 0 || i >= engines.len() {
        None
    } else if engines[i].alias@.len() > 0 && engines[i].alias@.is_prefix_of(query) {
        Some(i)
    } else {
        first_aliased(engines, query, i + 1)
    }
}

/// The engines without an alias, each with the whole query.
pub open spec fn unaliased(engines: Seq<Engine>, query: Seq<char>) -> Seq<(usize, Seq<char>)>
    decreases engines.len(),
{
    if engines.len() == 0 {
        Seq::empty()
    } else if engines.last().alias@.len() == 0 {
        unaliased(engines.drop_last(), query).push(((engines.len() - 1) as usize, trimmed(query)))
    } else {
        unaliased(engines.drop_last(), query)
    }
}

/// What `engine_matches` returns: the engine to search with and the terms to
/// search for.
pub open spec fn engine_selection(engines: Seq<Engine>, input: Seq<char>, prefix: Seq<char>) -> Seq<
    (usize, Seq<char>),
> {
    let query = query_after(input, prefix);
    if !prefix.is_prefix_of(input) || query.len() == 0 {
        Seq::empty()
    } else {
        match first_aliased(engines, query, 0) {
            Some(i) => seq![
                (
                    i as usize,
                    trimmed(query.subrange(engines[i].alias@.len() as int, query.len() as int)),
                ),
            ],
            None => unaliased(engines, query),
        }
    }
}

/// (index, terms) pairs with the terms as text.
pub open spec fn pairs_view(r: Seq<(usize, String)>) -> Seq<(usize, Seq<char>)> {
    Seq::new(r.len(), |k: int| (r[k].0, r[k].1@))
}

/// Selects engines for `input`: nothing where it lacks `prefix` or holds no
/// query; else the first engine whose non-empty alias starts the query, with
/// the query past the alias; else every engine without an alias, with the
/// whole query.
pub fn engine_matches(input: &str, prefix: &str, engines: &Vec<Engine>) -> (r: Vec<(usize, String)>)
    ensures
        pairs_view(r@) == engine_selection(engines@, input@, prefix@),
{
    let mut r: Vec<(usize, String)> = Vec::new();
    let rest = match strip_prefix(input, prefix) {
        Some(rest) => rest,
        None => {
            assert(pairs_view(r@) =~= Seq::<(usize, Seq<char>)>::empty());
            return r;
        },
    };
    let query = trim(rest);
    let ghost q = query@;
    if query.unicode_len() == 0 {
        assert(pairs_view(r@) =~= Seq::<(usize, Seq<char>)>::empty());
        return r;
    }
    let n = engines.len();
    let mut i: usize = 0;
    while i < n
        invariant
            n == engines@.len(),
            i <= n,
            q == query@,
            q == query_after(input@, prefix@),
            prefix@.is_prefix_of(input@),
            q.len() > 0,
            r@.len() == 0,
            first_aliased(engines@, q, 0) == first_aliased(engines@, q, i as int),
        decreases n - i,
    {
        let e = &engines[i];
        if e.alias.unicode_len() > 0 {
            if let Some(after) = strip_prefix(query, e.alias.as_str()) {
                let terms = trim(after);
                assert(first_aliased(engines@, q, i as int) == Some(i as int));
                r.push((i, terms.to_owned()));
                assert(pairs_view(r@) =~= engine_selection(engines@, input@, prefix@));
                return r;
            }
        }
        i = i + 1;
    }
    let mut j: usize = 0;
    assert(pairs_view(r@) =~= unaliased(engines@.take(0), q));
    while j < n
        invariant
            n == engines@.len(),
            j <= n,
            q == query@,
            q.len() > 0,
            pairs_view(r@) == unaliased(engines@.take(j as int), q),
        decreases n - j,
    {
        assert(engines@.take(j + 1).drop_last() =~= engines@.take(j as int));
        let e = &engines[j];
        if e.alias.unicode_len() == 0 {
            let terms = trim(query);
            let ghost before = r@;
            r.push((j, terms.to_owned()));
            assert(pairs_view(r@) =~= pairs_view(before).push((j, trimmed(q))));
        }
        j = j + 1;
    }
    assert(engines@.take(n as int) =~= engines@);
    r
}

/// The placeholder that a search URL holds for the terms.
pub open spec fn placeholder() -> Seq<char> {
    "{searchTerms}"@
}

/// The URL that searches `engine` for `terms`: every placeholder in the
/// engine's URL replaced by the terms.
pub fn activation_url(engine: &Engine, terms: &str) -> (r: String)
    ensures
        r@ == replaced(engine.url@, placeholder(), terms@),
{
    proof {
        reveal_strlit("{searchTerms}");
    }
    replace_text(engine.url.as_str(), "{searchTerms}", terms)
}

} // verus!
