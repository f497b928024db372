//! The record cache: one text file per record kind, written with `ron` as a
//! list of rows of optional texts, and read back with a check of each row.
use vstd::prelude::*;

use crate::error::CacheError;
use crate::engines::{engine_texts, EngineText};
use crate::types::Bookmark;
use crate::websearch::Engine;

verus! {

/// The kinds of records that are cached, one file each.
#[derive(Debug, Clone, Copy, PartialEq, Eq, Structural)]
pub enum RecordKind {
    Bookmarks,
    Engines,
}

impl RecordKind {
    /// The name of the kind's cache file, as text.
    pub open spec fn file_name_text(&self) -> Seq<char> {
        match self {
            RecordKind::Bookmarks => "firefox-bookmarks.ron"@,
            RecordKind::Engines => "firefox-engines.ron"@,
        }
    }

    /// The name of the kind's cache file.
    pub fn file_name(&self) -> (r: &'static str)
        ensures
            r@ == self.file_name_text(),
    {
        match self {
            RecordKind::Bookmarks => "firefox-bookmarks.ron",
            RecordKind::Engines => "firefox-engines.ron",
        }
    }
}

/// A row of the cache file: one optional text per field.
pub type Row = Vec<Option<String>>;

pub type RowText = Seq<Option<Seq<char>>>;

/// An optional string as optional text.
pub open spec fn opt_text(o: Option<String>) -> Option<Seq<char>> {
    match o {
        Some(s) => Some(s@),
        None => None,
    }
}

/// A row as optional texts.
pub open spec fn row_text(row: Row) -> RowText {
    Seq::new(row@.len(), |i: int| opt_text(row@[i]))
}

/// Rows as optional texts.
pub open spec fn rows_text(rows: Seq<Row>) -> Seq<RowText> {
    Seq::new(rows.len(), |i: int| row_text(rows[i]))
}

/// `ron::Error`, carried through opaque.
#[verifier::external_type_specification]
#[verifier::external_body]
pub struct ExRonError(ron::Error);

/// `ron::error::SpannedError`, carried through opaque.
#[verifier::external_type_specification]
#[verifier::external_body]
pub struct ExRonSpannedError(ron::error::SpannedError);

/// The text that `ron` writes for the rows (pretty, default settings), or
/// `None` where it fails.
pub uninterp spec fn ron_text(rows: Seq<RowText>) -> Option<Seq<char>>;

/// The rows that `ron` reads out of `text`, or `None` where it fails.
pub uninterp spec fn ron_rows(text: Seq<char>) -> Option<Seq<RowText>>;

/// Relies on `ron::ser::to_string_pretty` with the default `PrettyConfig`.
#[verifier::external_body]
fn ron_encode(rows: &Vec<Row>) -> (r: Result<String, ron::Error>)
    ensures
        r is Ok <==> ron_text(rows_text(rows@)) is Some,
        r is Ok ==> r->Ok_0@ == ron_text(rows_text(rows@))->0,
{
    ron::ser::to_string_pretty(rows, ron::ser::PrettyConfig::default())
}

/// Relies on `ron::from_str` into a list of rows of optional strings.
#[verifier::external_body]
fn ron_decode(text: &str) -> (r: Result<Vec<Row>, ron::error::SpannedError>)
    ensures
        r is Ok <==> ron_rows(text@) is Some,
        r is Ok ==> rows_text(r->Ok_0@) == ron_rows(text@)->0,
{
    ron::from_str(text)
}

/// A bookmark as texts: title, URL, keyword.
pub type BookmarkText = (Option<Seq<char>>, Seq<char>, Option<Seq<char>>);

/// A bookmark's fields as texts.
pub open spec fn bookmark_text(b: Bookmark) -> BookmarkText {
    (opt_text(b.title), b.url@, opt_text(b.keyword))
}

/// Bookmarks as texts, in order.
pub open spec fn bookmark_texts(bs: Seq<Bookmark>) -> Seq<BookmarkText> {
    Seq::new(bs.len(), |i: int| bookmark_text(bs[i]))
}

/// The row that a bookmark is written as.
pub open spec fn bookmark_row(b: BookmarkText) -> RowText {
    seq![b.0, Some(b.1), b.2]
}

/// The bookmark that a row holds: three fields, the URL present.
pub open spec fn row_bookmark(row: RowText) -> Option<BookmarkText> {
    if row.len() == 3 && row[1] is Some {
        Some((row[0], row[1]->0, row[2]))
    } else {
        None
    }
}

/// The bookmarks that the rows hold, where every row holds one.
pub open spec fn rows_bookmarks(rows: Seq<RowText>) -> Option<Seq<BookmarkText>>
    decreases rows.len(),
{
    if rows.len() == 0 {
        Some(Seq::empty())
    } else {
        match (rows_bookmarks(rows.drop_last()), row_bookmark(rows.last())) {
            (Some(bs), Some(b)) => Some(bs.push(b)),
            _ => None,
        }
    }
}

/// The row that an engine is written as.
pub open spec fn engine_row(e: EngineText) -> RowText {
    seq![Some(e.0), Some(e.1), Some(e.2), Some(e.3)]
}

/// The engine that a row holds: four fields, all present.
pub open spec fn row_engine(row: RowText) -> Option<EngineText> {
    if row.len() == 4 && row[0] is Some && row[1] is Some && row[2] is Some && row[3] is Some {
        Some((row[0]->0, row[1]->0, row[2]->0, row[3]->0))
    } else {
        None
    }
}

/// The engines that the rows hold, where every row holds one.
pub open spec fn rows_engines(rows: Seq<RowText>) -> Option<Seq<EngineText>>
    decreases rows.len(),
{
    if rows.len() == 0 {
        Some(Seq::empty())
    } else {
        match (rows_engines(rows.drop_last()), row_engine(rows.last())) {
            (Some(es), Some(e)) => Some(es.push(e)),
            _ => None,
        }
    }
}

/// A copy of an optional string.
fn copy_opt(o: &Option<String>) -> (r: Option<String>)
    ensures
        opt_text(r) == opt_text(*o),
{
    match o {
        Some(s) => Some(s.clone()),
        None => None,
    }
}

/// The cache text for a set of bookmarks; `Corrupt` where `ron` cannot
/// write it.
pub fn encode_bookmarks(bookmarks: &Vec<Bookmark>) -> (r: Result<String, CacheError>)
    ensures
        ({
            let t = ron_text(bookmark_texts(bookmarks@).map_values(|b: BookmarkText| bookmark_row(b)));
            &&& t is Some ==> r is Ok && r->Ok_0@ == t->0
            &&& t is None ==> r == Err::<String, CacheError>(CacheError::Corrupt)
        }),
{
    let mut rows: Vec<Row> = Vec::new();
    let mut i: usize = 0;
    while i < bookmarks.len()
        invariant
            i <= bookmarks@.len(),
            rows_text(rows@) == bookmark_texts(bookmarks@.take(i as int)).map_values(
                |b: BookmarkText| bookmark_row(b),
            ),
        decreases bookmarks.len() - i,
    {
        let b = &bookmarks[i];
        let mut row: Row = Vec::new();
        row.push(copy_opt(&b.title));
        row.push(Some(b.url.clone()));
        row.push(copy_opt(&b.keyword));
        assert(row_text(row) =~= bookmark_row(bookmark_text(*b)));
        let ghost before = rows@;
        rows.push(row);
        assert(rows_text(rows@) =~= rows_text(before).push(row_text(row)));
        assert(bookmark_texts(bookmarks@.take(i + 1)).map_values(|b: BookmarkText| bookmark_row(b))
            =~= bookmark_texts(bookmarks@.take(i as int)).map_values(
            |b: BookmarkText| bookmark_row(b),
        ).push(bookmark_row(bookmark_text(*b))));
        i = i + 1;
    }
    assert(bookmarks@.take(bookmarks@.len() as int) =~= bookmarks@);
    match ron_encode(&rows) {
        Ok(t) => Ok(t),
        Err(_) => Err(CacheError::Corrupt),
    }
}

/// The bookmarks that cache text holds; `Corrupt` where `ron` cannot read
/// it or a row is not a bookmark.
pub fn decode_bookmarks(text: &str) -> (r: Result<Vec<Bookmark>, CacheError>)
    ensures
        match ron_rows(text@) {
            None => r == Err::<Vec<Bookmark>, CacheError>(CacheError::Corrupt),
            Some(rows) => match rows_bookmarks(rows) {
                None => r == Err::<Vec<Bookmark>, CacheError>(CacheError::Corrupt),
                Some(bs) => r is Ok && bookmark_texts(r->Ok_0@) == bs,
            },
        },
{
    let rows = match ron_decode(text) {
        Ok(rows) => rows,
        Err(_) => return Err(CacheError::Corrupt),
    };
    let ghost rt = rows_text(rows@);
    assert(ron_rows(text@) == Some(rt));
    let mut out: Vec<Bookmark> = Vec::new();
    let mut i: usize = 0;
    while i < rows.len()
        invariant
            i <= rows@.len(),
            rt == rows_text(rows@),
            ron_rows(text@) == Some(rt),
            rows_bookmarks(rt.take(i as int)) is Some,
            bookmark_texts(out@) == rows_bookmarks(rt.take(i as int))->0,
        decreases rows.len() - i,
    {
        assert(rt.take(i + 1).drop_last() =~= rt.take(i as int));
        let row = &rows[i];
        assert(row_text(*row) == rt[i as int]);
        if row.len() != 3 {
            proof {
                assert(rt.take(i + 1).last() == rt[i as int]);
                lemma_bookmarks_stay_none(rt, i as int + 1);
            }
            return Err(CacheError::Corrupt);
        }
        let url = match &row[1] {
            Some(u) => u.clone(),
            None => {
                proof {
                    assert(rt.take(i + 1).last() == rt[i as int]);
                lemma_bookmarks_stay_none(rt, i as int + 1);
                }
                return Err(CacheError::Corrupt);
            },
        };
        let b = Bookmark::new(copy_opt(&row[0]), url, copy_opt(&row[2]));
        let ghost before = out@;
        out.push(b);
        assert(bookmark_texts(out@) =~= bookmark_texts(before).push(bookmark_text(b)));
        i = i + 1;
    }
    assert(rt.take(rows@.len() as int) =~= rt);
    Ok(out)
}

/// Once a prefix of the rows holds a row that is not a bookmark, so do all
/// the rows.
proof fn lemma_bookmarks_stay_none(rows: Seq<RowText>, i: int)
    requires
        0 <= i <= rows.len(),
        rows_bookmarks(rows.take(i)) is None,
    ensures
        rows_bookmarks(rows) is None,
    decreases rows.len() - i,
{
    if i < rows.len() {
        assert(rows.take(i + 1).drop_last() =~= rows.take(i));
        lemma_bookmarks_stay_none(rows, i + 1);
    } else {
        assert(rows.take(i) =~= rows);
    }
}

/// The cache text for a set of engines; `Corrupt` where `ron` cannot write
/// it.
pub fn encode_engines(engines: &Vec<Engine>) -> (r: Result<String, CacheError>)
    ensures
        ({
            let t = ron_text(engine_texts(engines@).map_values(|e: EngineText| engine_row(e)));
            &&& t is Some ==> r is Ok && r->Ok_0@ == t->0
            &&& t is None ==> r == Err::<String, CacheError>(CacheError::Corrupt)
        }),
{
    let mut rows: Vec<Row> = Vec::new();
    let mut i: usize = 0;
    while i < engines.len()
        invariant
            i <= engines@.len(),
            rows_text(rows@) == engine_texts(engines@.take(i as int)).map_values(
                |e: EngineText| engine_row(e),
            ),
        decreases engines.len() - i,
    {
        let e = &engines[i];
        let mut row: Row = Vec::new();
        row.push(Some(e.name.clone()));
        row.push(Some(e.url.clone()));
        row.push(Some(e.alias.clone()));
        row.push(Some(e.icon.clone()));
        assert(row_text(row) =~= engine_row((e.name@, e.url@, e.alias@, e.icon@)));
        let ghost before = rows@;
        rows.push(row);
        assert(rows_text(rows@) =~= rows_text(before).push(row_text(row)));
        assert(engine_texts(engines@.take(i + 1)).map_values(|e: EngineText| engine_row(e))
            =~= engine_texts(engines@.take(i as int)).map_values(|e: EngineText| engine_row(e)).push(
            engine_row((e.name@, e.url@, e.alias@, e.icon@)),
        ));
        i = i + 1;
    }
    assert(engines@.take(engines@.len() as int) =~= engines@);
    match ron_encode(&rows) {
        Ok(t) => Ok(t),
        Err(_) => Err(CacheError::Corrupt),
    }
}

/// The engines that cache text holds; `Corrupt` where `ron` cannot read it
/// or a row is not an engine.
pub fn decode_engines(text: &str) -> (r: Result<Vec<Engine>, CacheError>)
    ensures
        match ron_rows(text@) {
            None => r == Err::<Vec<Engine>, CacheError>(CacheError::Corrupt),
            Some(rows) => match rows_engines(rows) {
                None => r == Err::<Vec<Engine>, CacheError>(CacheError::Corrupt),
                Some(es) => r is Ok && engine_texts(r->Ok_0@) == es,
            },
        },
{
    let rows = match ron_decode(text) {
        Ok(rows) => rows,
        Err(_) => return Err(CacheError::Corrupt),
    };
    let ghost rt = rows_text(rows@);
    assert(ron_rows(text@) == Some(rt));
    let mut out: Vec<Engine> = Vec::new();
    let mut i: usize = 0;
    while i < rows.len()
        invariant
            i <= rows@.len(),
            rt == rows_text(rows@),
            ron_rows(text@) == Some(rt),
            rows_engines(rt.take(i as int)) is Some,
            engine_texts(out@) == rows_engines(rt.take(i as int))->0,
        decreases rows.len() - i,
    {
        assert(rt.take(i + 1).drop_last() =~= rt.take(i as int));
        let row = &rows[i];
        assert(row_text(*row) == rt[i as int]);
        if row.len() != 4 {
            proof {
                assert(rt.take(i + 1).last() == rt[i as int]);
                lemma_engines_stay_none(rt, i as int + 1);
            }
            return Err(CacheError::Corrupt);
        }
        match (copy_opt(&row[0]), copy_opt(&row[1]), copy_opt(&row[2]), copy_opt(&row[3])) {
            (Some(name), Some(url), Some(alias), Some(icon)) => {
                let e = Engine { name, url, alias, icon };
                let ghost before = out@;
                out.push(e);
                assert(engine_texts(out@) =~= engine_texts(before).push(
                    (e.name@, e.url@, e.alias@, e.icon@),
                ));
            },
            _ => {
                proof {
                    assert(rt.take(i + 1).last() == rt[i as int]);
                lemma_engines_stay_none(rt, i as int + 1);
                }
                return Err(CacheError::Corrupt);
            },
        }
        i = i + 1;
    }
    assert(rt.take(rows@.len() as int) =~= rt);
    Ok(out)
}

/// Once a prefix of the rows holds a row that is not an engine, so do all
/// the rows.
proof fn lemma_engines_stay_none(rows: Seq<RowText>, i: int)
    requires
        0 <= i <= rows.len(),
        rows_engines(rows.take(i)) is None,
    ensures
        rows_engines(rows) is None,
    decreases rows.len() - i,
{
    if i < rows.len() {
        assert(rows.take(i + 1).drop_last() =~= rows.take(i));
        lemma_engines_stay_none(rows, i + 1);
    } else {
        assert(rows.take(i) =~= rows);
    }
}

/// The cached bookmarks, given what the cache file holds (`None` where
/// there is no file): `NotFound` without a file, `Corrupt` where the text
/// does not decode.
pub fn load_bookmarks(content: Option<&str>) -> (r: Result<Vec<Bookmark>, CacheError>)
    ensures
        content is None ==> r == Err::<Vec<Bookmark>, CacheError>(CacheError::NotFound),
        content is Some ==> match ron_rows(content->0@) {
            None => r == Err::<Vec<Bookmark>, CacheError>(CacheError::Corrupt),
            Some(rows) => match rows_bookmarks(rows) {
                None => r == Err::<Vec<Bookmark>, CacheError>(CacheError::Corrupt),
                Some(bs) => r is Ok && bookmark_texts(r->Ok_0@) == bs,
            },
        },
{
    match content {
        None => Err(CacheError::NotFound),
        Some(text) => decode_bookmarks(text),
    }
}

/// The cached engines, given what the cache file holds (`None` where there
/// is no file): `NotFound` without a file, `Corrupt` where the text does not
/// decode.
pub fn load_engines(content: Option<&str>) -> (r: Result<Vec<Engine>, CacheError>)
    ensures
        content is None ==> r == Err::<Vec<Engine>, CacheError>(CacheError::NotFound),
        content is Some ==> match ron_rows(content->0@) {
            None => r == Err::<Vec<Engine>, CacheError>(CacheError::Corrupt),
            Some(rows) => match rows_engines(rows) {
                None => r == Err::<Vec<Engine>, CacheError>(CacheError::Corrupt),
                Some(es) => r is Ok && engine_texts(r->Ok_0@) == es,
            },
        },
{
    match content {
        None => Err(CacheError::NotFound),
        Some(text) => decode_engines(text),
    }
}

/// Rows written for bookmarks read back as the same bookmarks: whatever
/// text `ron` gives back the rows it was given, the stored set and the
/// loaded set agree.
pub proof fn lemma_bookmark_rows_round_trip(bs: Seq<BookmarkText>)
    ensures
        rows_bookmarks(bs.map_values(|b: BookmarkText| bookmark_row(b))) == Some(bs),
    decreases bs.len(),
{
    if bs.len() > 0 {
        lemma_bookmark_rows_round_trip(bs.drop_last());
        assert(bs.map_values(|b: BookmarkText| bookmark_row(b)).drop_last() =~= bs.drop_last().map_values(
            |b: BookmarkText| bookmark_row(b),
        ));
        assert(bs.drop_last().push(bs.last()) =~= bs);
    } else {
        assert(bs.map_values(|b: BookmarkText| bookmark_row(b)) =~= Seq::<RowText>::empty());
        assert(bs =~= Seq::<BookmarkText>::empty());
    }
}

/// Rows written for engines read back as the same engines.
pub proof fn lemma_engine_rows_round_trip(es: Seq<EngineText>)
    ensures
        rows_engines(es.map_values(|e: EngineText| engine_row(e))) == Some(es),
    decreases es.len(),
{
    if es.len() > 0 {
        lemma_engine_rows_round_trip(es.drop_last());
        assert(es.map_values(|e: EngineText| engine_row(e)).drop_last() =~= es.drop_last().map_values(
            |e: EngineText| engine_row(e),
        ));
        assert(es.drop_last().push(es.last()) =~= es);
    } else {
        assert(es.map_values(|e: EngineText| engine_row(e)) =~= Seq::<RowText>::empty());
        assert(es =~= Seq::<EngineText>::empty());
    }
}

} // verus!
