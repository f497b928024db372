//! Search engines out of the browser's compressed search configuration: an
//! 8-byte magic header, an LZ4 block with its size in front, and a JSON
//! document inside.
use vstd::prelude::*;

use crate::error::ExtractError;
use crate::json::{as_items, as_text, is_true, json_document, member, parse_json, Json};
use crate::text::same_text;
use crate::types::{param_pairs, url_text, ParameterData, UrlData};
use crate::websearch::Engine;

verus! {

/// The length of the magic header in front of the compressed block.
pub const HEADER_LEN: usize = 8;

/// `lz4_flex::block::DecompressError`, carried through opaque.
#[verifier::external_type_specification]
#[verifier::external_body]
pub struct ExDecompressError(lz4_flex::block::DecompressError);

/// The bytes that `lz4_flex` decompresses out of `input` (a little-endian
/// size in four bytes, then an LZ4 block), or `None` where it fails.
pub uninterp spec fn lz4_block(input: Seq<u8>) -> Option<Seq<u8>>;

/// Relies on `lz4_flex::block::decompress_size_prepended`: the decompressed
/// bytes, or an error; input shorter than its four size bytes is an error.
#[verifier::external_body]
fn decompress_block(input: &[u8]) -> (r: Result<Vec<u8>, lz4_flex::block::DecompressError>)
    ensures
        r is Ok <==> lz4_block(input@) is Some,
        r is Ok ==> r->Ok_0@ == lz4_block(input@)->0,
        input@.len() < 4 ==> r is Err,
{
    lz4_flex::block::decompress_size_prepended(input)
}

/// An engine as texts: name, URL, alias, icon.
pub type EngineText = (Seq<char>, Seq<char>, Seq<char>, Seq<char>);

/// An engine's fields as texts.
pub open spec fn engine_text(e: Engine) -> EngineText {
    (e.name@, e.url@, e.alias@, e.icon@)
}

/// Engines as texts, in order.
pub open spec fn engine_texts(es: Seq<Engine>) -> Seq<EngineText> {
    Seq::new(es.len(), |i: int| engine_text(es[i]))
}

/// The member `key` of `j`, where `j` is present.
pub open spec fn member_of(j: Option<Json>, key: Seq<char>) -> Option<Json> {
    match j {
        Some(v) => member(v, key),
        None => None,
    }
}

/// A `{name, value}` parameter object as a pair of texts.
pub open spec fn json_param(j: Json) -> Option<(Seq<char>, Seq<char>)> {
    match (as_text(member(j, "name"@)), as_text(member(j, "value"@))) {
        (Some(n), Some(v)) => Some((n, v)),
        _ => None,
    }
}

/// Parameter objects as pairs of texts, where every one of them is well formed.
pub open spec fn json_params(items: Seq<Json>) -> Option<Seq<(Seq<char>, Seq<char>)>>
    decreases items.len(),
{
    if items.len() == 0 {
        Some(Seq::empty())
    } else {
        match (json_params(items.drop_last()), json_param(items.last())) {
            (Some(ps), Some(p)) => Some(ps.push(p)),
            _ => None,
        }
    }
}

/// The first alias of an engine entry; empty where it has none.
pub open spec fn first_alias(entry: Json) -> Seq<char> {
    match as_items(member(entry, "_definedAliases"@)) {
        Some(a) => if a.len() > 0 {
            match as_text(Some(a[0])) {
                Some(s) => s,
                None => Seq::empty(),
            }
        } else {
            Seq::empty()
        },
        None => Seq::empty(),
    }
}

/// The engine that an entry of the `engines` array describes: none for an
/// engine the browser provides, or for one without a name, an icon, or a
/// first URL entry with a template and well-formed parameters.
pub open spec fn entry_engine(entry: Json) -> Option<EngineText> {
    if is_true(member(entry, "_isAppProvided"@)) {
        None
    } else {
        match (
            as_text(member(entry, "_name"@)),
            as_text(member(entry, "_iconURL"@)),
            as_items(member(entry, "_urls"@)),
        ) {
            (Some(name), Some(icon), Some(urls)) => if urls.len() > 0 {
                match (
                    as_text(member(urls[0], "template"@)),
                    as_items(member(urls[0], "params"@)),
                ) {
                    (Some(t), Some(items)) => match json_params(items) {
                        Some(ps) => Some((name, url_text(t, ps), first_alias(entry), icon)),
                        None => None,
                    },
                    _ => None,
                }
            } else {
                None
            },
            _ => None,
        }
    }
}

/// The engines that the entries describe, in order, malformed and
/// browser-provided ones left out.
pub open spec fn user_engines(entries: Seq<Json>) -> Seq<EngineText>
    decreases entries.len(),
{
    if entries.len() == 0 {
        Seq::empty()
    } else {
        match entry_engine(entries.last()) {
            Some(e) => user_engines(entries.drop_last()).push(e),
            None => user_engines(entries.drop_last()),
        }
    }
}

/// The first engine from index `i` on named `name`.
pub open spec fn index_named(es: Seq<EngineText>, name: Seq<char>, i: int) -> Option<int>
    decreases es.len() - i,
{
    if i < 0 || i >= es.len() {
        None
    } else if es[i].0 == name {
        Some(i)
    } else {
        index_named(es, name, i + 1)
    }
}

/// `es` with the first engine named `current` swapped to the front.
pub open spec fn promote(es: Seq<EngineText>, current: Option<Seq<char>>) -> Seq<EngineText> {
    match current {
        Some(c) => match index_named(es, c, 0) {
            Some(k) => es.update(0, es[k]).update(k, es[0]),
            None => es,
        },
        None => es,
    }
}

/// The name of the default engine that the document records.
pub open spec fn default_name(doc: Json) -> Option<Seq<char>> {
    as_text(member_of(member(doc, "metaData"@), "current"@))
}

/// The user-added engines of a search document, the default one first; `None`
/// where the document has no `engines` array.
pub open spec fn document_engines(doc: Json) -> Option<Seq<EngineText>> {
    match as_items(member(doc, "engines"@)) {
        Some(items) => Some(promote(user_engines(items), default_name(doc))),
        None => None,
    }
}

/// The parameters of a URL entry, where every one is well formed.
fn params_from_json(items: &Vec<Json>) -> (r: Option<Vec<ParameterData>>)
    ensures
        r is Some <==> json_params(items@) is Some,
        r is Some ==> param_pairs(r->0@) == json_params(items@)->0,
{
    let mut ps: Vec<ParameterData> = Vec::new();
    let mut i: usize = 0;
    while i < items.len()
        invariant
            i <= items@.len(),
            json_params(items@.take(i as int)) is Some,
            param_pairs(ps@) == json_params(items@.take(i as int))->0,
        decreases items.len() - i,
    {
        assert(items@.take(i + 1).drop_last() =~= items@.take(i as int));
        let item = &items[i];
        let name = match item.get("name") {
            Some(v) => v.text(),
            None => None,
        };
        let value = match item.get("value") {
            Some(v) => v.text(),
            None => None,
        };
        match (name, value) {
            (Some(n), Some(v)) => {
                let ghost before = ps@;
                ps.push(ParameterData::new(n.clone(), v.clone()));
                assert(param_pairs(ps@) =~= param_pairs(before).push((n@, v@)));
            },
            _ => {
                assert(json_params(items@.take(i + 1)) is None);
                proof {
                    lemma_params_stay_none(items@, i as int + 1);
                }
                return None;
            },
        }
        i = i + 1;
    }
    assert(items@.take(items@.len() as int) =~= items@);
    Some(ps)
}

/// Once a prefix holds a malformed parameter, so does every longer one.
proof fn lemma_params_stay_none(items: Seq<Json>, i: int)
    requires
        0 <= i <= items.len(),
        json_params(items.take(i)) is None,
    ensures
        json_params(items) is None,
    decreases items.len() - i,
{
    if i < items.len() {
        assert(items.take(i + 1).drop_last() =~= items.take(i));
        lemma_params_stay_none(items, i + 1);
    } else {
        assert(items.take(i) =~= items);
    }
}

/// The first alias of an engine entry, empty where it has none.
fn alias_from_json(entry: &Json) -> (r: String)
    ensures
        r@ == first_alias(*entry),
{
    match entry.get("_definedAliases") {
        Some(a) => match a.items() {
            Some(items) => {
                if items.len() > 0 {
                    match items[0].text() {
                        Some(s) => s.clone(),
                        None => String::new(),
                    }
                } else {
                    String::new()
                }
            },
            None => String::new(),
        },
        None => String::new(),
    }
}

/// The engine that one entry of the `engines` array describes, if it is a
/// well-formed user-added one.
pub fn engine_from_entry(entry: &Json) -> (r: Option<Engine>)
    ensures
        r is Some <==> entry_engine(*entry) is Some,
        r is Some ==> engine_text(r->0) == entry_engine(*entry)->0,
{
    if let Some(flag) = entry.get("_isAppProvided") {
        if flag.is_true() {
            return None;
        }
    }
    let name = match entry.get("_name") {
        Some(v) => match v.text() {
            Some(s) => s,
            None => return None,
        },
        None => return None,
    };
    let icon = match entry.get("_iconURL") {
        Some(v) => match v.text() {
            Some(s) => s,
            None => return None,
        },
        None => return None,
    };
    let urls = match entry.get("_urls") {
        Some(v) => match v.items() {
            Some(a) => a,
            None => return None,
        },
        None => return None,
    };
    if urls.len() == 0 {
        return None;
    }
    let first = &urls[0];
    let template = match first.get("template") {
        Some(v) => match v.text() {
            Some(s) => s,
            None => return None,
        },
        None => return None,
    };
    let items = match first.get("params") {
        Some(v) => match v.items() {
            Some(a) => a,
            None => return None,
        },
        None => return None,
    };
    let params = match params_from_json(items) {
        Some(ps) => ps,
        None => return None,
    };
    let url_data = UrlData::new(params, template.clone());
    let url = url_data.url();
    let alias = alias_from_json(entry);
    Some(Engine { name: name.clone(), url, alias, icon: icon.clone() })
}

/// Moves the first engine named `current` to the front, and the front one
/// to where it stood.
pub fn promote_default(engines: &mut Vec<Engine>, current: &str)
    ensures
        engine_texts(final(engines)@) == promote(engine_texts(old(engines)@), Some(current@)),
{
    let ghost es = engine_texts(engines@);
    let n = engines.len();
    let mut k: usize = 0;
    while k < n
        invariant
            n == engines@.len(),
            k <= n,
            es == engine_texts(engines@),
            es == engine_texts(old(engines)@),
            index_named(es, current@, 0) == index_named(es, current@, k as int),
        decreases n - k,
    {
        if same_text(engines[k].name.as_str(), current) {
            assert(index_named(es, current@, k as int) == Some(k as int));
            if k > 0 {
                let a = engines.remove(k);
                let b = engines.remove(0);
                engines.insert(0, a);
                engines.insert(k, b);
                assert(engine_texts(engines@) =~= es.update(0, es[k as int]).update(
                    k as int,
                    es[0],
                ));
            } else {
                assert(es.update(0, es[0]).update(0, es[0]) =~= es);
            }
            return;
        }
        k = k + 1;
    }
}

/// The user-added engines that a search document lists, the default engine
/// first; `MalformedSchema` where it has no `engines` array.
pub fn engines_from_json(doc: &Json) -> (r: Result<Vec<Engine>, ExtractError>)
    ensures
        document_engines(*doc) is None ==> r == Err::<Vec<Engine>, ExtractError>(
            ExtractError::MalformedSchema,
        ),
        document_engines(*doc) is Some ==> r is Ok && engine_texts(r->Ok_0@) == document_engines(
            *doc,
        )->0,
{
    let items = match doc.get("engines") {
        Some(v) => match v.items() {
            Some(a) => a,
            None => return Err(ExtractError::MalformedSchema),
        },
        None => return Err(ExtractError::MalformedSchema),
    };
    let mut out: Vec<Engine> = Vec::new();
    let mut i: usize = 0;
    while i < items.len()
        invariant
            i <= items@.len(),
            engine_texts(out@) == user_engines(items@.take(i as int)),
        decreases items.len() - i,
    {
        assert(items@.take(i + 1).drop_last() =~= items@.take(i as int));
        match engine_from_entry(&items[i]) {
            Some(e) => {
                let ghost before = out@;
                out.push(e);
                assert(engine_texts(out@) =~= engine_texts(before).push(engine_text(e)));
            },
            None => {},
        }
        i = i + 1;
    }
    assert(items@.take(items@.len() as int) =~= items@);
    let current = match doc.get("metaData") {
        Some(m) => match m.get("current") {
            Some(c) => c.text(),
            None => None,
        },
        None => None,
    };
    match current {
        Some(c) => promote_default(&mut out, c.as_str()),
        None => {},
    }
    Ok(out)
}

/// What `extract_search_engines` gives for the bytes of a search
/// configuration file.
pub open spec fn extracted_engines(file: Seq<u8>) -> Result<Seq<EngineText>, ExtractError> {
    if file.len() < HEADER_LEN {
        Err(ExtractError::DecompressFailed)
    } else {
        match lz4_block(file.subrange(HEADER_LEN as int, file.len() as int)) {
            None => Err(ExtractError::DecompressFailed),
            Some(text) => match json_document(text) {
                None => Err(ExtractError::MalformedSchema),
                Some(doc) => match document_engines(doc) {
                    None => Err(ExtractError::MalformedSchema),
                    Some(es) => Ok(es),
                },
            },
        }
    }
}

/// The user-added search engines of a search configuration file: the header
/// skipped, the block decompressed, the JSON parsed, the default engine
/// first.
pub fn extract_search_engines(file: &[u8]) -> (r: Result<Vec<Engine>, ExtractError>)
    ensures
        match extracted_engines(file@) {
            Ok(es) => r is Ok && engine_texts(r->Ok_0@) == es,
            Err(e) => r == Err::<Vec<Engine>, ExtractError>(e),
        },
{
    if file.len() < HEADER_LEN {
        return Err(ExtractError::DecompressFailed);
    }
    let (_, block) = file.split_at(HEADER_LEN);
    assert(block@ == file@.subrange(HEADER_LEN as int, file@.len() as int));
    let text = match decompress_block(block) {
        Ok(t) => t,
        Err(_) => return Err(ExtractError::DecompressFailed),
    };
    let doc = match parse_json(text.as_slice()) {
        Ok(d) => d,
        Err(_) => return Err(ExtractError::MalformedSchema),
    };
    engines_from_json(&doc)
}

} // verus!
