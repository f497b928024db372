//! The records read out of a browser profile.
use vstd::prelude::*;

verus! {

/// A bookmark: the URL is the only field it must have.
pub struct Bookmark {
    pub title: Option<String>,
    pub url: String,
    pub keyword: Option<String>,
}

impl Bookmark {
    /// The text shown for the bookmark: its title, or its URL where it has
    /// none.
    pub open spec fn shown_title(&self) -> Seq<char> {
        match self.title {
            Some(t) => t@,
            None => self.url@,
        }
    }

    pub fn new(title: Option<String>, url: String, keyword: Option<String>) -> (r: Self)
        ensures
            r.title == title,
            r.url == url,
            r.keyword == keyword,
    {
        Bookmark { title, url, keyword }
    }

    /// The title, or the URL where there is no title.
    pub fn title(&self) -> (r: &str)
        ensures
            r@ == self.shown_title(),
    {
        match &self.title {
            Some(t) => t.as_str(),
            None => self.url.as_str(),
        }
    }

    pub fn url(&self) -> (r: &str)
        ensures
            r@ == self.url@,
    {
        self.url.as_str()
    }

    pub fn keyword(&self) -> (r: &Option<String>)
        ensures
            *r == self.keyword,
    {
        &self.keyword
    }
}

/// One static query parameter of a search URL.
pub struct ParameterData {
    pub name: String,
    pub value: String,
}

impl ParameterData {
    pub fn new(name: String, value: String) -> (r: Self)
        ensures
            r.name == name,
            r.value == value,
    {
        ParameterData { name, value }
    }

    pub fn name(&self) -> (r: &str)
        ensures
            r@ == self.name@,
    {
        self.name.as_str()
    }

    pub fn value(&self) -> (r: &str)
        ensures
            r@ == self.value@,
    {
        self.value.as_str()
    }
}

/// `name=value` pairs joined by `&`.
pub open spec fn query_string(pairs: Seq<(Seq<char>, Seq<char>)>) -> Seq<char>
    decreases pairs.len(),
{
    if pairs.len() == 0 {
        Seq::empty()
    } else if pairs.len() == 1 {
        pairs[0].0 + seq!['='] + pairs[0].1
    } else {
        query_string(pairs.drop_last()) + seq!['&'] + pairs.last().0 + seq!['='] + pairs.last().1
    }
}

/// A template followed by `?` and the query string, or the template alone
/// where there are no pairs.
pub open spec fn url_text(template: Seq<char>, pairs: Seq<(Seq<char>, Seq<char>)>) -> Seq<char> {
    if pairs.len() == 0 {
        template
    } else {
        template + seq!['?'] + query_string(pairs)
    }
}

/// The (name, value) texts of `params`.
pub open spec fn param_pairs(params: Seq<ParameterData>) -> Seq<(Seq<char>, Seq<char>)> {
    Seq::new(params.len(), |i: int| (params[i].name@, params[i].value@))
}

/// A URL template with its static parameters.
pub struct UrlData {
    pub params: Vec<ParameterData>,
    pub template: String,
}

impl UrlData {
    /// The full URL: the template, then `?` and the parameters where there
    /// are any.
    pub open spec fn full_url(&self) -> Seq<char> {
        url_text(self.template@, param_pairs(self.params@))
    }

    pub fn new(params: Vec<ParameterData>, template: String) -> (r: Self)
        ensures
            r.params == params,
            r.template == template,
    {
        UrlData { params, template }
    }

    pub fn params(&self) -> (r: &Vec<ParameterData>)
        ensures
            r == &self.params,
    {
        &self.params
    }

    pub fn template(&self) -> (r: &str)
        ensures
            r@ == self.template@,
    {
        self.template.as_str()
    }

    /// The template followed by `?` and the `name=value` pairs joined by `&`;
    /// the template alone where there are no parameters.
    pub fn url(&self) -> (r: String)
        ensures
            r@ == self.full_url(),
    {
        let mut out = self.template.clone();
        let n = self.params.len();
        if n == 0 {
            return out;
        }
        out.append("?");
        let ghost head = out@;
        let mut i: usize = 0;
        proof {
            reveal_strlit("?");
            reveal_strlit("&");
            reveal_strlit("=");
        }
        assert(head == self.template@ + seq!['?']);
        while i < n
            invariant
                n == self.params@.len(),
                0 < n,
                i <= n,
                head == self.template@ + seq!['?'],
                out@ == head + query_string(param_pairs(self.params@.take(i as int))),
            decreases n - i,
        {
            let p = &self.params[i];
            proof {
                reveal_strlit("&");
                reveal_strlit("=");
            }
            if i > 0 {
                out.append("&");
            }
            out.append(p.name.as_str());
            out.append("=");
            out.append(p.value.as_str());
            assert(param_pairs(self.params@.take(i + 1)).drop_last() =~= param_pairs(
                self.params@.take(i as int),
            ));
            assert(out@ =~= head + query_string(param_pairs(self.params@.take(i + 1))));
            i = i + 1;
        }
        assert(self.params@.take(n as int) =~= self.params@);
        out
    }
}

/// A search engine as the browser's search configuration stores it.
pub struct Engine {
    pub defined_aliases: Vec<String>,
    pub icon_url: String,
    pub _name: String,
    pub _urls: Vec<UrlData>,
}

impl Engine {
    pub fn new(
        defined_aliases: Vec<String>,
        icon_url: String,
        _name: String,
        _urls: Vec<UrlData>,
    ) -> (r: Self)
        ensures
            r.defined_aliases == defined_aliases,
            r.icon_url == icon_url,
            r._name == _name,
            r._urls == _urls,
    {
        Engine { defined_aliases, icon_url, _name, _urls }
    }

    pub fn defined_aliases(&self) -> (r: &Vec<String>)
        ensures
            r == &self.defined_aliases,
    {
        &self.defined_aliases
    }

    pub fn icon_url(&self) -> (r: &str)
        ensures
            r@ == self.icon_url@,
    {
        self.icon_url.as_str()
    }

    pub fn _name(&self) -> (r: &str)
        ensures
            r@ == self._name@,
    {
        self._name.as_str()
    }

    pub fn _urls(&self) -> (r: &Vec<UrlData>)
        ensures
            r == &self._urls,
    {
        &self._urls
    }
}

/// The search configuration's metadata: the name of the default engine.
pub struct MetaData {
    pub current: String,
}

/// The user-added engines of a search configuration and its metadata.
pub struct SearchData {
    pub engines: Vec<Engine>,
    pub meta_data: MetaData,
}

impl SearchData {
    pub fn engines(&self) -> (r: &Vec<Engine>)
        ensures
            r == &self.engines,
    {
        &self.engines
    }

    /// The name of the default engine.
    pub fn default_engine(&self) -> (r: &str)
        ensures
            r@ == self.meta_data.current@,
    {
        self.meta_data.current.as_str()
    }
}

} // verus!
