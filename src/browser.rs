//! The browser facade: which browser is the default, whether it is running,
//! where its profile lives, how to open a window, and whether records come
//! from the cache or from a fresh extraction.
use vstd::prelude::*;

use crate::error::{CacheError, ExtractError, ProviderError};
use crate::text::{contains, contains_text, replace_text, replaced, same_text, trim, trimmed};

verus! {

/// The Firefox browser, with the name of the profile to read.
pub struct Firefox {
    pub profile_name: String,
}

impl Firefox {
    pub fn new(profile_name: &str) -> (r: Self)
        ensures
            r.profile_name@ == profile_name@,
    {
        Firefox { profile_name: profile_name.to_owned() }
    }

    /// The index of the first directory name that contains `profile_name`: a
    /// profile directory is named `<name>` or `<random>.<name>`.
    pub fn profile_dir(dirs: &Vec<String>, profile_name: &str) -> (r: Option<usize>)
        ensures
            r is Some <==> profile_hit(dirs@, profile_name@, 0) is Some,
            r is Some ==> r->0 as int == profile_hit(dirs@, profile_name@, 0)->0,
    {
        let mut i: usize = 0;
        while i < dirs.len()
            invariant
                i <= dirs@.len(),
                profile_hit(dirs@, profile_name@, 0) == profile_hit(dirs@, profile_name@, i as int),
            decreases dirs.len() - i,
        {
            if contains_text(dirs[i].as_str(), profile_name) {
                return Some(i);
            }
            i = i + 1;
        }
        None
    }

    /// The index of the first directory name that contains this browser's
    /// profile name.
    pub fn profile_dir2(&self, dirs: &Vec<String>) -> (r: Option<usize>)
        ensures
            r is Some <==> profile_hit(dirs@, self.profile_name@, 0) is Some,
            r is Some ==> r->0 as int == profile_hit(dirs@, self.profile_name@, 0)->0,
    {
        Firefox::profile_dir(dirs, self.profile_name.as_str())
    }

    /// The command that opens `url` in a new window: the prefix words, then
    /// `firefox --new-window <url>`.
    pub fn new_window(&self, url: &str, prefix: &[String]) -> (r: Vec<String>)
        ensures
            r@.len() == prefix@.len() + 3,
            forall|k: int| 0 <= k < prefix@.len() ==> #[trigger] r@[k]@ == prefix@[k]@,
            r@[prefix@.len() as int]@ == "firefox"@,
            r@[prefix@.len() + 1int]@ == "--new-window"@,
            r@[prefix@.len() + 2int]@ == url@,
    {
        let mut r: Vec<String> = Vec::new();
        let mut i: usize = 0;
        while i < prefix.len()
            invariant
                i <= prefix@.len(),
                r@.len() == i,
                forall|k: int| 0 <= k < i ==> #[trigger] r@[k]@ == prefix@[k]@,
            decreases prefix.len() - i,
        {
            r.push(prefix[i].clone());
            i = i + 1;
        }
        r.push(String::from_str("firefox"));
        r.push(String::from_str("--new-window"));
        r.push(url.to_owned());
        r
    }
}

/// A browser that records can be read from.
pub enum Browser {
    Firefox(Firefox),
}

/// The desktop-entry suffix that the default-browser setting carries.
pub open spec fn desktop_suffix() -> Seq<char> {
    ".desktop"@
}

/// The browser id in the output of the default-browser query: the output
/// trimmed, with `.desktop` taken out.
pub fn default_browser_id(output: &str) -> (r: String)
    ensures
        r@ == replaced(trimmed(output@), desktop_suffix(), Seq::empty()),
{
    proof {
        reveal_strlit(".desktop");
        reveal_strlit("");
    }
    assert(""@ =~= Seq::<char>::empty());
    replace_text(trim(output), ".desktop", "")
}

/// The browser that an id names, reading the profile `profile_name`;
/// `UnsupportedBrowser` for any id but `firefox`.
pub fn get_default_browser(id: &str, profile_name: &str) -> (r: Result<Browser, ProviderError>)
    ensures
        id@ == "firefox"@ ==> r is Ok && (match r->Ok_0 {
            Browser::Firefox(f) => f.profile_name@ == profile_name@,
        }),
        id@ != "firefox"@ ==> r == Err::<Browser, ProviderError>(ProviderError::UnsupportedBrowser),
{
    if same_text(id, "firefox") {
        Ok(Browser::Firefox(Firefox::new(profile_name)))
    } else {
        Err(ProviderError::UnsupportedBrowser)
    }
}

/// Some entry of the process table is exactly `target`.
pub open spec fn listed_exactly(names: Seq<Option<String>>, target: Seq<char>) -> bool {
    exists|k: int| 0 <= k < names.len() && #[trigger] names[k] is Some && names[k]->0@ == target
}

/// Whether a process named exactly `target` runs, given the command names of
/// the process table (`None` for an entry that could not be read, and no
/// table where it could not be read at all). Unknown counts as not running.
pub fn is_running(table: &Option<Vec<Option<String>>>, target: &str) -> (r: bool)
    ensures
        table is None ==> !r,
        table is Some ==> (r <==> listed_exactly(table->0@, target@)),
{
    let names = match table {
        Some(names) => names,
        None => return false,
    };
    let mut k: usize = 0;
    while k < names.len()
        invariant
            k <= names@.len(),
            table is Some,
            table->0@ == names@,
            forall|m: int|
                0 <= m < k ==> !(#[trigger] names@[m] is Some && names@[m]->0@ == target@),
        decreases names.len() - k,
    {
        match &names[k] {
            Some(name) => {
                if same_text(name.as_str(), target) {
                    return true;
                }
            },
            None => {},
        }
        k = k + 1;
    }
    false
}

/// The first profile directory from index `i` on whose name contains the
/// profile name.
pub open spec fn profile_hit(dirs: Seq<String>, profile_name: Seq<char>, i: int) -> Option<int>
    decreases dirs.len() - i,
{
    if i < 0 || i >= dirs.len() {
        None
    } else if contains(dirs[i]@, profile_name) {
        Some(i)
    } else {
        profile_hit(dirs, profile_name, i + 1)
    }
}

/// Where the records of one call come from.
#[derive(Debug, Clone, Copy, PartialEq, Eq, Structural)]
pub enum Source {
    /// The browser holds its profile open: serve the last snapshot.
    Cache,
    /// The profile is free: extract afresh and refresh the cache.
    Extract,
}

/// Where records come from, given whether the browser is running.
pub fn plan(live: bool) -> (r: Source)
    ensures
        live ==> r == Source::Cache,
        !live ==> r == Source::Extract,
{
    if live {
        Source::Cache
    } else {
        Source::Extract
    }
}

/// The answer when the browser runs: the cached records, `NotFound` where
/// nothing is cached, the cache's error where it cannot be read.
pub fn serve_cached<T>(cached: Result<Vec<T>, CacheError>) -> (r: Result<Vec<T>, ProviderError>)
    ensures
        cached is Ok ==> r is Ok && r->Ok_0 == cached->Ok_0,
        cached == Err::<Vec<T>, CacheError>(CacheError::NotFound) ==> r == Err::<
            Vec<T>,
            ProviderError,
        >(ProviderError::NotFound),
        cached is Err && cached->Err_0 != CacheError::NotFound ==> r == Err::<
            Vec<T>,
            ProviderError,
        >(ProviderError::Cache(cached->Err_0)),
{
    match cached {
        Ok(v) => Ok(v),
        Err(CacheError::NotFound) => Err(ProviderError::NotFound),
        Err(e) => Err(ProviderError::Cache(e)),
    }
}

/// The answer when the browser does not run: the fresh records, or the
/// extraction's error.
pub fn serve_fresh<T>(fresh: Result<Vec<T>, ExtractError>) -> (r: Result<Vec<T>, ProviderError>)
    ensures
        fresh is Ok ==> r is Ok && r->Ok_0 == fresh->Ok_0,
        fresh is Err ==> r == Err::<Vec<T>, ProviderError>(ProviderError::Extract(fresh->Err_0)),
{
    match fresh {
        Ok(v) => Ok(v),
        Err(e) => Err(ProviderError::Extract(e)),
    }
}

} // verus!
