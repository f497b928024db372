//! Plugin settings, each optional field with its fallback.
use vstd::prelude::*;

verus! {

/// What to show for blank input: everything, nothing, or the records whose
/// titles are listed.
pub enum Bib {
    All,
    Nothing,
    Currated(Vec<String>),
}

/// Settings shared by the browser plugins.
pub struct CommonConfig {
    pub browser_profile_name: Option<String>,
    pub prefix_args: Option<Vec<String>>,
}

impl CommonConfig {
    pub fn new(browser_profile_name: Option<String>, prefix_args: Option<Vec<String>>) -> (r: Self)
        ensures
            r.browser_profile_name == browser_profile_name,
            r.prefix_args == prefix_args,
    {
        CommonConfig { browser_profile_name, prefix_args }
    }

    /// The profile name, `default` where none is set.
    pub fn browser_profile_name(&self) -> (r: &str)
        ensures
            r@ == match self.browser_profile_name {
                Some(p) => p@,
                None => "default"@,
            },
    {
        match &self.browser_profile_name {
            Some(p) => p.as_str(),
            None => "default",
        }
    }

    /// The command words put before the browser's own, none where none are
    /// set.
    pub fn prefix_args(&self) -> (r: &[String])
        ensures
            r@ == match self.prefix_args {
                Some(a) => a@,
                None => Seq::<String>::empty(),
            },
    {
        match &self.prefix_args {
            Some(a) => a.as_slice(),
            None => &[],
        }
    }
}

impl Default for CommonConfig {
    fn default() -> (r: Self)
        ensures
            r.browser_profile_name is Some && r.browser_profile_name->0@ == "default"@,
            r.prefix_args is Some && r.prefix_args->0@.len() == 0,
    {
        CommonConfig {
            browser_profile_name: Some(String::from_str("default")),
            prefix_args: Some(Vec::new()),
        }
    }
}

/// Settings of the browser: the profile and a prefix for its command.
pub struct BrowserConfig {
    pub profile_name: Option<String>,
    pub command_prefix: Option<String>,
}

impl BrowserConfig {
    pub fn new(profile_name: Option<String>, command_prefix: Option<String>) -> (r: Self)
        ensures
            r.profile_name == profile_name,
            r.command_prefix == command_prefix,
    {
        BrowserConfig { profile_name, command_prefix }
    }

    /// The profile name, `default` where none is set.
    pub fn profile_name(&self) -> (r: &str)
        ensures
            r@ == match self.profile_name {
                Some(p) => p@,
                None => "default"@,
            },
    {
        match &self.profile_name {
            Some(p) => p.as_str(),
            None => "default",
        }
    }

    /// The command prefix, empty where none is set.
    pub fn command_prefix(&self) -> (r: &str)
        ensures
            r@ == match self.command_prefix {
                Some(p) => p@,
                None => Seq::<char>::empty(),
            },
    {
        match &self.command_prefix {
            Some(p) => p.as_str(),
            None => {
                proof {
                    reveal_strlit("");
                }
                ""
            },
        }
    }
}

impl Default for BrowserConfig {
    fn default() -> (r: Self)
        ensures
            r.profile_name is Some && r.profile_name->0@ == "default"@,
            r.command_prefix is Some && r.command_prefix->0@.len() == 0,
    {
        BrowserConfig {
            profile_name: Some(String::from_str("default")),
            command_prefix: Some(String::new()),
        }
    }
}

/// Settings of the bookmarks plugin.
pub struct Config {
    pub prefix: Option<String>,
    pub max_entries: Option<usize>,
    pub bib: Option<Bib>,
}

impl Config {
    /// The prefix that input must start with: `*` where none is set.
    pub open spec fn prefix_text(&self) -> Seq<char> {
        match self.prefix {
            Some(p) => p@,
            None => "*"@,
        }
    }

    /// At most this many records are shown: 7 where nothing is set.
    pub open spec fn entry_limit(&self) -> usize {
        match self.max_entries {
            Some(m) => m,
            None => 7,
        }
    }

    /// The blank-input policy: show nothing where none is set.
    pub open spec fn blank_policy(&self) -> Bib {
        match self.bib {
            Some(b) => b,
            None => Bib::Nothing,
        }
    }

    pub fn new(prefix: Option<String>, max_entries: Option<usize>, bib: Option<Bib>) -> (r: Self)
        ensures
            r.prefix == prefix,
            r.max_entries == max_entries,
            r.bib == bib,
    {
        Config { prefix, max_entries, bib }
    }

    pub fn prefix(&self) -> (r: &str)
        ensures
            r@ == self.prefix_text(),
    {
        match &self.prefix {
            Some(p) => p.as_str(),
            None => "*",
        }
    }

    pub fn max_entries(&self) -> (r: usize)
        ensures
            r == self.entry_limit(),
    {
        match self.max_entries {
            Some(m) => m,
            None => 7,
        }
    }

    pub fn bib(&self) -> (r: &Bib)
        ensures
            *r == self.blank_policy(),
    {
        match &self.bib {
            Some(b) => b,
            None => &Bib::Nothing,
        }
    }
}

impl Default for Config {
    fn default() -> (r: Self)
        ensures
            r.prefix is Some && r.prefix->0@ == "*"@,
            r.max_entries == Some(7usize),
            r.bib == Some(Bib::All),
    {
        Config { prefix: Some(String::from_str("*")), max_entries: Some(7), bib: Some(Bib::All) }
    }
}

} // verus!
