//! The configuration every command runs with, and the checks it must pass.
use vstd::prelude::*;

use crate::resolve::{has_trailing_separator, is_absolute, is_absolute_path};
use crate::text::{
    find_char, first_index, lemma_first_index_bounds, same_text, trim, trimmed, views,
};

verus! {

/// Where the repository lives and how logical paths are read against it.
pub struct Config {
    /// The directory that holds the managed files, one subdirectory per group.
    pub repository_root: String,
    /// The subdirectory implied by a logical path given in absolute form.
    pub default_subdir: String,
    /// The directories that the listing searches for managed links.
    pub list_paths: Vec<String>,
}

/// A configuration as plain sequences of characters.
pub struct ConfigView {
    pub repository_root: Seq<char>,
    pub default_subdir: Seq<char>,
    pub list_paths: Seq<Seq<char>>,
}

impl View for Config {
    type V = ConfigView;

    open spec fn view(&self) -> ConfigView {
        ConfigView {
            repository_root: self.repository_root@,
            default_subdir: self.default_subdir@,
            list_paths: views(self.list_paths@),
        }
    }
}

/// Why a configuration cannot be used.
#[derive(Debug, PartialEq, Eq)]
pub enum ConfigError {
    /// The default subdirectory starts at the filesystem root.
    AbsoluteDefaultSubdir,
    /// The default subdirectory holds a separator, so it is not a single component.
    SeparatorInDefaultSubdir,
    /// The default subdirectory is empty or was never given.
    EmptyDefaultSubdir,
    /// The repository root is not absolute, or ends in a separator.
    MalformedRepositoryRoot,
    /// A line of the configuration text holds no `=`; the number counts lines from zero.
    MissingEquals(usize),
    /// A line of the configuration text names a key that means nothing here.
    UnknownKey(String),
}

/// The first thing wrong with a configuration, if anything is.
pub open spec fn config_error(c: ConfigView) -> Option<ConfigError> {
    if is_absolute(c.default_subdir) {
        Some(ConfigError::AbsoluteDefaultSubdir)
    } else if c.default_subdir.contains('/') {
        Some(ConfigError::SeparatorInDefaultSubdir)
    } else if c.default_subdir.len() == 0 {
        Some(ConfigError::EmptyDefaultSubdir)
    } else if !is_absolute(c.repository_root) || c.repository_root.last() == '/' {
        Some(ConfigError::MalformedRepositoryRoot)
    } else {
        None
    }
}

pub open spec fn is_valid_config(c: ConfigView) -> bool {
    config_error(c) is None
}

impl Config {
    /// Checks the configuration before any command works with it.
    pub fn check(&self) -> (r: Result<(), ConfigError>)
        ensures
            r is Ok <==> is_valid_config(self@),
            r matches Err(e) ==> config_error(self@) == Some(e),
    {
        if is_absolute_path(self.default_subdir.as_str()) {
            return Err(ConfigError::AbsoluteDefaultSubdir);
        }
        if find_char(self.default_subdir.as_str(), '/').is_some() {
            return Err(ConfigError::SeparatorInDefaultSubdir);
        }
        if self.default_subdir.as_str().unicode_len() == 0 {
            return Err(ConfigError::EmptyDefaultSubdir);
        }
        if !is_absolute_path(self.repository_root.as_str()) || has_trailing_separator(
            self.repository_root.as_str(),
        ) {
            return Err(ConfigError::MalformedRepositoryRoot);
        }
        Ok(())
    }

    /// Builds a configuration, refusing one that fails its checks.
    pub fn new(repository_root: String, default_subdir: String, list_paths: Vec<String>) -> (r:
        Result<Config, ConfigError>)
        ensures
            match r {
                Ok(c) => {
                    &&& is_valid_config(c@)
                    &&& c.repository_root == repository_root
                    &&& c.default_subdir == default_subdir
                    &&& c.list_paths == list_paths
                },
                Err(e) => config_error(
                    ConfigView {
                        repository_root: repository_root@,
                        default_subdir: default_subdir@,
                        list_paths: views(list_paths@),
                    },
                ) == Some(e),
            },
    {
        let c = Config { repository_root, default_subdir, list_paths };
        match c.check() {
            Ok(()) => Ok(c),
            Err(e) => Err(e),
        }
    }
}

/// Something wrong with a line of the configuration text.
pub enum TextFault {
    /// The line, counted from zero, holds no `=`.
    MissingEquals(nat),
    /// A line names this key, which means nothing here.
    UnknownKey(Seq<char>),
}

pub open spec fn fault_matches(e: ConfigError, f: TextFault) -> bool {
    match f {
        TextFault::MissingEquals(n) => e matches ConfigError::MissingEquals(m) && m == n,
        TextFault::UnknownKey(k) => e matches ConfigError::UnknownKey(s) && s@ == k,
    }
}

/// The first line of `t`, without its line ending; a carriage return is part of the line
/// ending only before a newline.
pub open spec fn line_at(t: Seq<char>) -> Seq<char> {
    let i = first_index(t, '\n');
    if i < t.len() {
        let l = t.subrange(0, i);
        if l.len() > 0 && l.last() == '\r' {
            l.drop_last()
        } else {
            l
        }
    } else {
        t
    }
}

/// What follows the first line of `t`.
pub open spec fn after_line(t: Seq<char>) -> Seq<char> {
    let i = first_index(t, '\n');
    if i < t.len() {
        t.subrange(i + 1, t.len() as int)
    } else {
        seq![]
    }
}

/// The comma-separated items of `v`, each without white space around it.
pub open spec fn split_items(v: Seq<char>) -> Seq<Seq<char>>
    decreases v.len(),
{
    proof {
        lemma_first_index_bounds(v, ',');
    }
    let i = first_index(v, ',');
    if i < v.len() {
        seq![trimmed(v.subrange(0, i))] + split_items(v.subrange(i + 1, v.len() as int))
    } else {
        seq![trimmed(v)]
    }
}

/// The default subdirectory and the list paths after line `n`, `line`, is read into `acc`.
/// `default_subdir` sets the first, `list_paths` adds to the second.
pub open spec fn apply_line(acc: (Seq<char>, Seq<Seq<char>>), line: Seq<char>, n: nat) -> Result<
    (Seq<char>, Seq<Seq<char>>),
    TextFault,
> {
    let i = first_index(line, '=');
    if i >= line.len() {
        Err(TextFault::MissingEquals(n))
    } else {
        let key = line.subrange(0, i);
        let value = line.subrange(i + 1, line.len() as int);
        if key == "default_subdir"@ {
            Ok((trimmed(value), acc.1))
        } else if key == "list_paths"@ {
            Ok((acc.0, acc.1 + split_items(value)))
        } else {
            Err(TextFault::UnknownKey(key))
        }
    }
}

/// The settings after the lines of `t`, the first of them numbered `n`, are read into `acc`.
pub open spec fn settings_from(acc: (Seq<char>, Seq<Seq<char>>), t: Seq<char>, n: nat) -> Result<
    (Seq<char>, Seq<Seq<char>>),
    TextFault,
>
    decreases t.len(),
{
    if t.len() == 0 {
        Ok(acc)
    } else {
        proof {
            lemma_first_index_bounds(t, '\n');
        }
        match apply_line(acc, line_at(t), n) {
            Ok(a) => settings_from(a, after_line(t), n + 1),
            Err(f) => Err(f),
        }
    }
}

/// The default subdirectory and the list paths that a configuration text sets.
pub open spec fn settings_of(text: Seq<char>) -> Result<(Seq<char>, Seq<Seq<char>>), TextFault> {
    settings_from((seq![], seq![]), text, 0)
}

fn strip_cr(l: &str) -> (r: &str)
    ensures
        r@ == (if l@.len() > 0 && l@.last() == '\r' {
            l@.drop_last()
        } else {
            l@
        }),
{
    let n = l.unicode_len();
    if n > 0 && l.get_char(n - 1) == '\r' {
        l.substring_char(0, n - 1)
    } else {
        l
    }
}

fn push_items(list: &mut Vec<String>, value: &str)
    ensures
        views(final(list)@) == views(old(list)@) + split_items(value@),
{
    let ghost start = views(list@);
    let n = value.unicode_len();
    let mut pos: usize = 0;
    assert(value@.subrange(0, n as int) =~= value@);
    loop
        invariant_except_break
            start + split_items(value@) == views(list@) + split_items(
                value@.subrange(pos as int, n as int),
            ),
        invariant
            pos <= n,
            n == value@.len(),
        ensures
            start + split_items(value@) == views(list@),
        decreases n - pos,
    {
        let rest = value.substring_char(pos, n);
        proof {
            lemma_first_index_bounds(rest@, ',');
        }
        match find_char(rest, ',') {
            Some(i) => {
                let item = trim(rest.substring_char(0, i)).to_owned();
                let ghost before = views(list@);
                list.push(item);
                assert(views(list@) =~= before.push(item@));
                assert(value@.subrange(pos + i + 1, n as int) =~= rest@.subrange(i + 1, rest@.len() as int));
                assert(before + split_items(rest@) =~= views(list@) + split_items(rest@.subrange(i + 1, rest@.len() as int)));
                pos = pos + i + 1;
            },
            None => {
                let item = trim(rest).to_owned();
                let ghost before = views(list@);
                list.push(item);
                assert(views(list@) =~= before.push(item@));
                assert(before + split_items(rest@) =~= views(list@));
                break;
            },
        }
    }
}

impl Config {
    /// Reads a configuration text of `key=value` lines. `default_subdir` gives the default
    /// subdirectory, its value without white space around it; each `list_paths` line adds the
    /// comma-separated items of its value, each without white space around it. The
    /// configuration read must then pass its checks.
    pub fn parse(text: &str, repository_root: String) -> (r: Result<Config, ConfigError>)
        ensures
            settings_of(text@) matches Err(f) ==> (r matches Err(e) && fault_matches(e, f)),
            settings_of(text@) matches Ok(s) ==> match r {
                Ok(c) => {
                    &&& c.repository_root == repository_root
                    &&& c@.default_subdir == s.0
                    &&& c@.list_paths == s.1
                    &&& is_valid_config(c@)
                },
                Err(e) => config_error(
                    ConfigView {
                        repository_root: repository_root@,
                        default_subdir: s.0,
                        list_paths: s.1,
                    },
                ) == Some(e),
            },
    {
        let n = text.unicode_len();
        let mut pos: usize = 0;
        let mut line_no: usize = 0;
        let mut default_subdir = String::new();
        let mut list_paths: Vec<String> = Vec::new();
        proof {
            assert(text@.subrange(0, n as int) =~= text@);
            assert(views(list_paths@) =~= seq![]);
        }
        while pos < n
            invariant
                n == text@.len(),
                pos <= n,
                line_no <= pos,
                settings_of(text@) == settings_from(
                    (default_subdir@, views(list_paths@)),
                    text@.subrange(pos as int, n as int),
                    line_no as nat,
                ),
            decreases n - pos,
        {
            let rest = text.substring_char(pos, n);
            let ghost t = rest@;
            proof {
                lemma_first_index_bounds(t, '\n');
            }
            let (line, next) = match find_char(rest, '\n') {
                Some(i) => (strip_cr(rest.substring_char(0, i)), pos + i + 1),
                None => (rest, n),
            };
            assert(line@ == line_at(t));
            assert(text@.subrange(next as int, n as int) =~= after_line(t));
            proof {
                lemma_first_index_bounds(line@, '=');
            }
            match find_char(line, '=') {
                None => {
                    return Err(ConfigError::MissingEquals(line_no));
                },
                Some(i) => {
                    let m = line.unicode_len();
                    let key = line.substring_char(0, i);
                    let value = line.substring_char(i + 1, m);
                    if same_text(key, "default_subdir") {
                        default_subdir = trim(value).to_owned();
                    } else if same_text(key, "list_paths") {
                        push_items(&mut list_paths, value);
                    } else {
                        return Err(ConfigError::UnknownKey(key.to_owned()));
                    }
                },
            }
            pos = next;
            line_no = line_no + 1;
        }
        Config::new(repository_root, default_subdir, list_paths)
    }
}

} // verus!
