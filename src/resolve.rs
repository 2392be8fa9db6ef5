//! The path resolver: from a logical path to its place in the repository and on the system.
use vstd::prelude::*;

use crate::config::{config_error, Config, ConfigError, ConfigView};
use crate::text::{find_char, first_index, lemma_first_index, same_text, starts_with};

verus! {

/// Whether `p` starts at the filesystem root.
pub open spec fn is_absolute(p: Seq<char>) -> bool {
    p.len() > 0 && p[0] == '/'
}

pub fn is_absolute_path(p: &str) -> (r: bool)
    ensures
        r == is_absolute(p@),
{
    p.unicode_len() > 0 && p.get_char(0) == '/'
}

pub fn has_trailing_separator(p: &str) -> (r: bool)
    ensures
        r == (p@.len() > 0 && p@.last() == '/'),
{
    let n = p.unicode_len();
    n > 0 && p.get_char(n - 1) == '/'
}

/// The token that stands for the machine's hostname as the first component.
pub open spec fn placeholder() -> Seq<char> {
    seq!['{', 'h', 'o', 's', 't', 'n', 'a', 'm', 'e', '}']
}

/// Whether the first component of `rest` is exactly the placeholder.
pub open spec fn names_placeholder(rest: Seq<char>) -> bool {
    &&& placeholder().is_prefix_of(rest)
    &&& rest.len() == placeholder().len() || rest[placeholder().len() as int] == '/'
}

/// `rest` with a leading placeholder component replaced by `host`.
pub open spec fn substituted(rest: Seq<char>, host: Seq<char>) -> Seq<char> {
    if names_placeholder(rest) {
        host + rest.subrange(placeholder().len() as int, rest.len() as int)
    } else {
        rest
    }
}

/// The part of `p` that follows the root of the repository's subdirectory.
pub open spec fn rest_of(p: Seq<char>) -> Seq<char> {
    if is_absolute(p) {
        p.drop_first()
    } else {
        p
    }
}

/// The system path that `p` names: `p` itself when absolute, else `p` from its first separator on.
pub open spec fn system_of(p: Seq<char>) -> Seq<char> {
    if is_absolute(p) {
        p
    } else {
        p.subrange(first_index(p, '/'), p.len() as int)
    }
}

/// Whether `p` names a system path with something after the root.
pub open spec fn is_resolvable(p: Seq<char>) -> bool {
    &&& is_absolute(p) || p.contains('/')
    &&& system_of(p).len() > 1
}

pub open spec fn system_path_of(p: Seq<char>) -> Option<Seq<char>> {
    if is_resolvable(p) {
        Some(system_of(p))
    } else {
        None
    }
}

/// The path inside the repository that `p` names.
pub open spec fn repo_of(root: Seq<char>, default_subdir: Seq<char>, host: Seq<char>, p: Seq<
    char,
>) -> Seq<char> {
    if is_absolute(p) {
        root + seq!['/'] + default_subdir + seq!['/'] + substituted(rest_of(p), host)
    } else {
        root + seq!['/'] + substituted(p, host)
    }
}

/// Whether `p` is `root` or lies below it.
pub open spec fn is_under(p: Seq<char>, root: Seq<char>) -> bool {
    p == root || (root + seq!['/']).is_prefix_of(p)
}

/// Why a logical path cannot be resolved.
#[derive(Debug, PartialEq, Eq)]
pub enum ResolveError {
    /// The configuration fails its checks.
    Config(ConfigError),
    /// The path has no subdirectory to strip, or nothing after it.
    InvalidPath,
    /// The system path would lie inside the repository itself.
    InsideRepository,
}

/// Where `p` lives on the system under configuration `c`, or why it cannot be placed.
pub open spec fn location(c: ConfigView, p: Seq<char>) -> Result<Seq<char>, ResolveError> {
    match config_error(c) {
        Some(e) => Err(ResolveError::Config(e)),
        None => if !is_resolvable(p) {
            Err(ResolveError::InvalidPath)
        } else if is_under(system_of(p), c.repository_root) {
            Err(ResolveError::InsideRepository)
        } else {
            Ok(system_of(p))
        },
    }
}

/// The repository path and the system path of `p`, in that order.
pub open spec fn resolution(c: ConfigView, host: Seq<char>, p: Seq<char>) -> Result<
    (Seq<char>, Seq<char>),
    ResolveError,
> {
    match location(c, p) {
        Ok(s) => Ok((repo_of(c.repository_root, c.default_subdir, host, p), s)),
        Err(e) => Err(e),
    }
}

/// Both ends of a managed link.
pub struct Resolved {
    /// Where the file lives in the repository: what the link points at.
    pub repo_path: String,
    /// Where the link stands on the system.
    pub system_path: String,
}

/// The system path of a logical path, with no regard to configuration.
pub fn system_path(path: &str) -> (r: Result<String, ResolveError>)
    ensures
        match r {
            Ok(s) => system_path_of(path@) == Some(s@),
            Err(e) => system_path_of(path@) is None && e == ResolveError::InvalidPath,
        },
{
    let n = path.unicode_len();
    if is_absolute_path(path) {
        if n > 1 {
            Ok(path.to_owned())
        } else {
            Err(ResolveError::InvalidPath)
        }
    } else {
        match find_char(path, '/') {
            None => Err(ResolveError::InvalidPath),
            Some(i) => {
                if n - i > 1 {
                    Ok(path.substring_char(i, n).to_owned())
                } else {
                    Err(ResolveError::InvalidPath)
                }
            },
        }
    }
}

fn is_under_root(p: &str, root: &str) -> (r: bool)
    ensures
        r == is_under(p@, root@),
{
    proof {
        reveal_strlit("/");
    }
    let with_sep = root.to_owned().concat("/");
    same_text(p, root) || starts_with(p, with_sep.as_str())
}

/// Where the link for `path` stands on the system, after checking the configuration.
pub fn locate(path: &str, config: &Config) -> (r: Result<String, ResolveError>)
    ensures
        match r {
            Ok(s) => location(config@, path@) == Ok::<Seq<char>, ResolveError>(s@),
            Err(e) => location(config@, path@) == Err::<Seq<char>, ResolveError>(e),
        },
{
    if let Err(e) = config.check() {
        return Err(ResolveError::Config(e));
    }
    let s = system_path(path)?;
    if is_under_root(s.as_str(), config.repository_root.as_str()) {
        return Err(ResolveError::InsideRepository);
    }
    Ok(s)
}

/// Whether the first component after any leading separator is the hostname placeholder.
pub fn needs_hostname(path: &str) -> (r: bool)
    ensures
        r == names_placeholder(rest_of(path@)),
{
    let n = path.unicode_len();
    let rest = if is_absolute_path(path) {
        path.substring_char(1, n)
    } else {
        path
    };
    names_placeholder_at(rest)
}

fn names_placeholder_at(rest: &str) -> (r: bool)
    ensures
        r == names_placeholder(rest@),
{
    proof {
        reveal_strlit("{hostname}");
    }
    assert("{hostname}"@ =~= placeholder());
    starts_with(rest, "{hostname}") && (rest.unicode_len() == 10 || rest.get_char(10) == '/')
}

fn repo_path_of(path: &str, config: &Config, hostname: &str) -> (r: String)
    ensures
        r@ == repo_of(config.repository_root@, config.default_subdir@, hostname@, path@),
{
    proof {
        reveal_strlit("/");
    }
    let n = path.unicode_len();
    let mut r = config.repository_root.clone();
    r.append("/");
    let rest = if is_absolute_path(path) {
        r.append(config.default_subdir.as_str());
        r.append("/");
        path.substring_char(1, n)
    } else {
        path
    };
    assert(rest@ == rest_of(path@));
    if names_placeholder_at(rest) {
        let m = rest.unicode_len();
        r.append(hostname);
        r.append(rest.substring_char(10, m));
    } else {
        r.append(rest);
    }
    proof {
        if is_absolute(path@) {
            assert(r@ =~= repo_of(
                config.repository_root@,
                config.default_subdir@,
                hostname@,
                path@,
            ));
        } else {
            assert(r@ =~= repo_of(
                config.repository_root@,
                config.default_subdir@,
                hostname@,
                path@,
            ));
        }
    }
    r
}

/// Both ends of the link for `path`; `hostname` replaces a leading placeholder component.
pub fn resolve(path: &str, config: &Config, hostname: &str) -> (r: Result<Resolved, ResolveError>)
    ensures
        match r {
            Ok(v) => resolution(config@, hostname@, path@) == Ok::<
                (Seq<char>, Seq<char>),
                ResolveError,
            >((v.repo_path@, v.system_path@)),
            Err(e) => resolution(config@, hostname@, path@) == Err::<
                (Seq<char>, Seq<char>),
                ResolveError,
            >(e),
        },
{
    let system_path = locate(path, config)?;
    let repo_path = repo_path_of(path, config, hostname);
    Ok(Resolved { repo_path, system_path })
}

/// Where the file for `path` lives in the repository.
pub fn config_path(path: &str, config: &Config, hostname: &str) -> (r: Result<String, ResolveError>)
    ensures
        match r {
            Ok(s) => resolution(config@, hostname@, path@) is Ok && s@ == resolution(
                config@,
                hostname@,
                path@,
            )->Ok_0.0,
            Err(e) => resolution(config@, hostname@, path@) == Err::<
                (Seq<char>, Seq<char>),
                ResolveError,
            >(e),
        },
{
    let v = resolve(path, config, hostname)?;
    Ok(v.repo_path)
}

/// Where `s` is one nonempty component, `s/rest` is a relative path whose first component is `s`.
pub proof fn lemma_first_component(s: Seq<char>, rest: Seq<char>)
    requires
        s.len() > 0,
        !s.contains('/'),
    ensures
        first_index(s + seq!['/'] + rest, '/') == s.len(),
        (s + seq!['/'] + rest).contains('/'),
        !is_absolute(s + seq!['/'] + rest),
        system_of(s + seq!['/'] + rest) == seq!['/'] + rest,
        system_path_of(s + seq!['/'] + rest) == (if rest.len() > 0 {
            Some(seq!['/'] + rest)
        } else {
            None
        }),
{
    let p = s + seq!['/'] + rest;
    let n = s.len() as int;
    assert forall|k: int| 0 <= k < n implies p[k] != '/' by {
        assert(p[k] == s[k]);
        if s[k] == '/' {
            assert(s.contains('/'));
        }
    }
    assert(p[n] == '/');
    lemma_first_index(p, '/', n);
    assert(p.contains('/'));
    assert(p[0] == s[0]);
    if s[0] == '/' {
        assert(s.contains('/'));
    }
    assert(system_of(p) =~= seq!['/'] + rest);
}

/// A logical path `s/rest` whose first component `s` is not the placeholder names the system
/// path `/rest`. Where `s` is the default subdirectory, resolving `/rest` (the subdirectory
/// implied) or `s` put back in front of `/rest` gives what resolving `s/rest` gives: the same
/// repository path and system path, or the same error.
pub proof fn lemma_resolution_round_trip(
    c: ConfigView,
    host: Seq<char>,
    s: Seq<char>,
    rest: Seq<char>,
)
    requires
        s.len() > 0,
        !s.contains('/'),
        s != placeholder(),
        rest.len() > 0,
    ensures
        system_path_of(s + seq!['/'] + rest) == Some(seq!['/'] + rest),
        s == c.default_subdir ==> resolution(c, host, c.default_subdir + (seq!['/'] + rest))
            == resolution(c, host, s + seq!['/'] + rest),
        s == c.default_subdir && !names_placeholder(rest) ==> resolution(
            c,
            host,
            seq!['/'] + rest,
        ) == resolution(c, host, s + seq!['/'] + rest),
{
    let p = s + seq!['/'] + rest;
    let q = seq!['/'] + rest;
    let n = s.len() as int;
    lemma_first_component(s, rest);
    assert(!names_placeholder(p)) by {
        let ph = placeholder();
        if names_placeholder(p) {
            if n < ph.len() {
                assert(p[n] == ph[n]);
            } else if n > ph.len() {
                assert(p[ph.len() as int] == s[ph.len() as int]);
                if s[ph.len() as int] == '/' {
                    assert(s.contains('/'));
                }
            } else {
                assert forall|k: int| 0 <= k < n implies s[k] == ph[k] by {
                    assert(p[k] == s[k]);
                }
                assert(s =~= ph);
            }
        }
    }
    if s == c.default_subdir {
        assert(c.default_subdir + (seq!['/'] + rest) =~= p);
        if !names_placeholder(rest) {
            assert(is_absolute(q));
            assert(system_of(q) == q);
            assert(rest_of(q) =~= rest);
            assert(substituted(rest_of(q), host) == rest);
            assert(substituted(p, host) == p);
            assert(repo_of(c.repository_root, c.default_subdir, host, p) =~= repo_of(
                c.repository_root,
                c.default_subdir,
                host,
                q,
            ));
        }
    }
}

/// An absolute logical path `/a` names itself on the system, and the file
/// `default_subdir/a` in the repository.
pub proof fn lemma_absolute_shortcut(c: ConfigView, host: Seq<char>, a: Seq<char>)
    requires
        config_error(c) is None,
        a.len() > 0,
        !names_placeholder(a),
        !is_under(seq!['/'] + a, c.repository_root),
    ensures
        resolution(c, host, seq!['/'] + a) == Ok::<(Seq<char>, Seq<char>), ResolveError>(
            (c.repository_root + seq!['/'] + c.default_subdir + seq!['/'] + a, seq!['/'] + a),
        ),
{
    let q = seq!['/'] + a;
    assert(q.drop_first() =~= a);
    assert(is_absolute(q));
}

/// A configuration whose default subdirectory is absolute is refused for every logical path,
/// before anything about that path is looked at.
pub proof fn lemma_absolute_default_subdir_refused(c: ConfigView, host: Seq<char>, p: Seq<char>)
    requires
        is_absolute(c.default_subdir),
    ensures
        location(c, p) == Err::<Seq<char>, ResolveError>(
            ResolveError::Config(ConfigError::AbsoluteDefaultSubdir),
        ),
        resolution(c, host, p) == Err::<(Seq<char>, Seq<char>), ResolveError>(
            ResolveError::Config(ConfigError::AbsoluteDefaultSubdir),
        ),
{
}

} // verus!
