//! Reading managed links back: which links on the system this tool made, and under which
//! logical path each is shown.
use vstd::prelude::*;

use crate::config::{config_error, Config, ConfigView};
use crate::resolve::{
    is_under, lemma_first_component, location, placeholder, resolution, system_path,
    system_path_of,
};
use crate::text::{same_text, starts_with, views};

verus! {

/// The part of `target` below `root`, where `target` lies below it.
pub open spec fn inside_repo(target: Seq<char>, root: Seq<char>) -> Option<Seq<char>> {
    if (root + seq!['/']).is_prefix_of(target) {
        Some(target.subrange(root.len() + 1int, target.len() as int))
    } else {
        None
    }
}

/// The repository-relative path of a link at `location` pointing at `target`, where the link is
/// one that this tool would have made: its target lies in the repository, and that target's
/// path, read as a logical path, names `location`.
pub open spec fn managed_subpath(location: Seq<char>, target: Seq<char>, root: Seq<char>) -> Option<
    Seq<char>,
> {
    match inside_repo(target, root) {
        Some(sub) => if system_path_of(sub) == Some(location) {
            Some(sub)
        } else {
            None
        },
        None => None,
    }
}

/// How a repository-relative path is shown: below the default subdirectory as the absolute
/// system path, below the hostname's subdirectory with the placeholder in its place, and
/// otherwise as it is.
pub open spec fn logical_form(sub: Seq<char>, default_subdir: Seq<char>, host: Seq<char>) -> Seq<
    char,
> {
    if (default_subdir + seq!['/']).is_prefix_of(sub) {
        sub.subrange(default_subdir.len() as int, sub.len() as int)
    } else if (host + seq!['/']).is_prefix_of(sub) {
        placeholder() + sub.subrange(host.len() as int, sub.len() as int)
    } else {
        sub
    }
}

/// The managed subpaths among `links` (pairs of location and target), each once, in the order
/// of their first appearance.
pub open spec fn subpaths(links: Seq<(Seq<char>, Seq<char>)>, root: Seq<char>) -> Seq<Seq<char>>
    decreases links.len(),
{
    if links.len() == 0 {
        seq![]
    } else {
        let prev = subpaths(links.drop_last(), root);
        match managed_subpath(links.last().0, links.last().1, root) {
            Some(sub) => if prev.contains(sub) {
                prev
            } else {
                prev.push(sub)
            },
            None => prev,
        }
    }
}

/// What the listing shows for `links`.
pub open spec fn listing(links: Seq<(Seq<char>, Seq<char>)>, c: ConfigView, host: Seq<char>) -> Seq<
    Seq<char>,
> {
    subpaths(links, c.repository_root).map_values(
        |s: Seq<char>| logical_form(s, c.default_subdir, host),
    )
}

pub open spec fn pair_views(v: Seq<(String, String)>) -> Seq<(Seq<char>, Seq<char>)> {
    v.map_values(|l: (String, String)| (l.0@, l.1@))
}

fn below_root<'a>(target: &'a str, root: &str) -> (r: Option<&'a str>)
    ensures
        match r {
            Some(s) => inside_repo(target@, root@) == Some(s@),
            None => inside_repo(target@, root@) is None,
        },
{
    proof {
        reveal_strlit("/");
    }
    let prefix = root.to_owned().concat("/");
    if starts_with(target, prefix.as_str()) {
        let k = prefix.as_str().unicode_len();
        Some(target.substring_char(k, target.unicode_len()))
    } else {
        None
    }
}

/// The repository-relative path of a link, where this tool would have made it.
pub fn link_subpath(location: &str, target: &str, root: &str) -> (r: Option<String>)
    ensures
        match r {
            Some(s) => managed_subpath(location@, target@, root@) == Some(s@),
            None => managed_subpath(location@, target@, root@) is None,
        },
{
    match below_root(target, root) {
        Some(sub) => match system_path(sub) {
            Ok(s) => {
                if same_text(s.as_str(), location) {
                    Some(sub.to_owned())
                } else {
                    None
                }
            },
            Err(_) => None,
        },
        None => None,
    }
}

/// How a repository-relative path is shown in the listing.
pub fn logical_path(sub: &str, default_subdir: &str, hostname: &str) -> (r: String)
    ensures
        r@ == logical_form(sub@, default_subdir@, hostname@),
{
    proof {
        reveal_strlit("/");
        reveal_strlit("{hostname}");
    }
    let n = sub.unicode_len();
    let d = default_subdir.to_owned().concat("/");
    if starts_with(sub, d.as_str()) {
        return sub.substring_char(default_subdir.unicode_len(), n).to_owned();
    }
    let h = hostname.to_owned().concat("/");
    if starts_with(sub, h.as_str()) {
        assert("{hostname}"@ =~= placeholder());
        let r = "{hostname}".to_owned().concat(sub.substring_char(hostname.unicode_len(), n));
        return r;
    }
    sub.to_owned()
}

fn contains_text(v: &Vec<String>, s: &str) -> (r: bool)
    ensures
        r == views(v@).contains(s@),
{
    let mut i: usize = 0;
    while i < v.len()
        invariant
            i <= v@.len(),
            forall|k: int| 0 <= k < i ==> v@[k]@ != s@,
        decreases v@.len() - i,
    {
        if same_text(v[i].as_str(), s) {
            assert(views(v@)[i as int] == s@);
            return true;
        }
        i = i + 1;
    }
    assert(!views(v@).contains(s@)) by {
        if views(v@).contains(s@) {
            let k = choose|k: int| 0 <= k < views(v@).len() && views(v@)[k] == s@;
            assert(v@[k]@ == s@);
        }
    }
    false
}

/// The listing of the links found on the system, each given as its location and its target.
pub fn list(links: &Vec<(String, String)>, config: &Config, hostname: &str) -> (r: Vec<String>)
    ensures
        views(r@) == listing(pair_views(links@), config@, hostname@),
{
    let mut subs: Vec<String> = Vec::new();
    let mut i: usize = 0;
    while i < links.len()
        invariant
            i <= links@.len(),
            views(subs@) == subpaths(pair_views(links@.subrange(0, i as int)), config@.repository_root),
        decreases links@.len() - i,
    {
        let ghost before = pair_views(links@.subrange(0, i as int));
        let ghost after = pair_views(links@.subrange(0, i + 1));
        assert(after.drop_last() =~= before);
        assert(after.last() == (links@[i as int].0@, links@[i as int].1@));
        let (location, target) = (&links[i].0, &links[i].1);
        match link_subpath(location.as_str(), target.as_str(), config.repository_root.as_str()) {
            Some(sub) => {
                if !contains_text(&subs, sub.as_str()) {
                    subs.push(sub);
                    assert(views(subs@) =~= subpaths(before, config@.repository_root).push(sub@));
                }
            },
            None => {},
        }
        i = i + 1;
    }
    assert(links@.subrange(0, links@.len() as int) =~= links@);
    let mut shown: Vec<String> = Vec::new();
    let mut j: usize = 0;
    while j < subs.len()
        invariant
            j <= subs@.len(),
            shown@.len() == j,
            forall|k: int|
                0 <= k < j ==> #[trigger] shown@[k]@ == logical_form(
                    subs@[k]@,
                    config@.default_subdir,
                    hostname@,
                ),
        decreases subs@.len() - j,
    {
        let s = logical_path(subs[j].as_str(), config.default_subdir.as_str(), hostname);
        shown.push(s);
        j = j + 1;
    }
    assert(views(shown@) =~= listing(pair_views(links@), config@, hostname@));
    shown
}

/// The placeholder survives a round trip. `{hostname}/x` resolves to the repository path
/// `root/host/x` and the system path `/x`; a link at `/x` to that repository path is seen as
/// one this tool made, with the subpath `host/x`, and the listing shows it as `{hostname}/x`
/// again.
pub proof fn lemma_placeholder_round_trip(c: ConfigView, host: Seq<char>, x: Seq<char>)
    requires
        config_error(c) is None,
        !host.contains('/'),
        host != c.default_subdir,
        x.len() > 0,
        !is_under(seq!['/'] + x, c.repository_root),
    ensures
        resolution(c, host, placeholder() + seq!['/'] + x) == Ok::<
            (Seq<char>, Seq<char>),
            crate::resolve::ResolveError,
        >((c.repository_root + seq!['/'] + host + seq!['/'] + x, seq!['/'] + x)),
        managed_subpath(
            seq!['/'] + x,
            c.repository_root + seq!['/'] + host + seq!['/'] + x,
            c.repository_root,
        ) == Some(host + seq!['/'] + x),
        logical_form(host + seq!['/'] + x, c.default_subdir, host) == placeholder() + seq!['/']
            + x,
{
    let ph = placeholder();
    let p = ph + seq!['/'] + x;
    let root = c.repository_root;
    let d = c.default_subdir;
    let sub = host + seq!['/'] + x;
    let target = root + seq!['/'] + host + seq!['/'] + x;
    assert(!ph.contains('/')) by {
        if ph.contains('/') {
            let k = choose|k: int| 0 <= k < ph.len() && ph[k] == '/';
            assert(ph[k] != '/');
        }
    }
    lemma_first_component(ph, x);
    assert(p.subrange(0, 10) =~= ph);
    assert(p[10] == '/');
    assert(crate::resolve::names_placeholder(p));
    assert(p.subrange(10, p.len() as int) =~= seq!['/'] + x);
    assert(crate::resolve::repo_of(root, d, host, p) =~= target);
    assert(location(c, p) == Ok::<Seq<char>, crate::resolve::ResolveError>(seq!['/'] + x));
    assert((root + seq!['/']).is_prefix_of(target)) by {
        assert(target.subrange(0, root.len() + 1int) =~= root + seq!['/']);
    }
    assert(target.subrange(root.len() + 1int, target.len() as int) =~= sub);
    if host.len() > 0 {
        lemma_first_component(host, x);
    } else {
        assert(sub =~= seq!['/'] + x);
    }
    assert(!(d + seq!['/']).is_prefix_of(sub)) by {
        if (d + seq!['/']).is_prefix_of(sub) {
            let n = d.len() as int;
            let m = host.len() as int;
            assert(sub.subrange(0, n + 1) =~= d + seq!['/']);
            if n < m {
                assert(sub[n] == host[n]);
                assert(sub[n] == (d + seq!['/'])[n]);
                assert(host[n] == '/');
                assert(host.contains('/'));
            } else if n > m {
                assert(sub[m] == '/');
                assert(sub[m] == (d + seq!['/'])[m]);
                assert(d[m] == '/');
                assert(d.contains('/'));
            } else {
                assert forall|k: int| 0 <= k < n implies d[k] == host[k] by {
                    assert(sub[k] == host[k]);
                    assert(sub[k] == (d + seq!['/'])[k]);
                }
                assert(d =~= host);
            }
        }
    }
    assert((host + seq!['/']).is_prefix_of(sub)) by {
        assert(sub.subrange(0, host.len() + 1int) =~= host + seq!['/']);
    }
    assert(sub.subrange(host.len() as int, sub.len() as int) =~= seq!['/'] + x);
    assert(ph + (seq!['/'] + x) =~= p);
}

} // verus!
