use dots::resolve::{locate, needs_hostname, resolve, system_path, ResolveError};
use dots::{config_path, logical_path, link_subpath, Config, ConfigError};

fn config() -> Config {
    Config::new("/home/u/.config/dots/files".to_string(), "common".to_string(), vec![]).unwrap()
}

const ROOT: &str = "/home/u/.config/dots/files";

#[test]
fn relative_path_drops_its_subdir() {
    let r = resolve("common/bashrc", &config(), "box").unwrap();
    assert_eq!(r.repo_path, format!("{ROOT}/common/bashrc"));
    assert_eq!(r.system_path, "/bashrc");
}

#[test]
fn nested_relative_path() {
    let r = resolve("laptop/etc/x/y.conf", &config(), "box").unwrap();
    assert_eq!(r.repo_path, format!("{ROOT}/laptop/etc/x/y.conf"));
    assert_eq!(r.system_path, "/etc/x/y.conf");
}

#[test]
fn placeholder_is_replaced_by_hostname() {
    let r = resolve("{hostname}/etc/hosts", &config(), "box").unwrap();
    assert_eq!(r.repo_path, format!("{ROOT}/box/etc/hosts"));
    assert_eq!(r.system_path, "/etc/hosts");
}

#[test]
fn placeholder_must_be_a_whole_component() {
    let r = resolve("{hostname}x/etc/hosts", &config(), "box").unwrap();
    assert_eq!(r.repo_path, format!("{ROOT}/{{hostname}}x/etc/hosts"));
    assert_eq!(r.system_path, "/etc/hosts");
}

#[test]
fn placeholder_only_counts_first() {
    let r = resolve("common/{hostname}/x", &config(), "box").unwrap();
    assert_eq!(r.repo_path, format!("{ROOT}/common/{{hostname}}/x"));
    assert_eq!(r.system_path, "/{hostname}/x");
}

#[test]
fn absolute_path_shortcut() {
    let r = resolve("/a/b", &config(), "box").unwrap();
    assert_eq!(r.system_path, "/a/b");
    assert_eq!(r.repo_path, format!("{ROOT}/common/a/b"));
}

#[test]
fn absolute_path_with_placeholder() {
    let r = resolve("/{hostname}/x", &config(), "box").unwrap();
    assert_eq!(r.system_path, "/{hostname}/x");
    assert_eq!(r.repo_path, format!("{ROOT}/common/box/x"));
}

#[test]
fn single_component_is_invalid() {
    assert_eq!(system_path("bashrc"), Err(ResolveError::InvalidPath));
    assert_eq!(resolve("bashrc", &config(), "box").err(), Some(ResolveError::InvalidPath));
}

#[test]
fn root_alone_is_invalid() {
    assert_eq!(system_path("/"), Err(ResolveError::InvalidPath));
    assert_eq!(locate("/", &config()), Err(ResolveError::InvalidPath));
}

#[test]
fn empty_and_bare_subdir_are_invalid() {
    assert_eq!(system_path(""), Err(ResolveError::InvalidPath));
    assert_eq!(system_path("common/"), Err(ResolveError::InvalidPath));
}

#[test]
fn system_path_of_each_shape() {
    assert_eq!(system_path("common/etc/x"), Ok("/etc/x".to_string()));
    assert_eq!(system_path("/etc/x"), Ok("/etc/x".to_string()));
    assert_eq!(system_path("{hostname}/x"), Ok("/x".to_string()));
}

#[test]
fn system_path_inside_repository_is_refused() {
    let p = format!("x{ROOT}/common/a");
    assert_eq!(locate(&p, &config()), Err(ResolveError::InsideRepository));
    let q = format!("x{ROOT}");
    assert_eq!(locate(&q, &config()), Err(ResolveError::InsideRepository));
    let sibling = format!("x{ROOT}x/a");
    assert_eq!(locate(&sibling, &config()), Ok(format!("{ROOT}x/a")));
}

#[test]
fn absolute_default_subdir_fails_for_every_command() {
    let c = Config {
        repository_root: ROOT.to_string(),
        default_subdir: "/common".to_string(),
        list_paths: vec![],
    };
    let e = || ResolveError::Config(ConfigError::AbsoluteDefaultSubdir);
    assert_eq!(resolve("common/bashrc", &c, "box").err(), Some(e()));
    assert_eq!(locate("common/bashrc", &c), Err(e()));
    assert_eq!(locate("/etc/x", &c), Err(e()));
    assert_eq!(config_path("/etc/x", &c, "box"), Err(e()));
    assert_eq!(
        Config::new(ROOT.to_string(), "/common".to_string(), vec![]).err(),
        Some(ConfigError::AbsoluteDefaultSubdir)
    );
    assert_eq!(c.check(), Err(ConfigError::AbsoluteDefaultSubdir));
}

#[test]
fn other_config_errors() {
    let cases = [
        (ROOT, "a/b", ConfigError::SeparatorInDefaultSubdir),
        (ROOT, "", ConfigError::EmptyDefaultSubdir),
        ("files", "common", ConfigError::MalformedRepositoryRoot),
        ("/files/", "common", ConfigError::MalformedRepositoryRoot),
        ("", "common", ConfigError::MalformedRepositoryRoot),
    ];
    for (root, sub, e) in cases {
        assert_eq!(Config::new(root.to_string(), sub.to_string(), vec![]).err(), Some(e));
    }
}

#[test]
fn config_path_matches_resolve() {
    assert_eq!(
        config_path("common/bashrc", &config(), "box"),
        Ok(format!("{ROOT}/common/bashrc"))
    );
    assert_eq!(config_path("bashrc", &config(), "box"), Err(ResolveError::InvalidPath));
}

#[test]
fn hostname_needed_only_for_placeholder() {
    assert!(needs_hostname("{hostname}/x"));
    assert!(needs_hostname("/{hostname}/x"));
    assert!(needs_hostname("/{hostname}"));
    assert!(!needs_hostname("common/x"));
    assert!(!needs_hostname("{hostname}x/y"));
    assert!(!needs_hostname("a/{hostname}/y"));
}

#[test]
fn resolution_round_trip_through_default_subdir() {
    let c = config();
    let first = resolve("common/etc/x", &c, "box").unwrap();
    assert_eq!(first.system_path, "/etc/x");
    let again = resolve(&first.system_path, &c, "box").unwrap();
    assert_eq!(again.repo_path, first.repo_path);
    let prefixed = resolve(&format!("common{}", first.system_path), &c, "box").unwrap();
    assert_eq!(prefixed.repo_path, first.repo_path);
}

#[test]
fn other_subdir_does_not_round_trip_through_default() {
    let c = config();
    let first = resolve("laptop/etc/x", &c, "box").unwrap();
    let again = resolve(&first.system_path, &c, "box").unwrap();
    assert_ne!(again.repo_path, first.repo_path);
}

#[test]
fn placeholder_symmetry() {
    let c = config();
    let r = resolve("{hostname}/x", &c, "box").unwrap();
    let sub = link_subpath(&r.system_path, &r.repo_path, ROOT).unwrap();
    assert_eq!(sub, "box/x");
    assert_eq!(logical_path(&sub, "common", "box"), "{hostname}/x");
}
