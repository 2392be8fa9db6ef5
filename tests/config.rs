use dots::{Config, ConfigError};

const ROOT: &str = "/home/u/.config/dots/files";

#[test]
fn reads_both_keys() {
    let c = Config::parse("default_subdir=common\nlist_paths=/etc, /usr/lib\n", ROOT.to_string())
        .unwrap();
    assert_eq!(c.default_subdir, "common");
    assert_eq!(c.list_paths, vec!["/etc".to_string(), "/usr/lib".to_string()]);
    assert_eq!(c.repository_root, ROOT);
}

#[test]
fn values_are_trimmed_and_crlf_accepted() {
    let c = Config::parse("default_subdir=  common \r\nlist_paths= a ,b\r\n", ROOT.to_string())
        .unwrap();
    assert_eq!(c.default_subdir, "common");
    assert_eq!(c.list_paths, vec!["a".to_string(), "b".to_string()]);
}

#[test]
fn list_paths_lines_add_up() {
    let c = Config::parse("list_paths=a,\ndefault_subdir=x\nlist_paths=b", ROOT.to_string())
        .unwrap();
    assert_eq!(c.list_paths, vec!["a".to_string(), String::new(), "b".to_string()]);
    assert_eq!(c.default_subdir, "x");
}

#[test]
fn later_default_subdir_wins() {
    let c = Config::parse("default_subdir=a\ndefault_subdir=b", ROOT.to_string()).unwrap();
    assert_eq!(c.default_subdir, "b");
}

#[test]
fn line_without_equals_is_refused() {
    let e = Config::parse("default_subdir=common\n\nlist_paths=a", ROOT.to_string()).err();
    assert_eq!(e, Some(ConfigError::MissingEquals(1)));
}

#[test]
fn unknown_key_is_refused() {
    let e = Config::parse("default_subdir=common\ncolour=blue", ROOT.to_string()).err();
    assert_eq!(e, Some(ConfigError::UnknownKey("colour".to_string())));
    let spaced = Config::parse("default_subdir =common", ROOT.to_string()).err();
    assert_eq!(spaced, Some(ConfigError::UnknownKey("default_subdir ".to_string())));
}

#[test]
fn missing_default_subdir_is_refused() {
    let e = Config::parse("list_paths=/etc", ROOT.to_string()).err();
    assert_eq!(e, Some(ConfigError::EmptyDefaultSubdir));
    assert_eq!(Config::parse("", ROOT.to_string()).err(), Some(ConfigError::EmptyDefaultSubdir));
}

#[test]
fn absolute_default_subdir_is_refused() {
    let e = Config::parse("default_subdir=/common", ROOT.to_string()).err();
    assert_eq!(e, Some(ConfigError::AbsoluteDefaultSubdir));
}
