//! Tests of configuration parsing and validation.

use gerrit_rust::config::Config;
use gerrit_rust::discover::{ConfigFile, DirPath};

fn file(contents: &str) -> ConfigFile {
    ConfigFile { dir: DirPath { components: Vec::new() }, contents: contents.to_string() }
}

fn chars(s: &str) -> Vec<char> {
    s.chars().collect()
}

#[test]
fn complete_config_is_valid() {
    let c = Config::from_configfile(file("baseurl=http://review.example.com\nusername=jdoe\npassword=s3cret\n"));
    assert!(c.is_valid());
    assert_eq!(c.baseurl, chars("http://review.example.com"));
    assert_eq!(c.username, Some(chars("jdoe")));
    assert_eq!(c.password, Some(chars("s3cret")));
    assert_eq!(c.dry_run, false);
}

#[test]
fn baseurl_alone_is_enough() {
    let c = Config::from_configfile(file("baseurl=http://review.example.com\n"));
    assert!(c.is_valid());
    assert_eq!(c.username, None);
    assert_eq!(c.password, None);
}

#[test]
fn comments_and_blank_lines_are_ignored() {
    let c = Config::from_configfile(file("# review server\n\n   \nbaseurl=http://x\n"));
    assert!(c.is_valid());
    assert_eq!(c.baseurl, chars("http://x"));
}

#[test]
fn missing_baseurl_is_invalid() {
    let c = Config::from_configfile(file("username=jdoe\n"));
    assert!(!c.is_valid());
}

#[test]
fn empty_baseurl_is_invalid() {
    let c = Config::from_configfile(file("baseurl=\n"));
    assert!(!c.is_valid());
}

#[test]
fn empty_contents_are_invalid() {
    let c = Config::from_configfile(file(""));
    assert!(!c.is_valid());
}

#[test]
fn malformed_line_is_invalid() {
    let c = Config::from_configfile(file("baseurl=http://x\nthis line has no separator\n"));
    assert!(!c.is_valid());
}

#[test]
fn ill_formed_key_is_invalid() {
    let c = Config::from_configfile(file("Base Url=http://x\n"));
    assert!(!c.is_valid());
}

#[test]
fn last_setting_of_a_key_wins() {
    let c = Config::from_configfile(file("baseurl=http://first\nbaseurl=http://second\n"));
    assert!(c.is_valid());
    assert_eq!(c.baseurl, chars("http://second"));
}

#[test]
fn unknown_keys_are_ignored() {
    let c = Config::from_configfile(file("baseurl=http://x\nport=8080\nroot=true\n"));
    assert!(c.is_valid());
}

#[test]
fn value_may_contain_equals_signs() {
    let c = Config::from_configfile(file("baseurl=http://x/?a=1\n"));
    assert!(c.is_valid());
    assert_eq!(c.baseurl, chars("http://x/?a=1"));
}

#[test]
fn set_dry_run_last_write_wins() {
    let mut c = Config::from_configfile(file("baseurl=http://x\n"));
    assert_eq!(c.dry_run, false);
    c.set_dry_run(true);
    assert_eq!(c.dry_run, true);
    c.set_dry_run(true);
    assert_eq!(c.dry_run, true);
    c.set_dry_run(false);
    assert_eq!(c.dry_run, false);
    assert!(c.is_valid());
    assert_eq!(c.baseurl, chars("http://x"));
}
