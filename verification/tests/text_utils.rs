//! String utilities: equality, replacement, template filling.

use swarm_rs::text::{fill_template, format_os_path, join, replace_all, str_eq, u64_to_string};

#[test]
fn str_eq_compares_by_characters() {
    assert!(str_eq("abc", "abc"));
    assert!(!str_eq("abc", "abd"));
    assert!(!str_eq("abc", "ab"));
    assert!(str_eq("", ""));
}

#[test]
fn replace_all_replaces_every_occurrence() {
    assert_eq!(replace_all("a-b-c", "-", "+"), "a+b+c");
    assert_eq!(replace_all("aaaa", "aa", "b"), "bb");
    assert_eq!(replace_all("nothing here", "xyz", "!"), "nothing here");
    assert_eq!(replace_all("", "x", "y"), "");
}

#[test]
fn fill_template_substitutes_each_entry() {
    let values = vec![
        ("name".to_string(), "World".to_string()),
        ("greeting".to_string(), "Hello".to_string()),
    ];
    assert_eq!(fill_template("{greeting}, {name}!", &values), "Hello, World!");
    assert_eq!(fill_template("{name}{name}", &values), "WorldWorld");
    assert_eq!(fill_template("no keys", &values), "no keys");
}

#[test]
fn numbers_render_in_decimal() {
    assert_eq!(u64_to_string(0), "0");
    assert_eq!(u64_to_string(7), "7");
    assert_eq!(u64_to_string(321), "321");
    assert_eq!(u64_to_string(1000), "1000");
}

#[test]
fn join_puts_the_separator_between_parts() {
    let parts = vec!["a".to_string(), "b".to_string(), "c".to_string()];
    assert_eq!(join(&parts, ","), "a,b,c");
    let one = vec!["only".to_string()];
    assert_eq!(join(&one, ","), "only");
    let none: Vec<String> = vec![];
    assert_eq!(join(&none, ","), "");
}

#[test]
fn os_paths_format_as_urls() {
    assert_eq!(format_os_path("\\\\?\\C:/data"), "C:/data");
    assert_eq!(format_os_path("/var/data"), "file:///var/data");
    assert_eq!(format_os_path(""), "file://");
}
