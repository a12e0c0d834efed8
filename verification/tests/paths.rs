//! Path rules: extension handling, eligibility of rotated files, the
//! dated-output name shape, and output prefix computation.

use logboop::paths::{
    add_extension, check_date_suffix, check_gz_extension, check_numeric_extension, output_prefix,
};

#[test]
fn add_extension_to_bare_name() {
    let mut p = "a_file".to_string();
    add_extension(&mut p, "gz");
    assert_eq!(p, "a_file.gz");
}

#[test]
fn add_extension_keeps_existing_one() {
    let mut p = "var/log/syslog.1".to_string();
    add_extension(&mut p, "gz");
    assert_eq!(p, "var/log/syslog.1.gz");
}

#[test]
fn add_empty_extension_changes_nothing() {
    let mut p = "a_file".to_string();
    add_extension(&mut p, "");
    assert_eq!(p, "a_file");
}

#[test]
fn add_extension_to_directory_path_changes_nothing() {
    let mut p = "var/log/".to_string();
    add_extension(&mut p, "gz");
    assert_eq!(p, "var/log/");
}

#[test]
fn add_extension_ignores_dots_in_directories() {
    let mut p = "dir.d/file".to_string();
    add_extension(&mut p, "gz");
    assert_eq!(p, "dir.d/file.gz");
}

#[test]
fn add_extension_to_hidden_file() {
    let mut p = "dir/.hidden".to_string();
    add_extension(&mut p, "gz");
    assert_eq!(p, "dir/.hidden.gz");
}

#[test]
fn numeric_extension_marks_rotated_files() {
    assert!(check_numeric_extension("var/log/syslog.1"));
    assert!(check_numeric_extension("var/log/daemon.log.12"));
    assert!(!check_numeric_extension("var/log/syslog"));
    assert!(!check_numeric_extension("var/log/syslog.gz"));
    assert!(!check_numeric_extension("var/log/syslog.1a"));
    // A name that is nothing but a dotted digit has no extension.
    assert!(!check_numeric_extension("var/log/.1"));
    // A trailing dot leaves an empty extension, which is not numeric.
    assert!(!check_numeric_extension("var/log/syslog."));
}

#[test]
fn gz_extension_marks_compressed_files() {
    assert!(check_gz_extension("var/log/syslog.2.gz"));
    assert!(check_gz_extension("b.gz"));
    assert!(!check_gz_extension("var/log/syslog.2"));
    assert!(!check_gz_extension("archive.tgz"));
    assert!(!check_gz_extension("gz"));
    assert!(!check_gz_extension("a.b/gz"));
}

#[test]
fn date_suffix_marks_split_output() {
    assert!(check_date_suffix("out/var/log/syslog-2020-05-12"));
    assert!(check_date_suffix("out/messages-0001-01-01"));
    assert!(!check_date_suffix("out/var/log/syslog-2020-05-1"));
    assert!(!check_date_suffix("out/var/log/syslog"));
    assert!(!check_date_suffix("2020-05-12"));
}

#[test]
fn output_prefix_mirrors_and_strips() {
    let r = output_prefix("var/log/apache2/access.log.1", "var/log", "out");
    assert_eq!(r.as_deref(), Some("out/apache2/access.log"));
}

#[test]
fn output_prefix_without_rotation_suffix() {
    let r = output_prefix("var/log/messages.3", "var/log/", "out/");
    assert_eq!(r.as_deref(), Some("out/messages"));
}

#[test]
fn output_prefix_with_empty_input_root() {
    let r = output_prefix("file.1", "", "out");
    assert_eq!(r.as_deref(), Some("out/file"));
}

#[test]
fn output_prefix_outside_root_is_none() {
    assert_eq!(output_prefix("tmp/file.1", "var/log", "out"), None);
    // A shared name prefix that breaks a component is not under the root.
    assert_eq!(output_prefix("var/logs/file.1", "var/log", "out"), None);
}
