use rubsty::ruby::{
    build_version_mismatches, detect_version_mismatches, parse_files_for_versions,
    process_ruby_version_file, DirectoryEntry, ScanError,
};
use rubsty::version::VersionLevel;

fn file(filename: &str, content: &str) -> DirectoryEntry {
    DirectoryEntry {
        filename: String::from(filename),
        filepath: format!("./{}", filename),
        content: String::from(content),
    }
}

#[test]
fn numeric_and_multi_tool_file_differ_in_teeny() {
    let listing = vec![
        file(".ruby-version", "2.7.1"),
        file(".tool-versions", "ruby 2.7.2"),
    ];
    let mismatches = detect_version_mismatches(Some(listing)).unwrap();
    assert_eq!(mismatches.len(), 1);
    assert_eq!(mismatches[0].level, VersionLevel::Teeny);
    assert_eq!(mismatches[0].versions.len(), 2);
    assert_eq!(mismatches[0].versions[0].to_string(), "2.7.1");
    assert_eq!(mismatches[0].versions[0].found_in_file, "./.ruby-version");
    assert_eq!(mismatches[0].versions[1].to_string(), "2.7.2");
    assert_eq!(mismatches[0].versions[1].found_in_file, "./.tool-versions");
}

#[test]
fn numeric_and_multi_tool_file_agree() {
    let listing = vec![
        file(".ruby-version", "2.7.1"),
        file(".tool-versions", "ruby 2.7.1"),
    ];
    let mismatches = detect_version_mismatches(Some(listing)).unwrap();
    assert_eq!(mismatches.len(), 0);
}

#[test]
fn multi_tool_file_without_ruby_line() {
    let versions =
        parse_files_for_versions(vec![file(".tool-versions", "nodejs 14.0.0\npython 3.9.0")])
            .unwrap();
    assert_eq!(versions.len(), 0);
    let mismatches = detect_version_mismatches(Some(vec![file(
        ".tool-versions",
        "nodejs 14.0.0\npython 3.9.0",
    )]))
    .unwrap();
    assert_eq!(mismatches.len(), 0);
}

#[test]
fn numeric_file_that_is_no_version() {
    let outcome = detect_version_mismatches(Some(vec![file(".ruby-version", "not-a-version")]));
    assert_eq!(outcome.err(), Some(ScanError::MalformedVersionFile));
}

#[test]
fn three_sources_of_which_one_differs() {
    let versions = vec![
        process_ruby_version_file("1.0.0", String::from("first")).unwrap(),
        process_ruby_version_file("1.0.0", String::from("second")).unwrap(),
        process_ruby_version_file("2.0.0", String::from("third")).unwrap(),
    ];
    let mismatches = build_version_mismatches(versions);
    assert_eq!(mismatches.len(), 2);
    assert_eq!(mismatches[0].level, VersionLevel::Major);
    assert_eq!(mismatches[0].versions[0].found_in_file, "first");
    assert_eq!(mismatches[0].versions[0].to_string(), "1.0.0");
    assert_eq!(mismatches[0].versions[1].found_in_file, "third");
    assert_eq!(mismatches[0].versions[1].to_string(), "2.0.0");
    assert_eq!(mismatches[1].level, VersionLevel::Major);
    assert_eq!(mismatches[1].versions[0].found_in_file, "second");
    assert_eq!(mismatches[1].versions[0].to_string(), "1.0.0");
    assert_eq!(mismatches[1].versions[1].found_in_file, "third");
    assert_eq!(mismatches[1].versions[1].to_string(), "2.0.0");
}
