use rubsty::cli::{
    check_command, collect_and_print_mismatches, execute_cli, print_command, print_mismatches,
    Check, Opts, Print, Report, SubCommand,
};
use rubsty::ruby::{build_version_mismatches, process_ruby_version_file, DirectoryEntry, ScanError};

fn listing(path: &str) -> Option<Vec<DirectoryEntry>> {
    let directory = path.trim_start_matches("./");
    let tool_line = if directory == "fixtures/different_versions" {
        "ruby 2.7.2\n"
    } else if directory == "fixtures/same_versions" {
        "ruby 2.7.1\n"
    } else {
        return None;
    };
    Some(vec![
        DirectoryEntry {
            filename: String::from(".ruby-version"),
            filepath: format!("{}/.ruby-version", directory),
            content: String::from("2.7.1\n"),
        },
        DirectoryEntry {
            filename: String::from(".tool-versions"),
            filepath: format!("{}/.tool-versions", directory),
            content: String::from(tool_line),
        },
    ])
}

fn run(opts: Opts) -> Result<Report, ScanError> {
    let entries = listing(opts.path.as_str());
    execute_cli(opts, entries)
}

fn row(cells: &[&str]) -> Vec<String> {
    cells.iter().map(|cell| String::from(*cell)).collect()
}

#[test]
fn cli_test_default_command() {
    let opts = Opts {
        path: String::from("fixtures/different_versions"),
        subcmd: None,
    };
    let report = run(opts).unwrap();
    assert_eq!(report.exit_code, 0);
    assert_eq!(report.mismatches.len(), 1);
}

#[test]
fn cli_test_default_command_without_mismatches() {
    let opts = Opts {
        path: String::from("fixtures/same_versions"),
        subcmd: None,
    };
    let report = run(opts).unwrap();
    assert_eq!(report.exit_code, 0);
    assert!(report.mismatches.is_empty());
    assert!(report.rows.is_empty());
}

#[test]
fn cli_test_print_command() {
    let opts = Opts {
        path: String::from("fixtures/different_versions"),
        subcmd: Some(SubCommand::Print(Print {})),
    };
    let report = run(opts).unwrap();
    assert_eq!(report.exit_code, 0);
    assert_eq!(report.mismatches.len(), 1);
}

#[test]
fn cli_test_check_command() {
    let opts = Opts {
        path: String::from("fixtures/different_versions"),
        subcmd: Some(SubCommand::Check(Check {
            mismatch_returncode: 0,
        })),
    };
    let report = run(opts).unwrap();
    assert_eq!(report.exit_code, 0);
    assert_eq!(report.mismatches.len(), 1);
}

#[test]
fn integration_test_test_default_command() {
    let report = run(Opts {
        path: String::from("./fixtures/different_versions"),
        subcmd: None,
    });
    assert_eq!(report.unwrap().exit_code, 0);
}

#[test]
fn integration_test_test_default_command_without_mismatches() {
    let report = run(Opts {
        path: String::from("./fixtures/same_versions"),
        subcmd: None,
    });
    assert_eq!(report.unwrap().exit_code, 0);
}

#[test]
fn integration_test_test_check_command() {
    let report = run(Opts {
        path: String::from("./fixtures/different_versions"),
        subcmd: Some(SubCommand::Check(Check {
            mismatch_returncode: 1,
        })),
    });
    assert_eq!(report.unwrap().exit_code, 1);
}

#[test]
fn integration_test_test_print_command() {
    let report = run(Opts {
        path: String::from("./fixtures/different_versions"),
        subcmd: Some(SubCommand::Print(Print {})),
    });
    assert_eq!(report.unwrap().exit_code, 0);
}

#[test]
fn check_ends_with_the_chosen_code_on_a_mismatch() {
    for code in [1, 2, 3, 42, 255, -1, i32::MAX, i32::MIN] {
        let report = check_command(
            listing("fixtures/different_versions"),
            Check {
                mismatch_returncode: code,
            },
        )
        .unwrap();
        assert_eq!(report.exit_code, code);
    }
}

#[test]
fn check_ends_with_zero_without_mismatch() {
    for code in [1, 7, -3] {
        let report = check_command(
            listing("fixtures/same_versions"),
            Check {
                mismatch_returncode: code,
            },
        )
        .unwrap();
        assert_eq!(report.exit_code, 0);
        assert!(report.rows.is_empty());
    }
}

#[test]
fn print_ends_with_zero_whatever_was_found() {
    assert_eq!(
        print_command(listing("fixtures/different_versions"))
            .unwrap()
            .exit_code,
        0
    );
    assert_eq!(
        print_command(listing("fixtures/same_versions"))
            .unwrap()
            .exit_code,
        0
    );
}

#[test]
fn every_command_fails_without_a_listing() {
    assert_eq!(
        print_command(None).err(),
        Some(ScanError::DirectoryAccess)
    );
    assert_eq!(
        check_command(
            None,
            Check {
                mismatch_returncode: 1
            }
        )
        .err(),
        Some(ScanError::DirectoryAccess)
    );
    let report = run(Opts {
        path: String::from("no/such/directory"),
        subcmd: None,
    });
    assert_eq!(report.err(), Some(ScanError::DirectoryAccess));
    assert_eq!(
        collect_and_print_mismatches(None).err(),
        Some(ScanError::DirectoryAccess)
    );
}

#[test]
fn every_command_fails_on_a_malformed_file() {
    let malformed = || {
        Some(vec![DirectoryEntry {
            filename: String::from(".ruby-version"),
            filepath: String::from("d/.ruby-version"),
            content: String::from("not-a-version"),
        }])
    };
    assert_eq!(
        print_command(malformed()).err(),
        Some(ScanError::MalformedVersionFile)
    );
    assert_eq!(
        check_command(
            malformed(),
            Check {
                mismatch_returncode: 1
            }
        )
        .err(),
        Some(ScanError::MalformedVersionFile)
    );
    let opts = Opts {
        path: String::from("d"),
        subcmd: Some(SubCommand::Check(Check {
            mismatch_returncode: 5,
        })),
    };
    assert_eq!(
        execute_cli(opts, malformed()).err(),
        Some(ScanError::MalformedVersionFile)
    );
}

#[test]
fn rows_of_one_mismatch() {
    let (mismatches, rows) =
        collect_and_print_mismatches(listing("fixtures/different_versions")).unwrap();
    assert_eq!(mismatches.len(), 1);
    assert_eq!(
        rows,
        vec![
            row(&["Teeny"]),
            row(&["2.7.1", "2.7.2"]),
            row(&[
                "fixtures/different_versions/.ruby-version",
                "fixtures/different_versions/.tool-versions"
            ]),
        ]
    );
}

#[test]
fn rows_of_several_mismatches() {
    let mismatches = build_version_mismatches(vec![
        process_ruby_version_file("1.0.0", String::from("a")).unwrap(),
        process_ruby_version_file("1.0.0-p7", String::from("b")).unwrap(),
        process_ruby_version_file("2.0", String::from("c")).unwrap(),
    ]);
    assert_eq!(
        print_mismatches(&mismatches),
        vec![
            row(&["Patch"]),
            row(&["1.0.0", "1.0.0-p7"]),
            row(&["a", "b"]),
            row(&["Major"]),
            row(&["1.0.0", "2.0"]),
            row(&["a", "c"]),
            row(&["Major"]),
            row(&["1.0.0-p7", "2.0"]),
            row(&["b", "c"]),
        ]
    );
}

#[test]
fn no_rows_without_mismatch() {
    assert!(print_mismatches(&Vec::new()).is_empty());
}
