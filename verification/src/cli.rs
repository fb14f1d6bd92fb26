//! What the command line decides: which command runs, which rows are shown, and how
//! the process ends. Reading the arguments and the directory, and drawing the table, is
//! left to the caller.

use crate::ruby::{detect_version_mismatches, detection, DirectoryEntry, ScanError};
use crate::version::{Mismatch, RubyVersion, VersionMismatch, VersionRecord};
use vstd::prelude::*;
use vstd::string::*;

verus! {

/// The options of the `check` command.
#[derive(Debug, Clone, Copy)]
pub struct Check {
    /// The code with which the process ends where a mismatch was found.
    pub mismatch_returncode: i32,
}

/// The options of the `print` command: it has none.
#[derive(Debug, Clone, Copy)]
pub struct Print {}

/// The command that was asked for.
#[derive(Debug, Clone, Copy)]
pub enum SubCommand {
    /// Report the mismatches, and end with the chosen code if there is one.
    Check(Check),
    /// Report the mismatches.
    Print(Print),
}

/// The arguments of one run.
#[derive(Debug)]
pub struct Opts {
    /// The directory to look at.
    pub path: String,
    /// The command; without one the run is that of `print`.
    pub subcmd: Option<SubCommand>,
}

/// What a run found and how it is to end.
#[derive(Debug)]
pub struct Report {
    /// The mismatches, in the order in which the pairs were compared.
    pub mismatches: Vec<VersionMismatch>,
    /// The rows of the table to show; none where nothing differs.
    pub rows: Vec<Vec<String>>,
    /// The code with which the process is to end.
    pub exit_code: i32,
}

/// The display forms of the records, in their order.
pub open spec fn display_cells(versions: Seq<VersionRecord>) -> Seq<Seq<char>> {
    Seq::new(versions.len(), |i: int| versions[i].display())
}

/// The files in which the records were found, in the order of the records.
pub open spec fn location_cells(versions: Seq<VersionRecord>) -> Seq<Seq<char>> {
    Seq::new(versions.len(), |i: int| versions[i].found_in_file)
}

/// The three rows of one mismatch: its level, the versions, and where each was found.
pub open spec fn mismatch_rows(mismatch: Mismatch) -> Seq<Seq<Seq<char>>> {
    seq![
        seq![mismatch.level.name()],
        display_cells(mismatch.versions),
        location_cells(mismatch.versions),
    ]
}

/// The rows of the table: those of each mismatch, in the order of the mismatches.
pub open spec fn table_rows(mismatches: Seq<Mismatch>) -> Seq<Seq<Seq<char>>>
    decreases mismatches.len(),
{
    if mismatches.len() == 0 {
        Seq::empty()
    } else {
        table_rows(mismatches.drop_last()) + mismatch_rows(mismatches.last())
    }
}

/// The code with which a run ends: that of the `check` command where it found a
/// mismatch, and 0 in every other case.
pub open spec fn exit_code(subcmd: Option<SubCommand>, mismatch_count: nat) -> int {
    match subcmd {
        Some(SubCommand::Check(check)) => if mismatch_count > 0 {
            check.mismatch_returncode as int
        } else {
            0
        },
        _ => 0,
    }
}

/// The display form of each record.
fn display_row(versions: &Vec<RubyVersion>) -> (cells: Vec<String>)
    ensures
        cells.deep_view() == display_cells(versions.deep_view()),
{
    let mut cells: Vec<String> = Vec::new();
    let mut i: usize = 0;
    while i < versions.len()
        invariant
            i <= versions.len(),
            cells@.len() == i,
            forall|k: int| 0 <= k < i ==> (#[trigger] cells@[k])@ == versions@[k]@.display(),
        decreases versions.len() - i,
    {
        cells.push(versions[i].to_string());
        i = i + 1;
    }
    assert(cells.deep_view() =~= display_cells(versions.deep_view()));
    cells
}

/// The file of each record.
fn location_row(versions: &Vec<RubyVersion>) -> (cells: Vec<String>)
    ensures
        cells.deep_view() == location_cells(versions.deep_view()),
{
    let mut cells: Vec<String> = Vec::new();
    let mut i: usize = 0;
    while i < versions.len()
        invariant
            i <= versions.len(),
            cells@.len() == i,
            forall|k: int| 0 <= k < i ==> (#[trigger] cells@[k])@ == versions@[k]@.found_in_file,
        decreases versions.len() - i,
    {
        cells.push(versions[i].found_in_file.clone());
        i = i + 1;
    }
    assert(cells.deep_view() =~= location_cells(versions.deep_view()));
    cells
}

/// The rows of the table that shows the mismatches; no row where there is none.
pub fn print_mismatches(mismatches: &Vec<VersionMismatch>) -> (rows: Vec<Vec<String>>)
    ensures
        rows.deep_view() == table_rows(mismatches.deep_view()),
{
    let mut rows: Vec<Vec<String>> = Vec::new();
    let ghost all = mismatches.deep_view();
    let mut i: usize = 0;
    assert(all.take(0) =~= Seq::<Mismatch>::empty());
    assert(rows.deep_view() =~= table_rows(all.take(0)));
    while i < mismatches.len()
        invariant
            i <= mismatches.len(),
            all == mismatches.deep_view(),
            rows.deep_view() == table_rows(all.take(i as int)),
        decreases mismatches.len() - i,
    {
        let mismatch = &mismatches[i];
        let ghost before = rows.deep_view();
        let mut level_row: Vec<String> = Vec::new();
        level_row.push(mismatch.level.to_string());
        let versions_row = display_row(&mismatch.versions);
        let locations_row = location_row(&mismatch.versions);
        proof {
            assert(level_row.deep_view() =~= seq![mismatch.level.name()]);
            assert(all.take(i + 1).drop_last() =~= all.take(i as int));
            assert(all.take(i + 1).last() == mismatch@);
        }
        rows.push(level_row);
        rows.push(versions_row);
        rows.push(locations_row);
        assert(rows.deep_view() =~= before + mismatch_rows(mismatch@));
        i = i + 1;
    }
    assert(all.take(i as int) =~= all);
    rows
}

/// Finds the mismatches in the listing and lays out the rows that show them.
pub fn collect_and_print_mismatches(listing: Option<Vec<DirectoryEntry>>) -> (found: Result<
    (Vec<VersionMismatch>, Vec<Vec<String>>),
    ScanError,
>)
    ensures
        match detection(listing.deep_view()) {
            Ok(expected) => found matches Ok(shown) && shown.0.deep_view() == expected
                && shown.1.deep_view() == table_rows(expected),
            Err(e) => found matches Err(failure) && failure == e,
        },
{
    match detect_version_mismatches(listing) {
        Ok(mismatches) => {
            let rows = print_mismatches(&mismatches);
            Ok((mismatches, rows))
        },
        Err(failure) => Err(failure),
    }
}

/// The `print` command: reports the mismatches and ends with 0, whatever was found.
pub fn print_command(listing: Option<Vec<DirectoryEntry>>) -> (report: Result<Report, ScanError>)
    ensures
        match detection(listing.deep_view()) {
            Ok(expected) => report matches Ok(r) && r.mismatches.deep_view() == expected
                && r.rows.deep_view() == table_rows(expected) && r.exit_code == 0,
            Err(e) => report matches Err(failure) && failure == e,
        },
{
    match collect_and_print_mismatches(listing) {
        Ok((mismatches, rows)) => Ok(Report { mismatches, rows, exit_code: 0 }),
        Err(failure) => Err(failure),
    }
}

/// The `check` command: reports the mismatches and, where there is one, ends with the
/// code that `check` holds; with 0 where there is none.
pub fn check_command(listing: Option<Vec<DirectoryEntry>>, check: Check) -> (report: Result<
    Report,
    ScanError,
>)
    ensures
        match detection(listing.deep_view()) {
            Ok(expected) => report matches Ok(r) && r.mismatches.deep_view() == expected
                && r.rows.deep_view() == table_rows(expected) && r.exit_code == exit_code(
                Some(SubCommand::Check(check)),
                expected.len(),
            ),
            Err(e) => report matches Err(failure) && failure == e,
        },
{
    match collect_and_print_mismatches(listing) {
        Ok((mismatches, rows)) => {
            let exit_code = if mismatches.len() > 0 {
                check.mismatch_returncode
            } else {
                0
            };
            assert(mismatches.deep_view().len() == mismatches.len());
            Ok(Report { mismatches, rows, exit_code })
        },
        Err(failure) => Err(failure),
    }
}

/// Runs the command that the options name on the listing of the directory; `print`
/// where they name none. `None` stands for a directory that could not be listed.
pub fn execute_cli(opts: Opts, listing: Option<Vec<DirectoryEntry>>) -> (report: Result<
    Report,
    ScanError,
>)
    ensures
        match detection(listing.deep_view()) {
            Ok(expected) => report matches Ok(r) && r.mismatches.deep_view() == expected
                && r.rows.deep_view() == table_rows(expected) && r.exit_code == exit_code(
                opts.subcmd,
                expected.len(),
            ),
            Err(e) => report matches Err(failure) && failure == e,
        },
{
    match opts.subcmd {
        Some(SubCommand::Check(check)) => check_command(listing, check),
        Some(SubCommand::Print(_)) => print_command(listing),
        None => print_command(listing),
    }
}

} // verus!
