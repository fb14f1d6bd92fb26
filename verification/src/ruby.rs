//! Finding the declared versions in a directory listing, and the mismatches among them.

use crate::grammar::{
    capture_version, chars_of, law_display_round_trip, version_at, well_formed,
};
use crate::pairs::{
    index_pairs, lemma_lists_pairs_unique, lemma_no_pairs, lemma_one_pair,
    lemma_ordered_pairs_lists, lists_pairs, next_pair, ordered_pairs, pending_pairs,
};
use crate::version::{
    same_text, version_levels, Captures, Mismatch, RubyVersion, VersionCaptures, VersionLevel,
    VersionMismatch, VersionRecord,
};
use vstd::prelude::*;
use vstd::slice::*;
use vstd::string::*;

verus! {

/// The two shapes in which a file declares the version.
#[derive(Debug, Clone, Copy, PartialEq, Eq, Structural)]
pub enum DeclarationForm {
    /// The whole content is the version.
    Numeric,
    /// One line for each tool: the name of the tool, a space, its version.
    MultiTool,
}

/// Why a scan ends without a result.
#[derive(Debug, Clone, Copy, PartialEq, Eq, Structural)]
pub enum ScanError {
    /// The directory could not be listed.
    DirectoryAccess,
    /// A file in the numeric form does not begin with a version.
    MalformedVersionFile,
}

/// One file of the directory: its name, its path, and its content as far as it was read.
#[derive(Debug)]
pub struct DirectoryEntry {
    pub filename: String,
    pub filepath: String,
    pub content: String,
}

/// A directory entry as a mathematical value: the view of a [`DirectoryEntry`].
pub struct Entry {
    pub filename: Seq<char>,
    pub filepath: Seq<char>,
    pub content: Seq<char>,
}

impl View for DirectoryEntry {
    type V = Entry;

    open spec fn view(&self) -> Entry {
        Entry { filename: self.filename@, filepath: self.filepath@, content: self.content@ }
    }
}

impl DeepView for DirectoryEntry {
    type V = Entry;

    open spec fn deep_view(&self) -> Entry {
        self@
    }
}

/// The name of the file in the numeric form.
pub open spec fn numeric_file_name() -> Seq<char> {
    ".ruby-version"@
}

/// The name of the file in the multi-tool form.
pub open spec fn multi_tool_file_name() -> Seq<char> {
    ".tool-versions"@
}

/// What a line of the multi-tool form begins with where it declares the Ruby version.
pub open spec fn runtime_label() -> Seq<char> {
    seq!['r', 'u', 'b', 'y', ' ']
}

/// The form that a file of this name has; none for any other name.
pub open spec fn form_of(filename: Seq<char>) -> Option<DeclarationForm> {
    if filename == numeric_file_name() {
        Some(DeclarationForm::Numeric)
    } else if filename == multi_tool_file_name() {
        Some(DeclarationForm::MultiTool)
    } else {
        None
    }
}

/// What a file in the numeric form declares: the version that its content begins with.
pub open spec fn numeric_declaration(content: Seq<char>) -> Option<Captures> {
    version_at(content, 0)
}

/// What one line of the multi-tool form declares: the version behind the label, where
/// the line begins with the label.
pub open spec fn line_declaration(line: Seq<char>) -> Option<Captures> {
    if line.len() >= 5 && line.subrange(0, 5) == runtime_label() {
        version_at(line, 5)
    } else {
        None
    }
}

/// The position of the first line feed of `text` at or behind `from`; the length of
/// `text` where there is none.
pub open spec fn line_end(text: Seq<char>, from: int) -> int
    decreases text.len() - from,
{
    if 0 <= from < text.len() && text[from] != '\n' {
        line_end(text, from + 1)
    } else {
        from
    }
}

/// A line ends at or behind its start, inside the text, and holds no line feed.
pub proof fn lemma_line_end_bounds(text: Seq<char>, from: int)
    requires
        0 <= from <= text.len(),
    ensures
        from <= line_end(text, from) <= text.len(),
        forall|k: int| from <= k < line_end(text, from) ==> text[k] != '\n',
        line_end(text, from) < text.len() ==> text[line_end(text, from)] == '\n',
    decreases text.len() - from,
{
    if from < text.len() && text[from] != '\n' {
        lemma_line_end_bounds(text, from + 1);
    }
}

/// What the lines of `text` declare that start at `from` or behind it: the declaration
/// of the first line that has one. `from` is the start of a line.
pub open spec fn first_declaration_from(text: Seq<char>, from: int) -> Option<Captures>
    decreases text.len() - from,
{
    if 0 <= from < text.len() {
        let end = line_end(text, from);
        match line_declaration(text.subrange(from, end)) {
            Some(captures) => Some(captures),
            None => if end < text.len() {
                proof {
                    lemma_line_end_bounds(text, from);
                }
                first_declaration_from(text, end + 1)
            } else {
                None
            },
        }
    } else {
        None
    }
}

/// What a file in the multi-tool form declares: the declaration of its first line that
/// has one.
pub open spec fn multi_tool_declaration(content: Seq<char>) -> Option<Captures> {
    first_declaration_from(content, 0)
}

/// The record of a declaration found in `file`, if there is a declaration.
pub open spec fn declared_in(captures: Option<Captures>, file: Seq<char>) -> Option<VersionRecord> {
    match captures {
        Some(c) => Some(c.found_in(file)),
        None => None,
    }
}

/// What one entry adds to a scan: a record, nothing, or the failure of the scan.
pub open spec fn entry_outcome(entry: Entry) -> Result<Option<VersionRecord>, ScanError> {
    match form_of(entry.filename) {
        Some(DeclarationForm::Numeric) => match numeric_declaration(entry.content) {
            Some(c) => Ok(Some(c.found_in(entry.filepath))),
            None => Err(ScanError::MalformedVersionFile),
        },
        Some(DeclarationForm::MultiTool) => Ok(
            declared_in(multi_tool_declaration(entry.content), entry.filepath),
        ),
        None => Ok(None),
    }
}

/// The records found in the entries, in the order of the entries; the failure of the
/// first entry that fails, if one does.
pub open spec fn scan(entries: Seq<Entry>) -> Result<Seq<VersionRecord>, ScanError>
    decreases entries.len(),
{
    if entries.len() == 0 {
        Ok(Seq::empty())
    } else {
        match scan(entries.drop_last()) {
            Err(e) => Err(e),
            Ok(found) => match entry_outcome(entries.last()) {
                Err(e) => Err(e),
                Ok(Some(record)) => Ok(found.push(record)),
                Ok(None) => Ok(found),
            },
        }
    }
}

/// How many of the entries have the name of a declaration file.
pub open spec fn recognized_count(entries: Seq<Entry>) -> nat
    decreases entries.len(),
{
    if entries.len() == 0 {
        0
    } else if form_of(entries.last().filename) is Some {
        recognized_count(entries.drop_last()) + 1
    } else {
        recognized_count(entries.drop_last())
    }
}

/// The coarsest level at which two records differ; none where they agree at all four.
/// An absent component equals an absent one and differs from any that is there.
pub open spec fn coarsest_difference(a: VersionRecord, b: VersionRecord) -> Option<VersionLevel> {
    if a.major != b.major {
        Some(VersionLevel::Major)
    } else if a.minor != b.minor {
        Some(VersionLevel::Minor)
    } else if a.teeny != b.teeny {
        Some(VersionLevel::Teeny)
    } else if a.patch != b.patch {
        Some(VersionLevel::Patch)
    } else {
        None
    }
}

/// The mismatch between two records, where they differ.
pub open spec fn mismatch_between(a: VersionRecord, b: VersionRecord) -> Option<Mismatch> {
    match coarsest_difference(a, b) {
        Some(level) => Some(Mismatch { level, versions: seq![a, b] }),
        None => None,
    }
}

/// The mismatches between the records at the given pairs of positions, in the order of
/// the pairs.
pub open spec fn mismatches_among(records: Seq<VersionRecord>, pairs: Seq<(int, int)>) -> Seq<
    Mismatch,
>
    decreases pairs.len(),
{
    if pairs.len() == 0 {
        Seq::empty()
    } else {
        let earlier = mismatches_among(records, pairs.drop_last());
        let pair = pairs.last();
        match mismatch_between(records[pair.0], records[pair.1]) {
            Some(mismatch) => earlier.push(mismatch),
            None => earlier,
        }
    }
}

/// The mismatches among the records: one for each pair that differs, the pairs taken
/// in the order `(0, 1)`, `(0, 2)`, and so on to the last two records.
pub open spec fn mismatches_of(records: Seq<VersionRecord>) -> Seq<Mismatch> {
    mismatches_among(records, ordered_pairs(records.len() as int))
}

/// What a run reports for a listing: the mismatches among the records that the scan
/// finds, or why there are none to report. No listing means that the directory could
/// not be read.
pub open spec fn detection(listing: Option<Seq<Entry>>) -> Result<Seq<Mismatch>, ScanError> {
    match listing {
        None => Err(ScanError::DirectoryAccess),
        Some(entries) => match scan(entries) {
            Err(e) => Err(e),
            Ok(records) => Ok(mismatches_of(records)),
        },
    }
}

/// The display form of a record whose components are well formed, read as the content
/// of a file in the numeric form, declares the version of the record: the same major,
/// minor, teeny and patch, whatever file it is read from.
pub proof fn law_display_reads_back(record: VersionRecord, file: Seq<char>)
    requires
        well_formed(record.number()),
    ensures
        numeric_declaration(record.display()) matches Some(c) && c.found_in(file).number()
            == record.number(),
{
    law_display_round_trip(record.number());
}

/// A scan finds at most one record in each entry that has the name of a declaration
/// file, and none in the others.
pub proof fn lemma_scan_count(entries: Seq<Entry>)
    ensures
        scan(entries) matches Ok(records) ==> records.len() <= recognized_count(entries),
    decreases entries.len(),
{
    if entries.len() > 0 {
        lemma_scan_count(entries.drop_last());
    }
}

/// Fewer than two records have no mismatch among them.
pub proof fn law_fewer_than_two_records(records: Seq<VersionRecord>)
    requires
        records.len() <= 1,
    ensures
        mismatches_of(records) == Seq::<Mismatch>::empty(),
{
    lemma_no_pairs(records.len() as int);
}

/// A directory in which at most one file has the name of a declaration file gives no
/// mismatch, whatever else it holds.
pub proof fn law_lone_declaration(entries: Seq<Entry>)
    requires
        recognized_count(entries) <= 1,
    ensures
        detection(Some(entries)) matches Ok(mismatches) ==> mismatches.len() == 0,
{
    lemma_scan_count(entries);
    if let Ok(records) = scan(entries) {
        law_fewer_than_two_records(records);
    }
}

/// Among two records there is the mismatch between them, if they differ, and no other.
pub proof fn lemma_two_records(a: VersionRecord, b: VersionRecord)
    ensures
        mismatches_of(seq![a, b]) == match mismatch_between(a, b) {
            Some(mismatch) => seq![mismatch],
            None => Seq::<Mismatch>::empty(),
        },
{
    let records = seq![a, b];
    let pairs = seq![(0int, 1int)];
    lemma_one_pair();
    assert(pairs.drop_last() =~= Seq::<(int, int)>::empty());
    assert(mismatches_among(records, pairs.drop_last()) == Seq::<Mismatch>::empty());
    assert(mismatches_among(records, pairs) =~= match mismatch_between(a, b) {
        Some(mismatch) => seq![mismatch],
        None => Seq::<Mismatch>::empty(),
    });
}

/// Two records that agree at every level, an absent component counting as a value, give
/// no mismatch.
pub proof fn law_agreeing_pair(a: VersionRecord, b: VersionRecord)
    requires
        forall|level: VersionLevel| a.on_level(level) == b.on_level(level),
    ensures
        mismatch_between(a, b) is None,
        mismatches_of(seq![a, b]) == Seq::<Mismatch>::empty(),
{
    assert(a.on_level(VersionLevel::Major) == b.on_level(VersionLevel::Major));
    assert(a.on_level(VersionLevel::Minor) == b.on_level(VersionLevel::Minor));
    assert(a.on_level(VersionLevel::Teeny) == b.on_level(VersionLevel::Teeny));
    assert(a.on_level(VersionLevel::Patch) == b.on_level(VersionLevel::Patch));
    lemma_two_records(a, b);
}

/// Two records that differ at `level` and agree at every coarser level give exactly
/// one mismatch, at `level`: a coarser difference hides every finer one.
pub proof fn law_coarsest_difference(a: VersionRecord, b: VersionRecord, level: VersionLevel)
    requires
        a.on_level(level) != b.on_level(level),
        forall|coarser: VersionLevel|
            coarser.rank() < level.rank() ==> a.on_level(coarser) == b.on_level(coarser),
    ensures
        mismatches_of(seq![a, b]) == seq![Mismatch { level, versions: seq![a, b] }],
{
    assert(VersionLevel::Major.rank() < level.rank() ==> a.on_level(VersionLevel::Major)
        == b.on_level(VersionLevel::Major));
    assert(VersionLevel::Minor.rank() < level.rank() ==> a.on_level(VersionLevel::Minor)
        == b.on_level(VersionLevel::Minor));
    assert(VersionLevel::Teeny.rank() < level.rank() ==> a.on_level(VersionLevel::Teeny)
        == b.on_level(VersionLevel::Teeny));
    assert(coarsest_difference(a, b) == Some(level));
    lemma_two_records(a, b);
}

/// Two records that differ at `level` and at no other level give exactly one mismatch,
/// at `level`.
pub proof fn law_single_difference(a: VersionRecord, b: VersionRecord, level: VersionLevel)
    requires
        a.on_level(level) != b.on_level(level),
        forall|other: VersionLevel| other != level ==> a.on_level(other) == b.on_level(other),
    ensures
        mismatches_of(seq![a, b]) == seq![Mismatch { level, versions: seq![a, b] }],
{
    assert forall|coarser: VersionLevel| coarser.rank() < level.rank() implies a.on_level(coarser)
        == b.on_level(coarser) by {
        assert(coarser != level);
    }
    law_coarsest_difference(a, b, level);
}

/// Each mismatch at the given pairs is that of one of the pairs, and each pair whose
/// records differ has its mismatch among them; there are no more mismatches than pairs.
pub proof fn lemma_mismatches_among(records: Seq<VersionRecord>, pairs: Seq<(int, int)>)
    ensures
        mismatches_among(records, pairs).len() <= pairs.len(),
        forall|k: int|
            0 <= k < mismatches_among(records, pairs).len() ==> exists|l: int|
                0 <= l < pairs.len() && mismatch_between(
                    records[pairs[l].0],
                    records[pairs[l].1],
                ) == Some(#[trigger] mismatches_among(records, pairs)[k]),
        forall|l: int|
            0 <= l < pairs.len() ==> (#[trigger] mismatch_between(
                records[pairs[l].0],
                records[pairs[l].1],
            ) matches Some(m) ==> mismatches_among(records, pairs).contains(m)),
    decreases pairs.len(),
{
    if pairs.len() > 0 {
        let earlier_pairs = pairs.drop_last();
        let earlier = mismatches_among(records, earlier_pairs);
        let all = mismatches_among(records, pairs);
        let last = pairs.len() - 1;
        lemma_mismatches_among(records, earlier_pairs);
        assert forall|k: int| 0 <= k < all.len() implies exists|l: int|
            0 <= l < pairs.len() && mismatch_between(records[pairs[l].0], records[pairs[l].1])
                == Some(#[trigger] all[k]) by {
            if k < earlier.len() {
                assert(all[k] == earlier[k]);
                let l = choose|l: int|
                    0 <= l < earlier_pairs.len() && mismatch_between(
                        records[earlier_pairs[l].0],
                        records[earlier_pairs[l].1],
                    ) == Some(earlier[k]);
                assert(earlier_pairs[l] == pairs[l]);
            } else {
                assert(mismatch_between(records[pairs[last].0], records[pairs[last].1]) == Some(
                    all[k],
                ));
            }
        }
        assert forall|l: int| 0 <= l < pairs.len() implies (#[trigger] mismatch_between(
            records[pairs[l].0],
            records[pairs[l].1],
        ) matches Some(m) ==> all.contains(m)) by {
            if let Some(m) = mismatch_between(records[pairs[l].0], records[pairs[l].1]) {
                if l < last {
                    assert(earlier_pairs[l] == pairs[l]);
                    assert(earlier.contains(m));
                    let k = choose|k: int| 0 <= k < earlier.len() && earlier[k] == m;
                    assert(all[k] == m);
                } else {
                    assert(all[all.len() - 1] == m);
                }
            }
        }
    }
}

/// The mismatches among any number of records: each is that of two records at
/// positions `i < j` that differ, each two such records have theirs, and there are no
/// more mismatches than pairs of positions.
pub proof fn law_every_pair_compared(records: Seq<VersionRecord>)
    ensures
        mismatches_of(records).len() <= ordered_pairs(records.len() as int).len(),
        forall|k: int|
            0 <= k < mismatches_of(records).len() ==> exists|i: int, j: int|
                0 <= i < j < records.len() && mismatch_between(records[i], records[j]) == Some(
                    #[trigger] mismatches_of(records)[k],
                ),
        forall|i: int, j: int|
            0 <= i < j < records.len() ==> (#[trigger] mismatch_between(records[i], records[j])
                matches Some(m) ==> mismatches_of(records).contains(m)),
{
    let n = records.len() as int;
    let pairs = ordered_pairs(n);
    let all = mismatches_of(records);
    lemma_ordered_pairs_lists(n);
    lemma_mismatches_among(records, pairs);
    assert forall|k: int| 0 <= k < all.len() implies exists|i: int, j: int|
        0 <= i < j < records.len() && mismatch_between(records[i], records[j]) == Some(
            #[trigger] all[k],
        ) by {
        let l = choose|l: int|
            0 <= l < pairs.len() && mismatch_between(records[pairs[l].0], records[pairs[l].1])
                == Some(all[k]);
        assert(0 <= pairs[l].0 < pairs[l].1 < n);
    }
    assert forall|i: int, j: int| 0 <= i < j < records.len() implies (#[trigger] mismatch_between(
        records[i],
        records[j],
    ) matches Some(m) ==> all.contains(m)) by {
        assert(pairs.contains((i, j)));
        let l = choose|l: int| 0 <= l < pairs.len() && pairs[l] == (i, j);
        assert(mismatch_between(records[pairs[l].0], records[pairs[l].1]) == mismatch_between(
            records[i],
            records[j],
        ));
    }
}

/// The form of the file with this name, if the name is that of a declaration file.
pub fn recognize(filename: &String) -> (form: Option<DeclarationForm>)
    ensures
        form == form_of(filename@),
{
    let numeric = String::from_str(".ruby-version");
    let multi_tool = String::from_str(".tool-versions");
    if *filename == numeric {
        Some(DeclarationForm::Numeric)
    } else if *filename == multi_tool {
        Some(DeclarationForm::MultiTool)
    } else {
        None
    }
}

/// Reads the content of a file in the numeric form.
pub fn process_ruby_version_file(content: &str, filepath: String) -> (version: Result<
    RubyVersion,
    ScanError,
>)
    ensures
        match numeric_declaration(content@) {
            Some(c) => version matches Ok(v) && v@ == c.found_in(filepath@),
            None => version == Err::<RubyVersion, ScanError>(ScanError::MalformedVersionFile),
        },
{
    let chars = chars_of(content);
    assert(content@.subrange(0, content@.len() as int) =~= content@);
    match capture_version(content, chars.as_slice(), 0, 0) {
        Some(captures) => Ok(RubyVersion::from_captures(captures, filepath)),
        None => Err(ScanError::MalformedVersionFile),
    }
}

/// Looks for the declaration in `line`, which holds the characters of `text` from
/// position `base` on.
fn capture_line(text: &str, line: &[char], base: usize) -> (captures: Option<VersionCaptures>)
    requires
        base + line@.len() <= text@.len() <= usize::MAX,
        line@ == text@.subrange(base as int, base + line@.len()),
    ensures
        captures.deep_view() == line_declaration(line@),
{
    if line.len() >= 5 && line[0] == 'r' && line[1] == 'u' && line[2] == 'b' && line[3] == 'y'
        && line[4] == ' ' {
        assert(line@.subrange(0, 5) =~= runtime_label());
        capture_version(text, line, base, 5)
    } else {
        proof {
            if line@.len() >= 5 {
                assert(line@.subrange(0, 5)[0] == line@[0]);
                assert(line@.subrange(0, 5)[1] == line@[1]);
                assert(line@.subrange(0, 5)[2] == line@[2]);
                assert(line@.subrange(0, 5)[3] == line@[3]);
                assert(line@.subrange(0, 5)[4] == line@[4]);
            }
        }
        None
    }
}

/// Reads one line of a file in the multi-tool form.
pub fn process_tool_versions_line(line: String, filepath: &String) -> (version: Option<
    RubyVersion,
>)
    ensures
        version.deep_view() == declared_in(line_declaration(line@), filepath@),
{
    let chars = chars_of(line.as_str());
    assert(line@.subrange(0, line@.len() as int) =~= line@);
    match capture_line(line.as_str(), chars.as_slice(), 0) {
        Some(captures) => Some(RubyVersion::from_captures(captures, filepath.clone())),
        None => None,
    }
}

/// The end of the line of `chars` that starts at `from`.
fn find_line_end(chars: &[char], from: usize) -> (end: usize)
    requires
        from <= chars@.len(),
    ensures
        end == line_end(chars@, from as int),
        from <= end <= chars@.len(),
{
    let mut end: usize = from;
    while end < chars.len() && chars[end] != '\n'
        invariant
            from <= end <= chars@.len(),
            line_end(chars@, from as int) == line_end(chars@, end as int),
        decreases chars@.len() - end,
    {
        end = end + 1;
    }
    end
}

/// Reads the content of a file in the multi-tool form, line by line, up to the first
/// line that declares the Ruby version.
pub fn process_tool_versions_file(content: &str, filepath: String) -> (version: Option<
    RubyVersion,
>)
    ensures
        version.deep_view() == declared_in(multi_tool_declaration(content@), filepath@),
{
    let chars = chars_of(content);
    let len = chars.len();
    let mut start: usize = 0;
    while start < len
        invariant
            start <= len,
            len == chars@.len(),
            chars@ == content@,
            multi_tool_declaration(content@) == first_declaration_from(content@, start as int),
        decreases len - start,
    {
        let end = find_line_end(chars.as_slice(), start);
        let line = slice_subrange(chars.as_slice(), start, end);
        match capture_line(content, line, start) {
            Some(captures) => {
                return Some(RubyVersion::from_captures(captures, filepath));
            },
            None => {},
        }
        if end == len {
            return None;
        }
        start = end + 1;
    }
    None
}

/// Collects the declared versions from the entries of a directory, in their order.
/// Entries with other names than those of the two declaration files are passed over.
pub fn parse_files_for_versions(entries: Vec<DirectoryEntry>) -> (versions: Result<
    Vec<RubyVersion>,
    ScanError,
>)
    ensures
        match scan(entries.deep_view()) {
            Ok(records) => versions matches Ok(found) && found.deep_view() == records,
            Err(e) => versions matches Err(failure) && failure == e,
        },
{
    let mut versions: Vec<RubyVersion> = Vec::new();
    let ghost all = entries.deep_view();
    let mut i: usize = 0;
    assert(all.take(0) =~= Seq::<Entry>::empty());
    assert(versions.deep_view() =~= Seq::<VersionRecord>::empty());
    while i < entries.len()
        invariant
            i <= entries.len(),
            all == entries.deep_view(),
            scan(all.take(i as int)) == Ok::<Seq<VersionRecord>, ScanError>(versions.deep_view()),
        decreases entries.len() - i,
    {
        let entry = &entries[i];
        let ghost before = versions.deep_view();
        proof {
            assert(all.take(i + 1).drop_last() =~= all.take(i as int));
            assert(all.take(i + 1).last() == entry@);
        }
        match recognize(&entry.filename) {
            Some(DeclarationForm::Numeric) => {
                match process_ruby_version_file(entry.content.as_str(), entry.filepath.clone()) {
                    Ok(version) => {
                        versions.push(version);
                        assert(versions.deep_view() =~= before.push(version@));
                    },
                    Err(failure) => {
                        proof {
                            lemma_scan_failure_stays(all, i + 1);
                        }
                        return Err(failure);
                    },
                }
            },
            Some(DeclarationForm::MultiTool) => {
                match process_tool_versions_file(entry.content.as_str(), entry.filepath.clone()) {
                    Some(version) => {
                        versions.push(version);
                        assert(versions.deep_view() =~= before.push(version@));
                    },
                    None => {},
                }
            },
            None => {},
        }
        i = i + 1;
    }
    assert(all.take(i as int) =~= all);
    Ok(versions)
}

/// A scan that fails on the first `n` entries fails in the same way on all of them.
pub proof fn lemma_scan_failure_stays(entries: Seq<Entry>, n: int)
    requires
        0 <= n <= entries.len(),
        scan(entries.take(n)) is Err,
    ensures
        scan(entries) == scan(entries.take(n)),
    decreases entries.len() - n,
{
    if n < entries.len() {
        assert(entries.take(n + 1).drop_last() =~= entries.take(n));
        lemma_scan_failure_stays(entries, n + 1);
    } else {
        assert(entries.take(n) =~= entries);
    }
}

/// Compares two records level by level, from the coarsest to the finest, and reports
/// the first level at which they differ.
pub fn compare_two_versions(left_version: RubyVersion, right_version: RubyVersion) -> (mismatch:
    Option<VersionMismatch>)
    ensures
        mismatch.deep_view() == mismatch_between(left_version@, right_version@),
        mismatch matches Some(found) ==> found.versions@.len() == 2,
{
    let levels = RubyVersion::version_levels();
    let ghost a = left_version@;
    let ghost b = right_version@;
    let mut i: usize = 0;
    while i < 4
        invariant
            i <= 4,
            levels@ == version_levels(),
            a == left_version@,
            b == right_version@,
            forall|k: int| 0 <= k < i ==> a.on_level(#[trigger] version_levels()[k]) == b.on_level(
                version_levels()[k],
            ),
        decreases 4 - i,
    {
        let level = levels[i];
        let left = left_version.on_level(level);
        let right = right_version.on_level(level);
        if !same_text(&left, &right) {
            let mut versions: Vec<RubyVersion> = Vec::new();
            versions.push(left_version);
            versions.push(right_version);
            let found = VersionMismatch { level, versions };
            proof {
                assert(found@.versions =~= seq![a, b]);
                assert(i >= 1 ==> a.on_level(version_levels()[0]) == b.on_level(
                    version_levels()[0],
                ));
                assert(i >= 2 ==> a.on_level(version_levels()[1]) == b.on_level(
                    version_levels()[1],
                ));
                assert(i >= 3 ==> a.on_level(version_levels()[2]) == b.on_level(
                    version_levels()[2],
                ));
                assert(coarsest_difference(a, b) == Some(level));
            }
            return Some(found);
        }
        i = i + 1;
    }
    proof {
        assert(a.on_level(version_levels()[0]) == b.on_level(version_levels()[0]));
        assert(a.on_level(version_levels()[1]) == b.on_level(version_levels()[1]));
        assert(a.on_level(version_levels()[2]) == b.on_level(version_levels()[2]));
        assert(a.on_level(version_levels()[3]) == b.on_level(version_levels()[3]));
    }
    None
}

/// Compares each record with each that follows it and collects the mismatches.
pub fn build_version_mismatches(versions: Vec<RubyVersion>) -> (mismatches: Vec<VersionMismatch>)
    ensures
        mismatches.deep_view() == mismatches_of(versions.deep_view()),
{
    let mut mismatches: Vec<VersionMismatch> = Vec::new();
    let mut pairs = index_pairs(versions.len());
    let ghost records = versions.deep_view();
    let ghost all = pending_pairs(pairs);
    let ghost mut done: Seq<(int, int)> = Seq::empty();
    proof {
        lemma_lists_pairs_unique(all, versions.len() as int);
        assert(all =~= done + pending_pairs(pairs));
    }
    loop
        invariant
            records == versions.deep_view(),
            all == ordered_pairs(versions.len() as int),
            lists_pairs(all, versions.len() as int),
            all == done + pending_pairs(pairs),
            mismatches.deep_view() == mismatches_among(records, done),
        ensures
            records == versions.deep_view(),
            mismatches.deep_view() == mismatches_among(
                records,
                ordered_pairs(versions.len() as int),
            ),
        decreases pending_pairs(pairs).len(),
    {
        let ghost pending = pending_pairs(pairs);
        match next_pair(&mut pairs) {
            Some((i, j)) => {
                let ghost before = mismatches.deep_view();
                proof {
                    assert(all[done.len() as int] == pending[0]);
                    assert(0 <= all[done.len() as int].0 < all[done.len() as int].1
                        < versions.len());
                    assert(done.push((i as int, j as int)).drop_last() =~= done);
                    assert(all =~= done.push((i as int, j as int)) + pending_pairs(pairs));
                }
                let left = versions[i].clone();
                let right = versions[j].clone();
                match compare_two_versions(left, right) {
                    Some(mismatch) => {
                        mismatches.push(mismatch);
                        assert(mismatches.deep_view() =~= before.push(mismatch@));
                    },
                    None => {},
                }
                proof {
                    done = done.push((i as int, j as int));
                }
            },
            None => {
                proof {
                    assert(all =~= done);
                }
                break ;
            },
        }
    }
    mismatches
}

/// Scans the listing of a directory and reports the mismatches among the versions that
/// its files declare. `None` stands for a directory that could not be listed.
pub fn detect_version_mismatches(listing: Option<Vec<DirectoryEntry>>) -> (mismatches: Result<
    Vec<VersionMismatch>,
    ScanError,
>)
    ensures
        match detection(listing.deep_view()) {
            Ok(expected) => mismatches matches Ok(found) && found.deep_view() == expected,
            Err(e) => mismatches matches Err(failure) && failure == e,
        },
{
    match listing {
        None => Err(ScanError::DirectoryAccess),
        Some(entries) => match parse_files_for_versions(entries) {
            Ok(versions) => Ok(build_version_mismatches(versions)),
            Err(failure) => Err(failure),
        },
    }
}

} // verus!
