//! Version records, the four precision levels, and the mismatch report entry.

use vstd::prelude::*;
use vstd::string::*;

verus! {

/// A precision tier of a version number.
#[derive(Debug, Clone, Copy, PartialEq, Eq, Structural)]
pub enum VersionLevel {
    Major,
    Minor,
    Teeny,
    Patch,
}

/// The four levels, from the coarsest to the finest.
pub open spec fn version_levels() -> Seq<VersionLevel> {
    seq![VersionLevel::Major, VersionLevel::Minor, VersionLevel::Teeny, VersionLevel::Patch]
}

impl VersionLevel {
    /// Position of the level in the order from coarsest (0) to finest (3).
    pub open spec fn rank(self) -> int {
        match self {
            VersionLevel::Major => 0,
            VersionLevel::Minor => 1,
            VersionLevel::Teeny => 2,
            VersionLevel::Patch => 3,
        }
    }

    /// The label under which the level is reported.
    pub open spec fn name(self) -> Seq<char> {
        match self {
            VersionLevel::Major => "Major"@,
            VersionLevel::Minor => "Minor"@,
            VersionLevel::Teeny => "Teeny"@,
            VersionLevel::Patch => "Patch"@,
        }
    }

    /// The label of the level as an owned string.
    pub fn to_string(&self) -> (label: String)
        ensures
            label@ == self.name(),
    {
        match self {
            VersionLevel::Major => String::from_str("Major"),
            VersionLevel::Minor => String::from_str("Minor"),
            VersionLevel::Teeny => String::from_str("Teeny"),
            VersionLevel::Patch => String::from_str("Patch"),
        }
    }
}

/// The four components that the version grammar captures, as mathematical values.
pub struct Captures {
    pub major: Seq<char>,
    pub minor: Seq<char>,
    pub teeny: Option<Seq<char>>,
    pub patch: Option<Seq<char>>,
}

/// A version record as a mathematical value: the view of a [`RubyVersion`].
pub struct VersionRecord {
    pub major: Seq<char>,
    pub minor: Seq<char>,
    pub teeny: Option<Seq<char>>,
    pub patch: Option<Seq<char>>,
    pub found_in_file: Seq<char>,
}

impl Captures {
    /// The record that holds these components and names `file` as its origin.
    pub open spec fn found_in(self, file: Seq<char>) -> VersionRecord {
        VersionRecord {
            major: self.major,
            minor: self.minor,
            teeny: self.teeny,
            patch: self.patch,
            found_in_file: file,
        }
    }

    /// `MAJOR.MINOR`, then `.TEENY` if there is a teeny, then `-pPATCH` if there are both
    /// a teeny and a patch.
    pub open spec fn display(self) -> Seq<char> {
        let head = self.major + seq!['.'] + self.minor;
        match self.teeny {
            None => head,
            Some(teeny) => match self.patch {
                None => head + seq!['.'] + teeny,
                Some(patch) => head + seq!['.'] + teeny + seq!['-', 'p'] + patch,
            },
        }
    }
}

impl VersionRecord {
    /// The four version components without the origin.
    pub open spec fn number(self) -> Captures {
        Captures { major: self.major, minor: self.minor, teeny: self.teeny, patch: self.patch }
    }

    /// The component at `level`; absent where the record has no teeny or no patch.
    pub open spec fn on_level(self, level: VersionLevel) -> Option<Seq<char>> {
        match level {
            VersionLevel::Major => Some(self.major),
            VersionLevel::Minor => Some(self.minor),
            VersionLevel::Teeny => self.teeny,
            VersionLevel::Patch => self.patch,
        }
    }

    /// The display form of the record, which leaves the origin out.
    pub open spec fn display(self) -> Seq<char> {
        self.number().display()
    }

    /// The line that announces the record and where it was found.
    pub open spec fn announcement(self) -> Seq<char> {
        "Detected "@ + self.display() + " in "@ + self.found_in_file
    }
}

/// What the version grammar captured from a text, each component as its own string.
#[derive(Debug)]
pub struct VersionCaptures {
    pub major: String,
    pub minor: String,
    pub teeny: Option<String>,
    pub patch: Option<String>,
}

impl View for VersionCaptures {
    type V = Captures;

    open spec fn view(&self) -> Captures {
        Captures {
            major: self.major@,
            minor: self.minor@,
            teeny: self.teeny.deep_view(),
            patch: self.patch.deep_view(),
        }
    }
}

impl DeepView for VersionCaptures {
    type V = Captures;

    open spec fn deep_view(&self) -> Captures {
        self@
    }
}

/// One parsed version declaration and the file it came from. The components are kept
/// as text and compared as text.
#[derive(Debug)]
pub struct RubyVersion {
    pub major: String,
    pub minor: String,
    pub teeny: Option<String>,
    pub patch: Option<String>,
    pub found_in_file: String,
}

impl View for RubyVersion {
    type V = VersionRecord;

    open spec fn view(&self) -> VersionRecord {
        VersionRecord {
            major: self.major@,
            minor: self.minor@,
            teeny: self.teeny.deep_view(),
            patch: self.patch.deep_view(),
            found_in_file: self.found_in_file@,
        }
    }
}

impl DeepView for RubyVersion {
    type V = VersionRecord;

    open spec fn deep_view(&self) -> VersionRecord {
        self@
    }
}

/// A copy of an optional string.
pub fn copy_text(text: &Option<String>) -> (copy: Option<String>)
    ensures
        copy == *text,
{
    match text {
        Some(t) => Some(t.clone()),
        None => None,
    }
}

/// Whether two optional strings hold the same text, or are both absent.
pub fn same_text(left: &Option<String>, right: &Option<String>) -> (same: bool)
    ensures
        same == (left.deep_view() == right.deep_view()),
{
    match left {
        Some(l) => match right {
            Some(r) => *l == *r,
            None => false,
        },
        None => match right {
            Some(_) => false,
            None => true,
        },
    }
}

impl Clone for RubyVersion {
    fn clone(&self) -> (copy: RubyVersion)
        ensures
            copy == *self,
    {
        RubyVersion {
            major: self.major.clone(),
            minor: self.minor.clone(),
            teeny: copy_text(&self.teeny),
            patch: copy_text(&self.patch),
            found_in_file: self.found_in_file.clone(),
        }
    }
}

impl RubyVersion {
    /// The levels in the order in which two records are compared.
    pub fn version_levels() -> (levels: [VersionLevel; 4])
        ensures
            levels@ == version_levels(),
    {
        let levels = [
            VersionLevel::Major,
            VersionLevel::Minor,
            VersionLevel::Teeny,
            VersionLevel::Patch,
        ];
        assert(levels@ =~= version_levels());
        levels
    }

    /// The component of the record at `level`.
    pub fn on_level(&self, level: VersionLevel) -> (component: Option<String>)
        ensures
            component.deep_view() == self@.on_level(level),
    {
        match level {
            VersionLevel::Major => Some(self.major.clone()),
            VersionLevel::Minor => Some(self.minor.clone()),
            VersionLevel::Teeny => copy_text(&self.teeny),
            VersionLevel::Patch => copy_text(&self.patch),
        }
    }

    /// The record made of what the grammar captured and of the path of the file.
    pub fn from_captures(captures: VersionCaptures, filepath: String) -> (version: RubyVersion)
        ensures
            version@ == captures@.found_in(filepath@),
    {
        let major = captures.major;
        let minor = captures.minor;
        let teeny = match captures.teeny {
            Some(teeny) => Some(teeny),
            None => None,
        };
        let patch = match captures.patch {
            Some(patch) => Some(patch),
            None => None,
        };
        RubyVersion { major, minor, teeny, patch, found_in_file: filepath }
    }

    /// The display form: `MAJOR.MINOR`, `MAJOR.MINOR.TEENY` or `MAJOR.MINOR.TEENY-pPATCH`.
    pub fn to_string(&self) -> (text: String)
        ensures
            text@ == self@.display(),
    {
        proof {
            reveal_strlit(".");
            reveal_strlit("-p");
        }
        let mut text = self.major.clone();
        text.append(".");
        text.append(self.minor.as_str());
        match &self.teeny {
            Some(teeny) => {
                text.append(".");
                text.append(teeny.as_str());
                match &self.patch {
                    Some(patch) => {
                        text.append("-p");
                        text.append(patch.as_str());
                    },
                    None => {},
                }
            },
            None => {},
        }
        assert("."@ =~= seq!['.']);
        assert("-p"@ =~= seq!['-', 'p']);
        text
    }

    /// The line that announces the record: `Detected `, the display form, ` in `, the file.
    pub fn print(&self) -> (line: String)
        ensures
            line@ == self@.announcement(),
    {
        let mut line = String::from_str("Detected ");
        let shown = self.to_string();
        line.append(shown.as_str());
        line.append(" in ");
        line.append(self.found_in_file.as_str());
        line
    }
}

/// A disagreement between two version records.
#[derive(Debug)]
pub struct VersionMismatch {
    /// The coarsest level at which the two records differ.
    pub level: VersionLevel,
    /// The two records, in the order in which they were found.
    pub versions: Vec<RubyVersion>,
}

/// A mismatch as a mathematical value: the view of a [`VersionMismatch`].
pub struct Mismatch {
    pub level: VersionLevel,
    pub versions: Seq<VersionRecord>,
}

impl View for VersionMismatch {
    type V = Mismatch;

    open spec fn view(&self) -> Mismatch {
        Mismatch { level: self.level, versions: self.versions.deep_view() }
    }
}

impl DeepView for VersionMismatch {
    type V = Mismatch;

    open spec fn deep_view(&self) -> Mismatch {
        self@
    }
}

} // verus!
