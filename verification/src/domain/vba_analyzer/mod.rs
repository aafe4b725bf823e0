//! VBA macro extraction from Office containers. Adding a container format (.docm, .pptm)
//! means adding an implementation of `VbaContainerAnalyzer`.
pub mod msovba;
pub mod workbook;
pub mod xlsm;

use vstd::prelude::*;

verus! {

/// A container format that can hold a VBA project. The container's directory (its entry
/// names) is read by the caller.
pub trait VbaContainerAnalyzer {
    /// Identifier of the format.
    spec fn tool(&self) -> Seq<char>;

    /// Whether a file with this path and these container entries holds a VBA project.
    spec fn detects(&self, relative_path: Seq<char>, archive_entries: Seq<Seq<char>>) -> bool;

    fn tool_name(&self) -> (res: &'static str)
        ensures
            res@ == self.tool();

    /// Judged from the container's structure, never from the extension alone.
    fn detect(&self, relative_path: &str, archive_entries: &[String]) -> (res: bool)
        ensures
            res == self.detects(relative_path@, archive_entries@.map_values(|s: String| s@));
}

/// One of the supported container analyzers.
pub enum AnyVbaAnalyzer {
    Xlsm(xlsm::XlsmAnalyzer),
}

impl VbaContainerAnalyzer for AnyVbaAnalyzer {
    open spec fn tool(&self) -> Seq<char> {
        match self {
            AnyVbaAnalyzer::Xlsm(a) => a.tool(),
        }
    }

    open spec fn detects(&self, relative_path: Seq<char>, archive_entries: Seq<Seq<char>>) -> bool {
        match self {
            AnyVbaAnalyzer::Xlsm(a) => a.detects(relative_path, archive_entries),
        }
    }

    fn tool_name(&self) -> (res: &'static str) {
        match self {
            AnyVbaAnalyzer::Xlsm(a) => a.tool_name(),
        }
    }

    fn detect(&self, relative_path: &str, archive_entries: &[String]) -> (res: bool) {
        match self {
            AnyVbaAnalyzer::Xlsm(a) => a.detect(relative_path, archive_entries),
        }
    }
}

/// The supported container analyzers, in detection order.
pub open spec fn analyzers_spec() -> Seq<AnyVbaAnalyzer> {
    seq![AnyVbaAnalyzer::Xlsm(xlsm::XlsmAnalyzer)]
}

/// All supported container analyzers.
pub fn all_analyzers() -> (res: Vec<AnyVbaAnalyzer>)
    ensures
        res@ == analyzers_spec(),
{
    let mut v: Vec<AnyVbaAnalyzer> = Vec::new();
    v.push(AnyVbaAnalyzer::Xlsm(xlsm::XlsmAnalyzer));
    v
}

/// Index of the first analyzer that detects a VBA project in the file.
pub open spec fn first_detecting(
    analyzers: Seq<AnyVbaAnalyzer>,
    relative_path: Seq<char>,
    archive_entries: Seq<Seq<char>>,
) -> Option<int>
    decreases analyzers.len(),
{
    if analyzers.len() == 0 {
        None
    } else if analyzers[0].detects(relative_path, archive_entries) {
        Some(0)
    } else {
        match first_detecting(analyzers.drop_first(), relative_path, archive_entries) {
            Some(i) => Some(i + 1),
            None => None,
        }
    }
}

/// The first analyzer (by position) that detects a VBA project in the file, if any.
pub fn detect_tool<'a>(
    analyzers: &'a [AnyVbaAnalyzer],
    relative_path: &str,
    archive_entries: &[String],
) -> (res: Option<&'a AnyVbaAnalyzer>)
    ensures
        match first_detecting(analyzers@, relative_path@, archive_entries@.map_values(|s: String| s@)) {
            Some(i) => res == Some(&analyzers@[i]),
            None => res is None,
        },
{
    let ghost ev = archive_entries@.map_values(|s: String| s@);
    let mut i: usize = 0;
    assert(analyzers@.skip(0) =~= analyzers@);
    while i < analyzers.len()
        invariant
            i <= analyzers.len(),
            ev == archive_entries@.map_values(|s: String| s@),
            first_detecting(analyzers@, relative_path@, ev) == match first_detecting(analyzers@.skip(i as int), relative_path@, ev) {
                Some(k) => Some(k + i),
                None => None,
            },
        decreases analyzers.len() - i,
    {
        assert(analyzers@.skip(i as int).drop_first() =~= analyzers@.skip(i + 1));
        if analyzers[i].detect(relative_path, archive_entries) {
            return Some(&analyzers[i]);
        }
        i = i + 1;
    }
    None
}

} // verus!
