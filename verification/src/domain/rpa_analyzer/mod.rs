//! Analysis of RPA definition files. Adding a tool means adding an implementation of
//! `RpaAnalyzer`. The extraction rules are provisional: they were written without real
//! sample files and are to be checked against them.
pub mod pad;
pub mod power_platform;
pub mod uipath;

use crate::models::analysis::RpaComponent;
use crate::models::error::AppResult;
use crate::paths::{file_name, file_name_exec, file_stem, stem_of_exec};
use crate::text::{replace_char, replace_char_exec, str_eq, string_of};
use vstd::prelude::*;
use vstd::string::StringExecFns;

verus! {

/// An RPA tool whose definition files can be recognized and parsed.
pub trait RpaAnalyzer {
    /// Tool identifier, as in the configuration's tool list.
    spec fn tool(&self) -> Seq<char>;

    /// Whether the file is a definition file of this tool, judged by path structure and
    /// content markers, never by the extension alone.
    spec fn detects(&self, relative_path: Seq<char>, content: Seq<char>) -> bool;

    /// The intermediate representation extracted from a definition file.
    spec fn parsed(&self, relative_path: Seq<char>, content: Seq<char>) -> crate::models::analysis::RpaComponentView;

    fn tool_name(&self) -> (res: &'static str)
        ensures
            res@ == self.tool();

    fn detect(&self, relative_path: &str, content: &str) -> (res: bool)
        ensures
            res == self.detects(relative_path@, content@);

    fn parse(&self, relative_path: &str, content: &str) -> (res: AppResult<RpaComponent>)
        ensures
            res matches Ok(c) && c@ == self.parsed(relative_path@, content@);
}

/// The path with '\\' turned into '/'.
pub open spec fn normalized_path(relative_path: Seq<char>) -> Seq<char> {
    replace_char(relative_path, '\\', '/')
}

/// The file name, or `default` when the path has none.
pub open spec fn name_or(relative_path: Seq<char>, default: Seq<char>) -> Seq<char> {
    match file_name(relative_path) {
        Some(n) => n,
        None => default,
    }
}

/// The file stem, or "unknown" when the path has none.
pub open spec fn stem_or_unknown(relative_path: Seq<char>) -> Seq<char> {
    match file_stem(relative_path) {
        Some(n) => n,
        None => "unknown"@,
    }
}

pub fn normalized_path_exec(relative_path: &[char]) -> (res: String)
    ensures
        res@ == normalized_path(relative_path@),
{
    string_of(replace_char_exec(relative_path, '\\', '/').as_slice())
}

pub fn name_or_exec(relative_path: &[char], default: &str) -> (res: Vec<char>)
    ensures
        res@ == name_or(relative_path@, default@),
{
    match file_name_exec(relative_path) {
        Some(n) => n,
        None => crate::text::chars_of(default),
    }
}

pub fn stem_or_unknown_exec(relative_path: &[char]) -> (res: String)
    ensures
        res@ == stem_or_unknown(relative_path@),
{
    match file_name_exec(relative_path) {
        Some(n) => string_of(stem_of_exec(n.as_slice()).as_slice()),
        None => String::from_str("unknown"),
    }
}

/// One of the supported RPA analyzers.
pub enum AnyRpaAnalyzer {
    PowerPlatform(power_platform::PowerPlatformAnalyzer),
    Pad(pad::PadAnalyzer),
    UiPath(uipath::UiPathAnalyzer),
}

impl RpaAnalyzer for AnyRpaAnalyzer {
    open spec fn tool(&self) -> Seq<char> {
        match self {
            AnyRpaAnalyzer::PowerPlatform(a) => a.tool(),
            AnyRpaAnalyzer::Pad(a) => a.tool(),
            AnyRpaAnalyzer::UiPath(a) => a.tool(),
        }
    }

    open spec fn detects(&self, relative_path: Seq<char>, content: Seq<char>) -> bool {
        match self {
            AnyRpaAnalyzer::PowerPlatform(a) => a.detects(relative_path, content),
            AnyRpaAnalyzer::Pad(a) => a.detects(relative_path, content),
            AnyRpaAnalyzer::UiPath(a) => a.detects(relative_path, content),
        }
    }

    open spec fn parsed(&self, relative_path: Seq<char>, content: Seq<char>) -> crate::models::analysis::RpaComponentView {
        match self {
            AnyRpaAnalyzer::PowerPlatform(a) => a.parsed(relative_path, content),
            AnyRpaAnalyzer::Pad(a) => a.parsed(relative_path, content),
            AnyRpaAnalyzer::UiPath(a) => a.parsed(relative_path, content),
        }
    }

    fn tool_name(&self) -> (res: &'static str) {
        match self {
            AnyRpaAnalyzer::PowerPlatform(a) => a.tool_name(),
            AnyRpaAnalyzer::Pad(a) => a.tool_name(),
            AnyRpaAnalyzer::UiPath(a) => a.tool_name(),
        }
    }

    fn detect(&self, relative_path: &str, content: &str) -> (res: bool) {
        match self {
            AnyRpaAnalyzer::PowerPlatform(a) => a.detect(relative_path, content),
            AnyRpaAnalyzer::Pad(a) => a.detect(relative_path, content),
            AnyRpaAnalyzer::UiPath(a) => a.detect(relative_path, content),
        }
    }

    fn parse(&self, relative_path: &str, content: &str) -> (res: AppResult<RpaComponent>) {
        match self {
            AnyRpaAnalyzer::PowerPlatform(a) => a.parse(relative_path, content),
            AnyRpaAnalyzer::Pad(a) => a.parse(relative_path, content),
            AnyRpaAnalyzer::UiPath(a) => a.parse(relative_path, content),
        }
    }
}

/// The supported RPA analyzers, in detection order.
pub open spec fn analyzers_spec() -> Seq<AnyRpaAnalyzer> {
    seq![
        AnyRpaAnalyzer::PowerPlatform(power_platform::PowerPlatformAnalyzer),
        AnyRpaAnalyzer::Pad(pad::PadAnalyzer),
        AnyRpaAnalyzer::UiPath(uipath::UiPathAnalyzer),
    ]
}

/// All supported RPA analyzers, in detection order.
pub fn all_analyzers() -> (res: Vec<AnyRpaAnalyzer>)
    ensures
        res@ == analyzers_spec(),
{
    let mut v: Vec<AnyRpaAnalyzer> = Vec::new();
    v.push(AnyRpaAnalyzer::PowerPlatform(power_platform::PowerPlatformAnalyzer));
    v.push(AnyRpaAnalyzer::Pad(pad::PadAnalyzer));
    v.push(AnyRpaAnalyzer::UiPath(uipath::UiPathAnalyzer));
    v
}

/// Index of the first analyzer that detects the file.
pub open spec fn first_detecting(analyzers: Seq<AnyRpaAnalyzer>, relative_path: Seq<char>, content: Seq<char>) -> Option<int>
    decreases analyzers.len(),
{
    if analyzers.len() == 0 {
        None
    } else if analyzers[0].detects(relative_path, content) {
        Some(0)
    } else {
        match first_detecting(analyzers.drop_first(), relative_path, content) {
            Some(i) => Some(i + 1),
            None => None,
        }
    }
}

/// The first analyzer (by position) that detects the file, if any.
pub fn detect_tool<'a>(analyzers: &'a [AnyRpaAnalyzer], relative_path: &str, content: &str) -> (res: Option<&'a AnyRpaAnalyzer>)
    ensures
        match first_detecting(analyzers@, relative_path@, content@) {
            Some(i) => res == Some(&analyzers@[i]),
            None => res is None,
        },
{
    let mut i: usize = 0;
    assert(analyzers@.skip(0) =~= analyzers@);
    while i < analyzers.len()
        invariant
            i <= analyzers.len(),
            first_detecting(analyzers@, relative_path@, content@) == match first_detecting(analyzers@.skip(i as int), relative_path@, content@) {
                Some(k) => Some(k + i),
                None => None,
            },
        decreases analyzers.len() - i,
    {
        assert(analyzers@.skip(i as int).drop_first() =~= analyzers@.skip(i + 1));
        if analyzers[i].detect(relative_path, content) {
            return Some(&analyzers[i]);
        }
        i = i + 1;
    }
    None
}

/// Index of the first analyzer of the tool named `tool`.
pub open spec fn first_named(analyzers: Seq<AnyRpaAnalyzer>, tool: Seq<char>) -> Option<int>
    decreases analyzers.len(),
{
    if analyzers.len() == 0 {
        None
    } else if analyzers[0].tool() == tool {
        Some(0)
    } else {
        match first_named(analyzers.drop_first(), tool) {
            Some(i) => Some(i + 1),
            None => None,
        }
    }
}

/// The first analyzer (by position) of the tool that a scan recorded for a file.
pub fn analyzer_for_tool<'a>(analyzers: &'a [AnyRpaAnalyzer], tool: &str) -> (res: Option<&'a AnyRpaAnalyzer>)
    ensures
        match first_named(analyzers@, tool@) {
            Some(i) => res == Some(&analyzers@[i]),
            None => res is None,
        },
{
    let mut i: usize = 0;
    assert(analyzers@.skip(0) =~= analyzers@);
    while i < analyzers.len()
        invariant
            i <= analyzers.len(),
            first_named(analyzers@, tool@) == match first_named(analyzers@.skip(i as int), tool@) {
                Some(k) => Some(k + i),
                None => None,
            },
        decreases analyzers.len() - i,
    {
        assert(analyzers@.skip(i as int).drop_first() =~= analyzers@.skip(i + 1));
        if str_eq(analyzers[i].tool_name(), tool) {
            return Some(&analyzers[i]);
        }
        i = i + 1;
    }
    None
}

} // verus!
