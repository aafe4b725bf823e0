//! The scan of a project folder: which files are kept and how they are recorded. The
//! walk itself (respecting .gitignore), the metadata and the reads are performed by the
//! caller, which asks this scanner at each step.
use crate::digest::{sha256_hex, sha256_hex_text};
use crate::domain::rpa_analyzer::{self, AnyRpaAnalyzer, RpaAnalyzer};
use crate::domain::static_analyzer::language_spec::strip_leading_dots;
use crate::domain::vba_analyzer::{self, AnyVbaAnalyzer, VbaContainerAnalyzer};
use crate::domain::vba_analyzer::workbook::{zip_entry_names, zip_names};
use crate::models::analysis::ScannedFile;
use crate::models::config::ScanConfig;
use crate::models::error::{AppError, AppResult};
use crate::paths::{components, components_exec, extension, extension_of_exec, file_name_exec};
use crate::text::{ascii_lower_chars, ascii_lower_seq, chars_of, push_str, replace_char, replace_char_exec, string_of, strs};
use vstd::prelude::*;
use vstd::string::StringExecFns;

verus! {

/// A path is excluded when one of its components is one of the patterns.
pub open spec fn excluded(relative_path: Seq<char>, patterns: Seq<Seq<char>>) -> bool {
    exists|i: int, j: int| #![trigger components(relative_path)[i], patterns[j]]
        0 <= i < components(relative_path).len() && 0 <= j < patterns.len()
        && components(relative_path)[i] == patterns[j]
}

fn seq_eq(a: &[char], b: &[char]) -> (res: bool)
    ensures
        res == (a@ == b@),
{
    if a.len() != b.len() {
        return false;
    }
    let mut i: usize = 0;
    while i < a.len()
        invariant
            a.len() == b.len(),
            i <= a.len(),
            forall|j: int| 0 <= j < i ==> a@[j] == b@[j],
        decreases a.len() - i,
    {
        if a[i] != b[i] {
            return false;
        }
        i = i + 1;
    }
    assert(a@ =~= b@);
    true
}

pub fn is_excluded(relative_path: &str, exclude_patterns: &[String]) -> (res: bool)
    ensures
        res == excluded(relative_path@, strs(exclude_patterns@)),
{
    let cs = components_exec(chars_of(relative_path).as_slice());
    let ghost cv = cs@.map_values(|p: Vec<char>| p@);
    assert(cv == components(relative_path@));
    let ghost pv = strs(exclude_patterns@);
    let mut i: usize = 0;
    while i < cs.len()
        invariant
            cv == cs@.map_values(|p: Vec<char>| p@),
            cv == components(relative_path@),
            pv == strs(exclude_patterns@),
            i <= cs.len(),
            forall|i2: int, j: int| #![trigger cv[i2], pv[j]] 0 <= i2 < i && 0 <= j < pv.len() ==> cv[i2] != pv[j],
        decreases cs.len() - i,
    {
        let mut j: usize = 0;
        while j < exclude_patterns.len()
            invariant
                cv == cs@.map_values(|p: Vec<char>| p@),
                cv == components(relative_path@),
                pv == strs(exclude_patterns@),
                i < cs.len(),
                j <= exclude_patterns.len(),
                forall|j2: int| 0 <= j2 < j ==> cv[i as int] != #[trigger] pv[j2],
            decreases exclude_patterns.len() - j,
        {
            if seq_eq(cs[i].as_slice(), chars_of(exclude_patterns[j].as_str()).as_slice()) {
                assert(cv[i as int] == pv[j as int]);
                assert(components(relative_path@)[i as int] == strs(exclude_patterns@)[j as int]);
                return true;
            }
            j = j + 1;
        }
        i = i + 1;
    }
    false
}

/// A configured extension as compared with a file's: no leading dots, ASCII lower case.
pub open spec fn normal_extension(e: Seq<char>) -> Seq<char> {
    ascii_lower_seq(strip_leading_dots(e))
}

/// The extension of a path in ASCII lower case, empty when it has none.
pub open spec fn lower_extension(relative_path: Seq<char>) -> Seq<char> {
    match extension(relative_path) {
        Some(e) => ascii_lower_seq(e),
        None => Seq::empty(),
    }
}

/// What to do with a walk entry.
#[derive(Debug, Clone, Copy, PartialEq, Eq, Structural)]
pub enum EntryStep {
    /// Not a file, or excluded: go on with the next entry.
    Skip,
    /// The file limit is reached: the walk ends here.
    Stop,
    /// Read the file's size and go on with it.
    Inspect,
}

/// How a file that is not too large is checked.
#[derive(Debug, Clone, Copy, PartialEq, Eq, Structural)]
pub struct FileCheck {
    /// Its extension is one of the configured source extensions.
    pub is_normal: bool,
    /// It is read and offered to the RPA analyzers.
    pub try_rpa: bool,
}

pub struct Scanner<'a> {
    pub config: &'a ScanConfig,
}

impl<'a> Scanner<'a> {
    pub fn new(config: &'a ScanConfig) -> (s: Scanner<'a>)
        ensures
            s.config == config,
    {
        Scanner { config }
    }

    /// The configured source extensions, normalised.
    pub fn normal_extensions(&self) -> (exts: Vec<Vec<char>>)
        ensures
            exts@.map_values(|e: Vec<char>| e@) == strs(self.config.extensions@).map_values(|e: Seq<char>| normal_extension(e)),
    {
        let ghost want = strs(self.config.extensions@).map_values(|e: Seq<char>| normal_extension(e));
        let mut exts: Vec<Vec<char>> = Vec::new();
        let mut i: usize = 0;
        while i < self.config.extensions.len()
            invariant
                i <= self.config.extensions.len(),
                want == strs(self.config.extensions@).map_values(|e: Seq<char>| normal_extension(e)),
                exts@.map_values(|e: Vec<char>| e@) == want.take(i as int),
            decreases self.config.extensions.len() - i,
        {
            let e = ascii_lower_chars(
                crate::domain::static_analyzer::language_spec::strip_leading_dots_exec(chars_of(self.config.extensions[i].as_str()).as_slice()).as_slice(),
            );
            let ghost prev = exts@.map_values(|x: Vec<char>| x@);
            exts.push(e);
            assert(exts@.map_values(|x: Vec<char>| x@) =~= prev.push(e@));
            assert(want.take(i + 1) =~= want.take(i as int).push(want[i as int]));
            i = i + 1;
        }
        assert(want.take(self.config.extensions.len() as int) =~= want);
        exts
    }

    /// A walk entry: non-files and excluded paths are skipped; when `kept` files have
    /// been kept already and that is the limit, the walk stops.
    pub fn entry_step(&self, kept: usize, relative_path: &str, is_file: bool) -> (step: EntryStep)
        ensures
            step == if !is_file || excluded(relative_path@, strs(self.config.exclude_patterns@)) {
                EntryStep::Skip
            } else if kept >= self.config.max_file_count {
                EntryStep::Stop
            } else {
                EntryStep::Inspect
            },
    {
        if !is_file || is_excluded(relative_path, self.config.exclude_patterns.as_slice()) {
            EntryStep::Skip
        } else if kept as u64 >= self.config.max_file_count {
            EntryStep::Stop
        } else {
            EntryStep::Inspect
        }
    }

    /// The size limit of a file in KiB: the source limit for source files, else the larger
    /// of the RPA and macro limits.
    pub open spec fn size_limit_kb(&self, is_normal: bool) -> u64 {
        if is_normal {
            self.config.max_file_size_kb
        } else if self.config.rpa.max_file_size_kb >= self.config.vba.max_file_size_kb {
            self.config.rpa.max_file_size_kb
        } else {
            self.config.vba.max_file_size_kb
        }
    }

    /// A file of `size_bytes` bytes: `None` when it is larger than its limit, else how it
    /// is checked. Non-source files are offered to the RPA analyzers when RPA detection is
    /// on.
    pub fn check_file(&self, normal_exts: &Vec<Vec<char>>, relative_path: &str, size_bytes: u64) -> (res: Option<FileCheck>)
        requires
            normal_exts@.map_values(|e: Vec<char>| e@) == strs(self.config.extensions@).map_values(|e: Seq<char>| normal_extension(e)),
        ensures
            ({
                let is_normal = strs(self.config.extensions@).map_values(|e: Seq<char>| normal_extension(e)).contains(lower_extension(relative_path@));
                let limit = self.size_limit_kb(is_normal);
                match res {
                    None => size_bytes > limit * 1024,
                    Some(c) => size_bytes <= limit * 1024 && c.is_normal == is_normal && c.try_rpa == (self.config.rpa.enabled && !is_normal),
                }
            }),
    {
        let ghost nv = normal_exts@.map_values(|e: Vec<char>| e@);
        let ext: Vec<char> = match extension_of_path(relative_path) {
            Some(e) => ascii_lower_chars(e.as_slice()),
            None => Vec::new(),
        };
        assert(ext@ == lower_extension(relative_path@));
        let mut is_normal = false;
        let mut i: usize = 0;
        while i < normal_exts.len()
            invariant
                nv == normal_exts@.map_values(|e: Vec<char>| e@),
                i <= normal_exts.len(),
                is_normal == nv.take(i as int).contains(ext@),
            decreases normal_exts.len() - i,
        {
            let m = seq_eq(normal_exts[i].as_slice(), ext.as_slice());
            proof {
                let t0 = nv.take(i as int);
                let t1 = nv.take(i + 1);
                assert(t1 =~= t0.push(nv[i as int]));
                if t0.contains(ext@) {
                    let k = choose|k: int| 0 <= k < t0.len() && t0[k] == ext@;
                    assert(t1[k] == ext@);
                }
                if m {
                    assert(t1[i as int] == ext@);
                }
                if t1.contains(ext@) && !m {
                    let k = choose|k: int| 0 <= k < t1.len() && t1[k] == ext@;
                    assert(k < i);
                    assert(t0[k] == ext@);
                }
            }
            is_normal = is_normal || m;
            i = i + 1;
        }
        assert(nv.take(normal_exts.len() as int) =~= nv);
        let limit_kb: u64 = if is_normal {
            self.config.max_file_size_kb
        } else if self.config.rpa.max_file_size_kb >= self.config.vba.max_file_size_kb {
            self.config.rpa.max_file_size_kb
        } else {
            self.config.vba.max_file_size_kb
        };
        let too_large = match limit_kb.checked_mul(1024) {
            Some(limit) => size_bytes > limit,
            None => false,
        };
        if too_large {
            None
        } else {
            Some(FileCheck { is_normal, try_rpa: self.config.rpa.enabled && !is_normal })
        }
    }

    /// Whether a file is offered to the macro analyzers: macro detection is on, it is not
    /// a source file, and no RPA tool claimed it.
    pub fn try_macro(&self, check: FileCheck, rpa_found: bool) -> (b: bool)
        ensures
            b == (self.config.vba.enabled && !check.is_normal && !rpa_found),
    {
        self.config.vba.enabled && !check.is_normal && !rpa_found
    }
}

fn extension_of_path(relative_path: &str) -> (res: Option<Vec<char>>)
    ensures
        match res {
            Some(e) => extension(relative_path@) == Some(e@),
            None => extension(relative_path@) is None,
        },
{
    match file_name_exec(chars_of(relative_path).as_slice()) {
        Some(n) => extension_of_exec(n.as_slice()),
        None => None,
    }
}

/// A file is kept when it is a source file or an RPA or macro tool claimed it.
pub fn keep_file(check: FileCheck, rpa_tool: &Option<String>, macro_tool: &Option<String>) -> (b: bool)
    ensures
        b == (check.is_normal || rpa_tool.is_some() || macro_tool.is_some()),
{
    check.is_normal || rpa_tool.is_some() || macro_tool.is_some()
}

/// The RPA tool that claims a file, given its text.
pub fn detect_rpa(relative_path: &str, content: &str) -> (tool: Option<String>)
    ensures
        match rpa_analyzer::first_detecting(rpa_analyzer::analyzers_spec(), relative_path@, content@) {
            Some(i) => tool matches Some(t) && t@ == rpa_analyzer::analyzers_spec()[i].tool(),
            None => tool is None,
        },
{
    let analyzers = rpa_analyzer::all_analyzers();
    match rpa_analyzer::detect_tool(analyzers.as_slice(), relative_path, content) {
        Some(a) => Some(String::from_str(a.tool_name())),
        None => None,
    }
}

/// The macro container kind that claims a file, given the names of its archive entries.
pub fn detect_macro(relative_path: &str, archive_entries: &[String]) -> (tool: Option<String>)
    ensures
        match vba_analyzer::first_detecting(vba_analyzer::analyzers_spec(), relative_path@, strs(archive_entries@)) {
            Some(i) => tool matches Some(t) && t@ == vba_analyzer::analyzers_spec()[i].tool(),
            None => tool is None,
        },
{
    let analyzers = vba_analyzer::all_analyzers();
    match vba_analyzer::detect_tool(analyzers.as_slice(), relative_path, archive_entries) {
        Some(a) => Some(String::from_str(a.tool_name())),
        None => None,
    }
}

/// The record of a kept file: its relative path with '/' separators, the SHA-256 of its
/// content, its size and the tools that claimed it.
/// The macro tool of a file from its bytes: the entry names of the file read as a zip
/// archive (none when it is not one) decide, as for `detect_macro`.
pub fn detect_macro_in(relative_path: &str, content: &[u8]) -> (tool: Option<String>)
    ensures
        match vba_analyzer::first_detecting(vba_analyzer::analyzers_spec(), relative_path@, zip_names(content@)) {
            Some(i) => tool matches Some(t) && t@ == vba_analyzer::analyzers_spec()[i].tool(),
            None => tool is None,
        },
{
    let names = zip_entry_names(content);
    detect_macro(relative_path, names.as_slice())
}

pub fn scanned_file(relative_path: &str, content: &[u8], size_bytes: u64, rpa_tool: Option<String>, macro_tool: Option<String>) -> (f: ScannedFile)
    ensures
        f.path@ == replace_char(relative_path@, '\\', '/'),
        f.hash@ == sha256_hex_text(content@),
        f.size_bytes == size_bytes,
        f.rpa_tool == rpa_tool,
        f.macro_tool == macro_tool,
{
    let path = string_of(replace_char_exec(chars_of(relative_path).as_slice(), '\\', '/').as_slice());
    ScannedFile { path, hash: sha256_hex(content), size_bytes, rpa_tool, macro_tool }
}

/// The error for a project folder that does not exist.
pub fn missing_folder_error(project_root: &str) -> (e: AppError)
    ensures
        e matches AppError::Scan { message, recoverable } && recoverable
            && message@ == "指定されたフォルダが存在しません: "@ + project_root@,
{
    let mut m = String::from_str("指定されたフォルダが存在しません: ");
    push_str(&mut m, project_root);
    AppError::scan(m)
}

} // verus!
