//! Application settings (config.json). The default values are defined once, in the
//! `Default` impls of this file; resetting the settings goes through them too.
use crate::models::constants::{doc_types, rpa_tools};
use crate::text::strs;
use vstd::prelude::*;
use vstd::string::StringExecFns;

verus! {

#[derive(Debug, Clone)]
pub struct AppConfig {
    pub scan: ScanConfig,
    pub ai: AiConfig,
    pub cache: CacheConfig,
    pub export: ExportConfig,
    pub ui: UiConfig,
}

#[derive(Debug, Clone)]
pub struct ScanConfig {
    pub exclude_patterns: Vec<String>,
    pub max_file_size_kb: u64,
    pub max_file_count: u64,
    pub extensions: Vec<String>,
    pub rpa: RpaScanConfig,
    pub vba: VbaScanConfig,
}

#[derive(Debug, Clone)]
pub struct RpaScanConfig {
    pub enabled: bool,
    pub tools: Vec<String>,
    pub detection_patterns: RpaDetectionPatterns,
    pub max_file_size_kb: u64,
}

/// Detection of macro containers (VBA projects inside Office files).
#[derive(Debug, Clone)]
pub struct VbaScanConfig {
    pub enabled: bool,
    pub max_file_size_kb: u64,
}

#[derive(Debug, Clone)]
pub struct RpaDetectionPatterns {
    pub powerplatform: Vec<String>,
    pub pad: Vec<String>,
    pub uipath: Vec<String>,
}

#[derive(Debug, Clone)]
pub struct AiConfig {
    pub provider: String,
    pub newtonx: NewtonxConfig,
    pub concurrency: u32,
    pub timeout_secs: u64,
    pub max_retries: u32,
    pub retry_after_secs: u64,
    pub retry_after_max_secs: u64,
    pub detail_level: String,
    pub max_tokens_per_file: u32,
    pub output_language: String,
}

/// NewtonX settings. The personal access token is not part of them: it lives in the
/// operating system's credential store.
#[derive(Debug, Clone)]
pub struct NewtonxConfig {
    pub host: String,
    pub assistant_uid: String,
}

#[derive(Debug, Clone)]
pub struct CacheConfig {
    pub enabled: bool,
    pub ttl_days: u32,
    pub max_size_mb: u64,
    pub auto_cleanup: bool,
}

#[derive(Debug, Clone)]
pub struct ExportConfig {
    pub default_format: String,
    pub default_doc_types: Vec<String>,
    pub output_dir: String,
    pub embed_mermaid: bool,
}

#[derive(Debug, Clone)]
pub struct UiConfig {
    pub theme: String,
    pub language: String,
    pub recent_projects_count: u32,
}

fn owned(s: &str) -> (r: String)
    ensures
        r@ == s@,
{
    String::from_str(s)
}

pub open spec fn default_exclude_patterns() -> Seq<Seq<char>> {
    seq!["node_modules"@, "target"@, "dist"@, "build"@, ".git"@, "vendor"@, "__pycache__"@]
}

pub open spec fn default_extensions() -> Seq<Seq<char>> {
    seq![".ts"@, ".tsx"@, ".js"@, ".jsx"@, ".rs"@, ".py"@, ".java"@, ".go"@, ".cs"@, ".c"@, ".cpp"@, ".h"@, ".hpp"@]
}

impl Default for AppConfig {
    fn default() -> (c: Self)
        ensures
            c.scan.is_default(),
            c.ai.is_default(),
            c.cache.is_default(),
            c.export.is_default(),
            c.ui.is_default(),
    {
        AppConfig {
            scan: ScanConfig::default(),
            ai: AiConfig::default(),
            cache: CacheConfig::default(),
            export: ExportConfig::default(),
            ui: UiConfig::default(),
        }
    }
}

impl ScanConfig {
    pub open spec fn is_default(&self) -> bool {
        &&& strs(self.exclude_patterns@) == default_exclude_patterns()
        &&& self.max_file_size_kb == 1024
        &&& self.max_file_count == 5000
        &&& strs(self.extensions@) == default_extensions()
        &&& self.rpa.is_default()
        &&& self.vba.is_default()
    }
}

impl Default for ScanConfig {
    fn default() -> (c: Self)
        ensures
            c.is_default(),
    {
        let exclude_patterns = vec![
            owned("node_modules"),
            owned("target"),
            owned("dist"),
            owned("build"),
            owned(".git"),
            owned("vendor"),
            owned("__pycache__"),
        ];
        let extensions = vec![
            owned(".ts"),
            owned(".tsx"),
            owned(".js"),
            owned(".jsx"),
            owned(".rs"),
            owned(".py"),
            owned(".java"),
            owned(".go"),
            owned(".cs"),
            owned(".c"),
            owned(".cpp"),
            owned(".h"),
            owned(".hpp"),
        ];
        let c = ScanConfig {
            exclude_patterns,
            max_file_size_kb: 1024,
            max_file_count: 5000,
            extensions,
            rpa: RpaScanConfig::default(),
            vba: VbaScanConfig::default(),
        };
        assert(strs(c.exclude_patterns@) =~= default_exclude_patterns());
        assert(strs(c.extensions@) =~= default_extensions());
        c
    }
}

impl RpaScanConfig {
    pub open spec fn is_default(&self) -> bool {
        &&& self.enabled
        &&& strs(self.tools@) == seq![rpa_tools::POWER_PLATFORM@, rpa_tools::PAD@, rpa_tools::UIPATH@]
        &&& self.detection_patterns.is_default()
        &&& self.max_file_size_kb == 4096
    }
}

impl Default for RpaScanConfig {
    fn default() -> (c: Self)
        ensures
            c.is_default(),
    {
        let tools = vec![owned(rpa_tools::POWER_PLATFORM), owned(rpa_tools::PAD), owned(rpa_tools::UIPATH)];
        let c = RpaScanConfig {
            enabled: true,
            tools,
            detection_patterns: RpaDetectionPatterns::default(),
            max_file_size_kb: 4096,
        };
        assert(strs(c.tools@) =~= seq![rpa_tools::POWER_PLATFORM@, rpa_tools::PAD@, rpa_tools::UIPATH@]);
        c
    }
}

impl VbaScanConfig {
    pub open spec fn is_default(&self) -> bool {
        self.enabled && self.max_file_size_kb == 4096
    }
}

impl Default for VbaScanConfig {
    fn default() -> (c: Self)
        ensures
            c.is_default(),
    {
        VbaScanConfig { enabled: true, max_file_size_kb: 4096 }
    }
}

impl RpaDetectionPatterns {
    pub open spec fn is_default(&self) -> bool {
        &&& strs(self.powerplatform@) == seq![
            "solution.xml"@,
            "customizations.xml"@,
            "Workflows/*.json"@,
            "*.msapp"@,
            "CanvasApps/**/*.json"@,
        ]
        &&& strs(self.pad@) == seq!["*.robin"@, "*.pad.txt"@]
        &&& strs(self.uipath@) == seq!["project.json"@, "*.xaml"@]
    }
}

impl Default for RpaDetectionPatterns {
    fn default() -> (c: Self)
        ensures
            c.is_default(),
    {
        let c = RpaDetectionPatterns {
            powerplatform: vec![
                owned("solution.xml"),
                owned("customizations.xml"),
                owned("Workflows/*.json"),
                owned("*.msapp"),
                owned("CanvasApps/**/*.json"),
            ],
            pad: vec![owned("*.robin"), owned("*.pad.txt")],
            uipath: vec![owned("project.json"), owned("*.xaml")],
        };
        assert(strs(c.powerplatform@) =~= seq![
            "solution.xml"@,
            "customizations.xml"@,
            "Workflows/*.json"@,
            "*.msapp"@,
            "CanvasApps/**/*.json"@,
        ]);
        assert(strs(c.pad@) =~= seq!["*.robin"@, "*.pad.txt"@]);
        assert(strs(c.uipath@) =~= seq!["project.json"@, "*.xaml"@]);
        c
    }
}

impl AiConfig {
    pub open spec fn is_default(&self) -> bool {
        &&& self.provider@ == "newtonx"@
        &&& self.newtonx.is_default()
        &&& self.concurrency == 5
        &&& self.timeout_secs == 90
        &&& self.max_retries == 3
        &&& self.retry_after_secs == 60
        &&& self.retry_after_max_secs == 300
        &&& self.detail_level@ == "standard"@
        &&& self.max_tokens_per_file == 8000
        &&& self.output_language@ == "ja"@
    }
}

impl Default for AiConfig {
    fn default() -> (c: Self)
        ensures
            c.is_default(),
    {
        AiConfig {
            provider: owned("newtonx"),
            newtonx: NewtonxConfig::default(),
            concurrency: 5,
            timeout_secs: 90,
            max_retries: 3,
            retry_after_secs: 60,
            retry_after_max_secs: 300,
            detail_level: owned("standard"),
            max_tokens_per_file: 8000,
            output_language: owned("ja"),
        }
    }
}

impl NewtonxConfig {
    pub open spec fn is_default(&self) -> bool {
        &&& self.host@ == "seraku.newton-x.net"@
        &&& self.assistant_uid@ == "d18ad1c0-c7e6-4651-9ff2-4fe86af1a73b"@
    }
}

impl Default for NewtonxConfig {
    fn default() -> (c: Self)
        ensures
            c.is_default(),
    {
        NewtonxConfig {
            host: owned("seraku.newton-x.net"),
            assistant_uid: owned("d18ad1c0-c7e6-4651-9ff2-4fe86af1a73b"),
        }
    }
}

impl CacheConfig {
    pub open spec fn is_default(&self) -> bool {
        self.enabled && self.ttl_days == 30 && self.max_size_mb == 500 && self.auto_cleanup
    }
}

impl Default for CacheConfig {
    fn default() -> (c: Self)
        ensures
            c.is_default(),
    {
        CacheConfig { enabled: true, ttl_days: 30, max_size_mb: 500, auto_cleanup: true }
    }
}

impl ExportConfig {
    pub open spec fn is_default(&self) -> bool {
        &&& self.default_format@ == "markdown"@
        &&& strs(self.default_doc_types@) == seq![
            doc_types::SYSTEM_SPEC@,
            doc_types::BASIC_DESIGN@,
            doc_types::DETAIL_DESIGN@,
        ]
        &&& self.output_dir@ == Seq::<char>::empty()
        &&& self.embed_mermaid
    }
}

impl Default for ExportConfig {
    fn default() -> (c: Self)
        ensures
            c.is_default(),
    {
        let c = ExportConfig {
            default_format: owned("markdown"),
            default_doc_types: vec![
                owned(doc_types::SYSTEM_SPEC),
                owned(doc_types::BASIC_DESIGN),
                owned(doc_types::DETAIL_DESIGN),
            ],
            output_dir: String::new(),
            embed_mermaid: true,
        };
        assert(strs(c.default_doc_types@) =~= seq![
            doc_types::SYSTEM_SPEC@,
            doc_types::BASIC_DESIGN@,
            doc_types::DETAIL_DESIGN@,
        ]);
        c
    }
}

impl UiConfig {
    pub open spec fn is_default(&self) -> bool {
        &&& self.theme@ == "system"@
        &&& self.language@ == "ja"@
        &&& self.recent_projects_count == 10
    }
}

impl Default for UiConfig {
    fn default() -> (c: Self)
        ensures
            c.is_default(),
    {
        UiConfig { theme: owned("system"), language: owned("ja"), recent_projects_count: 10 }
    }
}

} // verus!
