//! The configuration of a project, and the values it has where nothing is
//! configured.

use crate::language::Language;
use crate::text::{append_str, string_of};
use vstd::prelude::*;

verus! {

/// What is configured of the project itself.
#[derive(Debug, Clone, Copy, PartialEq, Eq, Structural)]
pub struct ProjectConfig {
    pub language: Language,
}

impl Default for ProjectConfig {
    fn default() -> (r: Self)
        ensures
            r.language == Language::Rust,
    {
        ProjectConfig { language: Language::Rust }
    }
}

/// Where the generator is, which model it runs, and how long a call may
/// take.
#[derive(Debug, Clone)]
pub struct OllamaConfig {
    pub url: String,
    pub model: String,
    pub timeout_seconds: u64,
}

pub fn default_ollama_url() -> (r: String)
    ensures
        r@ == "http://localhost:11434"@,
{
    "http://localhost:11434".to_owned()
}

pub fn default_model() -> (r: String)
    ensures
        r@ == "qwen-32k:latest"@,
{
    "qwen-32k:latest".to_owned()
}

pub fn default_timeout() -> (r: u64)
    ensures
        r == 300,
{
    300
}

impl Default for OllamaConfig {
    fn default() -> (r: Self)
        ensures
            r.url@ == "http://localhost:11434"@,
            r.model@ == "qwen-32k:latest"@,
            r.timeout_seconds == 300,
    {
        OllamaConfig {
            url: default_ollama_url(),
            model: default_model(),
            timeout_seconds: default_timeout(),
        }
    }
}

/// The limits on what a job takes in and gives out.
#[derive(Debug, Clone, Copy, PartialEq, Eq, Structural)]
pub struct LimitsConfig {
    pub max_output_lines: usize,
    pub max_context_lines: usize,
    pub max_context_files: usize,
}

pub fn default_max_output_lines() -> (r: usize)
    ensures
        r == 900,
{
    900
}

pub fn default_max_context_lines() -> (r: usize)
    ensures
        r == 1000,
{
    1000
}

pub fn default_max_context_files() -> (r: usize)
    ensures
        r == 2,
{
    2
}

impl Default for LimitsConfig {
    fn default() -> (r: Self)
        ensures
            r.max_output_lines == 900,
            r.max_context_lines == 1000,
            r.max_context_files == 2,
    {
        LimitsConfig {
            max_output_lines: default_max_output_lines(),
            max_context_lines: default_max_context_lines(),
            max_context_files: default_max_context_files(),
        }
    }
}

/// How a run behaves.
#[derive(Debug, Clone, Copy, PartialEq, Eq, Structural)]
pub struct BehaviorConfig {
    pub stream_output: bool,
    pub create_output_dirs: bool,
}

pub fn default_stream_output() -> (r: bool)
    ensures
        r,
{
    true
}

pub fn default_create_output_dirs() -> (r: bool)
    ensures
        r,
{
    true
}

impl Default for BehaviorConfig {
    fn default() -> (r: Self)
        ensures
            r.stream_output,
            r.create_output_dirs,
    {
        BehaviorConfig {
            stream_output: default_stream_output(),
            create_output_dirs: default_create_output_dirs(),
        }
    }
}

/// The commands that check what was generated, and whether and how often
/// a failed build is answered by an automatic fix.
#[derive(Debug, Clone)]
pub struct BuildConfig {
    pub build_command: Option<String>,
    pub test_command: Option<String>,
    pub lint_command: Option<String>,
    pub verify_build: bool,
    pub verify_tests: bool,
    pub auto_fix: bool,
    pub auto_fix_attempts: usize,
}

pub fn default_verify_build() -> (r: bool)
    ensures
        !r,
{
    false
}

pub fn default_verify_tests() -> (r: bool)
    ensures
        !r,
{
    false
}

pub fn default_auto_fix() -> (r: bool)
    ensures
        !r,
{
    false
}

pub fn default_auto_fix_attempts() -> (r: usize)
    ensures
        r == 2,
{
    2
}

impl Default for BuildConfig {
    fn default() -> (r: Self)
        ensures
            r.build_command is None,
            r.test_command is None,
            r.lint_command is None,
            !r.verify_build,
            !r.verify_tests,
            !r.auto_fix,
            r.auto_fix_attempts == 2,
    {
        BuildConfig {
            build_command: None,
            test_command: None,
            lint_command: None,
            verify_build: default_verify_build(),
            verify_tests: default_verify_tests(),
            auto_fix: default_auto_fix(),
            auto_fix_attempts: default_auto_fix_attempts(),
        }
    }
}

/// Whether and after how many days finished jobs are archived.
#[derive(Debug, Clone, Copy, PartialEq, Eq, Structural)]
pub struct ArchiveConfig {
    pub enabled: bool,
    pub days: u32,
}

pub fn default_archive_enabled() -> (r: bool)
    ensures
        r,
{
    true
}

pub fn default_archive_days() -> (r: u32)
    ensures
        r == 3,
{
    3
}

impl Default for ArchiveConfig {
    fn default() -> (r: Self)
        ensures
            r.enabled,
            r.days == 3,
    {
        ArchiveConfig { enabled: default_archive_enabled(), days: default_archive_days() }
    }
}

/// Whether and after how many days archived jobs are removed.
#[derive(Debug, Clone, Copy, PartialEq, Eq, Structural)]
pub struct CleanupConfig {
    pub enabled: bool,
    pub days: u32,
}

pub fn default_cleanup_enabled() -> (r: bool)
    ensures
        r,
{
    true
}

pub fn default_cleanup_days() -> (r: u32)
    ensures
        r == 30,
{
    30
}

impl Default for CleanupConfig {
    fn default() -> (r: Self)
        ensures
            r.enabled,
            r.days == 30,
    {
        CleanupConfig { enabled: default_cleanup_enabled(), days: default_cleanup_days() }
    }
}

/// The configuration of a project.
#[derive(Debug, Clone)]
pub struct Config {
    pub project: ProjectConfig,
    pub ollama: OllamaConfig,
    pub limits: LimitsConfig,
    pub behavior: BehaviorConfig,
    pub build: BuildConfig,
    pub archive: ArchiveConfig,
    pub cleanup: CleanupConfig,
}

impl Default for Config {
    fn default() -> (r: Self)
        ensures
            r.project.language == Language::Rust,
            r.ollama.url@ == "http://localhost:11434"@,
            r.ollama.model@ == "qwen-32k:latest"@,
            r.ollama.timeout_seconds == 300,
            r.limits == (LimitsConfig {
                max_output_lines: 900,
                max_context_lines: 1000,
                max_context_files: 2,
            }),
            r.behavior == (BehaviorConfig { stream_output: true, create_output_dirs: true }),
            r.build.build_command is None,
            r.build.test_command is None,
            r.build.lint_command is None,
            !r.build.verify_build,
            !r.build.verify_tests,
            !r.build.auto_fix,
            r.build.auto_fix_attempts == 2,
            r.archive == (ArchiveConfig { enabled: true, days: 3 }),
            r.cleanup == (CleanupConfig { enabled: true, days: 30 }),
    {
        Config {
            project: ProjectConfig::default(),
            ollama: OllamaConfig::default(),
            limits: LimitsConfig::default(),
            behavior: BehaviorConfig::default(),
            build: BuildConfig::default(),
            archive: ArchiveConfig::default(),
            cleanup: CleanupConfig::default(),
        }
    }
}

impl Config {
    /// The configuration with what the command line overrides: the model,
    /// the generator's address, the timeout, and streaming switched off.
    pub fn with_overrides(
        self,
        model: Option<String>,
        url: Option<String>,
        timeout: Option<u64>,
        no_stream: bool,
    ) -> (r: Self)
        ensures
            r.ollama.model == (match model {
                Some(m) => m,
                None => self.ollama.model,
            }),
            r.ollama.url == (match url {
                Some(u) => u,
                None => self.ollama.url,
            }),
            r.ollama.timeout_seconds == (match timeout {
                Some(t) => t,
                None => self.ollama.timeout_seconds,
            }),
            r.behavior.stream_output == (self.behavior.stream_output && !no_stream),
            r.behavior.create_output_dirs == self.behavior.create_output_dirs,
            r.project == self.project,
            r.limits == self.limits,
            r.build == self.build,
            r.archive == self.archive,
            r.cleanup == self.cleanup,
    {
        let mut r = self;
        if let Some(m) = model {
            r.ollama.model = m;
        }
        if let Some(u) = url {
            r.ollama.url = u;
        }
        if let Some(t) = timeout {
            r.ollama.timeout_seconds = t;
        }
        if no_stream {
            r.behavior.stream_output = false;
        }
        r
    }
}

/// What can go wrong with the configuration file.
#[derive(Debug, Clone, PartialEq, Eq)]
pub enum ConfigError {
    /// The file at the path could not be read; with the reason.
    ReadError(String, String),
    /// The file at the path is no configuration; with the reason.
    ParseError(String, String),
}

impl ConfigError {
    /// What the error says.
    pub open spec fn text(self) -> Seq<char> {
        match self {
            ConfigError::ReadError(path, reason) => "Failed to read config file "@ + path@ + ": "@
                + reason@,
            ConfigError::ParseError(path, reason) => "Failed to parse config file "@ + path@
                + ": "@ + reason@,
        }
    }

    /// What the error says.
    pub fn message(&self) -> (r: String)
        ensures
            r@ == self.text(),
    {
        let mut out: Vec<char> = Vec::new();
        match self {
            ConfigError::ReadError(path, reason) => {
                append_str(&mut out, "Failed to read config file ");
                append_str(&mut out, path.as_str());
                append_str(&mut out, ": ");
                append_str(&mut out, reason.as_str());
            },
            ConfigError::ParseError(path, reason) => {
                append_str(&mut out, "Failed to parse config file ");
                append_str(&mut out, path.as_str());
                append_str(&mut out, ": ");
                append_str(&mut out, reason.as_str());
            },
        }
        assert(out@ =~= self.text());
        string_of(&out)
    }
}

} // verus!
