//! Job definitions: what a job declares, and the rules that a declaration
//! must keep.

use crate::text::{
    append, append_decimal, append_str, chars_of, decimal, join, join_of, lemma_rows_push, rows,
    same_text, split_at, split_of, string_of, subvec,
};
use vstd::prelude::*;

verus! {

/// The kind of job file that the new-job command writes.
#[derive(Debug, Clone, Copy, PartialEq, Eq, Structural)]
pub enum JobTemplate {
    /// Whole files are generated.
    Replace,
    /// Existing files are edited.
    Edit,
    /// One large file is split into several.
    Split,
    /// Several files are generated one after the other.
    Sequential,
    /// A test is generated before the implementation.
    Tdd,
}

/// How a job produces its files.
#[derive(Debug, Clone, Copy, PartialEq, Eq, Structural)]
pub enum OutputMode {
    /// Whole files are generated.
    Replace,
    /// Find-and-replace edits are applied to the target files.
    Edit,
    /// The target file is split into the output files.
    Split,
    /// Text is inserted after each occurrence of a pattern.
    ReplacePattern,
    /// A field is added to the literals of a struct.
    UpdateFixtures,
}

impl Default for OutputMode {
    fn default() -> (r: Self)
        ensures
            r == OutputMode::Replace,
    {
        OutputMode::Replace
    }
}

/// What a job declares. Paths are relative to the project root.
#[derive(Debug, Clone)]
pub struct JobMetadata {
    /// Files given to the generator as context.
    pub context_files: Vec<String>,
    /// The directory of the output file.
    pub output_dir: String,
    /// The name of the output file, used where `output_files` is absent.
    pub output_file: String,
    /// The test file of a test-first job.
    pub test_file: Option<String>,
    /// The output files of a job that produces several.
    pub output_files: Option<Vec<String>>,
    /// Whether the output files are generated one call each.
    pub sequential: Option<bool>,
    pub mode: OutputMode,
    /// The files that an edit job edits.
    pub target_files: Option<Vec<String>>,
    /// The file that a split job splits.
    pub target_file: Option<String>,
    /// Whether the result is verified by the generator.
    pub verify: bool,
    /// The struct whose literals get a new field.
    pub struct_name: Option<String>,
    /// The field that they get.
    pub new_field: Option<String>,
}

/// A rule that a job declaration breaks.
#[derive(Debug, Clone, PartialEq, Eq)]
pub enum JobValidationError {
    TooManyContextFiles { count: usize, max: usize },
    EmptyOutputFile,
    ContextFileNotFound(String),
    ContextFileTooLarge { path: String, lines: usize, max: usize },
    EmptyTestFile,
    EmptyOutputFiles,
    EmptyOutputFilePath,
    EmptyTargetFiles,
    EmptyTargetFilePath,
    EditModeWithSequential,
    SplitMissingTargetFile,
    SplitEmptyTargetFile,
    SplitMissingOutputFiles,
    SplitModeWithSequential,
    ReplacePatternMissingTargetFiles,
    UpdateFixturesMissingTargetFiles,
    UpdateFixturesMissingStructName,
    UpdateFixturesMissingNewField,
}

impl JobValidationError {
    /// What the error says.
    pub open spec fn text(self) -> Seq<char> {
        match self {
            JobValidationError::TooManyContextFiles { count, max } => "Too many context files: "@
                + decimal(count as nat) + " (max: "@ + decimal(max as nat) + ")"@,
            JobValidationError::EmptyOutputFile => "Output file cannot be empty"@,
            JobValidationError::ContextFileNotFound(path) => "Context file not found: "@ + path@,
            JobValidationError::ContextFileTooLarge { path, lines, max } => "Context file too large: "@
                + path@ + " has "@ + decimal(lines as nat) + " lines (max: "@ + decimal(max as nat)
                + ")"@,
            JobValidationError::EmptyTestFile => "Test file name cannot be empty"@,
            JobValidationError::EmptyOutputFiles => "output_files list cannot be empty"@,
            JobValidationError::EmptyOutputFilePath => "output_files contains an empty path"@,
            JobValidationError::EmptyTargetFiles => "target_files list cannot be empty in edit mode"@,
            JobValidationError::EmptyTargetFilePath => "target_files contains an empty path"@,
            JobValidationError::EditModeWithSequential => "edit mode cannot be combined with sequential mode"@,
            JobValidationError::SplitMissingTargetFile => "split mode requires target_file"@,
            JobValidationError::SplitEmptyTargetFile => "split mode target_file cannot be empty"@,
            JobValidationError::SplitMissingOutputFiles => "split mode requires output_files"@,
            JobValidationError::SplitModeWithSequential => "split mode cannot be combined with sequential mode"@,
            JobValidationError::ReplacePatternMissingTargetFiles => "replace_pattern mode requires target_files"@,
            JobValidationError::UpdateFixturesMissingTargetFiles => "update_fixtures mode requires target_files"@,
            JobValidationError::UpdateFixturesMissingStructName => "update_fixtures mode requires struct_name"@,
            JobValidationError::UpdateFixturesMissingNewField => "update_fixtures mode requires new_field"@,
        }
    }

    /// What the error says.
    pub fn message(&self) -> (r: String)
        ensures
            r@ == self.text(),
    {
        let mut out: Vec<char> = Vec::new();
        match self {
            JobValidationError::TooManyContextFiles { count, max } => {
                append_str(&mut out, "Too many context files: ");
                append_decimal(&mut out, *count);
                append_str(&mut out, " (max: ");
                append_decimal(&mut out, *max);
                append_str(&mut out, ")");
            },
            JobValidationError::EmptyOutputFile => append_str(
                &mut out,
                "Output file cannot be empty",
            ),
            JobValidationError::ContextFileNotFound(path) => {
                append_str(&mut out, "Context file not found: ");
                append_str(&mut out, path.as_str());
            },
            JobValidationError::ContextFileTooLarge { path, lines, max } => {
                append_str(&mut out, "Context file too large: ");
                append_str(&mut out, path.as_str());
                append_str(&mut out, " has ");
                append_decimal(&mut out, *lines);
                append_str(&mut out, " lines (max: ");
                append_decimal(&mut out, *max);
                append_str(&mut out, ")");
            },
            JobValidationError::EmptyTestFile => append_str(
                &mut out,
                "Test file name cannot be empty",
            ),
            JobValidationError::EmptyOutputFiles => append_str(
                &mut out,
                "output_files list cannot be empty",
            ),
            JobValidationError::EmptyOutputFilePath => append_str(
                &mut out,
                "output_files contains an empty path",
            ),
            JobValidationError::EmptyTargetFiles => append_str(
                &mut out,
                "target_files list cannot be empty in edit mode",
            ),
            JobValidationError::EmptyTargetFilePath => append_str(
                &mut out,
                "target_files contains an empty path",
            ),
            JobValidationError::EditModeWithSequential => append_str(
                &mut out,
                "edit mode cannot be combined with sequential mode",
            ),
            JobValidationError::SplitMissingTargetFile => append_str(
                &mut out,
                "split mode requires target_file",
            ),
            JobValidationError::SplitEmptyTargetFile => append_str(
                &mut out,
                "split mode target_file cannot be empty",
            ),
            JobValidationError::SplitMissingOutputFiles => append_str(
                &mut out,
                "split mode requires output_files",
            ),
            JobValidationError::SplitModeWithSequential => append_str(
                &mut out,
                "split mode cannot be combined with sequential mode",
            ),
            JobValidationError::ReplacePatternMissingTargetFiles => append_str(
                &mut out,
                "replace_pattern mode requires target_files",
            ),
            JobValidationError::UpdateFixturesMissingTargetFiles => append_str(
                &mut out,
                "update_fixtures mode requires target_files",
            ),
            JobValidationError::UpdateFixturesMissingStructName => append_str(
                &mut out,
                "update_fixtures mode requires struct_name",
            ),
            JobValidationError::UpdateFixturesMissingNewField => append_str(
                &mut out,
                "update_fixtures mode requires new_field",
            ),
        }
        assert(out@ =~= self.text());
        string_of(&out)
    }
}

/// The path `name` taken from the directory `dir`: `name` itself where it
/// starts at the root; else `dir`, a separator unless `dir` is empty or ends
/// in one, and `name`.
pub open spec fn joined_path(dir: Seq<char>, name: Seq<char>) -> Seq<char> {
    if name.len() > 0 && name[0] == '/' {
        name
    } else if dir.len() > 0 && dir.last() != '/' {
        dir + seq!['/'] + name
    } else {
        dir + name
    }
}

pub fn join_path(dir: &str, name: &str) -> (r: String)
    ensures
        r@ == joined_path(dir@, name@),
{
    let d = chars_of(dir);
    let n = chars_of(name);
    if n.len() > 0 && n[0] == '/' {
        return string_of(&n);
    }
    let mut out: Vec<char> = Vec::new();
    append(&mut out, &d);
    if d.len() > 0 && d[d.len() - 1] != '/' {
        out.push('/');
    }
    append(&mut out, &n);
    assert(out@ =~= joined_path(dir@, name@));
    string_of(&out)
}

/// The parts of a path that count where two paths are compared: the
/// parts between separators but for the empty ones and, behind the first
/// part, those that are a single dot.
pub open spec fn counted_parts(parts: Seq<Seq<char>>) -> Seq<Seq<char>>
    decreases parts.len(),
{
    if parts.len() == 0 {
        Seq::empty()
    } else {
        let before = counted_parts(parts.drop_last());
        let part = parts.last();
        if part.len() == 0 || (part == seq!['.'] && parts.len() > 1) {
            before
        } else {
            before.push(part)
        }
    }
}

/// The path in the form in which paths are compared: its parts that count,
/// one separator between each two, behind the root where the path starts
/// there. Two paths name the same file by their parts where this form of
/// them is the same: doubled separators, a separator at the end and a dot
/// between separators make no difference.
pub open spec fn normal_path(p: Seq<char>) -> Seq<char> {
    let body = join(counted_parts(split_at(p, '/')), seq!['/']);
    if p.len() > 0 && p[0] == '/' {
        seq!['/'] + body
    } else {
        body
    }
}

/// Brings a path into the form in which paths are compared.
pub fn normalize_path(p: &str) -> (r: String)
    ensures
        r@ == normal_path(p@),
{
    let text = chars_of(p);
    let parts = split_of(&text, '/');
    let mut kept: Vec<Vec<char>> = Vec::new();
    let mut i: usize = 0;
    assert(rows(kept@) =~= counted_parts(rows(parts@).take(0)));
    while i < parts.len()
        invariant
            i <= parts.len(),
            rows(kept@) == counted_parts(rows(parts@).take(i as int)),
        decreases parts.len() - i,
    {
        proof {
            assert(rows(parts@).take(i + 1).drop_last() =~= rows(parts@).take(i as int));
            assert(rows(parts@).take(i + 1).last() == parts@[i as int]@);
        }
        let dot = parts[i].len() == 1 && parts[i][0] == '.';
        assert(dot == (parts@[i as int]@ =~= seq!['.']));
        if parts[i].len() > 0 && !(dot && i > 0) {
            let part = subvec(&parts[i], 0, parts[i].len());
            proof {
                assert(part@ == parts@[i as int]@);
                lemma_rows_push(kept@, part);
            }
            kept.push(part);
        }
        i += 1;
    }
    assert(rows(parts@).take(parts.len() as int) == rows(parts@));
    let mut sep: Vec<char> = Vec::new();
    sep.push('/');
    assert(sep@ =~= seq!['/']);
    let body = join_of(&kept, &sep);
    let mut out: Vec<char> = Vec::new();
    if text.len() > 0 && text[0] == '/' {
        out.push('/');
    }
    append(&mut out, &body);
    assert(out@ =~= normal_path(p@));
    string_of(&out)
}

/// Two paths name the same file by their parts.
pub open spec fn same_file(a: Seq<char>, b: Seq<char>) -> bool {
    normal_path(a) == normal_path(b)
}

/// Whether two paths name the same file by their parts.
pub fn is_same_file(a: &str, b: &str) -> (r: bool)
    ensures
        r == same_file(a@, b@),
{
    same_text(normalize_path(a).as_str(), normalize_path(b).as_str())
}

/// One of the paths names the file that `path` names.
pub open spec fn names_file(files: Seq<Seq<char>>, path: Seq<char>) -> bool {
    exists|i: int| 0 <= i < files.len() && same_file(#[trigger] files[i], path)
}

/// Some path in the list is empty.
pub open spec fn has_empty_path(files: Seq<String>) -> bool {
    exists|i: int| 0 <= i < files.len() && (#[trigger] files[i])@.len() == 0
}

fn any_empty(files: &Vec<String>) -> (r: bool)
    ensures
        r == has_empty_path(files@),
{
    let mut i: usize = 0;
    while i < files.len()
        invariant
            i <= files.len(),
            forall|j: int| 0 <= j < i ==> (#[trigger] files@[j])@.len() != 0,
        decreases files.len() - i,
    {
        if files[i].as_str().is_empty() {
            return true;
        }
        i += 1;
    }
    false
}

/// A copy of the list.
pub fn clone_strings(v: &Vec<String>) -> (r: Vec<String>)
    ensures
        r@ == v@,
{
    let mut r: Vec<String> = Vec::new();
    let mut i: usize = 0;
    while i < v.len()
        invariant
            i <= v.len(),
            r@ == v@.take(i as int),
        decreases v.len() - i,
    {
        r.push(v[i].clone());
        i += 1;
        assert(r@ =~= v@.take(i as int));
    }
    assert(v@.take(v.len() as int) == v@);
    r
}

impl JobMetadata {
    /// The job generates its output files one call each.
    pub open spec fn sequential_mode(&self) -> bool {
        self.sequential == Some(true) && self.output_files is Some
    }

    /// The path of the output file.
    pub open spec fn default_output(&self) -> Seq<char> {
        joined_path(self.output_dir@, self.output_file@)
    }

    /// The first rule that the declaration breaks, in the order in which
    /// the rules are checked: the number of context files; the output file's
    /// name; the test file's name; the list of output files; then the rules
    /// of the job's mode.
    pub open spec fn violation(&self, max_context_files: usize) -> Option<JobValidationError> {
        if self.context_files@.len() > max_context_files {
            Some(
                JobValidationError::TooManyContextFiles {
                    count: self.context_files@.len() as usize,
                    max: max_context_files,
                },
            )
        } else if self.output_file@.len() == 0 {
            Some(JobValidationError::EmptyOutputFile)
        } else if self.test_file is Some && self.test_file->0@.len() == 0 {
            Some(JobValidationError::EmptyTestFile)
        } else if self.output_files is Some && self.output_files->0@.len() == 0 {
            Some(JobValidationError::EmptyOutputFiles)
        } else if self.output_files is Some && has_empty_path(self.output_files->0@) {
            Some(JobValidationError::EmptyOutputFilePath)
        } else {
            self.mode_violation()
        }
    }

    /// The first rule of the job's mode that the declaration breaks.
    pub open spec fn mode_violation(&self) -> Option<JobValidationError> {
        match self.mode {
            OutputMode::Replace => None,
            OutputMode::Edit => if self.target_files is Some && self.target_files->0@.len() == 0 {
                Some(JobValidationError::EmptyTargetFiles)
            } else if self.target_files is Some && has_empty_path(self.target_files->0@) {
                Some(JobValidationError::EmptyTargetFilePath)
            } else if self.sequential_mode() {
                Some(JobValidationError::EditModeWithSequential)
            } else {
                None
            },
            OutputMode::Split => if self.target_file is None {
                Some(JobValidationError::SplitMissingTargetFile)
            } else if self.target_file->0@.len() == 0 {
                Some(JobValidationError::SplitEmptyTargetFile)
            } else if self.output_files is None {
                Some(JobValidationError::SplitMissingOutputFiles)
            } else if self.sequential_mode() {
                Some(JobValidationError::SplitModeWithSequential)
            } else {
                None
            },
            OutputMode::ReplacePattern => if self.target_files is None {
                Some(JobValidationError::ReplacePatternMissingTargetFiles)
            } else {
                None
            },
            OutputMode::UpdateFixtures => if self.target_files is None {
                Some(JobValidationError::UpdateFixturesMissingTargetFiles)
            } else if self.struct_name is None {
                Some(JobValidationError::UpdateFixturesMissingStructName)
            } else if self.new_field is None {
                Some(JobValidationError::UpdateFixturesMissingNewField)
            } else {
                None
            },
        }
    }

    fn validate_mode(&self) -> (r: Result<(), JobValidationError>)
        ensures
            r == (match self.mode_violation() {
                Some(e) => Err::<(), JobValidationError>(e),
                None => Ok(()),
            }),
    {
        match self.mode {
            OutputMode::Replace => Ok(()),
            OutputMode::Edit => {
                if let Some(files) = &self.target_files {
                    if files.len() == 0 {
                        return Err(JobValidationError::EmptyTargetFiles);
                    }
                    if any_empty(files) {
                        return Err(JobValidationError::EmptyTargetFilePath);
                    }
                }
                if self.is_sequential() {
                    return Err(JobValidationError::EditModeWithSequential);
                }
                Ok(())
            },
            OutputMode::Split => {
                match &self.target_file {
                    None => {
                        return Err(JobValidationError::SplitMissingTargetFile);
                    },
                    Some(target) => {
                        if target.as_str().is_empty() {
                            return Err(JobValidationError::SplitEmptyTargetFile);
                        }
                    },
                }
                if self.output_files.is_none() {
                    return Err(JobValidationError::SplitMissingOutputFiles);
                }
                if self.is_sequential() {
                    return Err(JobValidationError::SplitModeWithSequential);
                }
                Ok(())
            },
            OutputMode::ReplacePattern => {
                if self.target_files.is_none() {
                    return Err(JobValidationError::ReplacePatternMissingTargetFiles);
                }
                Ok(())
            },
            OutputMode::UpdateFixtures => {
                if self.target_files.is_none() {
                    return Err(JobValidationError::UpdateFixturesMissingTargetFiles);
                }
                if self.struct_name.is_none() {
                    return Err(JobValidationError::UpdateFixturesMissingStructName);
                }
                if self.new_field.is_none() {
                    return Err(JobValidationError::UpdateFixturesMissingNewField);
                }
                Ok(())
            },
        }
    }

    /// Checks the declaration against the rules, with the given limit on
    /// the number of context files, and names the first rule it breaks.
    pub fn validate(&self, max_context_files: usize) -> (r: Result<(), JobValidationError>)
        ensures
            r == (match self.violation(max_context_files) {
                Some(e) => Err::<(), JobValidationError>(e),
                None => Ok(()),
            }),
    {
        if self.context_files.len() > max_context_files {
            return Err(
                JobValidationError::TooManyContextFiles {
                    count: self.context_files.len(),
                    max: max_context_files,
                },
            );
        }
        if self.output_file.as_str().is_empty() {
            return Err(JobValidationError::EmptyOutputFile);
        }
        if let Some(test_file) = &self.test_file {
            if test_file.as_str().is_empty() {
                return Err(JobValidationError::EmptyTestFile);
            }
        }
        if let Some(files) = &self.output_files {
            if files.len() == 0 {
                return Err(JobValidationError::EmptyOutputFiles);
            }
            if any_empty(files) {
                return Err(JobValidationError::EmptyOutputFilePath);
            }
        }
        self.validate_mode()
    }

    /// The path of the output file: its name taken from the output
    /// directory.
    pub fn output_path(&self) -> (r: String)
        ensures
            r@ == self.default_output(),
    {
        join_path(self.output_dir.as_str(), self.output_file.as_str())
    }

    pub fn is_tdd_enabled(&self) -> (r: bool)
        ensures
            r == self.test_file is Some,
    {
        self.test_file.is_some()
    }

    /// The path of the test file, taken from the output directory.
    pub fn test_path(&self) -> (r: Option<String>)
        ensures
            r is Some == self.test_file is Some,
            r matches Some(p) ==> p@ == joined_path(self.output_dir@, self.test_file->0@),
    {
        match &self.test_file {
            Some(t) => Some(join_path(self.output_dir.as_str(), t.as_str())),
            None => None,
        }
    }

    pub fn is_sequential(&self) -> (r: bool)
        ensures
            r == self.sequential_mode(),
    {
        match self.sequential {
            Some(flag) => flag && self.output_files.is_some(),
            None => false,
        }
    }

    /// The declared output files, or else the one output path.
    pub open spec fn outputs(&self) -> Seq<Seq<char>> {
        match self.output_files {
            Some(files) => Seq::new(files@.len(), |i: int| files@[i]@),
            None => seq![self.default_output()],
        }
    }

    /// The declared target files, or else the one output path.
    pub open spec fn targets(&self) -> Seq<Seq<char>> {
        match self.target_files {
            Some(files) => Seq::new(files@.len(), |i: int| files@[i]@),
            None => seq![self.default_output()],
        }
    }

    pub fn get_output_files(&self) -> (r: Vec<String>)
        ensures
            crate::text::strs(r@) == self.outputs(),
    {
        match &self.output_files {
            Some(files) => clone_strings(files),
            None => {
                let mut r: Vec<String> = Vec::new();
                r.push(self.output_path());
                assert(crate::text::strs(r@) =~= self.outputs());
                r
            },
        }
    }

    pub fn is_edit_mode(&self) -> (r: bool)
        ensures
            r == (self.mode == OutputMode::Edit),
    {
        self.mode == OutputMode::Edit
    }

    pub fn is_split_mode(&self) -> (r: bool)
        ensures
            r == (self.mode == OutputMode::Split),
    {
        self.mode == OutputMode::Split
    }

    pub fn get_target_files(&self) -> (r: Vec<String>)
        ensures
            crate::text::strs(r@) == self.targets(),
    {
        match &self.target_files {
            Some(files) => clone_strings(files),
            None => {
                let mut r: Vec<String> = Vec::new();
                r.push(self.output_path());
                assert(crate::text::strs(r@) =~= self.targets());
                r
            },
        }
    }

    pub fn should_verify(&self) -> (r: bool)
        ensures
            r == self.verify,
    {
        self.verify
    }

    pub fn is_replace_pattern_mode(&self) -> (r: bool)
        ensures
            r == (self.mode == OutputMode::ReplacePattern),
    {
        self.mode == OutputMode::ReplacePattern
    }

    pub fn is_update_fixtures_mode(&self) -> (r: bool)
        ensures
            r == (self.mode == OutputMode::UpdateFixtures),
    {
        self.mode == OutputMode::UpdateFixtures
    }

    pub fn get_struct_name(&self) -> (r: Option<&String>)
        ensures
            r is Some == self.struct_name is Some,
            r matches Some(s) ==> *s == self.struct_name->0,
    {
        self.struct_name.as_ref()
    }

    pub fn get_new_field(&self) -> (r: Option<&String>)
        ensures
            r is Some == self.new_field is Some,
            r matches Some(s) ==> *s == self.new_field->0,
    {
        self.new_field.as_ref()
    }
}

/// A job: its identifier, what it declares, its instructions, and the file
/// it was read from.
#[derive(Debug, Clone)]
pub struct Job {
    /// The file's name without its extension.
    pub id: String,
    pub metadata: JobMetadata,
    /// The text below the declaration.
    pub instructions: String,
    pub file_path: String,
}

impl Job {
    pub fn new(id: String, metadata: JobMetadata, instructions: String, file_path: String) -> (r:
        Self)
        ensures
            r.id == id,
            r.metadata == metadata,
            r.instructions == instructions,
            r.file_path == file_path,
    {
        Job { id, metadata, instructions, file_path }
    }
}

} // verus!
