//! Writing a new job file: the rules for a job's name, and the job file
//! that each kind of job starts from.

use crate::chars::{alphanumeric, is_alphanumeric, is_numeric, numeric, to_uppercase, uppercase};
use crate::error::WorkSplitError;
use crate::job::JobTemplate;
use crate::text::{
    append, append_str, chars_of, join, join_of, lemma_rows_push, replace_all, replace_all_in, rows,
    split_at, split_of, string_of, subvec,
};
use vstd::prelude::*;

verus! {

/// A character that a job name may hold: a letter, a digit, an underscore
/// or a hyphen.
pub open spec fn name_char(c: char) -> bool {
    alphanumeric(c) || c == '_' || c == '-'
}

/// The first character of a name that a job name may not hold.
pub open spec fn first_disallowed(name: Seq<char>) -> Option<char>
    decreases name.len(),
{
    if name.len() == 0 {
        None
    } else if !name_char(name[0]) {
        Some(name[0])
    } else {
        first_disallowed(name.drop_first())
    }
}

/// What is wrong with a job name, given the first character in it that a
/// job name may not hold: the name is empty, holds that character, or
/// starts with an underscore, which marks the files of the system. Nothing
/// where the name is in order.
pub open spec fn name_fault(name: Seq<char>, disallowed: Option<char>) -> Option<Seq<char>> {
    if name.len() == 0 {
        Some("Job name cannot be empty"@)
    } else if disallowed is Some {
        Some(
            "Invalid character '"@ + seq![disallowed->0]
                + "' in job name. Use only alphanumeric, underscore, or hyphen."@,
        )
    } else if name[0] == '_' {
        Some("Job name cannot start with underscore (reserved for system files)"@)
    } else {
        None
    }
}

/// The result of checking a job name that has the given fault.
pub open spec fn name_checked(r: Result<(), WorkSplitError>, fault: Option<Seq<char>>) -> bool {
    match fault {
        None => r is Ok,
        Some(text) => r matches Err(WorkSplitError::InvalidJobName(m)) && m@ == text,
    }
}

/// Checks a job name, given the first character in it that a job name may
/// not hold.
pub fn check_job_name(name: &str, disallowed: Option<char>) -> (r: Result<(), WorkSplitError>)
    ensures
        name_checked(r, name_fault(name@, disallowed)),
{
    let text = chars_of(name);
    if text.len() == 0 {
        return Err(WorkSplitError::InvalidJobName("Job name cannot be empty".to_owned()));
    }
    if let Some(c) = disallowed {
        let mut out: Vec<char> = Vec::new();
        append_str(&mut out, "Invalid character '");
        out.push(c);
        append_str(&mut out, "' in job name. Use only alphanumeric, underscore, or hyphen.");
        assert(out@ =~= "Invalid character '"@ + seq![c]
            + "' in job name. Use only alphanumeric, underscore, or hyphen."@);
        return Err(WorkSplitError::InvalidJobName(string_of(&out)));
    }
    if text[0] == '_' {
        return Err(
            WorkSplitError::InvalidJobName(
                "Job name cannot start with underscore (reserved for system files)".to_owned(),
            ),
        );
    }
    Ok(())
}

/// Checks that a name can be the name of a job.
pub fn validate_job_name(name: &str) -> (r: Result<(), WorkSplitError>)
    ensures
        name_checked(r, name_fault(name@, first_disallowed(name@))),
{
    let text = chars_of(name);
    let mut i: usize = 0;
    assert(text@.skip(0) == text@);
    while i < text.len()
        invariant
            i <= text.len(),
            text@ == name@,
            first_disallowed(text@) == first_disallowed(text@.skip(i as int)),
        decreases text.len() - i,
    {
        assert(text@.skip(i as int).drop_first() == text@.skip(i + 1));
        let c = text[i];
        assert(text@.skip(i as int)[0] == c);
        if !(is_alphanumeric(c) || c == '_' || c == '-') {
            assert(first_disallowed(text@.skip(i as int)) == Some(c));
            return check_job_name(name, Some(c));
        }
        i += 1;
    }
    assert(first_disallowed(text@.skip(text.len() as int)) is None);
    check_job_name(name, None)
}

/// Every character of the text is a number.
pub open spec fn all_numeric(s: Seq<char>) -> bool {
    forall|i: int| 0 <= i < s.len() ==> numeric(#[trigger] s[i])
}

/// The text with its first character in upper case.
pub open spec fn capitalised(s: Seq<char>) -> Seq<char> {
    if s.len() == 0 {
        s
    } else {
        uppercase(s[0]) + s.drop_first()
    }
}

/// The words of a title, from the parts of a name: each part capitalised,
/// but for those that hold numbers only.
pub open spec fn title_words(parts: Seq<Seq<char>>) -> Seq<Seq<char>>
    decreases parts.len(),
{
    if parts.len() == 0 {
        Seq::empty()
    } else if all_numeric(parts.last()) {
        title_words(parts.drop_last())
    } else {
        title_words(parts.drop_last()).push(capitalised(parts.last()))
    }
}

/// The title of a job, from its name: the parts between underscores, but
/// for those that hold numbers only, capitalised, with a space between
/// each two.
pub open spec fn title_of(name: Seq<char>) -> Seq<char> {
    join(title_words(split_at(name, '_')), seq![' '])
}

fn is_all_numeric(s: &Vec<char>) -> (r: bool)
    ensures
        r == all_numeric(s@),
{
    let mut i: usize = 0;
    while i < s.len()
        invariant
            i <= s.len(),
            forall|k: int| 0 <= k < i ==> numeric(#[trigger] s@[k]),
        decreases s.len() - i,
    {
        if !is_numeric(s[i]) {
            return false;
        }
        i += 1;
    }
    true
}

/// The title made of the given words: a space between each two.
pub fn title_from(words: &Vec<Vec<char>>) -> (r: String)
    ensures
        r@ == join(rows(words@), seq![' ']),
{
    let mut sep: Vec<char> = Vec::new();
    sep.push(' ');
    assert(sep@ =~= seq![' ']);
    string_of(&join_of(words, &sep))
}

/// Makes the title of a job from its name.
pub fn name_to_title(name: &str) -> (r: String)
    ensures
        r@ == title_of(name@),
{
    let parts = split_of(&chars_of(name), '_');
    let mut words: Vec<Vec<char>> = Vec::new();
    let mut i: usize = 0;
    assert(rows(words@) =~= title_words(rows(parts@).take(0)));
    while i < parts.len()
        invariant
            i <= parts.len(),
            rows(words@) == title_words(rows(parts@).take(i as int)),
        decreases parts.len() - i,
    {
        assert(rows(parts@).take(i + 1).drop_last() == rows(parts@).take(i as int));
        assert(rows(parts@).take(i + 1).last() == parts@[i as int]@);
        if !is_all_numeric(&parts[i]) {
            let mut word: Vec<char> = Vec::new();
            if parts[i].len() > 0 {
                word = to_uppercase(parts[i][0]);
                let rest = subvec(&parts[i], 1, parts[i].len());
                append(&mut word, &rest);
                assert(word@ =~= capitalised(parts@[i as int]@));
            }
            proof {
                lemma_rows_push(words@, word);
            }
            words.push(word);
        }
        i += 1;
    }
    assert(rows(parts@).take(parts.len() as int) == rows(parts@));
    title_from(&words)
}

/// The paths as items of a list, one a line; the given line where there
/// are none.
pub open spec fn listed(files: Option<&Vec<String>>, placeholder: Seq<char>) -> Seq<char> {
    match files {
        Some(v) => if v@.len() > 0 {
            join(Seq::new(v@.len(), |i: int| "  - "@ + v@[i]@), seq!['\n'])
        } else {
            placeholder
        },
        None => placeholder,
    }
}

/// The context files as they stand in a job file.
pub open spec fn context_list(files: Option<&Vec<String>>) -> Seq<char> {
    listed(files, "  # - src/example.rs"@)
}

/// The target files as they stand in a job file.
pub open spec fn target_list(files: Option<&Vec<String>>) -> Seq<char> {
    listed(files, "  - src/main.rs"@)
}

fn list_files(files: Option<&Vec<String>>, placeholder: &str) -> (r: String)
    ensures
        r@ == listed(files, placeholder@),
{
    match files {
        Some(v) => {
            if v.len() > 0 {
                let ghost items = Seq::new(v@.len(), |i: int| "  - "@ + v@[i]@);
                let mut parts: Vec<Vec<char>> = Vec::new();
                let mut i: usize = 0;
                assert(rows(parts@) =~= items.take(0));
                while i < v.len()
                    invariant
                        i <= v.len(),
                        items == Seq::new(v@.len(), |i: int| "  - "@ + v@[i]@),
                        rows(parts@) == items.take(i as int),
                    decreases v.len() - i,
                {
                    let mut item: Vec<char> = Vec::new();
                    append_str(&mut item, "  - ");
                    append_str(&mut item, v[i].as_str());
                    assert(item@ =~= "  - "@ + v@[i as int]@);
                    proof {
                        lemma_rows_push(parts@, item);
                        assert(rows(parts@).push(item@) =~= items.take(i + 1));
                    }
                    parts.push(item);
                    i += 1;
                }
                assert(items.take(v.len() as int) =~= items);
                let mut sep: Vec<char> = Vec::new();
                sep.push('\n');
                assert(sep@ =~= seq!['\n']);
                string_of(&join_of(&parts, &sep))
            } else {
                placeholder.to_owned()
            }
        },
        None => placeholder.to_owned(),
    }
}

/// Writes the context files as they stand in a job file.
pub fn format_context_files(context_files: Option<&Vec<String>>) -> (r: String)
    ensures
        r@ == context_list(context_files),
{
    list_files(context_files, "  # - src/example.rs")
}

/// Writes the target files as they stand in a job file.
pub fn format_target_files(target_files: Option<&Vec<String>>) -> (r: String)
    ensures
        r@ == target_list(target_files),
{
    list_files(target_files, "  - src/main.rs")
}

/// The job file of a job that generates whole files, from its parts.
pub open spec fn replace_template(ctx: Seq<char>, output_dir: Seq<char>, output_file: Seq<char>, title: Seq<char>) -> Seq<char> {
    "---\ncontext_files:\n"@
        + ctx
        + "\noutput_dir: "@
        + output_dir
        + "\noutput_file: "@
        + output_file
        + "\n---\n\n# "@
        + title
        + "\n\n## Requirements\n- Describe what to implement\n- List key behaviors and constraints\n\n## Functions to Implement\n\n1. `function_name(param: Type) -> ReturnType`\n   - Description of what it does\n   - Error conditions\n\n2. `another_function() -> Result<T, E>`\n   - Description\n\n## Example Usage\n\n```rust\n// Show expected usage\n```\n"@
}

/// The job file of a job that generates whole files.
pub fn generate_replace_template(name: &str, output_dir: &str, output_file: &str, context_files: Option<&Vec<String>>) -> (r: String)
    ensures
        r@ == replace_template(context_list(context_files), output_dir@, output_file@, title_of(name@)),
{
    let ctx = format_context_files(context_files);
    let title = name_to_title(name);
    let mut out: Vec<char> = Vec::new();
    append_str(&mut out, "---\ncontext_files:\n");
    append_str(&mut out, ctx.as_str());
    append_str(&mut out, "\noutput_dir: ");
    append_str(&mut out, output_dir);
    append_str(&mut out, "\noutput_file: ");
    append_str(&mut out, output_file);
    append_str(&mut out, "\n---\n\n# ");
    append_str(&mut out, title.as_str());
    append_str(&mut out, "\n\n## Requirements\n- Describe what to implement\n- List key behaviors and constraints\n\n## Functions to Implement\n\n1. `function_name(param: Type) -> ReturnType`\n   - Description of what it does\n   - Error conditions\n\n2. `another_function() -> Result<T, E>`\n   - Description\n\n## Example Usage\n\n```rust\n// Show expected usage\n```\n");
    assert(out@ =~= replace_template(ctx@, output_dir@, output_file@, title@));
    string_of(&out)
}

/// The job file of a job that edits files, from its parts.
pub open spec fn edit_template(targets: Seq<char>, output_dir: Seq<char>, output_file: Seq<char>, title: Seq<char>) -> Seq<char> {
    "---\nmode: edit\ntarget_files:\n"@
        + targets
        + "\noutput_dir: "@
        + output_dir
        + "\noutput_file: "@
        + output_file
        + "\n---\n\n# "@
        + title
        + "\n\n## Overview\nDescribe the surgical changes to make.\n\n## Changes Required\n- Change 1: What and why\n- Change 2: What and why\n\n## Edit Instructions\n\nDescribe the specific edits using FILE/FIND/REPLACE/END format:\n\n- Add a new field to struct X\n- Update function signature for Y\n- Add import for Z\n"@
}

/// The job file of a job that edits files.
pub fn generate_edit_template(name: &str, target_files: Option<&Vec<String>>, output_dir: &str, output_file: &str) -> (r: String)
    ensures
        r@ == edit_template(target_list(target_files), output_dir@, output_file@, title_of(name@)),
{
    let targets = format_target_files(target_files);
    let title = name_to_title(name);
    let mut out: Vec<char> = Vec::new();
    append_str(&mut out, "---\nmode: edit\ntarget_files:\n");
    append_str(&mut out, targets.as_str());
    append_str(&mut out, "\noutput_dir: ");
    append_str(&mut out, output_dir);
    append_str(&mut out, "\noutput_file: ");
    append_str(&mut out, output_file);
    append_str(&mut out, "\n---\n\n# ");
    append_str(&mut out, title.as_str());
    append_str(&mut out, "\n\n## Overview\nDescribe the surgical changes to make.\n\n## Changes Required\n- Change 1: What and why\n- Change 2: What and why\n\n## Edit Instructions\n\nDescribe the specific edits using FILE/FIND/REPLACE/END format:\n\n- Add a new field to struct X\n- Update function signature for Y\n- Add import for Z\n");
    assert(out@ =~= edit_template(targets@, output_dir@, output_file@, title@));
    string_of(&out)
}

/// The job file of a job that splits a file, from its parts.
pub open spec fn split_template(output_dir: Seq<char>, title: Seq<char>) -> Seq<char> {
    "---\nmode: split\ntarget_file: src/large_file.rs\noutput_dir: "@
        + output_dir
        + "\noutput_file: mod.rs\noutput_files:\n  - "@
        + output_dir
        + "mod.rs\n  - "@
        + output_dir
        + "part1.rs\n  - "@
        + output_dir
        + "part2.rs\n---\n\n# "@
        + title
        + "\n\n## Overview\nSplit large file into a directory-based module structure.\n\n## File Structure\n\n- `mod.rs`: Main struct and public API\n- `part1.rs`: First logical group of functions\n- `part2.rs`: Second logical group of functions\n\n## Function Signatures (REQUIRED)\n\n### part1.rs\n```rust\npub(crate) fn function_one(\n    param: &Type,\n) -> Result<ReturnType, Error>\n```\n\n### part2.rs\n```rust\npub(crate) fn function_two(\n    param: &Type,\n) -> Result<ReturnType, Error>\n```\n\n## Extraction Plan\n\n- `function_one` and related helpers -> part1.rs\n- `function_two` and related helpers -> part2.rs\n- Struct definitions and public API remain in mod.rs\n"@
}

/// The job file of a job that splits a file.
pub fn generate_split_template(name: &str, output_dir: &str, _output_file: &str) -> (r: String)
    ensures
        r@ == split_template(output_dir@, title_of(name@)),
{
    let title = name_to_title(name);
    let mut out: Vec<char> = Vec::new();
    append_str(&mut out, "---\nmode: split\ntarget_file: src/large_file.rs\noutput_dir: ");
    append_str(&mut out, output_dir);
    append_str(&mut out, "\noutput_file: mod.rs\noutput_files:\n  - ");
    append_str(&mut out, output_dir);
    append_str(&mut out, "mod.rs\n  - ");
    append_str(&mut out, output_dir);
    append_str(&mut out, "part1.rs\n  - ");
    append_str(&mut out, output_dir);
    append_str(&mut out, "part2.rs\n---\n\n# ");
    append_str(&mut out, title.as_str());
    append_str(&mut out, "\n\n## Overview\nSplit large file into a directory-based module structure.\n\n## File Structure\n\n- `mod.rs`: Main struct and public API\n- `part1.rs`: First logical group of functions\n- `part2.rs`: Second logical group of functions\n\n## Function Signatures (REQUIRED)\n\n### part1.rs\n```rust\npub(crate) fn function_one(\n    param: &Type,\n) -> Result<ReturnType, Error>\n```\n\n### part2.rs\n```rust\npub(crate) fn function_two(\n    param: &Type,\n) -> Result<ReturnType, Error>\n```\n\n## Extraction Plan\n\n- `function_one` and related helpers -> part1.rs\n- `function_two` and related helpers -> part2.rs\n- Struct definitions and public API remain in mod.rs\n");
    assert(out@ =~= split_template(output_dir@, title@));
    string_of(&out)
}

/// The job file of a job that generates its files one by one, from its parts.
pub open spec fn sequential_template(output_dir: Seq<char>, output_file: Seq<char>, title: Seq<char>) -> Seq<char> {
    "---\noutput_files:\n  - "@
        + output_dir
        + "file1.rs\n  - "@
        + output_dir
        + "file2.rs\n  - "@
        + output_dir
        + "file3.rs\nsequential: true\noutput_dir: "@
        + output_dir
        + "\noutput_file: "@
        + output_file
        + "\n---\n\n# "@
        + title
        + "\n\n## Overview\nMulti-file feature that exceeds single-call token limits.\n\n## File Responsibilities\n\n### file1.rs\n- Core types and traits\n- Shared utilities\n\n### file2.rs\n- Main implementation\n- Uses types from file1.rs\n\n### file3.rs\n- Additional functionality\n- Depends on file1.rs and file2.rs\n\n## Implementation Notes\n- Each file gets its own LLM call\n- Previously generated files become context for subsequent calls\n- Ensure consistent imports across files\n"@
}

/// The job file of a job that generates its files one by one.
pub fn generate_sequential_template(name: &str, output_dir: &str, output_file: &str) -> (r: String)
    ensures
        r@ == sequential_template(output_dir@, output_file@, title_of(name@)),
{
    let title = name_to_title(name);
    let mut out: Vec<char> = Vec::new();
    append_str(&mut out, "---\noutput_files:\n  - ");
    append_str(&mut out, output_dir);
    append_str(&mut out, "file1.rs\n  - ");
    append_str(&mut out, output_dir);
    append_str(&mut out, "file2.rs\n  - ");
    append_str(&mut out, output_dir);
    append_str(&mut out, "file3.rs\nsequential: true\noutput_dir: ");
    append_str(&mut out, output_dir);
    append_str(&mut out, "\noutput_file: ");
    append_str(&mut out, output_file);
    append_str(&mut out, "\n---\n\n# ");
    append_str(&mut out, title.as_str());
    append_str(&mut out, "\n\n## Overview\nMulti-file feature that exceeds single-call token limits.\n\n## File Responsibilities\n\n### file1.rs\n- Core types and traits\n- Shared utilities\n\n### file2.rs\n- Main implementation\n- Uses types from file1.rs\n\n### file3.rs\n- Additional functionality\n- Depends on file1.rs and file2.rs\n\n## Implementation Notes\n- Each file gets its own LLM call\n- Previously generated files become context for subsequent calls\n- Ensure consistent imports across files\n");
    assert(out@ =~= sequential_template(output_dir@, output_file@, title@));
    string_of(&out)
}

/// The job file of a job that has its test generated first, from its parts.
pub open spec fn tdd_template(ctx: Seq<char>, output_dir: Seq<char>, output_file: Seq<char>, test_file: Seq<char>, title: Seq<char>) -> Seq<char> {
    "---\ncontext_files:\n"@
        + ctx
        + "\noutput_dir: "@
        + output_dir
        + "\noutput_file: "@
        + output_file
        + "\ntest_file: "@
        + test_file
        + "\n---\n\n# "@
        + title
        + " (TDD)\n\nTests will be generated first, then implementation.\n\n## Requirements\n- Feature requirement 1\n- Feature requirement 2\n\n## Functions to Implement\n\n1. `function(param: Type) -> Result<T, E>`\n   - Description\n   - Error conditions\n\n## Expected Behavior\n\n- `function(valid_input)` returns expected output\n- `function(invalid_input)` returns appropriate error\n- Edge cases to test\n\n## Test Cases\n\n1. Happy path: valid input produces expected output\n2. Error case: invalid input returns error\n3. Edge case: boundary conditions\n"@
}

/// The job file of a job that has its test generated first. The test file
/// is named after the output file, with `_test.rs` for each `.rs`.
pub fn generate_tdd_template(name: &str, output_dir: &str, output_file: &str, context_files: Option<&Vec<String>>) -> (r: String)
    ensures
        r@ == tdd_template(context_list(context_files), output_dir@, output_file@, replace_all(output_file@, ".rs"@, "_test.rs"@, 0), title_of(name@)),
{
    let ctx = format_context_files(context_files);
    let title = name_to_title(name);
    proof {
        reveal_strlit(".rs");
    }
    let test_file = replace_all_in(&chars_of(output_file), &chars_of(".rs"), &chars_of("_test.rs"));
    let mut out: Vec<char> = Vec::new();
    append_str(&mut out, "---\ncontext_files:\n");
    append_str(&mut out, ctx.as_str());
    append_str(&mut out, "\noutput_dir: ");
    append_str(&mut out, output_dir);
    append_str(&mut out, "\noutput_file: ");
    append_str(&mut out, output_file);
    append_str(&mut out, "\ntest_file: ");
    append(&mut out, &test_file);
    append_str(&mut out, "\n---\n\n# ");
    append_str(&mut out, title.as_str());
    append_str(&mut out, " (TDD)\n\nTests will be generated first, then implementation.\n\n## Requirements\n- Feature requirement 1\n- Feature requirement 2\n\n## Functions to Implement\n\n1. `function(param: Type) -> Result<T, E>`\n   - Description\n   - Error conditions\n\n## Expected Behavior\n\n- `function(valid_input)` returns expected output\n- `function(invalid_input)` returns appropriate error\n- Edge cases to test\n\n## Test Cases\n\n1. Happy path: valid input produces expected output\n2. Error case: invalid input returns error\n3. Edge case: boundary conditions\n");
    assert(out@ =~= tdd_template(ctx@, output_dir@, output_file@, test_file@, title@));
    string_of(&out)
}

/// The output file that a job gets where none is given: the last part of
/// its name, with the extension `.rs`.
pub open spec fn default_output_file(name: Seq<char>) -> Seq<char> {
    split_at(name, '_').last() + ".rs"@
}

/// The job file that a job of the given kind starts from.
pub open spec fn template_text(
    template: JobTemplate,
    name: Seq<char>,
    target_files: Option<&Vec<String>>,
    output_dir: Seq<char>,
    output_file: Option<&String>,
    context_files: Option<&Vec<String>>,
) -> Seq<char> {
    let file = match output_file {
        Some(f) => f@,
        None => default_output_file(name),
    };
    match template {
        JobTemplate::Replace => replace_template(
            context_list(context_files),
            output_dir,
            file,
            title_of(name),
        ),
        JobTemplate::Edit => edit_template(target_list(target_files), output_dir, file, title_of(name)),
        JobTemplate::Split => split_template(output_dir, title_of(name)),
        JobTemplate::Sequential => sequential_template(output_dir, file, title_of(name)),
        JobTemplate::Tdd => tdd_template(
            context_list(context_files),
            output_dir,
            file,
            replace_all(file, ".rs"@, "_test.rs"@, 0),
            title_of(name),
        ),
    }
}

/// Writes the job file that a job of the given kind starts from.
pub fn generate_template(
    template: JobTemplate,
    name: &str,
    target_files: Option<&Vec<String>>,
    output_dir: &str,
    output_file: Option<&String>,
    context_files: Option<&Vec<String>>,
) -> (r: String)
    ensures
        r@ == template_text(
            template,
            name@,
            target_files,
            output_dir@,
            output_file,
            context_files,
        ),
{
    let file = match output_file {
        Some(f) => f.clone(),
        None => {
            let parts = split_of(&chars_of(name), '_');
            assert(rows(parts@).last() == parts@[parts@.len() - 1]@);
            let mut text = subvec(&parts[parts.len() - 1], 0, parts[parts.len() - 1].len());
            append_str(&mut text, ".rs");
            assert(text@ =~= default_output_file(name@));
            string_of(&text)
        },
    };
    match template {
        JobTemplate::Replace => generate_replace_template(
            name,
            output_dir,
            file.as_str(),
            context_files,
        ),
        JobTemplate::Edit => generate_edit_template(name, target_files, output_dir, file.as_str()),
        JobTemplate::Split => generate_split_template(name, output_dir, file.as_str()),
        JobTemplate::Sequential => generate_sequential_template(name, output_dir, file.as_str()),
        JobTemplate::Tdd => generate_tdd_template(name, output_dir, file.as_str(), context_files),
    }
}

} // verus!
