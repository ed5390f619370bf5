//! Assembling what the generator is asked: the prompts of each kind of
//! call, section by section.

use crate::text::{
    append, append_decimal, append_str, chars_of, decimal, lines, lines_of, pair_views, rows,
    string_of, strs,
};
use vstd::prelude::*;

verus! {

/// The section that holds the system prompt.
pub open spec fn system_section(system_prompt: Seq<char>) -> Seq<char> {
    "[SYSTEM]\n"@ + system_prompt + "\n\n"@
}

/// The text, ended by a line feed where it does not end in one.
pub open spec fn line_ended(content: Seq<char>) -> Seq<char> {
    if content.len() > 0 && content.last() == '\n' {
        content
    } else {
        content.push('\n')
    }
}

/// The text within fences.
pub open spec fn fenced(content: Seq<char>) -> Seq<char> {
    "```\n"@ + line_ended(content) + "```\n\n"@
}

/// A file as it is shown: a heading with its path, and its content within
/// fences.
pub open spec fn file_block(path: Seq<char>, content: Seq<char>) -> Seq<char> {
    "### File: "@ + path + "\n"@ + fenced(content)
}

/// The files as they are shown, one after the other.
pub open spec fn file_blocks(files: Seq<(Seq<char>, Seq<char>)>) -> Seq<char>
    decreases files.len(),
{
    if files.len() == 0 {
        Seq::empty()
    } else {
        file_blocks(files.drop_last()) + file_block(files.last().0, files.last().1)
    }
}

/// A section of files under a heading; nothing where there are no files.
pub open spec fn files_section(heading: Seq<char>, files: Seq<(Seq<char>, Seq<char>)>) -> Seq<char> {
    if files.len() == 0 {
        Seq::empty()
    } else {
        heading + file_blocks(files)
    }
}

/// The paths as a list, one item a line.
pub open spec fn path_items(paths: Seq<Seq<char>>) -> Seq<char>
    decreases paths.len(),
{
    if paths.len() == 0 {
        Seq::empty()
    } else {
        path_items(paths.drop_last()) + "  - "@ + paths.last() + "\n"@
    }
}

/// The paths of the files as a list, one item a line.
pub open spec fn file_items(files: Seq<(Seq<char>, Seq<char>)>) -> Seq<char>
    decreases files.len(),
{
    if files.len() == 0 {
        Seq::empty()
    } else {
        file_items(files.drop_last()) + "  - "@ + files.last().0 + "\n"@
    }
}

/// A section under a heading that holds a text and an empty line.
pub open spec fn text_section(heading: Seq<char>, text: Seq<char>) -> Seq<char> {
    heading + text + "\n\n"@
}

fn push_line_ended(out: &mut Vec<char>, content: &str)
    ensures
        final(out)@ == old(out)@ + line_ended(content@),
{
    let c = chars_of(content);
    append(out, &c);
    if !(c.len() > 0 && c[c.len() - 1] == '\n') {
        out.push('\n');
    }
    assert(out@ =~= old(out)@ + line_ended(content@));
}

fn push_fenced(out: &mut Vec<char>, content: &str)
    ensures
        final(out)@ == old(out)@ + fenced(content@),
{
    append_str(out, "```\n");
    push_line_ended(out, content);
    append_str(out, "```\n\n");
    assert(out@ =~= old(out)@ + fenced(content@));
}

fn push_file_block(out: &mut Vec<char>, path: &str, content: &str)
    ensures
        final(out)@ == old(out)@ + file_block(path@, content@),
{
    append_str(out, "### File: ");
    append_str(out, path);
    append_str(out, "\n");
    push_fenced(out, content);
    assert(out@ =~= old(out)@ + file_block(path@, content@));
}

fn push_file_blocks(out: &mut Vec<char>, files: &[(String, String)])
    ensures
        final(out)@ == old(out)@ + file_blocks(pair_views(files@)),
{
    let mut i: usize = 0;
    assert(out@ =~= old(out)@ + file_blocks(pair_views(files@).take(0)));
    while i < files.len()
        invariant
            i <= files.len(),
            out@ == old(out)@ + file_blocks(pair_views(files@).take(i as int)),
        decreases files.len() - i,
    {
        assert(pair_views(files@).take(i + 1).drop_last() == pair_views(files@).take(i as int));
        assert(pair_views(files@).take(i + 1).last() == pair_views(files@)[i as int]);
        push_file_block(out, files[i].0.as_str(), files[i].1.as_str());
        i += 1;
        assert(out@ =~= old(out)@ + file_blocks(pair_views(files@).take(i as int)));
    }
    assert(pair_views(files@).take(files.len() as int) == pair_views(files@));
}

fn push_files_section(out: &mut Vec<char>, heading: &str, files: &[(String, String)])
    ensures
        final(out)@ == old(out)@ + files_section(heading@, pair_views(files@)),
{
    if files.len() > 0 {
        append_str(out, heading);
        push_file_blocks(out, files);
        assert(out@ =~= old(out)@ + files_section(heading@, pair_views(files@)));
    } else {
        assert(out@ =~= old(out)@ + files_section(heading@, pair_views(files@)));
    }
}

fn push_path_items(out: &mut Vec<char>, paths: &[String])
    ensures
        final(out)@ == old(out)@ + path_items(strs(paths@)),
{
    let mut i: usize = 0;
    assert(out@ =~= old(out)@ + path_items(strs(paths@).take(0)));
    while i < paths.len()
        invariant
            i <= paths.len(),
            out@ == old(out)@ + path_items(strs(paths@).take(i as int)),
        decreases paths.len() - i,
    {
        assert(strs(paths@).take(i + 1).drop_last() == strs(paths@).take(i as int));
        assert(strs(paths@).take(i + 1).last() == strs(paths@)[i as int]);
        append_str(out, "  - ");
        append_str(out, paths[i].as_str());
        append_str(out, "\n");
        i += 1;
        assert(out@ =~= old(out)@ + path_items(strs(paths@).take(i as int)));
    }
    assert(strs(paths@).take(paths.len() as int) == strs(paths@));
}

fn push_file_items(out: &mut Vec<char>, files: &[(String, String)])
    ensures
        final(out)@ == old(out)@ + file_items(pair_views(files@)),
{
    let mut i: usize = 0;
    assert(out@ =~= old(out)@ + file_items(pair_views(files@).take(0)));
    while i < files.len()
        invariant
            i <= files.len(),
            out@ == old(out)@ + file_items(pair_views(files@).take(i as int)),
        decreases files.len() - i,
    {
        assert(pair_views(files@).take(i + 1).drop_last() == pair_views(files@).take(i as int));
        assert(pair_views(files@).take(i + 1).last() == pair_views(files@)[i as int]);
        append_str(out, "  - ");
        append_str(out, files[i].0.as_str());
        append_str(out, "\n");
        i += 1;
        assert(out@ =~= old(out)@ + file_items(pair_views(files@).take(i as int)));
    }
    assert(pair_views(files@).take(files.len() as int) == pair_views(files@));
}

fn push_system(out: &mut Vec<char>, system_prompt: &str)
    ensures
        final(out)@ == old(out)@ + system_section(system_prompt@),
{
    append_str(out, "[SYSTEM]\n");
    append_str(out, system_prompt);
    append_str(out, "\n\n");
    assert(out@ =~= old(out)@ + system_section(system_prompt@));
}

fn push_text_section(out: &mut Vec<char>, heading: &str, text: &str)
    ensures
        final(out)@ == old(out)@ + text_section(heading@, text@),
{
    append_str(out, heading);
    append_str(out, text);
    append_str(out, "\n\n");
    assert(out@ =~= old(out)@ + text_section(heading@, text@));
}

/// The prompt that asks for a job's file: the system prompt, the context
/// files, the instructions, and where the output goes.
pub open spec fn creation_prompt(
    system_prompt: Seq<char>,
    context_files: Seq<(Seq<char>, Seq<char>)>,
    instructions: Seq<char>,
    output_path: Seq<char>,
) -> Seq<char> {
    system_section(system_prompt) + files_section("[CONTEXT]\n"@, context_files) + text_section(
        "[INSTRUCTIONS]\n"@,
        instructions,
    ) + "Output to: "@ + output_path + "\n"@
}

pub fn assemble_creation_prompt(
    system_prompt: &str,
    context_files: &[(String, String)],
    instructions: &str,
    output_path: &str,
) -> (r: String)
    ensures
        r@ == creation_prompt(system_prompt@, pair_views(context_files@), instructions@, output_path@),
{
    let mut out: Vec<char> = Vec::new();
    push_system(&mut out, system_prompt);
    push_files_section(&mut out, "[CONTEXT]\n", context_files);
    push_text_section(&mut out, "[INSTRUCTIONS]\n", instructions);
    append_str(&mut out, "Output to: ");
    append_str(&mut out, output_path);
    append_str(&mut out, "\n");
    assert(out@ =~= creation_prompt(system_prompt@, pair_views(context_files@), instructions@, output_path@));
    string_of(&out)
}

/// The section that lists the files still to come, closed by `advice`;
/// nothing where none is to come.
pub open spec fn remaining_section(remaining: Seq<Seq<char>>, advice: Seq<char>) -> Seq<char> {
    if remaining.len() == 0 {
        Seq::empty()
    } else {
        "[REMAINING FILES]\n"@ + "These files will be generated after this one:\n"@ + path_items(
            remaining,
        ) + advice
    }
}

fn push_remaining(out: &mut Vec<char>, remaining: &[String], advice: &str)
    ensures
        final(out)@ == old(out)@ + remaining_section(strs(remaining@), advice@),
{
    if remaining.len() > 0 {
        append_str(out, "[REMAINING FILES]\n");
        append_str(out, "These files will be generated after this one:\n");
        push_path_items(out, remaining);
        append_str(out, advice);
        assert(out@ =~= old(out)@ + remaining_section(strs(remaining@), advice@));
    } else {
        assert(out@ =~= old(out)@ + remaining_section(strs(remaining@), advice@));
    }
}

/// The section of the files that the job has generated so far, under a
/// heading and a note; nothing where there are none.
pub open spec fn earlier_section(
    heading: Seq<char>,
    note: Seq<char>,
    files: Seq<(Seq<char>, Seq<char>)>,
) -> Seq<char> {
    if files.len() == 0 {
        Seq::empty()
    } else {
        heading + note + file_blocks(files)
    }
}

fn push_earlier(out: &mut Vec<char>, heading: &str, note: &str, files: &[(String, String)])
    ensures
        final(out)@ == old(out)@ + earlier_section(heading@, note@, pair_views(files@)),
{
    if files.len() > 0 {
        append_str(out, heading);
        append_str(out, note);
        push_file_blocks(out, files);
        assert(out@ =~= old(out)@ + earlier_section(heading@, note@, pair_views(files@)));
    } else {
        assert(out@ =~= old(out)@ + earlier_section(heading@, note@, pair_views(files@)));
    }
}

/// The prompt that asks for one file of a job that generates several: the
/// system prompt, the context files, the files generated so far, the
/// instructions, the file to generate, and the files still to come.
pub open spec fn sequential_creation_prompt(
    system_prompt: Seq<char>,
    context_files: Seq<(Seq<char>, Seq<char>)>,
    previously_generated: Seq<(Seq<char>, Seq<char>)>,
    instructions: Seq<char>,
    current_output_path: Seq<char>,
    remaining_files: Seq<Seq<char>>,
) -> Seq<char> {
    system_section(system_prompt) + files_section("[CONTEXT]\n"@, context_files) + earlier_section(
        "[PREVIOUSLY GENERATED IN THIS JOB]\n"@,
        "These files were already generated as part of this same task. Use them as reference for consistency.\n\n"@,
        previously_generated,
    ) + text_section("[INSTRUCTIONS]\n"@, instructions) + "[CURRENT OUTPUT FILE]\n"@
        + "Generate: "@ + current_output_path + "\n\n"@ + remaining_section(
        remaining_files,
        "\nConsider their requirements when designing interfaces.\n"@,
    )
}

pub fn assemble_sequential_creation_prompt(
    system_prompt: &str,
    context_files: &[(String, String)],
    previously_generated: &[(String, String)],
    instructions: &str,
    current_output_path: &str,
    remaining_files: &[String],
) -> (r: String)
    ensures
        r@ == sequential_creation_prompt(
            system_prompt@,
            pair_views(context_files@),
            pair_views(previously_generated@),
            instructions@,
            current_output_path@,
            strs(remaining_files@),
        ),
{
    let mut out: Vec<char> = Vec::new();
    push_system(&mut out, system_prompt);
    push_files_section(&mut out, "[CONTEXT]\n", context_files);
    push_earlier(
        &mut out,
        "[PREVIOUSLY GENERATED IN THIS JOB]\n",
        "These files were already generated as part of this same task. Use them as reference for consistency.\n\n",
        previously_generated,
    );
    push_text_section(&mut out, "[INSTRUCTIONS]\n", instructions);
    append_str(&mut out, "[CURRENT OUTPUT FILE]\n");
    append_str(&mut out, "Generate: ");
    append_str(&mut out, current_output_path);
    append_str(&mut out, "\n\n");
    push_remaining(
        &mut out,
        remaining_files,
        "\nConsider their requirements when designing interfaces.\n",
    );
    assert(out@ =~= sequential_creation_prompt(
        system_prompt@,
        pair_views(context_files@),
        pair_views(previously_generated@),
        instructions@,
        current_output_path@,
        strs(remaining_files@),
    ));
    string_of(&out)
}

/// The prompt that asks for a verdict on generated files: the system
/// prompt, the context files, the generated files, and the instructions
/// that they were generated from.
pub open spec fn verification_prompt(
    system_prompt: Seq<char>,
    context_files: Seq<(Seq<char>, Seq<char>)>,
    generated_files: Seq<(Seq<char>, Seq<char>)>,
    instructions: Seq<char>,
) -> Seq<char> {
    system_section(system_prompt) + files_section("[CONTEXT]\n"@, context_files)
        + "[GENERATED OUTPUT]\n"@ + file_blocks(generated_files) + "[ORIGINAL INSTRUCTIONS]\n"@
        + instructions + "\n"@
}

pub fn assemble_verification_prompt_multi(
    system_prompt: &str,
    context_files: &[(String, String)],
    generated_files: &[(String, String)],
    instructions: &str,
) -> (r: String)
    ensures
        r@ == verification_prompt(system_prompt@, pair_views(context_files@), pair_views(generated_files@), instructions@),
{
    let mut out: Vec<char> = Vec::new();
    push_system(&mut out, system_prompt);
    push_files_section(&mut out, "[CONTEXT]\n", context_files);
    append_str(&mut out, "[GENERATED OUTPUT]\n");
    push_file_blocks(&mut out, generated_files);
    append_str(&mut out, "[ORIGINAL INSTRUCTIONS]\n");
    append_str(&mut out, instructions);
    append_str(&mut out, "\n");
    assert(out@ =~= verification_prompt(
        system_prompt@,
        pair_views(context_files@),
        pair_views(generated_files@),
        instructions@,
    ));
    string_of(&out)
}

/// The one file at `path` with `content`.
pub open spec fn one_file(files: Seq<(Seq<char>, Seq<char>)>, path: Seq<char>, content: Seq<char>) -> bool {
    files.len() == 1 && files[0].0 == path && files[0].1 == content
}

/// Blocks depend on the texts of the files only.
pub proof fn lemma_file_blocks_one(files: Seq<(Seq<char>, Seq<char>)>, path: Seq<char>, content: Seq<char>)
    requires
        one_file(files, path, content),
    ensures
        file_blocks(files) == file_block(path, content),
        file_items(files) == "  - "@ + path + "\n"@,
{
    assert(files.drop_last().len() == 0);
    assert(file_blocks(files.drop_last()) =~= Seq::<char>::empty());
    assert(file_items(files.drop_last()) =~= Seq::<char>::empty());
    assert(file_blocks(files) =~= file_block(path, content));
    assert(file_items(files) =~= "  - "@ + path + "\n"@);
}

/// The prompt that asks for a verdict on one generated file.
pub fn assemble_verification_prompt(
    system_prompt: &str,
    context_files: &[(String, String)],
    generated_output: &str,
    output_path: &str,
    instructions: &str,
) -> (r: String)
    ensures
        r@ == system_section(system_prompt@) + files_section("[CONTEXT]\n"@, pair_views(context_files@))
            + "[GENERATED OUTPUT]\n"@ + file_block(output_path@, generated_output@)
            + "[ORIGINAL INSTRUCTIONS]\n"@ + instructions@ + "\n"@,
{
    let mut files: Vec<(String, String)> = Vec::new();
    files.push((output_path.to_owned(), generated_output.to_owned()));
    proof {
        lemma_file_blocks_one(pair_views(files@), output_path@, generated_output@);
    }
    assemble_verification_prompt_multi(system_prompt, context_files, files.as_slice(), instructions)
}

/// The prompt that asks for a test before the implementation exists.
pub open spec fn test_prompt(
    system_prompt: Seq<char>,
    context_files: Seq<(Seq<char>, Seq<char>)>,
    instructions: Seq<char>,
    test_path: Seq<char>,
) -> Seq<char> {
    system_section(system_prompt) + files_section("[CONTEXT]\n"@, context_files) + text_section(
        "[REQUIREMENTS]\n"@,
        instructions,
    ) + "[TEST OUTPUT]\n"@ + "Generate tests for: "@ + test_path + "\n\n"@
        + "The implementation does not exist yet. Generate tests that will:\n"@
        + "1. Verify the requirements are met when implementation exists\n"@
        + "2. Cover edge cases and error conditions\n"@
        + "3. Be immediately runnable once implementation is created\n"@
}

pub fn assemble_test_prompt(
    system_prompt: &str,
    context_files: &[(String, String)],
    instructions: &str,
    test_path: &str,
) -> (r: String)
    ensures
        r@ == test_prompt(system_prompt@, pair_views(context_files@), instructions@, test_path@),
{
    let mut out: Vec<char> = Vec::new();
    push_system(&mut out, system_prompt);
    push_files_section(&mut out, "[CONTEXT]\n", context_files);
    push_text_section(&mut out, "[REQUIREMENTS]\n", instructions);
    append_str(&mut out, "[TEST OUTPUT]\n");
    append_str(&mut out, "Generate tests for: ");
    append_str(&mut out, test_path);
    append_str(&mut out, "\n\n");
    append_str(&mut out, "The implementation does not exist yet. Generate tests that will:\n");
    append_str(&mut out, "1. Verify the requirements are met when implementation exists\n");
    append_str(&mut out, "2. Cover edge cases and error conditions\n");
    append_str(&mut out, "3. Be immediately runnable once implementation is created\n");
    assert(out@ =~= test_prompt(system_prompt@, pair_views(context_files@), instructions@, test_path@));
    string_of(&out)
}

/// Where the regenerated files go: the one path, or the list of paths.
pub open spec fn output_targets(files: Seq<(Seq<char>, Seq<char>)>) -> Seq<char> {
    if files.len() == 1 {
        "Output to: "@ + files[0].0 + "\n\n"@
    } else {
        "Output files:\n"@ + file_items(files) + "\n"@
    }
}

/// The prompt that asks for another attempt after a failed verification:
/// the system prompt, the context files, the previous attempt, the
/// feedback, the instructions, and where the output goes.
pub open spec fn retry_prompt(
    system_prompt: Seq<char>,
    context_files: Seq<(Seq<char>, Seq<char>)>,
    instructions: Seq<char>,
    previous_outputs: Seq<(Seq<char>, Seq<char>)>,
    verification_error: Seq<char>,
) -> Seq<char> {
    system_section(system_prompt) + files_section("[CONTEXT]\n"@, context_files)
        + "[PREVIOUS ATTEMPT]\n"@ + file_blocks(previous_outputs) + text_section(
        "[VERIFICATION FEEDBACK]\nThe previous attempt failed verification with the following feedback:\n"@,
        verification_error,
    ) + text_section("[INSTRUCTIONS]\n"@, instructions) + output_targets(previous_outputs)
        + "Please fix the issues mentioned in the verification feedback and generate improved code.\n"@
}

pub fn assemble_retry_prompt_multi(
    system_prompt: &str,
    context_files: &[(String, String)],
    instructions: &str,
    previous_outputs: &[(String, String)],
    verification_error: &str,
) -> (r: String)
    ensures
        r@ == retry_prompt(
            system_prompt@,
            pair_views(context_files@),
            instructions@,
            pair_views(previous_outputs@),
            verification_error@,
        ),
{
    let mut out: Vec<char> = Vec::new();
    push_system(&mut out, system_prompt);
    push_files_section(&mut out, "[CONTEXT]\n", context_files);
    append_str(&mut out, "[PREVIOUS ATTEMPT]\n");
    push_file_blocks(&mut out, previous_outputs);
    push_text_section(
        &mut out,
        "[VERIFICATION FEEDBACK]\nThe previous attempt failed verification with the following feedback:\n",
        verification_error,
    );
    push_text_section(&mut out, "[INSTRUCTIONS]\n", instructions);
    let ghost before = out@;
    if previous_outputs.len() == 1 {
        append_str(&mut out, "Output to: ");
        append_str(&mut out, previous_outputs[0].0.as_str());
        append_str(&mut out, "\n\n");
    } else {
        append_str(&mut out, "Output files:\n");
        push_file_items(&mut out, previous_outputs);
        append_str(&mut out, "\n");
    }
    assert(out@ =~= before + output_targets(pair_views(previous_outputs@)));
    append_str(
        &mut out,
        "Please fix the issues mentioned in the verification feedback and generate improved code.\n",
    );
    assert(out@ =~= retry_prompt(
        system_prompt@,
        pair_views(context_files@),
        instructions@,
        pair_views(previous_outputs@),
        verification_error@,
    ));
    string_of(&out)
}

/// The prompt that asks for another attempt at one file.
pub fn assemble_retry_prompt(
    system_prompt: &str,
    context_files: &[(String, String)],
    instructions: &str,
    output_path: &str,
    previous_output: &str,
    verification_error: &str,
) -> (r: String)
    ensures
        r@ == system_section(system_prompt@) + files_section("[CONTEXT]\n"@, pair_views(context_files@))
            + "[PREVIOUS ATTEMPT]\n"@ + file_block(output_path@, previous_output@) + text_section(
            "[VERIFICATION FEEDBACK]\nThe previous attempt failed verification with the following feedback:\n"@,
            verification_error@,
        ) + text_section("[INSTRUCTIONS]\n"@, instructions@) + ("Output to: "@ + output_path@
            + "\n\n"@)
            + "Please fix the issues mentioned in the verification feedback and generate improved code.\n"@,
{
    let mut files: Vec<(String, String)> = Vec::new();
    files.push((output_path.to_owned(), previous_output.to_owned()));
    proof {
        lemma_file_blocks_one(pair_views(files@), output_path@, previous_output@);
    }
    assemble_retry_prompt_multi(
        system_prompt,
        context_files,
        instructions,
        files.as_slice(),
        verification_error,
    )
}

/// The section that shows the file to split, with a note on its role.
pub open spec fn target_section(path: Seq<char>, content: Seq<char>, role: Seq<char>) -> Seq<char> {
    "[TARGET FILE TO SPLIT]\n"@ + "### File: "@ + path + role + fenced(content)
}

fn push_target(out: &mut Vec<char>, path: &str, content: &str, role: &str)
    ensures
        final(out)@ == old(out)@ + target_section(path@, content@, role@),
{
    append_str(out, "[TARGET FILE TO SPLIT]\n");
    append_str(out, "### File: ");
    append_str(out, path);
    append_str(out, role);
    push_fenced(out, content);
    assert(out@ =~= old(out)@ + target_section(path@, content@, role@));
}

/// The prompt that asks to split a file into all its output files at once.
pub open spec fn split_prompt(
    system_prompt: Seq<char>,
    target_path: Seq<char>,
    target_content: Seq<char>,
    context_files: Seq<(Seq<char>, Seq<char>)>,
    instructions: Seq<char>,
    output_files: Seq<Seq<char>>,
) -> Seq<char> {
    system_section(system_prompt) + target_section(
        target_path,
        target_content,
        " (to be split into modules)\n"@,
    ) + files_section("[ADDITIONAL CONTEXT]\n"@, context_files) + text_section(
        "[INSTRUCTIONS]\n"@,
        instructions,
    ) + "[OUTPUT FILES]\n"@ + "Generate the following files:\n"@ + path_items(output_files)
        + "\nUse the ~~~worksplit:path/to/file.rs delimiter for each output file.\n"@
        + "Ensure ALL functionality from the target file is preserved across the output files.\n"@
}

pub fn assemble_split_prompt(
    system_prompt: &str,
    target_file: (&String, &str),
    context_files: &[(String, String)],
    instructions: &str,
    output_files: &[String],
) -> (r: String)
    ensures
        r@ == split_prompt(
            system_prompt@,
            target_file.0@,
            target_file.1@,
            pair_views(context_files@),
            instructions@,
            strs(output_files@),
        ),
{
    let mut out: Vec<char> = Vec::new();
    push_system(&mut out, system_prompt);
    push_target(&mut out, target_file.0.as_str(), target_file.1, " (to be split into modules)\n");
    push_files_section(&mut out, "[ADDITIONAL CONTEXT]\n", context_files);
    push_text_section(&mut out, "[INSTRUCTIONS]\n", instructions);
    append_str(&mut out, "[OUTPUT FILES]\n");
    append_str(&mut out, "Generate the following files:\n");
    push_path_items(&mut out, output_files);
    append_str(&mut out, "\nUse the ~~~worksplit:path/to/file.rs delimiter for each output file.\n");
    append_str(
        &mut out,
        "Ensure ALL functionality from the target file is preserved across the output files.\n",
    );
    assert(out@ =~= split_prompt(
        system_prompt@,
        target_file.0@,
        target_file.1@,
        pair_views(context_files@),
        instructions@,
        strs(output_files@),
    ));
    string_of(&out)
}

/// The prompt that asks for one output file of a split: the system prompt,
/// the file to split, the context files, the output files generated so
/// far, the instructions, the file to generate, and the files still to
/// come.
pub open spec fn sequential_split_prompt(
    system_prompt: Seq<char>,
    target_path: Seq<char>,
    target_content: Seq<char>,
    context_files: Seq<(Seq<char>, Seq<char>)>,
    previously_generated: Seq<(Seq<char>, Seq<char>)>,
    instructions: Seq<char>,
    current_output_path: Seq<char>,
    remaining_files: Seq<Seq<char>>,
) -> Seq<char> {
    system_section(system_prompt) + target_section(
        target_path,
        target_content,
        " (original file being split)\n"@,
    ) + files_section("[ADDITIONAL CONTEXT]\n"@, context_files) + earlier_section(
        "[ALREADY GENERATED IN THIS SPLIT]\n"@,
        "These files were already generated from the target file. Ensure consistency and avoid duplicating code that's already in these files.\n\n"@,
        previously_generated,
    ) + text_section("[INSTRUCTIONS]\n"@, instructions) + "[CURRENT OUTPUT FILE]\n"@
        + "Generate ONLY this file: "@ + current_output_path + "\n"@
        + "Extract the appropriate code from the target file into this module.\n\n"@
        + remaining_section(
        remaining_files,
        "\nDo NOT include code that belongs in these files. Focus only on the current file.\n"@,
    ) + "\nOutput the file using the ~~~worksplit:path/to/file.rs delimiter.\n"@
}

pub fn assemble_sequential_split_prompt(
    system_prompt: &str,
    target_file: (&String, &str),
    context_files: &[(String, String)],
    previously_generated: &[(String, String)],
    instructions: &str,
    current_output_path: &str,
    remaining_files: &[String],
) -> (r: String)
    ensures
        r@ == sequential_split_prompt(
            system_prompt@,
            target_file.0@,
            target_file.1@,
            pair_views(context_files@),
            pair_views(previously_generated@),
            instructions@,
            current_output_path@,
            strs(remaining_files@),
        ),
{
    let mut out: Vec<char> = Vec::new();
    push_system(&mut out, system_prompt);
    push_target(&mut out, target_file.0.as_str(), target_file.1, " (original file being split)\n");
    push_files_section(&mut out, "[ADDITIONAL CONTEXT]\n", context_files);
    push_earlier(
        &mut out,
        "[ALREADY GENERATED IN THIS SPLIT]\n",
        "These files were already generated from the target file. Ensure consistency and avoid duplicating code that's already in these files.\n\n",
        previously_generated,
    );
    push_text_section(&mut out, "[INSTRUCTIONS]\n", instructions);
    append_str(&mut out, "[CURRENT OUTPUT FILE]\n");
    append_str(&mut out, "Generate ONLY this file: ");
    append_str(&mut out, current_output_path);
    append_str(&mut out, "\n");
    append_str(&mut out, "Extract the appropriate code from the target file into this module.\n\n");
    push_remaining(
        &mut out,
        remaining_files,
        "\nDo NOT include code that belongs in these files. Focus only on the current file.\n",
    );
    append_str(&mut out, "\nOutput the file using the ~~~worksplit:path/to/file.rs delimiter.\n");
    assert(out@ =~= sequential_split_prompt(
        system_prompt@,
        target_file.0@,
        target_file.1@,
        pair_views(context_files@),
        pair_views(previously_generated@),
        instructions@,
        current_output_path@,
        strs(remaining_files@),
    ));
    string_of(&out)
}

/// The number in decimal digits, with spaces before it to a width of four.
pub open spec fn padded(n: nat) -> Seq<char> {
    let d = decimal(n);
    if d.len() >= 4 {
        d
    } else if d.len() == 3 {
        " "@ + d
    } else if d.len() == 2 {
        "  "@ + d
    } else {
        "   "@ + d
    }
}

/// What stands before line `number` of a target file: a mark with the
/// number on the first line and on every tenth, as many spaces elsewhere.
pub open spec fn line_lead(number: nat) -> Seq<char> {
    if number == 1 || number % 10 == 0 {
        "[Line "@ + padded(number) + "] "@
    } else {
        "            "@
    }
}

/// The lines of a target file, each behind its lead and ended by a line
/// feed.
pub open spec fn numbered_lines(ls: Seq<Seq<char>>) -> Seq<char>
    decreases ls.len(),
{
    if ls.len() == 0 {
        Seq::empty()
    } else {
        numbered_lines(ls.drop_last()) + line_lead(ls.len()) + ls.last() + "\n"@
    }
}

/// A target file as it is shown: a heading with its path and its number of
/// lines, and its numbered lines within fences.
pub open spec fn target_block(path: Seq<char>, content: Seq<char>) -> Seq<char> {
    "### File: "@ + path + " ("@ + decimal(lines(content).len()) + " lines)\n"@ + "```\n"@
        + numbered_lines(lines(content)) + "```\n\n"@
}

/// The target files as they are shown, one after the other.
pub open spec fn target_blocks(files: Seq<(Seq<char>, Seq<char>)>) -> Seq<char>
    decreases files.len(),
{
    if files.len() == 0 {
        Seq::empty()
    } else {
        target_blocks(files.drop_last()) + target_block(files.last().0, files.last().1)
    }
}

/// The rules of the edit format, as the prompt states them.
pub open spec fn edit_rules() -> Seq<char> {
    "[EDIT MODE]\n"@ + "You are making surgical edits to existing files. "@
        + "Use the following format for each edit:\n\n"@ + "FILE: path/to/file.rs\n"@
        + "FIND:\n<exact text to find>\n"@ + "REPLACE:\n<replacement text>\n"@ + "END\n\n"@
        + "Important:\n"@ + "- FIND text must match exactly (including whitespace)\n"@
        + "- Include enough context in FIND to be unique\n"@
        + "- Multiple edits can be made to the same file\n"@
        + "- Use line number hints like 'FIND (near line 50):' to reference locations\n\n"@
}

/// The prompt that asks for edits to the target files: the system prompt,
/// the rules of the edit format, the target files with numbered lines, the
/// context files, and the instructions.
pub open spec fn edit_prompt(
    system_prompt: Seq<char>,
    target_files: Seq<(Seq<char>, Seq<char>)>,
    context_files: Seq<(Seq<char>, Seq<char>)>,
    instructions: Seq<char>,
) -> Seq<char> {
    system_section(system_prompt) + edit_rules() + "[TARGET FILES]\n"@
        + "These are the files you will be editing (line numbers shown every 10 lines):\n\n"@
        + target_blocks(target_files) + files_section("[CONTEXT]\n"@, context_files)
        + text_section("[INSTRUCTIONS]\n"@, instructions)
}

fn push_padded(out: &mut Vec<char>, n: usize)
    ensures
        final(out)@ == old(out)@ + padded(n as nat),
{
    let mut d: Vec<char> = Vec::new();
    append_decimal(&mut d, n);
    assert(d@ =~= decimal(n as nat));
    if d.len() == 3 {
        append_str(out, " ");
    } else if d.len() == 2 {
        append_str(out, "  ");
    } else if d.len() < 2 {
        append_str(out, "   ");
    }
    append(out, &d);
    proof {
        lemma_decimal_len(n as nat);
    }
    assert(out@ =~= old(out)@ + padded(n as nat));
}

/// A number has at least one decimal digit.
pub proof fn lemma_decimal_len(n: nat)
    ensures
        decimal(n).len() >= 1,
    decreases n,
{
    if n >= 10 {
        lemma_decimal_len(n / 10);
    }
}

fn push_target_block(out: &mut Vec<char>, path: &str, content: &str)
    ensures
        final(out)@ == old(out)@ + target_block(path@, content@),
{
    let ls = lines_of(&chars_of(content));
    assert(rows(ls@).len() == ls@.len());
    append_str(out, "### File: ");
    append_str(out, path);
    append_str(out, " (");
    append_decimal(out, ls.len());
    append_str(out, " lines)\n");
    append_str(out, "```\n");
    let ghost head = out@;
    let mut i: usize = 0;
    assert(out@ =~= head + numbered_lines(rows(ls@).take(0)));
    while i < ls.len()
        invariant
            i <= ls.len(),
            out@ == head + numbered_lines(rows(ls@).take(i as int)),
        decreases ls.len() - i,
    {
        assert(rows(ls@).take(i + 1).drop_last() == rows(ls@).take(i as int));
        assert(rows(ls@).take(i + 1).last() == ls@[i as int]@);
        let number: usize = i + 1;
        if number == 1 || number % 10 == 0 {
            append_str(out, "[Line ");
            push_padded(out, number);
            append_str(out, "] ");
        } else {
            append_str(out, "            ");
        }
        append(out, &ls[i]);
        append_str(out, "\n");
        i += 1;
        assert(out@ =~= head + numbered_lines(rows(ls@).take(i as int)));
    }
    assert(rows(ls@).take(ls.len() as int) == rows(ls@));
    append_str(out, "```\n\n");
    assert(out@ =~= old(out)@ + target_block(path@, content@));
}

fn push_edit_rules(out: &mut Vec<char>)
    ensures
        final(out)@ == old(out)@ + edit_rules(),
{
    append_str(out, "[EDIT MODE]\n");
    append_str(out, "You are making surgical edits to existing files. ");
    append_str(out, "Use the following format for each edit:\n\n");
    append_str(out, "FILE: path/to/file.rs\n");
    append_str(out, "FIND:\n<exact text to find>\n");
    append_str(out, "REPLACE:\n<replacement text>\n");
    append_str(out, "END\n\n");
    append_str(out, "Important:\n");
    append_str(out, "- FIND text must match exactly (including whitespace)\n");
    append_str(out, "- Include enough context in FIND to be unique\n");
    append_str(out, "- Multiple edits can be made to the same file\n");
    append_str(
        out,
        "- Use line number hints like 'FIND (near line 50):' to reference locations\n\n",
    );
    assert(out@ =~= old(out)@ + edit_rules());
}

pub fn assemble_edit_prompt(
    system_prompt: &str,
    target_files: &[(String, String)],
    context_files: &[(String, String)],
    instructions: &str,
) -> (r: String)
    ensures
        r@ == edit_prompt(system_prompt@, pair_views(target_files@), pair_views(context_files@), instructions@),
{
    let mut out: Vec<char> = Vec::new();
    push_system(&mut out, system_prompt);
    push_edit_rules(&mut out);
    append_str(&mut out, "[TARGET FILES]\n");
    append_str(
        &mut out,
        "These are the files you will be editing (line numbers shown every 10 lines):\n\n",
    );
    let ghost head = out@;
    let mut i: usize = 0;
    assert(out@ =~= head + target_blocks(pair_views(target_files@).take(0)));
    while i < target_files.len()
        invariant
            i <= target_files.len(),
            out@ == head + target_blocks(pair_views(target_files@).take(i as int)),
        decreases target_files.len() - i,
    {
        assert(pair_views(target_files@).take(i + 1).drop_last() == pair_views(target_files@).take(i as int));
        assert(pair_views(target_files@).take(i + 1).last() == pair_views(target_files@)[i as int]);
        push_target_block(&mut out, target_files[i].0.as_str(), target_files[i].1.as_str());
        i += 1;
        assert(out@ =~= head + target_blocks(pair_views(target_files@).take(i as int)));
    }
    assert(pair_views(target_files@).take(target_files.len() as int) == pair_views(target_files@));
    push_files_section(&mut out, "[CONTEXT]\n", context_files);
    push_text_section(&mut out, "[INSTRUCTIONS]\n", instructions);
    assert(out@ =~= edit_prompt(system_prompt@, pair_views(target_files@), pair_views(context_files@), instructions@));
    string_of(&out)
}

} // verus!
