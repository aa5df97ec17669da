//! The prompt that asks a model to fix one issue.

use vstd::prelude::*;
use crate::paths::{extension_of, path_extension};
use crate::text::{
    decimal, decimal_chars, eq_ignore_case, eq_ignore_case_str, equals_str, lines_of, lines_view,
    push_all, push_str, split_lines, string_of, to_chars,
};
use crate::types::{Issue, IssueKind, kind_text};

verus! {

// ─── Verbosity ───────────────────────────────────────────────────────────────

/// An `AI_VERBOSE` value that asks for explanations: `1`, or `true` / `yes`
/// in any ASCII case.
pub open spec fn verbose_value(v: Seq<char>) -> bool {
    v == "1"@ || eq_ignore_case(v, "true"@) || eq_ignore_case(v, "yes"@)
}

/// Whether the `AI_VERBOSE` setting (`None` when unset) asks for prose with
/// the patch.
pub fn is_verbose(value: Option<&str>) -> (b: bool)
    ensures
        b == (value matches Some(v) && verbose_value(v@)),
{
    match value {
        Some(v) => {
            let vc = to_chars(v);
            equals_str(&vc, "1") || eq_ignore_case_str(&vc, "true") || eq_ignore_case_str(&vc, "yes")
        },
        None => false,
    }
}

// ─── File context ────────────────────────────────────────────────────────────

/// `n` right-aligned in four columns, as `{:4}` prints it.
pub open spec fn pad4(n: nat) -> Seq<char> {
    let d = decimal(n);
    if d.len() < 4 {
        Seq::new((4 - d.len()) as nat, |i: int| ' ') + d
    } else {
        d
    }
}

/// The lines `ls[start..end]`, each as `{:4}: {line}\n` with its 1-based
/// number.
pub open spec fn numbered_lines(ls: Seq<Seq<char>>, start: int, end: int) -> Seq<char>
    decreases end - start,
{
    if end <= start {
        seq![]
    } else {
        numbered_lines(ls, start, end - 1) + pad4(end as nat) + ": "@ + ls[end - 1] + "\n"@
    }
}

/// The first line shown around `target` (0-based): `radius` lines before it.
pub open spec fn context_start(target: int, radius: int) -> int {
    if target > radius + 1 {
        target - radius - 1
    } else {
        0
    }
}

/// The end (exclusive, 0-based) of the lines shown around `target`.
pub open spec fn context_end(target: int, radius: int, n: int) -> int {
    if target + radius < n {
        target + radius
    } else {
        n
    }
}

/// The lines `radius` before to `radius` after line `target` (1-based) of the
/// file text `content`, numbered, under a line naming the target; a fixed
/// text when the file could not be read.
pub open spec fn context_text(content: Option<Seq<char>>, target: int, radius: int) -> Seq<char> {
    match content {
        None => "(file not readable)"@,
        Some(c) => {
            let ls = lines_of(c);
            "(line "@ + decimal(target as nat) + " is the issue — copy it verbatim into BEFORE)\n"@
                + numbered_lines(ls, context_start(target, radius), context_end(target, radius, ls.len() as int))
        },
    }
}

/// The context can be cut out: the numbers stay in range and the first line
/// shown is not past the last.
pub open spec fn context_ok(content: Option<Seq<char>>, target: int, radius: int) -> bool {
    match content {
        None => true,
        Some(c) => {
            &&& radius + 1 <= usize::MAX
            &&& target + radius <= usize::MAX
            &&& context_start(target, radius) <= context_end(target, radius, lines_of(c).len() as int)
        },
    }
}

fn pad4_chars(n: usize) -> (r: Vec<char>)
    ensures
        r@ == pad4(n as nat),
{
    let d = decimal_chars(n as u64);
    if d.len() < 4 {
        let mut r: Vec<char> = Vec::new();
        let mut k: usize = 0;
        while k < 4 - d.len()
            invariant
                d@.len() < 4,
                k <= 4 - d@.len(),
                r@ == Seq::new(k as nat, |i: int| ' '),
            decreases 4 - d@.len() - k,
        {
            r.push(' ');
            k = k + 1;
            assert(r@ =~= Seq::new(k as nat, |i: int| ' '));
        }
        push_all(&mut r, &d);
        r
    } else {
        d
    }
}

fn numbered_from(lines: &Vec<Vec<char>>, start: usize, end: usize) -> (r: Vec<char>)
    requires
        start <= end <= lines@.len(),
    ensures
        r@ == numbered_lines(lines_view(lines@), start as int, end as int),
{
    let ghost ls = lines_view(lines@);
    let mut out: Vec<char> = Vec::new();
    let mut k = start;
    while k < end
        invariant
            start <= k <= end <= lines@.len(),
            ls == lines_view(lines@),
            out@ == numbered_lines(ls, start as int, k as int),
        decreases end - k,
    {
        let num = pad4_chars(k + 1);
        push_all(&mut out, &num);
        push_str(&mut out, ": ");
        push_all(&mut out, &lines[k]);
        push_str(&mut out, "\n");
        assert(ls[k as int] == lines@[k as int]@);
        k = k + 1;
    }
    out
}

/// `radius` lines before and after line `target_line` (1-based) of the file
/// text `content`, each prefixed with its number, under a line naming the
/// target; `(file not readable)` when there is no text.
pub fn read_file_context(content: Option<&str>, target_line: usize, radius: usize) -> (r: String)
    requires
        context_ok(
            match content {
                Some(c) => Some(c@),
                None => None,
            },
            target_line as int,
            radius as int,
        ),
    ensures
        r@ == context_text(
            match content {
                Some(c) => Some(c@),
                None => None,
            },
            target_line as int,
            radius as int,
        ),
{
    match content {
        None => "(file not readable)".to_owned(),
        Some(c) => {
            let t = to_chars(c);
            let lines = split_lines(&t);
            let start: usize = if target_line > radius + 1 {
                target_line - radius - 1
            } else {
                0
            };
            let end: usize = if target_line + radius < lines.len() {
                target_line + radius
            } else {
                lines.len()
            };
            let mut out = to_chars("(line ");
            let num = decimal_chars(target_line as u64);
            push_all(&mut out, &num);
            push_str(&mut out, " is the issue — copy it verbatim into BEFORE)\n");
            let body = numbered_from(&lines, start, end);
            push_all(&mut out, &body);
            string_of(&out)
        },
    }
}

// ─── Prompt ──────────────────────────────────────────────────────────────────

/// The patch block the model is asked to emit.
pub open spec fn patch_instructions(file: Seq<char>) -> Seq<char> {
    "---PATCH---\nfile: "@ + file
        + "\nBEFORE:\n<exact lines from the file that need changing — copy verbatim>\n---END_BEFORE---\nAFTER:\n<those same lines with ONLY the minimum change to fix the issue>\n---END_AFTER---\n---END_PATCH---"@
}

/// The part of the prompt both forms share: the issue, the file context and
/// the rules.
pub open spec fn prompt_head(
    file_type: Seq<char>,
    file: Seq<char>,
    line: nat,
    kind: IssueKind,
    message: Seq<char>,
    context: Seq<char>,
) -> Seq<char> {
    "You are fixing a specific image-delivery issue in "@ + file_type + " source code.\nFile: "@
        + file + "  Line: "@ + decimal(line) + "\nIssue type: "@ + kind_text(kind)
        + "\nDiagnosis: "@ + message + "\n\nFile context (line "@ + decimal(line)
        + " is the target):\n"@ + context
        + "\n\nRules:\n- Add or change ONLY what the diagnosis says is missing or wrong.\n- Do NOT add attributes that are already present in the code above.\n- Preserve all existing attributes, whitespace style, and quote style.\n"@
}

/// The file type named in the prompt: the file's extension, or `unknown`.
pub open spec fn file_type_of(file: Seq<char>) -> Seq<char> {
    match extension_of(file) {
        Some(e) => e,
        None => "unknown"@,
    }
}

/// The prompt for `issue` with the file context `context`: a verbose prompt
/// asks for a short explanation and the patch; the default asks for the
/// patch block alone, or `NO_PATCH`.
pub open spec fn prompt_text(
    file: Seq<char>,
    line: nat,
    kind: IssueKind,
    message: Seq<char>,
    context: Seq<char>,
    verbose: bool,
) -> Seq<char> {
    let head = prompt_head(file_type_of(file), file, line, kind, message, context);
    if verbose {
        head + "- If the tag spans multiple lines keep the same formatting.\n\nBriefly explain the fix, then emit:\n"@
            + patch_instructions(file)
    } else {
        head + "\nOutput ONLY the patch block below, no prose, no markdown fences:\n"@
            + patch_instructions(file) + "\nIf no safe patch is possible output exactly: NO_PATCH"@
    }
}

fn kind_label_chars(k: IssueKind) -> (r: Vec<char>)
    ensures
        r@ == kind_text(k),
{
    let s = k.label();
    to_chars(s.as_str())
}

/// The prompt asking a model to fix `issue`, showing four lines around it
/// from `file_content` (the text of the issue's file, `None` when it could not
/// be read); `verbose` (see `is_verbose`) allows an explanation with the
/// patch.
pub fn build_issue_prompt(issue: &Issue, file_content: Option<&str>, verbose: bool) -> (r: String)
    requires
        context_ok(
            match file_content {
                Some(c) => Some(c@),
                None => None,
            },
            issue.line as int,
            4,
        ),
    ensures
        r@ == prompt_text(
            issue.file@,
            issue.line as nat,
            issue.kind,
            issue.message@,
            context_text(
                match file_content {
                    Some(c) => Some(c@),
                    None => None,
                },
                issue.line as int,
                4,
            ),
            verbose,
        ),
{
    let file = to_chars(issue.file.as_str());
    let file_type = match path_extension(issue.file.as_str()) {
        Some(e) => to_chars(e.as_str()),
        None => to_chars("unknown"),
    };
    let context_s = read_file_context(file_content, issue.line, 4);
    let context = to_chars(context_s.as_str());
    let line = decimal_chars(issue.line as u64);
    let mut out = to_chars("You are fixing a specific image-delivery issue in ");
    push_all(&mut out, &file_type);
    push_str(&mut out, " source code.\nFile: ");
    push_all(&mut out, &file);
    push_str(&mut out, "  Line: ");
    push_all(&mut out, &line);
    push_str(&mut out, "\nIssue type: ");
    push_all(&mut out, &kind_label_chars(issue.kind));
    push_str(&mut out, "\nDiagnosis: ");
    push_all(&mut out, &to_chars(issue.message.as_str()));
    push_str(&mut out, "\n\nFile context (line ");
    push_all(&mut out, &line);
    push_str(&mut out, " is the target):\n");
    push_all(&mut out, &context);
    push_str(
        &mut out,
        "\n\nRules:\n- Add or change ONLY what the diagnosis says is missing or wrong.\n- Do NOT add attributes that are already present in the code above.\n- Preserve all existing attributes, whitespace style, and quote style.\n",
    );
    let mut instr = to_chars("---PATCH---\nfile: ");
    push_all(&mut instr, &file);
    push_str(
        &mut instr,
        "\nBEFORE:\n<exact lines from the file that need changing — copy verbatim>\n---END_BEFORE---\nAFTER:\n<those same lines with ONLY the minimum change to fix the issue>\n---END_AFTER---\n---END_PATCH---",
    );
    if verbose {
        push_str(
            &mut out,
            "- If the tag spans multiple lines keep the same formatting.\n\nBriefly explain the fix, then emit:\n",
        );
        push_all(&mut out, &instr);
    } else {
        push_str(&mut out, "\nOutput ONLY the patch block below, no prose, no markdown fences:\n");
        push_all(&mut out, &instr);
        push_str(&mut out, "\nIf no safe patch is possible output exactly: NO_PATCH");
    }
    string_of(&out)
}

} // verus!
