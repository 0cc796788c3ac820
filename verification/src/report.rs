//! Markdown rendering of evidence reports.
use vstd::prelude::*;

use crate::models::{
    classification_text, status_text, CommandResult, ScenarioReport,
};
use crate::secrets::{lemma_mask_hides_values, mask_all, redaction_safe, SecretSet};
use crate::text::{
    contains_seq, dec, int_text, is_blank, owned, push_str, string_from_chars, trim, trim_end,
    trim_end_string, push_chars, i64_string, u128_string,
};

verus! {

/// A line: the text followed by a newline.
pub open spec fn ln(s: Seq<char>) -> Seq<char> {
    s + seq!['\n']
}

/// One `- item` line per item.
pub open spec fn md_items(items: Seq<Seq<char>>) -> Seq<char>
    decreases items.len(),
{
    if items.len() == 0 {
        seq![]
    } else {
        ln("- "@ + items[0]) + md_items(items.drop_first())
    }
}

/// A `## title` section listing `items`, or `- None` when there are none.
pub open spec fn md_list(title: Seq<char>, items: Seq<Seq<char>>) -> Seq<char> {
    ln("## "@ + title) + ln(seq![]) + (if items.len() == 0 {
        ln("- None"@)
    } else {
        md_items(items)
    }) + ln(seq![])
}

/// A collapsible block holding `content` without trailing whitespace, or
/// `(empty)` when it is blank.
pub open spec fn md_block(title: Seq<char>, content: Seq<char>) -> Seq<char> {
    ln("<details><summary>"@ + title + "</summary>"@) + ln(seq![]) + ln("```text"@) + (if trim(
        content,
    ).len() == 0 {
        ln("(empty)"@)
    } else {
        ln(trim_end(content))
    }) + ln("```"@) + ln(seq![]) + ln("</details>"@) + ln(seq![])
}

/// The exit code, or `signal-or-unknown` when the process reported none.
pub open spec fn exit_code_text(code: Option<i32>) -> Seq<char> {
    match code {
        Some(c) => int_text(c as int),
        None => "signal-or-unknown"@,
    }
}

pub open spec fn bool_text(b: bool) -> Seq<char> {
    if b {
        "true"@
    } else {
        "false"@
    }
}

/// The heading and facts of one command's evidence.
pub open spec fn md_command_head(c: CommandResult) -> Seq<char> {
    ln("### "@ + (if c.success {
        "PASS"@
    } else {
        "FAIL"@
    }) + ": "@ + c.label@) + ln(seq![]) + ln("- Command: `"@ + c.command@ + "`"@) + ln(
        "- Cwd: `"@ + c.cwd@ + "`"@,
    ) + ln("- Exit code: `"@ + exit_code_text(c.exit_code) + "`"@) + ln(
        "- Timed out: `"@ + bool_text(c.timed_out) + "`"@,
    ) + ln("- Duration: `"@ + dec(c.duration_ms as nat) + " ms`"@) + ln(seq![])
}

/// The evidence section of one command.
pub open spec fn md_command(c: CommandResult) -> Seq<char> {
    md_command_head(c) + md_block("stdout"@, c.stdout@) + md_block("stderr"@, c.stderr@)
}

pub open spec fn md_commands(cs: Seq<CommandResult>) -> Seq<char>
    decreases cs.len(),
{
    if cs.len() == 0 {
        seq![]
    } else {
        md_command(cs[0]) + md_commands(cs.drop_first())
    }
}

/// The header, summary and reproduction part of a report.
pub open spec fn md_head(r: ScenarioReport) -> Seq<char> {
    ln("# "@ + r.title@) + ln(seq![]) + ln("- Status: `"@ + status_text(r.status) + "`"@) + ln(
        "- Failure classification: `"@ + classification_text(r.classification) + "`"@,
    ) + ln("- Backend: `"@ + r.backend@ + "`"@) + ln("- Run dir: `"@ + r.run_dir@ + "`"@) + ln(
        seq![],
    ) + ln("## Summary"@) + ln(seq![]) + ln(r.summary@) + ln(seq![]) + ln("## Reproduction"@)
        + ln(seq![]) + ln("```bash"@) + ln(r.reproduction@) + ln("```"@) + ln(seq![])
}

/// The whole Markdown report.
pub open spec fn markdown_report(r: ScenarioReport) -> Seq<char> {
    md_head(r) + md_list("Scenario Steps"@, r.scenario_steps.deep_view()) + md_list(
        "Docs Observations"@,
        r.docs_observations.deep_view(),
    ) + md_list("Provided Secrets"@, r.provided_secrets.deep_view()) + md_list(
        "Missing Secrets"@,
        r.missing_secrets.deep_view(),
    ) + ln("## Commands"@) + ln(seq![]) + md_commands(r.commands@) + md_list(
        "Generated Files"@,
        r.generated_files.deep_view(),
    ) + md_list("Suggestions"@, r.suggestions.deep_view())
}

fn push_line(buf: &mut Vec<char>, line: &str)
    ensures
        final(buf)@ == old(buf)@ + ln(line@),
{
    push_str(buf, line);
    buf.push('\n');
    assert(final(buf)@ =~= old(buf)@ + ln(line@));
}

fn push_line3(buf: &mut Vec<char>, a: &str, b: &str, c: &str)
    ensures
        final(buf)@ == old(buf)@ + ln(a@ + b@ + c@),
{
    push_str(buf, a);
    push_str(buf, b);
    push_str(buf, c);
    buf.push('\n');
    assert(final(buf)@ =~= old(buf)@ + ln(a@ + b@ + c@));
}

fn push_list(buf: &mut Vec<char>, title: &str, items: &Vec<String>)
    ensures
        final(buf)@ == old(buf)@ + md_list(title@, items.deep_view()),
{
    let ghost start = buf@;
    push_line3(buf, "## ", title, "");
    push_line(buf, "");
    let ghost mid = buf@;
    if items.len() == 0 {
        push_line(buf, "- None");
    } else {
        let mut i: usize = 0;
        let ghost dv = items.deep_view();
        assert(dv.skip(0) =~= dv);
        while i < items.len()
            invariant
                i <= items.len(),
                dv == items.deep_view(),
                buf@ + md_items(dv.skip(i as int)) == mid + md_items(dv),
            decreases items.len() - i,
        {
            let ghost before = buf@;
            assert(dv[i as int] == items[i as int]@);
            assert(dv.skip(i as int).drop_first() =~= dv.skip(i + 1));
            push_line3(buf, "- ", items[i].as_str(), "");
            proof {
                reveal_strlit("");
                assert("- "@ + dv[i as int] + ""@ =~= "- "@ + dv[i as int]);
                assert(dv.skip(i as int)[0] == dv[i as int]);
            }
            assert(before + md_items(dv.skip(i as int)) =~= buf@ + md_items(dv.skip(i + 1)));
            i = i + 1;
        }
        assert(dv.skip(i as int) =~= Seq::<Seq<char>>::empty());
    }
    push_line(buf, "");
    proof {
        assert("## "@ + title@ + ""@ =~= "## "@ + title@) by {
            reveal_strlit("");
        }
        assert(ln(""@) =~= ln(seq![])) by {
            reveal_strlit("");
        }
        assert forall|s: Seq<char>| "- "@ + s + ""@ =~= "- "@ + s by {
            reveal_strlit("");
        }
        assert(buf@ =~= start + md_list(title@, items.deep_view()));
    }
}

fn push_block(buf: &mut Vec<char>, title: &str, content: &str)
    ensures
        final(buf)@ == old(buf)@ + md_block(title@, content@),
{
    let ghost start = buf@;
    push_line3(buf, "<details><summary>", title, "</summary>");
    push_line(buf, "");
    push_line(buf, "```text");
    if is_blank(content) {
        push_line(buf, "(empty)");
    } else {
        let t = trim_end_string(content);
        push_chars(buf, &t);
        buf.push('\n');
    }
    push_line(buf, "```");
    push_line(buf, "");
    push_line(buf, "</details>");
    push_line(buf, "");
    proof {
        reveal_strlit("");
        assert(ln(""@) =~= ln(seq![]));
        assert(buf@ =~= start + md_block(title@, content@));
    }
}

/// Renders an exit code for a report.
pub fn display_exit_code(exit_code: Option<i32>) -> (s: String)
    ensures
        s@ == exit_code_text(exit_code),
{
    match exit_code {
        Some(code) => i64_string(code as i64),
        None => owned("signal-or-unknown"),
    }
}

/// `true` or `false`.
pub fn bool_string(b: bool) -> (s: String)
    ensures
        s@ == bool_text(b),
{
    if b {
        owned("true")
    } else {
        owned("false")
    }
}

fn push_command_head(buf: &mut Vec<char>, c: &CommandResult)
    ensures
        final(buf)@ == old(buf)@ + md_command_head(*c),
{
    let ghost start = buf@;
    let marker = if c.success {
        "PASS"
    } else {
        "FAIL"
    };
    push_str(buf, "### ");
    push_str(buf, marker);
    push_str(buf, ": ");
    push_str(buf, c.label.as_str());
    buf.push('\n');
    push_line(buf, "");
    push_line3(buf, "- Command: `", c.command.as_str(), "`");
    push_line3(buf, "- Cwd: `", c.cwd.as_str(), "`");
    let code = display_exit_code(c.exit_code);
    push_line3(buf, "- Exit code: `", code.as_str(), "`");
    let t = bool_string(c.timed_out);
    push_line3(buf, "- Timed out: `", t.as_str(), "`");
    let d = u128_string(c.duration_ms);
    push_line3(buf, "- Duration: `", d.as_str(), " ms`");
    push_line(buf, "");
    proof {
        reveal_strlit("");
        assert(ln(""@) =~= ln(seq![]));
        assert(buf@ =~= start + md_command_head(*c));
    }
}

fn push_command(buf: &mut Vec<char>, c: &CommandResult)
    ensures
        final(buf)@ == old(buf)@ + md_command(*c),
{
    let ghost start = buf@;
    push_command_head(buf, c);
    push_block(buf, "stdout", c.stdout.as_str());
    push_block(buf, "stderr", c.stderr.as_str());
    assert(buf@ =~= start + md_command(*c));
}

/// Renders the Markdown evidence report.
pub fn render_markdown_report(report: &ScenarioReport) -> (s: String)
    ensures
        s@ == markdown_report(*report),
{
    let mut buf: Vec<char> = Vec::new();
    push_line3(&mut buf, "# ", report.title.as_str(), "");
    push_line(&mut buf, "");
    let status = report.status.to_text();
    push_line3(&mut buf, "- Status: `", status.as_str(), "`");
    let class = report.classification.to_text();
    push_line3(&mut buf, "- Failure classification: `", class.as_str(), "`");
    push_line3(&mut buf, "- Backend: `", report.backend.as_str(), "`");
    push_line3(&mut buf, "- Run dir: `", report.run_dir.as_str(), "`");
    push_line(&mut buf, "");
    push_line(&mut buf, "## Summary");
    push_line(&mut buf, "");
    push_line(&mut buf, report.summary.as_str());
    push_line(&mut buf, "");
    push_line(&mut buf, "## Reproduction");
    push_line(&mut buf, "");
    push_line(&mut buf, "```bash");
    push_line(&mut buf, report.reproduction.as_str());
    push_line(&mut buf, "```");
    push_line(&mut buf, "");
    proof {
        reveal_strlit("");
        assert(ln(""@) =~= ln(seq![]));
        assert(buf@ =~= md_head(*report));
    }
    let ghost head = buf@;
    push_list(&mut buf, "Scenario Steps", &report.scenario_steps);
    push_list(&mut buf, "Docs Observations", &report.docs_observations);
    push_list(&mut buf, "Provided Secrets", &report.provided_secrets);
    push_list(&mut buf, "Missing Secrets", &report.missing_secrets);
    push_line(&mut buf, "## Commands");
    push_line(&mut buf, "");
    let ghost before_cmds = buf@;
    let mut i: usize = 0;
    assert(report.commands@.skip(0) =~= report.commands@);
    while i < report.commands.len()
        invariant
            i <= report.commands.len(),
            buf@ + md_commands(report.commands@.skip(i as int)) == before_cmds + md_commands(
                report.commands@,
            ),
        decreases report.commands.len() - i,
    {
        let ghost before = buf@;
        assert(report.commands@.skip(i as int).drop_first() =~= report.commands@.skip(i + 1));
        assert(report.commands@.skip(i as int)[0] == report.commands@[i as int]);
        push_command(&mut buf, &report.commands[i]);
        assert(before + md_commands(report.commands@.skip(i as int)) =~= buf@ + md_commands(
            report.commands@.skip(i + 1),
        ));
        i = i + 1;
    }
    proof {
        assert(report.commands@.skip(i as int) =~= Seq::<CommandResult>::empty());
    }
    push_list(&mut buf, "Generated Files", &report.generated_files);
    push_list(&mut buf, "Suggestions", &report.suggestions);
    proof {
        reveal_strlit("");
        assert(ln(""@) =~= ln(seq![]));
        assert(buf@ =~= markdown_report(*report));
    }
    string_from_chars(&buf)
}

/// Written reports hold no secret value: the Markdown written for any
/// report, masked with a secret set, contains none of the set's
/// redaction-safe values.
pub proof fn lemma_written_report_hides_secrets(r: ScenarioReport, values: Seq<Seq<char>>, i: int)
    requires
        0 <= i < values.len(),
        redaction_safe(values[i]),
    ensures
        !contains_seq(mask_all(values, markdown_report(r)), values[i]),
{
    lemma_mask_hides_values(values, markdown_report(r), i);
}

/// The Markdown report with every secret value masked: the text that is
/// written to the report file.
pub fn masked_markdown_report(report: &ScenarioReport, secrets: &SecretSet) -> (s: String)
    ensures
        s@ == mask_all(secrets@.values, markdown_report(*report)),
{
    let rendered = render_markdown_report(report);
    secrets.mask(rendered.as_str())
}

} // verus!
