//! The outcome of a command, and how it is written.

use vstd::prelude::*;
use vstd::string::*;

use crate::command::FormatOutput;
use crate::error::AppError;
use crate::json::{json_object, objects_are_read_back, pretty_object, read_object};

verus! {

/// What a command printed, and the code with which it ended.
#[derive(Clone, Debug, PartialEq, Eq)]
pub struct AppOutput {
    pub stdout: String,
    pub stderr: String,
    pub return_code: i32,
}

/// An [`AppOutput`] with its texts as sequences of characters.
pub struct OutputView {
    pub stdout: Seq<char>,
    pub stderr: Seq<char>,
    pub return_code: i32,
}

impl View for AppOutput {
    type V = OutputView;

    open spec fn view(&self) -> OutputView {
        OutputView {
            stdout: self.stdout@,
            stderr: self.stderr@,
            return_code: self.return_code,
        }
    }
}

/// The outcome of a command that printed `stdout` and ended well.
pub open spec fn succeeded(stdout: Seq<char>) -> OutputView {
    OutputView { stdout, stderr: Seq::empty(), return_code: 0 }
}

/// The outcome of a command that printed `stdout` and failed with the complaint `stderr`.
pub open spec fn failed(stdout: Seq<char>, stderr: Seq<char>) -> OutputView {
    OutputView { stdout, stderr, return_code: 1 }
}

impl AppOutput {
    /// The outcome of a command that ended well.
    pub fn success(stdout: &str) -> (output: Self)
        ensures
            output@ == succeeded(stdout@),
    {
        AppOutput { stdout: stdout.to_string(), stderr: String::new(), return_code: 0 }
    }

    /// The outcome of a command that failed.
    pub fn failure(stdout: &str, stderr: &str) -> (output: Self)
        ensures
            output@ == failed(stdout@, stderr@),
    {
        AppOutput { stdout: stdout.to_string(), stderr: stderr.to_string(), return_code: 1 }
    }
}

/// One text below another. An empty text takes no line.
pub open spec fn stacked(above: Seq<char>, below: Seq<char>) -> Seq<char> {
    if below.len() == 0 {
        above
    } else if above.len() == 0 {
        below
    } else {
        above + "\n"@ + below
    }
}

/// Two outcomes as one: the texts stacked, and the code of the later failure.
pub open spec fn merged(base: OutputView, extra: OutputView) -> OutputView {
    OutputView {
        stdout: stacked(base.stdout, extra.stdout),
        stderr: stacked(base.stderr, extra.stderr),
        return_code: if extra.return_code != 0 {
            extra.return_code
        } else {
            base.return_code
        },
    }
}

/// Puts `below` under `above`.
fn stack(above: &mut String, below: &str)
    ensures
        final(above)@ == stacked(old(above)@, below@),
{
    if !below.is_empty() {
        if !above.as_str().is_empty() {
            above.append("\n");
        }
        proof {
            if old(above)@.len() == 0 {
                assert(old(above)@ + below@ =~= below@);
            }
        }
        above.append(below);
    }
}

/// Adds the outcome of a later step to that of the earlier ones.
pub fn merge_output(base: &mut AppOutput, extra: AppOutput)
    ensures
        final(base)@ == merged(old(base)@, extra@),
{
    stack(&mut base.stdout, extra.stdout.as_str());
    stack(&mut base.stderr, extra.stderr.as_str());
    if extra.return_code != 0 {
        base.return_code = extra.return_code;
    }
}

/// An outcome with a warning below its complaints.
pub open spec fn with_warning(output: OutputView, warning: Seq<char>) -> OutputView {
    OutputView {
        stderr: if output.stderr.len() == 0 {
            warning
        } else {
            output.stderr + "\n"@ + warning
        },
        ..output
    }
}

/// Adds a warning below the complaints of an outcome.
pub fn append_warning(output: &mut AppOutput, warning: String)
    ensures
        final(output)@ == with_warning(old(output)@, warning@),
{
    if !output.stderr.as_str().is_empty() {
        output.stderr.append("\n");
    }
    proof {
        if old(output).stderr@.len() == 0 {
            assert(old(output).stderr@ + warning@ =~= warning@);
        }
    }
    output.stderr.append(warning.as_str());
}

/// What is to be written to the two streams.
#[derive(Clone, Debug, PartialEq, Eq)]
pub struct FormattedOutput {
    pub stdout: String,
    pub stderr: String,
}

/// An outcome as a JSON object.
pub open spec fn output_json(output: OutputView) -> Seq<char> {
    json_object(
        ("stdout"@, output.stdout),
        ("stderr"@, output.stderr),
        ("return_code"@, output.return_code as int),
    )
}

/// The outcome that a JSON text holds: an object with the three members of an outcome, in their
/// order.
pub open spec fn read_output(text: Seq<char>) -> Option<OutputView> {
    match read_object(text, "stdout"@, "stderr"@, "return_code"@) {
        Some((stdout, stderr, code)) => if i32::MIN <= code <= i32::MAX {
            Some(OutputView { stdout, stderr, return_code: code as i32 })
        } else {
            None
        },
        None => None,
    }
}

/// What was written as JSON can be read back: a reader gets the outcome from its text.
pub proof fn json_can_be_read_back(output: OutputView)
    ensures
        read_output(output_json(output)) == Some(output),
{
    objects_are_read_back(
        ("stdout"@, output.stdout),
        ("stderr"@, output.stderr),
        ("return_code"@, output.return_code as int),
    );
}

/// The texts for the two streams: as they are, or the whole outcome as JSON on the first, from which
/// it can be read back.
pub fn format_output(format: FormatOutput, output: &AppOutput) -> (formatted: FormattedOutput)
    ensures
        match format {
            FormatOutput::Text => formatted.stdout@ == output@.stdout && formatted.stderr@
                == output@.stderr,
            FormatOutput::Json => formatted.stdout@ == output_json(output@) && read_output(
                formatted.stdout@,
            ) == Some(output@) && formatted.stderr@.len() == 0,
        },
{
    proof {
        json_can_be_read_back(output@);
    }
    match format {
        FormatOutput::Text => FormattedOutput {
            stdout: output.stdout.clone(),
            stderr: output.stderr.clone(),
        },
        FormatOutput::Json => {
            let json = pretty_object(
                ("stdout", output.stdout.as_str()),
                ("stderr", output.stderr.as_str()),
                ("return_code", output.return_code),
            );
            FormattedOutput {
                stdout: match json {
                    Some(text) => text,
                    None => "{}".to_string(),
                },
                stderr: String::new(),
            }
        },
    }
}

/// How the program ends: a line for each stream that gets one, and the exit status.
#[derive(Clone, Debug, PartialEq, Eq)]
pub struct Report {
    pub stdout: Option<String>,
    pub stderr: Option<String>,
    pub status: u8,
}

/// A text, unless it is empty.
pub open spec fn non_empty(text: Seq<char>) -> Option<Seq<char>> {
    if text.len() == 0 {
        None
    } else {
        Some(text)
    }
}

/// A text, unless it is empty.
fn unless_empty(text: String) -> (kept: Option<String>)
    ensures
        match kept {
            Some(kept) => non_empty(text@) == Some(kept@),
            None => non_empty(text@) is None,
        },
{
    if text.as_str().is_empty() {
        None
    } else {
        Some(text)
    }
}

impl Report {
    /// What the first stream gets.
    pub open spec fn out(self) -> Option<Seq<char>> {
        match self.stdout {
            Some(text) => Some(text@),
            None => None,
        }
    }

    /// What the second stream gets.
    pub open spec fn err(self) -> Option<Seq<char>> {
        match self.stderr {
            Some(text) => Some(text@),
            None => None,
        }
    }
}

/// Ends the program: an outcome is written in the format that was asked for, its code modulo 256
/// the status; an error is written to the second stream, with status 1.
pub fn report(format: FormatOutput, result: &Result<AppOutput, AppError>) -> (report: Report)
    ensures
        match result {
            Ok(output) => {
                &&& report.status == output.return_code as int % 256
                &&& match format {
                    FormatOutput::Text => report.out() == non_empty(output@.stdout) && report.err()
                        == non_empty(output@.stderr),
                    FormatOutput::Json => report.out() == Some(output_json(output@))
                        && report.err() is None,
                }
            },
            Err(err) => {
                &&& report.status == 1
                &&& report.out() is None
                &&& report.err() == Some(err@.message())
            },
        },
{
    match result {
        Ok(output) => {
            let formatted = format_output(format, output);
            let code: i32 = output.return_code;
            let status: u8 = #[verifier::truncate]
            (code as u8);
            proof {
                assert(status == code as int % 256) by (bit_vector)
                    requires
                        status == code as u8,
                ;
            }
            Report {
                stdout: unless_empty(formatted.stdout),
                stderr: unless_empty(formatted.stderr),
                status,
            }
        },
        Err(err) => Report { stdout: None, stderr: Some(err.message()), status: 1 },
    }
}

/// An outcome that printed nothing and ended well changes nothing that it is merged with.
pub proof fn merging_nothing(output: OutputView)
    ensures
        merged(succeeded(Seq::empty()), output) == output,
        merged(output, succeeded(Seq::empty())) == output,
{
    assert(stacked(Seq::empty(), output.stdout) =~= output.stdout);
    assert(stacked(Seq::empty(), output.stderr) =~= output.stderr);
}

/// Outcomes may be merged in any grouping.
pub proof fn merging_is_associative(a: OutputView, b: OutputView, c: OutputView)
    ensures
        merged(merged(a, b), c) == merged(a, merged(b, c)),
{
    assert(stacked(stacked(a.stdout, b.stdout), c.stdout) =~= stacked(
        a.stdout,
        stacked(b.stdout, c.stdout),
    ));
    assert(stacked(stacked(a.stderr, b.stderr), c.stderr) =~= stacked(
        a.stderr,
        stacked(b.stderr, c.stderr),
    ));
}

/// A warning leaves what was printed and the code as they are, and the complaints above it.
pub proof fn warnings_keep_the_outcome(output: OutputView, warning: Seq<char>)
    ensures
        with_warning(output, warning).stdout == output.stdout,
        with_warning(output, warning).return_code == output.return_code,
        output.stderr.is_prefix_of(with_warning(output, warning).stderr),
        warning.is_suffix_of(with_warning(output, warning).stderr),
{
}

} // verus!
