//! What the answers of Podman, Parallax and the hooks of the host mean.

use vstd::prelude::*;
use vstd::string::*;
use vstd::utf8::*;

use crate::error::{plain_reply, plain_result, viewed_result, AppError, ErrorView};
use crate::text::{
    chars_of, lossy_text, lossy_utf8, signed_decimal, signed_text, split_at, split_lines, text_of,
    texts, trim, trimmed, utf8_error, utf8_text,
};

verus! {

/// A complaint as it is told: decoded as far as it goes, without the white space around it.
pub open spec fn complaint(stderr: Seq<u8>) -> Seq<char> {
    trimmed(lossy_utf8(stderr))
}

/// A complaint as it is told.
fn complaint_text(stderr: &[u8]) -> (text: String)
    ensures
        text@ == complaint(stderr@),
{
    trim(lossy_text(stderr).as_str())
}

/// The graphroot that `podman info` reports.
pub open spec fn reported_graphroot(success: bool, stdout: Seq<u8>, stderr: Seq<u8>) -> Result<
    Seq<char>,
    ErrorView,
> {
    if !success {
        Err(ErrorView::PodmanInfo(complaint(stderr)))
    } else if !valid_utf8(stdout) {
        Err(ErrorView::PodmanInfo(utf8_error(stdout)))
    } else {
        Ok(trimmed(decode_utf8(stdout)))
    }
}

/// Reads the graphroot from what `podman info` printed.
pub fn graphroot_outcome(success: bool, stdout: &[u8], stderr: &[u8]) -> (graphroot: Result<
    String,
    AppError,
>)
    ensures
        viewed_result(graphroot) == reported_graphroot(success, stdout@, stderr@),
{
    if !success {
        return Err(AppError::PodmanInfo(complaint_text(stderr)));
    }
    match utf8_text(stdout) {
        Ok(text) => Ok(trim(text.as_str())),
        Err(message) => Err(AppError::PodmanInfo(message)),
    }
}

/// The outcome of pulling an image. Where Podman wrote to the terminal itself (`streamed`), its
/// complaint is not repeated.
pub open spec fn pulled(image: Seq<char>, streamed: bool, success: bool, stderr: Seq<u8>) -> Result<
    (),
    ErrorView,
> {
    if success {
        Ok(())
    } else if streamed {
        Err(ErrorView::Runtime("Failed to pull image "@ + image))
    } else {
        Err(ErrorView::Runtime("Failed to pull image "@ + image + ": "@ + complaint(stderr)))
    }
}

/// The outcome of pulling an image.
pub fn pull_outcome(image: &str, streamed: bool, success: bool, stderr: &[u8]) -> (outcome: Result<
    (),
    AppError,
>)
    ensures
        plain_result(outcome) == pulled(image@, streamed, success, stderr@),
{
    if success {
        Ok(())
    } else {
        let message = "Failed to pull image ".to_string().concat(image);
        if streamed {
            Err(AppError::Runtime(message))
        } else {
            Err(AppError::Runtime(message.concat(": ").concat(complaint_text(stderr).as_str())))
        }
    }
}

/// The outcome of an operation of Parallax on an image, of which `failure` is told where it failed.
pub open spec fn told(
    failure: Seq<char>,
    streamed: bool,
    result: Result<(), Seq<char>>,
) -> Result<(), ErrorView> {
    match result {
        Ok(()) => Ok(()),
        Err(message) => if streamed {
            Err(ErrorView::Runtime(failure))
        } else {
            Err(ErrorView::Runtime(failure + ": "@ + message))
        },
    }
}

/// The outcome of an operation of Parallax on an image.
fn tell(failure: String, streamed: bool, result: Result<(), String>) -> (outcome: Result<
    (),
    AppError,
>)
    ensures
        plain_result(outcome) == told(failure@, streamed, plain_reply(result)),
{
    match result {
        Ok(()) => Ok(()),
        Err(message) => if streamed {
            Err(AppError::Runtime(failure))
        } else {
            Err(AppError::Runtime(failure.concat(": ").concat(message.as_str())))
        },
    }
}

/// The outcome of migrating an image to the Parallax imagestore.
pub fn migrate_outcome(image: &str, streamed: bool, result: Result<(), String>) -> (outcome: Result<
    (),
    AppError,
>)
    ensures
        plain_result(outcome) == told(
            "Failed to migrate image "@ + image@,
            streamed,
            plain_reply(result),
        ),
{
    tell("Failed to migrate image ".to_string().concat(image), streamed, result)
}

/// The outcome of removing an image from the Parallax imagestore.
pub fn rmi_outcome(image: &str, streamed: bool, result: Result<(), String>) -> (outcome: Result<
    (),
    AppError,
>)
    ensures
        plain_result(outcome) == told(
            "Failed to remove image "@ + image@ + " from Parallax imagestore"@,
            streamed,
            plain_reply(result),
        ),
{
    tell(
        "Failed to remove image ".to_string().concat(image).concat(" from Parallax imagestore"),
        streamed,
        result,
    )
}

/// The outcome of asking or telling Podman something that is answered or refused with a message.
pub fn runtime_outcome<T>(result: Result<T, String>) -> (outcome: Result<T, AppError>)
    ensures
        plain_result(outcome) == match result {
            Ok(value) => Ok(value),
            Err(message) => Err(ErrorView::Runtime(message@)),
        },
{
    match result {
        Ok(value) => Ok(value),
        Err(message) => Err(AppError::Runtime(message)),
    }
}

/// What is to be done about a container that was looked for.
#[derive(Clone, Copy, Debug, PartialEq, Eq, Structural)]
pub enum ContainerCleanup {
    Done,
    Clean,
}

/// What is to be done about a container, by the answer to the question whether it exists: one that
/// is there is cleaned up, and one that is not needs nothing.
pub fn cleanup_decision(found: Result<bool, String>) -> (decision: Result<
    ContainerCleanup,
    AppError,
>)
    ensures
        plain_result(decision) == match found {
            Ok(true) => Ok(ContainerCleanup::Clean),
            Ok(false) => Ok(ContainerCleanup::Done),
            Err(message) => Err(ErrorView::Runtime(message@)),
        },
{
    match found {
        Ok(true) => Ok(ContainerCleanup::Clean),
        Ok(false) => Ok(ContainerCleanup::Done),
        Err(message) => Err(AppError::Runtime(message)),
    }
}

/// The code with which a container ended; there is none where a signal ended it.
pub fn exit_code_outcome(code: Option<i32>) -> (outcome: Result<i32, AppError>)
    ensures
        plain_result(outcome) == match code {
            Some(code) => Ok(code),
            None => Err(ErrorView::Runtime("Container process terminated by signal"@)),
        },
{
    match code {
        Some(code) => Ok(code),
        None => Err(AppError::Runtime("Container process terminated by signal".to_string())),
    }
}

/// The outcome of a command of Podman that is named by `operation`.
pub fn podman_output_result(operation: &str, success: bool, stderr: &[u8]) -> (outcome: Result<
    (),
    AppError,
>)
    ensures
        plain_result(outcome) == if success {
            Ok(())
        } else {
            Err(ErrorView::Runtime(operation@ + " failed: "@ + complaint(stderr@)))
        },
{
    if success {
        Ok(())
    } else {
        Err(
            AppError::Runtime(
                operation.to_string().concat(" failed: ").concat(complaint_text(stderr).as_str()),
            ),
        )
    }
}

/// What a hook of the host left behind; no code where a signal ended it.
#[derive(Clone, Debug, PartialEq, Eq)]
pub struct HookOutput {
    pub code: Option<i32>,
    pub stdout: Vec<u8>,
    pub stderr: Vec<u8>,
}

/// A [`HookOutput`] with its bytes as sequences.
pub struct HookView {
    pub code: Option<i32>,
    pub stdout: Seq<u8>,
    pub stderr: Seq<u8>,
}

impl View for HookOutput {
    type V = HookView;

    open spec fn view(&self) -> HookView {
        HookView { code: self.code, stdout: self.stdout@, stderr: self.stderr@ }
    }
}

/// A text without the line feed at its end.
pub open spec fn without_line_feed(text: Seq<char>) -> Seq<char> {
    if text.len() > 0 && text.last() == '\n' {
        text.drop_last()
    } else {
        text
    }
}

/// The lines that are shown of what a hook wrote to a stream: none where it wrote nothing, or what
/// is not UTF-8.
pub open spec fn shown_lines(bytes: Seq<u8>) -> Seq<Seq<char>> {
    let text = if valid_utf8(bytes) {
        without_line_feed(decode_utf8(bytes))
    } else {
        Seq::empty()
    };
    if text.len() == 0 {
        Seq::empty()
    } else {
        split_at(text, '\n')
    }
}

/// All lines that are shown of a hook: its complaints, then its other output.
pub open spec fn hook_lines(output: HookView) -> Seq<Seq<char>> {
    shown_lines(output.stderr) + shown_lines(output.stdout)
}

/// Whether a hook succeeded.
pub open spec fn hook_result(output: HookView, prefix: Seq<char>) -> Result<(), ErrorView> {
    match output.code {
        None => Err(ErrorView::Io(prefix + " exited by signal"@)),
        Some(code) => if code == 0 {
            Ok(())
        } else {
            Err(ErrorView::Io(prefix + " exit code: "@ + signed_decimal(code as int)))
        },
    }
}

/// The lines that are shown of what a hook wrote to a stream.
fn stream_lines(bytes: &[u8]) -> (lines: Vec<String>)
    ensures
        texts(lines@) == shown_lines(bytes@),
{
    let none: Vec<String> = Vec::new();
    proof {
        assert(texts(none@) =~= Seq::empty());
    }
    match utf8_text(bytes) {
        Ok(text) => {
            let chars = chars_of(text.as_str());
            let mut len: usize = chars.len();
            if len > 0 && chars[len - 1] == '\n' {
                len = len - 1;
            }
            proof {
                assert(chars@.subrange(0, len as int) =~= without_line_feed(text@));
            }
            if len == 0 {
                none
            } else {
                split_lines(text_of(&chars, 0, len).as_str())
            }
        },
        Err(_) => none,
    }
}

/// What is shown of a hook, and whether it succeeded.
pub fn log_hook_ec(output: &HookOutput, prefix: &str) -> (shown: (Vec<String>, Result<(), AppError>))
    ensures
        texts(shown.0@) == hook_lines(output@),
        plain_result(shown.1) == hook_result(output@, prefix@),
{
    let mut lines = stream_lines(output.stderr.as_slice());
    let mut other = stream_lines(output.stdout.as_slice());
    proof {
        assert(texts(lines@ + other@) =~= texts(lines@) + texts(other@));
    }
    lines.append(&mut other);
    let result = match output.code {
        None => Err(AppError::Io(prefix.to_string().concat(" exited by signal"))),
        Some(code) => if code == 0 {
            Ok(())
        } else {
            Err(
                AppError::Io(
                    prefix.to_string().concat(" exit code: ").concat(signed_text(code).as_str()),
                ),
            )
        },
    };
    (lines, result)
}

} // verus!
