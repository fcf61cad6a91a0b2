//! What the program can be asked to do.

use vstd::prelude::*;

use crate::text::texts;

verus! {

/// The settings that hold for a whole invocation.
#[derive(Clone, Debug, PartialEq, Eq)]
pub struct ExecOptions {
    pub verbose: bool,
    pub parallax_imagestore: Option<String>,
}

/// [`ExecOptions`] with its text as a sequence of characters.
pub struct OptionsView {
    pub verbose: bool,
    pub parallax_imagestore: Option<Seq<char>>,
}

impl View for ExecOptions {
    type V = OptionsView;

    open spec fn view(&self) -> OptionsView {
        OptionsView {
            verbose: self.verbose,
            parallax_imagestore: match self.parallax_imagestore {
                Some(path) => Some(path@),
                None => None,
            },
        }
    }
}

/// Quiet, with the imagestore of the configuration.
pub open spec fn default_options() -> OptionsView {
    OptionsView { verbose: false, parallax_imagestore: None }
}

impl Default for ExecOptions {
    fn default() -> (options: Self)
        ensures
            options@ == default_options(),
    {
        ExecOptions { verbose: false, parallax_imagestore: None }
    }
}

/// How the outcome of a command is written.
#[derive(Clone, Copy, Debug, PartialEq, Eq, Structural)]
pub enum FormatOutput {
    Text,
    Json,
}

/// A command with its arguments.
#[derive(Clone, Debug, PartialEq, Eq)]
pub enum CommandSpec {
    Validate { filepath: String, output: FormatOutput },
    Render { filepath: String, output: FormatOutput },
    Images,
    Pull { image: String },
    Migrate { image: String },
    Rmi { image: String },
    Run { filepath: String, container_cmd: Vec<String> },
}

/// A [`CommandSpec`] with its texts as sequences of characters.
pub enum CommandView {
    Validate { filepath: Seq<char>, output: FormatOutput },
    Render { filepath: Seq<char>, output: FormatOutput },
    Images,
    Pull { image: Seq<char> },
    Migrate { image: Seq<char> },
    Rmi { image: Seq<char> },
    Run { filepath: Seq<char>, container_cmd: Seq<Seq<char>> },
}

impl View for CommandSpec {
    type V = CommandView;

    open spec fn view(&self) -> CommandView {
        match self {
            CommandSpec::Validate { filepath, output } => CommandView::Validate {
                filepath: filepath@,
                output: *output,
            },
            CommandSpec::Render { filepath, output } => CommandView::Render {
                filepath: filepath@,
                output: *output,
            },
            CommandSpec::Images => CommandView::Images,
            CommandSpec::Pull { image } => CommandView::Pull { image: image@ },
            CommandSpec::Migrate { image } => CommandView::Migrate { image: image@ },
            CommandSpec::Rmi { image } => CommandView::Rmi { image: image@ },
            CommandSpec::Run { filepath, container_cmd } => CommandView::Run {
                filepath: filepath@,
                container_cmd: texts(container_cmd@),
            },
        }
    }
}

impl CommandSpec {
    /// The format that was asked for; only `validate` and `render` leave a choice.
    pub fn output_format(&self) -> (format: FormatOutput)
        ensures
            format == match self {
                CommandSpec::Validate { output, .. } => *output,
                CommandSpec::Render { output, .. } => *output,
                _ => FormatOutput::Text,
            },
    {
        match self {
            CommandSpec::Validate { output, .. } => *output,
            CommandSpec::Render { output, .. } => *output,
            _ => FormatOutput::Text,
        }
    }
}

} // verus!
