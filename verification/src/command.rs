//! The programs that are run, and what comes back from them.

use vstd::prelude::*;
use vstd::utf8::{decode_utf8, encode_utf8, valid_utf8};

use crate::error::SprError;
use crate::text::{
    decimal, decode, decode_lossy, encoded_text_is_shown, shown, to_decimal, utf8_complaint,
};

verus! {

/// A program to run.
#[derive(Debug, Clone, Copy, PartialEq, Eq, Structural)]
pub enum Program {
    Jj,
    Git,
}

/// One argument of a program.
#[derive(Debug)]
pub enum Argument {
    Text(String),
    /// The path of the Git repository, whatever bytes it is made of.
    GitDir,
}

impl View for Argument {
    type V = Option<Seq<char>>;

    /// The text of the argument, none for the path of the repository.
    open spec fn view(&self) -> Option<Seq<char>> {
        match self {
            Argument::Text(text) => Some(text@),
            Argument::GitDir => None,
        }
    }
}

/// What to run, and where.
#[derive(Debug)]
pub struct CommandLine {
    pub program: Program,
    pub arguments: Vec<Argument>,
    pub directory: Option<String>,
}

impl CommandLine {
    /// The arguments of the program.
    pub open spec fn argument_texts(self) -> Seq<Option<Seq<char>>> {
        self.arguments@.map_values(|argument: Argument| argument@)
    }

    /// Whether this runs `jj` in `directory` with the arguments `texts`.
    pub open spec fn runs_jj(self, texts: Seq<Seq<char>>, directory: Seq<char>) -> bool {
        &&& self.program == Program::Jj
        &&& self.argument_texts() == texts.map_values(|text: Seq<char>| Some(text))
        &&& self.directory is Some
        &&& self.directory.unwrap()@ == directory
    }

    /// Runs `jj` in `directory`.
    pub fn jj(arguments: &[&str], directory: &str) -> (command: CommandLine)
        ensures
            command.runs_jj(arguments@.map_values(|text: &str| text@), directory@),
    {
        let mut list: Vec<Argument> = Vec::new();
        let mut i: usize = 0;
        while i < arguments.len()
            invariant
                i <= arguments@.len(),
                list@.len() == i,
                forall|k: int| 0 <= k < i ==> (#[trigger] list@[k])@ == Some(arguments@[k]@),
            decreases arguments@.len() - i,
        {
            list.push(Argument::Text(arguments[i].to_string()));
            i = i + 1;
        }
        let command = CommandLine {
            program: Program::Jj,
            arguments: list,
            directory: Some(directory.to_string()),
        };
        assert(command.argument_texts() =~= arguments@.map_values(|text: &str| text@).map_values(
            |text: Seq<char>| Some(text),
        ));
        command
    }
}

/// What came back from a program that ran to its end.
#[derive(Debug)]
pub struct CommandOutput {
    pub success: bool,
    /// The exit code, none for a program that a signal ended.
    pub code: Option<i32>,
    pub stdout: Vec<u8>,
    pub stderr: Vec<u8>,
}

/// An exit code as it is told.
pub open spec fn code_text(code: Option<i32>) -> Seq<char> {
    match code {
        Some(code) => decimal(code as int),
        None => "(unknown)"@,
    }
}

/// What is told of a `jj` that failed.
pub open spec fn exit_message(code: Option<i32>, stderr: Seq<char>) -> Seq<char> {
    "jujutsu exited with code "@ + code_text(code) + ", stderr:\n"@ + stderr
}

/// What is told of bytes that are no text: what the decoder has against them, and
/// what it was reading.
pub open spec fn not_text(bytes: Seq<u8>, context: Seq<char>) -> Seq<Seq<char>> {
    seq![utf8_complaint(bytes), context]
}

/// What a decoder gave, its complaint followed by `context`.
pub fn decoded(result: Result<String, String>, context: &str) -> (text: Result<String, SprError>)
    ensures
        match result {
            Ok(given) => text matches Ok(text) && text == given,
            Err(complaint) => text matches Err(error) && error@ == seq![complaint@, context@],
        },
{
    match result {
        Ok(text) => Ok(text),
        Err(complaint) => {
            let error = SprError::new(complaint).context(context.to_string());
            assert(error@ =~= seq![complaint@, context@]);
            Err(error)
        },
    }
}

/// The text in `bytes`, or an error that ends with `context`.
pub fn text_of(bytes: Vec<u8>, context: &str) -> (text: Result<String, SprError>)
    ensures
        match text {
            Ok(text) => valid_utf8(bytes@) && text@ == decode_utf8(bytes@),
            Err(error) => !valid_utf8(bytes@) && error@ == not_text(bytes@, context@),
        },
{
    decoded(decode(bytes), context)
}

/// What is told of a `jj` that cannot be started.
pub fn not_started(complaint: String) -> (error: SprError)
    ensures
        error@ == seq![complaint@, "jj failed to spawn"@],
{
    let error = SprError::new(complaint).context("jj failed to spawn".to_string());
    assert(error@ =~= seq![complaint@, "jj failed to spawn"@]);
    error
}

/// What is told of a `jj` that was started and cannot be waited for.
pub fn not_awaited(complaint: String) -> (error: SprError)
    ensures
        error@ == seq![complaint@, "failed to wait for jj to exit"@],
{
    let error = SprError::new(complaint).context("failed to wait for jj to exit".to_string());
    assert(error@ =~= seq![complaint@, "failed to wait for jj to exit"@]);
    error
}

impl CommandOutput {
    /// What `jj` printed, where it succeeded and printed text.
    pub open spec fn text(self) -> Option<Seq<char>> {
        if self.success && valid_utf8(self.stdout@) {
            Some(decode_utf8(self.stdout@))
        } else {
            None
        }
    }

    /// Whether `error` is what is told where there is no such text.
    pub open spec fn refused(self, error: SprError) -> bool {
        if self.success {
            error@ == not_text(self.stdout@, "jujutsu output was not valid UTF-8"@)
        } else {
            error@ == seq![exit_message(self.code, shown(self.stderr@))]
        }
    }

    /// Whether `text` is what is made of this.
    pub open spec fn captures(self, text: Result<String, SprError>) -> bool {
        match text {
            Ok(text) => self.text() == Some(text@),
            Err(error) => self.text() is None && self.refused(error),
        }
    }

    /// What `jj` printed, where it succeeded.
    pub fn captured(self) -> (text: Result<String, SprError>)
        ensures
            self.captures(text),
    {
        if self.success {
            text_of(self.stdout, "jujutsu output was not valid UTF-8")
        } else {
            let code = match self.code {
                Some(code) => to_decimal(code),
                None => "(unknown)".to_string(),
            };
            let message = "jujutsu exited with code ".to_string().concat(code.as_str()).concat(
                ", stderr:\n",
            ).concat(decode_lossy(&self.stderr).as_str());
            Err(SprError::new(message))
        }
    }
}

/// A command that runs `jj` has its arguments one by one, in their order, and the
/// directory to run in.
pub proof fn commands_that_run_jj(
    command: CommandLine,
    texts: Seq<Seq<char>>,
    directory: Seq<char>,
)
    requires
        command.runs_jj(texts, directory),
    ensures
        command.program == Program::Jj,
        command.directory matches Some(path) && path@ == directory,
        command.arguments@.len() == texts.len(),
        forall|i: int|
            #![trigger command.arguments@[i]]
            0 <= i < texts.len() ==> (command.arguments@[i] matches Argument::Text(text) && text@
                == texts[i]),
{
    let wanted = texts.map_values(|text: Seq<char>| Some(text));
    assert(wanted.len() == texts.len());
    assert(command.argument_texts().len() == command.arguments@.len());
    assert forall|i: int|
        #![trigger command.arguments@[i]]
        0 <= i < texts.len() implies (command.arguments@[i] matches Argument::Text(text) && text@
        == texts[i]) by {
        assert(command.argument_texts()[i] == wanted[i]);
        assert(command.argument_texts()[i] == command.arguments@[i]@);
    }
}

/// What a `jj` that succeeds prints is handed on as it is, to the last character.
/// There is an error where it fails, whatever it printed, with its exit code and
/// what it printed about the failure, and where it did not print text.
pub proof fn what_jj_prints_is_handed_on(
    output: CommandOutput,
    printed: Seq<char>,
    text: Result<String, SprError>,
)
    requires
        output.captures(text),
    ensures
        output.success && output.stdout@ == encode_utf8(printed) ==> (text matches Ok(text)
            && text@ == printed),
        output.success && !valid_utf8(output.stdout@) ==> (text matches Err(error) && error@
            == seq![utf8_complaint(output.stdout@), "jujutsu output was not valid UTF-8"@]),
        !output.success ==> (text matches Err(error) && error@ == seq![
            "jujutsu exited with code "@ + (if output.code is Some {
                decimal(output.code.unwrap() as int)
            } else {
                "(unknown)"@
            }) + ", stderr:\n"@ + shown(output.stderr@),
        ]),
{
    encoded_text_is_shown(printed, output.stdout@);
}

/// Whether there is text, and which, depends on the success of `jj` and on what it
/// printed alone.
pub proof fn text_depends_on_success_and_output(one: CommandOutput, other: CommandOutput)
    requires
        one.success == other.success,
        one.stdout@ == other.stdout@,
    ensures
        one.text() == other.text(),
        one.text() is Some ==> one.success && valid_utf8(one.stdout@) && one.text() == Some(
            decode_utf8(one.stdout@),
        ),
{
}

} // verus!
