//! The Jujutsu workspace and the Git repository behind it.

use vstd::prelude::*;
use vstd::utf8::{decode_utf8, encode_utf8, valid_utf8};

use crate::command::{not_text, text_of, Argument, CommandLine, CommandOutput, Program};
use crate::error::SprError;
use crate::message::{MessageSection, MessageSectionsMap};
use crate::oid::{
    hex_digit, hex_text, id_complaint, named_id, named_ids_start_with_the_text, names_object,
    reading_a_written_id, Oid,
};
use crate::text::{
    blank_texts_are_white_space, contains, decode_lossy, encoded_text_is_shown, lemma_trimmed,
    lemma_trimmed_line, lossy_text, occurs, parts_of_a_text, shown, texts, trim, trimmed, utf8_complaint,
    white_space,
};

verus! {

/// The name of the `jj` program where no other is configured.
pub const DEFAULT_JJ_BIN: &'static str = "jj";

/// What would be done for a commit, were this not a dry run.
#[derive(Debug, Clone)]
pub enum DryRunAction {
    Create {
        base: String,
        head: String,
        is_stacked: bool,
        draft: bool,
        reviewers: Vec<String>,
    },
    Update { pr_number: u64, base: String, head: String, is_stacked: bool },
}

/// A commit with what its message says.
#[derive(Debug)]
pub struct PreparedCommit {
    pub oid: Oid,
    pub short_id: String,
    pub parent_oid: Oid,
    pub message: MessageSectionsMap,
    pub pull_request_number: Option<u64>,
    pub message_changed: bool,
    pub dry_run_action: Option<DryRunAction>,
}

/// What was found of a commit.
#[derive(Debug)]
pub struct Found {
    /// Its first parent, where it has parents.
    pub first_parent: Option<Oid>,
    /// The sections of its message.
    pub message: MessageSectionsMap,
    /// The number that the pull request section was read as.
    pub number_in_field: Option<u64>,
}

impl PreparedCommit {
    /// Whether this is the commit `oid`, prepared from what was `found` of it.
    pub open spec fn prepared_from(self, oid: Oid, found: Found) -> bool {
        &&& self.oid == oid
        &&& self.short_id@ == hex_text(oid@).take(7)
        &&& self.parent_oid == (match found.first_parent {
            Some(parent) => parent,
            None => oid,
        })
        &&& self.message == found.message
        &&& self.pull_request_number == (if found.message.section(MessageSection::PullRequest)
            is Some {
            found.number_in_field
        } else {
            None
        })
        &&& !self.message_changed
        &&& self.dry_run_action is None
    }
}

/// Prepares the commit `oid`. A commit without parents counts as its own
/// parent.
pub fn prepare_commit(oid: Oid, found: Found) -> (commit: PreparedCommit)
    ensures
        commit.prepared_from(oid, found),
        found.first_parent matches Some(parent) ==> commit.parent_oid == parent,
        found.first_parent is None ==> commit.parent_oid == oid,
{
    let pull_request_number = match found.message.get(MessageSection::PullRequest) {
        Some(_) => found.number_in_field,
        None => None,
    };
    PreparedCommit {
        oid,
        short_id: oid.short_id(),
        parent_oid: match found.first_parent {
            Some(parent) => parent,
            None => oid,
        },
        message: found.message,
        pull_request_number,
        message_changed: false,
        dry_run_action: None,
    }
}

/// The parent of a prepared commit is its first parent, and the commit itself
/// where it has none, whatever its message says.
pub proof fn parent_of_a_prepared_commit(commit: PreparedCommit, oid: Oid, found: Found)
    requires
        commit.prepared_from(oid, found),
    ensures
        forall|parent: Oid| found.first_parent == Some(parent) ==> commit.parent_oid == parent,
        found.first_parent is None ==> commit.parent_oid == oid,
{
}

/// A prepared commit has a pull request where its message has a section for one
/// and that section holds a number, and the number is that one.
pub proof fn pull_request_of_a_prepared_commit(commit: PreparedCommit, oid: Oid, found: Found)
    requires
        commit.prepared_from(oid, found),
    ensures
        forall|number: u64|
            commit.pull_request_number == Some(number) <==> found.message.pull_request is Some
                && found.number_in_field == Some(number),
{
}

/// A prepared commit is the one that was asked for, under an id whose first seven
/// digits are the short one, with its message as it was found. Nothing about it
/// has changed, and nothing is planned for it.
pub proof fn prepared_commit_is_as_found(commit: PreparedCommit, oid: Oid, found: Found)
    requires
        commit.prepared_from(oid, found),
    ensures
        commit.oid == oid,
        commit.short_id@.len() == 7,
        commit.short_id@.is_prefix_of(hex_text(oid@)),
        commit.message == found.message,
        !commit.message_changed,
        commit.dry_run_action is None,
{
    assert(oid@.len() == 20);
    assert(commit.short_id@ =~= hex_text(oid@).subrange(0, 7));
}

/// What a message says has no part in which commit is prepared and which parent it
/// has. The parent has no part in anything else.
pub proof fn message_and_parent_are_apart(
    one: PreparedCommit,
    other: PreparedCommit,
    oid: Oid,
    found: Found,
    found_otherwise: Found,
)
    requires
        one.prepared_from(oid, found),
        other.prepared_from(oid, found_otherwise),
    ensures
        found.first_parent == found_otherwise.first_parent ==> one.parent_oid == other.parent_oid,
        found.message == found_otherwise.message && found.number_in_field
            == found_otherwise.number_in_field ==> one.message == other.message
            && one.pull_request_number == other.pull_request_number,
        one.short_id@ == other.short_id@,
{
}

/// The one commit that was asked for, which is to be prepared.
#[derive(Debug)]
pub struct PendingRevision {
    pub oid: Oid,
}

impl PendingRevision {
    /// Prepares the commit.
    pub fn prepared(self, found: Found) -> (commit: PreparedCommit)
        ensures
            commit.prepared_from(self.oid, found),
    {
        prepare_commit(self.oid, found)
    }
}

/// Whether the sections of `message` are to be read from `text`.
pub open spec fn is_read_from(message: Option<String>, text: Seq<char>) -> bool {
    text == (match message {
        Some(message) => message@,
        None => Seq::<char>::empty(),
    })
}

/// A message is read to the last character, and one that is no text is read as an
/// empty one.
pub proof fn messages_are_read_as_they_are(message: Option<String>, text: Seq<char>)
    requires
        is_read_from(message, text),
    ensures
        message is None ==> text.len() == 0,
        message matches Some(message) ==> text == message@,
{
}

/// The text to read the sections of a message from: that of the commit, and
/// nothing where the commit has no text.
pub fn message_text(message: Option<String>) -> (text: String)
    ensures
        is_read_from(message, text@),
{
    match message {
        Some(message) => message,
        None => String::new(),
    }
}

/// The program to run for `jj`.
#[derive(Debug)]
pub enum JjBin<T> {
    /// The one that is configured.
    Configured(T),
    /// The one with this name.
    Named(String),
}

/// Whether `bin` is the program to run where `configured` is.
pub open spec fn runs_as<T>(configured: Option<T>, bin: JjBin<T>) -> bool {
    match configured {
        Some(path) => bin == JjBin::Configured(path),
        None => bin matches JjBin::Named(name) && name@ == "jj"@,
    }
}

/// The program that is configured is run, whatever it is, and `jj` only where none
/// is.
pub proof fn configured_program_is_run<T>(configured: Option<T>, path: T, bin: JjBin<T>)
    requires
        runs_as(configured, bin),
    ensures
        bin == JjBin::Configured(path) <==> configured == Some(path),
        bin matches JjBin::Named(name) ==> configured is None && name@ == "jj"@,
        DEFAULT_JJ_BIN@ == "jj"@,
{
}

/// The program to run for `jj`: the one that is configured, if one is, and `jj`
/// otherwise.
pub fn get_jj_bin<T>(configured: Option<T>) -> (bin: JjBin<T>)
    ensures
        runs_as(configured, bin),
{
    match configured {
        Some(path) => JjBin::Configured(path),
        None => JjBin::Named(DEFAULT_JJ_BIN.to_string()),
    }
}

/// What is told where there is no workspace.
pub open spec fn no_workspace() -> Seq<char> {
    "This command requires a Jujutsu repository. Could not find a Jujutsu workspace in the current directory."@
}

/// The root of the workspace, where `jj root` found one and printed text.
pub open spec fn root_printed(output: CommandOutput) -> Option<Seq<char>> {
    if output.success && valid_utf8(output.stdout@) {
        Some(trimmed(decode_utf8(output.stdout@)))
    } else {
        None
    }
}

/// Whether `error` is what is told where there is no such root.
pub open spec fn root_refused(output: CommandOutput, error: SprError) -> bool {
    if output.success {
        error@ == not_text(output.stdout@, "jj root output was not valid UTF-8"@)
    } else {
        error@ == seq![no_workspace()]
    }
}

/// Whether `command` asks for the root of a workspace.
pub open spec fn asks_for_root(command: CommandLine) -> bool {
    &&& command.program == Program::Jj
    &&& command.argument_texts() == seq![Some("root"@)]
    &&& command.directory is None
}

/// Whether `command` is Git on the repository behind a workspace.
pub open spec fn runs_git(command: CommandLine) -> bool {
    &&& command.program == Program::Git
    &&& command.argument_texts() == seq![Some("--git-dir"@), None]
    &&& command.directory is None
}

/// The root is asked for in the directory that the program is run in, with nothing
/// else, and Git is run on the path of the repository.
pub proof fn commands_without_a_directory(command: CommandLine)
    ensures
        asks_for_root(command) ==> {
            &&& command.program == Program::Jj
            &&& command.arguments@.len() == 1
            &&& command.arguments@[0] matches Argument::Text(text) && text@ == "root"@
            &&& command.directory is None
        },
        runs_git(command) ==> {
            &&& command.program == Program::Git
            &&& command.arguments@.len() == 2
            &&& command.arguments@[0] matches Argument::Text(text) && text@ == "--git-dir"@
            &&& command.arguments@[1] is GitDir
            &&& command.directory is None
        },
{
    let texts = command.argument_texts();
    assert(texts.len() == command.arguments@.len());
    if asks_for_root(command) {
        assert(texts[0] == command.arguments@[0]@);
    }
    if runs_git(command) {
        assert(texts[0] == command.arguments@[0]@);
        assert(texts[1] == command.arguments@[1]@);
    }
}

/// Asks for the root of the workspace that the directory it is run in belongs
/// to.
pub fn root_command() -> (command: CommandLine)
    ensures
        asks_for_root(command),
{
    let mut arguments: Vec<Argument> = Vec::new();
    arguments.push(Argument::Text("root".to_string()));
    let command = CommandLine { program: Program::Jj, arguments, directory: None };
    assert(command.argument_texts() =~= seq![Some("root"@)]);
    command
}

/// The root of the workspace, from what `root_command` gave.
pub fn discover_workspace_root(output: CommandOutput) -> (root: Result<String, SprError>)
    ensures
        match root {
            Ok(root) => root_printed(output) == Some(root@),
            Err(error) => root_printed(output) is None && root_refused(output, error),
        },
{
    if output.success {
        match text_of(output.stdout, "jj root output was not valid UTF-8") {
            Ok(text) => Ok(trim(text.as_str()).to_string()),
            Err(error) => Err(error),
        }
    } else {
        Err(
            SprError::new(
                "This command requires a Jujutsu repository. Could not find a Jujutsu workspace in the current directory.".to_string(),
            ),
        )
    }
}

/// What is told of a commit id that cannot be read from what `jj` printed.
pub open spec fn unreadable_revision(id: Seq<char>, complaint: Seq<char>) -> Seq<char> {
    "Failed to parse commit ID '"@ + id + "' from jj output: "@ + complaint
}

/// What is told of a line of a range that is no commit id.
pub open spec fn unreadable_line(line: Seq<char>, complaint: Seq<char>) -> Seq<char> {
    "Failed to parse commit ID '"@ + line + "': "@ + complaint
}

/// The id that a revision was resolved to, from what was made of the text `id`.
pub fn revision_id(id: &str, parsed: Result<Oid, String>) -> (oid: Result<Oid, SprError>)
    ensures
        match parsed {
            Ok(given) => oid matches Ok(oid) && oid == given,
            Err(complaint) => oid matches Err(error) && error@ == seq![
                unreadable_revision(id@, complaint@),
            ],
        },
{
    match parsed {
        Ok(oid) => Ok(oid),
        Err(complaint) => Err(
            SprError::new(
                "Failed to parse commit ID '".to_string().concat(id).concat(
                    "' from jj output: ",
                ).concat(complaint.as_str()),
            ),
        ),
    }
}

/// The id of a commit in a range, from what was made of its line.
pub fn line_id(line: &str, parsed: Result<Oid, String>) -> (oid: Result<Oid, SprError>)
    ensures
        match parsed {
            Ok(given) => oid matches Ok(oid) && oid == given,
            Err(complaint) => oid matches Err(error) && error@ == seq![
                unreadable_line(line@, complaint@),
            ],
        },
{
    match parsed {
        Ok(oid) => Ok(oid),
        Err(complaint) => Err(
            SprError::new(
                "Failed to parse commit ID '".to_string().concat(line).concat("': ").concat(
                    complaint.as_str(),
                ),
            ),
        ),
    }
}

/// The arguments of a `jj log` that prints `template` for each of `revisions`.
pub open spec fn log_arguments(revisions: Seq<char>, template: Seq<char>) -> Seq<Seq<char>> {
    seq!["log"@, "--no-graph"@, "-r"@, revisions, "--template"@, template]
}

/// Whether `command` asks for the id of the commit that `revision` names.
pub open spec fn asks_for_revision(
    command: CommandLine,
    revision: Seq<char>,
    directory: Seq<char>,
) -> bool {
    command.runs_jj(log_arguments(revision, "commit_id"@), directory)
}

/// Whether `command` asks for the ids of the commits from one revision to another.
pub open spec fn asks_for_range(
    command: CommandLine,
    from_revision: Seq<char>,
    to_revision: Seq<char>,
    is_inclusive: bool,
    directory: Seq<char>,
) -> bool {
    command.runs_jj(
        log_arguments(
            revisions_between(from_revision, to_revision, is_inclusive),
            "commit_id ++ \"\\n\""@,
        ),
        directory,
    )
}

/// Whether `command` asks for the change that the commit `oid` belongs to.
pub open spec fn asks_for_change(
    command: CommandLine,
    oid: Seq<u8>,
    directory: Seq<char>,
) -> bool {
    command.runs_jj(log_arguments(hex_text(oid), "change_id"@), directory)
}

/// Whether `command` asks whether the working copy has changes.
pub open spec fn asks_for_status(command: CommandLine, directory: Seq<char>) -> bool {
    command.runs_jj(seq!["status"@], directory)
}

/// What is asked about a revision, a range, a commit or the working copy: `jj` runs
/// in the root of the workspace, prints no graph, and is asked for exactly the
/// revisions that are meant and for the one thing that is read.
pub proof fn what_jj_is_asked(
    command: CommandLine,
    revision: Seq<char>,
    from_revision: Seq<char>,
    to_revision: Seq<char>,
    oid: Seq<u8>,
    directory: Seq<char>,
)
    ensures
        asks_for_revision(command, revision, directory) <==> command.runs_jj(
            seq!["log"@, "--no-graph"@, "-r"@, revision, "--template"@, "commit_id"@],
            directory,
        ),
        asks_for_range(command, from_revision, to_revision, true, directory) <==> command.runs_jj(
            seq![
                "log"@,
                "--no-graph"@,
                "-r"@,
                from_revision + "::"@ + to_revision,
                "--template"@,
                "commit_id ++ \"\\n\""@,
            ],
            directory,
        ),
        asks_for_range(command, from_revision, to_revision, false, directory) <==> command.runs_jj(
            seq![
                "log"@,
                "--no-graph"@,
                "-r"@,
                from_revision + ".."@ + to_revision,
                "--template"@,
                "commit_id ++ \"\\n\""@,
            ],
            directory,
        ),
        asks_for_change(command, oid, directory) <==> command.runs_jj(
            seq!["log"@, "--no-graph"@, "-r"@, hex_text(oid), "--template"@, "change_id"@],
            directory,
        ),
        asks_for_status(command, directory) <==> command.runs_jj(seq!["status"@], directory),
{
}

/// The revisions from one to another, with or without the first.
pub open spec fn revisions_between(
    from_revision: Seq<char>,
    to_revision: Seq<char>,
    is_inclusive: bool,
) -> Seq<char> {
    from_revision + (if is_inclusive {
        "::"@
    } else {
        ".."@
    }) + to_revision
}

/// What is told of changes that no commit holds.
pub open spec fn uncommitted(status: Seq<char>) -> Seq<char> {
    "You have uncommitted changes:\n"@ + status
}

/// Whether the working copy has no changes, by what `jj status` printed.
pub open spec fn clean(status: Seq<char>) -> bool {
    ||| trimmed(status).len() == 0
    ||| occurs(status, "No changes."@)
    ||| occurs(status, "The working copy has no changes"@)
}

/// The names among the entries of a list of references. A reference whose name
/// is no text has none.
pub open spec fn names_among(entries: Seq<Result<Option<String>, String>>) -> Set<Seq<char>> {
    Set::new(
        |name: Seq<char>|
            exists|i: int| 0 <= i < entries.len() && #[trigger] names(entries[i], name),
    )
}

/// Whether an entry of a list of references has the name `name`.
pub open spec fn names(entry: Result<Option<String>, String>, name: Seq<char>) -> bool {
    entry matches Ok(Some(text)) && text@ == name
}

/// What is told of a reference that points at nothing.
pub open spec fn no_target(ref_name: Seq<char>) -> Seq<char> {
    "Reference "@ + ref_name + " has no target"@
}

/// Who made a commit, as the commit holds it.
#[derive(Debug)]
pub struct Person {
    pub name: Vec<u8>,
    pub email: Vec<u8>,
}

/// A time, in seconds since the beginning of 1970, and how far the clock on the
/// wall is ahead of UTC.
#[derive(Debug, Clone, Copy, PartialEq, Eq, Structural)]
pub struct Time {
    pub seconds: i64,
    pub offset_minutes: i32,
}

/// Who a new commit is signed by, and when.
#[derive(Debug)]
pub struct Signer {
    pub name: String,
    pub email: String,
    pub when: Time,
}

impl Signer {
    /// Whether this is `person`, in text.
    pub open spec fn stands_for(self, person: Person) -> bool {
        self.name@ == shown(person.name@) && self.email@ == shown(person.email@)
    }

    fn of(person: &Person, when: Time) -> (signer: Signer)
        ensures
            signer.stands_for(*person),
            signer.when == when,
    {
        Signer { name: decode_lossy(&person.name), email: decode_lossy(&person.email), when }
    }
}

/// A commit to be made.
#[derive(Debug)]
pub struct DerivedCommit {
    /// The reference to move to it, if one is to be moved.
    pub reference: Option<String>,
    pub author: Signer,
    pub committer: Signer,
    pub message: String,
    pub tree: Oid,
    pub parents: Vec<Oid>,
}

/// The tree that a commit is compared with to find what it changes.
#[derive(Debug, Clone, Copy, PartialEq, Eq, Structural)]
pub enum BaseTree {
    FirstParent,
    Empty,
}

/// A commit to be applied onto another.
#[derive(Debug)]
pub struct CherryPick {
    pub commit: Oid,
    pub onto: Oid,
    pub base: BaseTree,
    /// The parent to follow in a merge, where one is to be followed.
    pub mainline: u32,
}

/// Whether `text` is one of `list`.
fn lists(list: &Vec<String>, text: &String) -> (found: bool)
    ensures
        found == texts(list@).contains(text@),
{
    let mut i: usize = 0;
    while i < list.len()
        invariant
            i <= list@.len(),
            forall|k: int| 0 <= k < i ==> (#[trigger] list@[k])@ != text@,
        decreases list@.len() - i,
    {
        if list[i] == *text {
            assert(texts(list@)[i as int] == text@);
            return true;
        }
        i = i + 1;
    }
    assert forall|k: int| 0 <= k < texts(list@).len() implies #[trigger] texts(list@)[k]
        != text@ by {
        assert(list@[k]@ != text@);
    }
    false
}

/// Whether `oid` is what a revision is resolved to when `asks_for_revision` gives
/// `output`.
pub open spec fn resolves(output: CommandOutput, oid: Result<Oid, SprError>) -> bool {
    match (output.text(), oid) {
        (Some(text), Ok(oid)) => names_object(trimmed(text)) && oid@ == named_id(trimmed(text)),
        (Some(text), Err(error)) => !names_object(trimmed(text)) && error@ == seq![
            unreadable_revision(trimmed(text), id_complaint(trimmed(text))),
        ],
        (None, Ok(_)) => false,
        (None, Err(error)) => output.refused(error),
    }
}

/// A revision is resolved to the commit whose id `jj` prints, with or without a
/// line feed behind it.
pub proof fn revision_is_the_commit_that_is_printed(
    output: CommandOutput,
    printed: Oid,
    oid: Result<Oid, SprError>,
)
    requires
        output.success,
        output.stdout@ == encode_utf8(hex_text(printed@)) || output.stdout@ == encode_utf8(
            hex_text(printed@).push('\n'),
        ),
        resolves(output, oid),
    ensures
        oid matches Ok(oid) && oid@ == printed@,
{
    let id = hex_text(printed@);
    encoded_text_is_shown(id, output.stdout@);
    encoded_text_is_shown(id.push('\n'), output.stdout@);
    assert(printed@.len() == 20);
    assert forall|v: int| 0 <= v < 16 implies !white_space(#[trigger] hex_digit(v)) by {}
    lemma_trimmed(id, 0, 40);
    assert(id.subrange(0, 40) =~= id);
    lemma_trimmed_line(id);
    reading_a_written_id(printed);
}

/// A revision is not resolved where `jj` fails, and where what it prints is not one
/// to forty hexadecimal digits: that is told, with what it printed.
pub proof fn revisions_that_are_not_resolved(
    output: CommandOutput,
    printed: Seq<char>,
    oid: Result<Oid, SprError>,
)
    requires
        resolves(output, oid),
    ensures
        !output.success ==> oid is Err,
        output.success && output.stdout@ == encode_utf8(printed) ==> {
            &&& oid is Ok <==> 1 <= trimmed(printed).len() <= 40 && trimmed(printed).all(
                |c: char| '0' <= c <= '9' || 'a' <= c <= 'f' || 'A' <= c <= 'F',
            )
            &&& oid matches Err(error) ==> error@ == seq![
                "Failed to parse commit ID '"@ + trimmed(printed) + "' from jj output: "@
                    + id_complaint(trimmed(printed)),
            ]
        },
{
    encoded_text_is_shown(printed, output.stdout@);
    named_ids_start_with_the_text(trimmed(printed));
}

/// Whether `id` is the change that a commit belongs to when `asks_for_change` gives
/// `output`.
pub open spec fn tells_change(output: CommandOutput, id: Result<String, SprError>) -> bool {
    match (output.text(), id) {
        (Some(text), Ok(id)) => id@ == trimmed(text),
        (None, Err(error)) => output.refused(error),
        _ => false,
    }
}

/// The change is what `jj` prints, without the line feed, whatever it is made of;
/// there is none only where `jj` fails or prints no text.
pub proof fn change_is_what_is_printed(
    output: CommandOutput,
    change: Seq<char>,
    id: Result<String, SprError>,
)
    requires
        tells_change(output, id),
    ensures
        id is Ok <==> output.success && valid_utf8(output.stdout@),
        output.success && trimmed(change) == change && (output.stdout@ == encode_utf8(change)
            || output.stdout@ == encode_utf8(change.push('\n'))) ==> (id matches Ok(id) && id@
            == change),
{
    encoded_text_is_shown(change, output.stdout@);
    encoded_text_is_shown(change.push('\n'), output.stdout@);
    lemma_trimmed_line(change);
}

/// Whether `check` is what is made of the status that `output` is.
pub open spec fn checks(output: CommandOutput, check: Result<(), SprError>) -> bool {
    match (output.text(), check) {
        (Some(status), Ok(_)) => clean(status),
        (Some(status), Err(error)) => !clean(status) && error@ == seq![uncommitted(status)],
        (None, Ok(_)) => false,
        (None, Err(error)) => output.refused(error),
    }
}

/// A working copy is let through where its status is blank or says, anywhere in it,
/// `No changes.` or `The working copy has no changes`, and in no other case. Any
/// other status is told.
pub proof fn changes_are_noticed(
    output: CommandOutput,
    status: Seq<char>,
    check: Result<(), SprError>,
)
    requires
        output.success,
        output.stdout@ == encode_utf8(status),
        checks(output, check),
    ensures
        check is Ok <==> {
            ||| forall|i: int| 0 <= i < status.len() ==> white_space(#[trigger] status[i])
            ||| exists|before: Seq<char>, after: Seq<char>|
                status == #[trigger] (before + "No changes."@ + after)
            ||| exists|before: Seq<char>, after: Seq<char>|
                status == #[trigger] (before + "The working copy has no changes"@ + after)
        },
        check matches Err(error) ==> error@ == seq!["You have uncommitted changes:\n"@ + status],
{
    encoded_text_is_shown(status, output.stdout@);
    blank_texts_are_white_space(status);
    parts_of_a_text(status, "No changes."@);
    parts_of_a_text(status, "The working copy has no changes"@);
}

/// A working copy is never let through where `jj status` fails.
pub proof fn failed_status_is_an_error(output: CommandOutput, check: Result<(), SprError>)
    requires
        !output.success,
        checks(output, check),
    ensures
        check is Err,
{
}

/// Whether `found` are the names among the entries of a list of references, or the
/// complaint about one that cannot be read.
pub open spec fn lists_names(
    entries: Seq<Result<Option<String>, String>>,
    found: Result<Vec<String>, SprError>,
) -> bool {
    match found {
        Ok(found) => {
            &&& forall|i: int| 0 <= i < entries.len() ==> (#[trigger] entries[i]) is Ok
            &&& texts(found@).no_duplicates()
            &&& texts(found@).to_set() == names_among(entries)
        },
        Err(error) => exists|i: int|
            {
                &&& 0 <= i < entries.len()
                &&& #[trigger] entries[i] is Err
                &&& error@ == seq![entries[i]->Err_0@]
                &&& forall|k: int| 0 <= k < i ==> (#[trigger] entries[k]) is Ok
            },
    }
}

/// The names of references are complete and hold nothing else: every reference
/// whose name is text is among them, each of them is the name of a reference, and
/// none is there twice.
pub proof fn every_reference_is_named_once(
    entries: Seq<Result<Option<String>, String>>,
    found: Vec<String>,
)
    requires
        lists_names(entries, Ok(found)),
    ensures
        forall|name: Seq<char>| #[trigger]
            texts(found@).contains(name) <==> exists|i: int|
                0 <= i < entries.len() && (#[trigger] entries[i]) is Ok && entries[i]->Ok_0 is Some
                    && entries[i]->Ok_0.unwrap()@ == name,
        forall|k: int, l: int|
            0 <= k < l < found@.len() ==> (#[trigger] found@[k])@ != (#[trigger] found@[l])@,
{
    let listed = texts(found@);
    assert forall|name: Seq<char>| #[trigger]
        listed.contains(name) <==> exists|i: int|
            0 <= i < entries.len() && (#[trigger] entries[i]) is Ok && entries[i]->Ok_0 is Some
                && entries[i]->Ok_0.unwrap()@ == name by {
        assert(listed.contains(name) == listed.to_set().contains(name));
        assert(listed.to_set().contains(name) == names_among(entries).contains(name));
        if names_among(entries).contains(name) {
            let i = choose|i: int| 0 <= i < entries.len() && #[trigger] names(entries[i], name);
            assert(entries[i] is Ok);
        }
        if exists|i: int|
            0 <= i < entries.len() && (#[trigger] entries[i]) is Ok && entries[i]->Ok_0 is Some
                && entries[i]->Ok_0.unwrap()@ == name {
            let i = choose|i: int|
                0 <= i < entries.len() && (#[trigger] entries[i]) is Ok && entries[i]->Ok_0 is Some
                    && entries[i]->Ok_0.unwrap()@ == name;
            assert(names(entries[i], name));
        }
    }
    assert forall|k: int, l: int| 0 <= k < l < found@.len() implies (#[trigger] found@[k])@ != (
    #[trigger] found@[l])@ by {
        assert(listed[k] == found@[k]@ && listed[l] == found@[l]@);
    }
}

/// A reference that cannot be read is told, the first one where there are several;
/// without one there are names.
pub proof fn first_unreadable_reference_is_told(
    entries: Seq<Result<Option<String>, String>>,
    found: Result<Vec<String>, SprError>,
    first: int,
)
    requires
        lists_names(entries, found),
        0 <= first <= entries.len(),
        forall|k: int| 0 <= k < first ==> (#[trigger] entries[k]) is Ok,
        first < entries.len() ==> entries[first] is Err,
    ensures
        found is Ok <==> first == entries.len(),
        found matches Err(error) ==> error@ == seq![entries[first]->Err_0@],
{
    if first < entries.len() {
        assert(entries[first] is Err);
    }
    if let Err(error) = found {
        let i = choose|i: int|
            {
                &&& 0 <= i < entries.len()
                &&& #[trigger] entries[i] is Err
                &&& error@ == seq![entries[i]->Err_0@]
                &&& forall|k: int| 0 <= k < i ==> (#[trigger] entries[k]) is Ok
            };
        if i < first {
            assert(entries[i] is Ok);
        }
        if first < i {
            assert(entries[first] is Ok);
        }
    }
}

/// Whether `oid` is what the reference `ref_name` with the target `target` is
/// resolved to.
pub open spec fn points_at(
    ref_name: Seq<char>,
    target: Option<Oid>,
    oid: Result<Oid, SprError>,
) -> bool {
    match target {
        Some(target) => oid matches Ok(oid) && oid == target,
        None => oid matches Err(error) && error@ == seq![no_target(ref_name)],
    }
}

/// Whether `pair` are the commits whose merge base is where `commit_oid` leaves the
/// branch that `master_ref` with the target `target` is.
pub open spec fn leaves(
    commit_oid: Oid,
    master_ref: Seq<char>,
    target: Option<Oid>,
    pair: Result<(Oid, Oid), SprError>,
) -> bool {
    match target {
        Some(master) => pair matches Ok(pair) && pair == (commit_oid, master),
        None => pair matches Err(error) && error@ == seq![no_target(master_ref)],
    }
}

/// A reference is resolved to its target, whatever its name, and the merge base is
/// that of the commit and of the target of the master branch. A reference without a
/// target is told by its name.
pub proof fn references_are_their_targets(
    ref_name: Seq<char>,
    commit_oid: Oid,
    target: Oid,
    oid: Result<Oid, SprError>,
    pair: Result<(Oid, Oid), SprError>,
)
    ensures
        points_at(ref_name, Some(target), oid) ==> oid == Ok::<Oid, SprError>(target),
        leaves(commit_oid, ref_name, Some(target), pair) ==> pair == Ok::<(Oid, Oid), SprError>(
            (commit_oid, target),
        ),
        points_at(ref_name, None, oid) ==> (oid matches Err(error) && error@ == seq![
            "Reference "@ + ref_name + " has no target"@,
        ]),
        leaves(commit_oid, ref_name, None, pair) ==> (pair matches Err(error) && error@ == seq![
            "Reference "@ + ref_name + " has no target"@,
        ]),
{
}

impl DerivedCommit {
    /// Whether this is to be made `now`, by the people who made another commit.
    pub open spec fn derives(
        self,
        author: Person,
        committer: Person,
        now: Time,
        message: Seq<char>,
        tree_oid: Oid,
        parent_oids: Seq<Oid>,
    ) -> bool {
        &&& self.reference is None
        &&& self.author.stands_for(author)
        &&& self.author.when == now
        &&& self.committer.stands_for(committer)
        &&& self.committer.when == now
        &&& self.message@ == message
        &&& self.tree == tree_oid
        &&& self.parents@ == parent_oids
    }
}

/// A derived commit has the author and the committer of the other one, each under
/// the name and the address that the bytes of the other commit encode, and both
/// signed at the time of now. It has the message, the tree and the parents, in
/// their order, that were given, and moves no reference.
pub proof fn derived_commit_keeps_the_people(
    commit: DerivedCommit,
    author: Person,
    committer: Person,
    now: Time,
    message: Seq<char>,
    tree_oid: Oid,
    parent_oids: Seq<Oid>,
    name: Seq<char>,
)
    requires
        commit.derives(author, committer, now, message, tree_oid, parent_oids),
    ensures
        author.name@ == encode_utf8(name) ==> commit.author.name@ == name,
        author.email@ == encode_utf8(name) ==> commit.author.email@ == name,
        committer.name@ == encode_utf8(name) ==> commit.committer.name@ == name,
        committer.email@ == encode_utf8(name) ==> commit.committer.email@ == name,
        !valid_utf8(author.name@) ==> commit.author.name@ == lossy_text(author.name@),
        !valid_utf8(author.email@) ==> commit.author.email@ == lossy_text(author.email@),
        !valid_utf8(committer.name@) ==> commit.committer.name@ == lossy_text(committer.name@),
        !valid_utf8(committer.email@) ==> commit.committer.email@ == lossy_text(committer.email@),
        commit.author.when == now && commit.committer.when == now,
        commit.message@ == message,
        commit.tree == tree_oid,
        commit.parents@.len() == parent_oids.len(),
        forall|i: int| 0 <= i < parent_oids.len() ==> commit.parents@[i] == parent_oids[i],
        commit.reference is None,
{
    encoded_text_is_shown(name, author.name@);
}

impl CherryPick {
    /// Whether this applies a commit with `parent_count` parents onto another.
    pub open spec fn picks(self, commit_oid: Oid, onto_oid: Oid, parent_count: usize) -> bool {
        &&& self.commit == commit_oid
        &&& self.onto == onto_oid
        &&& self.base == (if parent_count > 0 {
            BaseTree::FirstParent
        } else {
            BaseTree::Empty
        })
        &&& self.mainline == 0
    }
}

/// Picking a commit onto another applies the one and leaves the other below it:
/// picking the other way round exchanges them. What a commit changes is found
/// against its first parent, and against an empty tree only where it has none. No
/// parent of a merge is followed.
pub proof fn picking_the_other_way_round(
    pick: CherryPick,
    back: CherryPick,
    commit_oid: Oid,
    onto_oid: Oid,
    parent_count: usize,
    onto_parent_count: usize,
)
    requires
        pick.picks(commit_oid, onto_oid, parent_count),
        back.picks(onto_oid, commit_oid, onto_parent_count),
    ensures
        pick.commit == commit_oid && back.commit == onto_oid,
        pick.onto == back.commit && back.onto == pick.commit,
        pick.base == BaseTree::Empty <==> parent_count == 0,
        back.base == BaseTree::Empty <==> onto_parent_count == 0,
        pick.mainline == 0 && back.mainline == 0,
{
}

/// Whether `jj` is the workspace that is opened when `root_command` gives `root`.
pub open spec fn opened(root: CommandOutput, jj: Result<Jujutsu, SprError>) -> bool {
    match jj {
        Ok(jj) => root_printed(root) == Some(jj.repo_path@),
        Err(error) => root_printed(root) is None && root_refused(root, error),
    }
}

/// Directories for which `jj root` gives the same belong to one workspace: it is
/// opened from each of them or from none, with the same path or the same
/// messages.
pub proof fn directories_with_one_root(
    one_root: CommandOutput,
    other_root: CommandOutput,
    one: Result<Jujutsu, SprError>,
    other: Result<Jujutsu, SprError>,
)
    requires
        one_root.success == other_root.success,
        one_root.stdout@ == other_root.stdout@,
        opened(one_root, one),
        opened(other_root, other),
    ensures
        match (one, other) {
            (Ok(one), Ok(other)) => one.repo_path@ == other.repo_path@,
            (Err(one), Err(other)) => one@ == other@,
            _ => false,
        },
{
}

/// The path of a workspace is the root that `jj root` prints on its line,
/// whatever directory it is run in.
pub proof fn workspace_is_at_its_root(
    root: CommandOutput,
    path: Seq<char>,
    jj: Result<Jujutsu, SprError>,
)
    requires
        root.success,
        valid_utf8(root.stdout@),
        decode_utf8(root.stdout@) == path.push('\n') || decode_utf8(root.stdout@) == path,
        trimmed(path) == path,
        opened(root, jj),
    ensures
        jj matches Ok(jj) && jj.repo_path@ == path,
{
    lemma_trimmed_line(path);
}

/// There is no workspace where `jj root` fails, whatever it prints, and none where
/// it does not print text.
pub proof fn directories_without_a_workspace(root: CommandOutput, jj: Result<Jujutsu, SprError>)
    requires
        opened(root, jj),
    ensures
        jj is Ok <==> root.success && valid_utf8(root.stdout@),
        !root.success ==> (jj matches Err(error) && error@ == seq![
            "This command requires a Jujutsu repository. Could not find a Jujutsu workspace in the current directory."@,
        ]),
        root.success && !valid_utf8(root.stdout@) ==> (jj matches Err(error) && error@ == seq![
            utf8_complaint(root.stdout@),
            "jj root output was not valid UTF-8"@,
        ]),
{
}

/// A Jujutsu workspace.
#[derive(Debug)]
pub struct Jujutsu {
    /// The root of the workspace.
    pub repo_path: String,
}

impl Jujutsu {
    /// The workspace that `root_command` found.
    pub fn new(root: CommandOutput) -> (jj: Result<Jujutsu, SprError>)
        ensures
            opened(root, jj),
    {
        match discover_workspace_root(root) {
            Ok(repo_path) => Ok(Jujutsu { repo_path }),
            Err(error) => Err(error),
        }
    }

    /// Git on the repository behind the workspace.
    pub fn git_command(&self) -> (command: CommandLine)
        ensures
            runs_git(command),
    {
        let mut arguments: Vec<Argument> = Vec::new();
        arguments.push(Argument::Text("--git-dir".to_string()));
        arguments.push(Argument::GitDir);
        let command = CommandLine { program: Program::Git, arguments, directory: None };
        assert(command.argument_texts() =~= seq![Some("--git-dir"@), None]);
        command
    }

    fn log(&self, revisions: &str, template: &str) -> (command: CommandLine)
        ensures
            command.runs_jj(log_arguments(revisions@, template@), self.repo_path@),
    {
        let arguments = ["log", "--no-graph", "-r", revisions, "--template", template];
        let command = CommandLine::jj(&arguments, self.repo_path.as_str());
        assert(arguments@.map_values(|text: &str| text@) =~= log_arguments(
            revisions@,
            template@,
        ));
        command
    }

    /// Asks for the id of the commit that `revision` names.
    pub fn revision_command(&self, revision: &str) -> (command: CommandLine)
        ensures
            asks_for_revision(command, revision@, self.repo_path@),
    {
        self.log(revision, "commit_id")
    }

    /// The id that was asked for with `revision_command`.
    pub fn resolve_revision_to_commit_id(&self, output: CommandOutput) -> (oid: Result<
        Oid,
        SprError,
    >)
        ensures
            resolves(output, oid),
    {
        match output.captured() {
            Ok(text) => {
                let id = trim(text.as_str());
                revision_id(id, Oid::from_str(id))
            },
            Err(error) => Err(error),
        }
    }

    /// The commit that was asked for with `revision_command`, not prepared yet.
    pub fn get_prepared_commit_for_revision(&self, output: CommandOutput) -> (pending: Result<
        PendingRevision,
        SprError,
    >)
        ensures
            match pending {
                Ok(pending) => resolves(output, Ok(pending.oid)),
                Err(error) => resolves(output, Err(error)),
            },
    {
        match self.resolve_revision_to_commit_id(output) {
            Ok(oid) => Ok(PendingRevision { oid }),
            Err(error) => Err(error),
        }
    }

    /// Asks for the ids of the commits from one revision to another, the newest
    /// first.
    pub fn range_command(
        &self,
        from_revision: &str,
        to_revision: &str,
        is_inclusive: bool,
    ) -> (command: CommandLine)
        ensures
            asks_for_range(
                command,
                from_revision@,
                to_revision@,
                is_inclusive,
                self.repo_path@,
            ),
    {
        let operator = if is_inclusive {
            "::"
        } else {
            ".."
        };
        let revisions = from_revision.to_string().concat(operator).concat(to_revision);
        self.log(revisions.as_str(), "commit_id ++ \"\\n\"")
    }

    /// Asks for the change that a commit belongs to.
    pub fn change_id_command(&self, commit_oid: Oid) -> (command: CommandLine)
        ensures
            asks_for_change(command, commit_oid@, self.repo_path@),
    {
        self.log(commit_oid.to_hex().as_str(), "change_id")
    }

    /// The change that was asked for with `change_id_command`.
    pub fn get_change_id_for_commit(&self, output: CommandOutput) -> (id: Result<String, SprError>)
        ensures
            tells_change(output, id),
    {
        match output.captured() {
            Ok(text) => Ok(trim(text.as_str()).to_string()),
            Err(error) => Err(error),
        }
    }

    /// Asks whether the working copy has changes.
    pub fn status_command(&self) -> (command: CommandLine)
        ensures
            asks_for_status(command, self.repo_path@),
    {
        let arguments = ["status"];
        let command = CommandLine::jj(&arguments, self.repo_path.as_str());
        assert(arguments@.map_values(|text: &str| text@) =~= seq!["status"@]);
        command
    }

    /// Refuses to go on where the working copy has changes, by what was printed
    /// for `status_command`.
    pub fn check_no_uncommitted_changes(&self, output: CommandOutput) -> (check: Result<
        (),
        SprError,
    >)
        ensures
            checks(output, check),
    {
        match output.captured() {
            Ok(status) => {
                if trim(status.as_str()).is_empty() || contains(status.as_str(), "No changes.")
                    || contains(status.as_str(), "The working copy has no changes") {
                    Ok(())
                } else {
                    Err(
                        SprError::new(
                            "You have uncommitted changes:\n".to_string().concat(status.as_str()),
                        ),
                    )
                }
            },
            Err(error) => Err(error),
        }
    }

    /// The names of the references of a repository, each one once, unless one
    /// of the references cannot be read.
    pub fn get_all_ref_names(&self, entries: &Vec<Result<Option<String>, String>>) -> (found: Result<
        Vec<String>,
        SprError,
    >)
        ensures
            lists_names(entries@, found),
    {
        let mut found: Vec<String> = Vec::new();
        let mut i: usize = 0;
        assert(texts(found@).to_set() =~= names_among(entries@.take(0)));
        while i < entries.len()
            invariant
                i <= entries@.len(),
                forall|k: int| 0 <= k < i ==> (#[trigger] entries@[k]) is Ok,
                texts(found@).no_duplicates(),
                texts(found@).to_set() == names_among(entries@.take(i as int)),
            decreases entries@.len() - i,
        {
            let ghost before = found@;
            match &entries[i] {
                Ok(Some(name)) => {
                    if !lists(&found, name) {
                        found.push(name.clone());
                        assert(texts(found@) =~= texts(before).push(name@));
                    }
                },
                Ok(None) => {},
                Err(complaint) => {
                    return Err(SprError::new(complaint.clone()));
                },
            }
            proof {
                lemma_one_more_entry(entries@, i as int, texts(before), texts(found@));
            }
            i = i + 1;
        }
        assert(entries@.take(i as int) =~= entries@);
        Ok(found)
    }

    /// The commit that a reference points at.
    pub fn resolve_reference(&self, ref_name: &str, target: Option<Oid>) -> (oid: Result<
        Oid,
        SprError,
    >)
        ensures
            points_at(ref_name@, target, oid),
    {
        match target {
            Some(target) => Ok(target),
            None => Err(
                SprError::new(
                    "Reference ".to_string().concat(ref_name).concat(" has no target"),
                ),
            ),
        }
    }

    /// The two commits whose merge base is where `commit_oid` leaves the master
    /// branch, which `master_ref` points at.
    pub fn get_master_base_for_commit(
        &self,
        commit_oid: Oid,
        master_ref: &str,
        target: Option<Oid>,
    ) -> (pair: Result<(Oid, Oid), SprError>)
        ensures
            leaves(commit_oid, master_ref@, target, pair),
    {
        match self.resolve_reference(master_ref, target) {
            Ok(master) => Ok((commit_oid, master)),
            Err(error) => Err(error),
        }
    }

    /// A commit that is signed `now` by the people who made another one. No
    /// reference is moved to it.
    pub fn create_derived_commit(
        &self,
        author: &Person,
        committer: &Person,
        now: Time,
        message: &str,
        tree_oid: Oid,
        parent_oids: &[Oid],
    ) -> (commit: DerivedCommit)
        ensures
            commit.derives(*author, *committer, now, message@, tree_oid, parent_oids@),
    {
        let mut parents: Vec<Oid> = Vec::new();
        let mut i: usize = 0;
        while i < parent_oids.len()
            invariant
                i <= parent_oids@.len(),
                parents@ == parent_oids@.take(i as int),
            decreases parent_oids@.len() - i,
        {
            parents.push(parent_oids[i]);
            i = i + 1;
        }
        assert(parent_oids@.take(i as int) =~= parent_oids@);
        DerivedCommit {
            reference: None,
            author: Signer::of(author, now),
            committer: Signer::of(committer, now),
            message: message.to_string(),
            tree: tree_oid,
            parents,
        }
    }

    /// Applies a commit with `parent_count` parents onto another. What the
    /// first commit of all changes is found against an empty tree.
    pub fn cherrypick(&self, commit_oid: Oid, onto_oid: Oid, parent_count: usize) -> (pick:
        CherryPick)
        ensures
            pick.picks(commit_oid, onto_oid, parent_count),
    {
        let base = if parent_count > 0 {
            BaseTree::FirstParent
        } else {
            BaseTree::Empty
        };
        CherryPick { commit: commit_oid, onto: onto_oid, base, mainline: 0 }
    }
}

proof fn lemma_one_more_entry(
    entries: Seq<Result<Option<String>, String>>,
    i: int,
    before: Seq<Seq<char>>,
    after: Seq<Seq<char>>,
)
    requires
        0 <= i < entries.len(),
        before.to_set() == names_among(entries.take(i)),
        match entries[i] {
            Ok(Some(name)) => if before.contains(name@) {
                after == before
            } else {
                after == before.push(name@)
            },
            _ => after == before,
        },
    ensures
        after.to_set() == names_among(entries.take(i + 1)),
{
    let old_entries = entries.take(i);
    let new_entries = entries.take(i + 1);
    assert(new_entries[i] == entries[i]);
    assert forall|name: Seq<char>| #[trigger] after.to_set().contains(name) == names_among(
        new_entries,
    ).contains(name) by {
        assert(before.to_set().contains(name) == names_among(old_entries).contains(name));
        assert(before.to_set().contains(name) == before.contains(name));
        if names_among(old_entries).contains(name) {
            let k = choose|k: int|
                0 <= k < old_entries.len() && #[trigger] names(old_entries[k], name);
            assert(new_entries[k] == old_entries[k]);
            assert(names(new_entries[k], name));
        }
        if names_among(new_entries).contains(name) {
            let k = choose|k: int|
                0 <= k < new_entries.len() && #[trigger] names(new_entries[k], name);
            if k < i {
                assert(new_entries[k] == old_entries[k]);
                assert(names(old_entries[k], name));
            }
        }
        if after != before {
            assert(after.last() == entries[i]->Ok_0->0@);
            assert(names(new_entries[i], after.last()));
            assert(after[after.len() - 1] == after.last());
            if before.contains(name) {
                let k = choose|k: int| 0 <= k < before.len() && before[k] == name;
                assert(after[k] == name);
            }
        } else if entries[i] matches Ok(Some(text)) && text@ == name {
            assert(before.contains(name));
        }
    }
    assert(after.to_set() =~= names_among(new_entries));
}

} // verus!
