//! Squashing a commit into another and pushing the outcome as a derived commit.

use vstd::prelude::*;

use crate::command::{CommandLine, CommandOutput};
use crate::error::SprError;
use crate::jj::{asks_for_change, tells_change, Jujutsu, PreparedCommit};
use crate::message::{MessageSection, MessageSectionsMap};
use crate::oid::{hex_text, named_id, names_object, reading_a_written_id, Oid};
use crate::text::trimmed;

verus! {

/// What `squash` was asked to do.
#[derive(Debug)]
pub struct SquashOptions {
    /// Source revision to squash (default: @).
    pub revision: Option<String>,
    /// Target revision to squash into (default: parent of source).
    pub into: Option<String>,
    /// Do not copy the pushed git commit hash to the clipboard.
    pub no_clipboard: bool,
}

/// What `diff` is asked to do.
#[derive(Debug)]
pub struct DiffOptions {
    pub all: bool,
    pub update_message: bool,
    pub draft: bool,
    pub message: Option<String>,
    pub no_clipboard: bool,
    pub cherry_pick: bool,
    pub base: Option<String>,
    pub revision: Option<String>,
    pub dry_run: bool,
}

/// A text, or another one where there is none.
pub open spec fn text_or(text: Option<String>, default: Seq<char>) -> Seq<char> {
    match text {
        Some(text) => text@,
        None => default,
    }
}

/// The revision that is squashed.
pub open spec fn source_revision(options: SquashOptions) -> Seq<char> {
    text_or(options.revision, "@"@)
}

/// Whether the target is the parent of a source other than the working copy.
pub open spec fn goes_to_parent_of_source(options: SquashOptions) -> bool {
    options.into is None && source_revision(options) != "@"@
}

/// The revision that holds the outcome: the given target, else the parent of the
/// source. That is the parent of the working copy where the working copy is
/// squashed, and otherwise the change `parent`.
pub open spec fn target_revision(options: SquashOptions, parent: Seq<char>) -> Seq<char> {
    text_or(
        options.into,
        if source_revision(options) == "@"@ {
            "@-"@
        } else {
            parent
        },
    )
}

/// What is told while a commit is squashed.
pub open spec fn squashing(message: MessageSectionsMap) -> Seq<char> {
    "Squashing: "@ + text_or(message.section(MessageSection::Title), "(no title)"@)
}

/// Something to be told, and the icon to tell it with.
#[derive(Debug)]
pub struct Notice {
    pub icon: String,
    pub text: String,
}

/// A squash whose source is to be looked up.
pub struct Squash {
    options: SquashOptions,
}

/// What follows when the source is known.
pub enum FoundSource {
    /// `jj` is to squash it.
    Ready(ReadySquash),
    /// `jj` is to be asked for its parent, which is the target.
    AskParent(PendingParent),
}

/// A squash into the parent of its source, which is to be looked up. The commit
/// that the parent is now will be replaced; the change that it belongs to stays.
pub struct PendingParent {
    options: SquashOptions,
    description: String,
    parent_oid: Oid,
}

/// A squash that `jj` is to do.
pub struct ReadySquash {
    options: SquashOptions,
    description: String,
    parent: Option<String>,
}

/// A squash that is done: its target is to be resolved.
pub struct DoneSquash {
    options: SquashOptions,
    description: String,
    parent: Option<String>,
}

fn or_default<'a>(text: &'a Option<String>, default: &'a str) -> (chosen: &'a str)
    ensures
        chosen@ == text_or(*text, default@),
{
    match text {
        Some(text) => text.as_str(),
        None => default,
    }
}

/// Whether the working copy is squashed, given by name or by default.
fn squashes_working_copy(options: &SquashOptions) -> (squashes: bool)
    ensures
        squashes == (source_revision(*options) == "@"@),
{
    match &options.revision {
        Some(revision) => *revision == "@".to_string(),
        None => true,
    }
}

/// Whether `squash` is about to do what `options` ask for.
pub open spec fn begins(options: SquashOptions, squash: Squash) -> bool {
    squash.options() == options
}

/// Starts to squash.
pub fn squash(options: SquashOptions) -> (squash: Squash)
    ensures
        begins(options, squash),
{
    Squash { options }
}

impl Squash {
    /// What was asked for.
    pub closed spec fn options(self) -> SquashOptions {
        self.options
    }

    /// The revision to look up.
    pub fn source(&self) -> (revision: &str)
        ensures
            revision@ == source_revision(self.options()),
    {
        or_default(&self.options.revision, "@")
    }

    /// Whether `found` is what follows when the source is the commit `commit`.
    pub open spec fn finds(
        self,
        commit: PreparedCommit,
        description: String,
        found: FoundSource,
        notice: Notice,
    ) -> bool {
        &&& match found {
            FoundSource::Ready(ready) => {
                &&& !goes_to_parent_of_source(self.options())
                &&& ready.options() == self.options()
                &&& ready.description() == description
            },
            FoundSource::AskParent(pending) => {
                &&& goes_to_parent_of_source(self.options())
                &&& pending.options() == self.options()
                &&& pending.description() == description
                &&& pending.parent_oid() == commit.parent_oid
            },
        }
        &&& notice.icon@ == "⏸️ "@
        &&& notice.text@ == squashing(commit.message)
    }

    /// Goes on with the commit and the description of the source, and says what
    /// is to be told.
    pub fn found(self, commit: &PreparedCommit, description: String) -> (found: (
        FoundSource,
        Notice,
    ))
        ensures
            self.finds(*commit, description, found.0, found.1),
    {
        let title = match commit.message.get(MessageSection::Title) {
            Some(title) => title.clone(),
            None => "(no title)".to_string(),
        };
        let text = "Squashing: ".to_string().concat(title.as_str());
        let notice = Notice { icon: "⏸️ ".to_string(), text };
        let options = self.options;
        if options.into.is_none() && !squashes_working_copy(&options) {
            let parent_oid = commit.parent_oid;
            (FoundSource::AskParent(PendingParent { options, description, parent_oid }), notice)
        } else {
            (FoundSource::Ready(ReadySquash { options, description, parent: None }), notice)
        }
    }
}

impl PendingParent {
    #[verifier::type_invariant]
    spec fn wf(self) -> bool {
        goes_to_parent_of_source(self.options)
    }

    /// What was asked for.
    pub closed spec fn options(self) -> SquashOptions {
        self.options
    }

    /// The description of the source.
    pub closed spec fn description(self) -> String {
        self.description
    }

    /// The parent of the source.
    pub closed spec fn parent_oid(self) -> Oid {
        self.parent_oid
    }

    /// Asks for the change that the parent belongs to.
    pub fn parent_command(&self, jj: &Jujutsu) -> (command: CommandLine)
        ensures
            asks_for_change(command, self.parent_oid()@, jj.repo_path@),
    {
        jj.change_id_command(self.parent_oid)
    }

    /// Whether `ready` is what follows when `asks_for_change` gives `output`.
    pub open spec fn learns(
        self,
        output: CommandOutput,
        ready: Result<ReadySquash, SprError>,
    ) -> bool {
        match (output.text(), ready) {
            (Some(text), Ok(ready)) => {
                &&& ready.options() == self.options()
                &&& ready.description() == self.description()
                &&& ready.parent_change() == trimmed(text)
            },
            (None, Err(error)) => output.refused(error),
            _ => false,
        }
    }

    /// Goes on with the change that was asked for.
    pub fn parent_found(self, jj: &Jujutsu, output: CommandOutput) -> (ready: Result<
        ReadySquash,
        SprError,
    >)
        ensures
            self.learns(output, ready),
    {
        proof {
            use_type_invariant(&self);
        }
        match jj.get_change_id_for_commit(output) {
            Ok(parent) => {
                let PendingParent { options, description, parent_oid: _ } = self;
                Ok(ReadySquash { options, description, parent: Some(parent) })
            },
            Err(error) => Err(error),
        }
    }
}

impl ReadySquash {
    #[verifier::type_invariant]
    spec fn wf(self) -> bool {
        goes_to_parent_of_source(self.options) == self.parent is Some
    }

    /// What was asked for.
    pub closed spec fn options(self) -> SquashOptions {
        self.options
    }

    /// The description of the source.
    pub closed spec fn description(self) -> String {
        self.description
    }

    /// The change that the parent of the source belongs to, where that is the
    /// target.
    pub closed spec fn parent_change(self) -> Seq<char> {
        self.parent.unwrap()@
    }

    /// The revision to squash.
    pub fn source(&self) -> (revision: &str)
        ensures
            revision@ == source_revision(self.options()),
    {
        or_default(&self.options.revision, "@")
    }

    /// The revision to squash into, where one was given.
    pub fn given_target(&self) -> (revision: Option<&String>)
        ensures
            match revision {
                Some(revision) => self.options().into == Some(*revision),
                None => self.options().into is None,
            },
    {
        self.options.into.as_ref()
    }

    /// Whether `done` is what follows when `jj` has squashed the commit.
    pub open spec fn becomes(self, done: DoneSquash) -> bool {
        &&& done.options() == self.options()
        &&& done.description() == self.description()
        &&& done.parent_change() == self.parent_change()
    }

    /// Goes on when `jj` has squashed the commit.
    pub fn squashed(self) -> (done: DoneSquash)
        ensures
            self.becomes(done),
    {
        proof {
            use_type_invariant(&self);
        }
        let ReadySquash { options, description, parent } = self;
        DoneSquash { options, description, parent }
    }
}

impl DoneSquash {
    #[verifier::type_invariant]
    spec fn wf(self) -> bool {
        goes_to_parent_of_source(self.options) == self.parent is Some
    }

    /// What was asked for.
    pub closed spec fn options(self) -> SquashOptions {
        self.options
    }

    /// The description of the source.
    pub closed spec fn description(self) -> String {
        self.description
    }

    /// The change that the parent of the source belongs to, where that is the
    /// target.
    pub closed spec fn parent_change(self) -> Seq<char> {
        self.parent.unwrap()@
    }

    /// Whether `revision` is to be resolved now.
    pub open spec fn targets(self, revision: Seq<char>) -> bool {
        revision == target_revision(self.options(), self.parent_change())
    }

    /// The revision to resolve now.
    pub fn target(&self) -> (revision: &str)
        ensures
            self.targets(revision@),
    {
        proof {
            use_type_invariant(self);
        }
        match (&self.options.into, &self.parent) {
            (Some(into), _) => into.as_str(),
            (None, Some(parent)) => parent.as_str(),
            (None, None) => "@-",
        }
    }

    /// Whether `options` are what `diff` has to do with the commit that the target
    /// was resolved to.
    pub open spec fn pushes(self, target_oid: Oid, options: DiffOptions) -> bool {
        &&& !options.all
        &&& !options.update_message
        &&& !options.draft
        &&& options.message == Some(self.description())
        &&& options.no_clipboard == self.options().no_clipboard
        &&& !options.cherry_pick
        &&& options.base is None
        &&& options.revision matches Some(revision) && revision@ == hex_text(target_oid@)
            && names_object(revision@) && named_id(revision@) == target_oid@
        &&& !options.dry_run
    }

    /// What `diff` has to do with the commit that the target was resolved to:
    /// push it, with the description of the source as the message.
    pub fn resolved(self, target_oid: Oid) -> (options: DiffOptions)
        ensures
            self.pushes(target_oid, options),
    {
        proof {
            reading_a_written_id(target_oid);
        }
        DiffOptions {
            all: false,
            update_message: false,
            draft: false,
            message: Some(self.description),
            no_clipboard: self.options.no_clipboard,
            cherry_pick: false,
            base: None,
            revision: Some(target_oid.to_hex()),
            dry_run: false,
        }
    }
}

/// Without a given target, what `diff` is run on is the parent of the source: the
/// parent of the working copy where the working copy is squashed, and otherwise
/// the change that the parent belonged to before.
pub proof fn target_is_the_parent_of_the_source(options: SquashOptions, parent: Seq<char>)
    requires
        options.into is None,
    ensures
        source_revision(options) == "@"@ ==> target_revision(options, parent) == "@-"@,
        source_revision(options) != "@"@ ==> target_revision(options, parent) == parent,
{
}

/// Naming the working copy as the source is the same as naming no source.
pub proof fn working_copy_is_the_default_source(
    named: SquashOptions,
    unnamed: SquashOptions,
    parent: Seq<char>,
)
    requires
        named.revision matches Some(revision) && revision@ == "@"@,
        unnamed == (SquashOptions { revision: None, ..named }),
    ensures
        source_revision(named) == source_revision(unnamed),
        target_revision(named, parent) == target_revision(unnamed, parent),
        goes_to_parent_of_source(named) == goes_to_parent_of_source(unnamed),
{
}

/// Squashing a commit ends with a push of the commit that the target is resolved to,
/// alone and not as a trial, with the description of the source as its message. The
/// target is the given one as it is given, else `@-` where the working copy is
/// squashed, and otherwise the change that `jj` printed for the parent of the source.
pub proof fn squashing_a_commit(
    options: SquashOptions,
    squash: Squash,
    commit: PreparedCommit,
    description: String,
    found: FoundSource,
    notice: Notice,
    change: Result<String, SprError>,
    output: CommandOutput,
    ready: ReadySquash,
    done: DoneSquash,
    target: Seq<char>,
    target_oid: Oid,
    diff: DiffOptions,
)
    requires
        begins(options, squash),
        squash.finds(commit, description, found, notice),
        match found {
            FoundSource::Ready(found) => ready == found,
            FoundSource::AskParent(pending) => tells_change(output, change) && pending.learns(
                output,
                Ok(ready),
            ),
        },
        ready.becomes(done),
        done.targets(target),
        done.pushes(target_oid, diff),
    ensures
        match (options.into, options.revision) {
            (Some(into), _) => found is Ready && target == into@,
            (None, None) => found is Ready && target == "@-"@,
            (None, Some(revision)) => if revision@ == "@"@ {
                found is Ready && target == "@-"@
            } else {
                &&& found matches FoundSource::AskParent(pending) && pending.parent_oid()
                    == commit.parent_oid
                &&& change matches Ok(change) && target == change@
            },
        },
        notice.text@ == "Squashing: "@ + (match commit.message.title {
            Some(title) => title@,
            None => "(no title)"@,
        }),
        notice.icon@ == "⏸️ "@,
        diff.message == Some(description),
        diff.revision matches Some(revision) && revision@ == hex_text(target_oid@),
        diff.no_clipboard == options.no_clipboard,
        diff.base is None,
        !diff.all && !diff.update_message && !diff.draft && !diff.cherry_pick && !diff.dry_run,
{
}

/// The source is the given revision as it is given, and the working copy where none
/// is given.
pub proof fn source_is_as_given(options: SquashOptions)
    ensures
        options.revision matches Some(revision) ==> source_revision(options) == revision@,
        options.revision is None ==> source_revision(options) == "@"@,
{
}

/// Nothing is squashed where the parent of the source is needed and `jj` cannot tell
/// the change that it belongs to; where `jj` succeeds and prints text it is.
pub proof fn unknown_parent_is_an_error(
    pending: PendingParent,
    output: CommandOutput,
    ready: Result<ReadySquash, SprError>,
)
    requires
        pending.learns(output, ready),
    ensures
        ready is Ok <==> output.text() is Some,
        ready matches Err(error) ==> output.refused(error),
{
}

} // verus!
