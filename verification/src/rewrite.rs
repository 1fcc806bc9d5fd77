//! Writing commit messages that changed back to the commits.

use vstd::prelude::*;

use crate::command::{CommandLine, CommandOutput};
use crate::error::SprError;
use crate::jj::{asks_for_change, Jujutsu, PreparedCommit};
use crate::text::{decode_lossy, shown, trimmed};

verus! {

/// A commit whose message is written back.
pub open spec fn settled(commit: PreparedCommit) -> PreparedCommit {
    PreparedCommit { message_changed: false, ..commit }
}

/// Whether `commits` are those of `start`, the first `count` of them settled and
/// the others as they were.
pub open spec fn settled_up_to(
    commits: Seq<PreparedCommit>,
    start: Seq<PreparedCommit>,
    count: int,
) -> bool {
    &&& commits.len() == start.len()
    &&& forall|i: int|
        0 <= i < commits.len() ==> (#[trigger] commits[i]) == (if i < count {
            settled(start[i])
        } else {
            start[i]
        })
}

/// Whether none of `commits` from `from` up to `to` has a message that changed.
pub open spec fn none_changed(commits: Seq<PreparedCommit>, from: int, to: int) -> bool {
    forall|i: int| from <= i < to ==> !(#[trigger] commits[i]).message_changed
}

/// What is told where `jj` cannot change a message.
pub open spec fn not_updated(stderr: Seq<char>) -> Seq<char> {
    "Failed to update commit message: "@ + stderr
}

/// The arguments of a `jj describe` that gives a change a message.
pub open spec fn describe_arguments(change_id: Seq<char>, message: Seq<char>) -> Seq<Seq<char>> {
    seq!["describe"@, "-r"@, change_id, "-m"@, message]
}

/// Whether `command` gives a change a message.
pub open spec fn describes(
    command: CommandLine,
    change_id: Seq<char>,
    message: Seq<char>,
    directory: Seq<char>,
) -> bool {
    command.runs_jj(describe_arguments(change_id, message), directory)
}

/// Commits whose messages are being written back, in their order.
pub struct Rewrite {
    commits: Vec<PreparedCommit>,
    next: usize,
    start: Ghost<Seq<PreparedCommit>>,
}

/// What is next for the commits.
pub enum RewriteStep {
    /// The message of a commit is to be written back.
    Describe(PendingRewrite),
    /// All messages are written back.
    Finished(Vec<PreparedCommit>),
}

/// A commit whose message is to be written back: `jj` is to be asked which change
/// it belongs to.
pub struct PendingRewrite {
    commits: Vec<PreparedCommit>,
    at: usize,
    start: Ghost<Seq<PreparedCommit>>,
}

/// A commit whose change is known: the change is to get the message.
pub struct PendingDescribe {
    rewrite: PendingRewrite,
    change_id: String,
}

/// A message that could not be written back.
pub struct RewriteFailure {
    pub error: SprError,
    pub commits: Vec<PreparedCommit>,
}

impl Rewrite {
    #[verifier::type_invariant]
    spec fn wf(self) -> bool {
        self.next <= self.start@.len() && settled_up_to(
            self.commits@,
            self.start@,
            self.next as int,
        )
    }

    /// The commits as they were at first.
    pub closed spec fn start(self) -> Seq<PreparedCommit> {
        self.start@
    }

    /// How many of the commits are settled.
    pub closed spec fn settled(self) -> nat {
        self.next as nat
    }

    /// Whether `step` is what is next.
    pub open spec fn finds(self, step: RewriteStep) -> bool {
        &&& self.settled() <= self.start().len()
        &&& match step {
            RewriteStep::Describe(pending) => {
                &&& pending.start() == self.start()
                &&& self.settled() <= pending.at() < self.start().len()
                &&& none_changed(self.start(), self.settled() as int, pending.at() as int)
                &&& self.start()[pending.at() as int].message_changed
            },
            RewriteStep::Finished(commits) => {
                &&& none_changed(self.start(), self.settled() as int, self.start().len() as int)
                &&& settled_up_to(commits@, self.start(), self.start().len() as int)
                &&& none_changed(commits@, 0, commits@.len() as int)
            },
        }
    }

    /// Finds the next commit whose message changed.
    pub fn advance(self) -> (step: RewriteStep)
        ensures
            self.finds(step),
    {
        proof {
            use_type_invariant(&self);
        }
        let mut at: usize = self.next;
        while at < self.commits.len() && !self.commits[at].message_changed
            invariant
                self.wf(),
                self.next <= at <= self.commits@.len(),
                none_changed(self.start@, self.next as int, at as int),
                settled_up_to(self.commits@, self.start@, at as int),
            decreases self.commits@.len() - at,
        {
            at = at + 1;
        }
        let Rewrite { commits, next: _, start } = self;
        if at == commits.len() {
            RewriteStep::Finished(commits)
        } else {
            RewriteStep::Describe(PendingRewrite { commits, at, start })
        }
    }
}

impl PendingRewrite {
    #[verifier::type_invariant]
    spec fn wf(self) -> bool {
        &&& self.at < self.start@.len()
        &&& self.start@[self.at as int].message_changed
        &&& settled_up_to(self.commits@, self.start@, self.at as int)
    }

    /// The commits as they were at first.
    pub closed spec fn start(self) -> Seq<PreparedCommit> {
        self.start@
    }

    /// Which of the commits it is.
    pub closed spec fn at(self) -> nat {
        self.at as nat
    }

    /// The commit whose message is to be written back.
    pub fn commit(&self) -> (commit: &PreparedCommit)
        ensures
            self.at() < self.start().len(),
            commit == self.start()[self.at() as int],
            commit.message_changed,
    {
        proof {
            use_type_invariant(self);
        }
        &self.commits[self.at]
    }

    /// Asks for the change that the commit belongs to.
    pub fn change_id_command(&self, jj: &Jujutsu) -> (command: CommandLine)
        ensures
            asks_for_change(
                command,
                self.start()[self.at() as int].oid@,
                jj.repo_path@,
            ),
    {
        jj.change_id_command(self.commit().oid)
    }

    /// Whether `outcome` is what follows when `asks_for_change` gives `output`.
    pub open spec fn learns(
        self,
        output: CommandOutput,
        outcome: Result<PendingDescribe, RewriteFailure>,
    ) -> bool {
        match (output.text(), outcome) {
            (Some(text), Ok(pending)) => {
                &&& pending.rewrite() == self
                &&& pending.change_id()@ == trimmed(text)
            },
            (None, Err(failure)) => {
                &&& output.refused(failure.error)
                &&& settled_up_to(failure.commits@, self.start(), self.at() as int)
            },
            _ => false,
        }
    }

    /// Goes on with the change that was asked for.
    pub fn change_found(self, jj: &Jujutsu, output: CommandOutput) -> (outcome: Result<
        PendingDescribe,
        RewriteFailure,
    >)
        ensures
            self.learns(output, outcome),
    {
        match jj.get_change_id_for_commit(output) {
            Ok(change_id) => Ok(PendingDescribe { rewrite: self, change_id }),
            Err(error) => Err(self.abandoned(error)),
        }
    }

    /// Gives up where `jj` could not be run.
    pub fn abandoned(self, error: SprError) -> (failure: RewriteFailure)
        ensures
            failure.error == error,
            settled_up_to(failure.commits@, self.start(), self.at() as int),
    {
        proof {
            use_type_invariant(&self);
        }
        let PendingRewrite { commits, at: _, start: _ } = self;
        RewriteFailure { error, commits }
    }
}

impl PendingDescribe {
    /// The commit whose message is to be written back, among the others.
    pub closed spec fn rewrite(self) -> PendingRewrite {
        self.rewrite
    }

    /// The change that it belongs to.
    pub closed spec fn change_id(self) -> String {
        self.change_id
    }

    /// The commit whose message is to be written back.
    pub fn commit(&self) -> (commit: &PreparedCommit)
        ensures
            self.rewrite().at() < self.rewrite().start().len(),
            commit == self.rewrite().start()[self.rewrite().at() as int],
            commit.message_changed,
    {
        self.rewrite.commit()
    }

    /// Gives the change `message`, which is the message of the commit in text.
    pub fn describe_command(&self, jj: &Jujutsu, message: &str) -> (command: CommandLine)
        ensures
            describes(command, self.change_id()@, message@, jj.repo_path@),
    {
        jj.describe_command(self.change_id.as_str(), message)
    }

    /// Whether `outcome` is what came of it when `jj` gave `output`.
    pub open spec fn settles(
        self,
        output: CommandOutput,
        outcome: Result<Rewrite, RewriteFailure>,
    ) -> bool {
        match outcome {
            Ok(rewrite) => {
                &&& output.success
                &&& rewrite.start() == self.rewrite().start()
                &&& rewrite.settled() == self.rewrite().at() + 1
            },
            Err(failure) => {
                &&& !output.success
                &&& failure.error@ == seq![not_updated(shown(output.stderr@))]
                &&& settled_up_to(
                    failure.commits@,
                    self.rewrite().start(),
                    self.rewrite().at() as int,
                )
            },
        }
    }

    /// What came of it: the other commits follow where `jj` took the message.
    pub fn described(self, output: CommandOutput) -> (outcome: Result<Rewrite, RewriteFailure>)
        ensures
            self.settles(output, outcome),
    {
        proof {
            use_type_invariant(&self.rewrite);
        }
        let PendingRewrite { mut commits, at, start } = self.rewrite;
        if output.success {
            let count = commits.len();
            assert(at < count);
            commits[at].message_changed = false;
            Ok(Rewrite { commits, next: at + 1, start })
        } else {
            let message = "Failed to update commit message: ".to_string().concat(
                decode_lossy(&output.stderr).as_str(),
            );
            Err(RewriteFailure { error: SprError::new(message), commits })
        }
    }

    /// Gives up where `jj` could not be run.
    pub fn abandoned(self, error: SprError) -> (failure: RewriteFailure)
        ensures
            failure.error == error,
            settled_up_to(failure.commits@, self.rewrite().start(), self.rewrite().at() as int),
    {
        self.rewrite.abandoned(error)
    }
}

/// Writing messages back leaves commits whose messages did not change as they
/// were, and of the others everything but that they changed.
pub proof fn rewriting_touches_only_changed_commits(
    commits: Seq<PreparedCommit>,
    start: Seq<PreparedCommit>,
    count: int,
)
    requires
        settled_up_to(commits, start, count),
    ensures
        forall|i: int|
            0 <= i < commits.len() && !start[i].message_changed ==> (#[trigger] commits[i])
                == start[i],
        forall|i: int|
            0 <= i < commits.len() ==> settled(#[trigger] commits[i]) == settled(start[i]),
{
}

/// Once all messages are written back, writing them back again finds nothing to
/// do and changes nothing.
pub proof fn rewriting_twice(
    once: Seq<PreparedCommit>,
    twice: Seq<PreparedCommit>,
    start: Seq<PreparedCommit>,
)
    requires
        settled_up_to(once, start, start.len() as int),
        settled_up_to(twice, once, once.len() as int),
    ensures
        none_changed(once, 0, once.len() as int),
        twice == once,
{
    assert(twice =~= once);
}

/// Whether `rewrite` is about to write back the messages of `commits`.
pub open spec fn begins(commits: Seq<PreparedCommit>, rewrite: Rewrite) -> bool {
    &&& rewrite.start() == commits
    &&& rewrite.settled() == 0
}

/// Whether `after` is `before` but for the mark that its message changed.
pub open spec fn same_but_for_the_mark(after: PreparedCommit, before: PreparedCommit) -> bool {
    &&& after.oid == before.oid
    &&& after.short_id == before.short_id
    &&& after.parent_oid == before.parent_oid
    &&& after.message == before.message
    &&& after.pull_request_number == before.pull_request_number
    &&& after.dry_run_action == before.dry_run_action
}

/// Writing messages back asks for the change of every commit whose message changed
/// and of no other, each once and in their order, gives the message to the change
/// that `jj` printed, and ends with all commits as they were, none of them marked as
/// changed any more.
pub proof fn rewriting_all_commits(
    commits: Seq<PreparedCommit>,
    rewrites: Seq<Rewrite>,
    pending: Seq<PendingRewrite>,
    changes: Seq<CommandOutput>,
    known: Seq<PendingDescribe>,
    outputs: Seq<CommandOutput>,
    rewritten: Vec<PreparedCommit>,
)
    requires
        rewrites.len() == pending.len() + 1,
        changes.len() == pending.len(),
        known.len() == pending.len(),
        outputs.len() == pending.len(),
        begins(commits, rewrites[0]),
        forall|i: int|
            #![trigger pending[i]]
            0 <= i < pending.len() ==> {
                &&& rewrites[i].finds(RewriteStep::Describe(pending[i]))
                &&& pending[i].learns(changes[i], Ok(known[i]))
                &&& known[i].settles(outputs[i], Ok(rewrites[i + 1]))
            },
        rewrites.last().finds(RewriteStep::Finished(rewritten)),
    ensures
        forall|i: int|
            #![trigger pending[i]]
            0 <= i < pending.len() ==> {
                &&& pending[i].start() == commits
                &&& commits[pending[i].at() as int].message_changed
                &&& changes[i].text() is Some
                &&& known[i].change_id()@ == trimmed(changes[i].text().unwrap())
                &&& known[i].rewrite() == pending[i]
                &&& outputs[i].success
            },
        forall|i: int, j: int|
            0 <= i < j < pending.len() ==> (#[trigger] pending[i]).at() < (
            #[trigger] pending[j]).at(),
        forall|k: int|
            #![trigger commits[k]]
            0 <= k < commits.len() && commits[k].message_changed ==> exists|i: int|
                0 <= i < pending.len() && (#[trigger] pending[i]).at() == k,
        rewritten@.len() == commits.len(),
        forall|k: int|
            #![trigger rewritten@[k]]
            0 <= k < commits.len() ==> same_but_for_the_mark(rewritten@[k], commits[k])
                && !rewritten@[k].message_changed,
{
    lemma_rewrites(commits, rewrites, pending, known, changes, outputs, pending.len() as int);
    assert forall|i: int, j: int| 0 <= i < j < pending.len() implies (#[trigger] pending[i]).at()
        < (#[trigger] pending[j]).at() by {
        lemma_rewrites(commits, rewrites, pending, known, changes, outputs, j);
        assert(rewrites[j].finds(RewriteStep::Describe(pending[j])));
    }
    assert forall|i: int|
        #![trigger pending[i]]
        0 <= i < pending.len() implies pending[i].start() == commits
        && commits[pending[i].at() as int].message_changed by {
        lemma_rewrites(commits, rewrites, pending, known, changes, outputs, i);
    }
    let last = rewrites.last();
    assert forall|k: int|
        #![trigger commits[k]]
        0 <= k < commits.len() && commits[k].message_changed implies exists|i: int|
        0 <= i < pending.len() && (#[trigger] pending[i]).at() == k by {
        if k >= last.settled() {
            assert(!last.start()[k].message_changed);
        }
    }
}

proof fn lemma_rewrites(
    commits: Seq<PreparedCommit>,
    rewrites: Seq<Rewrite>,
    pending: Seq<PendingRewrite>,
    known: Seq<PendingDescribe>,
    changes: Seq<CommandOutput>,
    outputs: Seq<CommandOutput>,
    count: int,
)
    requires
        rewrites.len() == pending.len() + 1,
        changes.len() == pending.len(),
        known.len() == pending.len(),
        outputs.len() == pending.len(),
        begins(commits, rewrites[0]),
        forall|i: int|
            #![trigger pending[i]]
            0 <= i < pending.len() ==> {
                &&& rewrites[i].finds(RewriteStep::Describe(pending[i]))
                &&& pending[i].learns(changes[i], Ok(known[i]))
                &&& known[i].settles(outputs[i], Ok(rewrites[i + 1]))
            },
        0 <= count <= pending.len(),
    ensures
        rewrites[count].start() == commits,
        forall|i: int| 0 <= i < count ==> (#[trigger] pending[i]).at() < rewrites[count].settled(),
        forall|k: int|
            #![trigger commits[k]]
            0 <= k < rewrites[count].settled() && k < commits.len() && commits[k].message_changed
                ==> exists|i: int| 0 <= i < count && (#[trigger] pending[i]).at() == k,
    decreases count,
{
    if count > 0 {
        let last = count - 1;
        lemma_rewrites(commits, rewrites, pending, known, changes, outputs, last);
        let step = pending[last];
        assert(rewrites[last].finds(RewriteStep::Describe(step)));
        assert(known[last].settles(outputs[last], Ok(rewrites[count])));
        assert forall|k: int|
            #![trigger commits[k]]
            0 <= k < rewrites[count].settled() && k < commits.len() && commits[k].message_changed
            implies exists|i: int| 0 <= i < count && (#[trigger] pending[i]).at() == k by {
            if k >= rewrites[last].settled() && k < step.at() {
                assert(!rewrites[last].start()[k].message_changed);
            }
            if k == step.at() {
                assert(pending[last].at() == k);
            }
        }
    }
}

/// Where writing back fails, the commits whose messages were written back by then
/// are settled, and all others, the one that failed among them, are as they were.
/// `jj` failing to take a message is told with what it printed.
pub proof fn rewriting_that_fails(
    pending: PendingRewrite,
    known: PendingDescribe,
    change: CommandOutput,
    output: CommandOutput,
    failure: RewriteFailure,
)
    requires
        ({
            ||| pending.learns(change, Err(failure))
            ||| known.rewrite() == pending && known.settles(output, Err(failure))
        }),
        0 <= pending.at() < pending.start().len(),
    ensures
        failure.commits@.len() == pending.start().len(),
        forall|k: int|
            #![trigger failure.commits@[k]]
            0 <= k < pending.at() ==> same_but_for_the_mark(
                failure.commits@[k],
                pending.start()[k],
            ) && !failure.commits@[k].message_changed,
        forall|k: int|
            #![trigger failure.commits@[k]]
            pending.at() <= k < pending.start().len() ==> failure.commits@[k]
                == pending.start()[k],
        known.settles(output, Err(failure)) ==> !output.success && failure.error@ == seq![
            "Failed to update commit message: "@ + shown(output.stderr@),
        ],
{
}

/// The messages are written back one after the other from the first commit on, and
/// a message is taken to be written back where `jj` succeeds and only there.
pub proof fn rewriting_starts_with_the_first_commit(
    commits: Seq<PreparedCommit>,
    rewrite: Rewrite,
    known: PendingDescribe,
    output: CommandOutput,
    outcome: Result<Rewrite, RewriteFailure>,
)
    ensures
        begins(commits, rewrite) ==> rewrite.start() == commits && rewrite.settled() == 0,
        known.settles(output, outcome) ==> (outcome is Ok <==> output.success),
{
}

/// A message is given to a change with `jj describe`, in the root of the workspace.
pub proof fn how_a_message_is_written_back(
    command: CommandLine,
    change_id: Seq<char>,
    message: Seq<char>,
    directory: Seq<char>,
)
    ensures
        describes(command, change_id, message, directory) <==> command.runs_jj(
            seq!["describe"@, "-r"@, change_id, "-m"@, message],
            directory,
        ),
{
}

impl Jujutsu {
    /// Starts to write back the messages that changed.
    pub fn rewrite_commit_messages(&self, commits: Vec<PreparedCommit>) -> (rewrite: Rewrite)
        ensures
            begins(commits@, rewrite),
    {
        let ghost start = commits@;
        Rewrite { commits, next: 0, start: Ghost(start) }
    }

    /// Gives the change `change_id` the message `message`.
    pub fn describe_command(&self, change_id: &str, message: &str) -> (command: CommandLine)
        ensures
            describes(command, change_id@, message@, self.repo_path@),
    {
        let arguments = ["describe", "-r", change_id, "-m", message];
        let command = CommandLine::jj(&arguments, self.repo_path.as_str());
        assert(arguments@.map_values(|text: &str| text@) =~= describe_arguments(
            change_id@,
            message@,
        ));
        command
    }
}

} // verus!
