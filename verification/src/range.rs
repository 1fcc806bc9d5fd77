//! Preparing the commits between two revisions.

use vstd::prelude::*;
use vstd::utf8::encode_utf8;

use crate::command::CommandOutput;
use crate::error::SprError;
use crate::jj::{line_id, prepare_commit, unreadable_line, Found, Jujutsu, PreparedCommit};
use crate::oid::{
    hex_digit, hex_text, id_complaint, named_id, named_ids_start_with_the_text, names_object,
    reading_a_written_id, Oid,
};
use crate::text::{
    encoded_text_is_shown, filled_lines, lemma_not_blank_push, lemma_pieces_join, lemma_trimmed, not_blank, pieces,
    read_lines, texts, trimmed, white_space,
};

verus! {

/// Whether `commits` are the commits that `lines` name, one for each of the
/// first lines.
pub open spec fn prepared_for(commits: Seq<PreparedCommit>, lines: Seq<Seq<char>>) -> bool {
    &&& commits.len() <= lines.len()
    &&& forall|i: int|
        0 <= i < commits.len() ==> names_object(lines[i]) && (#[trigger] commits[i]).oid@
            == named_id(lines[i])
}

/// Whether `commits` are the commits that `lines` name, the one of the last line
/// first.
pub open spec fn bottom_to_top(commits: Seq<PreparedCommit>, lines: Seq<Seq<char>>) -> bool {
    &&& commits.len() == lines.len()
    &&& forall|i: int|
        0 <= i < commits.len() ==> names_object(lines[lines.len() - 1 - i])
            && (#[trigger] commits[i]).oid@ == named_id(lines[lines.len() - 1 - i])
}

/// The commits of a range, as far as they are prepared.
pub struct CommitRange {
    lines: Vec<String>,
    commits: Vec<PreparedCommit>,
}

/// What is next for a range.
pub enum RangeStep {
    /// A commit is to be prepared.
    Prepare(PendingCommit),
    /// All commits are prepared: here they are, the oldest first.
    Finished(Vec<PreparedCommit>),
    /// The next line is no commit id.
    Failed(SprError),
}

/// A commit of a range that is to be prepared.
pub struct PendingCommit {
    oid: Oid,
    range: CommitRange,
}

impl CommitRange {
    #[verifier::type_invariant]
    spec fn wf(self) -> bool {
        prepared_for(self.commits@, texts(self.lines@))
    }

    /// The commit ids that were read.
    pub closed spec fn lines(self) -> Seq<Seq<char>> {
        texts(self.lines@)
    }

    /// The commits that are prepared, in the order of the lines.
    pub closed spec fn commits(self) -> Seq<PreparedCommit> {
        self.commits@
    }

    /// Whether `step` is what is next.
    pub open spec fn steps_to(self, step: RangeStep) -> bool {
        &&& prepared_for(self.commits(), self.lines())
        &&& match step {
            RangeStep::Prepare(pending) => {
                &&& self.commits().len() < self.lines().len()
                &&& names_object(self.lines()[self.commits().len() as int])
                &&& pending.oid()@ == named_id(self.lines()[self.commits().len() as int])
                &&& pending.range() == self
            },
            RangeStep::Finished(commits) => {
                &&& self.commits().len() == self.lines().len()
                &&& commits@ == self.commits().reverse()
                &&& bottom_to_top(commits@, self.lines())
            },
            RangeStep::Failed(error) => {
                &&& self.commits().len() < self.lines().len()
                &&& !names_object(self.lines()[self.commits().len() as int])
                &&& error@ == seq![
                    unreadable_line(
                        self.lines()[self.commits().len() as int],
                        id_complaint(self.lines()[self.commits().len() as int]),
                    ),
                ]
            },
        }
    }

    /// Reads the next line.
    pub fn advance(self) -> (step: RangeStep)
        ensures
            self.steps_to(step),
    {
        proof {
            use_type_invariant(&self);
        }
        let next = self.commits.len();
        assert(texts(self.lines@).len() == self.lines@.len());
        if next == self.lines.len() {
            return RangeStep::Finished(reversed(self.commits));
        }
        let line = self.lines[next].as_str();
        assert(line@ == texts(self.lines@)[next as int]);
        match line_id(line, Oid::from_str(line)) {
            Ok(oid) => RangeStep::Prepare(PendingCommit { oid, range: self }),
            Err(error) => RangeStep::Failed(error),
        }
    }
}

impl PendingCommit {
    #[verifier::type_invariant]
    spec fn wf(self) -> bool {
        let lines = self.range.lines();
        let next = self.range.commits().len();
        &&& prepared_for(self.range.commits(), lines)
        &&& next < lines.len()
        &&& names_object(lines[next as int])
        &&& self.oid@ == named_id(lines[next as int])
    }

    /// The commit to prepare.
    pub closed spec fn oid(self) -> Oid {
        self.oid
    }

    /// The range that the commit belongs to.
    pub closed spec fn range(self) -> CommitRange {
        self.range
    }

    /// The commit to prepare.
    pub fn commit_oid(&self) -> (oid: Oid)
        ensures
            oid == self.oid(),
    {
        self.oid
    }

    /// Whether the range goes on to `range` with the commit prepared.
    pub open spec fn prepares(self, found: Found, range: CommitRange) -> bool {
        &&& goes_on(self.range(), range, found)
        &&& range.commits().last().oid == self.oid()
    }

    /// Prepares the commit: the range goes on with the next line.
    pub fn prepared(self, found: Found) -> (range: CommitRange)
        ensures
            self.prepares(found, range),
    {
        proof {
            use_type_invariant(&self);
        }
        let commit = prepare_commit(self.oid, found);
        let lines = self.range.lines;
        let mut commits = self.range.commits;
        commits.push(commit);
        assert(commits@.drop_last() =~= self.range.commits@);
        CommitRange { lines, commits }
    }
}

/// The commits in the opposite order.
fn reversed(commits: Vec<PreparedCommit>) -> (reversed: Vec<PreparedCommit>)
    ensures
        reversed@ == commits@.reverse(),
{
    let ghost all = commits@;
    let mut rest = commits;
    let mut reversed: Vec<PreparedCommit> = Vec::new();
    while rest.len() > 0
        invariant
            rest@.len() + reversed@.len() == all.len(),
            forall|i: int| 0 <= i < rest@.len() ==> rest@[i] == all[i],
            forall|i: int|
                0 <= i < reversed@.len() ==> reversed@[i] == all[all.len() - 1 - i],
        decreases rest@.len(),
    {
        if let Some(commit) = rest.pop() {
            reversed.push(commit);
        }
    }
    assert(reversed@ =~= all.reverse());
    reversed
}

/// Whether `commit` is prepared from what was `found` of it.
pub open spec fn prepared_with(commit: PreparedCommit, found: Found) -> bool {
    commit.prepared_from(commit.oid, found)
}

/// Whether a range went on from `before` to `after` with one more commit, of
/// which this was `found`.
pub open spec fn goes_on(before: CommitRange, after: CommitRange, found: Found) -> bool {
    &&& after.lines() == before.lines()
    &&& after.commits().len() == before.commits().len() + 1
    &&& after.commits().drop_last() == before.commits()
    &&& prepared_with(after.commits().last(), found)
}

/// However long a range takes, the lines stay those that were read at first,
/// and the commits are those that were prepared on the way, in that order.
pub proof fn commits_of_a_range(ranges: Seq<CommitRange>, found: Seq<Found>)
    requires
        ranges.len() == found.len() + 1,
        ranges[0].commits().len() == 0,
        forall|i: int|
            0 <= i < found.len() ==> goes_on(ranges[i], ranges[i + 1], #[trigger] found[i]),
    ensures
        ranges.last().lines() == ranges[0].lines(),
        ranges.last().commits().len() == found.len(),
        forall|i: int|
            0 <= i < found.len() ==> prepared_with(
                ranges.last().commits()[i],
                #[trigger] found[i],
            ),
    decreases found.len(),
{
    if found.len() > 0 {
        let earlier = ranges.drop_last();
        let last = found.len() - 1;
        assert forall|i: int| 0 <= i < found.drop_last().len() implies goes_on(
            earlier[i],
            earlier[i + 1],
            #[trigger] found.drop_last()[i],
        ) by {
            assert(found.drop_last()[i] == found[i]);
        }
        commits_of_a_range(earlier, found.drop_last());
        assert(goes_on(ranges[last], ranges[last + 1], found[last]));
        assert(earlier.last() == ranges[last]);
        assert forall|i: int| 0 <= i < found.len() implies prepared_with(
            ranges.last().commits()[i],
            #[trigger] found[i],
        ) by {
            if i < last {
                assert(found.drop_last()[i] == found[i]);
                assert(ranges.last().commits().drop_last()[i] == ranges.last().commits()[i]);
            }
        }
    }
}

/// What `jj` prints for `range_command`: an id for each commit, and a line feed
/// behind it.
pub open spec fn printed(oids: Seq<Oid>) -> Seq<char>
    decreases oids.len(),
{
    if oids.len() == 0 {
        Seq::empty()
    } else {
        (printed(oids.drop_last()) + hex_text(oids.last()@)).push('\n')
    }
}

/// Reading the ids that `jj` printed gives the commits that they were printed
/// for, in the order in which they were printed.
pub proof fn printed_ids_are_read_back(oids: Seq<Oid>)
    ensures
        filled_lines(printed(oids)).len() == oids.len(),
        forall|i: int|
            #![trigger oids[i]]
            0 <= i < oids.len() ==> {
                &&& names_object(filled_lines(printed(oids))[i])
                &&& named_id(filled_lines(printed(oids))[i]) == oids[i]@
            },
{
    lemma_printed_lines(oids);
    assert forall|i: int|
        #![trigger oids[i]]
        0 <= i < oids.len() implies {
        &&& names_object(filled_lines(printed(oids))[i])
        &&& named_id(filled_lines(printed(oids))[i]) == oids[i]@
    } by {
        reading_a_written_id(oids[i]);
    }
}

/// A finished range over the ids that `jj` printed, the newest first, holds these
/// commits with the oldest first.
pub proof fn finished_range_is_bottom_to_top(oids: Seq<Oid>, commits: Seq<PreparedCommit>)
    requires
        bottom_to_top(commits, filled_lines(printed(oids))),
    ensures
        commits.len() == oids.len(),
        forall|i: int|
            0 <= i < commits.len() ==> (#[trigger] commits[i]).oid@ == oids.reverse()[i]@,
{
    printed_ids_are_read_back(oids);
    assert forall|i: int| 0 <= i < commits.len() implies (#[trigger] commits[i]).oid@
        == oids.reverse()[i]@ by {
        let mirrored = oids[oids.len() - 1 - i];
    }
}

/// The commits of a linear history, oldest first, from the one at `from` to the
/// one at `to`, with or without the first.
pub open spec fn history_between(
    history: Seq<Oid>,
    from: int,
    to: int,
    is_inclusive: bool,
) -> Seq<Oid> {
    history.subrange(
        if is_inclusive {
            from
        } else {
            from + 1
        },
        to + 1,
    )
}

/// Whether `commits` are a finished range over what `jj` prints, newest first, for
/// a stretch of a history, each commit prepared from what the repository holds
/// of it.
pub open spec fn finished_between(
    commits: Seq<PreparedCommit>,
    history: Seq<Oid>,
    from: int,
    to: int,
    is_inclusive: bool,
    repository: spec_fn(Seq<u8>) -> Found,
) -> bool {
    &&& bottom_to_top(
        commits,
        filled_lines(printed(history_between(history, from, to, is_inclusive).reverse())),
    )
    &&& forall|i: int|
        0 <= i < commits.len() ==> prepared_with(
            #[trigger] commits[i],
            repository(commits[i].oid@),
        )
}

/// Whether two prepared commits are the same.
pub open spec fn same_commit(one: PreparedCommit, other: PreparedCommit) -> bool {
    &&& one.oid@ == other.oid@
    &&& one.short_id@ == other.short_id@
    &&& one.parent_oid@ == other.parent_oid@
    &&& one.message == other.message
    &&& one.pull_request_number == other.pull_request_number
    &&& one.message_changed == other.message_changed
    &&& one.dry_run_action == other.dry_run_action
}

/// A range over a stretch of a linear history holds its commits, the oldest
/// first.
pub proof fn range_follows_history(
    commits: Seq<PreparedCommit>,
    history: Seq<Oid>,
    from: int,
    to: int,
    is_inclusive: bool,
    repository: spec_fn(Seq<u8>) -> Found,
)
    requires
        0 <= from <= to < history.len(),
        finished_between(commits, history, from, to, is_inclusive, repository),
    ensures
        commits.len() == history_between(history, from, to, is_inclusive).len(),
        forall|i: int|
            0 <= i < commits.len() ==> (#[trigger] commits[i]).oid@ == history_between(
                history,
                from,
                to,
                is_inclusive,
            )[i]@,
{
    let stretch = history_between(history, from, to, is_inclusive);
    finished_range_is_bottom_to_top(stretch.reverse(), commits);
    assert(stretch.reverse().reverse() =~= stretch);
}

/// An inclusive range is the first commit followed by the exclusive range, and
/// both end with the last commit.
pub proof fn inclusive_range_adds_the_first_commit(
    inclusive: Seq<PreparedCommit>,
    exclusive: Seq<PreparedCommit>,
    history: Seq<Oid>,
    from: int,
    to: int,
    repository: spec_fn(Seq<u8>) -> Found,
)
    requires
        0 <= from < to < history.len(),
        finished_between(inclusive, history, from, to, true, repository),
        finished_between(exclusive, history, from, to, false, repository),
    ensures
        inclusive.len() == exclusive.len() + 1,
        inclusive.first().oid@ == history[from]@,
        forall|i: int|
            0 <= i < exclusive.len() ==> same_commit(inclusive[i + 1], #[trigger] exclusive[i]),
        inclusive.last().oid@ == history[to]@,
        exclusive.last().oid@ == history[to]@,
{
    range_follows_history(inclusive, history, from, to, true, repository);
    range_follows_history(exclusive, history, from, to, false, repository);
    assert forall|i: int| 0 <= i < exclusive.len() implies same_commit(
        inclusive[i + 1],
        #[trigger] exclusive[i],
    ) by {
        assert(inclusive[i + 1].oid@ == exclusive[i].oid@);
    }
}

/// The range from a revision to itself is the commit that the revision names,
/// where the range is inclusive, and holds nothing where it is not.
pub proof fn range_from_a_revision_to_itself(
    single: PreparedCommit,
    inclusive: Seq<PreparedCommit>,
    exclusive: Seq<PreparedCommit>,
    history: Seq<Oid>,
    at: int,
    repository: spec_fn(Seq<u8>) -> Found,
)
    requires
        0 <= at < history.len(),
        single.oid@ == named_id(trimmed(hex_text(history[at]@))),
        prepared_with(single, repository(single.oid@)),
        finished_between(inclusive, history, at, at, true, repository),
        finished_between(exclusive, history, at, at, false, repository),
    ensures
        names_object(trimmed(hex_text(history[at]@))),
        inclusive.len() == 1,
        same_commit(inclusive[0], single),
        exclusive.len() == 0,
{
    range_follows_history(inclusive, history, at, at, true, repository);
    range_follows_history(exclusive, history, at, at, false, repository);
    lemma_id_is_a_line(history[at]);
    reading_a_written_id(history[at]);
    assert(inclusive[0].oid@ == single.oid@);
}

/// Whether `range` is what is made of what `jj` gave for the commits of a range.
pub open spec fn reads_range(
    output: CommandOutput,
    range: Result<CommitRange, SprError>,
) -> bool {
    match (output.text(), range) {
        (Some(text), Ok(range)) => range.lines() == filled_lines(text) && range.commits()
            == Seq::<PreparedCommit>::empty(),
        (None, Err(error)) => output.refused(error),
        _ => false,
    }
}

proof fn lemma_range_counts(ranges: Seq<CommitRange>, found: Seq<Found>, k: int)
    requires
        ranges.len() == found.len() + 1,
        ranges[0].commits().len() == 0,
        forall|i: int|
            0 <= i < found.len() ==> goes_on(ranges[i], ranges[i + 1], #[trigger] found[i]),
        0 <= k <= found.len(),
    ensures
        ranges[k].commits().len() == k,
        ranges[k].lines() == ranges[0].lines(),
    decreases k,
{
    if k > 0 {
        lemma_range_counts(ranges, found, k - 1);
        let last = found[k - 1];
    }
}

/// Preparing the commits that `jj` printed, the newest first, asks for each of them
/// once, in the order in which they were printed, and ends with all of them in the
/// opposite order, each prepared from what was found of it.
pub proof fn preparing_all_commits(
    output: CommandOutput,
    oids: Seq<Oid>,
    ranges: Seq<CommitRange>,
    pending: Seq<PendingCommit>,
    found: Seq<Found>,
    commits: Vec<PreparedCommit>,
)
    requires
        output.success,
        output.stdout@ == encode_utf8(printed(oids)),
        ranges.len() == found.len() + 1,
        pending.len() == found.len(),
        reads_range(output, Ok(ranges[0])),
        forall|i: int|
            0 <= i < found.len() ==> ranges[i].steps_to(RangeStep::Prepare(pending[i]))
                && pending[i].prepares(#[trigger] found[i], ranges[i + 1]),
        ranges.last().steps_to(RangeStep::Finished(commits)),
    ensures
        found.len() == oids.len(),
        commits@.len() == oids.len(),
        forall|i: int| 0 <= i < oids.len() ==> (#[trigger] pending[i]).oid()@ == oids[i]@,
        forall|i: int|
            0 <= i < oids.len() ==> (#[trigger] commits@[i]).oid@ == oids[oids.len() - 1 - i]@,
        forall|i: int|
            0 <= i < oids.len() ==> (#[trigger] commits@[i]).prepared_from(
                pending[oids.len() - 1 - i].oid(),
                found[oids.len() - 1 - i],
            ),
{
    encoded_text_is_shown(printed(oids), output.stdout@);
    printed_ids_are_read_back(oids);
    let last = ranges.last();
    assert forall|i: int| 0 <= i < found.len() implies goes_on(
        ranges[i],
        ranges[i + 1],
        #[trigger] found[i],
    ) by {}
    commits_of_a_range(ranges, found);
    finished_range_is_bottom_to_top(oids, commits@);
    assert forall|i: int| 0 <= i < oids.len() implies (#[trigger] pending[i]).oid()@
        == oids[i]@ by {
        lemma_range_counts(ranges, found, i);
        assert(pending[i].prepares(found[i], ranges[i + 1]));
        let oid = oids[i];
    }
    assert forall|i: int| 0 <= i < oids.len() implies (#[trigger] commits@[i]).prepared_from(
        pending[oids.len() - 1 - i].oid(),
        found[oids.len() - 1 - i],
    ) by {
        let k = oids.len() - 1 - i;
        assert(commits@[i] == last.commits()[k]);
        lemma_later_commits_stay(ranges, found, k + 1, found.len() as int);
        lemma_range_counts(ranges, found, k + 1);
        assert(pending[k].prepares(found[k], ranges[k + 1]));
        assert(ranges[k + 1].commits().last() == last.commits()[k]);
    }
}

proof fn lemma_later_commits_stay(ranges: Seq<CommitRange>, found: Seq<Found>, from: int, to: int)
    requires
        ranges.len() == found.len() + 1,
        ranges[0].commits().len() == 0,
        forall|i: int|
            0 <= i < found.len() ==> goes_on(ranges[i], ranges[i + 1], #[trigger] found[i]),
        0 <= from <= to <= found.len(),
    ensures
        forall|i: int| 0 <= i < from ==> ranges[to].commits()[i] == ranges[from].commits()[i],
    decreases to,
{
    if from < to {
        lemma_later_commits_stay(ranges, found, from, to - 1);
        lemma_range_counts(ranges, found, to - 1);
        let last = found[to - 1];
        assert forall|i: int| 0 <= i < from implies ranges[to].commits()[i]
            == ranges[from].commits()[i] by {
            assert(ranges[to].commits().drop_last()[i] == ranges[to].commits()[i]);
        }
    }
}

/// A line that is not one to forty hexadecimal digits ends a range, and is told; a
/// line that is goes on to be prepared.
pub proof fn lines_that_are_no_ids(range: CommitRange, step: RangeStep)
    requires
        range.steps_to(step),
        range.commits().len() < range.lines().len(),
    ensures
        ({
            let line = range.lines()[range.commits().len() as int];
            &&& step is Prepare <==> 1 <= line.len() <= 40 && line.all(
                |c: char| '0' <= c <= '9' || 'a' <= c <= 'f' || 'A' <= c <= 'F',
            )
            &&& step matches RangeStep::Failed(error) ==> error@ == seq![
                "Failed to parse commit ID '"@ + line + "': "@ + id_complaint(line),
            ]
            &&& step !is Finished
        }),
{
    named_ids_start_with_the_text(range.lines()[range.commits().len() as int]);
}

/// There are no commits where `jj` fails, whatever it printed.
pub proof fn failed_range_is_an_error(
    output: CommandOutput,
    range: Result<CommitRange, SprError>,
)
    requires
        !output.success,
        reads_range(output, range),
    ensures
        range is Err,
{
}

proof fn lemma_printed_lines(oids: Seq<Oid>)
    ensures
        pieces(printed(oids)).len() > 0,
        pieces(printed(oids)).last() == Seq::<char>::empty(),
        not_blank(pieces(printed(oids)).drop_last()) == oids.map_values(
            |oid: Oid| hex_text(oid@),
        ),
        filled_lines(printed(oids)) == oids.map_values(|oid: Oid| hex_text(oid@)),
    decreases oids.len(),
{
    let ids = oids.map_values(|oid: Oid| hex_text(oid@));
    let all = pieces(printed(oids));
    if oids.len() == 0 {
        assert(all.drop_last() =~= Seq::<Seq<char>>::empty());
        assert(ids =~= Seq::<Seq<char>>::empty());
    } else {
        let earlier = oids.drop_last();
        let id = hex_text(oids.last()@);
        lemma_printed_lines(earlier);
        lemma_id_is_a_line(oids.last());
        lemma_pieces_join(printed(earlier), id);
        assert(printed(oids).drop_last() =~= printed(earlier) + id);
        assert(Seq::<char>::empty() + id =~= id);
        let joined = pieces(printed(earlier)).drop_last().push(id);
        assert(all =~= joined.push(Seq::<char>::empty()));
        assert(all.drop_last() =~= joined);
        lemma_not_blank_push(pieces(printed(earlier)).drop_last(), id);
        assert(ids =~= earlier.map_values(|oid: Oid| hex_text(oid@)).push(id));
    }
    assert(all =~= all.drop_last().push(Seq::<char>::empty()));
    lemma_not_blank_push(all.drop_last(), Seq::<char>::empty());
    lemma_trimmed(Seq::<char>::empty(), 0, 0);
    assert(Seq::<char>::empty().subrange(0, 0) =~= Seq::<char>::empty());
}

proof fn lemma_id_is_a_line(oid: Oid)
    ensures
        hex_text(oid@).len() == 40,
        trimmed(hex_text(oid@)) == hex_text(oid@),
        forall|i: int| 0 <= i < 40 ==> (#[trigger] hex_text(oid@)[i]) != '\n',
{
    let id = hex_text(oid@);
    assert(oid@.len() == 20);
    assert forall|v: int| 0 <= v < 16 implies !white_space(#[trigger] hex_digit(v)) && hex_digit(v)
        != '\n' by {}
    lemma_trimmed(id, 0, 40);
    assert(id.subrange(0, 40) =~= id);
}

impl Jujutsu {
    /// The commits that were asked for with `range_command`, none of them
    /// prepared yet.
    pub fn get_prepared_commits_from_to(&self, output: CommandOutput) -> (range: Result<
        CommitRange,
        SprError,
    >)
        ensures
            reads_range(output, range),
    {
        match output.captured() {
            Ok(text) => Ok(CommitRange { lines: read_lines(text.as_str()), commits: Vec::new() }),
            Err(error) => Err(error),
        }
    }
}

} // verus!
