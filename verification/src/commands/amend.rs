//! Updating local commit messages with what is on GitHub.

use vstd::prelude::*;

use crate::error::SprError;
use crate::jj::PreparedCommit;
use crate::message::MessageSectionsMap;
use crate::rewrite::{none_changed, settled_up_to};

verus! {

/// What `amend` was asked to do.
#[derive(Debug)]
pub struct AmendOptions {
    /// Amend commits in range from base to revision.
    pub all: bool,
    /// Base revision for a range.
    pub base: Option<String>,
    /// The revisions to operate on, one or a range.
    pub revision: Option<String>,
}

/// What the options were read as.
#[derive(Debug)]
pub struct RevisionRange {
    pub use_range_mode: bool,
    pub base_rev: String,
    pub target_rev: String,
    pub is_inclusive: bool,
}

/// The commits to amend.
#[derive(Debug)]
pub enum Selection {
    Range { from_revision: String, to_revision: String, is_inclusive: bool },
    Single { revision: String },
}

/// Whether `selection` is what the options select.
pub open spec fn selects(range: RevisionRange, selection: Selection) -> bool {
    selection == (if range.use_range_mode {
        Selection::Range {
            from_revision: range.base_rev,
            to_revision: range.target_rev,
            is_inclusive: range.is_inclusive,
        }
    } else {
        Selection::Single { revision: range.target_rev }
    })
}

/// A range is selected, from the base to the target, where a range is asked for,
/// and otherwise the target alone, whatever the base.
pub proof fn target_is_always_selected(range: RevisionRange, selection: Selection)
    requires
        selects(range, selection),
    ensures
        match selection {
            Selection::Range { from_revision, to_revision, is_inclusive } => {
                &&& range.use_range_mode
                &&& from_revision == range.base_rev
                &&& to_revision == range.target_rev
                &&& is_inclusive == range.is_inclusive
            },
            Selection::Single { revision } => !range.use_range_mode && revision
                == range.target_rev,
        },
{
}

/// The commits that the options select.
pub fn select(range: RevisionRange) -> (selection: Selection)
    ensures
        selects(range, selection),
{
    if range.use_range_mode {
        Selection::Range {
            from_revision: range.base_rev,
            to_revision: range.target_rev,
            is_inclusive: range.is_inclusive,
        }
    } else {
        Selection::Single { revision: range.target_rev }
    }
}

/// What a commit went through: the sections that its pull request has, where it
/// has one, and whether the message it is left with is invalid.
pub struct Review {
    pub sections: Option<MessageSectionsMap>,
    pub invalid: bool,
}

/// A commit that has the message of its pull request. One without sections from
/// a pull request stays as it is.
pub open spec fn amended(
    commit: PreparedCommit,
    sections: Option<MessageSectionsMap>,
) -> PreparedCommit {
    match sections {
        Some(sections) => PreparedCommit { message: sections, message_changed: true, ..commit },
        None => commit,
    }
}

/// Whether `commits` are those of `start`, amended as far as the reviews go.
pub open spec fn amended_by(
    commits: Seq<PreparedCommit>,
    start: Seq<PreparedCommit>,
    reviews: Seq<Review>,
) -> bool {
    &&& commits.len() == start.len()
    &&& reviews.len() <= start.len()
    &&& forall|i: int|
        0 <= i < commits.len() ==> (#[trigger] commits[i]) == (if i < reviews.len() {
            amended(start[i], reviews[i].sections)
        } else {
            start[i]
        })
    &&& forall|i: int|
        #![trigger reviews[i]]
        0 <= i < reviews.len() ==> (reviews[i].sections is Some
            <==> start[i].pull_request_number is Some)
}

/// Whether one of the reviews found an invalid message.
pub open spec fn any_invalid(reviews: Seq<Review>) -> bool {
    exists|i: int| 0 <= i < reviews.len() && (#[trigger] reviews[i]).invalid
}

/// How `amend` starts.
pub enum AmendStart {
    /// There is nothing to do: say so.
    Nothing { icon: String, text: String },
    /// There are commits to go through.
    Commits(Amend),
}

/// Commits that are being amended, in their order.
pub struct Amend {
    commits: Vec<PreparedCommit>,
    next: usize,
    failure: bool,
    start: Ghost<Seq<PreparedCommit>>,
    reviews: Ghost<Seq<Review>>,
}

/// What is next.
pub enum AmendStep {
    /// A commit is to be amended.
    Commit(PendingAmend),
    /// All commits are amended: their messages are to be written back.
    Finished(Amended),
}

/// A commit whose title is to be shown.
pub struct PendingAmend {
    amend: Amend,
}

/// What follows when the title of a commit is shown.
pub enum AmendNext {
    /// Its pull request is to be fetched.
    Fetch(PendingFetch),
    /// It has none: its message is to be validated.
    Validate(FetchedAmend),
}

/// A commit whose pull request is to be fetched.
pub struct PendingFetch {
    amend: Amend,
    number: u64,
}

/// A commit that has the message it is left with, which is to be validated.
pub struct FetchedAmend {
    commits: Vec<PreparedCommit>,
    at: usize,
    failure: bool,
    start: Ghost<Seq<PreparedCommit>>,
    reviews: Ghost<Seq<Review>>,
    sections: Ghost<Option<MessageSectionsMap>>,
}

/// The commits with the messages of their pull requests.
pub struct Amended {
    pub commits: Vec<PreparedCommit>,
    /// One of the messages is invalid.
    pub failure: bool,
}

/// Whether `begin` is how `amend` starts with `commits`.
pub open spec fn starts(commits: Seq<PreparedCommit>, begin: AmendStart) -> bool {
    match begin {
        AmendStart::Nothing { icon, text } => {
            &&& commits.len() == 0
            &&& icon@ == "👋"@
            &&& text@ == "No commits found - nothing to do. Good bye!"@
        },
        AmendStart::Commits(amend) => {
            &&& commits.len() > 0
            &&& amend.start() == commits
            &&& amend.reviews() == Seq::<Review>::empty()
        },
    }
}

/// Starts to amend `commits`.
pub fn amend(commits: Vec<PreparedCommit>) -> (begin: AmendStart)
    ensures
        starts(commits@, begin),
{
    if commits.len() == 0 {
        AmendStart::Nothing {
            icon: "👋".to_string(),
            text: "No commits found - nothing to do. Good bye!".to_string(),
        }
    } else {
        let ghost start = commits@;
        AmendStart::Commits(
            Amend {
                commits,
                next: 0,
                failure: false,
                start: Ghost(start),
                reviews: Ghost(Seq::empty()),
            },
        )
    }
}

impl Amend {
    #[verifier::type_invariant]
    spec fn wf(self) -> bool {
        &&& self.next == self.reviews@.len()
        &&& amended_by(self.commits@, self.start@, self.reviews@)
        &&& self.failure == any_invalid(self.reviews@)
    }

    /// The commits as they were at first.
    pub closed spec fn start(self) -> Seq<PreparedCommit> {
        self.start@
    }

    /// What the first commits went through.
    pub closed spec fn reviews(self) -> Seq<Review> {
        self.reviews@
    }

    /// Whether `numbers` are the pull requests to ask GitHub for.
    pub open spec fn requests(self, numbers: Seq<Option<u64>>) -> bool {
        numbers == self.start().skip(self.reviews().len() as int).map_values(
            |commit: PreparedCommit| commit.pull_request_number,
        )
    }

    /// Whether this goes on to `fetched`, the next commit with the sections of its
    /// pull request.
    pub open spec fn takes_up(
        self,
        sections: Option<MessageSectionsMap>,
        fetched: FetchedAmend,
    ) -> bool {
        &&& self.reviews().len() < self.start().len()
        &&& self.start()[self.reviews().len() as int].pull_request_number is Some
            == sections is Some
        &&& fetched.start() == self.start()
        &&& fetched.reviews() == self.reviews()
        &&& fetched.sections() == sections
    }

    /// Whether the pull request of the next commit is to be fetched.
    pub open spec fn fetches(self, pending: PendingFetch) -> bool {
        &&& pending.amend() == self
        &&& self.start()[self.reviews().len() as int].pull_request_number == Some(pending.number())
    }

    /// Whether this ends with `amended`.
    pub open spec fn finishes(self, amended: Amended) -> bool {
        &&& self.reviews().len() == self.start().len()
        &&& amended_by(amended.commits@, self.start(), self.reviews())
        &&& amended.failure == any_invalid(self.reviews())
    }

    /// The pull requests to ask GitHub for, one for each commit that is not
    /// amended yet and has one.
    pub fn pull_requests(&self) -> (numbers: Vec<Option<u64>>)
        ensures
            self.requests(numbers@),
    {
        proof {
            use_type_invariant(self);
        }
        let mut numbers: Vec<Option<u64>> = Vec::new();
        let mut i: usize = self.next;
        while i < self.commits.len()
            invariant
                self.wf(),
                self.next <= i <= self.commits@.len(),
                numbers@.len() == i - self.next,
                forall|k: int|
                    0 <= k < numbers@.len() ==> (#[trigger] numbers@[k]) == self.start@[self.next
                        + k].pull_request_number,
            decreases self.commits@.len() - i,
        {
            numbers.push(self.commits[i].pull_request_number);
            i = i + 1;
        }
        assert(numbers@ =~= self.start@.skip(self.reviews@.len() as int).map_values(
            |commit: PreparedCommit| commit.pull_request_number,
        ));
        numbers
    }

    /// Finds the next commit.
    pub fn advance(self) -> (step: AmendStep)
        ensures
            match step {
                AmendStep::Commit(pending) => {
                    &&& self.reviews().len() < self.start().len()
                    &&& pending.amend() == self
                },
                AmendStep::Finished(amended) => self.finishes(amended),
            },
    {
        proof {
            use_type_invariant(&self);
        }
        if self.next < self.commits.len() {
            AmendStep::Commit(PendingAmend { amend: self })
        } else {
            AmendStep::Finished(Amended { commits: self.commits, failure: self.failure })
        }
    }
}

impl PendingAmend {
    #[verifier::type_invariant]
    spec fn wf(self) -> bool {
        self.amend.wf() && self.amend.reviews@.len() < self.amend.start@.len()
    }

    /// What the commit belongs to.
    pub closed spec fn amend(self) -> Amend {
        self.amend
    }

    /// The commit.
    pub fn commit(&self) -> (commit: &PreparedCommit)
        ensures
            self.amend().reviews().len() < self.amend().start().len(),
            commit == self.amend().start()[self.amend().reviews().len() as int],
    {
        proof {
            use_type_invariant(self);
        }
        &self.amend.commits[self.amend.next]
    }

    /// Goes on when the title of the commit is shown.
    pub fn shown(self) -> (next: AmendNext)
        ensures
            match next {
                AmendNext::Fetch(pending) => self.amend().fetches(pending),
                AmendNext::Validate(fetched) => self.amend().takes_up(None, fetched),
            },
    {
        proof {
            use_type_invariant(&self);
        }
        match self.amend.commits[self.amend.next].pull_request_number {
            Some(number) => AmendNext::Fetch(PendingFetch { amend: self.amend, number }),
            None => {
                let Amend { commits, next: at, failure, start, reviews } = self.amend;
                AmendNext::Validate(
                    FetchedAmend { commits, at, failure, start, reviews, sections: Ghost(None) },
                )
            },
        }
    }
}

impl PendingFetch {
    #[verifier::type_invariant]
    spec fn wf(self) -> bool {
        &&& self.amend.wf()
        &&& self.amend.reviews@.len() < self.amend.start@.len()
        &&& self.amend.start@[self.amend.reviews@.len() as int].pull_request_number == Some(
            self.number,
        )
    }

    /// What the commit belongs to.
    pub closed spec fn amend(self) -> Amend {
        self.amend
    }

    /// The pull request.
    pub closed spec fn number(self) -> u64 {
        self.number
    }

    /// The pull request to fetch.
    pub fn pull_request(&self) -> (number: u64)
        ensures
            number == self.number(),
    {
        self.number
    }

    /// Gives the commit the sections of its pull request.
    pub fn fetched(self, sections: MessageSectionsMap) -> (fetched: FetchedAmend)
        ensures
            self.amend().takes_up(Some(sections), fetched),
    {
        proof {
            use_type_invariant(&self);
        }
        let ghost given = sections;
        let Amend { mut commits, next: at, failure, start, reviews } = self.amend;
        commits[at].message = sections;
        commits[at].message_changed = true;
        FetchedAmend { commits, at, failure, start, reviews, sections: Ghost(Some(given)) }
    }
}

impl FetchedAmend {
    #[verifier::type_invariant]
    spec fn wf(self) -> bool {
        &&& self.at == self.reviews@.len()
        &&& self.at < self.start@.len()
        &&& forall|invalid: bool|
            amended_by(
                self.commits@,
                self.start@,
                self.reviews@.push(#[trigger] review(self.sections@, invalid)),
            )
        &&& self.failure == any_invalid(self.reviews@)
    }

    /// The commits as they were at first.
    pub closed spec fn start(self) -> Seq<PreparedCommit> {
        self.start@
    }

    /// What the commits before this one went through.
    pub closed spec fn reviews(self) -> Seq<Review> {
        self.reviews@
    }

    /// The sections that were fetched.
    pub closed spec fn sections(self) -> Option<MessageSectionsMap> {
        self.sections@
    }

    /// The commit, with the message to validate.
    pub fn commit(&self) -> (commit: &PreparedCommit)
        ensures
            self.reviews().len() < self.start().len(),
            commit == amended(self.start()[self.reviews().len() as int], self.sections()),
    {
        proof {
            use_type_invariant(self);
            let done = self.reviews@.push(review(self.sections@, true));
            assert(done[self.at as int].sections == self.sections@);
            assert(amended_by(self.commits@, self.start@, done));
        }
        &self.commits[self.at]
    }

    /// Whether this goes on to `amend`, with the message found valid or not.
    pub open spec fn validates(self, invalid: bool, amend: Amend) -> bool {
        &&& amend.start() == self.start()
        &&& amend.reviews() == self.reviews().push(review(self.sections(), invalid))
    }

    /// Goes on, with the message found valid or not.
    pub fn validated(self, invalid: bool) -> (amend: Amend)
        ensures
            self.validates(invalid, amend),
            amend.reviews().len() == self.reviews().len() + 1,
            amend.reviews().last().invalid == invalid,
            amend.reviews().last().sections == self.sections(),
    {
        proof {
            use_type_invariant(&self);
        }
        let FetchedAmend { commits, at, failure, start, reviews, sections } = self;
        let ghost done = reviews@.push(review(sections@, invalid));
        proof {
            assert(amended_by(commits@, start@, done));
            lemma_any_invalid(reviews@, review(sections@, invalid));
        }
        let count = commits.len();
        assert(at < count);
        Amend { commits, next: at + 1, failure: invalid || failure, start, reviews: Ghost(done) }
    }
}

/// A review.
pub open spec fn review(sections: Option<MessageSectionsMap>, invalid: bool) -> Review {
    Review { sections, invalid }
}

proof fn lemma_any_invalid(reviews: Seq<Review>, last: Review)
    ensures
        any_invalid(reviews.push(last)) == (any_invalid(reviews) || last.invalid),
{
    let all = reviews.push(last);
    if any_invalid(reviews) {
        let i = choose|i: int| 0 <= i < reviews.len() && (#[trigger] reviews[i]).invalid;
        assert(all[i].invalid);
    }
    if last.invalid {
        assert(all[reviews.len() as int].invalid);
    }
    if any_invalid(all) {
        let i = choose|i: int| 0 <= i < all.len() && (#[trigger] all[i]).invalid;
        if i < reviews.len() {
            assert(reviews[i].invalid);
        }
    }
}

/// Whether `result` is what `amend` ends with.
pub open spec fn ends_with(failure: bool, result: Result<(), SprError>) -> bool {
    match result {
        Ok(_) => !failure,
        Err(error) => failure && error@ == Seq::<Seq<char>>::empty(),
    }
}

/// What `amend` ends with, once the messages are written back. What is wrong
/// with a message was told when it was validated.
pub fn outcome(failure: bool) -> (result: Result<(), SprError>)
    ensures
        ends_with(failure, result),
{
    if failure {
        Err(SprError::empty())
    } else {
        Ok(())
    }
}

/// Amending replaces the message of every commit that has a pull request, marks
/// it to be written back, and leaves the other commits alone.
pub proof fn amending_follows_pull_requests(
    commits: Seq<PreparedCommit>,
    start: Seq<PreparedCommit>,
    reviews: Seq<Review>,
)
    requires
        amended_by(commits, start, reviews),
        reviews.len() == start.len(),
    ensures
        forall|i: int|
            #![trigger commits[i]]
            0 <= i < commits.len() ==> {
                &&& commits[i].oid == start[i].oid
                &&& commits[i].pull_request_number == start[i].pull_request_number
                &&& if start[i].pull_request_number is Some {
                    commits[i].message_changed && reviews[i].sections == Some(commits[i].message)
                } else {
                    commits[i] == start[i]
                }
            },
{
    assert forall|i: int|
        #![trigger commits[i]]
        0 <= i < commits.len() implies (reviews[i].sections is Some
        <==> start[i].pull_request_number is Some) by {
        let review = reviews[i];
    }
}

/// Of commits whose messages had not changed, amending has exactly those written
/// back that have a pull request. Afterwards these have its message, the others
/// are as they were, and no message is left to be written back.
pub proof fn amending_rewrites_commits_with_pull_requests(
    start: Seq<PreparedCommit>,
    reviews: Seq<Review>,
    amended: Seq<PreparedCommit>,
    rewritten: Seq<PreparedCommit>,
)
    requires
        none_changed(start, 0, start.len() as int),
        amended_by(amended, start, reviews),
        reviews.len() == start.len(),
        settled_up_to(rewritten, amended, amended.len() as int),
    ensures
        rewritten.len() == start.len(),
        none_changed(rewritten, 0, rewritten.len() as int),
        forall|i: int|
            #![trigger amended[i]]
            0 <= i < amended.len() ==> amended[i].message_changed
                == start[i].pull_request_number is Some,
        forall|i: int|
            #![trigger rewritten[i]]
            0 <= i < rewritten.len() ==> if start[i].pull_request_number is Some {
                reviews[i].sections == Some(rewritten[i].message)
            } else {
                rewritten[i] == start[i]
            },
{
    amending_follows_pull_requests(amended, start, reviews);
    assert forall|i: int|
        #![trigger rewritten[i]]
        0 <= i < rewritten.len() implies if start[i].pull_request_number is Some {
        reviews[i].sections == Some(rewritten[i].message)
    } else {
        rewritten[i] == start[i]
    } by {
        let a = amended[i];
        let s = start[i];
        assert(!s.message_changed);
    }
    assert forall|i: int|
        #![trigger amended[i]]
        0 <= i < amended.len() implies amended[i].message_changed == start[i].pull_request_number
        is Some by {
        assert(!start[i].message_changed);
    }
}

/// However the commits are amended, one after the other, with the sections that
/// were fetched for each and each message found valid or not: every commit with a
/// pull request ends with the sections that were fetched for it and is marked as
/// changed, and is otherwise as it was; every other commit is as it was in all; and
/// the command fails where one of the messages was found invalid, whichever it was,
/// and in no other case.
pub proof fn amending_all_commits(
    commits: Seq<PreparedCommit>,
    begin: AmendStart,
    rounds: Seq<Amend>,
    fetched: Seq<FetchedAmend>,
    sections: Seq<Option<MessageSectionsMap>>,
    invalid: Seq<bool>,
    amended: Amended,
    result: Result<(), SprError>,
)
    requires
        starts(commits, begin),
        rounds.len() == invalid.len() + 1,
        fetched.len() == invalid.len(),
        sections.len() == invalid.len(),
        begin == AmendStart::Commits(rounds[0]),
        forall|i: int|
            #![trigger fetched[i]]
            0 <= i < fetched.len() ==> rounds[i].takes_up(sections[i], fetched[i])
                && fetched[i].validates(invalid[i], rounds[i + 1]),
        rounds.last().finishes(amended),
        ends_with(amended.failure, result),
    ensures
        invalid.len() == commits.len(),
        amended.commits@.len() == commits.len(),
        forall|i: int|
            #![trigger amended.commits@[i]]
            0 <= i < commits.len() ==> {
                let before = commits[i];
                let after = amended.commits@[i];
                if before.pull_request_number is Some {
                    &&& sections[i] == Some(after.message)
                    &&& after.message_changed
                    &&& after.oid == before.oid
                    &&& after.short_id == before.short_id
                    &&& after.parent_oid == before.parent_oid
                    &&& after.pull_request_number == before.pull_request_number
                    &&& after.dry_run_action == before.dry_run_action
                } else {
                    after == before
                }
            },
        amended.failure <==> exists|i: int| 0 <= i < invalid.len() && #[trigger] invalid[i],
        result is Err <==> exists|i: int| 0 <= i < invalid.len() && #[trigger] invalid[i],
        result matches Err(error) ==> error@.len() == 0,
{
    lemma_rounds(commits, rounds, fetched, sections, invalid);
    let reviews = rounds.last().reviews();
    assert forall|i: int|
        #![trigger amended.commits@[i]]
        0 <= i < commits.len() implies sections[i] is Some == commits[i].pull_request_number is Some
        && amended.commits@[i] == (match sections[i] {
        Some(message) => PreparedCommit { message, message_changed: true, ..commits[i] },
        None => commits[i],
    }) by {
        assert(reviews[i].sections == sections[i]);
    }
    if any_invalid(reviews) {
        let i = choose|i: int| 0 <= i < reviews.len() && (#[trigger] reviews[i]).invalid;
        assert(invalid[i]);
    }
    if exists|i: int| 0 <= i < invalid.len() && #[trigger] invalid[i] {
        let i = choose|i: int| 0 <= i < invalid.len() && #[trigger] invalid[i];
        assert(reviews[i].invalid);
    }
}

proof fn lemma_rounds(
    commits: Seq<PreparedCommit>,
    rounds: Seq<Amend>,
    fetched: Seq<FetchedAmend>,
    sections: Seq<Option<MessageSectionsMap>>,
    invalid: Seq<bool>,
)
    requires
        rounds.len() == invalid.len() + 1,
        fetched.len() == invalid.len(),
        sections.len() == invalid.len(),
        rounds[0].start() == commits,
        rounds[0].reviews().len() == 0,
        forall|i: int|
            #![trigger fetched[i]]
            0 <= i < fetched.len() ==> rounds[i].takes_up(sections[i], fetched[i])
                && fetched[i].validates(invalid[i], rounds[i + 1]),
    ensures
        rounds.last().start() == commits,
        rounds.last().reviews().len() == invalid.len(),
        forall|i: int|
            #![trigger rounds.last().reviews()[i]]
            0 <= i < invalid.len() ==> rounds.last().reviews()[i].sections == sections[i]
                && rounds.last().reviews()[i].invalid == invalid[i],
    decreases invalid.len(),
{
    if invalid.len() > 0 {
        let last = invalid.len() - 1;
        let fewer = fetched.drop_last();
        assert forall|i: int|
            #![trigger fewer[i]]
            0 <= i < fewer.len() implies rounds.drop_last()[i].takes_up(
            sections.drop_last()[i],
            fewer[i],
        ) && fewer[i].validates(invalid.drop_last()[i], rounds.drop_last()[i + 1]) by {
            assert(fewer[i] == fetched[i]);
        }
        lemma_rounds(
            commits,
            rounds.drop_last(),
            fewer,
            sections.drop_last(),
            invalid.drop_last(),
        );
        let round = fetched[last];
        assert(rounds.drop_last().last() == rounds[last]);
        assert forall|i: int|
            #![trigger rounds.last().reviews()[i]]
            0 <= i < invalid.len() implies rounds.last().reviews()[i].sections == sections[i]
            && rounds.last().reviews()[i].invalid == invalid[i] by {
            if i < last {
                assert(rounds.last().reviews()[i] == rounds[last].reviews()[i]);
            }
        }
    }
}

/// GitHub is asked at first for the pull request of every commit, in the order of
/// the commits, and of none that has no pull request.
pub proof fn pull_requests_of_all_commits(
    commits: Seq<PreparedCommit>,
    amend: Amend,
    numbers: Seq<Option<u64>>,
)
    requires
        starts(commits, AmendStart::Commits(amend)),
        amend.requests(numbers),
    ensures
        numbers.len() == commits.len(),
        forall|i: int|
            0 <= i < commits.len() ==> #[trigger] numbers[i] == commits[i].pull_request_number,
{
}

/// The pull request that is fetched for a commit is the one that the commit has, and
/// the one that was asked for at its place.
pub proof fn pull_request_of_the_commit_is_fetched(
    amend: Amend,
    numbers: Seq<Option<u64>>,
    pending: PendingFetch,
)
    requires
        amend.reviews().len() < amend.start().len(),
        amend.requests(numbers),
        amend.fetches(pending),
    ensures
        amend.start()[amend.reviews().len() as int].pull_request_number == Some(pending.number()),
        numbers.first() == Some(pending.number()),
        pending.amend() == amend,
{
}

/// There is nothing to amend where there are no commits, and only there.
pub proof fn nothing_without_commits(commits: Seq<PreparedCommit>, begin: AmendStart)
    requires
        starts(commits, begin),
    ensures
        begin is Nothing <==> commits.len() == 0,
        begin matches AmendStart::Nothing { icon, text } ==> icon@ == "👋"@ && text@
            == "No commits found - nothing to do. Good bye!"@,
        begin matches AmendStart::Commits(amend) ==> amend.start() == commits
            && amend.reviews().len() == 0,
{
}

/// The message that is validated is the one that was fetched, or that of the commit
/// where nothing was fetched, and the commit is still the same one.
pub proof fn fetched_message_is_validated(
    commit: PreparedCommit,
    sections: MessageSectionsMap,
)
    ensures
        amended(commit, None) == commit,
        amended(commit, Some(sections)).message == sections,
        amended(commit, Some(sections)).message_changed,
        amended(commit, Some(sections)).oid == commit.oid,
        amended(commit, Some(sections)).short_id == commit.short_id,
        amended(commit, Some(sections)).parent_oid == commit.parent_oid,
        amended(commit, Some(sections)).pull_request_number == commit.pull_request_number,
        amended(commit, Some(sections)).dry_run_action == commit.dry_run_action,
{
}

} // verus!
