//! Finding the Git repository behind a workspace.
//!
//! A workspace may have it next to itself, as `.git`, or inside
//! `.jj/repo/store`, where the file `git_target` holds its path. In a workspace
//! other than the first one `.jj/repo` is a file that holds the path of the
//! directory to look in.

use vstd::prelude::*;
use vstd::utf8::{decode_utf8, encode_utf8, valid_utf8};

use crate::command::{not_text, text_of};
use crate::error::SprError;
use crate::text::{encoded_text_is_shown, texts, trim, trimmed, utf8_complaint};

verus! {

/// Where a path starts.
#[derive(Debug, Clone, Copy, PartialEq, Eq, Structural)]
pub enum Base {
    /// The root of the workspace.
    Workspace,
    /// The path that was resolved last.
    Resolved,
    /// Nowhere: the parts are the whole path.
    Nowhere,
}

/// A path: where it starts, and what is joined to that.
#[derive(Debug)]
pub struct Place {
    pub base: Base,
    pub parts: Vec<String>,
}

impl View for Place {
    type V = (Base, Seq<Seq<char>>);

    open spec fn view(&self) -> (Base, Seq<Seq<char>>) {
        (self.base, texts(self.parts@))
    }
}

impl Place {
    fn at(base: Base) -> (place: Place)
        ensures
            place@ == (base, Seq::<Seq<char>>::empty()),
    {
        let place = Place { base, parts: Vec::new() };
        assert(texts(place.parts@) =~= Seq::<Seq<char>>::empty());
        place
    }

    fn join(self, part: &str) -> (place: Place)
        ensures
            place@ == (self@.0, self@.1.push(part@)),
    {
        let Place { base, mut parts } = self;
        parts.push(part.to_string());
        let place = Place { base, parts };
        assert(texts(place.parts@) =~= texts(self.parts@).push(part@));
        place
    }
}

/// Which directory stands for `.jj/repo`.
#[derive(Debug, Clone, Copy, PartialEq, Eq, Structural)]
pub enum RepoDir {
    /// The one of that name.
    Own,
    /// The one that the file of that name points at.
    Pointed,
}

/// How far the search has come.
#[derive(Debug)]
pub enum GitSearch {
    /// Is there a `.git` in the workspace?
    DotGit,
    /// Is `.jj/repo` a file?
    Pointer,
    /// What does that file hold?
    ReadPointer,
    /// Where does it point?
    ResolvePointer { relative: String },
    /// Is there a `git_target` in the store?
    Target { repo: RepoDir },
    /// What does that file hold?
    ReadTarget { repo: RepoDir },
    /// Is that an absolute path?
    TargetKind { repo: RepoDir, path: String },
    /// Where is it, then?
    ResolveTarget { repo: RepoDir, path: String },
    /// Here is the repository.
    Open { place: Place },
    /// There is none.
    Failed { error: SprError },
}

/// What is asked about the disk.
#[derive(Debug)]
pub enum Question {
    Exists(Place),
    IsFile(Place),
    ReadBytes(Place),
    ReadText(Place),
    IsAbsolute(String),
    Resolve(Place),
    /// Nothing: the search is over.
    Nothing,
}

/// What the disk has to say.
#[derive(Debug)]
pub enum Answer {
    Flag(bool),
    Bytes(Vec<u8>),
    Text(String),
    Resolved,
}

impl Question {
    /// Whether `answer` is an answer to this.
    pub open spec fn fits(self, answer: Answer) -> bool {
        match self {
            Question::Exists(_) => answer is Flag,
            Question::IsFile(_) => answer is Flag,
            Question::ReadBytes(_) => answer is Bytes,
            Question::ReadText(_) => answer is Text,
            Question::IsAbsolute(_) => answer is Flag,
            Question::Resolve(_) => answer is Resolved,
            Question::Nothing => false,
        }
    }
}

/// The directory that stands for `.jj/repo`.
pub open spec fn repo_place(repo: RepoDir) -> (Base, Seq<Seq<char>>) {
    match repo {
        RepoDir::Own => (Base::Workspace, seq![".jj"@, "repo"@]),
        RepoDir::Pointed => (Base::Resolved, Seq::empty()),
    }
}

/// The store inside the directory that stands for `.jj/repo`, and what is joined
/// to it.
pub open spec fn store_place(repo: RepoDir, part: Seq<char>) -> (Base, Seq<Seq<char>>) {
    (repo_place(repo).0, repo_place(repo).1.push("store"@).push(part))
}

/// What is told where there is no repository.
pub open spec fn no_backend() -> Seq<char> {
    "Could not find Git backend for Jujutsu repository. Ensure you have a Jujutsu repository with a Git backend."@
}

impl GitSearch {
    /// Whether `question` is what is asked now.
    pub open spec fn asks(self, question: Question) -> bool {
        match self {
            GitSearch::DotGit => question matches Question::Exists(place) && place@ == (
                Base::Workspace,
                seq![".git"@],
            ),
            GitSearch::Pointer => question matches Question::IsFile(place) && place@
                == repo_place(RepoDir::Own),
            GitSearch::ReadPointer => question matches Question::ReadBytes(place) && place@
                == repo_place(RepoDir::Own),
            GitSearch::ResolvePointer { relative } => question matches Question::Resolve(place)
                && place@ == (Base::Workspace, seq![".jj"@, relative@]),
            GitSearch::Target { repo } => question matches Question::Exists(place) && place@
                == store_place(repo, "git_target"@),
            GitSearch::ReadTarget { repo } => question matches Question::ReadText(place) && place@
                == store_place(repo, "git_target"@),
            GitSearch::TargetKind { repo, path } => question matches Question::IsAbsolute(text)
                && text@ == path@,
            GitSearch::ResolveTarget { repo, path } => question matches Question::Resolve(place)
                && place@ == store_place(repo, path@),
            GitSearch::Open { .. } => question is Nothing,
            GitSearch::Failed { .. } => question is Nothing,
        }
    }

    /// Whether `answer` is an answer to what is asked now.
    pub open spec fn awaits(self, answer: Answer) -> bool {
        match self {
            GitSearch::DotGit => answer is Flag,
            GitSearch::Pointer => answer is Flag,
            GitSearch::ReadPointer => answer is Bytes,
            GitSearch::ResolvePointer { .. } => answer is Resolved,
            GitSearch::Target { .. } => answer is Flag,
            GitSearch::ReadTarget { .. } => answer is Text,
            GitSearch::TargetKind { .. } => answer is Flag,
            GitSearch::ResolveTarget { .. } => answer is Resolved,
            GitSearch::Open { .. } => false,
            GitSearch::Failed { .. } => false,
        }
    }

    /// Whether the search goes on from here to `after` when it gets `answer`.
    pub open spec fn leads_to(self, answer: Answer, after: GitSearch) -> bool {
        match (self, answer) {
            (GitSearch::DotGit, Answer::Flag(yes)) => if yes {
                after matches GitSearch::Open { place } && place@ == (
                    Base::Workspace,
                    Seq::<Seq<char>>::empty(),
                )
            } else {
                after is Pointer
            },
            (GitSearch::Pointer, Answer::Flag(yes)) => if yes {
                after is ReadPointer
            } else {
                after == (GitSearch::Target { repo: RepoDir::Own })
            },
            (GitSearch::ReadPointer, Answer::Bytes(bytes)) => if valid_utf8(bytes@) {
                after matches GitSearch::ResolvePointer { relative } && relative@ == trimmed(
                    decode_utf8(bytes@),
                )
            } else {
                after matches GitSearch::Failed { error } && error@ == not_text(
                    bytes@,
                    ".jj/repo pointer was not valid UTF-8"@,
                )
            },
            (GitSearch::ResolvePointer { .. }, Answer::Resolved) => after == (GitSearch::Target {
                repo: RepoDir::Pointed,
            }),
            (GitSearch::Target { repo }, Answer::Flag(yes)) => if yes {
                after == (GitSearch::ReadTarget { repo })
            } else {
                after matches GitSearch::Failed { error } && error@ == seq![no_backend()]
            },
            (GitSearch::ReadTarget { repo }, Answer::Text(text)) => {
                after matches GitSearch::TargetKind { repo: same, path } && same == repo && path@
                    == trimmed(text@)
            },
            (GitSearch::TargetKind { repo, path }, Answer::Flag(yes)) => if yes {
                after matches GitSearch::Open { place } && place@ == (Base::Nowhere, seq![path@])
            } else {
                after == (GitSearch::ResolveTarget { repo, path })
            },
            (GitSearch::ResolveTarget { .. }, Answer::Resolved) => {
                after matches GitSearch::Open { place } && place@ == (
                    Base::Resolved,
                    Seq::<Seq<char>>::empty(),
                )
            },
            _ => false,
        }
    }

    /// How many questions are left at most.
    pub open spec fn questions_left(self) -> nat {
        match self {
            GitSearch::DotGit => 8,
            GitSearch::Pointer => 7,
            GitSearch::ReadPointer => 6,
            GitSearch::ResolvePointer { .. } => 5,
            GitSearch::Target { .. } => 4,
            GitSearch::ReadTarget { .. } => 3,
            GitSearch::TargetKind { .. } => 2,
            GitSearch::ResolveTarget { .. } => 1,
            GitSearch::Open { .. } => 0,
            GitSearch::Failed { .. } => 0,
        }
    }

    /// What is added to the complaint where a question cannot be answered.
    pub open spec fn trouble(self) -> Option<Seq<char>> {
        match self {
            GitSearch::ReadPointer => Some("failed to read .jj/repo pointer file"@),
            GitSearch::ResolvePointer { .. } => Some("failed to resolve .jj/repo pointer"@),
            GitSearch::ReadTarget { .. } => Some("failed to read .jj/repo/store/git_target"@),
            _ => None,
        }
    }
}

/// The directory that stands for `.jj/repo`.
fn repo_dir(repo: RepoDir) -> (place: Place)
    ensures
        place@ == repo_place(repo),
{
    match repo {
        RepoDir::Own => {
            let place = Place::at(Base::Workspace).join(".jj").join("repo");
            assert(place@.1 =~= seq![".jj"@, "repo"@]);
            place
        },
        RepoDir::Pointed => Place::at(Base::Resolved),
    }
}

/// Whether `search` is about to begin.
pub open spec fn begins(search: GitSearch) -> bool {
    search is DotGit
}

/// Starts to look for the Git repository.
pub fn find_git_repo() -> (search: GitSearch)
    ensures
        begins(search),
{
    GitSearch::DotGit
}

impl GitSearch {
    /// What is asked now.
    pub fn question(&self) -> (question: Question)
        ensures
            self.asks(question),
            forall|answer: Answer| #[trigger] question.fits(answer) <==> self.awaits(answer),
    {
        match self {
            GitSearch::DotGit => {
                let place = Place::at(Base::Workspace).join(".git");
                assert(place@.1 =~= seq![".git"@]);
                Question::Exists(place)
            },
            GitSearch::Pointer => Question::IsFile(repo_dir(RepoDir::Own)),
            GitSearch::ReadPointer => Question::ReadBytes(repo_dir(RepoDir::Own)),
            GitSearch::ResolvePointer { relative } => {
                let place = Place::at(Base::Workspace).join(".jj").join(relative.as_str());
                assert(place@.1 =~= seq![".jj"@, relative@]);
                Question::Resolve(place)
            },
            GitSearch::Target { repo } => Question::Exists(
                repo_dir(*repo).join("store").join("git_target"),
            ),
            GitSearch::ReadTarget { repo } => Question::ReadText(
                repo_dir(*repo).join("store").join("git_target"),
            ),
            GitSearch::TargetKind { repo: _, path } => Question::IsAbsolute(path.clone()),
            GitSearch::ResolveTarget { repo, path } => Question::Resolve(
                repo_dir(*repo).join("store").join(path.as_str()),
            ),
            GitSearch::Open { .. } => Question::Nothing,
            GitSearch::Failed { .. } => Question::Nothing,
        }
    }

    /// Goes on with the answer to what was asked.
    pub fn next(self, answer: Answer) -> (after: GitSearch)
        requires
            self.awaits(answer),
        ensures
            self.leads_to(answer, after),
            after.questions_left() < self.questions_left(),
    {
        match (self, answer) {
            (GitSearch::DotGit, Answer::Flag(yes)) => if yes {
                GitSearch::Open { place: Place::at(Base::Workspace) }
            } else {
                GitSearch::Pointer
            },
            (GitSearch::Pointer, Answer::Flag(yes)) => if yes {
                GitSearch::ReadPointer
            } else {
                GitSearch::Target { repo: RepoDir::Own }
            },
            (GitSearch::ReadPointer, Answer::Bytes(bytes)) => {
                match text_of(bytes, ".jj/repo pointer was not valid UTF-8") {
                    Ok(text) => GitSearch::ResolvePointer {
                        relative: trim(text.as_str()).to_string(),
                    },
                    Err(error) => GitSearch::Failed { error },
                }
            },
            (GitSearch::ResolvePointer { .. }, Answer::Resolved) => GitSearch::Target {
                repo: RepoDir::Pointed,
            },
            (GitSearch::Target { repo }, Answer::Flag(yes)) => if yes {
                GitSearch::ReadTarget { repo }
            } else {
                GitSearch::Failed {
                    error: SprError::new(
                        "Could not find Git backend for Jujutsu repository. Ensure you have a Jujutsu repository with a Git backend.".to_string(),
                    ),
                }
            },
            (GitSearch::ReadTarget { repo }, Answer::Text(text)) => GitSearch::TargetKind {
                repo,
                path: trim(text.as_str()).to_string(),
            },
            (GitSearch::TargetKind { repo, path }, Answer::Flag(yes)) => if yes {
                let place = Place::at(Base::Nowhere).join(path.as_str());
                assert(place@.1 =~= seq![path@]);
                GitSearch::Open { place }
            } else {
                GitSearch::ResolveTarget { repo, path }
            },
            (GitSearch::ResolveTarget { .. }, Answer::Resolved) => GitSearch::Open {
                place: Place::at(Base::Resolved),
            },
            (search, _) => search,
        }
    }

    /// Whether `error` is what is told where the question cannot be answered.
    pub open spec fn gives_up(self, complaint: Seq<char>, error: SprError) -> bool {
        error@ == (match self.trouble() {
            Some(trouble) => seq![complaint, trouble],
            None => seq![complaint],
        })
    }

    /// What is told where the question cannot be answered.
    pub fn unanswered(&self, complaint: String) -> (error: SprError)
        ensures
            self.gives_up(complaint@, error),
    {
        let error = SprError::new(complaint);
        assert(forall|trouble: Seq<char>| #[trigger]
            error@.push(trouble) =~= seq![complaint@, trouble]);
        match self {
            GitSearch::ReadPointer => error.context(
                "failed to read .jj/repo pointer file".to_string(),
            ),
            GitSearch::ResolvePointer { .. } => error.context(
                "failed to resolve .jj/repo pointer".to_string(),
            ),
            GitSearch::ReadTarget { .. } => error.context(
                "failed to read .jj/repo/store/git_target".to_string(),
            ),
            _ => error,
        }
    }
}

/// What a search can learn of a disk.
pub struct Disk {
    /// There is a `.git` in the workspace.
    pub dot_git: bool,
    /// What `.jj/repo` holds, where it is a file.
    pub pointer: Option<Seq<u8>>,
    /// What `git_target` holds, where it is in the store.
    pub target: Option<Seq<char>>,
    /// That is an absolute path.
    pub absolute: bool,
}

impl Disk {
    /// Whether `answer` is what there is to say when `search` asks.
    pub open spec fn says(self, search: GitSearch, answer: Answer) -> bool {
        match (search, answer) {
            (GitSearch::DotGit, Answer::Flag(yes)) => yes == self.dot_git,
            (GitSearch::Pointer, Answer::Flag(yes)) => yes == self.pointer is Some,
            (GitSearch::ReadPointer, Answer::Bytes(bytes)) => self.pointer == Some(bytes@),
            (GitSearch::ResolvePointer { .. }, Answer::Resolved) => true,
            (GitSearch::Target { .. }, Answer::Flag(yes)) => yes == self.target is Some,
            (GitSearch::ReadTarget { .. }, Answer::Text(text)) => self.target == Some(text@),
            (GitSearch::TargetKind { .. }, Answer::Flag(yes)) => yes == self.absolute,
            (GitSearch::ResolveTarget { .. }, Answer::Resolved) => true,
            _ => false,
        }
    }

    /// Whether `.jj/repo` points at another directory.
    pub open spec fn points_elsewhere(self) -> bool {
        self.pointer is Some && valid_utf8(self.pointer.unwrap())
    }

    /// The directory that stands for `.jj/repo`.
    pub open spec fn repo(self) -> RepoDir {
        if self.pointer is Some {
            RepoDir::Pointed
        } else {
            RepoDir::Own
        }
    }

    /// Whether a search may have come as far as `search`.
    pub open spec fn allows(self, search: GitSearch) -> bool {
        let in_store = !self.dot_git && (self.pointer is Some ==> self.points_elsewhere());
        match search {
            GitSearch::DotGit => true,
            GitSearch::Pointer => !self.dot_git,
            GitSearch::ReadPointer => !self.dot_git && self.pointer is Some,
            GitSearch::ResolvePointer { relative } => in_store && self.pointer is Some && relative@
                == trimmed(decode_utf8(self.pointer.unwrap())),
            GitSearch::Target { repo } => in_store && repo == self.repo(),
            GitSearch::ReadTarget { repo } => in_store && repo == self.repo() && self.target
                is Some,
            GitSearch::TargetKind { repo, path } => in_store && repo == self.repo() && self.target
                is Some && path@ == trimmed(self.target.unwrap()),
            GitSearch::ResolveTarget { repo, path } => in_store && repo == self.repo()
                && self.target is Some && !self.absolute && path@ == trimmed(self.target.unwrap()),
            GitSearch::Open { place } => {
                ||| self.dot_git && place@ == (Base::Workspace, Seq::<Seq<char>>::empty())
                ||| in_store && self.target is Some && self.absolute && place@ == (
                    Base::Nowhere,
                    seq![trimmed(self.target.unwrap())],
                )
                ||| in_store && self.target is Some && !self.absolute && place@ == (
                    Base::Resolved,
                    Seq::<Seq<char>>::empty(),
                )
            },
            GitSearch::Failed { error } => {
                ||| !self.dot_git && self.pointer is Some && !self.points_elsewhere() && error@
                    == not_text(self.pointer.unwrap(), ".jj/repo pointer was not valid UTF-8"@)
                ||| in_store && self.target is None && error@ == seq![no_backend()]
            },
        }
    }
}

/// A search that is told the truth looks in the right places: next to the
/// workspace first, then in the store, and there in the directory that
/// `.jj/repo` points at where it is a file. It ends with the repository where
/// there is one, and fails where there is none.
pub proof fn search_finds_the_repository(
    disk: Disk,
    searches: Seq<GitSearch>,
    answers: Seq<Answer>,
)
    requires
        searches.len() == answers.len() + 1,
        begins(searches[0]),
        forall|i: int|
            #![trigger answers[i]]
            0 <= i < answers.len() ==> disk.says(searches[i], answers[i]) && searches[i].leads_to(
                answers[i],
                searches[i + 1],
            ),
    ensures
        disk.allows(searches.last()),
        answers.len() + searches.last().questions_left() <= 8,
    decreases answers.len(),
{
    if answers.len() > 0 {
        let last = answers.len() - 1;
        let earlier = searches.drop_last();
        assert forall|i: int|
            #![trigger answers.drop_last()[i]]
            0 <= i < answers.drop_last().len() implies disk.says(
            earlier[i],
            answers.drop_last()[i],
        ) && earlier[i].leads_to(answers.drop_last()[i], earlier[i + 1]) by {
            assert(answers.drop_last()[i] == answers[i]);
        }
        search_finds_the_repository(disk, earlier, answers.drop_last());
        assert(disk.says(searches[last], answers[last]));
        assert(earlier.last() == searches[last]);
    }
}

/// Searches that are told the same of one disk end alike: at the same place, or
/// with the same messages.
pub proof fn searches_of_one_workspace_agree(disk: Disk, one: GitSearch, other: GitSearch)
    requires
        disk.allows(one),
        disk.allows(other),
        one.questions_left() == 0,
        other.questions_left() == 0,
    ensures
        match (one, other) {
            (GitSearch::Open { place }, GitSearch::Open { place: other_place }) => place@
                == other_place@,
            (GitSearch::Failed { error }, GitSearch::Failed { error: other_error }) => error@
                == other_error@,
            _ => false,
        },
{
}

/// The files on a disk. A path is what was joined to make it, and what there is at
/// a path depends on the path alone.
pub struct Files {
    /// The root of the workspace.
    pub root: Seq<Seq<char>>,
    /// Whether there is something at a path.
    pub exists: spec_fn(Seq<Seq<char>>) -> bool,
    /// Whether there is a file at a path.
    pub is_file: spec_fn(Seq<Seq<char>>) -> bool,
    /// The bytes of the file at a path.
    pub bytes: spec_fn(Seq<Seq<char>>) -> Seq<u8>,
    /// The text of the file at a path.
    pub text: spec_fn(Seq<Seq<char>>) -> Seq<char>,
    /// Whether a text is an absolute path.
    pub absolute: spec_fn(Seq<char>) -> bool,
    /// The path that a path leads to.
    pub resolved: spec_fn(Seq<Seq<char>>) -> Seq<Seq<char>>,
}

impl Files {
    /// The path of a place, where `last` is the path that was resolved last.
    pub open spec fn path(self, place: Place, last: Seq<Seq<char>>) -> Seq<Seq<char>> {
        match place@.0 {
            Base::Workspace => self.root + place@.1,
            Base::Resolved => last + place@.1,
            Base::Nowhere => place@.1,
        }
    }

    /// Whether `answer` is the truth about `question`, and `next` is the path that
    /// was resolved last once it is given.
    pub open spec fn answers(
        self,
        question: Question,
        last: Seq<Seq<char>>,
        answer: Answer,
        next: Seq<Seq<char>>,
    ) -> bool {
        match (question, answer) {
            (Question::Exists(place), Answer::Flag(yes)) => yes == (self.exists)(
                self.path(place, last),
            ) && next == last,
            (Question::IsFile(place), Answer::Flag(yes)) => yes == (self.is_file)(
                self.path(place, last),
            ) && next == last,
            (Question::ReadBytes(place), Answer::Bytes(bytes)) => bytes@ == (self.bytes)(
                self.path(place, last),
            ) && next == last,
            (Question::ReadText(place), Answer::Text(text)) => text@ == (self.text)(
                self.path(place, last),
            ) && next == last,
            (Question::IsAbsolute(text), Answer::Flag(yes)) => yes == (self.absolute)(text@)
                && next == last,
            (Question::Resolve(place), Answer::Resolved) => next == (self.resolved)(
                self.path(place, last),
            ),
            _ => false,
        }
    }

    /// Whether `search` asks `question` and goes on to `after` with the truth.
    pub open spec fn leads(
        self,
        search: GitSearch,
        question: Question,
        last: Seq<Seq<char>>,
        answer: Answer,
        next: Seq<Seq<char>>,
        after: GitSearch,
    ) -> bool {
        &&& search.asks(question)
        &&& self.answers(question, last, answer, next)
        &&& search.leads_to(answer, after)
    }

    /// Whether the repository is next to the workspace.
    pub open spec fn is_colocated(self) -> bool {
        (self.exists)(self.root.push(".git"@))
    }

    /// Whether the workspace is another than the first one.
    pub open spec fn is_further_workspace(self) -> bool {
        (self.is_file)(self.root.push(".jj"@).push("repo"@))
    }

    /// What `.jj/repo` holds, where it is a file.
    pub open spec fn pointer(self) -> Seq<u8> {
        (self.bytes)(self.root.push(".jj"@).push("repo"@))
    }

    /// The store of the workspace, or of the first one, which `.jj/repo` points at
    /// by a path that starts in `.jj`.
    pub open spec fn store(self) -> Seq<Seq<char>> {
        if self.is_further_workspace() {
            (self.resolved)(
                self.root.push(".jj"@).push(trimmed(decode_utf8(self.pointer()))),
            ).push("store"@)
        } else {
            self.root.push(".jj"@).push("repo"@).push("store"@)
        }
    }

    /// The file in the store that holds the path of the repository.
    pub open spec fn git_target(self) -> Seq<Seq<char>> {
        self.store().push("git_target"@)
    }

    /// The repository: the workspace itself where it is next to it, and otherwise
    /// the path in `git_target`, which starts in the store unless it is absolute.
    pub open spec fn repository(self) -> Seq<Seq<char>> {
        let target = trimmed((self.text)(self.git_target()));
        if self.is_colocated() {
            self.root
        } else if (self.absolute)(target) {
            seq![target]
        } else {
            (self.resolved)(self.store().push(target))
        }
    }

    /// Whether a search may have come as far as `search`, where `last` is the path
    /// that was resolved last.
    spec fn allows(self, search: GitSearch, last: Seq<Seq<char>>) -> bool {
        let in_store = !self.is_colocated() && (self.is_further_workspace() ==> valid_utf8(
            self.pointer(),
        ));
        match search {
            GitSearch::DotGit => true,
            GitSearch::Pointer => !self.is_colocated(),
            GitSearch::ReadPointer => !self.is_colocated() && self.is_further_workspace(),
            GitSearch::ResolvePointer { relative } => in_store && self.is_further_workspace()
                && relative@ == trimmed(decode_utf8(self.pointer())),
            GitSearch::Target { repo } => in_store && self.stands_for(repo, last),
            GitSearch::ReadTarget { repo } => in_store && self.stands_for(repo, last)
                && (self.exists)(self.git_target()),
            GitSearch::TargetKind { repo, path } => in_store && self.stands_for(repo, last)
                && (self.exists)(self.git_target()) && path@ == trimmed(
                (self.text)(self.git_target()),
            ),
            GitSearch::ResolveTarget { repo, path } => in_store && self.stands_for(repo, last)
                && (self.exists)(self.git_target()) && path@ == trimmed(
                (self.text)(self.git_target()),
            ) && !(self.absolute)(path@),
            GitSearch::Open { place } => self.path(place, last) == self.repository() && (
            self.is_colocated() || in_store && (self.exists)(self.git_target())),
            GitSearch::Failed { error } => {
                ||| !self.is_colocated() && self.is_further_workspace() && !valid_utf8(
                    self.pointer(),
                ) && error@ == seq![
                    utf8_complaint(self.pointer()),
                    ".jj/repo pointer was not valid UTF-8"@,
                ]
                ||| in_store && !(self.exists)(self.git_target()) && error@ == seq![
                    "Could not find Git backend for Jujutsu repository. Ensure you have a Jujutsu repository with a Git backend."@,
                ]
            },
        }
    }

    /// Whether the directory that stands for `.jj/repo` holds the store.
    spec fn stands_for(self, repo: RepoDir, last: Seq<Seq<char>>) -> bool {
        (match repo {
            RepoDir::Own => self.root.push(".jj"@).push("repo"@),
            RepoDir::Pointed => last,
        }).push("store"@) == self.store()
    }
}

proof fn lemma_search_goes_on(
    files: Files,
    search: GitSearch,
    question: Question,
    last: Seq<Seq<char>>,
    answer: Answer,
    next: Seq<Seq<char>>,
    after: GitSearch,
)
    requires
        files.allows(search, last),
        files.leads(search, question, last, answer, next, after),
    ensures
        files.allows(after, next),
{
    let root = files.root;
    let own = root.push(".jj"@).push("repo"@);
    assert(root + seq![".git"@] =~= root.push(".git"@));
    assert(root + seq![".jj"@, "repo"@] =~= own);
    assert(root + Seq::<Seq<char>>::empty() =~= root);
    assert(next + Seq::<Seq<char>>::empty() =~= next);
    match search {
        GitSearch::ResolvePointer { relative } => {
            assert(root + seq![".jj"@, relative@] =~= root.push(".jj"@).push(relative@));
        },
        GitSearch::Target { repo } => {
            lemma_place_in_store(files, repo, last, "git_target"@);
        },
        GitSearch::ReadTarget { repo } => {
            lemma_place_in_store(files, repo, last, "git_target"@);
        },
        GitSearch::ResolveTarget { repo, path } => {
            lemma_place_in_store(files, repo, last, path@);
        },
        _ => {},
    }
}

proof fn lemma_place_in_store(files: Files, repo: RepoDir, last: Seq<Seq<char>>, part: Seq<char>)
    requires
        files.stands_for(repo, last),
    ensures
        match store_place(repo, part).0 {
            Base::Workspace => files.root + store_place(repo, part).1,
            Base::Resolved => last + store_place(repo, part).1,
            Base::Nowhere => store_place(repo, part).1,
        } == files.store().push(part),
{
    let parts = store_place(repo, part).1;
    match repo {
        RepoDir::Own => {
            assert(files.root + parts =~= files.root.push(".jj"@).push("repo"@).push(
                "store"@,
            ).push(part));
        },
        RepoDir::Pointed => {
            assert(last + parts =~= last.push("store"@).push(part));
        },
    }
}

/// Whatever is on the disk, a search that is told the truth about all that it asks
/// ends with the repository behind the workspace: the workspace itself where it
/// holds `.git`, and otherwise what `git_target` names in the store, which in a
/// workspace other than the first one is the store of the directory that `.jj/repo`
/// points at. There is an error only where that pointer is no text, and where there
/// is no `git_target` in that store.
pub proof fn search_ends_with_the_repository(
    files: Files,
    searches: Seq<GitSearch>,
    questions: Seq<Question>,
    answers: Seq<Answer>,
    resolved: Seq<Seq<Seq<char>>>,
)
    requires
        searches.len() == answers.len() + 1,
        questions.len() == answers.len(),
        resolved.len() == answers.len() + 1,
        begins(searches[0]),
        forall|i: int|
            #![trigger answers[i]]
            0 <= i < answers.len() ==> files.leads(
                searches[i],
                questions[i],
                resolved[i],
                answers[i],
                resolved[i + 1],
                searches[i + 1],
            ),
    ensures
        searches.last() matches GitSearch::Open { place } ==> {
            &&& files.path(place, resolved.last()) == files.repository()
            &&& files.is_colocated() || (files.exists)(files.git_target())
        },
        searches.last() matches GitSearch::Failed { error } ==> !files.is_colocated() && {
            ||| files.is_further_workspace() && !valid_utf8(files.pointer()) && error@ == seq![
                utf8_complaint(files.pointer()),
                ".jj/repo pointer was not valid UTF-8"@,
            ]
            ||| !(files.exists)(files.git_target()) && error@ == seq![
                "Could not find Git backend for Jujutsu repository. Ensure you have a Jujutsu repository with a Git backend."@,
            ]
        },
{
    lemma_search_stays_on_the_way(files, searches, questions, answers, resolved);
}

proof fn lemma_search_stays_on_the_way(
    files: Files,
    searches: Seq<GitSearch>,
    questions: Seq<Question>,
    answers: Seq<Answer>,
    resolved: Seq<Seq<Seq<char>>>,
)
    requires
        searches.len() == answers.len() + 1,
        questions.len() == answers.len(),
        resolved.len() == answers.len() + 1,
        begins(searches[0]),
        forall|i: int|
            #![trigger answers[i]]
            0 <= i < answers.len() ==> files.leads(
                searches[i],
                questions[i],
                resolved[i],
                answers[i],
                resolved[i + 1],
                searches[i + 1],
            ),
    ensures
        files.allows(searches.last(), resolved.last()),
    decreases answers.len(),
{
    if answers.len() > 0 {
        let last = answers.len() - 1;
        let fewer = answers.drop_last();
        assert forall|i: int|
            #![trigger fewer[i]]
            0 <= i < fewer.len() implies files.leads(
            searches.drop_last()[i],
            questions.drop_last()[i],
            resolved.drop_last()[i],
            fewer[i],
            resolved.drop_last()[i + 1],
            searches.drop_last()[i + 1],
        ) by {
            assert(fewer[i] == answers[i]);
        }
        lemma_search_stays_on_the_way(
            files,
            searches.drop_last(),
            questions.drop_last(),
            fewer,
            resolved.drop_last(),
        );
        let answer = answers[last];
        lemma_search_goes_on(
            files,
            searches[last],
            questions[last],
            resolved[last],
            answer,
            resolved[last + 1],
            searches[last + 1],
        );
    }
}

/// The file that is read for the path of the repository is the one that was found
/// to be there the step before, and what it holds is looked up in the same
/// directory, whichever stands for `.jj/repo`.
pub proof fn found_file_is_read(
    search: GitSearch,
    after: GitSearch,
    further: GitSearch,
    asked: Place,
    read: Place,
    text: String,
)
    requires
        search.asks(Question::Exists(asked)),
        search is Target,
        search.leads_to(Answer::Flag(true), after),
        after.asks(Question::ReadText(read)),
        after.leads_to(Answer::Text(text), further),
    ensures
        read@ == asked@,
        forall|path: String|
            #[trigger] further.asks(Question::IsAbsolute(path)) <==> path@ == trimmed(text@),
        forall|last: GitSearch, resolved: Place|
            #![trigger further.leads_to(Answer::Flag(false), last), last.asks(
                Question::Resolve(resolved),
            )]
            further.leads_to(Answer::Flag(false), last) && last.asks(Question::Resolve(resolved))
                ==> resolved@ == (asked@.0, asked@.1.drop_last().push(trimmed(text@))),
{
    if let GitSearch::Target { repo } = search {
        let store = repo_place(repo).1.push("store"@);
        assert(store.push("git_target"@).drop_last() =~= store);
    }
}

/// A pointer that is a file is read from where it was found to be one, and leads
/// from the directory that it stands in to the store.
pub proof fn found_pointer_is_followed(
    search: GitSearch,
    after: GitSearch,
    further: GitSearch,
    last: GitSearch,
    asked: Place,
    read: Place,
    resolved: Place,
    target: Place,
    text: Seq<char>,
    bytes: Vec<u8>,
)
    requires
        search.asks(Question::IsFile(asked)),
        search.leads_to(Answer::Flag(true), after),
        after.asks(Question::ReadBytes(read)),
        bytes@ == encode_utf8(text),
        after.leads_to(Answer::Bytes(bytes), further),
        further.asks(Question::Resolve(resolved)),
        further.leads_to(Answer::Resolved, last),
        last.asks(Question::Exists(target)),
    ensures
        asked@ == (Base::Workspace, seq![".jj"@, "repo"@]),
        read@ == asked@,
        resolved@ == (Base::Workspace, seq![".jj"@, trimmed(text)]),
        target@ == (Base::Resolved, seq!["store"@, "git_target"@]),
{
    encoded_text_is_shown(text, bytes@);
    assert(Seq::<Seq<char>>::empty().push("store"@).push("git_target"@) =~= seq![
        "store"@,
        "git_target"@,
    ]);
}

/// What is told where a question cannot be answered starts with the complaint, and
/// says what was being done where a file was read and where the pointer was
/// resolved.
pub proof fn what_is_told_of_an_unreadable_disk(
    search: GitSearch,
    question: Question,
    complaint: Seq<char>,
    error: SprError,
)
    requires
        search.asks(question),
        search.gives_up(complaint, error),
    ensures
        question is ReadBytes ==> error@ == seq![
            complaint,
            "failed to read .jj/repo pointer file"@,
        ],
        question is ReadText ==> error@ == seq![
            complaint,
            "failed to read .jj/repo/store/git_target"@,
        ],
        search is ResolvePointer ==> error@ == seq![
            complaint,
            "failed to resolve .jj/repo pointer"@,
        ],
        search is ResolveTarget ==> error@ == seq![complaint],
        question is Exists || question is IsFile || question is IsAbsolute || question is Nothing
            ==> error@ == seq![complaint],
{
}

} // verus!
