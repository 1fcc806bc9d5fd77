use jj_spr::backend::{find_git_repo, Answer, Base, GitSearch, Place, Question};

fn is(place: &Place, base: Base, parts: &[&str]) -> bool {
    place.base == base && place.parts == parts
}

/// A search in a workspace without `.git`, at the question for `git_target`.
fn in_own_store() -> GitSearch {
    let search = find_git_repo().next(Answer::Flag(false));
    match search.question() {
        Question::IsFile(place) => assert!(is(&place, Base::Workspace, &[".jj", "repo"])),
        other => panic!("unexpected question {:?}", other),
    }
    search.next(Answer::Flag(false))
}

#[test]
fn repository_in_the_store() {
    let search = in_own_store();
    match search.question() {
        Question::Exists(place) => {
            assert!(is(&place, Base::Workspace, &[".jj", "repo", "store", "git_target"]));
        }
        other => panic!("unexpected question {:?}", other),
    }
    let search = search.next(Answer::Flag(true));
    assert!(matches!(search.question(), Question::ReadText(_)));
    let search = search.next(Answer::Text("git\n".to_string()));
    match search.question() {
        Question::IsAbsolute(path) => assert_eq!(path, "git"),
        other => panic!("unexpected question {:?}", other),
    }
    let search = search.next(Answer::Flag(false));
    match search.question() {
        Question::Resolve(place) => {
            assert!(is(&place, Base::Workspace, &[".jj", "repo", "store", "git"]));
        }
        other => panic!("unexpected question {:?}", other),
    }
    match search.next(Answer::Resolved) {
        GitSearch::Open { place } => assert!(is(&place, Base::Resolved, &[])),
        other => panic!("unexpected state {:?}", other),
    }
}

#[test]
fn repository_at_an_absolute_path() {
    let search = in_own_store()
        .next(Answer::Flag(true))
        .next(Answer::Text(" /srv/repo.git\n".to_string()))
        .next(Answer::Flag(true));
    assert!(matches!(search.question(), Question::Nothing));
    match search {
        GitSearch::Open { place } => assert!(is(&place, Base::Nowhere, &["/srv/repo.git"])),
        other => panic!("unexpected state {:?}", other),
    }
}

#[test]
fn repository_of_another_workspace() {
    let search = find_git_repo()
        .next(Answer::Flag(false))
        .next(Answer::Flag(true));
    assert!(matches!(search.question(), Question::ReadBytes(_)));
    let search = search.next(Answer::Bytes(b"../../main/.jj/repo\n".to_vec()));
    match search.question() {
        Question::Resolve(place) => {
            assert!(is(&place, Base::Workspace, &[".jj", "../../main/.jj/repo"]));
        }
        other => panic!("unexpected question {:?}", other),
    }
    let search = search.next(Answer::Resolved);
    match search.question() {
        Question::Exists(place) => {
            assert!(is(&place, Base::Resolved, &["store", "git_target"]));
        }
        other => panic!("unexpected question {:?}", other),
    }
}

#[test]
fn pointer_that_is_no_text() {
    let search = find_git_repo()
        .next(Answer::Flag(false))
        .next(Answer::Flag(true))
        .next(Answer::Bytes(vec![0xff]));
    match search {
        GitSearch::Failed { error } => {
            let complaint = String::from_utf8(vec![0xff]).unwrap_err().to_string();
            assert_eq!(
                error.messages,
                vec![complaint, ".jj/repo pointer was not valid UTF-8".to_string()]
            );
        }
        other => panic!("unexpected state {:?}", other),
    }
}

#[test]
fn no_repository() {
    match in_own_store().next(Answer::Flag(false)) {
        GitSearch::Failed { error } => assert_eq!(
            error.messages,
            vec![
                "Could not find Git backend for Jujutsu repository. \
                 Ensure you have a Jujutsu repository with a Git backend."
                    .to_string()
            ]
        ),
        other => panic!("unexpected state {:?}", other),
    }
}

#[test]
fn disk_that_cannot_be_read() {
    let pointer = find_git_repo()
        .next(Answer::Flag(false))
        .next(Answer::Flag(true));
    assert_eq!(
        pointer.unanswered("denied".to_string()).messages,
        vec![
            "denied".to_string(),
            "failed to read .jj/repo pointer file".to_string()
        ]
    );
    let resolve = pointer.next(Answer::Bytes(b"x".to_vec()));
    assert_eq!(
        resolve.unanswered("gone".to_string()).messages,
        vec![
            "gone".to_string(),
            "failed to resolve .jj/repo pointer".to_string()
        ]
    );
    let target = in_own_store().next(Answer::Flag(true));
    assert_eq!(
        target.unanswered("gone".to_string()).messages,
        vec![
            "gone".to_string(),
            "failed to read .jj/repo/store/git_target".to_string()
        ]
    );
    assert_eq!(
        find_git_repo().unanswered("x".to_string()).messages,
        vec!["x".to_string()]
    );
}

/// Searches a workspace whose own store points to a repository in it.
fn search_own_store() -> GitSearch {
    let mut search = find_git_repo();
    loop {
        let answer = match search.question() {
            Question::Exists(_) => Answer::Flag(true),
            Question::IsFile(_) => Answer::Flag(false),
            Question::ReadBytes(_) => Answer::Bytes(Vec::new()),
            Question::ReadText(_) => Answer::Text("git".to_string()),
            Question::IsAbsolute(_) => Answer::Flag(false),
            Question::Resolve(_) => Answer::Resolved,
            Question::Nothing => return search,
        };
        search = search.next(answer);
    }
}

#[test]
fn searches_that_are_told_the_same() {
    match (search_own_store(), search_own_store()) {
        (GitSearch::Open { place }, GitSearch::Open { place: other }) => {
            assert_eq!(place.base, other.base);
            assert_eq!(place.parts, other.parts);
        }
        other => panic!("unexpected states {:?}", other),
    }
}
