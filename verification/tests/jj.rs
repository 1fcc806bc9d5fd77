use jj_spr::backend::{find_git_repo, Answer, Base, GitSearch, Question};
use jj_spr::command::{
    not_awaited, not_started, Argument, CommandLine, CommandOutput, Program,
};
use jj_spr::jj::{
    get_jj_bin, message_text, prepare_commit, root_command, BaseTree, Found, JjBin, Jujutsu,
    Person, PreparedCommit, Time, DEFAULT_JJ_BIN,
};
use jj_spr::message::{MessageSection, MessageSectionsMap};
use jj_spr::oid::Oid;
use jj_spr::range::RangeStep;
use jj_spr::rewrite::{PendingDescribe, PendingRewrite, RewriteStep};

const FIRST: &str = "1111111111111111111111111111111111111111";
const SECOND: &str = "2222222222222222222222222222222222222222";
const THIRD: &str = "3333333333333333333333333333333333333333";

fn printed(text: &str) -> CommandOutput {
    CommandOutput {
        success: true,
        code: Some(0),
        stdout: text.as_bytes().to_vec(),
        stderr: Vec::new(),
    }
}

fn failed(code: Option<i32>, stderr: &[u8]) -> CommandOutput {
    CommandOutput {
        success: false,
        code,
        stdout: Vec::new(),
        stderr: stderr.to_vec(),
    }
}

fn workspace() -> Jujutsu {
    Jujutsu::new(printed("/work/repo\n")).expect("Failed to create Jujutsu instance")
}

fn message(title: &str) -> MessageSectionsMap {
    MessageSectionsMap {
        title: Some(title.to_string()),
        pull_request: None,
        others: Vec::new(),
    }
}

fn found(title: &str) -> Found {
    Found {
        first_parent: None,
        message: message(title),
        number_in_field: None,
    }
}

fn arguments(command: &CommandLine) -> Vec<&str> {
    command
        .arguments
        .iter()
        .map(|argument| match argument {
            Argument::Text(text) => text.as_str(),
            Argument::GitDir => "<git dir>",
        })
        .collect()
}

fn oid(text: &str) -> Oid {
    Oid::from_str(text).unwrap()
}

fn commit(id: &str, changed: bool) -> PreparedCommit {
    let mut commit = prepare_commit(oid(id), found("A commit"));
    commit.message_changed = changed;
    commit
}

#[test]
fn test_jujutsu_creation() {
    let jj = Jujutsu::new(printed("/work/repo\n")).expect("Failed to create Jujutsu instance");
    assert_eq!(jj.repo_path, "/work/repo");
    let search = find_git_repo();
    match search.question() {
        Question::Exists(place) => {
            assert_eq!(place.base, Base::Workspace);
            assert_eq!(place.parts, vec![".git".to_string()]);
        }
        other => panic!("unexpected question {:?}", other),
    }
    match search.next(Answer::Flag(true)) {
        GitSearch::Open { place } => {
            assert_eq!(place.base, Base::Workspace);
            assert!(place.parts.is_empty());
        }
        other => panic!("unexpected state {:?}", other),
    }
}

#[test]
fn test_revision_resolution() {
    let jj = workspace();

    for (revision, id, title) in [("@", THIRD, ""), ("@-", SECOND, "Second commit")] {
        let command = jj.revision_command(revision);
        assert_eq!(command.program, Program::Jj);
        assert_eq!(command.directory.as_deref(), Some("/work/repo"));
        assert_eq!(
            arguments(&command),
            vec!["log", "--no-graph", "-r", revision, "--template", "commit_id"]
        );
        let result = jj.get_prepared_commit_for_revision(printed(id));
        assert!(
            result.is_ok(),
            "Failed to resolve {} revision: {:?}",
            revision,
            result.err()
        );
        let commit = result.unwrap().prepared(found(title));
        assert_eq!(commit.oid, oid(id));
        assert_eq!(commit.message.get(MessageSection::Title).unwrap(), title);
    }
}

#[test]
fn test_commit_range() {
    let jj = workspace();

    let command = jj.range_command("@----", "@-", false);
    assert_eq!(
        arguments(&command),
        vec![
            "log",
            "--no-graph",
            "-r",
            "@----..@-",
            "--template",
            "commit_id ++ \"\\n\""
        ]
    );

    let output = printed(&format!("{}\n{}\n{}\n", THIRD, SECOND, FIRST));
    let result = jj.get_prepared_commits_from_to(output);
    assert!(result.is_ok(), "Failed to get commit range");

    let mut range = result.ok().unwrap();
    let commits = loop {
        match range.advance() {
            RangeStep::Prepare(pending) => {
                let id = pending.commit_oid().to_hex();
                let title = if id == FIRST {
                    "First commit"
                } else if id == SECOND {
                    "Second commit"
                } else {
                    "Third commit"
                };
                range = pending.prepared(found(title));
            }
            RangeStep::Finished(commits) => break commits,
            RangeStep::Failed(error) => panic!("Failed to get commit range: {:?}", error),
        }
    };

    // Should get 3 commits in the range
    assert_eq!(commits.len(), 3, "Should get exactly 3 commits in range");

    // Commits must be in bottom-to-top order (oldest to newest).
    let first_commit_title = commits[0]
        .message
        .get(MessageSection::Title)
        .expect("First commit should have a title");
    let last_commit_title = commits[2]
        .message
        .get(MessageSection::Title)
        .expect("Last commit should have a title");

    assert!(
        first_commit_title.contains("First commit"),
        "First element should be the oldest commit 'First commit', got: {}",
        first_commit_title
    );
    assert!(
        last_commit_title.contains("Third commit"),
        "Last element should be the newest commit 'Third commit', got: {}",
        last_commit_title
    );
    assert_eq!(commits[0].oid, oid(FIRST));
    assert_eq!(commits[1].oid, oid(SECOND));
    assert_eq!(commits[2].oid, oid(THIRD));
}

#[test]
fn test_status_check() {
    let jj = workspace();
    assert_eq!(arguments(&jj.status_command()), vec!["status"]);

    // Should pass since new repo has no changes
    let result = jj.check_no_uncommitted_changes(printed(
        "The working copy has no changes.\nWorking copy  (@) : qpvuntsm 230dd059 (empty)\n",
    ));
    assert!(
        result.is_ok(),
        "Status check should pass for clean repo: {:?}",
        result.err()
    );
}

#[test]
fn status_of_other_outputs() {
    let jj = workspace();
    assert!(jj.check_no_uncommitted_changes(printed(" \n\t")).is_ok());
    assert!(jj
        .check_no_uncommitted_changes(printed("No changes."))
        .is_ok());
    let status = "Working copy changes:\nM test.txt\n";
    let error = jj
        .check_no_uncommitted_changes(printed(status))
        .unwrap_err();
    assert_eq!(
        error.messages,
        vec!["You have uncommitted changes:\nWorking copy changes:\nM test.txt\n".to_string()]
    );
}

#[test]
fn output_that_cannot_be_used() {
    let jj = workspace();
    let error = jj
        .check_no_uncommitted_changes(failed(Some(-12), b"no\xffpe"))
        .unwrap_err();
    assert_eq!(
        error.messages,
        vec!["jujutsu exited with code -12, stderr:\nno\u{fffd}pe".to_string()]
    );
    let error = failed(None, b"").captured().unwrap_err();
    assert_eq!(
        error.messages,
        vec!["jujutsu exited with code (unknown), stderr:\n".to_string()]
    );
    let mut output = printed("");
    output.stdout = vec![b'a', 0xff];
    let error = output.captured().unwrap_err();
    let complaint = String::from_utf8(vec![b'a', 0xff]).unwrap_err().to_string();
    assert_eq!(
        error.messages,
        vec![complaint, "jujutsu output was not valid UTF-8".to_string()]
    );
    assert_eq!(printed("grün\n").captured().unwrap(), "grün\n");
}

#[test]
fn workspace_that_is_none() {
    let error = Jujutsu::new(failed(Some(1), b"")).unwrap_err();
    assert_eq!(
        error.messages,
        vec![
            "This command requires a Jujutsu repository. \
             Could not find a Jujutsu workspace in the current directory."
                .to_string()
        ]
    );
    let mut output = printed("");
    output.stdout = vec![0xc0];
    let error = Jujutsu::new(output).unwrap_err();
    let complaint = String::from_utf8(vec![0xc0]).unwrap_err().to_string();
    assert_eq!(
        error.messages,
        vec![complaint, "jj root output was not valid UTF-8".to_string()]
    );
}

#[test]
fn revision_that_is_no_id() {
    let jj = workspace();
    let error = jj
        .resolve_revision_to_commit_id(printed("  \n"))
        .unwrap_err();
    let complaint = git2::Oid::from_str("").unwrap_err().to_string();
    assert_eq!(
        error.messages,
        vec![format!("Failed to parse commit ID '' from jj output: {}", complaint)]
    );
    let two = format!("{}{}", FIRST, SECOND);
    assert!(jj.resolve_revision_to_commit_id(printed(&two)).is_err());
    assert_eq!(
        jj.resolve_revision_to_commit_id(printed(&format!(" {}\n", FIRST)))
            .unwrap(),
        oid(FIRST)
    );
}

#[test]
fn range_with_a_line_that_is_no_id() {
    let jj = workspace();
    assert_eq!(
        arguments(&jj.range_command("a", "c", true))[3],
        "a::c".to_string()
    );
    let output = printed(&format!("\n {}\r\n\n\t\nnonsense\n", FIRST));
    let range = jj.get_prepared_commits_from_to(output).ok().unwrap();
    let range = match range.advance() {
        RangeStep::Prepare(pending) => {
            assert_eq!(pending.commit_oid(), oid(FIRST));
            pending.prepared(found("First commit"))
        }
        _ => panic!("a commit comes first"),
    };
    match range.advance() {
        RangeStep::Failed(error) => {
            let complaint = git2::Oid::from_str("nonsense").unwrap_err().to_string();
            assert_eq!(
                error.messages,
                vec![format!("Failed to parse commit ID 'nonsense': {}", complaint)]
            );
        }
        _ => panic!("the second line is no id"),
    }
}

#[test]
fn range_without_commits() {
    let jj = workspace();
    let range = jj.get_prepared_commits_from_to(printed("")).ok().unwrap();
    match range.advance() {
        RangeStep::Finished(commits) => assert!(commits.is_empty()),
        _ => panic!("there is nothing to prepare"),
    }
    assert!(jj
        .get_prepared_commits_from_to(failed(Some(1), b""))
        .is_err());
}

/// Prepares all commits of a range that `jj` printed, each under its id.
fn prepared_range(text: &str) -> Vec<PreparedCommit> {
    let mut range = workspace()
        .get_prepared_commits_from_to(printed(text))
        .ok()
        .unwrap();
    loop {
        match range.advance() {
            RangeStep::Prepare(pending) => {
                let id = pending.commit_oid().to_hex();
                range = pending.prepared(found(&id));
            }
            RangeStep::Finished(commits) => return commits,
            RangeStep::Failed(error) => panic!("not a range: {:?}", error),
        }
    }
}

#[test]
fn inclusive_and_exclusive_ranges() {
    let inclusive = prepared_range(&format!("{}\n{}\n{}\n", THIRD, SECOND, FIRST));
    let exclusive = prepared_range(&format!("{}\n{}\n", THIRD, SECOND));
    assert_eq!(inclusive.len(), exclusive.len() + 1);
    assert_eq!(inclusive[0].oid, oid(FIRST));
    for (one, other) in inclusive[1..].iter().zip(&exclusive) {
        assert_eq!(one.oid, other.oid);
        assert_eq!(one.short_id, other.short_id);
        assert_eq!(one.parent_oid, other.parent_oid);
        assert_eq!(one.message.title, other.message.title);
    }
    assert_eq!(inclusive[2].oid, oid(THIRD));
    assert_eq!(exclusive[1].oid, oid(THIRD));
}

#[test]
fn range_of_one_revision() {
    let single = workspace()
        .get_prepared_commit_for_revision(printed(SECOND))
        .ok()
        .unwrap()
        .prepared(found(SECOND));
    let inclusive = prepared_range(&format!("{}\n", SECOND));
    assert_eq!(inclusive.len(), 1);
    assert_eq!(inclusive[0].oid, single.oid);
    assert_eq!(inclusive[0].short_id, single.short_id);
    assert_eq!(inclusive[0].message.title, single.message.title);
    assert!(prepared_range("").is_empty());
}

#[test]
fn workspaces_with_one_root() {
    let one = Jujutsu::new(printed("/work/repo\n")).ok().unwrap();
    let other = Jujutsu::new(printed("/work/repo")).ok().unwrap();
    assert_eq!(one.repo_path, "/work/repo");
    assert_eq!(one.repo_path, other.repo_path);
}

#[test]
fn preparing_a_commit() {
    let mut facts = found("A commit");
    facts.number_in_field = Some(7);
    let commit = prepare_commit(oid("0123456789abcdef0123456789abcdef01234567"), facts);
    assert_eq!(commit.short_id, "0123456");
    assert_eq!(commit.parent_oid, commit.oid);
    assert_eq!(commit.pull_request_number, None);
    assert!(!commit.message_changed);
    assert!(commit.dry_run_action.is_none());

    let mut facts = found("A commit");
    facts.first_parent = Some(oid(SECOND));
    facts.message.pull_request = Some("https://github.com/o/r/pull/7".to_string());
    facts.number_in_field = Some(7);
    let commit = prepare_commit(oid(FIRST), facts);
    assert_eq!(commit.parent_oid, oid(SECOND));
    assert_eq!(commit.pull_request_number, Some(7));

    assert_eq!(message_text(None), "");
    assert_eq!(message_text(Some("Title".to_string())), "Title");
}

#[test]
fn the_program_for_jj() {
    match get_jj_bin(None::<&str>) {
        JjBin::Named(name) => assert_eq!(name, "jj"),
        JjBin::Configured(path) => panic!("{} is not configured", path),
    }
    match get_jj_bin(Some("/opt/jj")) {
        JjBin::Configured(path) => assert_eq!(path, "/opt/jj"),
        JjBin::Named(name) => panic!("{} is not configured", name),
    }
    assert_eq!(DEFAULT_JJ_BIN, "jj");
}

#[test]
fn git_on_the_repository() {
    let command = workspace().git_command();
    assert_eq!(command.program, Program::Git);
    assert_eq!(arguments(&command), vec!["--git-dir", "<git dir>"]);
    assert!(command.directory.is_none());
}

#[test]
fn the_root_of_the_workspace() {
    let command = root_command();
    assert_eq!(command.program, Program::Jj);
    assert_eq!(arguments(&command), vec!["root"]);
    assert!(command.directory.is_none());
    assert_eq!(
        not_started("gone".to_string()).messages,
        vec!["gone".to_string(), "jj failed to spawn".to_string()]
    );
    assert_eq!(
        not_awaited("gone".to_string()).messages,
        vec!["gone".to_string(), "failed to wait for jj to exit".to_string()]
    );
}

#[test]
fn the_change_of_a_commit() {
    let jj = workspace();
    let command = jj.change_id_command(oid(FIRST));
    assert_eq!(
        arguments(&command),
        vec!["log", "--no-graph", "-r", FIRST, "--template", "change_id"]
    );
    assert_eq!(
        jj.get_change_id_for_commit(printed("qpvuntsm\n")).unwrap(),
        "qpvuntsm"
    );
    assert!(jj.get_change_id_for_commit(failed(Some(1), b"")).is_err());
}

#[test]
fn names_of_references() {
    let jj = workspace();
    let entries = vec![
        Ok(Some("refs/heads/main".to_string())),
        Ok(None),
        Ok(Some("refs/heads/b".to_string())),
        Ok(Some("refs/heads/main".to_string())),
    ];
    assert_eq!(
        jj.get_all_ref_names(&entries).unwrap(),
        vec!["refs/heads/main".to_string(), "refs/heads/b".to_string()]
    );
    let entries = vec![
        Ok(Some("refs/heads/main".to_string())),
        Err("first".to_string()),
        Err("second".to_string()),
    ];
    assert_eq!(
        jj.get_all_ref_names(&entries).unwrap_err().messages,
        vec!["first".to_string()]
    );
}

#[test]
fn references() {
    let jj = workspace();
    assert_eq!(
        jj.resolve_reference("refs/heads/x", Some(oid(FIRST)))
            .unwrap(),
        oid(FIRST)
    );
    assert_eq!(
        jj.resolve_reference("refs/heads/x", None)
            .unwrap_err()
            .messages,
        vec!["Reference refs/heads/x has no target".to_string()]
    );
    assert_eq!(
        jj.get_master_base_for_commit(oid(FIRST), "refs/remotes/origin/main", Some(oid(SECOND)))
            .unwrap(),
        (oid(FIRST), oid(SECOND))
    );
    assert!(jj
        .get_master_base_for_commit(oid(FIRST), "refs/remotes/origin/main", None)
        .is_err());
}

#[test]
fn test_derived_commit_has_different_timestamp() {
    let person = || Person {
        name: b"Test User".to_vec(),
        email: b"test@example.com".to_vec(),
    };
    let original = git2::Signature::new(
        "Test User",
        "test@example.com",
        &git2::Time::new(1_700_000_000, 0),
    )
    .expect("Failed to find original commit");
    let clock = git2::Signature::now("Test User", "test@example.com")
        .expect("Failed to read the clock")
        .when();
    let derived_commit = workspace().create_derived_commit(
        &person(),
        &person(),
        Time {
            seconds: clock.seconds(),
            offset_minutes: clock.offset_minutes(),
        },
        "Derived commit message",
        oid(THIRD),
        &[oid(SECOND)],
    );

    // Verify that derived timestamps are newer than original
    let original_time = original.when();
    assert!(
        derived_commit.author.when.seconds > original_time.seconds(),
        "Derived commit author timestamp should be newer than original"
    );
    assert!(
        derived_commit.committer.when.seconds > original_time.seconds(),
        "Derived commit committer timestamp should be newer than original"
    );
}

#[test]
fn derived_commit() {
    let jj = workspace();
    let author = Person {
        name: b"Test User".to_vec(),
        email: b"test@example.com".to_vec(),
    };
    let committer = Person {
        name: b"J\xfcrgen".to_vec(),
        email: b"j@example.com".to_vec(),
    };
    let now = Time {
        seconds: 1_700_000_000,
        offset_minutes: -90,
    };
    let commit = jj.create_derived_commit(
        &author,
        &committer,
        now,
        "Derived commit message",
        oid(THIRD),
        &[oid(SECOND), oid(FIRST)],
    );
    assert_eq!(commit.author.name, "Test User");
    assert_eq!(commit.author.email, "test@example.com");
    assert_eq!(commit.committer.name, "J\u{fffd}rgen");
    assert_eq!(commit.author.when, now);
    assert_eq!(commit.committer.when, now);
    assert!(commit.reference.is_none());
    assert_eq!(commit.message, "Derived commit message");
    assert_eq!(commit.tree, oid(THIRD));
    assert_eq!(commit.parents, vec![oid(SECOND), oid(FIRST)]);
}

#[test]
fn picking_a_commit() {
    let jj = workspace();
    let pick = jj.cherrypick(oid(FIRST), oid(SECOND), 0);
    assert_eq!(pick.base, BaseTree::Empty);
    let pick = jj.cherrypick(oid(FIRST), oid(SECOND), 2);
    assert_eq!(pick.base, BaseTree::FirstParent);
    assert_eq!(pick.commit, oid(FIRST));
    assert_eq!(pick.onto, oid(SECOND));
    assert_eq!(pick.mainline, 0);
}

#[test]
fn messages_that_changed_are_rewritten() {
    let jj = workspace();
    let commits = vec![
        commit(FIRST, false),
        commit(SECOND, true),
        commit(THIRD, true),
    ];
    let mut rewrite = jj.rewrite_commit_messages(commits);
    let mut described = Vec::new();
    let commits = loop {
        match rewrite.advance() {
            RewriteStep::Describe(pending) => {
                let oid = pending.commit().oid;
                described.push(oid);
                let command = pending.change_id_command(&jj);
                assert_eq!(arguments(&command)[3], oid.to_hex());
                assert_eq!(arguments(&command)[5], "change_id");
                let pending = pending
                    .change_found(&jj, printed("qpvuntsm\n"))
                    .ok()
                    .unwrap();
                assert_eq!(pending.commit().oid, oid);
                let command = pending.describe_command(&jj, "Title\n\nText");
                assert_eq!(
                    arguments(&command),
                    vec!["describe", "-r", "qpvuntsm", "-m", "Title\n\nText"]
                );
                assert_eq!(command.directory.as_deref(), Some("/work/repo"));
                rewrite = pending.described(printed("")).ok().unwrap();
            }
            RewriteStep::Finished(commits) => break commits,
        }
    };
    assert_eq!(described, vec![oid(SECOND), oid(THIRD)]);
    assert_eq!(commits.len(), 3);
    assert!(commits.iter().all(|commit| !commit.message_changed));
    // Nothing is left to be done.
    match jj.rewrite_commit_messages(commits).advance() {
        RewriteStep::Finished(commits) => assert_eq!(commits.len(), 3),
        RewriteStep::Describe(_) => panic!("all messages are written back"),
    }
}

fn change_known(pending: PendingRewrite) -> PendingDescribe {
    pending
        .change_found(&workspace(), printed("qpvuntsm\n"))
        .ok()
        .unwrap()
}

#[test]
fn change_that_cannot_be_found() {
    let jj = workspace();
    let commits = vec![commit(FIRST, true), commit(SECOND, true)];
    let rewrite = match jj.rewrite_commit_messages(commits).advance() {
        RewriteStep::Describe(pending) => change_known(pending)
            .described(printed(""))
            .ok()
            .unwrap(),
        RewriteStep::Finished(_) => panic!("two messages changed"),
    };
    let failure = match rewrite.advance() {
        RewriteStep::Describe(pending) => pending
            .change_found(&jj, failed(Some(1), b"no such revision"))
            .err()
            .unwrap(),
        RewriteStep::Finished(_) => panic!("one message is left"),
    };
    assert_eq!(
        failure.error.messages,
        vec!["jujutsu exited with code 1, stderr:\nno such revision".to_string()]
    );
    let changed: Vec<bool> = failure
        .commits
        .iter()
        .map(|commit| commit.message_changed)
        .collect();
    assert_eq!(changed, vec![false, true]);
}

#[test]
fn rewriting_without_jj() {
    let jj = workspace();
    let pending = || match jj.rewrite_commit_messages(vec![commit(FIRST, true)]).advance() {
        RewriteStep::Describe(pending) => pending,
        RewriteStep::Finished(_) => panic!("one message changed"),
    };
    let failure = pending().abandoned(not_started("gone".to_string()));
    assert_eq!(failure.error.messages.len(), 2);
    assert!(failure.commits[0].message_changed);
    let failure = change_known(pending()).abandoned(not_started("gone".to_string()));
    assert_eq!(failure.error.messages[0], "gone");
    assert!(failure.commits[0].message_changed);
}

#[test]
fn message_that_cannot_be_rewritten() {
    let jj = workspace();
    let commits = vec![commit(FIRST, true), commit(SECOND, true)];
    let rewrite = jj.rewrite_commit_messages(commits);
    let rewrite = match rewrite.advance() {
        RewriteStep::Describe(pending) => change_known(pending)
            .described(printed(""))
            .ok()
            .unwrap(),
        RewriteStep::Finished(_) => panic!("two messages changed"),
    };
    let failure = match rewrite.advance() {
        RewriteStep::Describe(pending) => change_known(pending)
            .described(failed(Some(1), b"immutable"))
            .err()
            .unwrap(),
        RewriteStep::Finished(_) => panic!("one message is left"),
    };
    assert_eq!(
        failure.error.messages,
        vec!["Failed to update commit message: immutable".to_string()]
    );
    assert!(!failure.commits[0].message_changed);
    assert!(failure.commits[1].message_changed);
    let command = jj.describe_command("qpvuntsm", "Title\n\nText");
    assert_eq!(
        arguments(&command),
        vec!["describe", "-r", "qpvuntsm", "-m", "Title\n\nText"]
    );
}
