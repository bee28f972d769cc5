use upctl_svc::agent::{
    shell_escape_for_ssh, ssh_cmd, AgentBackend, AgentError, AgentStep, CommandLine, PromptKeys,
    Ran, SessionWork,
};

fn command(program: &str, args: &[&str]) -> CommandLine {
    CommandLine {
        program: program.to_string(),
        args: args.iter().map(|a| a.to_string()).collect(),
    }
}

fn ssh(jump: Option<&str>) -> AgentBackend {
    AgentBackend::from_env(
        Some("ssh"),
        Some("studio".to_string()),
        jump.map(|j| j.to_string()),
        Some("A=1"),
    )
}

fn ended(success: bool, stdout: &[u8], stderr: &[u8]) -> Ran {
    Ran::Ended { success, stdout: stdout.to_vec(), stderr: stderr.to_vec() }
}

fn done<S>(step: AgentStep<S>) -> Result<(), String> {
    match step {
        AgentStep::Done(Ok(())) => Ok(()),
        AgentStep::Done(Err(e)) => Err(e.to_string()),
        _ => panic!("not done"),
    }
}

/// Reads a word as a POSIX shell does.
fn posix(word: &str) -> Option<String> {
    let mut text = String::new();
    let mut quoted = false;
    let mut chars = word.chars();
    while let Some(c) = chars.next() {
        if c == '\'' {
            quoted = !quoted;
        } else if quoted {
            text.push(c);
        } else if c == '\\' {
            text.push(chars.next()?);
        } else {
            return None;
        }
    }
    if quoted {
        None
    } else {
        Some(text)
    }
}

/// Reads a word as the fish shell does.
fn fish(word: &str) -> Option<String> {
    let chars: Vec<char> = word.chars().collect();
    let mut text = String::new();
    let mut quoted = false;
    let mut i = 0;
    while i < chars.len() {
        if chars[i] == '\\' && i + 1 < chars.len() && "'\\".contains(chars[i + 1]) {
            text.push(chars[i + 1]);
            i += 1;
        } else if chars[i] == '\'' {
            quoted = !quoted;
        } else if quoted {
            text.push(chars[i]);
        } else {
            return None;
        }
        i += 1;
    }
    if quoted {
        None
    } else {
        Some(text)
    }
}

#[test]
fn the_backend_is_local_unless_ssh_is_asked_for() {
    for backend in [None, Some("local"), Some("SSH"), Some("")] {
        let b = AgentBackend::from_env(backend, Some("h".to_string()), None, Some("A=1"));
        assert!(matches!(b, AgentBackend::Local));
    }
}

#[test]
fn the_ssh_backend_has_defaults() {
    match AgentBackend::from_env(Some("ssh"), None, None, None) {
        AgentBackend::Ssh { host, jump, opts } => {
            assert_eq!(host, "studio-nps");
            assert_eq!(jump, None);
            assert_eq!(opts, vec!["-o=StrictHostKeyChecking=no", "-o=ConnectTimeout=5"]);
        }
        AgentBackend::Local => panic!("local"),
    }
}

#[test]
fn ssh_options_are_split_and_trimmed() {
    let b = AgentBackend::from_env(
        Some("ssh"),
        Some("h".to_string()),
        Some("j".to_string()),
        Some(" A=1 ,,B=2\n"),
    );
    match b {
        AgentBackend::Ssh { host, jump, opts } => {
            assert_eq!(host, "h");
            assert_eq!(jump, Some("j".to_string()));
            assert_eq!(opts, vec!["-o=A=1", "-o=", "-o=B=2"]);
        }
        AgentBackend::Local => panic!("local"),
    }
}

#[test]
fn session_names_are_checked() {
    for name in ["a", "agent-1", "A_b", "会话", "é9"] {
        assert!(AgentBackend::validate_session(name), "{}", name);
    }
    for name in ["", " ", "a b", "a.b", "a:1", "a'", "$x", "a;b", "—", "a\n"] {
        assert!(!AgentBackend::validate_session(name), "{}", name);
    }
}

#[test]
fn text_is_quoted_for_the_remote_shell() {
    assert_eq!(shell_escape_for_ssh(""), "''");
    assert_eq!(shell_escape_for_ssh("a b > $x"), "'a b > $x'");
    assert_eq!(shell_escape_for_ssh("it's"), "'it'\\''s'");
    assert_eq!(shell_escape_for_ssh("''"), "''\\'''\\'''");
    assert_eq!(shell_escape_for_ssh("提\n交"), "'提\n交'");
}

#[test]
fn a_shell_reads_the_quoted_text_back() {
    for text in ["", "'", "''", "a'b", "\\", "a\\'b\\", "$(x) `y` \"z\"\n", "提'交"] {
        assert_eq!(posix(&shell_escape_for_ssh(text)), Some(text.to_string()));
    }
}

#[test]
fn fish_reads_the_quoted_text_back() {
    for text in ["", "'", "''", "a'b", "$(x) `y` \"z\"\n", "提'交", "a\\n\\ 'b"] {
        assert_eq!(fish(&shell_escape_for_ssh(text)), Some(text.to_string()));
    }
    assert_eq!(fish(&shell_escape_for_ssh("\\\\")), Some("\\".to_string()));
    assert_eq!(fish(&shell_escape_for_ssh("a\\")), None);
}

#[test]
fn ssh_commands_name_the_jump_host_before_the_host() {
    let opts = vec!["-o=A=1".to_string()];
    let args = vec!["ls".to_string()];
    assert_eq!(
        ssh_cmd("h", &Some("j".to_string()), &opts, &args),
        command("ssh", &["-o=A=1", "-J", "j", "h", "tmux", "ls"]),
    );
    assert_eq!(
        ssh_cmd("h", &None, &vec![], &vec![]),
        command("ssh", &["h", "tmux"]),
    );
}

#[test]
fn keys_are_quoted_over_ssh_only() {
    assert_eq!(
        AgentBackend::Local.send_keys("s", "it's"),
        command("tmux", &["send-keys", "-t", "s", "it's"]),
    );
    assert_eq!(
        ssh(None).send_keys("s", "it's"),
        command("ssh", &["-o=A=1", "studio", "tmux", "send-keys", "-t", "s", "'it'\\''s'"]),
    );
}

#[test]
fn panes_are_captured_with_their_last_lines() {
    assert_eq!(
        AgentBackend::Local.capture_pane("s"),
        command("tmux", &["capture-pane", "-t", "s", "-p", "-S", "-200"]),
    );
    assert_eq!(
        ssh(Some("j")).capture_pane("s"),
        command(
            "ssh",
            &["-o=A=1", "-J", "j", "studio", "tmux", "capture-pane", "-t", "s", "-p", "-S", "-200"],
        ),
    );
}

#[test]
fn sessions_are_looked_for() {
    assert_eq!(
        AgentBackend::Local.has_session("s"),
        command("tmux", &["has-session", "-t", "s"]),
    );
    assert_eq!(
        ssh(None).has_session("s"),
        command("ssh", &["-o=A=1", "studio", "tmux", "has-session", "-t", "s"]),
    );
    assert!(AgentBackend::session_found(&ended(true, b"", b"")));
    assert!(!AgentBackend::session_found(&ended(false, b"", b"")));
    assert!(!AgentBackend::session_found(&Ran::NotStarted("no".to_string())));
}

#[test]
fn output_is_read_as_text() {
    let b = AgentBackend::Local;
    assert_eq!(b.output_of(ended(true, "提交".as_bytes(), b"x")).unwrap(), "提交");
    assert_eq!(b.output_of(ended(true, b"a\xffb", b"")).unwrap(), "a\u{fffd}b");
    assert_eq!(b.output_of(ended(true, b"", b"")).unwrap(), "");
}

#[test]
fn failures_name_the_program() {
    let not_started = || Ran::NotStarted("No such file".to_string());
    let failed = || ended(false, b"out", b"no \xfe server");
    let local = AgentBackend::Local;
    assert_eq!(local.output_of(not_started()).unwrap_err().0, "tmux spawn: No such file");
    assert_eq!(local.output_of(failed()).unwrap_err().0, "tmux error: no \u{fffd} server");
    let remote = ssh(None);
    assert_eq!(remote.result_of(not_started()).unwrap_err().0, "ssh spawn: No such file");
    assert_eq!(remote.result_of(failed()).unwrap_err().0, "ssh error: no \u{fffd} server");
    assert!(remote.result_of(ended(true, b"x", b"")).is_ok());
}

#[test]
fn errors_are_shown_in_words() {
    assert_eq!(AgentError("tmux error: x".to_string()).to_string(), "tmux error: x");
}

#[test]
fn a_prompt_is_typed_then_submitted() {
    let b = ssh(None);
    match b.send_prompt("s", "go") {
        AgentStep::Run(c, PromptKeys::Text) => assert_eq!(c, b.send_keys("s", "go")),
        _ => panic!("not typed"),
    }
    match b.prompt_typed(PromptKeys::Text, ended(true, b"", b"")) {
        AgentStep::Pause(seconds) => assert_eq!(seconds, 1),
        _ => panic!("no pause"),
    }
    match b.prompt_paused("s") {
        AgentStep::Run(c, PromptKeys::Enter) => assert_eq!(
            c,
            command("ssh", &["-o=A=1", "studio", "tmux", "send-keys", "-t", "s", "'Enter'"]),
        ),
        _ => panic!("not submitted"),
    }
    assert_eq!(done(b.prompt_typed(PromptKeys::Enter, ended(true, b"", b""))), Ok(()));
}

#[test]
fn a_prompt_that_cannot_be_typed_is_not_submitted() {
    let b = AgentBackend::Local;
    assert_eq!(
        done(b.prompt_typed(PromptKeys::Text, ended(false, b"", b"gone"))),
        Err("tmux error: gone".to_string()),
    );
    assert_eq!(
        done(b.prompt_typed(PromptKeys::Enter, Ran::NotStarted("e".to_string()))),
        Err("tmux spawn: e".to_string()),
    );
}

#[test]
fn a_session_that_exists_is_left_alone() {
    let b = AgentBackend::Local;
    match b.ensure_session("s") {
        AgentStep::Run(c, SessionWork::Check) => assert_eq!(c, b.has_session("s")),
        _ => panic!("not looked for"),
    }
    let found = ended(true, b"", b"");
    assert_eq!(done(b.ensure_session_next("s", Some("x"), SessionWork::Check, found)), Ok(()));
}

#[test]
fn a_missing_session_is_created_here() {
    let b = AgentBackend::Local;
    for (cmd, args) in [
        (None, vec!["new-session", "-d", "-s", "s"]),
        (Some("htop"), vec!["new-session", "-d", "-s", "s", "htop"]),
    ] {
        match b.ensure_session_next("s", cmd, SessionWork::Check, ended(false, b"", b"")) {
            AgentStep::Run(c, SessionWork::Create) => assert_eq!(c, command("tmux", &args)),
            _ => panic!("not created"),
        }
    }
    let created = |ran| done(b.ensure_session_next("s", None, SessionWork::Create, ran));
    assert_eq!(created(ended(true, b"", b"")), Ok(()));
    assert_eq!(
        created(ended(false, b"", b"duplicate")),
        Err("tmux new-session failed: duplicate".to_string()),
    );
    assert_eq!(created(Ran::NotStarted("No such file".to_string())), Err("No such file".to_string()));
}

#[test]
fn no_session_is_created_over_ssh() {
    let missing = ended(false, b"", b"");
    assert_eq!(
        done(ssh(None).ensure_session_next("s", Some("x"), SessionWork::Check, missing)),
        Err("Cannot create tmux session via SSH. Create it manually.".to_string()),
    );
}
