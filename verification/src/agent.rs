//! The agent backend: which commands drive tmux, here or over SSH, and what their results mean.
use vstd::prelude::*;
use vstd::utf8::{decode_utf8, valid_utf8};

use crate::text::{
    alphanumeric, ascii_alphanumeric, chars_of, find_char, lemma_position, position, same_text,
    split, split_on, texts, trim, trimmed,
};

verus! {

/// What went wrong, in words.
#[derive(Debug)]
pub struct AgentError(pub String);

impl AgentError {
    /// The error in words.
    pub fn to_string(&self) -> (t: String)
        ensures
            t@ == self.0@,
    {
        self.0.clone()
    }
}

/// Where the agents' tmux runs.
///
/// | Variable | Default | Description |
/// |----------|---------|-------------|
/// | `AGENT_BACKEND` | `local` | `local` (direct tmux) or `ssh` (tunnel) |
/// | `TMUX_SSH_HOST` | `studio-nps` | SSH target for tunnel mode |
/// | `TMUX_SSH_JUMP` | _(none)_ | Optional jump host (two-hop) |
/// | `TMUX_SSH_OPTS` | `StrictHostKeyChecking=no,ConnectTimeout=5` | SSH options |
#[derive(Debug)]
pub enum AgentBackend {
    /// tmux on this machine.
    Local,
    /// tmux on another machine, through SSH.
    Ssh { host: String, jump: Option<String>, opts: Vec<String> },
}

/// What an `AgentBackend` says.
pub enum AgentBackendView {
    Local,
    Ssh { host: Seq<char>, jump: Option<Seq<char>>, opts: Seq<Seq<char>> },
}

impl View for AgentBackend {
    type V = AgentBackendView;

    open spec fn view(&self) -> AgentBackendView {
        match self {
            AgentBackend::Local => AgentBackendView::Local,
            AgentBackend::Ssh { host, jump, opts } => AgentBackendView::Ssh {
                host: host@,
                jump: jump.deep_view(),
                opts: opts.deep_view(),
            },
        }
    }
}

/// A command to run: a program and its arguments.
#[derive(Debug, PartialEq)]
pub struct CommandLine {
    pub program: String,
    pub args: Vec<String>,
}

/// What a `CommandLine` says.
pub struct CommandLineView {
    pub program: Seq<char>,
    pub args: Seq<Seq<char>>,
}

impl View for CommandLine {
    type V = CommandLineView;

    open spec fn view(&self) -> CommandLineView {
        CommandLineView { program: self.program@, args: self.args.deep_view() }
    }
}

/// What became of a command: it could not be started, for a reason in words, or it ended.
#[derive(Debug)]
pub enum Ran {
    NotStarted(String),
    Ended { success: bool, stdout: Vec<u8>, stderr: Vec<u8> },
}

/// What a `Ran` says.
pub enum RanView {
    NotStarted(Seq<char>),
    Ended { success: bool, stdout: Seq<u8>, stderr: Seq<u8> },
}

impl View for Ran {
    type V = RanView;

    open spec fn view(&self) -> RanView {
        match self {
            Ran::NotStarted(e) => RanView::NotStarted(e@),
            Ran::Ended { success, stdout, stderr } => RanView::Ended {
                success: *success,
                stdout: stdout@,
                stderr: stderr@,
            },
        }
    }
}

/// Bytes as text: what is not UTF-8 is replaced.
pub uninterp spec fn utf8_lossy(bytes: Seq<u8>) -> Seq<char>;

/// What a program's output reads as: the text that it encodes, where it is UTF-8; otherwise with
/// what is not UTF-8 replaced.
pub open spec fn output_text(bytes: Seq<u8>) -> Seq<char> {
    if valid_utf8(bytes) {
        decode_utf8(bytes)
    } else {
        utf8_lossy(bytes)
    }
}

/// Calls `String::from_utf8_lossy`. Claims that the text depends on the bytes alone, and names it;
/// bytes that are UTF-8 are the text that they encode.
#[verifier::external_body]
fn lossy_text(bytes: &[u8]) -> (t: String)
    ensures
        t@ == utf8_lossy(bytes@),
        valid_utf8(bytes@) ==> t@ == decode_utf8(bytes@),
{
    String::from_utf8_lossy(bytes).to_string()
}

/// The SSH options that a comma-separated list names.
pub open spec fn ssh_options(list: Seq<char>) -> Seq<Seq<char>> {
    split_on(list, ',').map_values(|s: Seq<char>| "-o="@ + trimmed(s))
}

/// The backend that the environment variables choose.
pub open spec fn backend_from(
    backend: Option<Seq<char>>,
    host: Option<Seq<char>>,
    jump: Option<Seq<char>>,
    opts: Option<Seq<char>>,
) -> AgentBackendView {
    if backend == Some("ssh"@) {
        AgentBackendView::Ssh {
            host: match host {
                Some(host) => host,
                None => "studio-nps"@,
            },
            jump,
            opts: ssh_options(
                match opts {
                    Some(opts) => opts,
                    None => "StrictHostKeyChecking=no,ConnectTimeout=5"@,
                },
            ),
        }
    } else {
        AgentBackendView::Local
    }
}

/// Whether `c` may stand in the name of a session.
pub open spec fn session_char(c: char) -> bool {
    alphanumeric(c) || c == '-' || c == '_'
}

/// Whether a text may be the name of a session: letters, digits, hyphens and underscores, at least
/// one.
pub open spec fn valid_session(s: Seq<char>) -> bool {
    s.len() > 0 && forall|i: int| 0 <= i < s.len() ==> session_char(#[trigger] s[i])
}

/// A text inside single quotes: each single quote ends the quotes, stands escaped, and opens them
/// again.
pub open spec fn quotes_escaped(s: Seq<char>) -> Seq<char>
    decreases s.len(),
{
    if s.len() == 0 {
        Seq::empty()
    } else if s[0] == '\'' {
        "'\\''"@ + quotes_escaped(s.skip(1))
    } else {
        seq![s[0]] + quotes_escaped(s.skip(1))
    }
}

/// A text as one word of a shell command.
pub open spec fn shell_word(s: Seq<char>) -> Seq<char> {
    "'"@ + quotes_escaped(s) + "'"@
}

/// The command that runs tmux with these arguments.
pub open spec fn tmux_command(backend: AgentBackendView, args: Seq<Seq<char>>) -> CommandLineView {
    match backend {
        AgentBackendView::Local => CommandLineView { program: "tmux"@, args },
        AgentBackendView::Ssh { host, jump, opts } => CommandLineView {
            program: "ssh"@,
            args: opts + (match jump {
                Some(jump) => seq!["-J"@, jump],
                None => Seq::empty(),
            }) + seq![host, "tmux"@] + args,
        },
    }
}

/// The command that types keys into a session. What goes through a remote shell is quoted.
pub open spec fn keys_command(
    backend: AgentBackendView,
    session: Seq<char>,
    keys: Seq<char>,
) -> CommandLineView {
    tmux_command(
        backend,
        seq![
            "send-keys"@,
            "-t"@,
            session,
            if backend is Local {
                keys
            } else {
                shell_word(keys)
            },
        ],
    )
}

/// The command that prints the last 200 lines of a session.
pub open spec fn capture_command(backend: AgentBackendView, session: Seq<char>) -> CommandLineView {
    tmux_command(backend, seq!["capture-pane"@, "-t"@, session, "-p"@, "-S"@, "-200"@])
}

/// The command that checks for a session.
pub open spec fn check_command(backend: AgentBackendView, session: Seq<char>) -> CommandLineView {
    tmux_command(backend, seq!["has-session"@, "-t"@, session])
}

/// The command that creates a session on this machine.
pub open spec fn create_command(
    session: Seq<char>,
    cmd: Option<Seq<char>>,
) -> CommandLineView {
    let args = seq!["new-session"@, "-d"@, "-s"@, session];
    CommandLineView {
        program: "tmux"@,
        args: match cmd {
            Some(cmd) => args.push(cmd),
            None => args,
        },
    }
}

/// The program that a backend starts.
pub open spec fn backend_program(backend: AgentBackendView) -> Seq<char> {
    if backend is Local {
        "tmux"@
    } else {
        "ssh"@
    }
}

/// What a command printed, or in words why it failed.
pub open spec fn command_result(backend: AgentBackendView, ran: RanView) -> Result<
    Seq<char>,
    Seq<char>,
> {
    match ran {
        RanView::NotStarted(e) => Err(backend_program(backend) + " spawn: "@ + e),
        RanView::Ended { success, stdout, stderr } => if success {
            Ok(output_text(stdout))
        } else {
            Err(backend_program(backend) + " error: "@ + output_text(stderr))
        },
    }
}

/// Whether a check found the session.
pub open spec fn check_result(ran: RanView) -> bool {
    ran matches RanView::Ended { success, .. } && success
}

/// An outcome that only counts as done or failed.
pub open spec fn done_or_failed(r: Result<(), AgentError>) -> Result<(), Seq<char>> {
    match r {
        Ok(()) => Ok(()),
        Err(e) => Err(e.0@),
    }
}

/// The same, of a result with a value.
pub open spec fn without_value(r: Result<Seq<char>, Seq<char>>) -> Result<(), Seq<char>> {
    match r {
        Ok(_) => Ok(()),
        Err(e) => Err(e),
    }
}

/// A text without quotes before `p` stays as it is up to there.
proof fn lemma_quotes_escaped_from(s: Seq<char>, p: int)
    requires
        0 <= p <= s.len(),
        forall|i: int| 0 <= i < p ==> s[i] != '\'',
    ensures
        quotes_escaped(s) == s.take(p) + quotes_escaped(s.skip(p)),
    decreases p,
{
    if p == 0 {
        assert(s.take(0) + quotes_escaped(s.skip(0)) =~= quotes_escaped(s)) by {
            assert(s.skip(0) =~= s);
        }
    } else {
        let rest = s.skip(1);
        assert forall|i: int| 0 <= i < p - 1 implies rest[i] != '\'' by {
            assert(rest[i] == s[i + 1]);
        }
        lemma_quotes_escaped_from(rest, p - 1);
        assert(rest.skip(p - 1) =~= s.skip(p));
        assert(seq![s[0]] + rest.take(p - 1) =~= s.take(p));
        assert(quotes_escaped(s) =~= s.take(p) + quotes_escaped(s.skip(p)));
    }
}

/// Wraps a text in single quotes for the remote shell, which then takes it as one word and
/// interprets nothing in it.
pub fn shell_escape_for_ssh(text: &str) -> (word: String)
    ensures
        word@ == shell_word(text@),
{
    let mut word = "'".to_owned();
    let mut rest = text;
    assert(word@ + quotes_escaped(rest@) =~= "'"@ + quotes_escaped(text@));
    loop
        invariant
            word@ + quotes_escaped(rest@) == "'"@ + quotes_escaped(text@),
        decreases rest@.len(),
    {
        proof {
            lemma_position(rest@, '\'');
            lemma_quotes_escaped_from(rest@, position(rest@, '\''));
        }
        match find_char(rest, '\'') {
            Some(p) => {
                let ghost written = word@;
                let n = rest.unicode_len();
                let part = rest.substring_char(0, p);
                let tail = rest.substring_char(p + 1, n);
                proof {
                    assert(part@ =~= rest@.take(p as int));
                    assert(rest@.skip(p as int)[0] == '\'');
                    assert(tail@ =~= rest@.skip(p as int).skip(1));
                }
                word.append(part);
                word.append("'\\''");
                assert(word@ + quotes_escaped(tail@) =~= written + quotes_escaped(rest@));
                rest = tail;
            },
            None => {
                let ghost written = word@;
                proof {
                    assert(rest@.take(rest@.len() as int) =~= rest@);
                    assert(rest@.skip(rest@.len() as int) =~= Seq::<char>::empty());
                    assert(rest@ + Seq::<char>::empty() =~= rest@);
                }
                word.append(rest);
                word.append("'");
                return word;
            },
        }
    }
}

/// What to do next: run a command, pause for some seconds, or stop with a result.
#[derive(Debug)]
pub enum AgentStep<S> {
    Run(CommandLine, S),
    Pause(u64),
    Done(Result<(), AgentError>),
}

/// What an `AgentStep` says.
pub enum AgentStepView<S> {
    Run(CommandLineView, S),
    Pause(u64),
    Done(Result<(), Seq<char>>),
}

impl<S> AgentStep<S> {
    /// What the step says.
    pub open spec fn view(&self) -> AgentStepView<S> {
        match self {
            AgentStep::Run(command, state) => AgentStepView::Run(command@, *state),
            AgentStep::Pause(seconds) => AgentStepView::Pause(*seconds),
            AgentStep::Done(r) => AgentStepView::Done(done_or_failed(*r)),
        }
    }
}

/// The keys that are being typed: the text of a prompt, or the key that submits it.
#[derive(Clone, Copy, Debug, PartialEq, Eq, Structural)]
pub enum PromptKeys {
    Text,
    Enter,
}

/// The first step of a prompt: its text is typed.
pub open spec fn prompt_start(
    backend: AgentBackendView,
    session: Seq<char>,
    prompt: Seq<char>,
) -> AgentStepView<PromptKeys> {
    AgentStepView::Run(keys_command(backend, session, prompt), PromptKeys::Text)
}

/// The step after keys were typed: a pause of a second after the text, the end after the key that
/// submits it. A failure ends the prompt.
pub open spec fn prompt_after_keys(
    backend: AgentBackendView,
    keys: PromptKeys,
    ran: RanView,
) -> AgentStepView<PromptKeys> {
    match (keys, command_result(backend, ran)) {
        (PromptKeys::Text, Ok(_)) => AgentStepView::Pause(1),
        (_, r) => AgentStepView::Done(without_value(r)),
    }
}

/// The step after the pause: the prompt is submitted.
pub open spec fn prompt_after_pause(
    backend: AgentBackendView,
    session: Seq<char>,
) -> AgentStepView<PromptKeys> {
    AgentStepView::Run(keys_command(backend, session, "Enter"@), PromptKeys::Enter)
}

/// What is being done about a session: it is looked for, or created.
#[derive(Clone, Copy, Debug, PartialEq, Eq, Structural)]
pub enum SessionWork {
    Check,
    Create,
}

/// The first step of making sure of a session: it is looked for.
pub open spec fn ensure_start(backend: AgentBackendView, session: Seq<char>) -> AgentStepView<
    SessionWork,
> {
    AgentStepView::Run(check_command(backend, session), SessionWork::Check)
}

/// The next step of making sure of a session. On this machine a missing one is created; over SSH it
/// is not.
pub open spec fn ensure_next(
    backend: AgentBackendView,
    session: Seq<char>,
    cmd: Option<Seq<char>>,
    work: SessionWork,
    ran: RanView,
) -> AgentStepView<SessionWork> {
    match work {
        SessionWork::Check => if check_result(ran) {
            AgentStepView::Done(Ok(()))
        } else if backend is Local {
            AgentStepView::Run(create_command(session, cmd), SessionWork::Create)
        } else {
            AgentStepView::Done(
                Err("Cannot create tmux session via SSH. Create it manually."@),
            )
        },
        SessionWork::Create => AgentStepView::Done(
            match ran {
                RanView::NotStarted(e) => Err(e),
                RanView::Ended { success, stderr, .. } => if success {
                    Ok(())
                } else {
                    Err("tmux new-session failed: "@ + output_text(stderr))
                },
            },
        ),
    }
}

/// Copies a list of arguments to the end of another.
fn extend_args(args: &mut Vec<String>, more: &Vec<String>)
    ensures
        final(args).deep_view() == old(args).deep_view() + more.deep_view(),
{
    let ghost earlier = args.deep_view();
    let ghost all = more.deep_view();
    assert(args.deep_view() =~= earlier + all.take(0));
    for i in 0..more.len()
        invariant
            all == more.deep_view(),
            args.deep_view() == earlier + all.take(i as int),
    {
        let ghost before = args.deep_view();
        args.push(more[i].clone());
        assert(args.deep_view() =~= before.push(more@[i as int]@));
        assert(args.deep_view() =~= earlier + all.take(i + 1));
    }
    assert(all.take(all.len() as int) =~= all);
}

/// The arguments of an SSH command that runs tmux on the other machine.
pub fn ssh_cmd(
    host: &str,
    jump: &Option<String>,
    opts: &Vec<String>,
    tmux_args: &Vec<String>,
) -> (command: CommandLine)
    ensures
        command@ == tmux_command(
            AgentBackendView::Ssh { host: host@, jump: jump.deep_view(), opts: opts.deep_view() },
            tmux_args.deep_view(),
        ),
{
    let mut args: Vec<String> = Vec::new();
    extend_args(&mut args, opts);
    assert(args.deep_view() =~= opts.deep_view());
    if let Some(jump) = jump {
        let ghost before = args.deep_view();
        args.push("-J".to_owned());
        args.push(jump.clone());
        assert(args.deep_view() =~= before + seq!["-J"@, jump@]);
    } else {
        assert(args.deep_view() =~= opts.deep_view() + Seq::<Seq<char>>::empty());
    }
    let ghost before = args.deep_view();
    args.push(host.to_owned());
    args.push("tmux".to_owned());
    assert(args.deep_view() =~= before + seq![host@, "tmux"@]);
    extend_args(&mut args, tmux_args);
    CommandLine { program: "ssh".to_owned(), args }
}

impl AgentBackend {
    /// The backend that the environment variables `AGENT_BACKEND`, `TMUX_SSH_HOST`, `TMUX_SSH_JUMP`
    /// and `TMUX_SSH_OPTS` choose; each is `None` where it is not set.
    pub fn from_env(
        backend: Option<&str>,
        host: Option<String>,
        jump: Option<String>,
        opts: Option<&str>,
    ) -> (b: AgentBackend)
        ensures
            b@ == backend_from(
                backend.deep_view(),
                host.deep_view(),
                jump.deep_view(),
                opts.deep_view(),
            ),
    {
        let ssh = match backend {
            Some(backend) => same_text(backend, "ssh"),
            None => false,
        };
        if !ssh {
            return AgentBackend::Local;
        }
        let list = match opts {
            Some(opts) => opts,
            None => "StrictHostKeyChecking=no,ConnectTimeout=5",
        };
        let parts = split(list, ',');
        let ghost all = ssh_options(list@);
        let mut options: Vec<String> = Vec::new();
        for i in 0..parts.len()
            invariant
                texts(parts@) == split_on(list@, ','),
                all == ssh_options(list@),
                options.deep_view() == all.take(i as int),
        {
            let ghost before = options.deep_view();
            let option = "-o=".to_owned().concat(trim(parts[i]));
            assert(texts(parts@)[i as int] == parts@[i as int]@);
            assert(all[i as int] == option@);
            options.push(option);
            assert(options.deep_view() =~= before.push(option@));
            assert(options.deep_view() =~= all.take(i + 1));
        }
        assert(texts(parts@).len() == parts@.len());
        assert(all.take(all.len() as int) =~= all);
        AgentBackend::Ssh {
            host: match host {
                Some(host) => host,
                None => "studio-nps".to_owned(),
            },
            jump,
            opts: options,
        }
    }

    /// Whether a text may be the name of a session.
    pub fn validate_session(session: &str) -> (yes: bool)
        ensures
            yes == valid_session(session@),
    {
        let chars = chars_of(session);
        let mut i: usize = 0;
        while i < chars.len()
            invariant
                chars@ == session@,
                i <= chars.len(),
                forall|j: int| 0 <= j < i ==> session_char(#[trigger] session@[j]),
            decreases chars.len() - i,
        {
            let c = chars[i];
            if !(c.is_alphanumeric() || c == '-' || c == '_') {
                assert(!session_char(session@[i as int]));
                return false;
            }
            i += 1;
        }
        chars.len() > 0
    }

    /// The command that runs tmux with these arguments.
    fn tmux(&self, args: Vec<String>) -> (command: CommandLine)
        ensures
            command@ == tmux_command(self@, args.deep_view()),
    {
        match self {
            AgentBackend::Local => CommandLine { program: "tmux".to_owned(), args },
            AgentBackend::Ssh { host, jump, opts } => ssh_cmd(host.as_str(), jump, opts, &args),
        }
    }

    /// The command that types keys into a session.
    pub fn send_keys(&self, session: &str, keys: &str) -> (command: CommandLine)
        ensures
            command@ == keys_command(self@, session@, keys@),
    {
        let typed = match self {
            AgentBackend::Local => keys.to_owned(),
            AgentBackend::Ssh { .. } => shell_escape_for_ssh(keys),
        };
        let mut args: Vec<String> = Vec::new();
        args.push("send-keys".to_owned());
        args.push("-t".to_owned());
        args.push(session.to_owned());
        args.push(typed);
        assert(args.deep_view() =~= seq!["send-keys"@, "-t"@, session@, typed@]);
        self.tmux(args)
    }

    /// The command that prints the last 200 lines of a session.
    pub fn capture_pane(&self, session: &str) -> (command: CommandLine)
        ensures
            command@ == capture_command(self@, session@),
    {
        let mut args: Vec<String> = Vec::new();
        args.push("capture-pane".to_owned());
        args.push("-t".to_owned());
        args.push(session.to_owned());
        args.push("-p".to_owned());
        args.push("-S".to_owned());
        args.push("-200".to_owned());
        assert(args.deep_view() =~= seq![
            "capture-pane"@,
            "-t"@,
            session@,
            "-p"@,
            "-S"@,
            "-200"@,
        ]);
        self.tmux(args)
    }

    /// The command that checks for a session.
    pub fn has_session(&self, session: &str) -> (command: CommandLine)
        ensures
            command@ == check_command(self@, session@),
    {
        let mut args: Vec<String> = Vec::new();
        args.push("has-session".to_owned());
        args.push("-t".to_owned());
        args.push(session.to_owned());
        assert(args.deep_view() =~= seq!["has-session"@, "-t"@, session@]);
        self.tmux(args)
    }

    /// What a command printed, or why it failed.
    pub fn output_of(&self, ran: Ran) -> (r: Result<String, AgentError>)
        ensures
            match r {
                Ok(t) => command_result(self@, ran@) == Ok::<Seq<char>, Seq<char>>(t@),
                Err(e) => command_result(self@, ran@) == Err::<Seq<char>, Seq<char>>(e.0@),
            },
    {
        let program = match self {
            AgentBackend::Local => "tmux",
            AgentBackend::Ssh { .. } => "ssh",
        };
        match ran {
            Ran::NotStarted(e) => Err(
                AgentError(program.to_owned().concat(" spawn: ").concat(e.as_str())),
            ),
            Ran::Ended { success, stdout, stderr } => if success {
                Ok(lossy_text(stdout.as_slice()))
            } else {
                let reason = lossy_text(stderr.as_slice());
                Err(AgentError(program.to_owned().concat(" error: ").concat(reason.as_str())))
            },
        }
    }

    /// Whether a command succeeded, or why it failed.
    pub fn result_of(&self, ran: Ran) -> (r: Result<(), AgentError>)
        ensures
            done_or_failed(r) == without_value(command_result(self@, ran@)),
    {
        match self.output_of(ran) {
            Ok(_) => Ok(()),
            Err(e) => Err(e),
        }
    }

    /// Whether a check found the session.
    pub fn session_found(ran: &Ran) -> (found: bool)
        ensures
            found == check_result(ran@),
    {
        match ran {
            Ran::NotStarted(_) => false,
            Ran::Ended { success, .. } => *success,
        }
    }

    /// Sends a prompt in two steps: its text is typed first, and submitted after a pause, so that
    /// the program in the session has taken the text in before it is submitted.
    pub fn send_prompt(&self, session: &str, prompt: &str) -> (step: AgentStep<PromptKeys>)
        ensures
            step.view() == prompt_start(self@, session@, prompt@),
    {
        AgentStep::Run(self.send_keys(session, prompt), PromptKeys::Text)
    }

    /// Goes on with a prompt, now that keys were typed.
    pub fn prompt_typed(&self, keys: PromptKeys, ran: Ran) -> (step: AgentStep<PromptKeys>)
        ensures
            step.view() == prompt_after_keys(self@, keys, ran@),
    {
        match (keys, self.result_of(ran)) {
            (PromptKeys::Text, Ok(_)) => AgentStep::Pause(1),
            (_, r) => AgentStep::Done(r),
        }
    }

    /// Goes on with a prompt after the pause.
    pub fn prompt_paused(&self, session: &str) -> (step: AgentStep<PromptKeys>)
        ensures
            step.view() == prompt_after_pause(self@, session@),
    {
        AgentStep::Run(self.send_keys(session, "Enter"), PromptKeys::Enter)
    }

    /// Makes sure of a session: looks for it first.
    pub fn ensure_session(&self, session: &str) -> (step: AgentStep<SessionWork>)
        ensures
            step.view() == ensure_start(self@, session@),
    {
        AgentStep::Run(self.has_session(session), SessionWork::Check)
    }

    /// Goes on to make sure of a session, now that a command ended. A session is created with `cmd`
    /// running in it, where that is given.
    pub fn ensure_session_next(
        &self,
        session: &str,
        cmd: Option<&str>,
        work: SessionWork,
        ran: Ran,
    ) -> (step: AgentStep<SessionWork>)
        ensures
            step.view() == ensure_next(self@, session@, cmd.deep_view(), work, ran@),
    {
        match work {
            SessionWork::Check => {
                if AgentBackend::session_found(&ran) {
                    return AgentStep::Done(Ok(()));
                }
                match self {
                    AgentBackend::Local => {
                        let mut args: Vec<String> = Vec::new();
                        args.push("new-session".to_owned());
                        args.push("-d".to_owned());
                        args.push("-s".to_owned());
                        args.push(session.to_owned());
                        assert(args.deep_view() =~= seq![
                            "new-session"@,
                            "-d"@,
                            "-s"@,
                            session@,
                        ]);
                        if let Some(cmd) = cmd {
                            let ghost before = args.deep_view();
                            args.push(cmd.to_owned());
                            assert(args.deep_view() =~= before.push(cmd@));
                        }
                        AgentStep::Run(
                            CommandLine { program: "tmux".to_owned(), args },
                            SessionWork::Create,
                        )
                    },
                    AgentBackend::Ssh { .. } => AgentStep::Done(
                        Err(
                            AgentError(
                                "Cannot create tmux session via SSH. Create it manually.".to_owned(),
                            ),
                        ),
                    ),
                }
            },
            SessionWork::Create => match ran {
                Ran::NotStarted(e) => AgentStep::Done(Err(AgentError(e))),
                Ran::Ended { success, stderr, .. } => if success {
                    AgentStep::Done(Ok(()))
                } else {
                    let reason = lossy_text(stderr.as_slice());
                    AgentStep::Done(
                        Err(
                            AgentError(
                                "tmux new-session failed: ".to_owned().concat(reason.as_str()),
                            ),
                        ),
                    )
                },
            },
        }
    }
}

/// What a POSIX shell makes of a word that is written with single quotes and backslashes alone.
/// Inside single quotes every character but the quote stands for itself; outside, a backslash makes
/// the next character stand for itself. `None` where the quotes stay open, where a backslash comes
/// last, or where a character stands unprotected.
pub open spec fn shell_reads(s: Seq<char>, quoted: bool) -> Option<Seq<char>>
    decreases s.len(),
{
    if s.len() == 0 {
        if quoted {
            None
        } else {
            Some(Seq::empty())
        }
    } else if s[0] == '\'' {
        shell_reads(s.skip(1), !quoted)
    } else if quoted {
        prepend(s[0], shell_reads(s.skip(1), true))
    } else if s[0] == '\\' && s.len() > 1 {
        prepend(s[1], shell_reads(s.skip(2), false))
    } else {
        None
    }
}

/// A character before what was read.
pub open spec fn prepend(c: char, rest: Option<Seq<char>>) -> Option<Seq<char>> {
    match rest {
        Some(rest) => Some(seq![c] + rest),
        None => None,
    }
}

/// What follows the opening quote is read up to the closing one.
proof fn lemma_shell_reads_escaped(text: Seq<char>)
    ensures
        shell_reads(quotes_escaped(text) + "'"@, true) == Some(text),
    decreases text.len(),
{
    reveal_strlit("'");
    reveal_strlit("'\\''");
    let end = "'"@;
    let word = quotes_escaped(text) + end;
    if text.len() == 0 {
        assert(word =~= end);
        assert(end.skip(1) =~= Seq::<char>::empty());
        assert(shell_reads(end.skip(1), false) == Some(Seq::<char>::empty()));
        assert(text =~= Seq::<char>::empty());
    } else {
        let rest = quotes_escaped(text.skip(1)) + end;
        lemma_shell_reads_escaped(text.skip(1));
        assert(seq![text[0]] + text.skip(1) =~= text);
        if text[0] == '\'' {
            assert(word =~= "'\\''"@ + rest);
            let closed = word.skip(1);
            assert(closed[0] == '\\' && closed[1] == '\'');
            let reopened = closed.skip(2);
            assert(reopened[0] == '\'');
            assert(reopened.skip(1) =~= rest);
            assert(shell_reads(reopened, false) == Some(text.skip(1)));
            assert(shell_reads(closed, false) == Some(text));
        } else {
            assert(word =~= seq![text[0]] + rest);
            assert(word.skip(1) =~= rest);
        }
    }
}

/// A POSIX shell reads the word that `shell_escape_for_ssh` writes as exactly the text it was given.
pub proof fn law_shell_reads_the_text_back(text: Seq<char>)
    ensures
        shell_reads(shell_word(text), false) == Some(text),
{
    reveal_strlit("'");
    lemma_shell_reads_escaped(text);
    assert(shell_word(text).skip(1) =~= quotes_escaped(text) + "'"@);
}

/// What the fish shell makes of such a word. It differs from a POSIX shell inside single quotes, where
/// a backslash before a quote or a backslash makes that character stand for itself.
pub open spec fn fish_reads(s: Seq<char>, quoted: bool) -> Option<Seq<char>>
    decreases s.len(),
{
    if s.len() == 0 {
        if quoted {
            None
        } else {
            Some(Seq::empty())
        }
    } else if s[0] == '\\' && s.len() > 1 && (s[1] == '\'' || s[1] == '\\') {
        prepend(s[1], fish_reads(s.skip(2), quoted))
    } else if s[0] == '\'' {
        fish_reads(s.skip(1), !quoted)
    } else if quoted {
        prepend(s[0], fish_reads(s.skip(1), true))
    } else {
        None
    }
}

/// Whether each backslash stands before another character, and that is neither a backslash nor a
/// quote.
pub open spec fn plain_backslashes(text: Seq<char>) -> bool {
    forall|i: int|
        0 <= i < text.len() && #[trigger] text[i] == '\\' ==> i + 1 < text.len() && text[i + 1]
            != '\\' && text[i + 1] != '\''
}

/// What follows the opening quote is read up to the closing one.
proof fn lemma_fish_reads_escaped(text: Seq<char>)
    requires
        plain_backslashes(text),
    ensures
        fish_reads(quotes_escaped(text) + "'"@, true) == Some(text),
    decreases text.len(),
{
    reveal_strlit("'");
    reveal_strlit("'\\''");
    let end = "'"@;
    let word = quotes_escaped(text) + end;
    if text.len() == 0 {
        assert(word =~= end);
        assert(end.skip(1) =~= Seq::<char>::empty());
        assert(fish_reads(end.skip(1), false) == Some(Seq::<char>::empty()));
        assert(text =~= Seq::<char>::empty());
    } else {
        let rest = quotes_escaped(text.skip(1)) + end;
        assert(plain_backslashes(text.skip(1))) by {
            assert forall|i: int|
                0 <= i < text.len() - 1 && #[trigger] text.skip(1)[i] == '\\' implies i + 1
                < text.len() - 1 && text.skip(1)[i + 1] != '\\' && text.skip(1)[i + 1] != '\'' by {
                assert(text[i + 1] == '\\');
            }
        }
        lemma_fish_reads_escaped(text.skip(1));
        assert(seq![text[0]] + text.skip(1) =~= text);
        if text[0] == '\'' {
            assert(word =~= "'\\''"@ + rest);
            let closed = word.skip(1);
            assert(closed[0] == '\\' && closed[1] == '\'');
            let reopened = closed.skip(2);
            assert(reopened[0] == '\'');
            assert(reopened.skip(1) =~= rest);
            assert(fish_reads(reopened, false) == Some(text.skip(1)));
            assert(fish_reads(closed, false) == Some(text));
        } else {
            assert(word =~= seq![text[0]] + rest);
            assert(word.skip(1) =~= rest);
            if text[0] == '\\' {
                assert(text.skip(1)[0] == text[1]);
                assert(rest[0] == text[1]);
            }
        }
    }
}

/// The fish shell too reads the word that `shell_escape_for_ssh` writes as exactly the text it was
/// given, but for texts in which a backslash stands last, before a backslash or before a quote.
pub proof fn law_fish_reads_the_text_back(text: Seq<char>)
    requires
        plain_backslashes(text),
    ensures
        fish_reads(shell_word(text), false) == Some(text),
{
    reveal_strlit("'");
    lemma_fish_reads_escaped(text);
    assert(shell_word(text).skip(1) =~= quotes_escaped(text) + "'"@);
}

/// Of the characters of ASCII only letters, digits, hyphens and underscores stand in the name of a
/// session: no white space, no quotes, no separators.
pub proof fn law_session_name_is_plain(session: Seq<char>)
    requires
        valid_session(session),
    ensures
        forall|i: int|
            0 <= i < session.len() && (#[trigger] session[i] as u32) < 128 ==> ascii_alphanumeric(
                session[i],
            ) || session[i] == '-' || session[i] == '_',
{
    assert forall|i: int|
        0 <= i < session.len() && (#[trigger] session[i] as u32) < 128 implies ascii_alphanumeric(
        session[i],
    ) || session[i] == '-' || session[i] == '_' by {
        assert(session_char(session[i]));
    }
}

/// The commands that a prompt runs when they end like this in turn, and its result where it comes to
/// one. Pauses are passed over.
pub open spec fn prompt_run(
    backend: AgentBackendView,
    session: Seq<char>,
    step: AgentStepView<PromptKeys>,
    rans: Seq<RanView>,
) -> (Seq<CommandLineView>, Option<Result<(), Seq<char>>>)
    decreases
        rans.len(),
        if step is Pause {
            1int
        } else {
            0
        },
{
    match step {
        AgentStepView::Done(r) => (Seq::empty(), Some(r)),
        AgentStepView::Pause(_) => prompt_run(
            backend,
            session,
            prompt_after_pause(backend, session),
            rans,
        ),
        AgentStepView::Run(command, keys) => if rans.len() == 0 {
            (seq![command], None)
        } else {
            let (more, r) = prompt_run(
                backend,
                session,
                prompt_after_keys(backend, keys, rans[0]),
                rans.skip(1),
            );
            (seq![command] + more, r)
        },
    }
}

/// A prompt, from start to end: its text is typed and then submitted, once each and in this order. It
/// fails where one of the two fails, and what could not be typed is not submitted.
pub proof fn law_prompt_is_typed_then_submitted(
    backend: AgentBackendView,
    session: Seq<char>,
    prompt: Seq<char>,
    rans: Seq<RanView>,
)
    requires
        rans.len() >= 2,
    ensures
        prompt_run(backend, session, prompt_start(backend, session, prompt), rans)
            == match command_result(backend, rans[0]) {
            Ok(_) => (
                seq![
                    keys_command(backend, session, prompt),
                    keys_command(backend, session, "Enter"@),
                ],
                Some(without_value(command_result(backend, rans[1]))),
            ),
            Err(e) => (seq![keys_command(backend, session, prompt)], Some(Err::<(), Seq<char>>(e))),
        },
{
    reveal_with_fuel(prompt_run, 4);
    let (sent, r) = prompt_run(backend, session, prompt_start(backend, session, prompt), rans);
    let text = keys_command(backend, session, prompt);
    let enter = keys_command(backend, session, "Enter"@);
    match command_result(backend, rans[0]) {
        Ok(_) => {
            assert(sent =~= seq![text, enter]);
        },
        Err(_) => {
            assert(sent =~= seq![text]);
        },
    }
}

/// The commands that making sure of a session runs when they end like this in turn, and its result
/// where it comes to one.
pub open spec fn ensure_run(
    backend: AgentBackendView,
    session: Seq<char>,
    cmd: Option<Seq<char>>,
    step: AgentStepView<SessionWork>,
    rans: Seq<RanView>,
) -> (Seq<CommandLineView>, Option<Result<(), Seq<char>>>)
    decreases rans.len(),
{
    match step {
        AgentStepView::Done(r) => (Seq::empty(), Some(r)),
        AgentStepView::Pause(_) => (Seq::empty(), None),
        AgentStepView::Run(command, work) => if rans.len() == 0 {
            (seq![command], None)
        } else {
            let (more, r) = ensure_run(
                backend,
                session,
                cmd,
                ensure_next(backend, session, cmd, work, rans[0]),
                rans.skip(1),
            );
            (seq![command] + more, r)
        },
    }
}

/// Making sure of a session, from start to end: it is looked for, and where it is there nothing more
/// is run. A missing one is created on this machine, once; over SSH none is ever created.
pub proof fn law_session_is_made_sure_of(
    backend: AgentBackendView,
    session: Seq<char>,
    cmd: Option<Seq<char>>,
    rans: Seq<RanView>,
)
    requires
        rans.len() >= 2,
    ensures
        ({
            let check = check_command(backend, session);
            let (run, r) = ensure_run(
                backend,
                session,
                cmd,
                ensure_start(backend, session),
                rans,
            );
            if check_result(rans[0]) {
                run == seq![check] && r == Some(Ok::<(), Seq<char>>(()))
            } else if backend is Ssh {
                run == seq![check] && r == Some(
                    Err::<(), Seq<char>>(
                        "Cannot create tmux session via SSH. Create it manually."@,
                    ),
                )
            } else {
                run == seq![check, create_command(session, cmd)] && (r == Some(
                    Ok::<(), Seq<char>>(()),
                ) <==> check_result(rans[1]))
            }
        }),
{
    reveal_with_fuel(ensure_run, 4);
    let check = check_command(backend, session);
    let (run, r) = ensure_run(backend, session, cmd, ensure_start(backend, session), rans);
    if check_result(rans[0]) || backend is Ssh {
        assert(run =~= seq![check]);
    } else {
        assert(run =~= seq![check, create_command(session, cmd)]);
    }
}

/// What is typed is the text that was given, whole: on this machine the last argument of the command
/// is the text; over SSH it is one word that a POSIX shell reads back as exactly the text. The session
/// is named by the argument before it.
pub proof fn law_keys_are_typed_whole(
    backend: AgentBackendView,
    session: Seq<char>,
    keys: Seq<char>,
)
    ensures
        ({
            let args = keys_command(backend, session, keys).args;
            let n = args.len() as int;
            &&& n >= 4
            &&& args[n - 4] == "send-keys"@ && args[n - 3] == "-t"@ && args[n - 2] == session
            &&& backend is Local ==> args.last() == keys
            &&& backend is Ssh ==> shell_reads(args.last(), false) == Some(keys)
            &&& backend is Ssh && plain_backslashes(keys) ==> fish_reads(args.last(), false) == Some(
                keys,
            )
        }),
{
    law_shell_reads_the_text_back(keys);
    if plain_backslashes(keys) {
        law_fish_reads_the_text_back(keys);
    }
}

/// A prompt starts with its whole text being typed, and is submitted by the key `Enter`, a second
/// after it was typed. A failure ends it, with all that is known of the failure.
pub proof fn law_prompt_is_typed_whole(
    backend: AgentBackendView,
    session: Seq<char>,
    prompt: Seq<char>,
    ran: RanView,
)
    ensures
        command_result(backend, ran) is Ok ==> prompt_after_keys(backend, PromptKeys::Text, ran)
            == AgentStepView::<PromptKeys>::Pause(1) && prompt_after_keys(
            backend,
            PromptKeys::Enter,
            ran,
        ) == AgentStepView::<PromptKeys>::Done(Ok(())) && without_value(command_result(backend, ran))
            == Ok::<(), Seq<char>>(()),
        command_result(backend, ran) matches Err(e) ==> prompt_after_keys(
            backend,
            PromptKeys::Text,
            ran,
        ) == AgentStepView::<PromptKeys>::Done(Err(e)) && prompt_after_keys(
            backend,
            PromptKeys::Enter,
            ran,
        ) == AgentStepView::<PromptKeys>::Done(Err(e)) && without_value(command_result(backend, ran))
            == Err::<(), Seq<char>>(e),
        prompt_start(backend, session, prompt) matches AgentStepView::Run(command, keys) && keys
            == PromptKeys::Text && (backend is Local ==> command.args == seq![
            "send-keys"@,
            "-t"@,
            session,
            prompt,
        ]) && (backend is Ssh ==> shell_reads(command.args.last(), false) == Some(prompt)),
        prompt_after_pause(backend, session) matches AgentStepView::Run(command, keys) && keys
            == PromptKeys::Enter && (backend is Local ==> command.args == seq![
            "send-keys"@,
            "-t"@,
            session,
            "Enter"@,
        ]) && (backend is Ssh ==> shell_reads(command.args.last(), false) == Some("Enter"@)),
{
    law_keys_are_typed_whole(backend, session, prompt);
    law_keys_are_typed_whole(backend, session, "Enter"@);
}

/// Quoting goes character by character: a quote ends the quotes, stands escaped and opens them again,
/// any other character stands as it is.
pub proof fn law_quoting_goes_by_character(a: Seq<char>, b: Seq<char>, c: char)
    ensures
        quotes_escaped(a + b) == quotes_escaped(a) + quotes_escaped(b),
        quotes_escaped(seq!['\'']) == "'\\''"@,
        c != '\'' ==> quotes_escaped(seq![c]) == seq![c],
        shell_word(a) == "'"@ + quotes_escaped(a) + "'"@,
    decreases a.len(),
{
    assert(seq![c].skip(1) =~= Seq::<char>::empty());
    assert(seq!['\''].skip(1) =~= Seq::<char>::empty());
    assert(quotes_escaped(Seq::empty()) =~= Seq::<char>::empty());
    assert("'\\''"@ + Seq::<char>::empty() =~= "'\\''"@);
    assert(seq![c] + Seq::<char>::empty() =~= seq![c]);
    if a.len() == 0 {
        assert(a + b =~= b);
        assert(quotes_escaped(a) + quotes_escaped(b) =~= quotes_escaped(b));
    } else {
        law_quoting_goes_by_character(a.skip(1), b, c);
        assert((a + b).skip(1) =~= a.skip(1) + b);
        assert(quotes_escaped(a + b) =~= quotes_escaped(a) + quotes_escaped(b));
    }
}

/// tmux gets its arguments whole and in their order: on this machine they are all the arguments; over
/// SSH they come last, after the options, the jump host where there is one, the host and `tmux`.
pub proof fn law_tmux_gets_its_arguments(
    host: Seq<char>,
    jump: Seq<char>,
    opts: Seq<Seq<char>>,
    args: Seq<Seq<char>>,
)
    ensures
        tmux_command(AgentBackendView::Local, args) == (CommandLineView { program: "tmux"@, args }),
        tmux_command(AgentBackendView::Ssh { host, jump: None, opts }, args) == (CommandLineView {
            program: "ssh"@,
            args: opts + (seq![host, "tmux"@] + args),
        }),
        tmux_command(AgentBackendView::Ssh { host, jump: Some(jump), opts }, args) == (
        CommandLineView {
            program: "ssh"@,
            args: opts + (seq!["-J"@, jump, host, "tmux"@] + args),
        }),
{
    assert(tmux_command(AgentBackendView::Ssh { host, jump: None, opts }, args).args =~= opts + (
    seq![host, "tmux"@] + args));
    assert(tmux_command(AgentBackendView::Ssh { host, jump: Some(jump), opts }, args).args =~= opts
        + (seq!["-J"@, jump, host, "tmux"@] + args));
}

/// The commands that look at a session name it, whole, wherever they run.
pub proof fn law_sessions_are_named(
    backend: AgentBackendView,
    session: Seq<char>,
    cmd: Seq<char>,
)
    ensures
        capture_command(backend, session) == tmux_command(
            backend,
            seq!["capture-pane"@, "-t"@, session, "-p"@, "-S"@, "-200"@],
        ),
        capture_command(AgentBackendView::Local, session).args == seq![
            "capture-pane"@,
            "-t"@,
            session,
            "-p"@,
            "-S"@,
            "-200"@,
        ],
        check_command(backend, session) == tmux_command(
            backend,
            seq!["has-session"@, "-t"@, session],
        ),
        check_command(AgentBackendView::Local, session).args == seq![
            "has-session"@,
            "-t"@,
            session,
        ],
        create_command(session, None) == (CommandLineView {
            program: "tmux"@,
            args: seq!["new-session"@, "-d"@, "-s"@, session],
        }),
        create_command(session, Some(cmd)) == (CommandLineView {
            program: "tmux"@,
            args: seq!["new-session"@, "-d"@, "-s"@, session, cmd],
        }),
{
    assert(create_command(session, Some(cmd)).args =~= seq![
        "new-session"@,
        "-d"@,
        "-s"@,
        session,
        cmd,
    ]);
}

/// A command that succeeded gives all that it printed; one that failed gives all that it complained,
/// and one that did not start the reason, each behind the name of the program. What is UTF-8 is read
/// as the text that it encodes.
pub proof fn law_results_are_told_whole(
    backend: AgentBackendView,
    stdout: Seq<u8>,
    stderr: Seq<u8>,
    reason: Seq<char>,
)
    ensures
        valid_utf8(stdout) ==> output_text(stdout) == decode_utf8(stdout),
        !valid_utf8(stdout) ==> output_text(stdout) == utf8_lossy(stdout),
        command_result(backend, RanView::Ended { success: true, stdout, stderr }) == Ok::<
            Seq<char>,
            Seq<char>,
        >(output_text(stdout)),
        command_result(AgentBackendView::Local, RanView::Ended { success: false, stdout, stderr })
            == Err::<Seq<char>, Seq<char>>("tmux error: "@ + output_text(stderr)),
        backend is Ssh ==> command_result(
            backend,
            RanView::Ended { success: false, stdout, stderr },
        ) == Err::<Seq<char>, Seq<char>>("ssh error: "@ + output_text(stderr)),
        command_result(AgentBackendView::Local, RanView::NotStarted(reason)) == Err::<
            Seq<char>,
            Seq<char>,
        >("tmux spawn: "@ + reason),
        backend is Ssh ==> command_result(backend, RanView::NotStarted(reason)) == Err::<
            Seq<char>,
            Seq<char>,
        >("ssh spawn: "@ + reason),
        check_result(RanView::Ended { success: true, stdout, stderr }),
        !check_result(RanView::Ended { success: false, stdout, stderr }),
        !check_result(RanView::NotStarted(reason)),
{
    reveal_strlit("tmux");
    reveal_strlit("ssh");
    reveal_strlit(" error: ");
    reveal_strlit(" spawn: ");
    reveal_strlit("tmux error: ");
    reveal_strlit("ssh error: ");
    reveal_strlit("tmux spawn: ");
    reveal_strlit("ssh spawn: ");
    assert("tmux"@ + " error: "@ =~= "tmux error: "@);
    assert("ssh"@ + " error: "@ =~= "ssh error: "@);
    assert("tmux"@ + " spawn: "@ =~= "tmux spawn: "@);
    assert("ssh"@ + " spawn: "@ =~= "ssh spawn: "@);
}

/// What becomes of a session that is created: done where the command succeeded; otherwise all that it
/// complained, or the reason why it did not start.
pub proof fn law_creation_is_told_whole(
    backend: AgentBackendView,
    session: Seq<char>,
    cmd: Option<Seq<char>>,
    stdout: Seq<u8>,
    stderr: Seq<u8>,
    reason: Seq<char>,
)
    ensures
        ensure_next(
            backend,
            session,
            cmd,
            SessionWork::Create,
            RanView::Ended { success: true, stdout, stderr },
        ) == AgentStepView::<SessionWork>::Done(Ok(())),
        ensure_next(
            backend,
            session,
            cmd,
            SessionWork::Create,
            RanView::Ended { success: false, stdout, stderr },
        ) == AgentStepView::<SessionWork>::Done(
            Err("tmux new-session failed: "@ + output_text(stderr)),
        ),
        ensure_next(backend, session, cmd, SessionWork::Create, RanView::NotStarted(reason))
            == AgentStepView::<SessionWork>::Done(Err(reason)),
{
}

/// The backend is SSH exactly where the variable says `ssh`; host, jump host and options are then as
/// they are set, the host and the options with defaults.
pub proof fn law_backend_is_as_set(
    backend: Option<Seq<char>>,
    host: Option<Seq<char>>,
    jump: Option<Seq<char>>,
    opts: Option<Seq<char>>,
)
    ensures
        backend_from(backend, host, jump, opts) is Ssh <==> backend == Some("ssh"@),
        backend_from(backend, host, jump, opts) matches AgentBackendView::Ssh {
            host: h,
            jump: j,
            opts: o,
        } ==> {
            &&& j == jump
            &&& host is None ==> h == "studio-nps"@
            &&& host matches Some(given) ==> h == given
            &&& opts matches Some(list) ==> o == ssh_options(list)
            &&& opts is None ==> o == ssh_options("StrictHostKeyChecking=no,ConnectTimeout=5"@)
        },
{
}

/// Options go one by one: each entry of the list, without white space at its ends, is one option, and
/// a comma parts the options before it from those after it.
pub proof fn law_options_go_one_by_one(a: Seq<char>, b: Seq<char>)
    ensures
        ssh_options(a + seq![','] + b) == ssh_options(a) + ssh_options(b),
        !a.contains(',') ==> ssh_options(a) == seq!["-o="@ + trimmed(a)],
{
    crate::text::law_split(a, b, ',');
    assert(ssh_options(a + seq![','] + b) =~= ssh_options(a) + ssh_options(b));
    if !a.contains(',') {
        assert(ssh_options(a) =~= seq!["-o="@ + trimmed(a)]);
    }
}

/// A session's name is valid where it is not empty and each of its characters is: a letter or digit of
/// any script, a hyphen or an underscore.
pub proof fn law_session_names_are_checked_by_character(a: Seq<char>, b: Seq<char>, c: char)
    ensures
        !valid_session(Seq::empty()),
        a.len() > 0 && b.len() > 0 ==> (valid_session(a + b) <==> valid_session(a)
            && valid_session(b)),
        (c as u32) < 128 ==> (valid_session(seq![c]) <==> '0' <= c <= '9' || 'A' <= c <= 'Z' || 'a'
            <= c <= 'z' || c == '-' || c == '_'),
        (c as u32) >= 128 ==> (valid_session(seq![c]) <==> crate::text::unicode_alphanumeric(c)),
{
    let ab = a + b;
    if valid_session(ab) {
        assert forall|i: int| 0 <= i < a.len() implies session_char(#[trigger] a[i]) by {
            assert(ab[i] == a[i]);
        }
        assert forall|i: int| 0 <= i < b.len() implies session_char(#[trigger] b[i]) by {
            assert(ab[i + a.len()] == b[i]);
        }
    }
    if valid_session(a) && valid_session(b) {
        assert forall|i: int| 0 <= i < ab.len() implies session_char(#[trigger] ab[i]) by {
            if i < a.len() {
                assert(ab[i] == a[i]);
            } else {
                assert(ab[i] == b[i - a.len()]);
            }
        }
    }
    if valid_session(seq![c]) {
        assert(session_char(seq![c][0]));
    }
}

/// What is said of a backend, a command, its end and a step is what they hold.
pub proof fn law_agents_say_what_they_hold(
    backend: AgentBackend,
    command: CommandLine,
    ran: Ran,
    keys: PromptKeys,
    seconds: u64,
    e: AgentError,
    i: int,
)
    ensures
        backend is Local <==> backend@ is Local,
        backend matches AgentBackend::Ssh { host, jump, opts } ==> (
        backend@ matches AgentBackendView::Ssh { host: h, jump: j, opts: o } && h == host@ && (
        jump is None <==> j is None) && (jump matches Some(given) ==> j == Some(given@)) && o.len()
            == opts@.len() && (0 <= i < opts@.len() ==> o[i] == opts@[i]@)),
        command@.program == command.program@ && command@.args.len() == command.args@.len(),
        0 <= i < command.args@.len() ==> command@.args[i] == command.args@[i]@,
        ran matches Ran::NotStarted(reason) ==> ran@ == RanView::NotStarted(reason@),
        ran matches Ran::Ended { success, stdout, stderr } ==> ran@ == (RanView::Ended {
            success,
            stdout: stdout@,
            stderr: stderr@,
        }),
        AgentStep::Run(command, keys).view() == AgentStepView::Run(command@, keys),
        AgentStep::<PromptKeys>::Pause(seconds).view() == AgentStepView::<PromptKeys>::Pause(
            seconds,
        ),
        AgentStep::<PromptKeys>::Done(Ok(())).view() == AgentStepView::<PromptKeys>::Done(Ok(())),
        AgentStep::<PromptKeys>::Done(Err(e)).view() == AgentStepView::<PromptKeys>::Done(
            Err(e.0@),
        ),
        done_or_failed(Err(e)) == Err::<(), Seq<char>>(e.0@),
        done_or_failed(Ok(())) == Ok::<(), Seq<char>>(()),
{
}

/// A text that a program prints is read back as exactly that text.
pub proof fn law_printed_text_is_read_back(text: Seq<char>)
    ensures
        output_text(vstd::utf8::encode_utf8(text)) == text,
{
    vstd::utf8::encode_utf8_valid_utf8(text);
    vstd::utf8::encode_utf8_decode_utf8(text);
}

} // verus!
