//! The command that a session's pseudo-terminal runs.
//!
//! A session runs a login shell. Where a command is given, the shell runs it and
//! then replaces itself with an interactive shell, so that the terminal stays
//! usable when the command has ended. The command is built on
//! `portable_pty::CommandBuilder`; its argument vector, the variables set on it
//! and its directory are what the contracts here speak of.

use crate::error::PtyStep;
use crate::text::{optional_text, pair_texts, replace_all, replaced, texts};
use portable_pty::CommandBuilder;
use vstd::prelude::*;
use vstd::string::*;

verus! {

/// `portable_pty::CommandBuilder`, a command that is prepared to be started on a
/// pseudo-terminal. The library sees nothing inside it.
#[verifier::external_type_specification]
#[verifier::external_body]
pub struct ExCommandBuilder(CommandBuilder);

/// An environment without a variable.
pub open spec fn no_variables() -> Map<Seq<char>, Seq<char>> {
    Map::empty()
}

/// The argument vector of a command, the program first.
pub uninterp spec fn command_argv(cmd: CommandBuilder) -> Seq<Seq<char>>;

/// The environment variables that were set on a command by its builder's caller.
pub uninterp spec fn command_env(cmd: CommandBuilder) -> Map<Seq<char>, Seq<char>>;

/// The directory that a command starts in, where one was set.
pub uninterp spec fn command_cwd(cmd: CommandBuilder) -> Option<Seq<char>>;

/// `CommandBuilder::new` makes a command whose argument vector holds the program
/// alone, with no directory and no variable set by the caller.
#[verifier::external_body]
fn command_new(program: &str) -> (cmd: CommandBuilder)
    ensures
        command_argv(cmd) == seq![program@],
        command_env(cmd) == no_variables(),
        command_cwd(cmd) == None::<Seq<char>>,
{
    CommandBuilder::new(program)
}

/// `CommandBuilder::arg` appends one argument; it panics on a builder without a
/// program, which `requires` leaves out.
#[verifier::external_body]
fn command_arg(cmd: &mut CommandBuilder, arg: &str)
    requires
        command_argv(*old(cmd)).len() > 0,
    ensures
        command_argv(*final(cmd)) == command_argv(*old(cmd)).push(arg@),
        command_env(*final(cmd)) == command_env(*old(cmd)),
        command_cwd(*final(cmd)) == command_cwd(*old(cmd)),
{
    cmd.arg(arg)
}

/// `CommandBuilder::env` sets one variable, replacing a value set before. The
/// builder keeps its variables under their names as given, which is what this
/// states. That is so on every system but Windows, where the builder folds the
/// case of a name; the shells that this library starts are not found there.
#[verifier::external_body]
fn command_set_env(cmd: &mut CommandBuilder, key: &str, value: &str)
    ensures
        command_env(*final(cmd)) == command_env(*old(cmd)).insert(key@, value@),
        command_argv(*final(cmd)) == command_argv(*old(cmd)),
        command_cwd(*final(cmd)) == command_cwd(*old(cmd)),
{
    cmd.env(key, value)
}

/// `CommandBuilder::cwd` sets the directory that the command starts in.
#[verifier::external_body]
fn command_set_cwd(cmd: &mut CommandBuilder, dir: &str)
    ensures
        command_cwd(*final(cmd)) == Some(dir@),
        command_argv(*final(cmd)) == command_argv(*old(cmd)),
        command_env(*final(cmd)) == command_env(*old(cmd)),
{
    cmd.cwd(dir)
}

/// The shell that runs: the one given, `/bin/zsh` where none is.
pub open spec fn shell_or_default(shell: Option<Seq<char>>) -> Seq<char> {
    match shell {
        Some(s) => s,
        None => "/bin/zsh"@,
    }
}

/// Whether a command is given: one that is absent or empty is not.
pub open spec fn runs_command(command: Option<Seq<char>>) -> bool {
    command matches Some(c) && c.len() > 0
}

/// The step that starts a session's process: the start of a command where one is
/// given, the start of a plain shell where none is.
pub open spec fn spawn_step_of(command: Option<Seq<char>>) -> PtyStep {
    if runs_command(command) {
        PtyStep::SpawnCommand
    } else {
        PtyStep::SpawnShell
    }
}

/// `dir` between single quotes, each single quote in it written as `'\''`, so
/// that a shell reads the whole as one word that is `dir`.
pub open spec fn quoted(dir: Seq<char>) -> Seq<char> {
    "'"@ + replaced(dir, "'"@, "'\\''"@) + "'"@
}

/// The word that a shell reads from `text`, where `text` is made of parts in
/// single quotes and of characters behind a backslash; `in_quotes` tells whether
/// `text` starts inside single quotes. Text of any other make, or a quote that
/// is not closed, is read as no word.
pub open spec fn shell_word(text: Seq<char>, in_quotes: bool) -> Option<Seq<char>>
    decreases text.len(),
{
    if text.len() == 0 {
        if in_quotes {
            None
        } else {
            Some(Seq::empty())
        }
    } else if text[0] == '\'' {
        shell_word(text.drop_first(), !in_quotes)
    } else if in_quotes {
        match shell_word(text.drop_first(), true) {
            Some(rest) => Some(seq![text[0]] + rest),
            None => None,
        }
    } else if text[0] == '\\' && text.len() >= 2 {
        match shell_word(text.subrange(2, text.len() as int), false) {
            Some(rest) => Some(seq![text[1]] + rest),
            None => None,
        }
    } else {
        None
    }
}

/// A shell that reads on inside single quotes, from the escaped form of `dir`
/// followed by the closing quote, reads `dir`.
proof fn lemma_escaped_is_read_back(dir: Seq<char>)
    ensures
        shell_word(replaced(dir, "'"@, "'\\''"@) + "'"@, true) == Some(dir),
    decreases dir.len(),
{
    reveal_strlit("'");
    reveal_strlit("'\\''");
    let quote = "'"@;
    let escape = "'\\''"@;
    assert(quote.len() == 1 && quote[0] == '\'');
    assert(escape.len() == 4 && escape[0] == '\'' && escape[1] == '\\' && escape[2] == '\''
        && escape[3] == '\'');
    let text = replaced(dir, quote, escape) + quote;
    if dir.len() == 0 {
        assert(text.drop_first() =~= Seq::<char>::empty());
        assert(shell_word(text.drop_first(), false) == Some(Seq::<char>::empty()));
    } else {
        let rest = dir.subrange(1, dir.len() as int);
        assert(rest =~= dir.drop_first());
        lemma_escaped_is_read_back(rest);
        let tail = replaced(rest, quote, escape) + quote;
        if dir[0] == '\'' {
            assert(dir.subrange(0, 1) =~= quote);
            assert(text =~= escape + tail);
            let closed = text.drop_first();
            assert(closed[0] == '\\' && closed[1] == '\'');
            let reopened = closed.subrange(2, closed.len() as int);
            assert(reopened[0] == '\'');
            assert(reopened.drop_first() =~= tail);
            assert(shell_word(reopened, false) == Some(rest));
            assert(shell_word(closed, false) == Some(seq!['\''] + rest));
            assert(seq!['\''] + rest =~= dir);
        } else {
            assert(dir.subrange(0, 1)[0] == dir[0]);
            assert(dir.subrange(0, 1) != quote);
            assert(text =~= seq![dir[0]] + tail);
            assert(text.drop_first() =~= tail);
            assert(seq![dir[0]] + rest =~= dir);
        }
    }
}

/// A shell reads the quoted form of a directory as one word, and the word is
/// the directory: no character of a directory's name is taken for more than
/// itself.
pub proof fn lemma_quoted_is_read_back(dir: Seq<char>)
    ensures
        shell_word(quoted(dir), false) == Some(dir),
{
    reveal_strlit("'");
    lemma_escaped_is_read_back(dir);
    let inner = replaced(dir, "'"@, "'\\''"@) + "'"@;
    assert(quoted(dir) =~= "'"@ + inner);
    assert(quoted(dir).drop_first() =~= inner);
}

/// What the shell is told to run for `command`: a change to the working
/// directory where one is given, the command, and then an interactive shell in
/// place of this one.
pub open spec fn command_line(working_dir: Option<Seq<char>>, command: Seq<char>) -> Seq<char> {
    let change_dir = match working_dir {
        Some(dir) => "cd "@ + quoted(dir) + " && "@,
        None => Seq::<char>::empty(),
    };
    change_dir + command + "; exec \"$SHELL\""@
}

/// The argument vector of a session's process.
pub open spec fn spawn_argv(
    shell: Option<Seq<char>>,
    working_dir: Option<Seq<char>>,
    command: Option<Seq<char>>,
) -> Seq<Seq<char>> {
    if runs_command(command) {
        seq![shell_or_default(shell), "-l"@, "-c"@, command_line(working_dir, command->Some_0)]
    } else {
        seq![shell_or_default(shell), "-l"@]
    }
}

/// The directory that a session's process starts in. A plain shell starts in the
/// working directory; a command changes to it by itself.
pub open spec fn spawn_cwd(working_dir: Option<Seq<char>>, command: Option<Seq<char>>) -> Option<
    Seq<char>,
> {
    if runs_command(command) {
        None
    } else {
        working_dir
    }
}

/// The variables that every session starts with.
pub open spec fn baseline_env() -> Map<Seq<char>, Seq<char>> {
    no_variables().insert("TERM"@, "xterm-256color"@).insert("COLORTERM"@, "truecolor"@).insert(
        "LANG"@,
        "en_US.UTF-8"@,
    )
}

/// `env` with each pair of `pairs` set on it, in their order.
pub open spec fn with_pairs(
    env: Map<Seq<char>, Seq<char>>,
    pairs: Seq<(Seq<char>, Seq<char>)>,
) -> Map<Seq<char>, Seq<char>>
    decreases pairs.len(),
{
    if pairs.len() == 0 {
        env
    } else {
        with_pairs(env, pairs.drop_last()).insert(pairs.last().0, pairs.last().1)
    }
}

/// The variables set on a session's process: the baseline, then the caller's
/// pairs, so that a caller's pair replaces a baseline variable of the same name.
pub open spec fn spawn_env(pairs: Seq<(Seq<char>, Seq<char>)>) -> Map<Seq<char>, Seq<char>> {
    with_pairs(baseline_env(), pairs)
}

/// A pair that no later pair names again decides the value of its variable.
pub proof fn lemma_last_pair_wins(
    env: Map<Seq<char>, Seq<char>>,
    pairs: Seq<(Seq<char>, Seq<char>)>,
    i: int,
)
    requires
        0 <= i < pairs.len(),
        forall|j: int| i < j < pairs.len() ==> pairs[j].0 != pairs[i].0,
    ensures
        with_pairs(env, pairs).contains_key(pairs[i].0),
        with_pairs(env, pairs)[pairs[i].0] == pairs[i].1,
    decreases pairs.len(),
{
    if i < pairs.len() - 1 {
        lemma_last_pair_wins(env, pairs.drop_last(), i);
    }
}

/// A variable that no pair names is as it was.
pub proof fn lemma_unnamed_variable_kept(
    env: Map<Seq<char>, Seq<char>>,
    pairs: Seq<(Seq<char>, Seq<char>)>,
    name: Seq<char>,
)
    requires
        forall|j: int| 0 <= j < pairs.len() ==> pairs[j].0 != name,
    ensures
        with_pairs(env, pairs).contains_key(name) == env.contains_key(name),
        env.contains_key(name) ==> with_pairs(env, pairs)[name] == env[name],
    decreases pairs.len(),
{
    if pairs.len() > 0 {
        lemma_unnamed_variable_kept(env, pairs.drop_last(), name);
    }
}

/// The step that starts a session's process, which a failure to start it is
/// reported with.
pub fn spawn_step(command: &Option<String>) -> (step: PtyStep)
    ensures
        step == spawn_step_of(optional_text(*command)),
{
    match command {
        Some(line) => {
            if line.as_str().is_empty() {
                PtyStep::SpawnShell
            } else {
                PtyStep::SpawnCommand
            }
        },
        None => PtyStep::SpawnShell,
    }
}

/// The words that make a shell run `command`, in `working_dir` where one is
/// given, and then become an interactive shell.
pub fn shell_command_line(working_dir: &Option<String>, command: &str) -> (line: String)
    ensures
        line@ == command_line(optional_text(*working_dir), command@),
{
    let mut line = String::new();
    match working_dir {
        Some(dir) => {
            proof {
                reveal_strlit("'");
            }
            let escaped = replace_all(dir.as_str(), "'", "'\\''");
            line.append("cd ");
            line.append("'");
            line.append(escaped.as_str());
            line.append("'");
            line.append(" && ");
            assert(line@ =~= "cd "@ + quoted(dir@) + " && "@);
        },
        None => {},
    }
    line.append(command);
    line.append("; exec \"$SHELL\"");
    assert(line@ =~= command_line(optional_text(*working_dir), command@));
    line
}

/// What a session's process is started with, in plain values: its argument
/// vector, the variables to set in their order, and its directory.
#[derive(Debug, Clone, PartialEq, Eq)]
pub struct SpawnPlan {
    /// The program, then its arguments.
    pub argv: Vec<String>,
    /// The variables to set, a later pair replacing an earlier one of its name.
    pub env: Vec<(String, String)>,
    /// The directory to start in, where the process does not change to one by
    /// itself.
    pub cwd: Option<String>,
}

/// The variables that every session starts with, in the order in which they
/// are set.
pub open spec fn baseline_pairs() -> Seq<(Seq<char>, Seq<char>)> {
    seq![
        ("TERM"@, "xterm-256color"@),
        ("COLORTERM"@, "truecolor"@),
        ("LANG"@, "en_US.UTF-8"@),
    ]
}

/// Setting the pairs of two sequences one after the other is setting the pairs
/// of the first and then those of the second.
pub proof fn lemma_with_pairs_concat(
    env: Map<Seq<char>, Seq<char>>,
    first: Seq<(Seq<char>, Seq<char>)>,
    second: Seq<(Seq<char>, Seq<char>)>,
)
    ensures
        with_pairs(env, first + second) == with_pairs(with_pairs(env, first), second),
    decreases second.len(),
{
    if second.len() == 0 {
        assert(first + second =~= first);
    } else {
        assert((first + second).drop_last() =~= first + second.drop_last());
        lemma_with_pairs_concat(env, first, second.drop_last());
    }
}

/// The baseline pairs, set on an environment without a variable, make the
/// baseline environment.
pub proof fn lemma_baseline_pairs()
    ensures
        with_pairs(no_variables(), baseline_pairs()) == baseline_env(),
{
    let all = baseline_pairs();
    let two = all.drop_last();
    let one = two.drop_last();
    assert(one.drop_last() =~= Seq::<(Seq<char>, Seq<char>)>::empty());
    assert(with_pairs(no_variables(), one.drop_last()) == no_variables());
    assert(with_pairs(no_variables(), one) == no_variables().insert(
        "TERM"@,
        "xterm-256color"@,
    ));
    assert(with_pairs(no_variables(), two) == with_pairs(no_variables(), one).insert(
        "COLORTERM"@,
        "truecolor"@,
    ));
}

/// What a session's process is started with.
///
/// `shell` is the user's shell, `/bin/zsh` standing in where none is known. With
/// a command that is not empty the shell is started as a login shell that runs
/// one line: a change to the working directory, the command, and `exec "$SHELL"`.
/// Without one a plain login shell is started in the working directory. The
/// baseline variables of a terminal come first and the caller's pairs after
/// them.
pub fn spawn_plan(
    shell: Option<String>,
    working_dir: Option<String>,
    command: Option<String>,
    env_vars: Vec<(String, String)>,
) -> (plan: SpawnPlan)
    ensures
        texts(plan.argv@) == spawn_argv(
            optional_text(shell),
            optional_text(working_dir),
            optional_text(command),
        ),
        pair_texts(plan.env@) == baseline_pairs() + pair_texts(env_vars@),
        optional_text(plan.cwd) == spawn_cwd(optional_text(working_dir), optional_text(command)),
{
    let shell_path = match shell {
        Some(path) => path,
        None => String::from_str("/bin/zsh"),
    };
    let mut argv: Vec<String> = Vec::new();
    argv.push(shell_path);
    argv.push(String::from_str("-l"));
    let run = match &command {
        Some(line) => !line.as_str().is_empty(),
        None => false,
    };
    let cwd = if run {
        let line = match &command {
            Some(line) => shell_command_line(&working_dir, line.as_str()),
            None => String::new(),
        };
        argv.push(String::from_str("-c"));
        argv.push(line);
        None
    } else {
        working_dir
    };
    assert(texts(argv@) =~= spawn_argv(
        optional_text(shell),
        optional_text(working_dir),
        optional_text(command),
    ));
    let mut env: Vec<(String, String)> = Vec::new();
    env.push((String::from_str("TERM"), String::from_str("xterm-256color")));
    env.push((String::from_str("COLORTERM"), String::from_str("truecolor")));
    env.push((String::from_str("LANG"), String::from_str("en_US.UTF-8")));
    assert(pair_texts(env@) =~= baseline_pairs());
    let mut rest = env_vars;
    env.append(&mut rest);
    assert(pair_texts(env@) =~= baseline_pairs() + pair_texts(env_vars@));
    SpawnPlan { argv, env, cwd }
}

/// The command that starts a process as planned.
fn build_command(plan: &SpawnPlan) -> (cmd: CommandBuilder)
    requires
        plan.argv@.len() > 0,
    ensures
        command_argv(cmd) == texts(plan.argv@),
        command_env(cmd) == with_pairs(no_variables(), pair_texts(plan.env@)),
        command_cwd(cmd) == optional_text(plan.cwd),
{
    let mut cmd = command_new(plan.argv[0].as_str());
    let ghost argv = texts(plan.argv@);
    assert(command_argv(cmd) =~= argv.take(1));
    let mut i: usize = 1;
    while i < plan.argv.len()
        invariant
            1 <= i <= plan.argv@.len(),
            argv == texts(plan.argv@),
            command_argv(cmd) == argv.take(i as int),
            command_env(cmd) == no_variables(),
            command_cwd(cmd) == None::<Seq<char>>,
        decreases plan.argv@.len() - i,
    {
        command_arg(&mut cmd, plan.argv[i].as_str());
        assert(argv.take(i + 1) =~= argv.take(i as int).push(plan.argv@[i as int]@));
        i += 1;
    }
    assert(argv.take(i as int) =~= argv);
    let ghost pairs = pair_texts(plan.env@);
    let mut j: usize = 0;
    while j < plan.env.len()
        invariant
            j <= plan.env@.len(),
            pairs == pair_texts(plan.env@),
            command_env(cmd) == with_pairs(no_variables(), pairs.take(j as int)),
            command_argv(cmd) == texts(plan.argv@),
            command_cwd(cmd) == None::<Seq<char>>,
        decreases plan.env@.len() - j,
    {
        command_set_env(&mut cmd, plan.env[j].0.as_str(), plan.env[j].1.as_str());
        proof {
            assert(pairs.take(j + 1).drop_last() =~= pairs.take(j as int));
            assert(pairs.take(j + 1).last() == pairs[j as int]);
        }
        j += 1;
    }
    assert(pairs.take(j as int) =~= pairs);
    match &plan.cwd {
        Some(dir) => {
            command_set_cwd(&mut cmd, dir.as_str());
        },
        None => {},
    }
    cmd
}

/// The command of a session's process: the command that starts a process as
/// `spawn_plan` plans it.
pub fn spawn_command(
    shell: Option<String>,
    working_dir: Option<String>,
    command: Option<String>,
    env_vars: Vec<(String, String)>,
) -> (cmd: CommandBuilder)
    ensures
        command_argv(cmd) == spawn_argv(
            optional_text(shell),
            optional_text(working_dir),
            optional_text(command),
        ),
        command_cwd(cmd) == spawn_cwd(optional_text(working_dir), optional_text(command)),
        command_env(cmd) == spawn_env(pair_texts(env_vars@)),
{
    let plan = spawn_plan(shell, working_dir, command, env_vars);
    proof {
        lemma_with_pairs_concat(no_variables(), baseline_pairs(), pair_texts(env_vars@));
        lemma_baseline_pairs();
        assert(texts(plan.argv@).len() == plan.argv@.len());
    }
    build_command(&plan)
}

} // verus!
