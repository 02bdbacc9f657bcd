//! What a command is, how it is written down for a shell, and everything
//! about running one that can be decided without running it.

use vstd::prelude::*;
use vstd::string::*;

use crate::models::clone_strings;
use crate::models::TerminalEmulator;
use crate::paths::join_path;
use crate::paths::joined_path;
use crate::text::chars_of;
use crate::text::decimal;
use crate::text::join;
use crate::text::joined;
use crate::text::parse_i32;
use crate::text::parsed_i32;
use crate::text::push_decimal;
use crate::text::push_signed_decimal;
use crate::text::signed_decimal;
use crate::text::texts;
use crate::text::trim_bounds;
use crate::text::trimmed;

verus! {

/// One process to start: the program, its arguments, and the environment
/// variables set for it.
#[derive(Debug, PartialEq, Eq)]
pub struct CommandSpec {
    pub program: String,
    pub args: Vec<String>,
    pub env: Vec<(String, String)>,
}

/// What a [`CommandSpec`] holds, as plain values.
pub struct CommandModel {
    pub program: Seq<char>,
    pub args: Seq<Seq<char>>,
    pub env: Seq<(Seq<char>, Seq<char>)>,
}

/// The names and values that a list of environment overrides holds.
pub open spec fn env_texts(env: Seq<(String, String)>) -> Seq<(Seq<char>, Seq<char>)> {
    Seq::new(env.len(), |i: int| (env[i].0@, env[i].1@))
}

/// The environment every command runs in: messages in the neutral locale.
pub open spec fn forced_env() -> Seq<(Seq<char>, Seq<char>)> {
    seq![("LC_ALL"@, "C"@)]
}

impl View for CommandSpec {
    type V = CommandModel;

    open spec fn view(&self) -> CommandModel {
        CommandModel {
            program: self.program@,
            args: texts(self.args@),
            env: env_texts(self.env@),
        }
    }
}

impl Clone for CommandSpec {
    fn clone(&self) -> (r: Self)
        ensures
            r@ == self@,
    {
        let mut env: Vec<(String, String)> = Vec::new();
        let mut i: usize = 0;
        while i < self.env.len()
            invariant
                i <= self.env.len(),
                env@.len() == i,
                forall|k: int|
                    0 <= k < i ==> env@[k].0@ == self.env@[k].0@ && env@[k].1@ == self.env@[k].1@,
            decreases self.env.len() - i,
        {
            env.push((self.env[i].0.clone(), self.env[i].1.clone()));
            i += 1;
        }
        assert(env_texts(env@) =~= env_texts(self.env@));
        CommandSpec { program: self.program.clone(), args: clone_strings(&self.args), env }
    }
}

/// What stands for `c` between single quotes: a single quote closes the
/// quoted text, stands double-quoted, and opens it again.
pub open spec fn quoted_char(c: char) -> Seq<char> {
    if c == '\'' {
        seq!['\'', '"', '\'', '"', '\'']
    } else {
        seq![c]
    }
}

/// `s` with each character replaced by what stands for it between single
/// quotes.
pub open spec fn escaped(s: Seq<char>) -> Seq<char>
    decreases s.len(),
{
    if s.len() == 0 {
        Seq::empty()
    } else {
        escaped(s.drop_last()) + quoted_char(s.last())
    }
}

/// `s` as one word of a shell command: between single quotes, escaped.
pub open spec fn shell_quoted(s: Seq<char>) -> Seq<char> {
    seq!['\''] + escaped(s) + seq!['\'']
}

/// `input` as one word of a shell command.
pub fn shell_quote(input: &str) -> (r: String)
    ensures
        r@ == shell_quoted(input@),
{
    let chars = chars_of(input);
    let mut out = String::from_str("'");
    proof {
        reveal_strlit("'");
        reveal_strlit("'\"'\"'");
        assert(out@ =~= seq!['\''] + escaped(input@.take(0)));
    }
    let mut start: usize = 0;
    let mut i: usize = 0;
    while i < chars.len()
        invariant
            chars@ == input@,
            start <= i <= chars.len(),
            out@ + input@.subrange(start as int, i as int) == seq!['\''] + escaped(
                input@.take(i as int),
            ),
        decreases chars.len() - i,
    {
        proof {
            assert(input@.take(i + 1).drop_last() =~= input@.take(i as int));
            assert(input@.take(i + 1).last() == input@[i as int]);
        }
        if chars[i] == '\'' {
            let ghost before = out@;
            let ghost from = start;
            out.append(input.substring_char(start, i));
            out.append("'\"'\"'");
            start = i + 1;
            proof {
                reveal_strlit("'\"'\"'");
                assert("'\"'\"'"@ =~= quoted_char('\''));
                assert(out@ + input@.subrange(start as int, i + 1) =~= (before + input@.subrange(
                    from as int,
                    i as int,
                )) + quoted_char('\''));
            }
        } else {
            assert(out@ + input@.subrange(start as int, i + 1) =~= (out@ + input@.subrange(
                start as int,
                i as int,
            )) + seq![input@[i as int]]);
        }
        i += 1;
    }
    let ghost before = out@;
    out.append(input.substring_char(start, i));
    out.append("'");
    proof {
        assert(input@.take(i as int) =~= input@);
        assert(out@ =~= (before + input@.subrange(start as int, i as int)) + seq!['\'']);
    }
    out
}


/// Where a shell stands while it reads a word.
#[derive(Debug, Clone, Copy, PartialEq, Eq, Structural)]
pub enum Quoting {
    /// Outside any quotes.
    Bare,
    /// Between single quotes, where every character stands for itself.
    Single,
    /// Between double quotes.
    Double,
}

/// What a shell reads from `text` as one word, when it is in the state
/// `quoting`: the characters between quotes, with the quotes gone. `None`
/// for a text that holds anything outside quotes, anything that a shell
/// would expand between double quotes, or a quote that is never closed.
pub open spec fn shell_reads(text: Seq<char>, quoting: Quoting) -> Option<Seq<char>>
    decreases text.len(),
{
    if text.len() == 0 {
        if quoting == Quoting::Bare {
            Some(Seq::empty())
        } else {
            None
        }
    } else {
        let rest = text.drop_first();
        match quoting {
            Quoting::Bare => if text[0] == '\'' {
                shell_reads(rest, Quoting::Single)
            } else if text[0] == '"' {
                shell_reads(rest, Quoting::Double)
            } else {
                None
            },
            Quoting::Single => if text[0] == '\'' {
                shell_reads(rest, Quoting::Bare)
            } else {
                match shell_reads(rest, Quoting::Single) {
                    Some(word) => Some(seq![text[0]] + word),
                    None => None,
                }
            },
            Quoting::Double => if text[0] == '"' {
                shell_reads(rest, Quoting::Bare)
            } else if text[0] == '\\' || text[0] == '$' || text[0] == '`' {
                None
            } else {
                match shell_reads(rest, Quoting::Double) {
                    Some(word) => Some(seq![text[0]] + word),
                    None => None,
                }
            },
        }
    }
}

proof fn lemma_escaped_first(s: Seq<char>)
    requires
        s.len() > 0,
    ensures
        escaped(s) == quoted_char(s[0]) + escaped(s.drop_first()),
    decreases s.len(),
{
    if s.len() == 1 {
        assert(s.drop_last() =~= Seq::<char>::empty());
        assert(s.drop_first() =~= Seq::<char>::empty());
        assert(escaped(s) =~= quoted_char(s[0]) + escaped(s.drop_first()));
    } else {
        lemma_escaped_first(s.drop_last());
        assert(s.drop_last().drop_first() =~= s.drop_first().drop_last());
        assert(s.drop_last()[0] == s[0]);
        assert(s.drop_first().last() == s.last());
        assert(escaped(s) =~= quoted_char(s[0]) + escaped(s.drop_first()));
    }
}

proof fn lemma_reads_escaped(s: Seq<char>)
    ensures
        shell_reads(escaped(s) + seq!['\''], Quoting::Single) == Some(s),
    decreases s.len(),
{
    let close = seq!['\''];
    if s.len() == 0 {
        let text = escaped(s) + close;
        assert(text =~= close);
        assert(text.drop_first() =~= Seq::<char>::empty());
        assert(shell_reads(text.drop_first(), Quoting::Bare) == Some(Seq::<char>::empty()));
        assert(s =~= Seq::<char>::empty());
    } else {
        let rest = s.drop_first();
        let tail = escaped(rest) + close;
        lemma_escaped_first(s);
        lemma_reads_escaped(rest);
        let text = escaped(s) + close;
        if s[0] == '\'' {
            let t1 = seq!['"', '\'', '"', '\''] + tail;
            let t2 = seq!['\'', '"', '\''] + tail;
            let t3 = seq!['"', '\''] + tail;
            let t4 = seq!['\''] + tail;
            assert(text =~= seq!['\'', '"', '\'', '"', '\''] + tail);
            assert(text.drop_first() =~= t1);
            assert(t1.drop_first() =~= t2);
            assert(t2.drop_first() =~= t3);
            assert(t3.drop_first() =~= t4);
            assert(t4.drop_first() =~= tail);
            assert(shell_reads(t4, Quoting::Bare) == Some(rest));
            assert(shell_reads(t3, Quoting::Double) == Some(rest));
            assert(shell_reads(t2, Quoting::Double) == Some(seq!['\''] + rest));
            assert(shell_reads(t1, Quoting::Bare) == Some(seq!['\''] + rest));
            assert(shell_reads(text, Quoting::Single) == Some(seq!['\''] + rest));
            assert(seq!['\''] + rest =~= s);
        } else {
            assert(text =~= seq![s[0]] + tail);
            assert(text.drop_first() =~= tail);
            assert(seq![s[0]] + rest =~= s);
        }
    }
}

/// A quoted word is safe to hand to a shell: the shell reads it as one word
/// that is the text that was quoted, character for character, whatever the
/// text holds.
pub proof fn lemma_shell_reads_quoted(s: Seq<char>)
    ensures
        shell_reads(shell_quoted(s), Quoting::Bare) == Some(s),
{
    lemma_reads_escaped(s);
    let text = shell_quoted(s);
    assert(text =~= seq!['\''] + (escaped(s) + seq!['\'']));
    assert(text.drop_first() =~= escaped(s) + seq!['\'']);
}

/// An environment override as a shell writes it: the name, `=`, and the
/// value as one quoted word.
pub open spec fn env_word(pair: (Seq<char>, Seq<char>)) -> Seq<char> {
    pair.0 + seq!['='] + shell_quoted(pair.1)
}

/// The words of a command line: the environment overrides, the program, the
/// arguments, each value quoted.
pub open spec fn command_words(c: CommandModel) -> Seq<Seq<char>> {
    Seq::new(c.env.len(), |i: int| env_word(c.env[i])) + seq![shell_quoted(c.program)] + Seq::new(
        c.args.len(),
        |i: int| shell_quoted(c.args[i]),
    )
}

impl CommandModel {
    /// The command as a transcript shows it.
    pub open spec fn display_line(self) -> Seq<char> {
        joined(command_words(self), seq![' '])
    }

    /// The command as a line of a shell script, run through `env`.
    pub open spec fn shell_command(self) -> Seq<char> {
        joined(seq!["env"@] + command_words(self), seq![' '])
    }
}

impl CommandSpec {
    /// A command that runs `program` on `args` in the neutral locale.
    pub fn new(program: &str, args: Vec<String>) -> (r: Self)
        ensures
            r@ == (CommandModel { program: program@, args: texts(args@), env: forced_env() }),
    {
        let mut env: Vec<(String, String)> = Vec::new();
        env.push((String::from_str("LC_ALL"), String::from_str("C")));
        assert(env_texts(env@) =~= forced_env());
        CommandSpec { program: String::from_str(program), args, env }
    }

    fn push_words(&self, parts: &mut Vec<String>)
        ensures
            texts(final(parts)@) == texts(old(parts)@) + command_words(self@),
    {
        let ghost start = texts(parts@);
        let ghost model = self@;
        let ghost env_words = Seq::new(model.env.len(), |i: int| env_word(model.env[i]));
        let ghost arg_words = Seq::new(model.args.len(), |i: int| shell_quoted(model.args[i]));
        let mut i: usize = 0;
        while i < self.env.len()
            invariant
                i <= self.env.len(),
                model == self@,
                env_words == Seq::new(model.env.len(), |i: int| env_word(model.env[i])),
                texts(parts@) == start + env_words.take(i as int),
            decreases self.env.len() - i,
        {
            let mut word = self.env[i].0.clone();
            word.append("=");
            let value = shell_quote(self.env[i].1.as_str());
            word.append(value.as_str());
            proof {
                reveal_strlit("=");
                assert("="@ =~= seq!['=']);
                assert(word@ == env_word(model.env[i as int]));
                assert(env_words.take(i + 1) =~= env_words.take(i as int).push(word@));
            }
            let ghost before = texts(parts@);
            parts.push(word);
            assert(texts(parts@) =~= before.push(word@));
            i += 1;
        }
        assert(env_words.take(i as int) =~= env_words);
        let program = shell_quote(self.program.as_str());
        let ghost before = texts(parts@);
        parts.push(program);
        assert(texts(parts@) =~= before.push(shell_quoted(model.program)));
        let mut j: usize = 0;
        while j < self.args.len()
            invariant
                j <= self.args.len(),
                model == self@,
                arg_words == Seq::new(model.args.len(), |i: int| shell_quoted(model.args[i])),
                texts(parts@) == start + env_words + seq![shell_quoted(model.program)]
                    + arg_words.take(j as int),
            decreases self.args.len() - j,
        {
            let word = shell_quote(self.args[j].as_str());
            proof {
                assert(arg_words.take(j + 1) =~= arg_words.take(j as int).push(word@));
            }
            let ghost before = texts(parts@);
            parts.push(word);
            assert(texts(parts@) =~= before.push(word@));
            j += 1;
        }
        assert(arg_words.take(j as int) =~= arg_words);
        assert(texts(parts@) =~= start + command_words(model));
    }

    /// The command as a transcript shows it: each environment override, the
    /// program and each argument, quoted for a shell and separated by spaces.
    pub fn display_line(&self) -> (r: String)
        ensures
            r@ == self@.display_line(),
    {
        let mut parts: Vec<String> = Vec::new();
        self.push_words(&mut parts);
        proof {
            reveal_strlit(" ");
            assert(" "@ =~= seq![' ']);
            assert(texts(parts@) =~= command_words(self@));
        }
        join(&parts, " ")
    }

    /// The command as a line of a shell script: `env`, then the words of
    /// [`Self::display_line`].
    pub fn shell_command(&self) -> (r: String)
        ensures
            r@ == self@.shell_command(),
    {
        let mut parts: Vec<String> = Vec::new();
        parts.push(String::from_str("env"));
        assert(texts(parts@) =~= seq!["env"@]);
        self.push_words(&mut parts);
        proof {
            reveal_strlit(" ");
            assert(" "@ =~= seq![' ']);
        }
        join(&parts, " ")
    }
}


/// What a running command reports: a line of its output, or that it ended
/// and with which exit code.
#[derive(Debug, PartialEq, Eq)]
pub enum LogEvent {
    Line(String),
    Finished(i32),
}

/// What a [`LogEvent`] holds, as plain values.
pub enum EventModel {
    Line(Seq<char>),
    Finished(i32),
}

impl View for LogEvent {
    type V = EventModel;

    open spec fn view(&self) -> EventModel {
        match self {
            LogEvent::Line(text) => EventModel::Line(text@),
            LogEvent::Finished(code) => EventModel::Finished(*code),
        }
    }
}

impl Clone for LogEvent {
    fn clone(&self) -> (r: Self)
        ensures
            r@ == self@,
    {
        match self {
            LogEvent::Line(text) => LogEvent::Line(text.clone()),
            LogEvent::Finished(code) => LogEvent::Finished(*code),
        }
    }
}

/// The models of a sequence of events.
pub open spec fn event_models(v: Seq<LogEvent>) -> Seq<EventModel> {
    Seq::new(v.len(), |i: int| v[i]@)
}

/// The exit code reported for a process that ended without one, as one
/// killed by a signal does.
pub const EXIT_UNKNOWN: i32 = 1;

/// The exit code to report for a process that ended with `code`.
pub fn exit_code(code: Option<i32>) -> (r: i32)
    ensures
        r == match code {
            Some(c) => c,
            None => EXIT_UNKNOWN,
        },
{
    match code {
        Some(c) => c,
        None => EXIT_UNKNOWN,
    }
}

/// `line` as it is written to a command's input: ended by a newline.
pub open spec fn input_text(line: Seq<char>) -> Seq<char> {
    if line.len() > 0 && line.last() == '\n' {
        line
    } else {
        line.push('\n')
    }
}

/// What to write to a command's input for a line the operator typed: the
/// line, with a newline added where it has none.
pub fn input_line(line: String) -> (r: String)
    ensures
        r@ == input_text(line@),
{
    let chars = chars_of(line.as_str());
    if chars.len() > 0 && chars[chars.len() - 1] == '\n' {
        line
    } else {
        let mut out = line;
        let ghost before = out@;
        out.append("\n");
        proof {
            reveal_strlit("\n");
            assert(out@ =~= before.push('\n'));
        }
        out
    }
}

/// What the runner reports for a command that could not be started.
pub fn spawn_failure_events(error: &str) -> (r: Vec<LogEvent>)
    ensures
        event_models(r@) == seq![
            EventModel::Line("Failed to spawn: "@ + error@),
            EventModel::Finished(EXIT_UNKNOWN),
        ],
{
    let mut line = String::from_str("Failed to spawn: ");
    line.append(error);
    let mut events: Vec<LogEvent> = Vec::new();
    events.push(LogEvent::Line(line));
    events.push(LogEvent::Finished(EXIT_UNKNOWN));
    assert(event_models(events@) =~= seq![
        EventModel::Line("Failed to spawn: "@ + error@),
        EventModel::Finished(EXIT_UNKNOWN),
    ]);
    events
}

/// How `run_capture` ends.
#[derive(Debug, PartialEq, Eq)]
pub enum CaptureError {
    /// The command ran and did not succeed; the text describes its status.
    Failed(String),
}

impl CaptureError {
    /// The message for this error.
    pub fn message(&self) -> (r: String)
        ensures
            r@ == match self {
                CaptureError::Failed(status) => "command failed with status "@ + status@,
            },
    {
        match self {
            CaptureError::Failed(status) => {
                let mut out = String::from_str("command failed with status ");
                out.append(status.as_str());
                out
            },
        }
    }
}

/// The result of a captured run: what the command printed when it
/// succeeded, else the failure with the status it ended with.
pub fn capture_outcome(succeeded: bool, output: String, status: &str) -> (r: Result<
    String,
    CaptureError,
>)
    ensures
        succeeded ==> r == Ok::<String, CaptureError>(output),
        !succeeded ==> (r matches Err(CaptureError::Failed(s)) && s@ == status@),
{
    if succeeded {
        Ok(output)
    } else {
        Err(CaptureError::Failed(String::from_str(status)))
    }
}

/// Runs commands; holds how many lines of their output are kept.
#[derive(Debug, Clone, Copy)]
pub struct CommandRunner {
    pub log_limit: usize,
}

impl Default for CommandRunner {
    fn default() -> (r: Self)
        ensures
            r.log_limit == 1000,
    {
        CommandRunner { log_limit: 1000 }
    }
}

/// Which terminal programs are installed.
#[derive(Debug, Clone, Copy, PartialEq, Eq, Structural)]
pub struct InstalledTerminals {
    pub kitty: bool,
    pub konsole: bool,
    pub alacritty: bool,
}

impl InstalledTerminals {
    /// Whether `terminal` is installed; the automatic choice names no
    /// program and never is.
    pub open spec fn has(self, terminal: TerminalEmulator) -> bool {
        match terminal {
            TerminalEmulator::Auto => false,
            TerminalEmulator::Kitty => self.kitty,
            TerminalEmulator::Konsole => self.konsole,
            TerminalEmulator::Alacritty => self.alacritty,
        }
    }
}

/// The terminals that the automatic choice tries, most preferred first.
pub open spec fn preference_order() -> Seq<TerminalEmulator> {
    seq![TerminalEmulator::Kitty, TerminalEmulator::Konsole, TerminalEmulator::Alacritty]
}

/// The terminal to open for `preferred`: the preferred one if it is
/// installed; for the automatic choice the first installed one in
/// [`preference_order`]; else none.
pub open spec fn resolved_terminal(
    preferred: TerminalEmulator,
    installed: InstalledTerminals,
) -> Option<TerminalEmulator> {
    match preferred {
        TerminalEmulator::Auto => {
            if installed.kitty {
                Some(TerminalEmulator::Kitty)
            } else if installed.konsole {
                Some(TerminalEmulator::Konsole)
            } else if installed.alacritty {
                Some(TerminalEmulator::Alacritty)
            } else {
                None
            }
        },
        _ => if installed.has(preferred) {
            Some(preferred)
        } else {
            None
        },
    }
}

/// The terminal to open when the user prefers `preferred` and `installed`
/// says which ones there are.
pub fn resolve_terminal(preferred: TerminalEmulator, installed: InstalledTerminals) -> (r: Option<
    TerminalEmulator,
>)
    ensures
        r == resolved_terminal(preferred, installed),
{
    match preferred {
        TerminalEmulator::Auto => {
            if installed.kitty {
                Some(TerminalEmulator::Kitty)
            } else if installed.konsole {
                Some(TerminalEmulator::Konsole)
            } else if installed.alacritty {
                Some(TerminalEmulator::Alacritty)
            } else {
                None
            }
        },
        TerminalEmulator::Kitty => if installed.kitty {
            Some(preferred)
        } else {
            None
        },
        TerminalEmulator::Konsole => if installed.konsole {
            Some(preferred)
        } else {
            None
        },
        TerminalEmulator::Alacritty => if installed.alacritty {
            Some(preferred)
        } else {
            None
        },
    }
}

/// What [`resolve_terminal`] returns is installed, is never the automatic
/// choice, is the preferred one when a program was preferred, and under the
/// automatic choice no installed terminal is preferred to it.
pub proof fn lemma_resolved_terminal(preferred: TerminalEmulator, installed: InstalledTerminals)
    ensures
        match resolved_terminal(preferred, installed) {
            Some(t) => {
                &&& installed.has(t)
                &&& t != TerminalEmulator::Auto
                &&& preferred != TerminalEmulator::Auto ==> t == preferred
                &&& preferred == TerminalEmulator::Auto ==> forall|j: int|
                    0 <= j < preference_order().len() && #[trigger] preference_order()[j] == t
                        ==> forall|i: int|
                        0 <= i < j ==> !installed.has(#[trigger] preference_order()[i])
            },
            None => if preferred == TerminalEmulator::Auto {
                forall|i: int|
                    0 <= i < preference_order().len() ==> !installed.has(
                        #[trigger] preference_order()[i],
                    )
            } else {
                !installed.has(preferred)
            },
        },
{
}

/// The shell command that succeeds exactly when a program `name` can be found.
pub fn command_probe(name: &str) -> (r: String)
    ensures
        r@ == "command -v "@ + name@ + " >/dev/null 2>&1"@,
{
    let mut out = String::from_str("command -v ");
    out.append(name);
    out.append(" >/dev/null 2>&1");
    out
}

impl TerminalEmulator {
    /// The program of a terminal, as text; empty for the automatic choice.
    pub open spec fn binary_text(self) -> Seq<char> {
        match self {
            TerminalEmulator::Auto => ""@,
            TerminalEmulator::Kitty => "kitty"@,
            TerminalEmulator::Konsole => "konsole"@,
            TerminalEmulator::Alacritty => "alacritty"@,
        }
    }

    /// The arguments that make a terminal run `script` in a login shell.
    pub open spec fn launch_words(self, script: Seq<char>) -> Seq<Seq<char>> {
        match self {
            TerminalEmulator::Konsole | TerminalEmulator::Alacritty => seq![
                "-e"@,
                "sh"@,
                "-lc"@,
                script,
            ],
            TerminalEmulator::Kitty | TerminalEmulator::Auto => seq!["sh"@, "-lc"@, script],
        }
    }

    /// The program of a terminal; empty for the automatic choice.
    pub fn binary(self) -> (r: &'static str)
        ensures
            r@ == self.binary_text(),
    {
        match self {
            TerminalEmulator::Auto => "",
            TerminalEmulator::Kitty => "kitty",
            TerminalEmulator::Konsole => "konsole",
            TerminalEmulator::Alacritty => "alacritty",
        }
    }

    /// The arguments that make a terminal run `script` in a login shell.
    pub fn launch_args(self, script: &str) -> (r: Vec<String>)
        ensures
            texts(r@) == self.launch_words(script@),
    {
        let mut args: Vec<String> = Vec::new();
        match self {
            TerminalEmulator::Konsole | TerminalEmulator::Alacritty => {
                args.push(String::from_str("-e"));
            },
            TerminalEmulator::Kitty | TerminalEmulator::Auto => {},
        }
        args.push(String::from_str("sh"));
        args.push(String::from_str("-lc"));
        args.push(String::from_str(script));
        assert(texts(args@) =~= self.launch_words(script@));
        args
    }
}

/// The name of the file through which a command run in an external terminal
/// hands back its exit code, for the moment `stamp`.
pub fn sentinel_file_name(stamp: u128) -> (r: String)
    ensures
        r@ == "aurora-exit-"@ + decimal(stamp as nat) + ".code"@,
{
    let mut out = String::from_str("aurora-exit-");
    push_decimal(&mut out, stamp);
    out.append(".code");
    out
}

/// The script an external terminal runs for a command: it prints the
/// command, runs it, writes its exit code to `exit_file`, and ends with that
/// same code.
pub open spec fn script_text(command: CommandModel, exit_file: Seq<char>) -> Seq<char> {
    "printf '%s\\n' "@ + shell_quoted("[aurora] Running: "@ + command.display_line()) + "\n"@
        + command.shell_command() + "\ncode=$?\nprintf '%s\\n' \"$code\" > "@ + shell_quoted(
        exit_file,
    ) + "\nexit \"$code\"\n"@
}

/// The script an external terminal runs for `spec`, with `exit_file` as the
/// path of the file that takes the exit code.
pub fn terminal_script(spec: &CommandSpec, exit_file: &str) -> (r: String)
    ensures
        r@ == script_text(spec@, exit_file@),
{
    let mut trace = String::from_str("[aurora] Running: ");
    trace.append(spec.display_line().as_str());
    let mut out = String::from_str("printf '%s\\n' ");
    out.append(shell_quote(trace.as_str()).as_str());
    out.append("\n");
    out.append(spec.shell_command().as_str());
    out.append("\ncode=$?\nprintf '%s\\n' \"$code\" > ");
    out.append(shell_quote(exit_file).as_str());
    out.append("\nexit \"$code\"\n");
    out
}

/// The exit code of a command that ran in an external terminal: the number
/// the sentinel file holds, white space aside; the terminal's own exit code
/// where there is no file or it holds no such number.
pub open spec fn recovered_code(sentinel: Option<Seq<char>>, terminal_status: i32) -> i32 {
    match sentinel {
        Some(content) => match parsed_i32(trimmed(content)) {
            Some(code) => code,
            None => terminal_status,
        },
        None => terminal_status,
    }
}

/// The exit code of a command that ran in an external terminal, from what
/// the sentinel file held, if it was there, and the terminal's own exit code.
pub fn recover_exit_code(sentinel: Option<&str>, terminal_status: i32) -> (r: i32)
    ensures
        r == recovered_code(
            match sentinel {
                Some(content) => Some(content@),
                None => None,
            },
            terminal_status,
        ),
{
    match sentinel {
        Some(content) => {
            let chars = chars_of(content);
            let bounds = trim_bounds(chars.as_slice(), 0, chars.len());
            assert(chars@.subrange(0, chars@.len() as int) =~= chars@);
            match parse_i32(chars.as_slice(), bounds.0, bounds.1) {
                Some(code) => code,
                None => terminal_status,
            }
        },
        None => terminal_status,
    }
}

/// What the runner reports once an external terminal has closed: one line
/// that names the recovered exit code, then the end of the command with it.
pub fn terminal_finished_events(sentinel: Option<&str>, terminal_status: i32) -> (r: Vec<LogEvent>)
    ensures
        ({
            let code = recovered_code(
                match sentinel {
                    Some(content) => Some(content@),
                    None => None,
                },
                terminal_status,
            );
            event_models(r@) == seq![
                EventModel::Line(
                    "External terminal finished with exit code "@ + signed_decimal(code as int),
                ),
                EventModel::Finished(code),
            ]
        }),
{
    let code = recover_exit_code(sentinel, terminal_status);
    let mut line = String::from_str("External terminal finished with exit code ");
    push_signed_decimal(&mut line, code);
    let mut events: Vec<LogEvent> = Vec::new();
    events.push(LogEvent::Line(line));
    events.push(LogEvent::Finished(code));
    assert(event_models(events@) =~= seq![
        EventModel::Line(
            "External terminal finished with exit code "@ + signed_decimal(code as int),
        ),
        EventModel::Finished(code),
    ]);
    events
}

/// What the runner reports for a terminal that could not be launched.
pub fn terminal_failure_events(terminal: TerminalEmulator, error: &str) -> (r: Vec<LogEvent>)
    ensures
        event_models(r@) == seq![
            EventModel::Line(
                "Failed to launch terminal "@ + terminal.label_text() + ": "@ + error@,
            ),
            EventModel::Finished(EXIT_UNKNOWN),
        ],
{
    let mut line = String::from_str("Failed to launch terminal ");
    line.append(terminal.label());
    line.append(": ");
    line.append(error);
    let mut events: Vec<LogEvent> = Vec::new();
    events.push(LogEvent::Line(line));
    events.push(LogEvent::Finished(EXIT_UNKNOWN));
    assert(event_models(events@) =~= seq![
        EventModel::Line("Failed to launch terminal "@ + terminal.label_text() + ": "@ + error@),
        EventModel::Finished(EXIT_UNKNOWN),
    ]);
    events
}


/// Why a command was not started.
#[derive(Debug, Clone, Copy, PartialEq, Eq, Structural)]
pub enum RunnerError {
    /// No terminal can be opened: the chosen one is not installed, or none
    /// is.
    NoTerminal,
}

impl RunnerError {
    /// The message for this error.
    pub fn message(&self) -> (r: &'static str)
        ensures
            r@ == "No supported terminal found. Install kitty, konsole, or alacritty."@,
    {
        "No supported terminal found. Install kitty, konsole, or alacritty."
    }
}

/// How a command is started in a terminal.
#[derive(Debug, PartialEq, Eq)]
pub struct TerminalLaunch {
    /// The terminal that is opened.
    pub terminal: TerminalEmulator,
    /// Its program.
    pub program: String,
    /// The arguments that make it run the command's script.
    pub args: Vec<String>,
    /// The file in which the script leaves the command's exit code.
    pub exit_file: String,
}

/// What a [`TerminalLaunch`] holds, as plain values.
pub struct LaunchModel {
    pub terminal: TerminalEmulator,
    pub program: Seq<char>,
    pub args: Seq<Seq<char>>,
    pub exit_file: Seq<char>,
}

impl View for TerminalLaunch {
    type V = LaunchModel;

    open spec fn view(&self) -> LaunchModel {
        LaunchModel {
            terminal: self.terminal,
            program: self.program@,
            args: texts(self.args@),
            exit_file: self.exit_file@,
        }
    }
}

/// How `command` is started in a terminal, if one can be opened: in the
/// terminal that [`resolved_terminal`] names, which runs the script of the
/// command, with the sentinel file for the moment `stamp` in the directory
/// `temp_dir`.
pub open spec fn launch_of(
    command: CommandModel,
    preferred: TerminalEmulator,
    installed: InstalledTerminals,
    temp_dir: Seq<char>,
    stamp: nat,
) -> Option<LaunchModel> {
    match resolved_terminal(preferred, installed) {
        None => None,
        Some(terminal) => {
            let exit_file = joined_path(temp_dir, "aurora-exit-"@ + decimal(stamp) + ".code"@);
            Some(
                LaunchModel {
                    terminal,
                    program: terminal.binary_text(),
                    args: terminal.launch_words(script_text(command, exit_file)),
                    exit_file,
                },
            )
        },
    }
}

impl CommandRunner {
    /// Prepares the run of `spec` in a terminal window: which terminal to
    /// open, for the terminal the user prefers and those that are installed,
    /// and with which arguments. The command's exit code will be in a file
    /// in `temp_dir` that is named after the moment `stamp`.
    pub fn external_terminal_launch(
        &self,
        spec: &CommandSpec,
        preferred: TerminalEmulator,
        installed: InstalledTerminals,
        temp_dir: &str,
        stamp: u128,
    ) -> (r: Result<TerminalLaunch, RunnerError>)
        ensures
            match r {
                Ok(launch) => launch_of(spec@, preferred, installed, temp_dir@, stamp as nat)
                    == Some(launch@),
                Err(error) => error == RunnerError::NoTerminal && launch_of(
                    spec@,
                    preferred,
                    installed,
                    temp_dir@,
                    stamp as nat,
                ) is None,
            },
    {
        match resolve_terminal(preferred, installed) {
            None => Err(RunnerError::NoTerminal),
            Some(terminal) => {
                let exit_file = join_path(temp_dir, sentinel_file_name(stamp).as_str());
                let script = terminal_script(spec, exit_file.as_str());
                Ok(
                    TerminalLaunch {
                        terminal,
                        program: String::from_str(terminal.binary()),
                        args: terminal.launch_args(script.as_str()),
                        exit_file,
                    },
                )
            },
        }
    }
}

} // verus!
