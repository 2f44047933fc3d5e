//! The shapes of a supervision configuration: processes, their commands and
//! the way each one is stopped.

use std::collections::HashSet;
use vstd::prelude::*;

verus! {

/// `HashSet::clone` of std: the copy holds the elements of the set it was made from.
#[verifier::external_body]
fn clone_names(names: &HashSet<String>) -> (out: HashSet<String>)
    ensures
        out@ == names@,
{
    names.clone()
}

/// A copy of `words`, string by string.
fn clone_words(words: &Vec<String>) -> (out: Vec<String>)
    ensures
        out@ == words@,
{
    let mut out: Vec<String> = Vec::new();
    let mut i: usize = 0;
    while i < words.len()
        invariant
            i <= words.len(),
            out@ == words@.take(i as int),
        decreases words.len() - i,
    {
        out.push(words[i].clone());
        proof {
            assert(out@ =~= words@.take(i + 1));
        }
        i += 1;
    }
    proof {
        assert(words@.take(words.len() as int) =~= words@);
    }
    out
}

/// A copy of an optional user name.
fn clone_user(user: &Option<String>) -> (out: Option<String>)
    ensures
        out == *user,
{
    match user {
        Some(name) => Some(name.clone()),
        None => None,
    }
}

/// A whole configuration: the processes, in the order in which they start.
#[derive(Clone, Debug)]
pub struct Config {
    pub processes: Vec<ProcessConfig>,
}

/// One named process and its four phases.
#[derive(Clone, Debug)]
pub struct ProcessConfig {
    pub name: String,
    pub pre: Option<CommandConfig>,
    pub run: Option<CommandConfig>,
    pub stop: StopMechanism,
    pub post: Option<CommandConfig>,
}

/// How a daemon is asked to stop: by a signal, or by running a command.
#[derive(Clone, Eq, PartialEq, Debug)]
pub enum StopMechanism {
    Signal(SignalConfig),
    Command(CommandConfig),
}

impl Default for StopMechanism {
    fn default() -> (out: Self)
        ensures
            out == StopMechanism::Signal(SignalConfig::SIGTERM),
    {
        StopMechanism::Signal(SignalConfig::SIGTERM)
    }
}

/// The signals that may stop a daemon.
#[derive(Copy, Clone, Eq, PartialEq, Debug)]
pub enum SignalConfig {
    SIGINT,
    SIGQUIT,
    SIGTERM,
}

/// A program, its arguments, the user to run it as and the names of the
/// environment variables that it inherits.
#[derive(Debug, Eq, PartialEq)]
pub struct CommandConfig {
    /// User to run the command as; the supervisor's own user when absent.
    pub user: Option<String>,
    /// Names of the environment variables handed through to the command.
    pub env_vars: HashSet<String>,
    /// Program to execute.
    pub program: String,
    /// Arguments to the program.
    pub args: Vec<String>,
}

/// A command as it is written down: a bare command line, or a command line
/// with a user and environment variables beside it.
#[derive(Clone, Eq, PartialEq, Debug)]
pub enum CommandLineConfig {
    Simple(CommandLine),
    Detailed(DetailedCommandLine),
}

/// A command line: one string that is cut at its spaces, or the words
/// themselves.
#[derive(Eq, PartialEq, Debug)]
pub enum CommandLine {
    CommandString(String),
    CommandVector(Vec<String>),
}

/// A command line with the user and the environment variables for it.
#[derive(Eq, PartialEq, Debug)]
pub struct DetailedCommandLine {
    pub user: Option<String>,
    pub env_vars: HashSet<String>,
    pub command: CommandLine,
}

impl Clone for CommandConfig {
    fn clone(&self) -> (out: Self)
        ensures
            out.user == self.user,
            out.env_vars@ == self.env_vars@,
            out.program == self.program,
            out.args@ == self.args@,
    {
        CommandConfig {
            user: clone_user(&self.user),
            env_vars: clone_names(&self.env_vars),
            program: self.program.clone(),
            args: clone_words(&self.args),
        }
    }
}

impl Clone for CommandLine {
    fn clone(&self) -> (out: Self)
        ensures
            out.written_as(self),
    {
        match self {
            CommandLine::CommandString(line) => CommandLine::CommandString(line.clone()),
            CommandLine::CommandVector(words) => CommandLine::CommandVector(clone_words(words)),
        }
    }
}

impl Clone for DetailedCommandLine {
    fn clone(&self) -> (out: Self)
        ensures
            out.user == self.user,
            out.env_vars@ == self.env_vars@,
            out.command.written_as(&self.command),
    {
        DetailedCommandLine {
            user: clone_user(&self.user),
            env_vars: clone_names(&self.env_vars),
            command: self.command.clone(),
        }
    }
}

/// The text of each string of `words`.
pub open spec fn texts(words: Seq<String>) -> Seq<Seq<char>> {
    words.map_values(|w: String| w@)
}

/// The words of `line`: the pieces between its space characters. A line
/// with `k` spaces has `k + 1` words, some of which may be empty.
pub open spec fn split_spaces(line: Seq<char>) -> Seq<Seq<char>>
    decreases line.len(),
{
    if line.len() == 0 {
        seq![Seq::<char>::empty()]
    } else {
        let before = split_spaces(line.drop_last());
        if line.last() == ' ' {
            before.push(Seq::<char>::empty())
        } else {
            before.drop_last().push(before.last().push(line.last()))
        }
    }
}

/// `words` joined again, with one space between neighbours.
pub open spec fn join_spaces(words: Seq<Seq<char>>) -> Seq<char>
    decreases words.len(),
{
    if words.len() == 0 {
        Seq::<char>::empty()
    } else if words.len() == 1 {
        words[0]
    } else {
        join_spaces(words.drop_last()).push(' ') + words.last()
    }
}

/// Cutting a line at its spaces gives at least one word, no word holds a
/// space, and the words joined by single spaces are the line again.
pub proof fn split_spaces_is_exact(line: Seq<char>)
    ensures
        split_spaces(line).len() >= 1,
        forall|i: int, j: int|
            0 <= i < split_spaces(line).len() && 0 <= j < split_spaces(line)[i].len()
                ==> split_spaces(line)[i][j] != ' ',
        join_spaces(split_spaces(line)) == line,
    decreases line.len(),
{
    if line.len() > 0 {
        let shorter = line.drop_last();
        split_spaces_is_exact(shorter);
        let before = split_spaces(shorter);
        let words = split_spaces(line);
        if line.last() == ' ' {
            assert(words.drop_last() =~= before);
            assert(join_spaces(words) =~= join_spaces(before).push(' '));
            assert(shorter.push(' ') =~= line);
        } else {
            let grown = before.last().push(line.last());
            assert(words.last() == grown);
            if before.len() == 1 {
                assert(join_spaces(before) == before[0]);
                assert(join_spaces(words) == grown);
            } else {
                assert(words.drop_last() =~= before.drop_last());
                assert(join_spaces(before) == join_spaces(before.drop_last()).push(' ')
                    + before.last());
                assert(join_spaces(words) =~= join_spaces(before).push(line.last()));
            }
            assert(shorter.push(line.last()) =~= line);
        }
    }
}

/// The first word of a line is what stands before its first space, or the
/// whole line where it holds none. So the first word is empty exactly if the
/// line is empty or begins with a space.
pub proof fn first_word_is_prefix(line: Seq<char>)
    ensures
        split_spaces(line).len() >= 1,
        split_spaces(line)[0].len() <= line.len(),
        split_spaces(line)[0] == line.take(split_spaces(line)[0].len() as int),
        split_spaces(line).len() == 1 ==> split_spaces(line)[0] == line,
        split_spaces(line).len() > 1 ==> split_spaces(line)[0].len() < line.len()
            && line[split_spaces(line)[0].len() as int] == ' ',
        split_spaces(line)[0].len() > 0 <==> line.len() > 0 && line[0] != ' ',
    decreases line.len(),
{
    split_spaces_is_exact(line);
    if line.len() > 0 {
        let shorter = line.drop_last();
        first_word_is_prefix(shorter);
        let before = split_spaces(shorter);
        let first = split_spaces(line)[0];
        if line.last() == ' ' || before.len() > 1 {
            assert(first == before[0]);
            assert(first =~= line.take(first.len() as int));
        } else {
            assert(first =~= line);
            assert(line.take(line.len() as int) =~= line);
        }
        if first.len() > 0 {
            assert(line[0] == first[0]);
        }
    } else {
        assert(line.take(0) =~= split_spaces(line)[0]);
    }
}

impl CommandLine {
    /// Whether the command line names a program: a string is not empty and
    /// does not begin with a space; a vector of words holds at least one,
    /// and its first word is not empty.
    pub open spec fn wf(&self) -> bool {
        match self {
            CommandLine::CommandString(line) => line@.len() > 0 && line@[0] != ' ',
            CommandLine::CommandVector(words) => words@.len() > 0 && words@[0]@.len() > 0,
        }
    }

    /// Whether `self` is written in the same form as `other`, string or
    /// vector, and holds the same text.
    pub open spec fn written_as(&self, other: &CommandLine) -> bool {
        match (*self, *other) {
            (CommandLine::CommandString(a), CommandLine::CommandString(b)) => a == b,
            (CommandLine::CommandVector(a), CommandLine::CommandVector(b)) => a@ == b@,
            _ => false,
        }
    }

    /// Tells whether the command line names a program.
    pub fn names_program(&self) -> (ok: bool)
        ensures
            ok == self.wf(),
    {
        match self {
            CommandLine::CommandString(line) => {
                let line = line.as_str();
                line.unicode_len() > 0 && line.get_char(0) != ' '
            },
            CommandLine::CommandVector(words) => {
                words.len() > 0 && words[0].as_str().unicode_len() > 0
            },
        }
    }

    /// The words of the command line: the program first, then its arguments.
    pub open spec fn words(&self) -> Seq<Seq<char>> {
        match self {
            CommandLine::CommandString(line) => split_spaces(line@),
            CommandLine::CommandVector(words) => texts(words@),
        }
    }

    /// The program to execute and the arguments to that program: the first
    /// word, which is never empty, and the words after it.
    pub fn program_and_args(&self) -> (out: (String, Vec<String>))
        requires
            self.wf(),
        ensures
            self.words().len() >= 1,
            out.0@.len() > 0,
            out.0@ == self.words()[0],
            texts(out.1@) == self.words().skip(1),
    {
        match self {
            CommandLine::CommandString(line) => {
                let mut words = split_line(line.as_str());
                let program = words.remove(0);
                proof {
                    first_word_is_prefix(line@);
                    assert(texts(words@) =~= split_spaces(line@).skip(1));
                }
                (program, words)
            },
            CommandLine::CommandVector(v) => {
                let program = v[0].clone();
                let mut args: Vec<String> = Vec::new();
                let mut i: usize = 1;
                while i < v.len()
                    invariant
                        1 <= i <= v.len(),
                        args@.len() == i - 1,
                        forall|k: int| 0 <= k < args@.len() ==> args@[k] == v@[k + 1],
                    decreases v.len() - i,
                {
                    args.push(v[i].clone());
                    i += 1;
                }
                proof {
                    assert(texts(args@) =~= texts(v@).skip(1));
                }
                (program, args)
            },
        }
    }
}

/// Cuts `line` at each space character.
pub fn split_line(line: &str) -> (words: Vec<String>)
    ensures
        texts(words@) == split_spaces(line@),
        words@.len() >= 1,
{
    let n = line.unicode_len();
    let mut words: Vec<String> = Vec::new();
    let mut start: usize = 0;
    let mut i: usize = 0;
    proof {
        assert(line@.take(0) =~= Seq::<char>::empty());
        assert(texts(words@).push(line@.subrange(0, 0)) =~= seq![Seq::<char>::empty()]);
    }
    while i < n
        invariant
            n == line@.len(),
            start <= i <= n,
            split_spaces(line@.take(i as int)) == texts(words@).push(
                line@.subrange(start as int, i as int),
            ),
        decreases n - i,
    {
        let c = line.get_char(i);
        proof {
            let longer = line@.take(i + 1);
            assert(longer.drop_last() =~= line@.take(i as int));
            assert(longer.last() == c);
        }
        if c == ' ' {
            let ghost before = texts(words@);
            words.push(line.substring_char(start, i).to_owned());
            proof {
                assert(texts(words@) =~= before.push(line@.subrange(start as int, i as int)));
                assert(line@.subrange(i + 1, i + 1) =~= Seq::<char>::empty());
            }
            start = i + 1;
        } else {
            proof {
                let before = texts(words@).push(line@.subrange(start as int, i as int));
                assert(before.drop_last() =~= texts(words@));
                assert(line@.subrange(start as int, i as int).push(c) =~= line@.subrange(
                    start as int,
                    i + 1,
                ));
            }
        }
        i += 1;
    }
    let ghost before = texts(words@);
    words.push(line.substring_char(start, n).to_owned());
    proof {
        assert(line@.take(n as int) =~= line@);
        assert(texts(words@) =~= before.push(line@.subrange(start as int, n as int)));
    }
    words
}

impl CommandConfig {
    /// Whether the command names a program.
    pub open spec fn wf(&self) -> bool {
        self.program@.len() > 0
    }

    /// The command that a written command line describes: its first word is
    /// the program, the others are the arguments. A bare command line runs
    /// as the supervisor's user and inherits no variables.
    pub fn from(config: CommandLineConfig) -> (out: CommandConfig)
        requires
            config.line().wf(),
        ensures
            out.wf(),
            config.line().words().len() >= 1,
            out.program@ == config.line().words()[0],
            texts(out.args@) == config.line().words().skip(1),
            match config {
                CommandLineConfig::Simple(_) => out.user is None
                    && out.env_vars@ == Set::<String>::empty(),
                CommandLineConfig::Detailed(detailed) => out.user == detailed.user
                    && out.env_vars == detailed.env_vars,
            },
    {
        match config {
            CommandLineConfig::Simple(line) => {
                let (program, args) = line.program_and_args();
                CommandConfig { user: None, env_vars: HashSet::new(), program, args }
            },
            CommandLineConfig::Detailed(detailed) => {
                let (program, args) = detailed.command.program_and_args();
                CommandConfig {
                    user: detailed.user,
                    env_vars: detailed.env_vars,
                    program,
                    args,
                }
            },
        }
    }
}

impl CommandLineConfig {
    /// The command line inside.
    pub open spec fn line(&self) -> CommandLine {
        match self {
            CommandLineConfig::Simple(line) => *line,
            CommandLineConfig::Detailed(detailed) => detailed.command,
        }
    }
}

} // verus!
