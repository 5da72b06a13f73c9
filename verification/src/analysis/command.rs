//! Building the command lines that analyses run.

use vstd::prelude::*;
use std::time::Duration;
use crate::config::modules::{lookup, unique_keys, upsert};
use crate::text::{join, join_strings, views, words, words_of};

verus! {

/// Seconds a command may run by default.
pub const DEFAULT_TIMEOUT_SECS: u64 = 300;

/// Names the duration of `secs` whole seconds (`Duration::from_secs`).
pub uninterp spec fn secs_duration(secs: u64) -> Duration;

/// `Duration::from_secs`. The contract claims only that the result is the
/// named `secs_duration` of the argument: a `Duration` is opaque here.
#[verifier::external_body]
fn duration_from_secs(secs: u64) -> (r: Duration)
    ensures
        r == secs_duration(secs),
{
    Duration::from_secs(secs)
}

/// Options of a command run.
#[derive(Debug)]
pub struct RunOptions {
    /// Working directory.
    pub current_dir: Option<String>,
    /// Environment variables set for the command (each name once).
    pub envs: Vec<(String, String)>,
    /// Whether the command line is echoed before it runs.
    pub verbose: bool,
    pub timeout: Duration,
}

impl Default for RunOptions {
    fn default() -> (r: RunOptions)
        ensures
            r.current_dir is None,
            r.envs@.len() == 0,
            r.verbose,
            r.timeout == secs_duration(DEFAULT_TIMEOUT_SECS),
    {
        RunOptions { current_dir: None, envs: Vec::new(), verbose: true, timeout: duration_from_secs(DEFAULT_TIMEOUT_SECS) }
    }
}

impl RunOptions {
    pub fn with_current_dir(self, dir: &str) -> (r: RunOptions)
        ensures
            r.current_dir is Some && r.current_dir->0@ == dir@,
            r == (RunOptions { current_dir: r.current_dir, ..self }),
    {
        RunOptions { current_dir: Some(String::from_str(dir)), ..self }
    }

    /// Sets an environment variable (a name set twice keeps the last value).
    pub fn with_env(self, key: &str, value: &str) -> (r: RunOptions)
        requires
            unique_keys(self.envs@),
        ensures
            unique_keys(r.envs@),
            forall|k: Seq<char>| #[trigger] lookup(r.envs@, k) == if k == key@ {
                Some(r.envs@[crate::config::modules::key_index(r.envs@, k) as int].1)
            } else {
                lookup(self.envs@, k)
            },
            lookup(r.envs@, key@) matches Some(v) && v@ == value@,
            r.current_dir == self.current_dir,
            r.verbose == self.verbose,
            r.timeout == self.timeout,
    {
        let mut o = self;
        let v = String::from_str(value);
        let ghost vv = v;
        upsert(&mut o.envs, String::from_str(key), v);
        proof {
            assert(lookup(o.envs@, key@) == Some(vv));
            crate::config::modules::lemma_key_index_props(o.envs@, key@);
        }
        o
    }

    /// Stops the command line from being echoed.
    pub fn quiet(self) -> (r: RunOptions)
        ensures
            r == (RunOptions { verbose: false, ..self }),
    {
        RunOptions { verbose: false, ..self }
    }

    pub fn with_timeout(self, timeout: Duration) -> (r: RunOptions)
        ensures
            r == (RunOptions { timeout, ..self }),
    {
        RunOptions { timeout, ..self }
    }
}

/// A command to run: the program, its arguments and the run options.
#[derive(Debug)]
pub struct CommandBuilder {
    pub program: String,
    pub args: Vec<String>,
    pub options: RunOptions,
}

impl CommandBuilder {
    pub fn new(program: &str) -> (r: CommandBuilder)
        ensures
            r.program@ == program@,
            r.args@.len() == 0,
            r.options.current_dir is None,
            r.options.envs@.len() == 0,
            r.options.verbose,
            r.options.timeout == secs_duration(DEFAULT_TIMEOUT_SECS),
    {
        CommandBuilder { program: String::from_str(program), args: Vec::new(), options: RunOptions::default() }
    }

    /// A command from a command line: its first word is the program, the
    /// other words are the arguments (an empty program for a blank line).
    pub fn from_exec_string(exec_str: &str) -> (r: CommandBuilder)
        ensures
            words(exec_str@).len() == 0 ==> r.program@ == Seq::<char>::empty() && r.args@.len() == 0,
            words(exec_str@).len() > 0 ==> r.program@ == words(exec_str@)[0]
                && views(r.args@) == words(exec_str@).drop_first(),
            r.options.current_dir is None,
            r.options.envs@.len() == 0,
            r.options.verbose,
            r.options.timeout == secs_duration(DEFAULT_TIMEOUT_SECS),
    {
        let parts = words_of(exec_str);
        if parts.len() == 0 {
            proof { reveal_strlit(""); }
            return CommandBuilder::new("");
        }
        let mut b = CommandBuilder::new(parts[0].as_str());
        let mut i: usize = 1;
        while i < parts.len()
            invariant
                1 <= i <= parts@.len(),
                b.program@ == views(parts@)[0],
                views(b.args@) == views(parts@).subrange(1, i as int),
                b.options.current_dir is None,
                b.options.envs@.len() == 0,
                b.options.verbose,
                b.options.timeout == secs_duration(DEFAULT_TIMEOUT_SECS),
            decreases parts@.len() - i,
        {
            let ghost before = b.args@;
            b = b.arg(parts[i].as_str());
            assert(views(b.args@) =~= views(before).push(parts@[i as int]@));
            assert(views(parts@).subrange(1, i + 1) =~= views(parts@).subrange(1, i as int).push(parts@[i as int]@));
            i += 1;
        }
        assert(views(parts@).subrange(1, parts@.len() as int) =~= views(parts@).drop_first());
        b
    }

    /// Adds an argument.
    pub fn arg(self, arg: &str) -> (r: CommandBuilder)
        ensures
            r.program == self.program,
            r.args@.len() == self.args@.len() + 1,
            r.args@.take(self.args@.len() as int) == self.args@,
            r.args@.last()@ == arg@,
            r.options == self.options,
    {
        let mut b = self;
        let ghost a0 = b.args@;
        b.args.push(String::from_str(arg));
        assert(b.args@.take(a0.len() as int) =~= a0);
        b
    }

    pub fn current_dir(self, dir: &str) -> (r: CommandBuilder)
        ensures
            r.program == self.program,
            r.args == self.args,
            r.options == (RunOptions { current_dir: r.options.current_dir, ..self.options }),
            r.options.current_dir is Some && r.options.current_dir->0@ == dir@,
    {
        CommandBuilder { options: self.options.with_current_dir(dir), ..self }
    }

    /// Sets an environment variable of the run.
    pub fn env(self, key: &str, value: &str) -> (r: CommandBuilder)
        requires
            unique_keys(self.options.envs@),
        ensures
            r.program == self.program,
            r.args == self.args,
            unique_keys(r.options.envs@),
            lookup(r.options.envs@, key@) matches Some(v) && v@ == value@,
            forall|k: Seq<char>| k != key@ ==> #[trigger] lookup(r.options.envs@, k) == lookup(self.options.envs@, k),
            r.options.current_dir == self.options.current_dir,
            r.options.verbose == self.options.verbose,
            r.options.timeout == self.options.timeout,
    {
        let o = self.options.with_env(key, value);
        CommandBuilder { program: self.program, args: self.args, options: o }
    }

    pub fn timeout(self, timeout: Duration) -> (r: CommandBuilder)
        ensures
            r == (CommandBuilder { options: RunOptions { timeout, ..self.options }, ..self }),
    {
        CommandBuilder { options: self.options.with_timeout(timeout), ..self }
    }

    /// Stops the command line from being echoed.
    pub fn quiet(self) -> (r: CommandBuilder)
        ensures
            r == (CommandBuilder { options: RunOptions { verbose: false, ..self.options }, ..self }),
    {
        CommandBuilder { options: self.options.quiet(), ..self }
    }

    pub fn with_options(self, options: RunOptions) -> (r: CommandBuilder)
        ensures
            r == (CommandBuilder { options, ..self }),
    {
        CommandBuilder { options, ..self }
    }

    /// The command line: the program and the arguments separated by spaces
    /// (the key of the filter lookup).
    pub fn command_string(&self) -> (r: String)
        ensures
            r@ == join(seq![self.program@] + views(self.args@), " "@),
    {
        let mut parts: Vec<String> = Vec::new();
        parts.push(self.program.clone());
        let mut i: usize = 0;
        while i < self.args.len()
            invariant
                i <= self.args@.len(),
                views(parts@) == seq![self.program@] + views(self.args@).take(i as int),
            decreases self.args@.len() - i,
        {
            let ghost before = parts@;
            let x = self.args[i].clone();
            parts.push(x);
            assert(views(parts@) =~= views(before).push(x@));
            assert(views(self.args@).take(i + 1) =~= views(self.args@).take(i as int).push(self.args@[i as int]@));
            i += 1;
        }
        assert(views(self.args@).take(self.args@.len() as int) =~= views(self.args@));
        join_strings(&parts, " ")
    }
}

} // verus!
