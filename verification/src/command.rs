//! Running external commands, and a scripted runner for tests.
use vstd::prelude::*;

use crate::error::{Error, Result};
use crate::text::{concat2, concat3, str_to_string, views};

verus! {

/// Abstraction over command execution for testability.
pub trait CommandRunner {
    /// Run a command and return (stdout, stderr, success).
    fn run(&mut self, cmd: &str, args: &[&str], stdin_input: Option<&str>) -> Result<
        (String, String, bool),
    >;
}

/// Runs `cmd args` through `runner`, and records in `issued` what was handed
/// to it: the program, the text of each argument and the input.
pub fn issue<R: CommandRunner>(
    runner: &mut R,
    issued: &mut Ghost<Seq<Call>>,
    replies: &mut Ghost<Seq<Returned>>,
    cmd: &str,
    args: &[&str],
    stdin_input: Option<&str>,
) -> (r: Result<(String, String, bool)>)
    ensures
        final(issued)@ == old(issued)@.push((cmd@, arg_views(args@), opt_str_view(stdin_input))),
        final(replies)@ == old(replies)@.push(reply_of(r)),
{
    let log = Ghost(issued@.push((cmd@, arg_views(args@), opt_str_view(stdin_input))));
    *issued = log;
    let r = runner.run(cmd, args, stdin_input);
    let answered = Ghost(replies@.push(reply_of(r)));
    *replies = answered;
    r
}

/// What came back from a run: the reply, or the runner's error.
pub open spec fn reply_of(r: Result<(String, String, bool)>) -> Returned {
    match r {
        Ok(out) => Ok((out.0@, out.1@, out.2)),
        Err(e) => Err(e),
    }
}

/// The step at which running a real command failed.
#[derive(Debug, Clone, Copy, PartialEq, Eq, Structural)]
pub enum RunStage {
    /// The program could not be started with its input piped.
    Spawn,
    /// The input could not be written to it.
    WriteInput,
    /// Waiting for it to finish failed.
    Wait,
    /// The program could not be run.
    Run,
}

/// The text of the error for a command `cmd` that failed at `stage` for
/// the reason `cause`.
pub open spec fn run_failure_text(stage: RunStage, cmd: Seq<char>, cause: Seq<char>) -> Seq<char> {
    match stage {
        RunStage::Spawn => "Failed to spawn "@ + cmd + ": "@ + cause,
        RunStage::WriteInput => "Failed to write stdin: "@ + cause,
        RunStage::Wait => "Command failed: "@ + cause,
        RunStage::Run => "Failed to run "@ + cmd + ": "@ + cause,
    }
}

/// The ZFS error for a command that could not be run to its end.
pub fn run_failure(stage: RunStage, cmd: &str, cause: &str) -> (e: Error)
    ensures
        e matches Error::Zfs(m) && m@ == run_failure_text(stage, cmd@, cause@),
{
    let m = match stage {
        RunStage::Spawn => {
            let head = concat3("Failed to spawn ", cmd, ": ");
            concat2(head.as_str(), cause)
        },
        RunStage::WriteInput => concat2("Failed to write stdin: ", cause),
        RunStage::Wait => concat2("Command failed: ", cause),
        RunStage::Run => {
            let head = concat3("Failed to run ", cmd, ": ");
            concat2(head.as_str(), cause)
        },
    };
    Error::Zfs(m)
}

/// What is written to a command's standard input: the input, then a
/// newline.
pub fn stdin_line(input: &str) -> (r: String)
    ensures
        r@ == input@.push('\n'),
{
    let mut r = str_to_string(input);
    crate::text::push_char(&mut r, '\n');
    r
}

/// A command as the mock runner keys it: the program and its arguments.
pub type CommandKey = (Seq<char>, Seq<Seq<char>>);

/// A scripted reply: standard output, standard error, success.
pub type Reply = (Seq<char>, Seq<char>, bool);

/// A logged call: the program, its arguments and what was fed to its input.
pub type Call = (Seq<char>, Seq<Seq<char>>, Option<Seq<char>>);

/// What came back from a run: the reply, or the error the runner failed
/// with.
pub type Returned = core::result::Result<Reply, Error>;

/// The text of each argument.
pub open spec fn arg_views(args: Seq<&str>) -> Seq<Seq<char>> {
    args.map_values(|a: &str| a@)
}

pub open spec fn opt_view(o: Option<String>) -> Option<Seq<char>> {
    match o {
        Some(s) => Some(s@),
        None => None,
    }
}

pub open spec fn opt_str_view(o: Option<&str>) -> Option<Seq<char>> {
    match o {
        Some(s) => Some(s@),
        None => None,
    }
}

/// What the mock answers a command it has no reply for: empty output and
/// success.
pub open spec fn default_reply() -> Reply {
    (Seq::empty(), Seq::empty(), true)
}

#[derive(Debug, Clone)]
struct MockResponse {
    cmd: String,
    args: Vec<String>,
    stdout: String,
    stderr: String,
    success: bool,
}

spec fn response_key(r: MockResponse) -> CommandKey {
    (r.cmd@, views(r.args@))
}

spec fn response_reply(r: MockResponse) -> Reply {
    (r.stdout@, r.stderr@, r.success)
}

/// The replies registered so far; a later registration for the same
/// command replaces an earlier one.
spec fn response_map(rs: Seq<MockResponse>) -> Map<CommandKey, Reply>
    decreases rs.len(),
{
    if rs.len() == 0 {
        Map::empty()
    } else {
        response_map(rs.drop_last()).insert(response_key(rs.last()), response_reply(rs.last()))
    }
}

/// The view of a logged call.
pub open spec fn call_view(c: (String, Vec<String>, Option<String>)) -> Call {
    (c.0@, views(c.1@), opt_view(c.2))
}

pub open spec fn calls_view(cs: Seq<(String, Vec<String>, Option<String>)>) -> Seq<Call> {
    cs.map_values(|c: (String, Vec<String>, Option<String>)| call_view(c))
}

/// Mock command runner for tests: it answers each command with the reply
/// registered for it and logs every call. Each runner owns its replies and
/// its log; a test that hands one runner to a manager and reads the log
/// through another shares a single runner between them (behind a lock of
/// its own).
#[derive(Debug)]
pub struct MockCommandRunner {
    responses: Vec<MockResponse>,
    call_log: Vec<(String, Vec<String>, Option<String>)>,
}

impl MockCommandRunner {
    /// The reply registered for each command.
    pub closed spec fn replies(&self) -> Map<CommandKey, Reply> {
        response_map(self.responses@)
    }

    /// Every call made so far, oldest first.
    pub closed spec fn calls(&self) -> Seq<Call> {
        calls_view(self.call_log@)
    }

    /// The reply the mock gives to `key`.
    pub open spec fn reply_for(&self, key: CommandKey) -> Reply {
        if self.replies().contains_key(key) {
            self.replies()[key]
        } else {
            default_reply()
        }
    }

    pub fn new() -> (r: Self)
        ensures
            r.replies() == Map::<CommandKey, Reply>::empty(),
            r.calls() == Seq::<Call>::empty(),
    {
        let r = MockCommandRunner { responses: Vec::new(), call_log: Vec::new() };
        assert(r.calls() =~= Seq::<Call>::empty());
        r
    }

    /// Register a mock response for a specific command + args combination.
    pub fn add_response(
        &mut self,
        cmd: &str,
        args: &[&str],
        stdout: &str,
        stderr: &str,
        success: bool,
    )
        ensures
            final(self).replies() == old(self).replies().insert(
                (cmd@, arg_views(args@)),
                (stdout@, stderr@, success),
            ),
            final(self).calls() == old(self).calls(),
    {
        let args = strings_of(args);
        let r = MockResponse {
            cmd: str_to_string(cmd),
            args,
            stdout: str_to_string(stdout),
            stderr: str_to_string(stderr),
            success,
        };
        let ghost before = self.responses@;
        self.responses.push(r);
        assert(self.responses@.drop_last() == before);
    }

    /// Get the log of all commands that were executed.
    pub fn get_calls(&self) -> (r: Vec<(String, Vec<String>, Option<String>)>)
        ensures
            calls_view(r@) == self.calls(),
    {
        let mut r: Vec<(String, Vec<String>, Option<String>)> = Vec::new();
        let mut i: usize = 0;
        while i < self.call_log.len()
            invariant
                i <= self.call_log@.len(),
                calls_view(r@) == calls_view(self.call_log@.subrange(0, i as int)),
            decreases self.call_log@.len() - i,
        {
            let (c, a, s) = &self.call_log[i];
            let entry = (c.clone(), clone_strings(a), clone_opt(s));
            let ghost before = r@;
            r.push(entry);
            proof {
                assert(call_view(entry) == call_view(self.call_log@[i as int]));
                assert(calls_view(r@) =~= calls_view(before).push(call_view(entry)));
                assert(calls_view(self.call_log@.subrange(0, i + 1)) =~= calls_view(
                    self.call_log@.subrange(0, i as int),
                ).push(call_view(self.call_log@[i as int])));
            }
            i += 1;
        }
        assert(self.call_log@.subrange(0, self.call_log@.len() as int) == self.call_log@);
        r
    }

    /// Clear all registered responses and the call log.
    pub fn clear(&mut self)
        ensures
            final(self).replies() == Map::<CommandKey, Reply>::empty(),
            final(self).calls() == Seq::<Call>::empty(),
    {
        self.responses.clear();
        self.call_log.clear();
        assert(self.calls() =~= Seq::<Call>::empty());
    }

    /// The index of the last registration for `cmd args`, if any.
    fn find_response(&self, cmd: &str, args: &Vec<String>) -> (r: Option<usize>)
        ensures
            match r {
                Some(i) => i < self.responses@.len() && self.replies().contains_key(
                    (cmd@, views(args@)),
                ) && self.replies()[(cmd@, views(args@))] == response_reply(self.responses@[i as int]),
                None => !self.replies().contains_key((cmd@, views(args@))),
            },
    {
        let ghost key = (cmd@, views(args@));
        let mut j = self.responses.len();
        assert(self.responses@.subrange(0, j as int) == self.responses@);
        while j > 0
            invariant
                j <= self.responses@.len(),
                key == (cmd@, views(args@)),
                response_map(self.responses@).contains_key(key) == response_map(
                    self.responses@.subrange(0, j as int),
                ).contains_key(key),
                response_map(self.responses@).contains_key(key) ==> response_map(self.responses@)[key]
                    == response_map(self.responses@.subrange(0, j as int))[key],
            decreases j,
        {
            let ghost pre = self.responses@.subrange(0, j as int);
            assert(pre.drop_last() == self.responses@.subrange(0, j - 1));
            let r = &self.responses[j - 1];
            let same_cmd = str_eq_string(cmd, &r.cmd);
            let same_args = strings_eq(args, &r.args);
            if same_cmd && same_args {
                assert(response_key(*r) == key);
                return Some(j - 1);
            }
            assert(response_key(*r) != key);
            j -= 1;
        }
        assert(self.responses@.subrange(0, 0).len() == 0);
        None
    }
}

/// After a reply is registered for a command, the mock answers that command
/// with it, and every other command as before.
pub proof fn law_registered_reply_is_given(
    before: MockCommandRunner,
    after: MockCommandRunner,
    key: CommandKey,
    reply: Reply,
    other: CommandKey,
)
    requires
        after.replies() == before.replies().insert(key, reply),
        other != key,
    ensures
        after.reply_for(key) == reply,
        after.reply_for(other) == before.reply_for(other),
{
}

/// A mock without registered replies answers every command with empty
/// output and success.
pub proof fn law_unscripted_command_succeeds_silently(m: MockCommandRunner, key: CommandKey)
    requires
        m.replies() == Map::<CommandKey, Reply>::empty(),
    ensures
        m.reply_for(key) == default_reply(),
{
}

impl Default for MockCommandRunner {
    fn default() -> (r: Self)
        ensures
            r.replies() == Map::<CommandKey, Reply>::empty(),
            r.calls() == Seq::<Call>::empty(),
    {
        Self::new()
    }
}

impl CommandRunner for MockCommandRunner {
    /// Logs the call, then answers with the reply registered for the command,
    /// or with empty output and success when there is none.
    fn run(&mut self, cmd: &str, args: &[&str], stdin_input: Option<&str>) -> (r: Result<
        (String, String, bool),
    >)
        ensures
            final(self).calls() == old(self).calls().push(
                (cmd@, arg_views(args@), opt_str_view(stdin_input)),
            ),
            final(self).replies() == old(self).replies(),
            r matches Ok(out) && (out.0@, out.1@, out.2) == old(self).reply_for(
                (cmd@, arg_views(args@)),
            ),
    {
        let key_args = strings_of(args);
        let stdin_copy = match stdin_input {
            Some(s) => Some(str_to_string(s)),
            None => None,
        };
        let found = self.find_response(cmd, &key_args);
        let out = match found {
            Some(i) => {
                let resp = &self.responses[i];
                (resp.stdout.clone(), resp.stderr.clone(), resp.success)
            },
            None => (String::new(), String::new(), true),
        };
        let entry = (str_to_string(cmd), key_args, stdin_copy);
        let ghost log_before = self.call_log@;
        self.call_log.push(entry);
        assert(calls_view(self.call_log@) =~= calls_view(log_before).push(call_view(entry)));
        Ok(out)
    }
}

/// Runs `cmd` with the owned arguments `args`.
pub fn run_args<R: CommandRunner>(
    runner: &mut R,
    issued: &mut Ghost<Seq<Call>>,
    replies: &mut Ghost<Seq<Returned>>,
    cmd: &str,
    args: &Vec<String>,
    stdin_input: Option<&str>,
) -> (r: Result<(String, String, bool)>)
    ensures
        final(issued)@ == old(issued)@.push((cmd@, views(args@), opt_str_view(stdin_input))),
        final(replies)@ == old(replies)@.push(reply_of(r)),
{
    let mut refs: Vec<&str> = Vec::new();
    let mut i: usize = 0;
    while i < args.len()
        invariant
            i <= args@.len(),
            arg_views(refs@) == views(args@.subrange(0, i as int)),
        decreases args@.len() - i,
    {
        let ghost before = refs@;
        refs.push(args[i].as_str());
        proof {
            assert(arg_views(refs@) =~= arg_views(before).push(args@[i as int]@));
            assert(views(args@.subrange(0, i + 1)) =~= views(args@.subrange(0, i as int)).push(
                args@[i as int]@,
            ));
        }
        i += 1;
    }
    assert(args@.subrange(0, args@.len() as int) =~= args@);
    issue(runner, issued, replies, cmd, refs.as_slice(), stdin_input)
}

/// Appends an owned copy of `s` to `v`.
pub fn push_str(v: &mut Vec<String>, s: &str)
    ensures
        views(final(v)@) == views(old(v)@).push(s@),
{
    let x = str_to_string(s);
    v.push(x);
    assert(views(v@) =~= views(old(v)@).push(s@));
}

/// Owned copies of `args`.
pub fn strings_of(args: &[&str]) -> (r: Vec<String>)
    ensures
        views(r@) == arg_views(args@),
{
    let mut r: Vec<String> = Vec::new();
    let mut i: usize = 0;
    while i < args.len()
        invariant
            i <= args@.len(),
            views(r@) == arg_views(args@.subrange(0, i as int)),
        decreases args@.len() - i,
    {
        let ghost before = r@;
        let x = str_to_string(args[i]);
        r.push(x);
        proof {
            assert(views(r@) =~= views(before).push(x@));
            assert(arg_views(args@.subrange(0, i + 1)) =~= arg_views(args@.subrange(0, i as int)).push(
                args@[i as int]@,
            ));
        }
        i += 1;
    }
    assert(args@.subrange(0, args@.len() as int) == args@);
    r
}

fn clone_strings(a: &Vec<String>) -> (r: Vec<String>)
    ensures
        views(r@) == views(a@),
{
    let mut r: Vec<String> = Vec::new();
    let mut i: usize = 0;
    while i < a.len()
        invariant
            i <= a@.len(),
            views(r@) == views(a@.subrange(0, i as int)),
        decreases a@.len() - i,
    {
        let ghost before = r@;
        let x = a[i].clone();
        r.push(x);
        proof {
            assert(views(r@) =~= views(before).push(x@));
            assert(views(a@.subrange(0, i + 1)) =~= views(a@.subrange(0, i as int)).push(a@[i as int]@));
        }
        i += 1;
    }
    assert(a@.subrange(0, a@.len() as int) == a@);
    r
}

fn clone_opt(o: &Option<String>) -> (r: Option<String>)
    ensures
        opt_view(r) == opt_view(*o),
{
    match o {
        Some(s) => Some(s.clone()),
        None => None,
    }
}

fn str_eq_string(a: &str, b: &String) -> (r: bool)
    ensures
        r == (a@ == b@),
{
    crate::text::str_eq(a, b.as_str())
}

/// Whether two lists of strings hold the same texts.
pub fn strings_eq(a: &Vec<String>, b: &Vec<String>) -> (r: bool)
    ensures
        r == (views(a@) == views(b@)),
{
    if a.len() != b.len() {
        assert(views(a@).len() != views(b@).len());
        return false;
    }
    let mut i: usize = 0;
    while i < a.len()
        invariant
            i <= a@.len(),
            a@.len() == b@.len(),
            forall|k: int| 0 <= k < i ==> (#[trigger] a@[k])@ == b@[k]@,
        decreases a@.len() - i,
    {
        if a[i] != b[i] {
            assert(views(a@)[i as int] != views(b@)[i as int]);
            return false;
        }
        i += 1;
    }
    assert(views(a@) =~= views(b@));
    true
}

} // verus!
