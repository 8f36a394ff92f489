//! The decisions of one run of a child process, as a state machine.
//!
//! The caller spawns the process, reads its output streams, writes its input,
//! waits for it and watches the cancellation token. It reports each of these
//! events to a `Session`, which keeps the result, applies the redaction and
//! says what the progress display is to show. Once the process has exited and
//! every stream is drained, `finish` decides the outcome.
use crate::error::{Error, Result};
use crate::redact::{redact, redact_spec, views};
use crate::result::{transcript, with_newline, CmdResult, ExitStatus, Stream};
use crate::runner::{display_spec, set_items, CmdLineRunner, StdioMode};
use vstd::prelude::*;
use vstd::string::*;

verus! {

/// A character of Unicode's White_Space property.
pub open spec fn is_white_space(c: char) -> bool {
    ||| '\u{9}' <= c <= '\u{d}'
    ||| c == ' '
    ||| c == '\u{85}'
    ||| c == '\u{a0}'
    ||| c == '\u{1680}'
    ||| '\u{2000}' <= c <= '\u{200a}'
    ||| c == '\u{2028}'
    ||| c == '\u{2029}'
    ||| c == '\u{202f}'
    ||| c == '\u{205f}'
    ||| c == '\u{3000}'
}

/// The text without its leading white space.
pub open spec fn trim_start_spec(s: Seq<char>) -> Seq<char>
    decreases s.len(),
{
    if s.len() > 0 && is_white_space(s[0]) {
        trim_start_spec(s.drop_first())
    } else {
        s
    }
}

/// The text without its trailing white space.
pub open spec fn trim_end_spec(s: Seq<char>) -> Seq<char>
    decreases s.len(),
{
    if s.len() > 0 && is_white_space(s.last()) {
        trim_end_spec(s.drop_last())
    } else {
        s
    }
}

/// The text with leading and trailing white space removed.
pub open spec fn trimmed(s: Seq<char>) -> Seq<char> {
    trim_end_spec(trim_start_spec(s))
}

/// Relies on `str::trim`: the text without its leading and trailing
/// characters of the White_Space property.
#[verifier::external_body]
fn trim_text(s: &str) -> (r: String)
    ensures
        r@ == trimmed(s@),
{
    s.trim().to_string()
}

/// The state shown by the progress display.
#[derive(Clone, Copy, Debug, PartialEq, Eq, Structural)]
pub enum JobStatus {
    Running,
    Done,
    Failed,
}

/// What the progress display is asked to do.
#[derive(Debug)]
pub enum SinkAction {
    /// Set a property: key, value.
    Prop(String, String),
    /// Redraw.
    Update,
    /// Print a text above the display.
    Println(String),
    /// Change the shown state.
    Status(JobStatus),
}

pub open spec fn is_prop(a: SinkAction, key: Seq<char>, val: Seq<char>) -> bool {
    a is Prop && a->Prop_0@ == key && a->Prop_1@ == val
}

pub open spec fn is_println(a: SinkAction, text: Seq<char>) -> bool {
    a is Println && a->Println_0@ == text
}

pub open spec fn is_status(a: SinkAction, st: JobStatus) -> bool {
    a is Status && a->Status_0 == st
}

/// The redacted lines that arrived, in arrival order; with `only`, those of one stream.
pub open spec fn redacted_lines(
    arrivals: Seq<(Stream, Seq<char>)>,
    secrets: Seq<Seq<char>>,
    only: Option<Stream>,
) -> Seq<Seq<char>>
    decreases arrivals.len(),
{
    if arrivals.len() == 0 {
        Seq::empty()
    } else {
        let prev = redacted_lines(arrivals.drop_last(), secrets, only);
        let (s, l) = arrivals.last();
        if only is None || only == Some(s) {
            prev.push(redact_spec(l, secrets))
        } else {
            prev
        }
    }
}

/// How a run ends, once it has settled.
#[derive(Clone, Copy, Debug, PartialEq, Eq, Structural)]
pub enum Outcome {
    /// The process has not exited, or a stream is not drained yet.
    Pending,
    /// Cancellation came before the process exited.
    Cancelled,
    /// The process exited with code zero, or a non-zero exit is allowed.
    Succeeded,
    /// The process exited unsuccessfully.
    Failed,
}

/// One run: its settings, the output so far and what has happened.
pub struct Session {
    pub program: String,
    /// The arguments, as shown and reported.
    pub args: Vec<String>,
    /// The secrets, in order.
    pub redactions: Vec<String>,
    /// Whether a progress display follows the run.
    pub has_sink: bool,
    pub stderr_to_progress: bool,
    pub show_stderr_on_error: bool,
    pub allow_non_zero: bool,
    /// The output so far and, once exited, the status.
    pub result: CmdResult,
    /// The process has been waited for.
    pub exited: bool,
    /// Cancellation was requested before the process exited.
    pub cancelled: bool,
    /// The standard output is still being read.
    pub stdout_open: bool,
    /// The standard error is still being read.
    pub stderr_open: bool,
    /// The input text is still being written.
    pub stdin_pending: bool,
    /// Every line read, before redaction, with its stream, in arrival order.
    pub arrivals: Ghost<Seq<(Stream, Seq<char>)>>,
    /// The identifier of the process, tracked in the registry while it runs.
    pub pid: u32,
}

/// What `conclude` returns for a session and the trimmed combined output.
pub open spec fn concluded(s: Session, output: Seq<char>, r: (Result<CmdResult>, Vec<SinkAction>)) -> bool {
    let (res, acts) = r;
    match s.outcome() {
        Outcome::Pending => res is Err && res->Err_0 is Internal && acts@.len() == 0,
        Outcome::Cancelled => {
            &&& res is Err
            &&& res->Err_0 is Cancelled
            &&& s.has_sink ==> acts@.len() == 1 && is_status(acts@[0], JobStatus::Failed)
            &&& !s.has_sink ==> acts@.len() == 0
        },
        Outcome::Succeeded => {
            &&& res == Ok::<CmdResult, Error>(s.result)
            &&& s.has_sink ==> acts@.len() == 1 && is_status(acts@[0], JobStatus::Done)
            &&& !s.has_sink ==> acts@.len() == 0
        },
        Outcome::Failed => {
            &&& res is Err
            &&& res->Err_0 is ScriptFailed
            &&& res->Err_0->ScriptFailed_0.0 == s.program
            &&& res->Err_0->ScriptFailed_0.1 == s.args
            &&& res->Err_0->ScriptFailed_0.2@ == output
            &&& res->Err_0->ScriptFailed_0.3 == s.result
            &&& s.has_sink && s.show_stderr_on_error ==> acts@.len() == 2 && is_status(
                acts@[0],
                JobStatus::Failed,
            ) && is_println(acts@[1], output)
            &&& s.has_sink && !s.show_stderr_on_error ==> acts@.len() == 1 && is_status(
                acts@[0],
                JobStatus::Failed,
            )
            &&& !s.has_sink ==> acts@.len() == 0
        },
    }
}

fn copy_strings(v: &Vec<String>) -> (r: Vec<String>)
    ensures
        r@ == v@,
{
    let mut r: Vec<String> = Vec::new();
    let mut i: usize = 0;
    while i < v.len()
        invariant
            i <= v@.len(),
            r@ == v@.subrange(0, i as int),
        decreases v@.len() - i,
    {
        r.push(v[i].clone());
        i = i + 1;
        assert(r@ =~= v@.subrange(0, i as int));
    }
    assert(v@.subrange(0, v@.len() as int) =~= v@);
    r
}

impl Session {
    /// The output fields hold exactly the redacted lines that arrived, each
    /// followed by a newline: per stream, and both streams in arrival order.
    pub open spec fn wf(&self) -> bool {
        let secrets = views(self.redactions@);
        &&& self.result.stdout@ == transcript(
            redacted_lines(self.arrivals@, secrets, Some(Stream::Stdout)),
        )
        &&& self.result.stderr@ == transcript(
            redacted_lines(self.arrivals@, secrets, Some(Stream::Stderr)),
        )
        &&& self.result.combined_output@ == transcript(redacted_lines(self.arrivals@, secrets, None))
    }

    /// The process has exited and every stream and the input are done with.
    pub open spec fn settled(&self) -> bool {
        self.exited && !self.stdout_open && !self.stderr_open && !self.stdin_pending
    }

    pub open spec fn outcome(&self) -> Outcome {
        if !self.settled() {
            Outcome::Pending
        } else if self.cancelled {
            Outcome::Cancelled
        } else if self.result.status.success_spec() || self.allow_non_zero {
            Outcome::Succeeded
        } else {
            Outcome::Failed
        }
    }

    /// The session of process `pid` just spawned for `runner`, and what the
    /// progress display is to show: the command line, an empty output line,
    /// and the running state.
    pub fn start(runner: &CmdLineRunner, pid: u32) -> (r: (Session, Vec<SinkAction>))
        ensures
            r.0.wf(),
            r.0.pid == pid,
            r.0.program@ == runner.program@,
            r.0.args@ == runner.args@,
            views(r.0.redactions@) == set_items(runner.redactions),
            r.0.has_sink == runner.pr is Some,
            r.0.stderr_to_progress == runner.stderr_to_progress,
            r.0.show_stderr_on_error == runner.show_stderr_on_error,
            r.0.allow_non_zero == runner.allow_non_zero,
            r.0.result.is_empty_spec(),
            !r.0.exited,
            !r.0.cancelled,
            r.0.stdout_open == (runner.stdout_mode == StdioMode::Piped),
            r.0.stderr_open == (runner.stderr_mode == StdioMode::Piped),
            r.0.stdin_pending == runner.stdin is Some,
            r.0.arrivals@.len() == 0,
            runner.pr is Some ==> r.1@.len() == 3 && is_prop(
                r.1@[0],
                "ensembler_cmd"@,
                display_spec(runner.program@, views(runner.args@)),
            ) && is_prop(r.1@[1], "ensembler_stdout"@, Seq::empty()) && is_status(
                r.1@[2],
                JobStatus::Running,
            ),
            runner.pr is None ==> r.1@.len() == 0,
    {
        let s = Session {
            program: runner.program.clone(),
            args: copy_strings(&runner.args),
            redactions: runner.redaction_list(),
            has_sink: runner.pr.is_some(),
            stderr_to_progress: runner.stderr_to_progress,
            show_stderr_on_error: runner.show_stderr_on_error,
            allow_non_zero: runner.allow_non_zero,
            result: CmdResult::default(),
            exited: false,
            cancelled: false,
            stdout_open: runner.stdout_mode == StdioMode::Piped,
            stderr_open: runner.stderr_mode == StdioMode::Piped,
            stdin_pending: runner.stdin.is_some(),
            arrivals: Ghost(Seq::empty()),
            pid,
        };
        proof {
            let e = Seq::<(Stream, Seq<char>)>::empty();
            let sec = views(s.redactions@);
            assert(redacted_lines(e, sec, None) == Seq::<Seq<char>>::empty());
            assert(redacted_lines(e, sec, Some(Stream::Stdout)) == Seq::<Seq<char>>::empty());
            assert(redacted_lines(e, sec, Some(Stream::Stderr)) == Seq::<Seq<char>>::empty());
            assert(transcript(Seq::<Seq<char>>::empty()) =~= Seq::<char>::empty());
            assert(s.result.stdout@ =~= Seq::<char>::empty());
            assert(s.result.stderr@ =~= Seq::<char>::empty());
            assert(s.result.combined_output@ =~= Seq::<char>::empty());
        }
        let mut acts: Vec<SinkAction> = Vec::new();
        if runner.pr.is_some() {
            acts.push(SinkAction::Prop(String::from_str("ensembler_cmd"), runner.display_string()));
            acts.push(SinkAction::Prop(String::from_str("ensembler_stdout"), String::new()));
            acts.push(SinkAction::Status(JobStatus::Running));
        }
        (s, acts)
    }

    /// A line read from one of the output streams: it is redacted, appended
    /// with a newline to its stream's output and to the combined output, and
    /// shown. An output line, or an error line when error output goes to the
    /// display, becomes the display's output property and a redraw; another
    /// error line is printed above the display.
    pub fn on_line(&mut self, stream: Stream, line: &str) -> (r: Vec<SinkAction>)
        requires
            stream == Stream::Stdout ==> old(self).stdout_open,
            stream == Stream::Stderr ==> old(self).stderr_open,
        ensures
            ({
                let red = redact_spec(line@, views(old(self).redactions@));
                &&& final(self).arrivals@ == old(self).arrivals@.push((stream, line@))
                &&& final(self).result.combined_output@ == old(self).result.combined_output@
                    + with_newline(red)
                &&& stream == Stream::Stdout ==> final(self).result.stdout@
                    == old(self).result.stdout@ + with_newline(red) && final(self).result.stderr@
                    == old(self).result.stderr@
                &&& stream == Stream::Stderr ==> final(self).result.stderr@
                    == old(self).result.stderr@ + with_newline(red) && final(self).result.stdout@
                    == old(self).result.stdout@
                &&& old(self).has_sink && (stream == Stream::Stdout || old(self).stderr_to_progress)
                    ==> r@.len() == 2 && is_prop(r@[0], "ensembler_stdout"@, red) && r@[1] is Update
                &&& old(self).has_sink && stream == Stream::Stderr && !old(self).stderr_to_progress
                    ==> r@.len() == 1 && is_println(r@[0], red)
            }),
            !old(self).has_sink ==> r@.len() == 0,
            final(self).result.status == old(self).result.status,
            *final(self) == (Session {
                result: final(self).result,
                arrivals: final(self).arrivals,
                ..*old(self)
            }),
            old(self).wf() ==> final(self).wf(),
    {
        let red = redact(line, &self.redactions);
        let ghost secrets = views(self.redactions@);
        let ghost before = self.arrivals@;
        self.result.record_line(stream, red.as_str());
        self.arrivals = Ghost(self.arrivals@.push((stream, line@)));
        proof {
            let after = self.arrivals@;
            assert(after.drop_last() =~= before);
            let rl = redact_spec(line@, secrets);
            let all0 = redacted_lines(before, secrets, None);
            assert(all0.push(rl).drop_last() =~= all0);
            let o0 = redacted_lines(before, secrets, Some(Stream::Stdout));
            assert(o0.push(rl).drop_last() =~= o0);
            let e0 = redacted_lines(before, secrets, Some(Stream::Stderr));
            assert(e0.push(rl).drop_last() =~= e0);
        }
        let mut acts: Vec<SinkAction> = Vec::new();
        if self.has_sink {
            if stream == Stream::Stdout || self.stderr_to_progress {
                acts.push(SinkAction::Prop(String::from_str("ensembler_stdout"), red));
                acts.push(SinkAction::Update);
            } else {
                acts.push(SinkAction::Println(red));
            }
        }
        acts
    }

    /// Whether lines of `stream` are still being read.
    pub fn is_open(&self, stream: Stream) -> (r: bool)
        ensures
            r == (if stream == Stream::Stdout {
                self.stdout_open
            } else {
                self.stderr_open
            }),
    {
        match stream {
            Stream::Stdout => self.stdout_open,
            Stream::Stderr => self.stderr_open,
        }
    }

    /// One of the output streams reached its end, or was never piped.
    pub fn on_stream_closed(&mut self, stream: Stream)
        ensures
            stream == Stream::Stdout ==> *final(self) == (Session {
                stdout_open: false,
                ..*old(self)
            }),
            stream == Stream::Stderr ==> *final(self) == (Session {
                stderr_open: false,
                ..*old(self)
            }),
    {
        match stream {
            Stream::Stdout => self.stdout_open = false,
            Stream::Stderr => self.stderr_open = false,
        }
    }

    /// The input text was written, or writing it failed: either way it is done.
    pub fn on_stdin_done(&mut self)
        ensures
            *final(self) == (Session { stdin_pending: false, ..*old(self) }),
    {
        self.stdin_pending = false;
    }

    /// Cancellation was requested. Before the process has exited the run
    /// becomes cancelled and the result is true: the process is to be killed,
    /// and then still waited for. After the exit it changes nothing.
    pub fn on_cancel(&mut self) -> (kill: bool)
        ensures
            kill == !old(self).exited,
            *final(self) == (Session {
                cancelled: old(self).cancelled || !old(self).exited,
                ..*old(self)
            }),
    {
        if !self.exited {
            self.cancelled = true;
            true
        } else {
            false
        }
    }

    /// The wait for the process returned `status`. The result is the process
    /// identifier to release from the registry: given on the first exit only,
    /// so it is released exactly once and only after the wait.
    pub fn on_exit(&mut self, status: ExitStatus) -> (release: Option<u32>)
        ensures
            release == (if old(self).exited {
                None
            } else {
                Some(old(self).pid)
            }),
            *final(self) == (Session {
                exited: true,
                result: (CmdResult { status: status, ..old(self).result }),
                ..*old(self)
            }),
    {
        let release = if self.exited {
            None
        } else {
            Some(self.pid)
        };
        self.exited = true;
        self.result.status = status;
        release
    }

    /// Whether the outcome can be decided.
    pub fn is_settled(&self) -> (r: bool)
        ensures
            r == self.settled(),
    {
        self.exited && !self.stdout_open && !self.stderr_open && !self.stdin_pending
    }

    /// The outcome, given the trimmed combined output: the result when the run
    /// succeeded, `Cancelled`, or `ScriptFailed` with program, arguments, that
    /// output and the result; with what the progress display is to show.
    pub fn conclude(self, output: String) -> (r: (Result<CmdResult>, Vec<SinkAction>))
        ensures
            concluded(self, output@, r),
    {
        let mut acts: Vec<SinkAction> = Vec::new();
        if !self.is_settled() {
            return (
                Err(Error::Internal(String::from_str("the run was read before it settled"))),
                acts,
            );
        }
        if self.cancelled {
            if self.has_sink {
                acts.push(SinkAction::Status(JobStatus::Failed));
            }
            return (Err(Error::Cancelled), acts);
        }
        if self.result.status.success() || self.allow_non_zero {
            if self.has_sink {
                acts.push(SinkAction::Status(JobStatus::Done));
            }
            return (Ok(self.result), acts);
        }
        if self.has_sink {
            acts.push(SinkAction::Status(JobStatus::Failed));
            if self.show_stderr_on_error {
                acts.push(SinkAction::Println(output.clone()));
            }
        }
        (Err(Error::ScriptFailed(Box::new((self.program, self.args, output, self.result)))), acts)
    }

    /// The outcome of a settled run, as `conclude` gives it for the combined
    /// output with its surrounding white space trimmed.
    pub fn finish(self) -> (r: (Result<CmdResult>, Vec<SinkAction>))
        ensures
            concluded(self, trimmed(self.result.combined_output@), r),
    {
        let output = trim_text(self.result.combined_output.as_str());
        self.conclude(output)
    }

    /// The input text was to be written but the process has no input stream:
    /// the run fails with an internal error and the display shows failure.
    pub fn stdin_unavailable(&self) -> (r: (Error, Vec<SinkAction>))
        ensures
            r.0 is Internal,
            r.0->Internal_0@ == "stdin was requested but not available"@,
            self.has_sink ==> r.1@.len() == 1 && is_status(r.1@[0], JobStatus::Failed),
            !self.has_sink ==> r.1@.len() == 0,
    {
        let mut acts: Vec<SinkAction> = Vec::new();
        if self.has_sink {
            acts.push(SinkAction::Status(JobStatus::Failed));
        }
        (Error::Internal(String::from_str("stdin was requested but not available")), acts)
    }
}

/// The combined output holds exactly the lines of the two streams: as many
/// as the standard output and the standard error hold together.
pub proof fn lemma_combined_interleaves_streams(
    arrivals: Seq<(Stream, Seq<char>)>,
    secrets: Seq<Seq<char>>,
)
    ensures
        redacted_lines(arrivals, secrets, None).len() == redacted_lines(
            arrivals,
            secrets,
            Some(Stream::Stdout),
        ).len() + redacted_lines(arrivals, secrets, Some(Stream::Stderr)).len(),
    decreases arrivals.len(),
{
    if arrivals.len() > 0 {
        lemma_combined_interleaves_streams(arrivals.drop_last(), secrets);
    }
}

/// A non-empty transcript ends with a newline, and each line adds its length
/// plus one.
pub proof fn lemma_transcript_newlines(lines: Seq<Seq<char>>)
    ensures
        lines.len() > 0 ==> transcript(lines).len() > 0 && transcript(lines).last() == '\n',
        lines.len() > 0 ==> transcript(lines).len() == transcript(lines.drop_last()).len()
            + lines.last().len() + 1,
{
}

/// Two runs that received the same lines, with the same secrets, and ended
/// with the same status have the same result.
pub proof fn lemma_same_lines_same_result(a: Session, b: Session)
    requires
        a.wf(),
        b.wf(),
        a.arrivals@ == b.arrivals@,
        views(a.redactions@) == views(b.redactions@),
        a.result.status == b.result.status,
    ensures
        a.result.stdout@ == b.result.stdout@,
        a.result.stderr@ == b.result.stderr@,
        a.result.combined_output@ == b.result.combined_output@,
        a.result.status == b.result.status,
{
}

/// A run that is cancelled never succeeds nor fails by its exit status.
pub proof fn lemma_cancelled_ends_cancelled(s: Session)
    requires
        s.cancelled,
    ensures
        s.outcome() == Outcome::Pending || s.outcome() == Outcome::Cancelled,
        s.settled() ==> s.outcome() == Outcome::Cancelled,
{
}

/// Cancellation before the exit, then the exit with any status: the run is
/// cancelled, and once its streams are drained that is its outcome.
pub proof fn lemma_cancel_before_exit(s: Session, status: ExitStatus)
    requires
        !s.exited,
    ensures
        ({
            let c = Session { cancelled: s.cancelled || !s.exited, ..s };
            let e = Session {
                exited: true,
                result: (CmdResult { status: status, ..c.result }),
                ..c
            };
            &&& e.cancelled
            &&& !e.stdout_open && !e.stderr_open && !e.stdin_pending ==> e.outcome()
                == Outcome::Cancelled
        }),
{
}

/// With a non-zero exit allowed, a run that was not cancelled succeeds once
/// settled, whatever its exit status.
pub proof fn lemma_allowed_exit_succeeds(s: Session)
    requires
        s.allow_non_zero,
        !s.cancelled,
        s.settled(),
    ensures
        s.outcome() == Outcome::Succeeded,
{
}

} // verus!
