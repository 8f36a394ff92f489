//! The exit status of a child process and the output accumulated from it.
use vstd::prelude::*;
use vstd::string::*;

verus! {

/// How a child process ended: its exit code, or none when a signal ended it.
#[derive(Clone, Copy, Debug, PartialEq, Eq, Structural)]
pub struct ExitStatus {
    /// The exit code, `None` when the process was ended by a signal.
    pub code: Option<i32>,
}

impl ExitStatus {
    pub open spec fn success_spec(&self) -> bool {
        self.code == Some(0i32)
    }

    /// A status from an exit code, or from none at all.
    pub fn from_code(code: Option<i32>) -> (r: ExitStatus)
        ensures
            r.code == code,
    {
        ExitStatus { code }
    }

    pub fn code(&self) -> (r: Option<i32>)
        ensures
            r == self.code,
    {
        self.code
    }

    /// The process exited with code zero.
    pub fn success(&self) -> (r: bool)
        ensures
            r == self.success_spec(),
    {
        match self.code {
            Some(c) => c == 0,
            None => false,
        }
    }
}

impl Default for ExitStatus {
    /// The status of a process that exited successfully.
    fn default() -> (r: ExitStatus)
        ensures
            r.code == Some(0i32),
    {
        ExitStatus { code: Some(0) }
    }
}

/// Which output stream of the child a line came from.
#[derive(Clone, Copy, Debug, PartialEq, Eq, Structural)]
pub enum Stream {
    Stdout,
    Stderr,
}

/// A line followed by a newline.
pub open spec fn with_newline(line: Seq<char>) -> Seq<char> {
    line.push('\n')
}

/// Joins lines, each followed by a newline.
pub open spec fn transcript(lines: Seq<Seq<char>>) -> Seq<char>
    decreases lines.len(),
{
    if lines.len() == 0 {
        Seq::empty()
    } else {
        transcript(lines.drop_last()) + with_newline(lines.last())
    }
}

/// What a run of a child process produced.
#[derive(Debug, Clone)]
pub struct CmdResult {
    /// The lines of standard output, each followed by a newline.
    pub stdout: String,
    /// The lines of standard error, each followed by a newline.
    pub stderr: String,
    /// The lines of both streams in the order they arrived.
    pub combined_output: String,
    /// How the process ended.
    pub status: ExitStatus,
}

impl CmdResult {
    /// Every text field is empty.
    pub open spec fn is_empty_spec(&self) -> bool {
        &&& self.stdout@.len() == 0
        &&& self.stderr@.len() == 0
        &&& self.combined_output@.len() == 0
    }

    /// Appends a line, followed by a newline, to the field of its stream and to
    /// the combined output.
    pub fn record_line(&mut self, stream: Stream, line: &str)
        ensures
            final(self).status == old(self).status,
            final(self).combined_output@ == old(self).combined_output@ + with_newline(line@),
            stream == Stream::Stdout ==> final(self).stdout@ == old(self).stdout@ + with_newline(line@)
                && final(self).stderr@ == old(self).stderr@,
            stream == Stream::Stderr ==> final(self).stderr@ == old(self).stderr@ + with_newline(line@)
                && final(self).stdout@ == old(self).stdout@,
    {
        let nl = "\n";
        proof {
            reveal_strlit("\n");
        }
        match stream {
            Stream::Stdout => {
                self.stdout.append(line);
                self.stdout.append(nl);
            },
            Stream::Stderr => {
                self.stderr.append(line);
                self.stderr.append(nl);
            },
        }
        self.combined_output.append(line);
        self.combined_output.append(nl);
        assert(nl@ =~= seq!['\n']);
        assert(old(self).combined_output@ + line@ + nl@ =~= old(self).combined_output@ + with_newline(line@));
        assert(old(self).stdout@ + line@ + nl@ =~= old(self).stdout@ + with_newline(line@));
        assert(old(self).stderr@ + line@ + nl@ =~= old(self).stderr@ + with_newline(line@));
    }
}

impl Default for CmdResult {
    /// Empty output and the status of a successful exit.
    fn default() -> (r: CmdResult)
        ensures
            r.is_empty_spec(),
            r.status.code == Some(0i32),
    {
        CmdResult {
            stdout: String::new(),
            stderr: String::new(),
            combined_output: String::new(),
            status: ExitStatus::default(),
        }
    }
}

} // verus!
