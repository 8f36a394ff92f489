//! Errors of a run, and their messages.
use crate::result::CmdResult;
use vstd::prelude::*;
use vstd::string::*;

verus! {

/// `std::io::Error`, the reason a program could not be started; only carried here.
#[verifier::external_type_specification]
#[verifier::external_body]
pub struct ExIoError(std::io::Error);

/// Errors that can end a run.
#[derive(Debug)]
pub enum Error {
    /// The program could not be started (not found, permission denied, ...).
    Io(std::io::Error),
    /// The program exited unsuccessfully: its name, its arguments, the trimmed
    /// combined output and the result with its exit status.
    ScriptFailed(Box<(String, Vec<String>, String, CmdResult)>),
    /// A run could not proceed: no process identifier, no input stream, ...
    Internal(String),
    /// The run was stopped on request before the program exited by itself.
    Cancelled,
}

/// The result type of this crate.
pub type Result<T> = core::result::Result<T, Error>;

/// The character of a decimal digit.
pub open spec fn digit_char(d: nat) -> char {
    seq!['0', '1', '2', '3', '4', '5', '6', '7', '8', '9'][d as int]
}

/// The decimal digits of a natural number, without leading zeros.
pub open spec fn digits(n: nat) -> Seq<char>
    decreases n,
{
    if n < 10 {
        seq![digit_char(n)]
    } else {
        digits(n / 10) + seq![digit_char(n % 10)]
    }
}

/// The decimal text of an integer, with a leading minus sign when negative.
pub open spec fn decimal(n: int) -> Seq<char> {
    if n < 0 {
        seq!['-'] + digits((-n) as nat)
    } else {
        digits(n as nat)
    }
}

/// The decimal text of an `i32`, as its `Display` writes it.
pub fn decimal_text(n: i32) -> (r: String)
    ensures
        r@ == decimal(n as int),
{
    let table = "0123456789";
    proof {
        reveal_strlit("0123456789");
        assert(table@ =~= seq!['0', '1', '2', '3', '4', '5', '6', '7', '8', '9']);
    }
    let mut m: u64 = if n < 0 {
        (-(n as i64)) as u64
    } else {
        n as u64
    };
    let ghost total: nat = m as nat;
    // the digits are produced from the last one
    let mut rev: Vec<usize> = Vec::new();
    loop
        invariant_except_break
            digits(total) == digits(m as nat) + Seq::new(
                rev@.len(),
                |i: int| digit_char(rev@[rev@.len() - 1 - i] as nat),
            ),
        invariant
            table@ == seq!['0', '1', '2', '3', '4', '5', '6', '7', '8', '9'],
            forall|i: int| 0 <= i < rev@.len() ==> rev@[i] < 10,
        ensures
            digits(total) == Seq::new(
                rev@.len(),
                |i: int| digit_char(rev@[rev@.len() - 1 - i] as nat),
            ),
        decreases m,
    {
        let d = (m % 10) as usize;
        let ghost old_rev = rev@;
        rev.push(d);
        assert(seq![digit_char(d as nat)] + Seq::new(
            old_rev.len(),
            |i: int| digit_char(old_rev[old_rev.len() - 1 - i] as nat),
        ) =~= Seq::new(rev@.len(), |i: int| digit_char(rev@[rev@.len() - 1 - i] as nat)));
        if m < 10 {
            assert(digits(m as nat) =~= seq![digit_char(d as nat)]);
            break;
        }
        assert(digits(m as nat) == digits((m / 10) as nat) + seq![digit_char(d as nat)]);
        m = m / 10;
    }
    let mut out = String::new();
    if n < 0 {
        let minus = "-";
        proof {
            reveal_strlit("-");
        }
        out.append(minus);
    }
    let ghost prefix = out@;
    let mut i: usize = rev.len();
    while i > 0
        invariant
            i <= rev@.len(),
            table@ == seq!['0', '1', '2', '3', '4', '5', '6', '7', '8', '9'],
            forall|j: int| 0 <= j < rev@.len() ==> rev@[j] < 10,
            out@ == prefix + Seq::new(
                (rev@.len() - i) as nat,
                |j: int| digit_char(rev@[rev@.len() - 1 - j] as nat),
            ),
        decreases i,
    {
        i = i - 1;
        let d = rev[i];
        let piece = table.substring_char(d, d + 1);
        assert(piece@.len() == 1 && piece@[0] == table@[d as int]);
        assert(piece@ =~= seq![digit_char(d as nat)]);
        out.append(piece);
        assert(out@ =~= prefix + Seq::new(
            (rev@.len() - i) as nat,
            |j: int| digit_char(rev@[rev@.len() - 1 - j] as nat),
        ));
    }
    assert(Seq::new(
        (rev@.len() - 0) as nat,
        |j: int| digit_char(rev@[rev@.len() - 1 - j] as nat),
    ) =~= digits(total));
    out
}

/// How a status reads in an error message.
pub open spec fn render_exit_status_spec(result: CmdResult) -> Seq<char> {
    match result.status.code {
        Some(c) => "exit code "@ + decimal(c as int),
        None => "no exit status"@,
    }
}

/// Describes the exit status of a result: `exit code N`, or `no exit status`.
pub fn render_exit_status(result: &CmdResult) -> (r: String)
    ensures
        r@ == render_exit_status_spec(*result),
{
    match result.status.code {
        Some(c) => {
            let mut s = String::from_str("exit code ");
            let d = decimal_text(c);
            s.append(d.as_str());
            s
        },
        None => String::from_str("no exit status"),
    }
}

/// Relies on `std::io::Error`'s `Display` for the text of an I/O error.
#[verifier::external_body]
fn io_error_text(e: &std::io::Error) -> (r: String) {
    e.to_string()
}

impl Error {
    /// The message of an unsuccessful exit: program, status, then the output.
    pub open spec fn failure_message(program: Seq<char>, output: Seq<char>, result: CmdResult) -> Seq<char> {
        program + " exited with non-zero status: "@ + render_exit_status_spec(result) + "\n"@ + output
    }

    /// The error as text.
    pub fn message(&self) -> (r: String)
        ensures
            self is ScriptFailed ==> r@ == Error::failure_message(
                self->ScriptFailed_0.0@,
                self->ScriptFailed_0.2@,
                self->ScriptFailed_0.3,
            ),
            self is Internal ==> r@ == "internal error: "@ + self->Internal_0@,
            self is Cancelled ==> r@ == "cancelled"@,
    {
        match self {
            Error::Io(e) => io_error_text(e),
            Error::ScriptFailed(details) => {
                let mut s = String::from_str(details.0.as_str());
                s.append(" exited with non-zero status: ");
                let status = render_exit_status(&details.3);
                s.append(status.as_str());
                s.append("\n");
                s.append(details.2.as_str());
                s
            },
            Error::Internal(m) => {
                let mut s = String::from_str("internal error: ");
                s.append(m.as_str());
                s
            },
            Error::Cancelled => String::from_str("cancelled"),
        }
    }
}

} // verus!
