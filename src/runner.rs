//! The configuration of a run, built by chained calls.
use crate::redact::{has_prefix, views};
use indexmap::IndexSet;
use std::sync::Arc;
use vstd::prelude::*;
use vstd::string::*;

verus! {

/// `indexmap::IndexSet`, the insertion-ordered set that holds the secrets.
#[verifier::external_type_specification]
#[verifier::external_body]
#[verifier::reject_recursive_types(T)]
#[verifier::reject_recursive_types(S)]
pub struct ExIndexSet<T, S>(indexmap::IndexSet<T, S>);

/// `clx::progress::ProgressJob`, the progress display a run reports to; only carried here.
#[verifier::external_type_specification]
#[verifier::external_body]
pub struct ExProgressJob(clx::progress::ProgressJob);

/// `tokio_util::sync::CancellationToken`, which stops a run; only carried here.
#[verifier::external_type_specification]
#[verifier::external_body]
pub struct ExCancellationToken(tokio_util::sync::CancellationToken);

/// The items of a set of strings, in insertion order.
pub uninterp spec fn set_items(s: IndexSet<String>) -> Seq<Seq<char>>;

/// Relies on `IndexSet::new`: a new set holds no item.
#[verifier::external_body]
fn empty_set() -> (r: IndexSet<String>)
    ensures
        set_items(r) == Seq::<Seq<char>>::empty(),
{
    IndexSet::new()
}

/// Relies on `IndexSet::insert`: an item equal to one already held leaves the
/// set as it was, another one goes last.
#[verifier::external_body]
fn set_insert(s: &mut IndexSet<String>, v: String) -> (r: bool)
    ensures
        r == !set_items(*old(s)).contains(v@),
        r ==> set_items(*final(s)) == set_items(*old(s)).push(v@),
        !r ==> set_items(*final(s)) == set_items(*old(s)),
{
    s.insert(v)
}

/// Relies on `IndexSet::iter`: the items in insertion order.
#[verifier::external_body]
fn set_to_vec(s: &IndexSet<String>) -> (r: Vec<String>)
    ensures
        views(r@) == set_items(*s),
{
    s.iter().cloned().collect()
}

/// What a standard stream of the child is connected to.
#[derive(Clone, Copy, Debug, PartialEq, Eq, Structural)]
pub enum StdioMode {
    /// Shared with the parent.
    Inherit,
    /// A pipe to the parent.
    Piped,
    /// Nothing: reads see end of input, writes are discarded.
    Null,
}

/// The words joined by single spaces.
pub open spec fn join_spaced(words: Seq<Seq<char>>) -> Seq<char>
    decreases words.len(),
{
    if words.len() == 0 {
        Seq::empty()
    } else if words.len() == 1 {
        words[0]
    } else {
        join_spaced(words.drop_last()) + " "@ + words.last()
    }
}

/// The items after inserting `vs` one by one, skipping those already held.
pub open spec fn insert_all(items: Seq<Seq<char>>, vs: Seq<Seq<char>>) -> Seq<Seq<char>>
    decreases vs.len(),
{
    if vs.len() == 0 {
        items
    } else {
        let before = insert_all(items, vs.drop_last());
        if before.contains(vs.last()) {
            before
        } else {
            before.push(vs.last())
        }
    }
}

/// Adding secrets keeps the set free of repeated items.
pub proof fn lemma_insert_all_unique(items: Seq<Seq<char>>, vs: Seq<Seq<char>>)
    requires
        items.no_duplicates(),
    ensures
        insert_all(items, vs).no_duplicates(),
        forall|i: int| 0 <= i < vs.len() ==> insert_all(items, vs).contains(#[trigger] vs[i]),
    decreases vs.len(),
{
    if vs.len() > 0 {
        let init = vs.drop_last();
        lemma_insert_all_unique(items, init);
        let before = insert_all(items, init);
        assert forall|i: int| 0 <= i < vs.len() implies insert_all(items, vs).contains(
            #[trigger] vs[i],
        ) by {
            if i < init.len() {
                assert(init[i] == vs[i]);
                assert(before.contains(vs[i]));
                if !before.contains(vs.last()) {
                    let j = choose|j: int| 0 <= j < before.len() && before[j] == vs[i];
                    assert(before.push(vs.last())[j] == vs[i]);
                }
            } else if !before.contains(vs.last()) {
                assert(before.push(vs.last())[before.len() as int] == vs.last());
            }
        }
    }
}

/// The program and the arguments, joined by single spaces.
pub open spec fn command_line(program: Seq<char>, args: Seq<Seq<char>>) -> Seq<char> {
    join_spaced(seq![program] + args)
}

/// The command line as shown, without the prefix of a shell invocation.
pub open spec fn display_spec(program: Seq<char>, args: Seq<Seq<char>>) -> Seq<char> {
    let c = command_line(program, args);
    let p = "sh -o errexit -c "@;
    if p.len() <= c.len() && c.subrange(0, p.len() as int) == p {
        c.subrange(p.len() as int, c.len() as int)
    } else {
        c
    }
}

/// The words of `v` joined by single spaces.
pub fn join_words(v: &Vec<String>) -> (r: String)
    ensures
        r@ == join_spaced(views(v@)),
{
    let mut out = String::new();
    let mut i: usize = 0;
    while i < v.len()
        invariant
            i <= v@.len(),
            out@ == join_spaced(views(v@.subrange(0, i as int))),
        decreases v@.len() - i,
    {
        let ghost pre = views(v@.subrange(0, i + 1));
        assert(pre.drop_last() =~= views(v@.subrange(0, i as int)));
        if i > 0 {
            out.append(" ");
        } else {
            assert(pre =~= seq![v@[0]@]);
        }
        out.append(v[i].as_str());
        i = i + 1;
    }
    assert(v@.subrange(0, v@.len() as int) =~= v@);
    out
}

/// A program to run and how to run it.
pub struct CmdLineRunner {
    /// The program, by name or path.
    pub program: String,
    /// The arguments, in order: handed to the program, shown and reported.
    pub args: Vec<String>,
    /// The directory the program starts in, when not the current one.
    pub current_dir: Option<String>,
    /// Whether the inherited environment is cleared first.
    pub env_clear: bool,
    /// Environment variables set for the program, in order.
    pub envs: Vec<(String, String)>,
    pub stdin_mode: StdioMode,
    pub stdout_mode: StdioMode,
    pub stderr_mode: StdioMode,
    /// The progress display that follows the run.
    pub pr: Option<Arc<clx::progress::ProgressJob>>,
    /// Text written to the program's standard input.
    pub stdin: Option<String>,
    /// Secrets replaced in every captured line.
    pub redactions: IndexSet<String>,
    pub pass_signals: bool,
    pub show_stderr_on_error: bool,
    pub stderr_to_progress: bool,
    pub allow_non_zero: bool,
    /// The token whose cancellation stops the run.
    pub cancel: Option<tokio_util::sync::CancellationToken>,
}

impl CmdLineRunner {
    /// A runner for `program` with no arguments, null input, piped output,
    /// no secrets and the error output shown on failure.
    pub fn new(program: &str) -> (r: CmdLineRunner)
        ensures
            r.program@ == program@,
            r.args@.len() == 0,
            r.current_dir is None,
            !r.env_clear,
            r.envs@.len() == 0,
            r.stdin_mode == StdioMode::Null,
            r.stdout_mode == StdioMode::Piped,
            r.stderr_mode == StdioMode::Piped,
            r.pr is None,
            r.stdin is None,
            set_items(r.redactions) == Seq::<Seq<char>>::empty(),
            !r.pass_signals,
            r.show_stderr_on_error,
            !r.stderr_to_progress,
            !r.allow_non_zero,
            r.cancel is None,
    {
        CmdLineRunner {
            program: String::from_str(program),
            args: Vec::new(),
            current_dir: None,
            env_clear: false,
            envs: Vec::new(),
            stdin_mode: StdioMode::Null,
            stdout_mode: StdioMode::Piped,
            stderr_mode: StdioMode::Piped,
            pr: None,
            stdin: None,
            redactions: empty_set(),
            pass_signals: false,
            show_stderr_on_error: true,
            stderr_to_progress: false,
            allow_non_zero: false,
            cancel: None,
        }
    }

    /// Connects the program's standard input.
    pub fn stdin(self, cfg: StdioMode) -> (r: CmdLineRunner)
        ensures
            r == (CmdLineRunner { stdin_mode: cfg, ..self }),
    {
        let mut this = self;
        this.stdin_mode = cfg;
        this
    }

    /// Connects the program's standard output.
    pub fn stdout(self, cfg: StdioMode) -> (r: CmdLineRunner)
        ensures
            r == (CmdLineRunner { stdout_mode: cfg, ..self }),
    {
        let mut this = self;
        this.stdout_mode = cfg;
        this
    }

    /// Connects the program's standard error.
    pub fn stderr(self, cfg: StdioMode) -> (r: CmdLineRunner)
        ensures
            r == (CmdLineRunner { stderr_mode: cfg, ..self }),
    {
        let mut this = self;
        this.stderr_mode = cfg;
        this
    }

    /// Adds secrets to replace by `[redacted]` in every captured line; one
    /// already present is not added again.
    pub fn redact(self, redactions: Vec<String>) -> (r: CmdLineRunner)
        ensures
            set_items(r.redactions) == insert_all(set_items(self.redactions), views(redactions@)),
            r == (CmdLineRunner { redactions: r.redactions, ..self }),
    {
        let ghost s0 = self;
        let mut this = self;
        let ghost start = set_items(this.redactions);
        let mut i: usize = 0;
        let n = redactions.len();
        while i < n
            invariant
                n == redactions@.len(),
                i <= n,
                this == (CmdLineRunner { redactions: this.redactions, ..s0 }),
                set_items(this.redactions) == insert_all(
                    start,
                    views(redactions@.subrange(0, i as int)),
                ),
            decreases n - i,
        {
            let ghost pre = views(redactions@.subrange(0, i + 1));
            assert(pre.drop_last() =~= views(redactions@.subrange(0, i as int)));
            let v = redactions[i].clone();
            set_insert(&mut this.redactions, v);
            i = i + 1;
        }
        assert(redactions@.subrange(0, n as int) =~= redactions@);
        this
    }

    /// Attaches a progress display.
    pub fn with_pr(self, pr: Arc<clx::progress::ProgressJob>) -> (r: CmdLineRunner)
        ensures
            r == (CmdLineRunner { pr: Some(pr), ..self }),
    {
        let mut this = self;
        this.pr = Some(pr);
        this
    }

    /// Sets the token whose cancellation stops the run.
    pub fn with_cancel_token(self, cancel: tokio_util::sync::CancellationToken) -> (r: CmdLineRunner)
        ensures
            r == (CmdLineRunner { cancel: Some(cancel), ..self }),
    {
        let mut this = self;
        this.cancel = Some(cancel);
        this
    }

    /// Whether the output is shown on the progress display when the run fails.
    pub fn show_stderr_on_error(self, show: bool) -> (r: CmdLineRunner)
        ensures
            r == (CmdLineRunner { show_stderr_on_error: show, ..self }),
    {
        let mut this = self;
        this.show_stderr_on_error = show;
        this
    }

    /// Whether error lines update the progress display instead of printing above it.
    pub fn stderr_to_progress(self, enable: bool) -> (r: CmdLineRunner)
        ensures
            r == (CmdLineRunner { stderr_to_progress: enable, ..self }),
    {
        let mut this = self;
        this.stderr_to_progress = enable;
        this
    }

    /// Whether a non-zero exit still counts as success.
    pub fn allow_non_zero(self, allow: bool) -> (r: CmdLineRunner)
        ensures
            r == (CmdLineRunner { allow_non_zero: allow, ..self }),
    {
        let mut this = self;
        this.allow_non_zero = allow;
        this
    }

    /// Sets the directory the program starts in.
    pub fn current_dir(self, dir: &str) -> (r: CmdLineRunner)
        ensures
            r.current_dir is Some && r.current_dir->0@ == dir@,
            r == (CmdLineRunner { current_dir: r.current_dir, ..self }),
    {
        let mut this = self;
        this.current_dir = Some(String::from_str(dir));
        this
    }

    /// Starts the program with no inherited environment and forgets the
    /// variables set so far.
    pub fn env_clear(self) -> (r: CmdLineRunner)
        ensures
            r.env_clear,
            r.envs@.len() == 0,
            r == (CmdLineRunner { env_clear: true, envs: r.envs, ..self }),
    {
        let mut this = self;
        this.env_clear = true;
        this.envs = Vec::new();
        this
    }

    /// Sets an environment variable for the program.
    pub fn env(self, key: &str, val: &str) -> (r: CmdLineRunner)
        ensures
            r.envs@.len() == self.envs@.len() + 1,
            r.envs@.subrange(0, self.envs@.len() as int) == self.envs@,
            r.envs@.last().0@ == key@,
            r.envs@.last().1@ == val@,
            r == (CmdLineRunner { envs: r.envs, ..self }),
    {
        let mut this = self;
        let ghost before = this.envs@;
        this.envs.push((String::from_str(key), String::from_str(val)));
        assert(this.envs@.subrange(0, before.len() as int) =~= before);
        this
    }

    /// Sets several environment variables for the program, in order.
    pub fn envs(self, vars: &[(&str, &str)]) -> (r: CmdLineRunner)
        ensures
            r.envs@.len() == self.envs@.len() + vars@.len(),
            r.envs@.subrange(0, self.envs@.len() as int) == self.envs@,
            forall|i: int|
                0 <= i < vars@.len() ==> (#[trigger] r.envs@[self.envs@.len() + i]).0@ == vars@[i].0@
                    && r.envs@[self.envs@.len() + i].1@ == vars@[i].1@,
            r == (CmdLineRunner { envs: r.envs, ..self }),
    {
        let ghost s0 = self;
        let mut this = self;
        let ghost before = this.envs@;
        let mut i: usize = 0;
        while i < vars.len()
            invariant
                i <= vars@.len(),
                this == (CmdLineRunner { envs: this.envs, ..s0 }),
                this.envs@.len() == before.len() + i,
                this.envs@.subrange(0, before.len() as int) == before,
                forall|j: int|
                    0 <= j < i ==> (#[trigger] this.envs@[before.len() + j]).0@ == vars@[j].0@
                        && this.envs@[before.len() + j].1@ == vars@[j].1@,
            decreases vars@.len() - i,
        {
            let (k, v) = vars[i];
            this.envs.push((String::from_str(k), String::from_str(v)));
            assert(this.envs@.subrange(0, before.len() as int) =~= before);
            i = i + 1;
        }
        this
    }

    /// Adds an argument when there is one, as `arg` does.
    pub fn opt_arg(self, arg: Option<&str>) -> (r: CmdLineRunner)
        ensures
            arg is None ==> r == self,
            arg is Some ==> views(r.args@) == views(self.args@).push(arg->0@) && r == (CmdLineRunner {
                args: r.args,
                ..self
            }),
    {
        match arg {
            Some(a) => self.arg(a),
            None => self,
        }
    }

    /// Adds an argument.
    pub fn arg(self, arg: &str) -> (r: CmdLineRunner)
        ensures
            views(r.args@) == views(self.args@).push(arg@),
            r == (CmdLineRunner { args: r.args, ..self }),
    {
        let mut this = self;
        let ghost args0 = this.args@;
        this.args.push(String::from_str(arg));
        assert(views(this.args@) =~= views(args0).push(arg@));
        this
    }

    /// Adds arguments, in order.
    pub fn args(self, args: &[&str]) -> (r: CmdLineRunner)
        ensures
            views(r.args@) == views(self.args@) + args@.map_values(|a: &str| a@),
            r == (CmdLineRunner { args: r.args, ..self }),
    {
        let ghost s0 = self;
        let mut this = self;
        let ghost args0 = views(this.args@);
        let mut i: usize = 0;
        while i < args.len()
            invariant
                i <= args@.len(),
                this == (CmdLineRunner { args: this.args, ..s0 }),
                views(this.args@) == args0 + args@.subrange(0, i as int).map_values(|a: &str| a@),
            decreases args@.len() - i,
        {
            let a = args[i];
            assert(args@.subrange(0, i + 1).map_values(|a: &str| a@) =~= args@.subrange(
                0,
                i as int,
            ).map_values(|a: &str| a@).push(a@));
            let ghost pa = this.args@;
            this.args.push(String::from_str(a));
            assert(views(this.args@) =~= views(pa).push(a@));
            i = i + 1;
            assert(views(this.args@) =~= args0 + args@.subrange(0, i as int).map_values(
                |a: &str| a@,
            ));
        }
        assert(args@.subrange(0, args@.len() as int) =~= args@);
        this
    }

    /// Marks signals as to be passed on to the program.
    pub fn with_pass_signals(&mut self) -> (r: &mut CmdLineRunner)
        ensures
            *r == (CmdLineRunner { pass_signals: true, ..*old(self) }),
            *final(self) == *final(r),
    {
        self.pass_signals = true;
        self
    }

    /// Pipes `input` to the program's standard input.
    pub fn stdin_string(self, input: &str) -> (r: CmdLineRunner)
        ensures
            r.stdin is Some && r.stdin->0@ == input@,
            r == (CmdLineRunner { stdin_mode: StdioMode::Piped, stdin: r.stdin, ..self }),
    {
        let mut this = self;
        this.stdin_mode = StdioMode::Piped;
        this.stdin = Some(String::from_str(input));
        this
    }

    /// The secrets, in the order they were added.
    pub fn redaction_list(&self) -> (r: Vec<String>)
        ensures
            views(r@) == set_items(self.redactions),
    {
        set_to_vec(&self.redactions)
    }

    /// The program and its arguments, separated by single spaces.
    pub fn debug_string(&self) -> (r: String)
        ensures
            r@ == command_line(self.program@, views(self.args@)),
    {
        let mut words: Vec<String> = Vec::new();
        words.push(self.program.clone());
        let mut i: usize = 0;
        while i < self.args.len()
            invariant
                i <= self.args@.len(),
                views(words@) == seq![self.program@] + views(self.args@.subrange(0, i as int)),
            decreases self.args@.len() - i,
        {
            let ghost prev = words@;
            words.push(self.args[i].clone());
            assert(views(words@) =~= views(prev).push(self.args@[i as int]@));
            assert(views(self.args@.subrange(0, i + 1)) =~= views(self.args@.subrange(0, i as int)).push(
                self.args@[i as int]@,
            ));
            i = i + 1;
            assert(views(words@) =~= seq![self.program@] + views(self.args@.subrange(0, i as int)));
        }
        assert(self.args@.subrange(0, self.args@.len() as int) =~= self.args@);
        join_words(&words)
    }

    /// The command line as shown to people: program and arguments, with
    /// the prefix `sh -o errexit -c ` of a shell invocation left out.
    pub fn display_string(&self) -> (r: String)
        ensures
            r@ == display_spec(self.program@, views(self.args@)),
    {
        let c = self.debug_string();
        let prefix = "sh -o errexit -c ";
        proof {
            reveal_strlit("sh -o errexit -c ");
        }
        if has_prefix(c.as_str(), prefix) {
            let n = c.as_str().unicode_len();
            let rest = c.as_str().substring_char(17, n);
            String::from_str(rest)
        } else {
            c
        }
    }
}

} // verus!
