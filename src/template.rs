use vstd::prelude::*;
use crate::config::{Runner, Test, Tool, runner_index};
use crate::error::RunFailure;

verus! {

/// The characters of `s`, in order.
fn chars_of(s: &str) -> (r: Vec<char>)
    ensures
        r@ == s@,
{
    broadcast use vstd::string::axiom_spec_iter;

    let mut out: Vec<char> = Vec::new();
    for c in it: s.chars()
        invariant
            it.seq() == s@,
            out@.len() == it.index(),
            out@ == s@.take(out@.len() as int),
    {
        proof {
            assert(s@.take(it.index() + 1) =~= s@.take(it.index() as int).push(c));
        }
        out.push(c);
    }
    proof {
        assert(out@ =~= s@);
    }
    out
}

/// Relies on String's FromIterator<&char>: the string of the characters `cs`,
/// in order.
#[verifier::external_body]
fn string_of(cs: &Vec<char>) -> (r: String)
    ensures
        r@ == cs@,
{
    String::from_iter(cs)
}

/// `p` occurs in `s` at position `i`.
pub open spec fn occurs_at(s: Seq<char>, p: Seq<char>, i: int) -> bool {
    0 <= i && i + p.len() <= s.len() && s.subrange(i, i + p.len()) == p
}

/// `p` occurs somewhere in `s`.
pub open spec fn contains_seq(s: Seq<char>, p: Seq<char>) -> bool {
    exists|i: int| occurs_at(s, p, i)
}

/// `s` with every occurrence of the non-empty `p` replaced by `r`, scanning left
/// to right without overlaps.
pub open spec fn replace_all(s: Seq<char>, p: Seq<char>, r: Seq<char>) -> Seq<char>
    decreases s.len(),
{
    if p.len() == 0 || s.len() < p.len() {
        s
    } else if s.take(p.len() as int) == p {
        r + replace_all(s.skip(p.len() as int), p, r)
    } else {
        seq![s[0]] + replace_all(s.skip(1), p, r)
    }
}

/// The members of `v` joined by `sep`.
pub open spec fn join(v: Seq<Seq<char>>, sep: Seq<char>) -> Seq<char>
    decreases v.len(),
{
    if v.len() == 0 {
        Seq::empty()
    } else if v.len() == 1 {
        v[0]
    } else {
        join(v.drop_last(), sep) + sep + v.last()
    }
}

/// The views of a list of strings.
pub open spec fn views(v: Seq<String>) -> Seq<Seq<char>> {
    v.map_values(|s: String| s@)
}

/// Each member of `v` between single quotes.
pub open spec fn quoted(v: Seq<Seq<char>>) -> Seq<Seq<char>> {
    v.map_values(|s: Seq<char>| seq!['\''] + s + seq!['\''])
}

/// Whether `s` holds the token `p`.
fn contains_chars(s: &Vec<char>, p: &Vec<char>) -> (r: bool)
    ensures
        r == contains_seq(s@, p@),
{
    if p.len() > s.len() {
        proof {
            assert forall|i: int| !occurs_at(s@, p@, i) by {}
        }
        return false;
    }
    if p.len() == 0 {
        proof {
            assert(s@.subrange(0, 0) =~= p@);
            assert(occurs_at(s@, p@, 0));
        }
        return true;
    }
    let mut i: usize = 0;
    let n = s.len();
    let last = n - p.len();
    while i <= last
        invariant
            n == s@.len(),
            0 < p@.len() <= s@.len(),
            last == s@.len() - p@.len(),
            0 <= i <= last + 1,
            forall|k: int| 0 <= k < i ==> !occurs_at(s@, p@, k),
        decreases last + 1 - i,
    {
        if matches_at(s, p, i) {
            return true;
        }
        i = i + 1;
    }
    proof {
        assert forall|k: int| !occurs_at(s@, p@, k) by {
            if 0 <= k < i {
            }
        }
    }
    false
}

/// Whether `p` occurs in `s` at `i`.
fn matches_at(s: &Vec<char>, p: &Vec<char>, i: usize) -> (r: bool)
    requires
        i + p@.len() <= s@.len(),
    ensures
        r == occurs_at(s@, p@, i as int),
{
    let n = s.len();
    let mut j: usize = 0;
    while j < p.len()
        invariant
            i + p@.len() <= s@.len(),
            n == s@.len(),
            0 <= j <= p@.len(),
            forall|k: int| 0 <= k < j ==> s@[i + k] == p@[k],
        decreases p@.len() - j,
    {
        if s[i + j] != p[j] {
            proof {
                assert(s@.subrange(i as int, i + p@.len())[j as int] != p@[j as int]);
            }
            return false;
        }
        j = j + 1;
    }
    proof {
        assert(s@.subrange(i as int, i + p@.len()) =~= p@);
    }
    true
}

/// Whether the text of `s` contains the text of `p`.
pub fn contains_str(s: &str, p: &str) -> (r: bool)
    ensures
        r == contains_seq(s@, p@),
{
    let sc = chars_of(s);
    let pc = chars_of(p);
    contains_chars(&sc, &pc)
}

proof fn lemma_replace_step(s: Seq<char>, p: Seq<char>, r: Seq<char>, i: int)
    requires
        p.len() > 0,
        0 <= i <= s.len(),
    ensures
        i + p.len() <= s.len() && occurs_at(s, p, i) ==> replace_all(s.skip(i), p, r) == r
            + replace_all(s.skip(i + p.len()), p, r),
        i < s.len() && !(i + p.len() <= s.len() && occurs_at(s, p, i)) ==> replace_all(
            s.skip(i),
            p,
            r,
        ) == seq![s[i]] + replace_all(s.skip(i + 1), p, r),
        i + p.len() > s.len() ==> replace_all(s.skip(i), p, r) == s.skip(i),
{
    let t = s.skip(i);
    if i + p.len() <= s.len() {
        assert(t.skip(p.len() as int) =~= s.skip(i + p.len()));
        assert(t.take(p.len() as int) =~= s.subrange(i, i + p.len()));
    }
    if i < s.len() {
        assert(t.skip(1) =~= s.skip(i + 1));
        assert(t[0] == s[i]);
    }
}

/// `s` with every occurrence of the non-empty `p` replaced by `r`.
fn replace_chars(s: &Vec<char>, p: &Vec<char>, r: &Vec<char>) -> (out: Vec<char>)
    requires
        p@.len() > 0,
    ensures
        out@ == replace_all(s@, p@, r@),
{
    let mut out: Vec<char> = Vec::new();
    let mut i: usize = 0;
    proof {
        assert(s@.skip(0) =~= s@);
        assert(out@ + replace_all(s@, p@, r@) =~= replace_all(s@, p@, r@));
    }
    while i < s.len()
        invariant
            p@.len() > 0,
            0 <= i <= s@.len(),
            out@ + replace_all(s@.skip(i as int), p@, r@) == replace_all(s@, p@, r@),
        decreases s@.len() - i,
    {
        proof {
            lemma_replace_step(s@, p@, r@, i as int);
        }
        if p.len() <= s.len() - i && matches_at(s, p, i) {
            let mut j: usize = 0;
            let ghost before = out@;
            while j < r.len()
                invariant
                    0 <= j <= r@.len(),
                    out@ == before + r@.take(j as int),
                decreases r@.len() - j,
            {
                out.push(r[j]);
                proof {
                    assert(r@.take(j + 1) == r@.take(j as int).push(r@[j as int]));
                }
                j = j + 1;
            }
            proof {
                assert(r@.take(r@.len() as int) == r@);
                assert(out@ + replace_all(s@.skip(i + p@.len()), p@, r@) == before + (r@
                    + replace_all(s@.skip(i + p@.len()), p@, r@)));
            }
            i = i + p.len();
        } else {
            let ghost before = out@;
            out.push(s[i]);
            proof {
                assert(out@ + replace_all(s@.skip(i + 1), p@, r@) == before + (seq![s@[i as int]]
                    + replace_all(s@.skip(i + 1), p@, r@)));
            }
            i = i + 1;
        }
    }
    proof {
        lemma_replace_step(s@, p@, r@, i as int);
        assert(s@.skip(i as int) =~= Seq::<char>::empty());
        assert(out@ + Seq::<char>::empty() == out@);
    }
    out
}

/// The text of `s` with every occurrence of the non-empty `p` replaced by `r`.
pub fn replace_str(s: &str, p: &str, r: &str) -> (out: String)
    requires
        p@.len() > 0,
    ensures
        out@ == replace_all(s@, p@, r@),
{
    let sc = chars_of(s);
    let pc = chars_of(p);
    let rc = chars_of(r);
    let oc = replace_chars(&sc, &pc, &rc);
    string_of(&oc)
}

/// Whether `a` and `b` hold the same text.
pub fn same_text(a: &str, b: &str) -> (r: bool)
    ensures
        r == (a@ == b@),
{
    let ac = chars_of(a);
    let bc = chars_of(b);
    if ac.len() != bc.len() {
        return false;
    }
    let mut i: usize = 0;
    while i < ac.len()
        invariant
            ac@ == a@,
            bc@ == b@,
            ac@.len() == bc@.len(),
            0 <= i <= ac@.len(),
            forall|k: int| 0 <= k < i ==> ac@[k] == bc@[k],
        decreases ac@.len() - i,
    {
        if ac[i] != bc[i] {
            proof {
                assert(ac@[i as int] != bc@[i as int]);
            }
            return false;
        }
        i = i + 1;
    }
    proof {
        assert(ac@ =~= bc@);
    }
    true
}

/// The strings of `v` joined by single spaces, each between single quotes when
/// `quote` is set.
fn join_words(v: &Vec<String>, quote: bool) -> (r: String)
    ensures
        r@ == join(if quote { quoted(views(v@)) } else { views(v@) }, seq![' ']),
{
    let ghost words = if quote { quoted(views(v@)) } else { views(v@) };
    let mut out: Vec<char> = Vec::new();
    let mut i: usize = 0;
    while i < v.len()
        invariant
            words == (if quote { quoted(views(v@)) } else { views(v@) }),
            words.len() == v@.len(),
            0 <= i <= v@.len(),
            out@ == join(words.take(i as int), seq![' ']),
        decreases v@.len() - i,
    {
        let ghost before = out@;
        if i > 0 {
            out.push(' ');
        }
        if quote {
            out.push('\'');
        }
        let w = chars_of(v[i].as_str());
        let mut j: usize = 0;
        let ghost mid = out@;
        while j < w.len()
            invariant
                0 <= j <= w@.len(),
                out@ == mid + w@.take(j as int),
            decreases w@.len() - j,
        {
            out.push(w[j]);
            proof {
                assert(w@.take(j + 1) =~= w@.take(j as int).push(w@[j as int]));
            }
            j = j + 1;
        }
        if quote {
            out.push('\'');
        }
        proof {
            assert(w@.take(w@.len() as int) =~= w@);
            let t = words.take(i + 1);
            assert(t.drop_last() =~= words.take(i as int));
            if quote {
                assert(words[i as int] == seq!['\''] + v@[i as int]@ + seq!['\'']);
            } else {
                assert(words[i as int] == v@[i as int]@);
            }
            if i == 0 {
                assert(t.len() == 1);
                assert(out@ =~= t[0]);
            } else {
                assert(out@ =~= join(words.take(i as int), seq![' ']) + seq![' '] + t.last());
            }
        }
        i = i + 1;
    }
    proof {
        assert(words.take(v@.len() as int) =~= words);
    }
    string_of(&out)
}

/// The extra arguments of a test, none when unset.
pub open spec fn extra_args_of(test: Test) -> Seq<Seq<char>> {
    match test.extra_args {
        Some(v) => views(v@),
        None => Seq::empty(),
    }
}

/// `s` with the test's placeholders filled in, one after the other: `{NAME}`,
/// `{TAG}`, `"{...}"` and `'{...}'` (the extra arguments joined by spaces),
/// `{...}` (the same, each between single quotes), then `{FILE}` when the test
/// has a file.
pub open spec fn interpolate(test: Test, s: Seq<char>) -> Seq<char> {
    let joined = join(extra_args_of(test), seq![' ']);
    let quoted_joined = join(quoted(extra_args_of(test)), seq![' ']);
    let s1 = replace_all(s, "{NAME}"@, test.name@);
    let s2 = replace_all(s1, "{TAG}"@, test.tag@);
    let s3 = replace_all(s2, "\"{...}\""@, joined);
    let s4 = replace_all(s3, "'{...}'"@, joined);
    let s5 = replace_all(s4, "{...}"@, quoted_joined);
    match test.file {
        Some(f) => replace_all(s5, "{FILE}"@, f@),
        None => s5,
    }
}

/// An argument list with the test's placeholders filled in: an argument `{...}`
/// or `...` becomes the extra arguments, any other one is interpolated.
pub open spec fn interpolate_args(test: Test, args: Seq<Seq<char>>) -> Seq<Seq<char>>
    decreases args.len(),
{
    if args.len() == 0 {
        Seq::empty()
    } else {
        let prev = interpolate_args(test, args.drop_last());
        let a = args.last();
        if a == "{...}"@ || a == "..."@ {
            prev + extra_args_of(test)
        } else {
            prev.push(interpolate(test, a))
        }
    }
}

/// `{FILE}` occurs in one of the runner's commands or arguments.
pub open spec fn runner_needs_file(r: Runner) -> bool {
    let f = "{FILE}"@;
    ||| (r.prepare is Some && contains_seq(r.prepare->Some_0@, f))
    ||| (r.cleanup is Some && contains_seq(r.cleanup->Some_0@, f))
    ||| (r.run_args is Some && exists|i: int|
        0 <= i < r.run_args->Some_0@.len() && contains_seq(
            (#[trigger] r.run_args->Some_0@[i])@,
            f,
        ))
    ||| (r.run_cmd is Some && contains_seq(r.run_cmd->Some_0@, f))
}

impl Runner {
    /// Whether a test run with this runner needs a file: some command or
    /// argument mentions `{FILE}`.
    pub fn needs_file(&self) -> (r: bool)
        ensures
            r == runner_needs_file(*self),
    {
        if let Some(cmd) = &self.prepare {
            if contains_str(cmd.as_str(), "{FILE}") {
                return true;
            }
        }
        if let Some(cmd) = &self.cleanup {
            if contains_str(cmd.as_str(), "{FILE}") {
                return true;
            }
        }
        if let Some(run_args) = &self.run_args {
            let mut i: usize = 0;
            while i < run_args.len()
                invariant
                    self.run_args == Some(*run_args),
                    0 <= i <= run_args@.len(),
                    forall|k: int| 0 <= k < i ==> !contains_seq((#[trigger] run_args@[k])@, "{FILE}"@),
                decreases run_args@.len() - i,
            {
                if contains_str(run_args[i].as_str(), "{FILE}") {
                    proof {
                        assert(self.run_args->Some_0@[i as int] == run_args@[i as int]);
                        assert(contains_seq((self.run_args->Some_0@[i as int])@, "{FILE}"@));
                    }
                    return true;
                }
                i = i + 1;
            }
        }
        if let Some(run_cmd) = &self.run_cmd {
            if contains_str(run_cmd.as_str(), "{FILE}") {
                return true;
            }
        }
        false
    }
}

impl Test {
    /// `s` with this test's placeholders filled in.
    pub fn interpolated_into(&self, s: &str) -> (r: String)
        ensures
            r@ == interpolate(*self, s@),
    {
        proof {
            reveal_strlit("{NAME}");
            reveal_strlit("{TAG}");
            reveal_strlit("\"{...}\"");
            reveal_strlit("'{...}'");
            reveal_strlit("{...}");
            reveal_strlit("{FILE}");
        }
        let none: Vec<String> = Vec::new();
        let extra = match &self.extra_args {
            Some(v) => v,
            None => &none,
        };
        let extra_args = join_words(extra, false);
        let extra_args_quoted = join_words(extra, true);
        let s1 = replace_str(s, "{NAME}", self.name.as_str());
        let s2 = replace_str(s1.as_str(), "{TAG}", self.tag.as_str());
        let s3 = replace_str(s2.as_str(), "\"{...}\"", extra_args.as_str());
        let s4 = replace_str(s3.as_str(), "'{...}'", extra_args.as_str());
        let s5 = replace_str(s4.as_str(), "{...}", extra_args_quoted.as_str());
        match &self.file {
            Some(f) => replace_str(s5.as_str(), "{FILE}", f.as_str()),
            None => s5,
        }
    }

    /// An argument list with this test's placeholders filled in.
    pub fn interpolated_into_args(&self, args: &Vec<String>) -> (r: Vec<String>)
        ensures
            views(r@) == interpolate_args(*self, views(args@)),
    {
        let none: Vec<String> = Vec::new();
        let extra = match &self.extra_args {
            Some(v) => v,
            None => &none,
        };
        let mut res: Vec<String> = Vec::new();
        let mut i: usize = 0;
        while i < args.len()
            invariant
                views(extra@) == extra_args_of(*self),
                0 <= i <= args@.len(),
                views(res@) == interpolate_args(*self, views(args@.take(i as int))),
            decreases args@.len() - i,
        {
            proof {
                assert(views(args@.take(i + 1)).drop_last() =~= views(args@.take(i as int)));
                assert(views(args@.take(i + 1)).last() == args@[i as int]@);
            }
            let arg = &args[i];
            if same_text(arg.as_str(), "{...}") || same_text(arg.as_str(), "...") {
                let ghost before = views(res@);
                let mut j: usize = 0;
                while j < extra.len()
                    invariant
                        0 <= j <= extra@.len(),
                        views(res@) == before + views(extra@).take(j as int),
                    decreases extra@.len() - j,
                {
                    let ghost pre = res@;
                    let e = extra[j].clone();
                    res.push(e);
                    proof {
                        assert(res@ == pre.push(extra@[j as int]));
                        assert(views(res@) =~= views(pre).push(extra@[j as int]@));
                        assert(views(extra@).take(j + 1) =~= views(extra@).take(j as int).push(
                            extra@[j as int]@,
                        ));
                        assert(views(res@) =~= before + views(extra@).take(j + 1));
                    }
                    j = j + 1;
                }
                proof {
                    assert(views(extra@).take(extra@.len() as int) =~= views(extra@));
                }
            } else {
                let ghost before = views(res@);
                res.push(self.interpolated_into(arg.as_str()));
                proof {
                    assert(views(res@) =~= before.push(interpolate(*self, args@[i as int]@)));
                }
            }
            i = i + 1;
        }
        proof {
            assert(args@.take(args@.len() as int) =~= args@);
        }
        res
    }
}

/// The run step of a pair, placeholders filled in: a program's argument list, or
/// a shell command.
#[derive(Debug)]
pub enum RunStep {
    Args(Vec<String>),
    Shell(String),
}

/// The runner of `tool` for `test`, if it has one.
pub open spec fn runner_of(tool: Tool, test: Test) -> Option<Runner> {
    match runner_index(tool.runners@, test.tag@) {
        Some(i) => Some(tool.runners@[i].1),
        None => None,
    }
}

/// `r` is the optional command `c` of `runner`, interpolated for `test`, or the
/// failure of a missing runner.
pub open spec fn command_result(
    runner: Option<Runner>,
    c: Option<String>,
    test: Test,
    r: Result<Option<String>, RunFailure>,
) -> bool {
    match runner {
        None => r == Err::<Option<String>, RunFailure>(RunFailure::MissingRunner),
        Some(_) => match c {
            None => r == Ok::<Option<String>, RunFailure>(None),
            Some(c) => r is Ok && r->Ok_0 is Some && r->Ok_0->Some_0@ == interpolate(test, c@),
        },
    }
}

fn interpolated_opt(test: &Test, c: &Option<String>) -> (r: Option<String>)
    ensures
        match c {
            None => r is None,
            Some(c) => r is Some && r->Some_0@ == interpolate(*test, c@),
        },
{
    match c {
        Some(c) => Some(test.interpolated_into(c.as_str())),
        None => None,
    }
}

impl Tool {
    /// What a run of `test` executes: the runner's argument list or its shell
    /// command, placeholders filled in. A runner must set exactly one of them.
    pub fn run_step(&self, test: &Test) -> (r: Result<RunStep, RunFailure>)
        ensures
            match runner_of(*self, *test) {
                None => r == Err::<RunStep, RunFailure>(RunFailure::MissingRunner),
                Some(rn) => match (rn.run_args, rn.run_cmd) {
                    (Some(a), None) => r is Ok && r->Ok_0 is Args && views(r->Ok_0->Args_0@)
                        == interpolate_args(*test, views(a@)),
                    (None, Some(c)) => r is Ok && r->Ok_0 is Shell && r->Ok_0->Shell_0@
                        == interpolate(*test, c@),
                    _ => r == Err::<RunStep, RunFailure>(RunFailure::InvalidRunStep),
                },
            },
    {
        match self.runner_for(&test.tag) {
            None => Err(RunFailure::MissingRunner),
            Some(rn) => match (&rn.run_args, &rn.run_cmd) {
                (Some(a), None) => Ok(RunStep::Args(test.interpolated_into_args(a))),
                (None, Some(c)) => Ok(RunStep::Shell(test.interpolated_into(c.as_str()))),
                _ => Err(RunFailure::InvalidRunStep),
            },
        }
    }

    /// The preparation command of `test`'s runner, placeholders filled in.
    pub fn prepare_command(&self, test: &Test) -> (r: Result<Option<String>, RunFailure>)
        ensures
            command_result(
                runner_of(*self, *test),
                match runner_of(*self, *test) {
                    Some(rn) => rn.prepare,
                    None => None,
                },
                *test,
                r,
            ),
    {
        match self.runner_for(&test.tag) {
            None => Err(RunFailure::MissingRunner),
            Some(rn) => Ok(interpolated_opt(test, &rn.prepare)),
        }
    }

    /// The cleanup command of `test`'s runner, placeholders filled in.
    pub fn cleanup_command(&self, test: &Test) -> (r: Result<Option<String>, RunFailure>)
        ensures
            command_result(
                runner_of(*self, *test),
                match runner_of(*self, *test) {
                    Some(rn) => rn.cleanup,
                    None => None,
                },
                *test,
                r,
            ),
    {
        match self.runner_for(&test.tag) {
            None => Err(RunFailure::MissingRunner),
            Some(rn) => Ok(interpolated_opt(test, &rn.cleanup)),
        }
    }
}

impl Test {
    /// The command whose output feeds the program's stdin, placeholders filled in.
    pub fn stdin_command(&self) -> (r: Option<String>)
        ensures
            match self.stdin_from_cmd {
                None => r is None,
                Some(c) => r is Some && r->Some_0@ == interpolate(*self, c@),
            },
    {
        interpolated_opt(self, &self.stdin_from_cmd)
    }
}

} // verus!
