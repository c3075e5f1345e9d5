//! Pre-build hooks: the captured output of a running hook, the progress text
//! shown for it, and the order in which hooks run.
use vstd::prelude::*;

use crate::config::strings_view;
use crate::text::{chars_of, decimal, push_decimal, slice_string, trim, trim_spec};

verus! {

/// Number of recent output lines shown while a hook runs.
pub const RECENT_LINES: usize = 5;

/// Widest shown line, in characters; longer ones are cut.
pub const MAX_LINE_WIDTH: usize = 80;

/// The last `n` items of `s` (all of them where there are fewer).
pub open spec fn last_n<A>(s: Seq<A>, n: nat) -> Seq<A> {
    if s.len() <= n {
        s
    } else {
        s.subrange(s.len() - n, s.len() as int)
    }
}

/// The output a hook has produced so far: every non-blank line in order of
/// arrival, and the most recent of them for display.
#[derive(Debug, Clone)]
pub struct HookOutput {
    pub recent: Vec<String>,
    pub all: Vec<String>,
}

impl HookOutput {
    /// The recent lines are the last `RECENT_LINES` of all lines.
    pub open spec fn wf(&self) -> bool {
        self.recent@ == last_n(self.all@, RECENT_LINES as nat)
    }

    pub fn new() -> (r: HookOutput)
        ensures
            r.wf(),
            r.all@.len() == 0,
    {
        HookOutput { recent: Vec::new(), all: Vec::new() }
    }

    /// Takes one line of output; blank lines are dropped. Returns whether it was kept.
    pub fn record(&mut self, line: String) -> (kept: bool)
        requires
            old(self).wf(),
        ensures
            final(self).wf(),
            kept == (trim_spec(line@).len() > 0),
            kept ==> final(self).all@ == old(self).all@.push(line),
            !kept ==> final(self).all@ == old(self).all@,
    {
        let t = trim(line.as_str());
        if t.as_str().is_empty() {
            return false;
        }
        let ghost all0 = self.all@;
        if self.recent.len() >= RECENT_LINES {
            self.recent.remove(0);
        }
        self.recent.push(line.clone());
        self.all.push(line);
        proof {
            let all1 = all0.push(line);
            if all0.len() < RECENT_LINES {
                assert(self.recent@ =~= last_n(all1, RECENT_LINES as nat));
            } else {
                assert(self.recent@ =~= last_n(all1, RECENT_LINES as nat));
            }
        }
        true
    }

    /// The shown lines, each cut to the maximum width.
    pub fn display_lines(&self) -> (r: Vec<String>)
        ensures
            strings_view(r@) == shown_lines(self.recent@),
    {
        let mut r: Vec<String> = Vec::new();
        let mut i: usize = 0;
        while i < self.recent.len()
            invariant
                i <= self.recent@.len(),
                strings_view(r@) == shown_lines(self.recent@.subrange(0, i as int)),
            decreases self.recent@.len() - i,
        {
            let d = truncate_line(self.recent[i].as_str());
            let ghost before = r@;
            let ghost dv = d@;
            r.push(d);
            assert(strings_view(r@) =~= strings_view(before).push(dv));
            assert(shown_lines(self.recent@.subrange(0, i + 1)) =~= shown_lines(
                self.recent@.subrange(0, i as int),
            ).push(display_line(self.recent@[i as int]@)));
            i += 1;
        }
        assert(self.recent@.subrange(0, i as int) =~= self.recent@);
        r
    }

    /// The progress message: the hook's name and its recent lines.
    pub fn display_text(&self, cmd_name: &str) -> (r: String)
        ensures
            r@ == display_text_spec(
                cmd_name@,
                shown_lines(self.recent@),
            ),
    {
        let lines = self.display_lines();
        let mut out = String::from_str("Running ");
        out.append(cmd_name);
        if lines.len() == 0 {
            out.append("...");
        } else {
            out.append(":\n");
            let joined = join_lines(&lines);
            out.append(joined.as_str());
        }
        out
    }

    /// What is reported when the hook fails: every captured line, or nothing
    /// where it printed none.
    pub fn failure_report(&self) -> (r: Option<String>)
        ensures
            match r {
                Some(t) => self.all@.len() > 0 && t@ == "Hook output:\n"@ + join_spec(
                    strings_view(self.all@),
                ),
                None => self.all@.len() == 0,
            },
    {
        if self.all.len() == 0 {
            None
        } else {
            let mut out = String::from_str("Hook output:\n");
            let joined = join_lines(&self.all);
            out.append(joined.as_str());
            Some(out)
        }
    }
}

/// A shown line: indented by one space, and cut to 77 characters followed by
/// `...` where it is longer than the maximum width.
pub open spec fn display_line(l: Seq<char>) -> Seq<char> {
    if l.len() > MAX_LINE_WIDTH {
        " "@ + l.take(MAX_LINE_WIDTH - 3) + "..."@
    } else {
        " "@ + l
    }
}

/// The shown form of each line.
pub open spec fn shown_lines(s: Seq<String>) -> Seq<Seq<char>> {
    s.map_values(|l: String| display_line(l@))
}

/// One line as shown in the progress display.
pub fn truncate_line(line: &str) -> (r: String)
    ensures
        r@ == display_line(line@),
{
    let v = chars_of(line);
    let mut out = String::from_str(" ");
    if v.len() > MAX_LINE_WIDTH {
        let head = slice_string(&v, 0, MAX_LINE_WIDTH - 3);
        out.append(head.as_str());
        out.append("...");
    } else {
        out.append(line);
    }
    out
}

/// The lines joined by line breaks.
pub open spec fn join_spec(ls: Seq<Seq<char>>) -> Seq<char>
    decreases ls.len(),
{
    if ls.len() == 0 {
        Seq::empty()
    } else if ls.len() == 1 {
        ls[0]
    } else {
        join_spec(ls.drop_last()) + "\n"@ + ls.last()
    }
}

pub fn join_lines(ls: &Vec<String>) -> (r: String)
    ensures
        r@ == join_spec(strings_view(ls@)),
{
    let ghost v = strings_view(ls@);
    let mut out = String::new();
    let mut i: usize = 0;
    while i < ls.len()
        invariant
            i <= ls@.len(),
            v == strings_view(ls@),
            out@ == join_spec(v.subrange(0, i as int)),
        decreases ls@.len() - i,
    {
        let ghost before = out@;
        if i > 0 {
            out.append("\n");
        }
        out.append(ls[i].as_str());
        proof {
            let sub = v.subrange(0, i + 1);
            assert(sub.drop_last() =~= v.subrange(0, i as int));
            if i == 0 {
                assert(out@ =~= join_spec(sub));
            } else {
                assert(out@ =~= join_spec(sub));
            }
        }
        i += 1;
    }
    assert(v.subrange(0, i as int) =~= v);
    out
}

pub open spec fn display_text_spec(cmd_name: Seq<char>, shown: Seq<Seq<char>>) -> Seq<char> {
    if shown.len() == 0 {
        "Running "@ + cmd_name + "..."@
    } else {
        "Running "@ + cmd_name + ":\n"@ + join_spec(shown)
    }
}

/// `<prefix><index + 1>/<count><suffix>`, the way hooks are numbered for people.
pub open spec fn numbered(prefix: Seq<char>, index: nat, count: nat, suffix: Seq<char>) -> Seq<char> {
    prefix + decimal(index + 1) + "/"@ + decimal(count) + suffix
}

/// `prefix`, the hook's number out of `count`, then `suffix`.
pub fn hook_label(prefix: &str, index: u64, count: u64, suffix: &str) -> (r: String)
    requires
        index < count,
    ensures
        r@ == numbered(prefix@, index as nat, count as nat, suffix@),
{
    let mut out = String::from_str(prefix);
    push_decimal(&mut out, index + 1);
    out.append("/");
    push_decimal(&mut out, count);
    out.append(suffix);
    out
}


/// Progress through an ordered list of hooks: `completed` hooks have succeeded;
/// `failed` names the hook that failed, which ends the sequence.
#[derive(Debug, Clone, Copy, PartialEq, Eq, Structural)]
pub struct HookSequence {
    pub count: usize,
    pub completed: usize,
    pub failed: Option<usize>,
}

/// How a sequence of hooks stands.
#[derive(Debug, Clone, Copy, PartialEq, Eq, Structural)]
pub enum HookOutcome {
    Running,
    Succeeded,
    Failed(usize),
}

/// The hook to start next: the one after the completed ones, unless one failed.
pub open spec fn next_spec(s: HookSequence) -> Option<usize> {
    if s.failed is None && s.completed < s.count {
        Some(s.completed)
    } else {
        None
    }
}

/// The state after the running hook exits.
pub open spec fn finish_spec(s: HookSequence, success: bool) -> HookSequence {
    if success {
        HookSequence { completed: (s.completed + 1) as usize, ..s }
    } else {
        HookSequence { failed: Some(s.completed), ..s }
    }
}

pub open spec fn outcome_spec(s: HookSequence) -> HookOutcome {
    match s.failed {
        Some(i) => HookOutcome::Failed(i),
        None => if s.completed >= s.count {
            HookOutcome::Succeeded
        } else {
            HookOutcome::Running
        },
    }
}

impl HookSequence {
    pub open spec fn wf(&self) -> bool {
        &&& self.completed <= self.count
        &&& match self.failed {
            Some(i) => i == self.completed && i < self.count,
            None => true,
        }
    }

    pub fn new(count: usize) -> (r: HookSequence)
        ensures
            r == (HookSequence { count, completed: 0, failed: None }),
            r.wf(),
    {
        HookSequence { count, completed: 0, failed: None }
    }

    /// The index of the hook to start now, if any.
    pub fn next(&self) -> (r: Option<usize>)
        ensures
            r == next_spec(*self),
    {
        if self.failed.is_none() && self.completed < self.count {
            Some(self.completed)
        } else {
            None
        }
    }

    /// Records the exit of the hook that `next` gave.
    pub fn finish(&mut self, success: bool)
        requires
            old(self).wf(),
            next_spec(*old(self)) is Some,
        ensures
            *final(self) == finish_spec(*old(self), success),
            final(self).wf(),
    {
        if success {
            self.completed = self.completed + 1;
        } else {
            self.failed = Some(self.completed);
        }
    }

    pub fn outcome(&self) -> (r: HookOutcome)
        ensures
            r == outcome_spec(*self),
    {
        match self.failed {
            Some(i) => HookOutcome::Failed(i),
            None => if self.completed >= self.count {
                HookOutcome::Succeeded
            } else {
                HookOutcome::Running
            },
        }
    }
}

/// Runs the sequence for up to `fuel` hooks, hook `j` exiting with `results[j]`.
pub open spec fn drive(s: HookSequence, results: Seq<bool>, fuel: nat) -> HookSequence
    decreases fuel,
{
    if fuel == 0 {
        s
    } else {
        match next_spec(s) {
            Some(j) => drive(finish_spec(s, results[j as int]), results, (fuel - 1) as nat),
            None => s,
        }
    }
}

proof fn lemma_drive_to_failure(results: Seq<bool>, c: int, f: int, fuel: nat)
    requires
        results.len() <= usize::MAX,
        0 <= c <= f < results.len(),
        !results[f],
        forall|j: int| c <= j < f ==> results[j],
        fuel >= f - c + 1,
    ensures
        drive(
            HookSequence { count: results.len() as usize, completed: c as usize, failed: None },
            results,
            fuel,
        ) == (HookSequence {
            count: results.len() as usize,
            completed: f as usize,
            failed: Some(f as usize),
        }),
    decreases f - c,
{
    let s = HookSequence { count: results.len() as usize, completed: c as usize, failed: None };
    if c < f {
        lemma_drive_to_failure(results, c + 1, f, (fuel - 1) as nat);
    } else {
        let t = finish_spec(s, false);
        assert(drive(t, results, (fuel - 1) as nat) == t);
    }
}

proof fn lemma_drive_to_success(results: Seq<bool>, c: int, fuel: nat)
    requires
        results.len() <= usize::MAX,
        0 <= c <= results.len(),
        forall|j: int| c <= j < results.len() ==> results[j],
        fuel >= results.len() - c,
    ensures
        drive(
            HookSequence { count: results.len() as usize, completed: c as usize, failed: None },
            results,
            fuel,
        ) == (HookSequence {
            count: results.len() as usize,
            completed: results.len() as usize,
            failed: None,
        }),
    decreases results.len() - c,
{
    if c < results.len() {
        lemma_drive_to_success(results, c + 1, (fuel - 1) as nat);
    }
}

/// Hooks run strictly in order and the first failure ends the run: when hook
/// `f` is the first to fail, exactly hooks `0..=f` were started, and the
/// outcome names `f`. When none fails, every hook ran and the run succeeded.
pub proof fn lemma_first_failure_stops(results: Seq<bool>, f: int)
    requires
        results.len() <= usize::MAX,
        0 <= f < results.len(),
        !results[f],
        forall|j: int| 0 <= j < f ==> results[j],
    ensures
        ({
            let s = drive(
                HookSequence { count: results.len() as usize, completed: 0, failed: None },
                results,
                results.len() as nat,
            );
            &&& s.completed == f
            &&& next_spec(s) is None
            &&& outcome_spec(s) == HookOutcome::Failed(f as usize)
        }),
{
    lemma_drive_to_failure(results, 0, f, results.len() as nat);
}

/// When every hook succeeds, all of them run and the outcome is success.
pub proof fn lemma_all_succeed(results: Seq<bool>)
    requires
        results.len() <= usize::MAX,
        forall|j: int| 0 <= j < results.len() ==> results[j],
    ensures
        ({
            let s = drive(
                HookSequence { count: results.len() as usize, completed: 0, failed: None },
                results,
                results.len() as nat,
            );
            &&& s.completed == results.len()
            &&& outcome_spec(s) == HookOutcome::Succeeded
        }),
{
    lemma_drive_to_success(results, 0, results.len() as nat);
}

} // verus!
