use vstd::prelude::*;
use crate::fmt::{parse_u64, parse_u64_spec};
use crate::text::{
    ascii_lower_chars, ascii_lower_seq, chars_eq, chars_of, concat_str, join_spec, join_strings,
    string_from_chars, trim, trim_chars, views, words, words_spec,
};

verus! {

/// The words of a commit message other than `--amend`, joined by single
/// spaces, and whether `--amend` was among them.
pub open spec fn commit_message_spec(raw: Seq<char>) -> (Seq<char>, bool) {
    let ws = words_spec(raw);
    (join_spec(ws.filter(|w: Seq<char>| w != "--amend"@), " "@), ws.contains("--amend"@))
}

/// Reads a commit message typed with an optional `--amend` among its words
/// (see [`commit_message_spec`]).
pub fn parse_git_commit_message(raw: &str) -> (r: (String, bool))
    ensures
        (r.0@, r.1) == commit_message_spec(raw@),
{
    proof {
        reveal_strlit("--amend");
        reveal_strlit(" ");
    }
    let ws = words(&chars_of(raw));
    let ghost wv = views(ws@);
    let amend_word = chars_of("--amend");
    let mut amend = false;
    let mut parts: Vec<String> = Vec::new();
    let mut i: usize = 0;
    assert(wv.take(0).filter(|w: Seq<char>| w != "--amend"@) =~= Seq::<Seq<char>>::empty());
    while i < ws.len()
        invariant
            i <= ws.len(),
            wv == views(ws@),
            amend_word@ == "--amend"@,
            parts@.map_values(|p: String| p@) == wv.take(i as int).filter(|w: Seq<char>| w != "--amend"@),
            amend == wv.take(i as int).contains("--amend"@),
        decreases ws.len() - i,
    {
        assert(wv.take(i + 1).drop_last() =~= wv.take(i as int));
        assert(wv.take(i + 1).last() == ws@[i as int]@);
        proof {
            crate::text::lemma_take_push_contains(wv, i as int);
        }
        let ghost before = parts@.map_values(|p: String| p@);
        if chars_eq(ws[i].as_slice(), amend_word.as_slice()) {
            amend = true;
            assert(wv.take(i + 1).filter(|w: Seq<char>| w != "--amend"@) =~= wv.take(i as int).filter(|w: Seq<char>| w != "--amend"@)) by {
                wv.take(i as int).lemma_filter_push(wv[i as int], |w: Seq<char>| w != "--amend"@);
                assert(wv.take(i as int).push(wv[i as int]) =~= wv.take(i + 1));
            }
        } else {
            let s = string_from_chars(ws[i].as_slice());
            parts.push(s);
            assert(parts@.map_values(|p: String| p@) =~= before.push(ws@[i as int]@));
            assert(wv.take(i + 1).filter(|w: Seq<char>| w != "--amend"@) =~= before.push(wv[i as int])) by {
                wv.take(i as int).lemma_filter_push(wv[i as int], |w: Seq<char>| w != "--amend"@);
                assert(wv.take(i as int).push(wv[i as int]) =~= wv.take(i + 1));
            }
        }
        i = i + 1;
    }
    assert(wv.take(ws.len() as int) =~= wv);
    (join_strings(&parts, " "), amend)
}

/// What a command printed, trimmed, when it succeeded and printed
/// something.
pub open spec fn trimmed_output_spec(success: bool, stdout: Seq<char>) -> Option<Seq<char>> {
    if success && trim(stdout).len() > 0 {
        Some(trim(stdout))
    } else {
        None
    }
}

/// What a command printed, trimmed, when it succeeded and printed
/// something (see [`trimmed_output_spec`]).
pub fn trimmed_output(success: bool, stdout: &str) -> (r: Option<String>)
    ensures
        match r {
            Some(s) => trimmed_output_spec(success, stdout@) == Some(s@),
            None => trimmed_output_spec(success, stdout@) is None,
        },
{
    if !success {
        return None;
    }
    let t = trim_chars(&chars_of(stdout));
    if t.len() == 0 {
        None
    } else {
        Some(string_from_chars(t.as_slice()))
    }
}

/// The tag offered after a push: the latest tag, or `v0.1.0`.
pub fn tag_prefill(latest: Option<String>) -> (r: String)
    ensures
        r@ == match latest {
            Some(t) => t@,
            None => "v0.1.0"@,
        },
{
    match latest {
        Some(t) => t,
        None => "v0.1.0".to_string(),
    }
}

/// Whether an answer to a yes/no question is yes (`y` or `yes`, trimmed,
/// in any ASCII case).
pub fn is_yes_answer(answer: &str) -> (r: bool)
    ensures
        r == (ascii_lower_seq(trim(answer@)) == "y"@ || ascii_lower_seq(trim(answer@)) == "yes"@),
{
    let a = ascii_lower_chars(&trim_chars(&chars_of(answer)));
    chars_eq(a.as_slice(), chars_of("y").as_slice()) || chars_eq(a.as_slice(), chars_of("yes").as_slice())
}

/// A git command to run: its arguments, the line echoed before it, and the
/// status shown when it fails.
pub struct GitStep {
    pub args: Vec<String>,
    pub echo: String,
    pub failure: String,
}

/// A step as values.
pub struct GitStepView {
    pub args: Seq<Seq<char>>,
    pub echo: Seq<char>,
    pub failure: Seq<char>,
}

impl GitStep {
    pub open spec fn view(&self) -> GitStepView {
        GitStepView { args: self.args@.map_values(|a: String| a@), echo: self.echo@, failure: self.failure@ }
    }
}

/// The views of a list of steps.
pub open spec fn step_views(v: Seq<GitStep>) -> Seq<GitStepView> {
    v.map_values(|s: GitStep| s.view())
}

/// The steps that commit everything and push it: `add --all`, `commit -m`
/// with the message (and `--amend`), `push origin HEAD` (forced for an
/// amend).
pub open spec fn commit_push_steps_spec(message: Seq<char>, amend: bool) -> Seq<GitStepView> {
    seq![
        GitStepView { args: seq!["add"@, "--all"@], echo: "$ git add --all"@, failure: "git add --all failed"@ },
        if amend {
            GitStepView {
                args: seq!["commit"@, "-m"@, message, "--amend"@],
                echo: "$ git commit -m \""@ + message + "\" --amend"@,
                failure: "git commit --amend failed"@,
            }
        } else {
            GitStepView {
                args: seq!["commit"@, "-m"@, message],
                echo: "$ git commit -m \""@ + message + "\""@,
                failure: "git commit failed"@,
            }
        },
        if amend {
            GitStepView { args: seq!["push"@, "origin"@, "HEAD"@, "-f"@], echo: "$ git push origin HEAD -f"@, failure: "git push -f failed"@ }
        } else {
            GitStepView { args: seq!["push"@, "origin"@, "HEAD"@], echo: "$ git push origin HEAD"@, failure: "git push failed"@ }
        },
    ]
}

fn strs(a: &str, b: &str) -> (r: Vec<String>)
    ensures
        r@.map_values(|s: String| s@) == seq![a@, b@],
{
    let mut v: Vec<String> = Vec::new();
    v.push(a.to_string());
    v.push(b.to_string());
    assert(v@.map_values(|s: String| s@) =~= seq![a@, b@]);
    v
}

fn push_str(v: &mut Vec<String>, s: &str)
    ensures
        final(v)@.map_values(|x: String| x@) == old(v)@.map_values(|x: String| x@).push(s@),
{
    let ghost before = v@.map_values(|x: String| x@);
    v.push(s.to_string());
    assert(v@.map_values(|x: String| x@) =~= before.push(s@));
}

fn cat3(a: &str, b: &str, c: &str) -> (r: String)
    ensures
        r@ == a@ + b@ + c@,
{
    let ab = concat_str(a, b);
    concat_str(ab.as_str(), c)
}

/// The steps that commit everything and push it (see
/// [`commit_push_steps_spec`]); the caller runs them in order and stops at
/// the first that fails.
pub fn git_commit_and_push_steps(message: &str, amend: bool) -> (r: Vec<GitStep>)
    ensures
        step_views(r@) == commit_push_steps_spec(message@, amend),
{
    let mut steps: Vec<GitStep> = Vec::new();
    steps.push(GitStep {
        args: strs("add", "--all"),
        echo: "$ git add --all".to_string(),
        failure: "git add --all failed".to_string(),
    });
    let mut commit_args = strs("commit", "-m");
    push_str(&mut commit_args, message);
    if amend {
        push_str(&mut commit_args, "--amend");
        steps.push(GitStep {
            args: commit_args,
            echo: cat3("$ git commit -m \"", message, "\" --amend"),
            failure: "git commit --amend failed".to_string(),
        });
        let mut push_args = strs("push", "origin");
        push_str(&mut push_args, "HEAD");
        push_str(&mut push_args, "-f");
        steps.push(GitStep {
            args: push_args,
            echo: "$ git push origin HEAD -f".to_string(),
            failure: "git push -f failed".to_string(),
        });
    } else {
        steps.push(GitStep {
            args: commit_args,
            echo: cat3("$ git commit -m \"", message, "\""),
            failure: "git commit failed".to_string(),
        });
        let mut push_args = strs("push", "origin");
        push_str(&mut push_args, "HEAD");
        steps.push(GitStep {
            args: push_args,
            echo: "$ git push origin HEAD".to_string(),
            failure: "git push failed".to_string(),
        });
    }
    assert(step_views(steps@) =~= commit_push_steps_spec(message@, amend)) by {
        assert(steps@[1].args@.map_values(|a: String| a@) =~= commit_push_steps_spec(message@, amend)[1].args);
        assert(steps@[2].args@.map_values(|a: String| a@) =~= commit_push_steps_spec(message@, amend)[2].args);
    }
    steps
}

/// The steps that tag `HEAD` and push the tag.
pub open spec fn tag_push_steps_spec(tag: Seq<char>) -> Seq<GitStepView> {
    seq![
        GitStepView { args: seq!["tag"@, tag], echo: "$ git tag "@ + tag, failure: "git tag failed"@ },
        GitStepView { args: seq!["push"@, "origin"@, tag], echo: "$ git push origin "@ + tag, failure: "git push tag failed"@ },
    ]
}

/// The steps that tag `HEAD` and push the tag (see [`tag_push_steps_spec`]).
pub fn git_tag_and_push_steps(tag: &str) -> (r: Vec<GitStep>)
    ensures
        step_views(r@) == tag_push_steps_spec(tag@),
{
    let mut steps: Vec<GitStep> = Vec::new();
    steps.push(GitStep {
        args: strs("tag", tag),
        echo: concat_str("$ git tag ", tag),
        failure: "git tag failed".to_string(),
    });
    let mut push_args = strs("push", "origin");
    push_str(&mut push_args, tag);
    steps.push(GitStep {
        args: push_args,
        echo: concat_str("$ git push origin ", tag),
        failure: "git push tag failed".to_string(),
    });
    assert(step_views(steps@) =~= tag_push_steps_spec(tag@)) by {
        assert(steps@[1].args@.map_values(|a: String| a@) =~= tag_push_steps_spec(tag@)[1].args);
    }
    steps
}

/// The failure of the first step that failed, when steps ran in order and
/// stopped there; `ok[i]`: whether step `i` succeeded (steps not run are
/// not listed).
pub open spec fn first_failure_spec(steps: Seq<GitStepView>, ok: Seq<bool>) -> Option<Seq<char>>
    decreases ok.len(),
{
    if ok.len() == 0 || steps.len() == 0 {
        None
    } else if !ok[0] {
        Some(steps[0].failure)
    } else {
        first_failure_spec(steps.drop_first(), ok.drop_first())
    }
}

/// The status after the steps ran: the first failure, if any.
pub fn first_failure(steps: &Vec<GitStep>, ok: &Vec<bool>) -> (r: Option<String>)
    ensures
        match r {
            Some(s) => first_failure_spec(step_views(steps@), ok@) == Some(s@),
            None => first_failure_spec(step_views(steps@), ok@) is None,
        },
{
    let ghost sv = step_views(steps@);
    let mut i: usize = 0;
    assert(sv.skip(0) =~= sv);
    assert(ok@.skip(0) =~= ok@);
    while i < ok.len() && i < steps.len()
        invariant
            i <= ok.len(),
            i <= steps.len(),
            sv == step_views(steps@),
            first_failure_spec(sv, ok@) == first_failure_spec(sv.skip(i as int), ok@.skip(i as int)),
        decreases ok.len() - i,
    {
        assert(sv.skip(i as int)[0] == steps@[i as int].view());
        assert(ok@.skip(i as int)[0] == ok@[i as int]);
        if !ok[i] {
            return Some(steps[i].failure.clone());
        }
        assert(sv.skip(i as int).drop_first() =~= sv.skip(i + 1));
        assert(ok@.skip(i as int).drop_first() =~= ok@.skip(i + 1));
        i = i + 1;
    }
    None
}

/// What the caller of a [`StepRun`] does next: run step `i`, or stop, with
/// the failure of the step that failed (none when all succeeded).
#[derive(Debug)]
pub enum StepAction {
    Run(usize),
    Finished(Option<String>),
}

/// An action as values.
pub enum StepActionView {
    Run(int),
    Finished(Option<Seq<char>>),
}

impl StepAction {
    pub open spec fn view(&self) -> StepActionView {
        match self {
            StepAction::Run(i) => StepActionView::Run(*i as int),
            StepAction::Finished(f) => StepActionView::Finished(match f {
                Some(s) => Some(s@),
                None => None,
            }),
        }
    }
}

/// Runs a list of steps in order, one at a time, and stops right after the
/// first that fails.
pub struct StepRun {
    next: usize,
    finished: bool,
    failure: Option<String>,
}

/// Where a step run stands: the step awaiting its result, whether the run
/// is over, and the failure it ended with.
pub struct StepRunView {
    pub next: int,
    pub finished: bool,
    pub failure: Option<Seq<char>>,
}

/// The start of a run: the first step, or nothing to do.
pub open spec fn step_start_spec(steps: Seq<GitStepView>) -> (StepRunView, StepActionView) {
    if steps.len() == 0 {
        (StepRunView { next: 0, finished: true, failure: None }, StepActionView::Finished(None))
    } else {
        (StepRunView { next: 0, finished: false, failure: None }, StepActionView::Run(0))
    }
}

/// The run after the step awaiting its result ended (`ok`: it succeeded): a
/// failure ends the run with that step's failure; a success moves to the
/// next step, or ends the run without failure after the last. A finished
/// run stays as it is.
pub open spec fn step_result_spec(v: StepRunView, steps: Seq<GitStepView>, ok: bool) -> (StepRunView, StepActionView) {
    if v.finished || v.next < 0 || v.next >= steps.len() {
        (StepRunView { finished: true, ..v }, StepActionView::Finished(v.failure))
    } else if !ok {
        let f = Some(steps[v.next].failure);
        (StepRunView { next: v.next, finished: true, failure: f }, StepActionView::Finished(f))
    } else if v.next + 1 >= steps.len() {
        (StepRunView { next: v.next + 1, finished: true, failure: None }, StepActionView::Finished(None))
    } else {
        (StepRunView { next: v.next + 1, finished: false, failure: None }, StepActionView::Run(v.next + 1))
    }
}

impl StepRun {
    /// The run as values.
    pub closed spec fn view(&self) -> StepRunView {
        StepRunView {
            next: self.next as int,
            finished: self.finished,
            failure: match self.failure {
                Some(f) => Some(f@),
                None => None,
            },
        }
    }

    /// A run of `steps` and its first action (see [`step_start_spec`]).
    pub fn start(steps: &Vec<GitStep>) -> (r: (StepRun, StepAction))
        ensures
            (r.0.view(), r.1.view()) == step_start_spec(step_views(steps@)),
    {
        if steps.len() == 0 {
            (StepRun { next: 0, finished: true, failure: None }, StepAction::Finished(None))
        } else {
            (StepRun { next: 0, finished: false, failure: None }, StepAction::Run(0))
        }
    }

    /// Takes whether the step awaiting its result succeeded (see
    /// [`step_result_spec`]).
    pub fn on_result(&mut self, steps: &Vec<GitStep>, ok: bool) -> (a: StepAction)
        ensures
            (final(self).view(), a.view()) == step_result_spec(old(self).view(), step_views(steps@), ok),
    {
        if self.finished || self.next >= steps.len() {
            self.finished = true;
            return match &self.failure {
                Some(f) => StepAction::Finished(Some(f.clone())),
                None => StepAction::Finished(None),
            };
        }
        if !ok {
            let f = steps[self.next].failure.clone();
            self.finished = true;
            self.failure = Some(f.clone());
            return StepAction::Finished(Some(f));
        }
        if self.next + 1 >= steps.len() {
            self.next = self.next + 1;
            self.finished = true;
            self.failure = None;
            return StepAction::Finished(None);
        }
        self.next = self.next + 1;
        self.failure = None;
        StepAction::Run(self.next)
    }
}

/// The run after the results `oks` came in, one per step run.
pub open spec fn run_all(v: StepRunView, steps: Seq<GitStepView>, oks: Seq<bool>) -> StepRunView
    decreases oks.len(),
{
    if oks.len() == 0 {
        v
    } else {
        run_all(step_result_spec(v, steps, oks[0]).0, steps, oks.drop_first())
    }
}

proof fn lemma_finished_stays(v: StepRunView, steps: Seq<GitStepView>, oks: Seq<bool>)
    requires
        v.finished,
    ensures
        run_all(v, steps, oks) == v,
    decreases oks.len(),
{
    if oks.len() > 0 {
        assert(step_result_spec(v, steps, oks[0]).0 == v);
        lemma_finished_stays(v, steps, oks.drop_first());
    }
}

proof fn lemma_run_from(k: int, steps: Seq<GitStepView>, oks: Seq<bool>)
    requires
        0 <= k < steps.len(),
    ensures
        run_all(StepRunView { next: k, finished: false, failure: None }, steps, oks).failure
            == first_failure_spec(steps.skip(k), oks),
    decreases oks.len(),
{
    let v = StepRunView { next: k, finished: false, failure: None };
    if oks.len() > 0 {
        let w = step_result_spec(v, steps, oks[0]).0;
        assert(run_all(v, steps, oks) == run_all(w, steps, oks.drop_first()));
        let sk = steps.skip(k);
        assert(sk.len() > 0);
        assert(sk[0] == steps[k]);
        if !oks[0] {
            lemma_finished_stays(w, steps, oks.drop_first());
            assert(first_failure_spec(sk, oks) == Some(sk[0].failure));
        } else if k + 1 >= steps.len() {
            lemma_finished_stays(w, steps, oks.drop_first());
            assert(sk.drop_first().len() == 0);
            assert(first_failure_spec(sk, oks) == first_failure_spec(sk.drop_first(), oks.drop_first()));
        } else {
            lemma_run_from(k + 1, steps, oks.drop_first());
            assert(sk.drop_first() =~= steps.skip(k + 1));
            assert(first_failure_spec(sk, oks) == first_failure_spec(sk.drop_first(), oks.drop_first()));
        }
    }
}

/// A step run ends with the failure of the first step that failed, in the
/// order the steps were run, and with none when every step run succeeded:
/// feeding it the results `oks` of the steps it asked for gives
/// [`first_failure_spec`].
pub proof fn lemma_step_run_first_failure(steps: Seq<GitStepView>, oks: Seq<bool>)
    ensures
        run_all(step_start_spec(steps).0, steps, oks).failure == first_failure_spec(steps, oks),
{
    if steps.len() == 0 {
        lemma_finished_stays(step_start_spec(steps).0, steps, oks);
    } else {
        lemma_run_from(0, steps, oks);
        assert(steps.skip(0) =~= steps);
    }
}

/// What follows a commit and push: the status, and whether the tag input
/// opens. The tag input opens only when every step succeeded and the key
/// pressed afterwards (`key`, `None` for another key) is `t` or `T`; it
/// then asks for the tag.
pub open spec fn after_commit_push_spec(failure: Option<Seq<char>>, amend: bool, key: Option<char>) -> (Seq<char>, bool) {
    match failure {
        Some(f) => (f, false),
        None => if key == Some('t') || key == Some('T') {
            ("edit tag and press Enter to create+push (Esc=cancel)"@, true)
        } else if amend {
            ("amend commit pushed with -f"@, false)
        } else {
            ("commit pushed"@, false)
        },
    }
}

/// What follows a commit and push (see [`after_commit_push_spec`]).
pub fn after_commit_push(failure: Option<String>, amend: bool, key: Option<char>) -> (r: (String, bool))
    ensures
        (r.0@, r.1) == after_commit_push_spec(
            match failure {
                Some(f) => Some(f@),
                None => None,
            },
            amend,
            key,
        ),
{
    match failure {
        Some(f) => (f, false),
        None => if key == Some('t') || key == Some('T') {
            ("edit tag and press Enter to create+push (Esc=cancel)".to_string(), true)
        } else if amend {
            ("amend commit pushed with -f".to_string(), false)
        } else {
            ("commit pushed".to_string(), false)
        },
    }
}

/// The status after a commit and push: the failure, or that the commit
/// was pushed (with `-f` for an amend).
pub fn commit_push_status(failure: Option<String>, amend: bool) -> (r: String)
    ensures
        r@ == match failure {
            Some(f) => f@,
            None => if amend { "amend commit pushed with -f"@ } else { "commit pushed"@ },
        },
{
    match failure {
        Some(f) => f,
        None => if amend { "amend commit pushed with -f".to_string() } else { "commit pushed".to_string() },
    }
}

/// The status after a tag push: the failure, or `tag pushed: TAG`.
pub fn tag_push_status(failure: Option<String>, tag: &str) -> (r: String)
    ensures
        r@ == match failure {
            Some(f) => f@,
            None => "tag pushed: "@ + tag@,
        },
{
    match failure {
        Some(f) => f,
        None => concat_str("tag pushed: ", tag),
    }
}

/// What the header shows of a repository: the branch (or short commit),
/// whether tracked files changed, and the latest tag with the commits
/// since it.
pub struct GitInfo {
    pub branch: String,
    pub dirty: bool,
    pub tag: Option<(String, u64)>,
}

/// The repository facts as values.
pub struct GitInfoView {
    pub branch: Seq<char>,
    pub dirty: bool,
    pub tag: Option<(Seq<char>, u64)>,
}

impl GitInfo {
    pub open spec fn view(&self) -> GitInfoView {
        GitInfoView {
            branch: self.branch@,
            dirty: self.dirty,
            tag: match self.tag {
                Some(t) => Some((t.0@, t.1)),
                None => None,
            },
        }
    }
}

/// How a git command ended: whether it could be started, whether it
/// succeeded, its exit code, and what it printed.
pub struct CommandResult {
    pub spawned: bool,
    pub success: bool,
    pub code: Option<i32>,
    pub stdout: String,
}

/// Which command the probe waits on.
#[derive(Clone, Copy, PartialEq, Eq, Structural, Debug)]
pub enum GitProbeStage {
    SymbolicRef,
    RevParse,
    DiffIndex,
    LatestTag,
    RevListCount,
    Finished,
}

/// Gathers [`GitInfo`] for a directory by running git commands one by one.
pub struct GitInfoProbe {
    path: String,
    stage: GitProbeStage,
    branch: String,
    dirty: bool,
    tag: String,
}

/// What the caller does next: run git with these arguments (capturing what
/// it prints, or only its exit status), or take the finished result.
pub enum GitProbeAction {
    RunForOutput(Vec<String>),
    RunForStatus(Vec<String>),
    Finished(Option<GitInfo>),
}

/// An action as values.
pub enum GitProbeActionView {
    RunForOutput(Seq<Seq<char>>),
    RunForStatus(Seq<Seq<char>>),
    Finished(Option<GitInfoView>),
}

impl GitProbeAction {
    pub open spec fn view(&self) -> GitProbeActionView {
        match self {
            GitProbeAction::RunForOutput(a) => GitProbeActionView::RunForOutput(a@.map_values(|x: String| x@)),
            GitProbeAction::RunForStatus(a) => GitProbeActionView::RunForStatus(a@.map_values(|x: String| x@)),
            GitProbeAction::Finished(i) => GitProbeActionView::Finished(match i {
                Some(g) => Some(g.view()),
                None => None,
            }),
        }
    }
}

/// Where the probe stands, as values.
pub struct GitProbeView {
    pub path: Seq<char>,
    pub stage: GitProbeStage,
    pub branch: Seq<char>,
    pub dirty: bool,
    pub tag: Seq<char>,
}

/// The git arguments for each command of the probe.
pub open spec fn probe_args(path: Seq<char>, stage: GitProbeStage, tag: Seq<char>) -> Seq<Seq<char>> {
    match stage {
        GitProbeStage::SymbolicRef => seq!["-C"@, path, "symbolic-ref"@, "--short"@, "-q"@, "HEAD"@],
        GitProbeStage::RevParse => seq!["-C"@, path, "rev-parse"@, "--short"@, "HEAD"@],
        GitProbeStage::DiffIndex => seq!["-C"@, path, "diff-index"@, "--quiet"@, "HEAD"@, "--"@],
        GitProbeStage::LatestTag => seq![
            "-C"@,
            path,
            "for-each-ref"@,
            "refs/tags"@,
            "--sort=-v:refname"@,
            "--count=1"@,
            "--format=%(refname:short)"@,
        ],
        GitProbeStage::RevListCount => seq!["-C"@, path, "rev-list"@, "--count"@, tag + "..HEAD"@],
        GitProbeStage::Finished => seq![],
    }
}

/// The probe moved on to `stage`, and the command it runs there.
pub open spec fn run_stage(p: GitProbeView, stage: GitProbeStage) -> (GitProbeView, GitProbeActionView) {
    let q = GitProbeView { stage, ..p };
    (q, if stage == GitProbeStage::DiffIndex {
        GitProbeActionView::RunForStatus(probe_args(p.path, stage, p.tag))
    } else {
        GitProbeActionView::RunForOutput(probe_args(p.path, stage, p.tag))
    })
}

/// The probe finished with `info`.
pub open spec fn finish_probe(p: GitProbeView, info: Option<GitInfoView>) -> (GitProbeView, GitProbeActionView) {
    (GitProbeView { stage: GitProbeStage::Finished, ..p }, GitProbeActionView::Finished(info))
}

/// The next step after a command ended: the current branch (else the short
/// commit; with neither, no information), then the dirty check (exit 0:
/// clean, 1: dirty, else no information), then the latest tag and, when
/// there is one, the commits since it (0 when that count cannot be read).
pub open spec fn probe_step_spec(p: GitProbeView, spawned: bool, success: bool, code: Option<i32>, stdout: Seq<char>) -> (GitProbeView, GitProbeActionView) {
    let out = trimmed_output_spec(spawned && success, stdout);
    match p.stage {
        GitProbeStage::SymbolicRef => match out {
            Some(b) => run_stage(GitProbeView { branch: b, ..p }, GitProbeStage::DiffIndex),
            None => run_stage(p, GitProbeStage::RevParse),
        },
        GitProbeStage::RevParse => match out {
            Some(b) => run_stage(GitProbeView { branch: b, ..p }, GitProbeStage::DiffIndex),
            None => finish_probe(p, None),
        },
        GitProbeStage::DiffIndex => if spawned && code == Some(0i32) {
            run_stage(GitProbeView { dirty: false, ..p }, GitProbeStage::LatestTag)
        } else if spawned && code == Some(1i32) {
            run_stage(GitProbeView { dirty: true, ..p }, GitProbeStage::LatestTag)
        } else {
            finish_probe(p, None)
        },
        GitProbeStage::LatestTag => match out {
            Some(t) => run_stage(GitProbeView { tag: t, ..p }, GitProbeStage::RevListCount),
            None => finish_probe(p, Some(GitInfoView { branch: p.branch, dirty: p.dirty, tag: None })),
        },
        GitProbeStage::RevListCount => {
            let ahead = if spawned && success {
                match parse_u64_spec(trim(stdout)) {
                    Some(n) => n,
                    None => 0,
                }
            } else {
                0
            };
            finish_probe(p, Some(GitInfoView { branch: p.branch, dirty: p.dirty, tag: Some((p.tag, ahead)) }))
        },
        GitProbeStage::Finished => (p, GitProbeActionView::Finished(None)),
    }
}

/// The position of a stage in the probe's sequence.
pub open spec fn stage_rank(s: GitProbeStage) -> int {
    match s {
        GitProbeStage::SymbolicRef => 0,
        GitProbeStage::RevParse => 1,
        GitProbeStage::DiffIndex => 2,
        GitProbeStage::LatestTag => 3,
        GitProbeStage::RevListCount => 4,
        GitProbeStage::Finished => 5,
    }
}

/// Every answered command moves an unfinished probe to a later stage, and
/// the probe asks for another command exactly when it has not finished; so
/// a probe started with [`GitInfoProbe::new`] finishes after at most five
/// commands.
pub proof fn lemma_probe_progress(p: GitProbeView, spawned: bool, success: bool, code: Option<i32>, stdout: Seq<char>)
    requires
        p.stage != GitProbeStage::Finished,
    ensures
        ({
            let (q, a) = probe_step_spec(p, spawned, success, code, stdout);
            &&& stage_rank(q.stage) > stage_rank(p.stage)
            &&& (a is Finished) <==> q.stage == GitProbeStage::Finished
        }),
{
}

fn args_from(v: &[&str], path: &str) -> (r: Vec<String>)
    requires
        v@.len() >= 1,
    ensures
        r@.map_values(|x: String| x@) == seq![v@[0]@, path@] + v@.skip(1).map_values(|x: &str| x@),
{
    let mut r: Vec<String> = Vec::new();
    push_str(&mut r, v[0]);
    push_str(&mut r, path);
    let mut i: usize = 1;
    while i < v.len()
        invariant
            1 <= i <= v@.len(),
            r@.map_values(|x: String| x@) == seq![v@[0]@, path@] + v@.subrange(1, i as int).map_values(|x: &str| x@),
        decreases v@.len() - i,
    {
        let ghost before = r@.map_values(|x: String| x@);
        push_str(&mut r, v[i]);
        assert(v@.subrange(1, i + 1).map_values(|x: &str| x@) =~= v@.subrange(1, i as int).map_values(|x: &str| x@).push(v@[i as int]@));
        assert(r@.map_values(|x: String| x@) =~= seq![v@[0]@, path@] + v@.subrange(1, i + 1).map_values(|x: &str| x@));
        i = i + 1;
    }
    assert(v@.subrange(1, v@.len() as int) =~= v@.skip(1));
    r
}

impl GitInfoProbe {
    pub closed spec fn view(&self) -> GitProbeView {
        GitProbeView { path: self.path@, stage: self.stage, branch: self.branch@, dirty: self.dirty, tag: self.tag@ }
    }

    fn action_for(&self) -> (a: GitProbeAction)
        ensures
            a.view() == run_stage(self.view(), self.stage).1,
    {
        proof {
            reveal_strlit("-C");
            reveal_strlit("..HEAD");
        }
        let p = self.path.as_str();
        match self.stage {
            GitProbeStage::SymbolicRef => {
                let a = args_from(&["-C", "symbolic-ref", "--short", "-q", "HEAD"], p);
                assert(a@.map_values(|x: String| x@) =~= probe_args(self.view().path, self.stage, self.view().tag));
                GitProbeAction::RunForOutput(a)
            },
            GitProbeStage::RevParse => {
                let a = args_from(&["-C", "rev-parse", "--short", "HEAD"], p);
                assert(a@.map_values(|x: String| x@) =~= probe_args(self.view().path, self.stage, self.view().tag));
                GitProbeAction::RunForOutput(a)
            },
            GitProbeStage::DiffIndex => {
                let a = args_from(&["-C", "diff-index", "--quiet", "HEAD", "--"], p);
                assert(a@.map_values(|x: String| x@) =~= probe_args(self.view().path, self.stage, self.view().tag));
                GitProbeAction::RunForStatus(a)
            },
            GitProbeStage::LatestTag => {
                let a = args_from(
                    &["-C", "for-each-ref", "refs/tags", "--sort=-v:refname", "--count=1", "--format=%(refname:short)"],
                    p,
                );
                assert(a@.map_values(|x: String| x@) =~= probe_args(self.view().path, self.stage, self.view().tag));
                GitProbeAction::RunForOutput(a)
            },
            GitProbeStage::RevListCount => {
                let range = concat_str(self.tag.as_str(), "..HEAD");
                let mut a = args_from(&["-C", "rev-list", "--count"], p);
                push_str(&mut a, range.as_str());
                assert(a@.map_values(|x: String| x@) =~= probe_args(self.view().path, self.stage, self.view().tag));
                GitProbeAction::RunForOutput(a)
            },
            GitProbeStage::Finished => {
                let a: Vec<String> = Vec::new();
                assert(a@.map_values(|x: String| x@) =~= probe_args(self.view().path, self.stage, self.view().tag));
                GitProbeAction::RunForOutput(a)
            },
        }
    }

    /// A probe of the repository at `path`, and its first command.
    pub fn new(path: &str) -> (r: (Self, GitProbeAction))
        ensures
            r.0.view() == (GitProbeView { path: path@, stage: GitProbeStage::SymbolicRef, branch: Seq::empty(), dirty: false, tag: Seq::empty() }),
            r.1.view() == run_stage(r.0.view(), GitProbeStage::SymbolicRef).1,
    {
        let p = GitInfoProbe {
            path: path.to_string(),
            stage: GitProbeStage::SymbolicRef,
            branch: String::new(),
            dirty: false,
            tag: String::new(),
        };
        let a = p.action_for();
        (p, a)
    }

    /// Takes how the last command ended and says what to do next (see
    /// [`probe_step_spec`]).
    pub fn on_result(&mut self, r: &CommandResult) -> (a: GitProbeAction)
        ensures
            (final(self).view(), a.view()) == probe_step_spec(old(self).view(), r.spawned, r.success, r.code, r.stdout@),
    {
        let out = trimmed_output(r.spawned && r.success, r.stdout.as_str());
        match self.stage {
            GitProbeStage::SymbolicRef => {
                match out {
                    Some(b) => {
                        self.branch = b;
                        self.stage = GitProbeStage::DiffIndex;
                    },
                    None => {
                        self.stage = GitProbeStage::RevParse;
                    },
                }
                self.action_for()
            },
            GitProbeStage::RevParse => {
                match out {
                    Some(b) => {
                        self.branch = b;
                        self.stage = GitProbeStage::DiffIndex;
                        self.action_for()
                    },
                    None => {
                        self.stage = GitProbeStage::Finished;
                        GitProbeAction::Finished(None)
                    },
                }
            },
            GitProbeStage::DiffIndex => {
                let code_ok = r.spawned && match r.code {
                    Some(c) => c == 0 || c == 1,
                    None => false,
                };
                if code_ok {
                    self.dirty = match r.code {
                        Some(c) => c == 1,
                        None => false,
                    };
                    self.stage = GitProbeStage::LatestTag;
                    self.action_for()
                } else {
                    self.stage = GitProbeStage::Finished;
                    GitProbeAction::Finished(None)
                }
            },
            GitProbeStage::LatestTag => {
                match out {
                    Some(t) => {
                        self.tag = t;
                        self.stage = GitProbeStage::RevListCount;
                        self.action_for()
                    },
                    None => {
                        self.stage = GitProbeStage::Finished;
                        GitProbeAction::Finished(Some(GitInfo { branch: self.branch.clone(), dirty: self.dirty, tag: None }))
                    },
                }
            },
            GitProbeStage::RevListCount => {
                let ahead = if r.spawned && r.success {
                    let t = string_from_chars(trim_chars(&chars_of(r.stdout.as_str())).as_slice());
                    match parse_u64(t.as_str()) {
                        Some(n) => n,
                        None => 0,
                    }
                } else {
                    0
                };
                self.stage = GitProbeStage::Finished;
                GitProbeAction::Finished(Some(GitInfo {
                    branch: self.branch.clone(),
                    dirty: self.dirty,
                    tag: Some((self.tag.clone(), ahead)),
                }))
            },
            GitProbeStage::Finished => GitProbeAction::Finished(None),
        }
    }
}


/// Whether `s` ends with `suffix`.
pub open spec fn ends_with_seq(s: Seq<char>, suffix: Seq<char>) -> bool {
    suffix.len() <= s.len() && s.subrange(s.len() - suffix.len(), s.len() as int) == suffix
}

/// The commit step amends exactly when asked: it runs `commit -m` with the
/// message, followed by `--amend` only for an amend, and the line it shows
/// ends in `--amend` exactly then; the push is forced (`-f`) exactly for an
/// amend; the first step adds everything.
pub proof fn lemma_commit_amends_only_when_asked(message: Seq<char>, amend: bool)
    ensures
        ({
            let steps = commit_push_steps_spec(message, amend);
            &&& steps.len() == 3
            &&& steps[0].args == seq!["add"@, "--all"@]
            &&& steps[1].args.len() == (if amend { 4int } else { 3int })
            &&& steps[1].args[0] == "commit"@ && steps[1].args[1] == "-m"@ && steps[1].args[2] == message
            &&& amend ==> steps[1].args[3] == "--amend"@
            &&& ends_with_seq(steps[1].echo, "--amend"@) == amend
            &&& steps[2].args.contains("-f"@) == amend
        }),
{
    reveal_strlit("--amend");
    reveal_strlit("\" --amend");
    reveal_strlit("\"");
    reveal_strlit("-f");
    reveal_strlit("push");
    reveal_strlit("origin");
    reveal_strlit("HEAD");
    let steps = commit_push_steps_spec(message, amend);
    let e = steps[1].echo;
    if amend {
        let tail = "\" --amend"@;
        assert(e =~= ("$ git commit -m \""@ + message) + tail);
        assert(e.subrange(e.len() - 7, e.len() as int) =~= tail.subrange(2, 9));
        assert(tail.subrange(2, 9) =~= "--amend"@);
        assert(steps[2].args[3] == "-f"@);
    } else {
        assert(e =~= ("$ git commit -m \""@ + message) + "\""@);
        assert(e[e.len() - 1] == '"');
        assert("--amend"@[6] == 'd');
        if ends_with_seq(e, "--amend"@) {
            assert(e.subrange(e.len() - 7, e.len() as int)[6] == e[e.len() - 1]);
        }
        let a = steps[2].args;
        assert forall|k: int| 0 <= k < a.len() implies a[k] != "-f"@ by {
            if k == 0 { assert(a[k][0] != "-f"@[0]); }
            if k == 1 { assert(a[k][0] != "-f"@[0]); }
            if k == 2 { assert(a[k][0] != "-f"@[0]); }
        }
    }
}

} // verus!
