//! Carrying out a plan.
//!
//! The machine here touches nothing. It says which operation is due, is
//! told how the operation went, and decides what follows: the next
//! operation, or the end of the run. Operations run strictly in the order
//! of the script, and the first failure that matters ends the run.

use vstd::prelude::*;
use vstd::string::*;
use super::plan::{PlanStateView, SystemdBootPlan};
use super::script::{compile, plan_script, ExecEnv, ExecEnvView, Failure, Op, OpView, Side};
use super::{stale_artifacts, stale_artifacts_spec, stale_entries, stale_entries_spec};
use crate::checksum::{checksum, crc32_iscsi};
use crate::error::{BootError, BootErrorView};
use crate::text::{clone_strings, concat3, join_path, join_path_spec, owned};

verus! {

/// How an operation went.
#[derive(Debug, PartialEq)]
#[allow(inconsistent_fields)]
pub enum Event {
    /// It was done.
    Done,
    /// It could not be done; the text says why.
    Failed { message: String },
    /// The program ran to its end, with success or without.
    Exit { success: bool },
    /// The names found in the directory; `None` where there is no such
    /// directory.
    Listing { names: Option<Vec<String>> },
    /// What the file holds.
    Contents { bytes: Vec<u8> },
}

/// The mathematical value of an [`Event`].
#[allow(inconsistent_fields)]
pub enum EventView {
    Done,
    Failed { message: Seq<char> },
    Exit { success: bool },
    Listing { names: Option<Seq<Seq<char>>> },
    Contents { bytes: Seq<u8> },
}

impl View for Event {
    type V = EventView;

    open spec fn view(&self) -> EventView {
        match self {
            Event::Done => EventView::Done,
            Event::Failed { message } => EventView::Failed { message: message@ },
            Event::Exit { success } => EventView::Exit { success: *success },
            Event::Listing { names } => EventView::Listing { names: names.deep_view() },
            Event::Contents { bytes } => EventView::Contents { bytes: bytes@ },
        }
    }
}

/// What is to be done next.
#[derive(Debug, PartialEq)]
#[allow(inconsistent_fields)]
pub enum Action {
    /// Tell the user; answer with anything.
    Log { message: String },
    /// Delete the file; answer `Done` or `Failed`.
    RemoveFile { path: String },
    /// Run the program to its end, with its output discarded where `quiet`;
    /// answer `Exit`, or `Failed` where it could not be started.
    Run { program: String, args: Vec<String>, quiet: bool },
    /// Copy the file; answer `Done` or `Failed`.
    CopyFile { from: String, to: String },
    /// Write the file; answer `Done` or `Failed`.
    WriteFile { path: String, contents: String },
    /// Merge the tree `from` into `to`; answer `Done` or `Failed`.
    CopyTree { from: String, to: String },
    /// Delete the tree; answer `Done` or `Failed`.
    RemoveTree { path: String },
    /// Ask for the file system to be written out; answer with anything.
    Syncfs { path: String },
    /// List the directory; answer `Listing` or `Failed`.
    ListDir { path: String },
    /// Read the file; answer `Contents` or `Failed`.
    ReadFile { path: String },
    /// The run is over.
    Finished { result: Result<(), BootError> },
}

/// The mathematical value of an [`Action`].
#[allow(inconsistent_fields)]
pub enum ActionView {
    Log { message: Seq<char> },
    RemoveFile { path: Seq<char> },
    Run { program: Seq<char>, args: Seq<Seq<char>>, quiet: bool },
    CopyFile { from: Seq<char>, to: Seq<char> },
    WriteFile { path: Seq<char>, contents: Seq<char> },
    CopyTree { from: Seq<char>, to: Seq<char> },
    RemoveTree { path: Seq<char> },
    Syncfs { path: Seq<char> },
    ListDir { path: Seq<char> },
    ReadFile { path: Seq<char> },
    Finished { result: Result<(), BootErrorView> },
}

impl View for Action {
    type V = ActionView;

    open spec fn view(&self) -> ActionView {
        match self {
            Action::Log { message } => ActionView::Log { message: message@ },
            Action::RemoveFile { path } => ActionView::RemoveFile { path: path@ },
            Action::Run { program, args, quiet } => ActionView::Run {
                program: program@,
                args: args.deep_view(),
                quiet: *quiet,
            },
            Action::CopyFile { from, to } => ActionView::CopyFile { from: from@, to: to@ },
            Action::WriteFile { path, contents } => ActionView::WriteFile {
                path: path@,
                contents: contents@,
            },
            Action::CopyTree { from, to } => ActionView::CopyTree { from: from@, to: to@ },
            Action::RemoveTree { path } => ActionView::RemoveTree { path: path@ },
            Action::Syncfs { path } => ActionView::Syncfs { path: path@ },
            Action::ListDir { path } => ActionView::ListDir { path: path@ },
            Action::ReadFile { path } => ActionView::ReadFile { path: path@ },
            Action::Finished { result } => ActionView::Finished {
                result: match result {
                    Ok(_) => Ok(()),
                    Err(e) => Err(e@),
                },
            },
        }
    }
}

/// The machine that carries out a script.
#[derive(Debug)]
pub struct Executor {
    /// The operations that are left; the first is the one that is due.
    pub queue: Vec<Op>,
    /// The checksum last taken of a staged file.
    pub generated_sum: Option<u32>,
    /// The checksum last taken of a file on the partition.
    pub esp_sum: Option<u32>,
    /// The error that ended the run, if one did.
    pub failed: Option<BootError>,
}

/// The mathematical value of an [`Executor`].
pub struct ExecutorView {
    pub queue: Seq<OpView>,
    pub generated_sum: Option<u32>,
    pub esp_sum: Option<u32>,
    pub failed: Option<BootErrorView>,
}

impl View for Executor {
    type V = ExecutorView;

    open spec fn view(&self) -> ExecutorView {
        ExecutorView {
            queue: self.queue.deep_view(),
            generated_sum: self.generated_sum,
            esp_sum: self.esp_sum,
            failed: self.failed.deep_view(),
        }
    }
}

impl ExecutorView {
    /// Whether the run is over.
    pub open spec fn finished(self) -> bool {
        self.failed is Some || self.queue.len() == 0
    }

    /// Whether the two checksums last taken agree.
    pub open spec fn sums_agree(self) -> bool {
        self.generated_sum is Some && self.generated_sum == self.esp_sum
    }

    /// The machine once the due operation has been dealt with and
    /// `expansion` is to run before what was left.
    pub open spec fn proceed(self, expansion: Seq<OpView>) -> ExecutorView {
        ExecutorView { queue: expansion + self.queue.drop_first(), ..self }
    }

    /// The machine once `error` has ended the run on the operation that was
    /// due.
    pub open spec fn abort(self, error: BootErrorView) -> ExecutorView {
        ExecutorView { failed: Some(error), queue: self.queue.drop_first(), ..self }
    }
}

/// What is said of a pair once its checksums are known.
pub open spec fn decide_note(same: bool, generated: Seq<char>, esp: Seq<char>) -> Seq<char> {
    if same {
        esp + " and "@ + generated + " are the same file"@
    } else {
        esp + " is different from "@ + generated + " and will be replaced"@
    }
}

/// What is said where a tree is not pruned.
pub open spec fn prune_skip_note(root: Seq<char>) -> Seq<char> {
    "'"@ + root + "' holds no entries or no kernels, not removing anything"@
}

/// What is said of an answer that does not fit the operation.
pub open spec fn unexpected_answer() -> BootErrorView {
    BootErrorView::Io { message: "the answer does not fit the operation"@ }
}

/// The operation that the machine asks for.
pub open spec fn action_spec(m: ExecutorView) -> ActionView {
    if m.failed is Some {
        ActionView::Finished { result: Err(m.failed->0) }
    } else if m.queue.len() == 0 {
        ActionView::Finished { result: Ok(()) }
    } else {
        match m.queue[0] {
            OpView::Note { message } => ActionView::Log { message },
            OpView::RemoveFile { path } => ActionView::RemoveFile { path },
            OpView::Run { program, args, quiet, .. } => ActionView::Run { program, args, quiet },
            OpView::CopyFile { from, to } => ActionView::CopyFile { from, to },
            OpView::WriteFile { path, contents } => ActionView::WriteFile { path, contents },
            OpView::CopyTree { from, to } => ActionView::CopyTree { from, to },
            OpView::RemoveTree { path } => ActionView::RemoveTree { path },
            OpView::Syncfs { path } => ActionView::Syncfs { path },
            OpView::ListEntries { root, .. } => ActionView::ListDir {
                path: join_path_spec(root, "loader/entries"@),
            },
            OpView::ListArtifacts { root, .. } => ActionView::ListDir {
                path: join_path_spec(root, "EFI/nixos"@),
            },
            OpView::ReadSum { path, .. } => ActionView::ReadFile { path },
            OpView::Decide { generated, esp } => ActionView::Log {
                message: decide_note(m.sums_agree(), generated, esp),
            },
        }
    }
}

/// The error that the failure of a program amounts to.
pub open spec fn run_error(
    failure: Failure,
    program: Seq<char>,
    args: Seq<Seq<char>>,
    subject: Seq<char>,
) -> BootErrorView {
    match failure {
        Failure::Command => BootErrorView::CommandFailed { program, args },
        Failure::Sign => BootErrorView::NotSigned { file: subject },
        Failure::Verify => BootErrorView::NotVerified { file: subject },
        Failure::VerifyWarn => BootErrorView::NotVerified { file: subject },
        Failure::Strip => BootErrorView::NotStripped { file: subject },
    }
}

/// The deletions of `names` in the directory `dir`.
pub open spec fn removals(dir: Seq<char>, names: Seq<Seq<char>>) -> Seq<OpView> {
    Seq::new(names.len(), |i: int| OpView::RemoveFile { path: join_path_spec(dir, names[i]) })
}

/// The machine after the answer `e` to the operation that was due.
pub open spec fn after_spec(m: ExecutorView, e: EventView) -> ExecutorView {
    if m.finished() {
        m
    } else {
        let none = Seq::<OpView>::empty();
        match m.queue[0] {
            OpView::Note { .. } => m.proceed(none),
            OpView::Syncfs { .. } => m.proceed(none),
            OpView::RemoveFile { .. }
            | OpView::CopyFile { .. }
            | OpView::WriteFile { .. }
            | OpView::CopyTree { .. }
            | OpView::RemoveTree { .. } => match e {
                EventView::Done => m.proceed(none),
                EventView::Failed { message } => m.abort(BootErrorView::Io { message }),
                _ => m.abort(unexpected_answer()),
            },
            OpView::Run { program, args, failure, subject, .. } => match e {
                EventView::Exit { success } => if success {
                    m.proceed(none)
                } else if failure == Failure::VerifyWarn {
                    m.proceed(
                        seq![
                            OpView::Note {
                                message: run_error(failure, program, args, subject).message(),
                            },
                        ],
                    )
                } else {
                    m.abort(run_error(failure, program, args, subject))
                },
                EventView::Failed { message } => if failure == Failure::VerifyWarn {
                    m.proceed(seq![OpView::Note { message }])
                } else {
                    m.abort(BootErrorView::Io { message })
                },
                _ => m.abort(unexpected_answer()),
            },
            OpView::ListEntries { root, required } => match e {
                EventView::Listing { names } => match names {
                    Some(entries) => m.proceed(
                        seq![OpView::ListArtifacts { root, required, entries }],
                    ),
                    None => m.proceed(seq![OpView::Note { message: prune_skip_note(root) }]),
                },
                EventView::Failed { message } => m.abort(BootErrorView::Io { message }),
                _ => m.abort(unexpected_answer()),
            },
            OpView::ListArtifacts { root, required, entries } => match e {
                EventView::Listing { names } => match names {
                    Some(artifacts) => match stale_entries_spec(entries, required) {
                        Ok(stale) => m.proceed(
                            removals(join_path_spec(root, "loader/entries"@), stale) + removals(
                                join_path_spec(root, "EFI/nixos"@),
                                stale_artifacts_spec(artifacts, required),
                            ),
                        ),
                        Err(error) => m.abort(error@),
                    },
                    None => m.proceed(seq![OpView::Note { message: prune_skip_note(root) }]),
                },
                EventView::Failed { message } => m.abort(BootErrorView::Io { message }),
                _ => m.abort(unexpected_answer()),
            },
            OpView::ReadSum { side, .. } => match e {
                EventView::Contents { bytes } => match side {
                    Side::Generated => ExecutorView {
                        generated_sum: Some(crc32_iscsi(bytes)),
                        ..m.proceed(none)
                    },
                    Side::Esp => ExecutorView { esp_sum: Some(crc32_iscsi(bytes)), ..m.proceed(none) },
                },
                EventView::Failed { message } => m.abort(BootErrorView::Io { message }),
                _ => m.abort(unexpected_answer()),
            },
            OpView::Decide { generated, .. } => if m.sums_agree() {
                m.proceed(seq![OpView::RemoveFile { path: generated }])
            } else {
                m.proceed(none)
            },
        }
    }
}

fn removal_ops(dir: &str, names: &Vec<String>, out: &mut Vec<Op>)
    ensures
        final(out).deep_view() == old(out).deep_view() + removals(dir@, names.deep_view()),
{
    let ghost before = out.deep_view();
    let ghost all = removals(dir@, names.deep_view());
    let mut i: usize = 0;
    assert(out.deep_view() =~= before + all.take(0));
    while i < names.len()
        invariant
            i <= names.len(),
            all == removals(dir@, names.deep_view()),
            out.deep_view() == before + all.take(i as int),
        decreases names.len() - i,
    {
        let ghost sofar = out.deep_view();
        out.push(Op::RemoveFile { path: join_path(dir, names[i].as_str()) });
        i += 1;
        proof {
            assert(out.deep_view() =~= sofar.push(all[i as int - 1]));
            assert(all.take(i as int) =~= all.take(i as int - 1).push(all[i as int - 1]));
        }
    }
    assert(all.take(names.len() as int) =~= all);
}

fn make_run_error(failure: Failure, program: String, args: Vec<String>, subject: String) -> (e:
    BootError)
    ensures
        e@ == run_error(failure, program@, args.deep_view(), subject@),
{
    match failure {
        Failure::Command => BootError::CommandFailed { program, args },
        Failure::Sign => BootError::NotSigned { file: subject },
        Failure::Verify => BootError::NotVerified { file: subject },
        Failure::VerifyWarn => BootError::NotVerified { file: subject },
        Failure::Strip => BootError::NotStripped { file: subject },
    }
}

fn no_ops() -> (ops: Vec<Op>)
    ensures
        ops.deep_view() == Seq::<OpView>::empty(),
{
    let ops: Vec<Op> = Vec::new();
    assert(ops.deep_view() =~= Seq::<OpView>::empty());
    ops
}

fn one_op(op: Op) -> (ops: Vec<Op>)
    ensures
        ops.deep_view() == seq![op@],
{
    let mut ops: Vec<Op> = Vec::new();
    ops.push(op);
    assert(ops.deep_view() =~= seq![op@]);
    ops
}

fn unexpected() -> (e: BootError)
    ensures
        e@ == unexpected_answer(),
{
    BootError::Io { message: owned("the answer does not fit the operation") }
}

fn skip_note(root: &str) -> (op: Op)
    ensures
        op@ == (OpView::Note { message: prune_skip_note(root@) }),
{
    Op::Note {
        message: concat3("'", root, "' holds no entries or no kernels, not removing anything"),
    }
}

/// What dealing with one operation comes to.
enum Verdict {
    /// Go on, with these operations before what was left.
    Proceed(Vec<Op>),
    /// The run is over.
    Abort(BootError),
}

impl Executor {
    /// A machine that is about to carry out `plan`.
    pub fn new(env: &ExecEnv, plan: &SystemdBootPlan) -> (m: Executor)
        ensures
            m@.queue == plan_script(env@, plan.deep_view()),
            m@.generated_sum is None,
            m@.esp_sum is None,
            m@.failed is None,
    {
        Executor { queue: compile(env, plan), generated_sum: None, esp_sum: None, failed: None }
    }

    /// Whether the run is over.
    pub fn is_finished(&self) -> (r: bool)
        ensures
            r == self@.finished(),
    {
        self.failed.is_some() || self.queue.len() == 0
    }

    /// The operation that is due, or the end of the run.
    pub fn action(&self) -> (a: Action)
        ensures
            a@ == action_spec(self@),
    {
        if let Some(error) = &self.failed {
            return Action::Finished { result: Err(error.clone()) };
        }
        if self.queue.len() == 0 {
            return Action::Finished { result: Ok(()) };
        }
        match &self.queue[0] {
            Op::Note { message } => Action::Log { message: message.clone() },
            Op::RemoveFile { path } => Action::RemoveFile { path: path.clone() },
            Op::Run { program, args, quiet, .. } => Action::Run {
                program: program.clone(),
                args: clone_strings(args),
                quiet: *quiet,
            },
            Op::CopyFile { from, to } => Action::CopyFile { from: from.clone(), to: to.clone() },
            Op::WriteFile { path, contents } => Action::WriteFile {
                path: path.clone(),
                contents: contents.clone(),
            },
            Op::CopyTree { from, to } => Action::CopyTree { from: from.clone(), to: to.clone() },
            Op::RemoveTree { path } => Action::RemoveTree { path: path.clone() },
            Op::Syncfs { path } => Action::Syncfs { path: path.clone() },
            Op::ListEntries { root, .. } => Action::ListDir {
                path: join_path(root.as_str(), "loader/entries"),
            },
            Op::ListArtifacts { root, .. } => Action::ListDir {
                path: join_path(root.as_str(), "EFI/nixos"),
            },
            Op::ReadSum { path, .. } => Action::ReadFile { path: path.clone() },
            Op::Decide { generated, esp } => {
                let same = self.sums_agree();
                let mut message = esp.clone();
                if same {
                    message.append(" and ");
                    message.append(generated.as_str());
                    message.append(" are the same file");
                } else {
                    message.append(" is different from ");
                    message.append(generated.as_str());
                    message.append(" and will be replaced");
                }
                Action::Log { message }
            },
        }
    }

    fn sums_agree(&self) -> (r: bool)
        ensures
            r == self@.sums_agree(),
    {
        match (self.generated_sum, self.esp_sum) {
            (Some(a), Some(b)) => a == b,
            _ => false,
        }
    }

    /// Takes the answer to the operation that was due and says what is to be
    /// done next. Once the run is over, it stays over.
    pub fn next(&mut self, event: Event) -> (a: Action)
        ensures
            final(self)@ == after_spec(old(self)@, event@),
            a@ == action_spec(final(self)@),
    {
        if self.is_finished() {
            return self.action();
        }
        let ghost m = self@;
        let ghost e = event@;
        let same = self.sums_agree();
        let op = self.queue.remove(0);
        assert(self.queue.deep_view() =~= m.queue.drop_first());
        assert(op@ == m.queue[0]);
        let verdict = match op {
            Op::Note { .. } => Verdict::Proceed(no_ops()),
            Op::Syncfs { .. } => Verdict::Proceed(no_ops()),
            Op::RemoveFile { .. }
            | Op::CopyFile { .. }
            | Op::WriteFile { .. }
            | Op::CopyTree { .. }
            | Op::RemoveTree { .. } => match event {
                Event::Done => Verdict::Proceed(no_ops()),
                Event::Failed { message } => Verdict::Abort(BootError::Io { message }),
                _ => Verdict::Abort(unexpected()),
            },
            Op::Run { program, args, failure, subject, .. } => match event {
                Event::Exit { success } => if success {
                    Verdict::Proceed(no_ops())
                } else {
                    let error = make_run_error(failure, program, args, subject);
                    match failure {
                        Failure::VerifyWarn => Verdict::Proceed(
                            one_op(Op::Note { message: error.message() }),
                        ),
                        _ => Verdict::Abort(error),
                    }
                },
                Event::Failed { message } => match failure {
                    Failure::VerifyWarn => Verdict::Proceed(one_op(Op::Note { message })),
                    _ => Verdict::Abort(BootError::Io { message }),
                },
                _ => Verdict::Abort(unexpected()),
            },
            Op::ListEntries { root, required } => match event {
                Event::Listing { names } => match names {
                    Some(entries) => Verdict::Proceed(
                        one_op(Op::ListArtifacts { root, required, entries }),
                    ),
                    None => Verdict::Proceed(one_op(skip_note(root.as_str()))),
                },
                Event::Failed { message } => Verdict::Abort(BootError::Io { message }),
                _ => Verdict::Abort(unexpected()),
            },
            Op::ListArtifacts { root, required, entries } => match event {
                Event::Listing { names } => match names {
                    Some(artifacts) => match stale_entries(&entries, &required) {
                        Ok(stale) => {
                            let mut more: Vec<Op> = no_ops();
                            let entries_dir = join_path(root.as_str(), "loader/entries");
                            let artifacts_dir = join_path(root.as_str(), "EFI/nixos");
                            removal_ops(entries_dir.as_str(), &stale, &mut more);
                            let old_artifacts = stale_artifacts(&artifacts, &required);
                            removal_ops(artifacts_dir.as_str(), &old_artifacts, &mut more);
                            Verdict::Proceed(more)
                        },
                        Err(error) => Verdict::Abort(error),
                    },
                    None => Verdict::Proceed(one_op(skip_note(root.as_str()))),
                },
                Event::Failed { message } => Verdict::Abort(BootError::Io { message }),
                _ => Verdict::Abort(unexpected()),
            },
            Op::ReadSum { side, .. } => match event {
                Event::Contents { bytes } => {
                    let sum = checksum(bytes.as_slice());
                    match side {
                        Side::Generated => {
                            self.generated_sum = Some(sum);
                        },
                        Side::Esp => {
                            self.esp_sum = Some(sum);
                        },
                    }
                    Verdict::Proceed(no_ops())
                },
                Event::Failed { message } => Verdict::Abort(BootError::Io { message }),
                _ => Verdict::Abort(unexpected()),
            },
            Op::Decide { generated, .. } => if same {
                Verdict::Proceed(one_op(Op::RemoveFile { path: generated }))
            } else {
                Verdict::Proceed(no_ops())
            },
        };
        match verdict {
            Verdict::Proceed(mut more) => {
                let ghost head = more.deep_view();
                let ghost tail = self.queue.deep_view();
                more.append(&mut self.queue);
                self.queue = more;
                assert(self.queue.deep_view() =~= head + tail);
                assert(self@ == after_spec(m, e));
            },
            Verdict::Abort(error) => {
                self.failed = Some(error);
                assert(self@ == after_spec(m, e));
            },
        }
        self.action()
    }
}

/// Whether the failure of an operation ends the run.
pub open spec fn is_hard(op: OpView) -> bool {
    match op {
        OpView::Note { .. } => false,
        OpView::Syncfs { .. } => false,
        OpView::Decide { .. } => false,
        OpView::Run { failure, .. } => failure != Failure::VerifyWarn,
        _ => true,
    }
}

/// Once the run is over it stays over: no answer changes the machine, and
/// all it asks for is to stop.
pub proof fn lemma_finished_is_final(m: ExecutorView, e: EventView)
    requires
        m.finished(),
    ensures
        after_spec(m, e) == m,
        action_spec(m) is Finished,
        action_spec(m)->result is Err <==> m.failed is Some,
{
}

/// The first failure that matters ends the run: where the operation that is
/// due fails, or the program it runs ends without success, the machine
/// stops with an error and asks for nothing more.
pub proof fn lemma_failure_ends_run(m: ExecutorView, e: EventView)
    requires
        !m.finished(),
        is_hard(m.queue[0]),
        e is Failed || (e is Exit && !e->success),
    ensures
        after_spec(m, e).failed is Some,
        after_spec(m, e).finished(),
        action_spec(after_spec(m, e)) is Finished,
        action_spec(after_spec(m, e))->result is Err,
{
}

/// Nothing is reordered and nothing is skipped: as long as the run goes on,
/// what was left behind the operation that was due is still left, in the
/// same order, and anything new runs before it.
pub proof fn lemma_order_is_kept(m: ExecutorView, e: EventView)
    requires
        !m.finished(),
        after_spec(m, e).failed is None,
    ensures
        m.queue.drop_first().is_suffix_of(after_spec(m, e).queue),
{
    let rest = m.queue.drop_first();
    let next = after_spec(m, e).queue;
    assert(next.len() >= rest.len());
    assert(next.subrange(next.len() - rest.len(), next.len() as int) =~= rest);
}

/// That the file system could not be written out does not end the run, and
/// neither does a file on the partition that fails to verify.
pub proof fn lemma_soft_failures_go_on(m: ExecutorView, e: EventView)
    requires
        !m.finished(),
        !is_hard(m.queue[0]),
        e is Failed || e is Exit,
    ensures
        after_spec(m, e).failed is None,
{
}

/// Pruning at work leaves alone what it does not manage: whatever is listed
/// and whatever is required, each deletion that follows the two listings is
/// of a listed entry with a managed name that nothing requires, or of a
/// listed kernel, initrd or image that nothing requires.
pub proof fn lemma_prune_deletes_only_stale(
    m: ExecutorView,
    root: Seq<char>,
    required: Seq<Seq<char>>,
    entries: Seq<Seq<char>>,
    artifacts: Seq<Seq<char>>,
)
    requires
        !m.finished(),
        m.queue[0] == (OpView::ListArtifacts { root, required, entries }),
        stale_entries_spec(entries, required) is Ok,
    ensures
        ({
            let next = after_spec(m, EventView::Listing { names: Some(artifacts) });
            let stale = stale_entries_spec(entries, required)->Ok_0;
            let old = stale_artifacts_spec(artifacts, required);
            &&& next.failed is None
            &&& next.queue == removals(join_path_spec(root, "loader/entries"@), stale) + removals(
                join_path_spec(root, "EFI/nixos"@),
                old,
            ) + m.queue.drop_first()
            &&& forall|i: int|
                0 <= i < stale.len() ==> entries.contains(#[trigger] stale[i])
                    && super::is_managed_entry(stale[i]) && !required.contains(stale[i])
            &&& forall|i: int|
                0 <= i < old.len() ==> artifacts.contains(#[trigger] old[i]) && !required.contains(
                    old[i],
                )
        }),
{
    super::lemma_prune_respects_unmanaged(entries, required);
    super::lemma_prune_keeps_required(artifacts, required);
}

/// Two files that hold the same bytes are never told apart: once both have
/// been read, the decision drops the staged copy, so that nothing is
/// replaced. Run twice on unchanged trees, the second run therefore
/// replaces nothing.
pub proof fn lemma_equal_contents_are_not_replaced(
    m: ExecutorView,
    bytes: Seq<u8>,
    staged: Seq<char>,
    installed: Seq<char>,
    generated: Seq<char>,
    esp: Seq<char>,
    rest: Seq<OpView>,
)
    requires
        m.failed is None,
        m.queue == seq![
            OpView::ReadSum { path: staged, side: Side::Generated },
            OpView::ReadSum { path: installed, side: Side::Esp },
            OpView::Decide { generated, esp },
        ] + rest,
    ensures
        ({
            let read = EventView::Contents { bytes };
            let decided = after_spec(after_spec(m, read), read);
            &&& decided.failed is None
            &&& decided.sums_agree()
            &&& action_spec(decided) == (ActionView::Log {
                message: decide_note(true, generated, esp),
            })
            &&& forall|e: EventView|
                #[trigger] after_spec(decided, e).queue == seq![
                    OpView::RemoveFile { path: generated },
                ] + rest
        }),
{
    let read = EventView::Contents { bytes };
    let first = after_spec(m, read);
    assert(first.queue =~= seq![
        OpView::ReadSum { path: installed, side: Side::Esp },
        OpView::Decide { generated, esp },
    ] + rest);
    let decided = after_spec(first, read);
    assert(decided.queue =~= seq![OpView::Decide { generated, esp }] + rest);
    assert forall|e: EventView|
        #[trigger] after_spec(decided, e).queue == seq![OpView::RemoveFile { path: generated }]
            + rest by {
        assert(after_spec(decided, e).queue =~= seq![OpView::RemoveFile { path: generated }]
            + rest);
    }
}

/// The script of a plan in two parts is the script of the first part
/// followed by that of the second: every operation of a step runs after
/// those of the steps before it.
pub proof fn lemma_script_follows_plan(
    env: ExecEnvView,
    first: Seq<PlanStateView>,
    second: Seq<PlanStateView>,
)
    ensures
        plan_script(env, first + second) == plan_script(env, first) + plan_script(env, second),
    decreases second.len(),
{
    if second.len() == 0 {
        assert(first + second =~= first);
        assert(plan_script(env, first) + plan_script(env, second) =~= plan_script(env, first));
    } else {
        lemma_script_follows_plan(env, first, second.drop_last());
        assert((first + second).drop_last() =~= first + second.drop_last());
        assert((first + second).last() == second.last());
        assert(plan_script(env, first + second) =~= plan_script(env, first) + plan_script(
            env,
            second,
        ));
    }
}

} // verus!
