//! One linked program: the owned handle, and the protocol that builds it from
//! compiled shaders.

use crate::driver::call_views;
use crate::driver::outcome;
use crate::driver::Call;
use crate::driver::DriverCall;
use crate::driver::DriverReply;
use crate::driver::Reply;
use crate::driver::Run;
use crate::driver::INFO_LOG_LENGTH;
use crate::driver::LINK_STATUS;
use crate::info_log::blank;
use crate::info_log::diagnostic;
use crate::info_log::reads_as;
use crate::info_log::utf8_lossy;
use crate::info_log::whitespace_buffer;
use crate::shader::Shader;
use vstd::prelude::*;

verus! {

/// A linked program object of the driver, owned by this value.
///
/// The only way to one is a build that the driver reported as linked, and the
/// only way out is [`Program::release`], which consumes it.
#[derive(Debug)]
pub struct Program {
    id: u32,
}

/// Where the linking of a program stands. Each state waits for the answer to
/// the last call of the batch that led to it.
#[derive(Debug)]
enum ProgramState {
    Creating { shaders: Vec<u32> },
    Linking { program: u32, shaders: Vec<u32> },
    Measuring { program: u32 },
    Fetching { program: u32, capacity: i32 },
}

/// A link in progress.
#[derive(Debug)]
pub struct ProgramBuild {
    state: ProgramState,
}

/// What a link asks of its caller next.
#[derive(Debug)]
pub enum ProgramStep {
    /// Issue `calls` in order, then hand the answer to the last of them to
    /// [`ProgramBuild::advance`].
    Pending { build: ProgramBuild, calls: Vec<DriverCall> },
    /// The link is over: issue `calls` in order; `result` is the program, or
    /// the driver's diagnostic.
    Finished { calls: Vec<DriverCall>, result: Result<Program, String> },
}

/// Mathematical model of a [`ProgramBuild`]. Shaders are modelled by their
/// handles, in the order in which they were given.
pub enum ProgramBuildView {
    /// Waiting for the handle of the new program object.
    Creating { shaders: Seq<u32> },
    /// Waiting for the link status.
    Linking { program: u32, shaders: Seq<u32> },
    /// Waiting for the length of the diagnostic log.
    Measuring { program: u32 },
    /// Waiting for the buffer that the log was written to.
    Fetching { program: u32, capacity: i32 },
}

/// Mathematical model of a [`ProgramStep`]. A program is modelled by its handle.
pub enum ProgramStepView {
    Pending { build: ProgramBuildView, calls: Seq<Call> },
    Finished { calls: Seq<Call>, result: Result<u32, Seq<char>> },
}

/// The handles of `shaders`, in order.
pub open spec fn handles(shaders: Seq<Shader>) -> Seq<u32> {
    Seq::new(shaders.len(), |i: int| shaders[i].handle())
}

/// One attach call per shader, in order.
pub open spec fn attach_calls(program: u32, shaders: Seq<u32>) -> Seq<Call> {
    Seq::new(shaders.len(), |i: int| Call::AttachShader { program, shader: shaders[i] })
}

/// One detach call per shader, in order.
pub open spec fn detach_calls(program: u32, shaders: Seq<u32>) -> Seq<Call> {
    Seq::new(shaders.len(), |i: int| Call::DetachShader { program, shader: shaders[i] })
}

/// The batch that links: every shader attached, the link itself, and the
/// question how it went.
pub open spec fn link_calls(program: u32, shaders: Seq<u32>) -> Seq<Call> {
    attach_calls(program, shaders) + seq![
        Call::LinkProgram { program },
        Call::GetProgramiv { program, pname: LINK_STATUS, initial: 1 },
    ]
}

impl ProgramBuildView {
    /// The first step of linking the shaders with these handles.
    pub open spec fn start(shaders: Seq<u32>) -> ProgramStepView {
        ProgramStepView::Pending {
            build: ProgramBuildView::Creating { shaders },
            calls: seq![Call::CreateProgram],
        }
    }

    /// An upper bound on the answers this build still needs before it ends.
    pub open spec fn answers_left(self) -> nat {
        match self {
            ProgramBuildView::Creating { .. } => 4,
            ProgramBuildView::Linking { .. } => 3,
            ProgramBuildView::Measuring { .. } => 2,
            ProgramBuildView::Fetching { .. } => 1,
        }
    }

    /// Whether `reply` answers the call this build waits on. A log length must
    /// not be negative, and the log must come back in a buffer as long as the
    /// one that was handed out.
    pub open spec fn accepts(self, reply: Reply) -> bool {
        match self {
            ProgramBuildView::Creating { .. } => reply is Handle,
            ProgramBuildView::Linking { .. } => reply is Value,
            ProgramBuildView::Measuring { .. } => reply is Value && reply->Value_0 >= 0,
            ProgramBuildView::Fetching { capacity, .. } => reply is Log && reply->Log_0.len()
                == capacity,
        }
    }

    /// The step that follows `reply`, or `None` if `reply` does not answer the
    /// pending call.
    pub open spec fn advance(self, reply: Reply) -> Option<ProgramStepView> {
        if !self.accepts(reply) {
            None
        } else {
            Some(
                match self {
                    ProgramBuildView::Creating { shaders } => {
                        let program = reply->Handle_0;
                        ProgramStepView::Pending {
                            build: ProgramBuildView::Linking { program, shaders },
                            calls: link_calls(program, shaders),
                        }
                    },
                    ProgramBuildView::Linking { program, shaders } => {
                        if reply->Value_0 == 0 {
                            ProgramStepView::Pending {
                                build: ProgramBuildView::Measuring { program },
                                calls: seq![
                                    Call::GetProgramiv {
                                        program,
                                        pname: INFO_LOG_LENGTH,
                                        initial: 0,
                                    },
                                ],
                            }
                        } else {
                            ProgramStepView::Finished {
                                calls: detach_calls(program, shaders),
                                result: Ok(program),
                            }
                        }
                    },
                    ProgramBuildView::Measuring { program } => {
                        let capacity = reply->Value_0;
                        ProgramStepView::Pending {
                            build: ProgramBuildView::Fetching { program, capacity },
                            calls: seq![
                                Call::GetProgramInfoLog {
                                    program,
                                    capacity,
                                    buffer: blank(capacity as int),
                                },
                            ],
                        }
                    },
                    ProgramBuildView::Fetching { .. } => ProgramStepView::Finished {
                        calls: Seq::empty(),
                        result: Err(utf8_lossy(reply->Log_0)),
                    },
                },
            )
        }
    }
}

impl View for ProgramBuild {
    type V = ProgramBuildView;

    closed spec fn view(&self) -> ProgramBuildView {
        match self.state {
            ProgramState::Creating { shaders } => ProgramBuildView::Creating { shaders: shaders@ },
            ProgramState::Linking { program, shaders } => ProgramBuildView::Linking {
                program,
                shaders: shaders@,
            },
            ProgramState::Measuring { program } => ProgramBuildView::Measuring { program },
            ProgramState::Fetching { program, capacity } => ProgramBuildView::Fetching {
                program,
                capacity,
            },
        }
    }
}

impl View for ProgramStep {
    type V = ProgramStepView;

    open spec fn view(&self) -> ProgramStepView {
        match *self {
            ProgramStep::Pending { build, calls } => ProgramStepView::Pending {
                build: build@,
                calls: call_views(calls@),
            },
            ProgramStep::Finished { calls, result } => ProgramStepView::Finished {
                calls: call_views(calls@),
                result: match result {
                    Ok(program) => Ok(program.handle()),
                    Err(message) => Err(message@),
                },
            },
        }
    }
}

impl ProgramStep {
    /// The step that ends a link with the driver's diagnostic. Nothing is
    /// left to issue: the shaders stay attached to the program object that
    /// failed to link, and that object is not deleted.
    pub fn rejected(message: String) -> (step: ProgramStep)
        ensures
            step@ == (ProgramStepView::Finished { calls: Seq::empty(), result: Err(message@) }),
    {
        let calls: Vec<DriverCall> = Vec::new();
        assert(call_views(calls@) =~= Seq::<Call>::empty());
        ProgramStep::Finished { calls, result: Err(message) }
    }
}

/// Appends one attach call per shader.
fn push_attach_calls(calls: &mut Vec<DriverCall>, program: u32, shaders: &Vec<u32>)
    ensures
        call_views(final(calls)@) == call_views(old(calls)@) + attach_calls(program, shaders@),
{
    let ghost before = calls@;
    let mut i: usize = 0;
    while i < shaders.len()
        invariant
            i <= shaders.len(),
            calls@.len() == before.len() + i,
            forall|j: int| 0 <= j < before.len() ==> calls@[j] == before[j],
            forall|k: int|
                before.len() <= k < calls@.len() ==> (#[trigger] calls@[k])@
                    == (Call::AttachShader { program, shader: shaders@[k - before.len()] }),
        decreases shaders.len() - i,
    {
        calls.push(DriverCall::AttachShader { program, shader: shaders[i] });
        i += 1;
    }
    assert(call_views(calls@) =~= call_views(before) + attach_calls(program, shaders@));
}

/// One detach call per shader.
fn detach_batch(program: u32, shaders: &Vec<u32>) -> (calls: Vec<DriverCall>)
    ensures
        call_views(calls@) == detach_calls(program, shaders@),
{
    let mut calls: Vec<DriverCall> = Vec::new();
    let mut i: usize = 0;
    while i < shaders.len()
        invariant
            i <= shaders.len(),
            calls@.len() == i,
            forall|j: int|
                0 <= j < i ==> (#[trigger] calls@[j])@ == (Call::DetachShader {
                    program,
                    shader: shaders@[j],
                }),
        decreases shaders.len() - i,
    {
        calls.push(DriverCall::DetachShader { program, shader: shaders[i] });
        i += 1;
    }
    assert(call_views(calls@) =~= detach_calls(program, shaders@));
    calls
}

impl Program {
    /// The driver's handle of this program.
    pub closed spec fn handle(&self) -> u32 {
        self.id
    }

    /// Begins linking `shaders`, in the order given, into a new program. The
    /// shaders are only read: they stay with the caller, who may release them
    /// once the link is over.
    pub fn from_shaders(shaders: &[Shader]) -> (step: ProgramStep)
        ensures
            step@ == ProgramBuildView::start(handles(shaders@)),
    {
        let mut ids: Vec<u32> = Vec::new();
        let mut i: usize = 0;
        while i < shaders.len()
            invariant
                i <= shaders.len(),
                ids@ == handles(shaders@.take(i as int)),
            decreases shaders.len() - i,
        {
            ids.push(shaders[i].id());
            i += 1;
            assert(ids@ =~= handles(shaders@.take(i as int)));
        }
        assert(shaders@.take(i as int) =~= shaders@);
        let mut calls: Vec<DriverCall> = Vec::new();
        calls.push(DriverCall::CreateProgram);
        assert(call_views(calls@) =~= seq![Call::CreateProgram]);
        ProgramStep::Pending {
            build: ProgramBuild { state: ProgramState::Creating { shaders: ids } },
            calls,
        }
    }

    /// The driver's handle of this program.
    pub fn id(&self) -> (id: u32)
        ensures
            id == self.handle(),
    {
        self.id
    }

    /// The call that selects this program.
    pub open spec fn use_call(&self) -> Call {
        Call::UseProgram { program: self.handle() }
    }

    /// The call that makes this program the one that subsequent draw calls
    /// run. The program itself is left as it is, so every use asks for the
    /// same call.
    pub fn set_used(&self) -> (call: DriverCall)
        ensures
            call@ == self.use_call(),
    {
        DriverCall::UseProgram { program: self.id }
    }

    /// The call that deletes this program's driver object.
    pub open spec fn release_call(&self) -> Call {
        Call::DeleteProgram { program: self.handle() }
    }

    /// Gives the program up. The value is consumed, and the one call returned
    /// deletes the driver object it owned.
    pub fn release(self) -> (call: DriverCall)
        ensures
            call@ == self.release_call(),
    {
        DriverCall::DeleteProgram { program: self.id }
    }
}

impl ProgramBuild {
    /// Takes the driver's answer to the pending call and decides what comes
    /// next.
    ///
    /// Returns `None` exactly when `reply` does not answer the pending call.
    /// Where the build ends with a diagnostic, the text is what the buffer that
    /// came back reads as: it is empty only if the driver reported a log of
    /// length zero.
    pub fn advance(self, reply: DriverReply) -> (next: Option<ProgramStep>)
        ensures
            (match next {
                Some(step) => self@.advance(reply@) == Some(step@),
                None => self@.advance(reply@) is None,
            }),
            self@ is Fetching && self@.accepts(reply@) ==> (next matches Some(
                ProgramStep::Finished { result: Err(message), .. },
            ) && reads_as(reply@->Log_0, message@)),
    {
        match self.state {
            ProgramState::Creating { shaders } => match reply {
                DriverReply::Handle(program) => {
                    let mut calls: Vec<DriverCall> = Vec::new();
                    assert(call_views(calls@) =~= Seq::<Call>::empty());
                    push_attach_calls(&mut calls, program, &shaders);
                    let ghost attached = call_views(calls@);
                    calls.push(DriverCall::LinkProgram { program });
                    calls.push(DriverCall::GetProgramiv { program, pname: LINK_STATUS, initial: 1 });
                    assert(call_views(calls@) =~= attached + seq![
                        Call::LinkProgram { program },
                        Call::GetProgramiv { program, pname: LINK_STATUS, initial: 1 },
                    ]);
                    assert(attached =~= attach_calls(program, shaders@));
                    Some(
                        ProgramStep::Pending {
                            build: ProgramBuild { state: ProgramState::Linking { program, shaders } },
                            calls,
                        },
                    )
                },
                _ => None,
            },
            ProgramState::Linking { program, shaders } => match reply {
                DriverReply::Value(status) => {
                    if status == 0 {
                        let mut calls: Vec<DriverCall> = Vec::new();
                        calls.push(
                            DriverCall::GetProgramiv { program, pname: INFO_LOG_LENGTH, initial: 0 },
                        );
                        assert(call_views(calls@) =~= seq![
                            Call::GetProgramiv { program, pname: INFO_LOG_LENGTH, initial: 0 },
                        ]);
                        Some(
                            ProgramStep::Pending {
                                build: ProgramBuild { state: ProgramState::Measuring { program } },
                                calls,
                            },
                        )
                    } else {
                        let calls = detach_batch(program, &shaders);
                        Some(ProgramStep::Finished { calls, result: Ok(Program { id: program }) })
                    }
                },
                _ => None,
            },
            ProgramState::Measuring { program } => match reply {
                DriverReply::Value(capacity) => {
                    if capacity < 0 {
                        None
                    } else {
                        let buffer = whitespace_buffer(capacity);
                        let mut calls: Vec<DriverCall> = Vec::new();
                        calls.push(DriverCall::GetProgramInfoLog { program, capacity, buffer });
                        assert(call_views(calls@) =~= seq![
                            Call::GetProgramInfoLog {
                                program,
                                capacity,
                                buffer: blank(capacity as int),
                            },
                        ]);
                        Some(
                            ProgramStep::Pending {
                                build: ProgramBuild {
                                    state: ProgramState::Fetching { program, capacity },
                                },
                                calls,
                            },
                        )
                    }
                },
                _ => None,
            },
            ProgramState::Fetching { program, capacity } => match reply {
                DriverReply::Log(buffer) => {
                    if capacity >= 0 && buffer.len() == capacity as usize {
                        Some(ProgramStep::rejected(diagnostic(&buffer)))
                    } else {
                        None
                    }
                },
                _ => None,
            },
        }
    }
}

impl ProgramStepView {
    /// Drives a link onward from this step with the driver's answers, one per
    /// pending batch. The run stops where the answers run out or one of them
    /// does not answer the pending call; it then has no result.
    pub open spec fn run(self, replies: Seq<Reply>) -> Run
        decreases replies.len(),
    {
        match self {
            ProgramStepView::Finished { calls, result } => Run {
                calls,
                result: Some(result),
            },
            ProgramStepView::Pending { build, calls } => {
                if replies.len() == 0 {
                    Run { calls, result: None }
                } else {
                    match build.advance(replies[0]) {
                        None => Run { calls, result: None },
                        Some(next) => {
                            let rest = next.run(replies.drop_first());
                            Run { calls: calls + rest.calls, result: rest.result }
                        },
                    }
                }
            },
        }
    }

    /// The calls of this step.
    pub open spec fn calls(self) -> Seq<Call> {
        match self {
            ProgramStepView::Pending { calls, .. } => calls,
            ProgramStepView::Finished { calls, .. } => calls,
        }
    }

    /// Whether no call of this step gives a driver object back.
    pub open spec fn keeps_objects(self) -> bool {
        forall|i: int| 0 <= i < self.calls().len() ==> !(#[trigger] self.calls()[i]).is_release()
    }
}

/// Every batch that a link hands out while it is pending ends with a call that
/// the driver answers, and no earlier call of the batch is answered; the batch
/// that comes with the end of a link holds no call that is answered. Issuing a
/// batch in order and handing back the last answer is well defined.
pub proof fn lemma_link_batches_end_in_their_query(build: ProgramBuildView, reply: Reply)
    requires
        build.advance(reply) is Some,
    ensures
        ({
            let step = build.advance(reply)->Some_0;
            let calls = step.calls();
            &&& step is Pending ==> calls.len() > 0 && calls.last().is_query()
            &&& forall|i: int|
                0 <= i < calls.len() - (if step is Pending {
                    1int
                } else {
                    0int
                }) ==> !(#[trigger] calls[i]).is_query()
        }),
{
}

/// Every answer brings a link nearer its end: whoever drives one hands back
/// four answers at most.
pub proof fn lemma_link_progresses(build: ProgramBuildView, reply: Reply)
    requires
        build.advance(reply) matches Some(step) && step is Pending,
    ensures
        build.advance(reply)->Some_0->build.answers_left() < build.answers_left(),
{
}

/// Where the driver reports the link as successful, the build ends after two
/// answers with the program that owns the handle the driver issued. It has
/// created the object, attached every shader in the order given, linked, asked
/// for the status and detached every shader in the same order, and nothing
/// else. The program's handle is the driver's, so it is zero only if the
/// driver issued zero.
pub proof fn lemma_link_success(shaders: Seq<u32>, program: u32, status: i32)
    requires
        status != 0,
    ensures
        ProgramBuildView::start(shaders).run(seq![Reply::Handle(program), Reply::Value(status)])
            == (Run {
            calls: seq![Call::CreateProgram] + link_calls(program, shaders) + detach_calls(
                program,
                shaders,
            ),
            result: Some(Ok(program)),
        }),
{
    let replies = seq![Reply::Handle(program), Reply::Value(status)];
    let r1 = replies.drop_first();
    let first = ProgramBuildView::start(shaders);
    let second = first->build.advance(replies[0])->Some_0;
    let third = second->build.advance(r1[0])->Some_0;
    assert(third.run(r1.drop_first()).calls == third.calls());
    assert(second.run(r1).calls == second.calls() + third.calls() && second.run(r1).result == Some(
        third->result,
    )) by {
        reveal_with_fuel(ProgramStepView::run, 2);
    }
    assert(first.run(replies).calls == first.calls() + (second.calls() + third.calls())
        && first.run(replies).result == Some(third->result)) by {
        reveal_with_fuel(ProgramStepView::run, 2);
    }
    assert(first.calls() + (second.calls() + third.calls()) =~= seq![Call::CreateProgram]
        + link_calls(program, shaders) + detach_calls(program, shaders));
}

/// Where the driver reports the link as failed, the build asks for the length
/// of the log, then for the log itself in a buffer of exactly that many
/// placeholder bytes, and ends with the lossy reading of what came back. No
/// program exists afterwards, and nothing is detached or deleted.
pub proof fn lemma_link_failure(shaders: Seq<u32>, program: u32, length: i32, log: Seq<u8>)
    requires
        length >= 0,
        log.len() == length,
    ensures
        ProgramBuildView::start(shaders).run(
            seq![Reply::Handle(program), Reply::Value(0), Reply::Value(length), Reply::Log(log)],
        ) == (Run {
            calls: seq![Call::CreateProgram] + link_calls(program, shaders) + seq![
                Call::GetProgramiv { program, pname: INFO_LOG_LENGTH, initial: 0 },
                Call::GetProgramInfoLog { program, capacity: length, buffer: blank(length as int) },
            ],
            result: Some(Err(utf8_lossy(log))),
        }),
{
    let replies = seq![
        Reply::Handle(program),
        Reply::Value(0),
        Reply::Value(length),
        Reply::Log(log),
    ];
    let r1 = replies.drop_first();
    let r2 = r1.drop_first();
    let r3 = r2.drop_first();
    let first = ProgramBuildView::start(shaders);
    let second = first->build.advance(replies[0])->Some_0;
    let third = second->build.advance(r1[0])->Some_0;
    let fourth = third->build.advance(r2[0])->Some_0;
    let last = fourth->build.advance(r3[0])->Some_0;
    assert(last.run(r3.drop_first()).calls == last.calls());
    assert(fourth.run(r3).calls == fourth.calls() + last.calls() && fourth.run(r3).result == Some(
        last->result,
    )) by {
        reveal_with_fuel(ProgramStepView::run, 2);
    }
    assert(third.run(r2).calls == third.calls() + fourth.run(r3).calls && third.run(r2).result
        == Some(last->result)) by {
        reveal_with_fuel(ProgramStepView::run, 2);
    }
    assert(second.run(r1).calls == second.calls() + third.run(r2).calls && second.run(r1).result
        == Some(last->result)) by {
        reveal_with_fuel(ProgramStepView::run, 2);
    }
    assert(first.run(replies).calls == first.calls() + second.run(r1).calls && first.run(
        replies,
    ).result == Some(last->result)) by {
        reveal_with_fuel(ProgramStepView::run, 2);
    }
    assert(first.calls() + (second.calls() + (third.calls() + (fourth.calls() + last.calls())))
        =~= seq![Call::CreateProgram] + link_calls(program, shaders) + seq![
        Call::GetProgramiv { program, pname: INFO_LOG_LENGTH, initial: 0 },
        Call::GetProgramInfoLog { program, capacity: length, buffer: blank(length as int) },
    ]);
}

proof fn lemma_advance_keeps_objects(build: ProgramBuildView, reply: Reply)
    requires
        build.advance(reply) is Some,
    ensures
        build.advance(reply)->Some_0.keeps_objects(),
{
}

proof fn lemma_run_keeps_objects(step: ProgramStepView, replies: Seq<Reply>)
    requires
        step.keeps_objects(),
    ensures
        forall|i: int|
            0 <= i < step.run(replies).calls.len() ==> !(#[trigger] step.run(
                replies,
            ).calls[i]).is_release(),
    decreases replies.len(),
{
    let run = step.run(replies);
    if step is Pending && replies.len() > 0 && step->build.advance(replies[0]) is Some {
        let next = step->build.advance(replies[0])->Some_0;
        let rest = next.run(replies.drop_first());
        lemma_advance_keeps_objects(step->build, replies[0]);
        lemma_run_keeps_objects(next, replies.drop_first());
        assert forall|i: int| 0 <= i < run.calls.len() implies !(#[trigger] run.calls[i]).is_release() by {
            if i < step.calls().len() {
                assert(run.calls[i] == step.calls()[i]);
            } else {
                assert(run.calls[i] == rest.calls[i - step.calls().len()]);
            }
        }
    } else {
        assert forall|i: int| 0 <= i < run.calls.len() implies !(#[trigger] run.calls[i]).is_release() by {
            assert(run.calls[i] == step.calls()[i]);
        }
    }
}

/// However the driver answers, a link deletes nothing: the object it created
/// is deleted only by [`Program::release`], or not at all where the link failed,
/// and the shaders are left to their owners.
pub proof fn lemma_link_never_releases(shaders: Seq<u32>, replies: Seq<Reply>)
    ensures
        forall|i: int|
            0 <= i < ProgramBuildView::start(shaders).run(replies).calls.len() ==> !(
            #[trigger] ProgramBuildView::start(shaders).run(replies).calls[i]).is_release(),
{
    lemma_run_keeps_objects(ProgramBuildView::start(shaders), replies);
}

/// Over the life of a program, from the first call of its link through any
/// number of uses to its release, exactly one call gives a driver object back:
/// the last one, which deletes the program's own object.
pub proof fn lemma_program_is_released_once(
    shaders: Seq<u32>,
    replies: Seq<Reply>,
    program: Program,
    uses: nat,
)
    requires
        ProgramBuildView::start(shaders).run(replies).result == Some(
            Ok::<u32, Seq<char>>(program.handle()),
        ),
    ensures
        ({
            let life = (ProgramBuildView::start(shaders).run(replies).calls + Seq::new(
                uses,
                |i: int| program.use_call(),
            )).push(program.release_call());
            &&& life.last() == Call::DeleteProgram { program: program.handle() }
            &&& forall|i: int|
                0 <= i < life.len() ==> ((#[trigger] life[i]).is_release() <==> i == life.len() - 1)
        }),
{
    lemma_link_never_releases(shaders, replies);
}

/// The program that draw calls run once `calls` have been issued in order,
/// where `before` was in use before them: the one that the last call selecting
/// a program names.
pub open spec fn program_in_use(before: u32, calls: Seq<Call>) -> u32
    decreases calls.len(),
{
    if calls.len() == 0 {
        before
    } else {
        match calls.last() {
            Call::UseProgram { program } => program,
            _ => program_in_use(before, calls.drop_last()),
        }
    }
}

/// Using a program any number of times in a row leaves the same program in
/// use as using it once: the program itself.
pub proof fn lemma_use_is_idempotent(program: Program, before: u32, times: nat)
    requires
        times >= 1,
    ensures
        program_in_use(before, Seq::new(times, |i: int| program.use_call())) == program_in_use(
            before,
            seq![program.use_call()],
        ),
        program_in_use(before, seq![program.use_call()]) == program.handle(),
{
}

/// A link ends as the driver's answers say, whatever the shaders: with a
/// program exactly where the driver issued a handle and reported a status
/// other than zero, with a diagnostic exactly where it reported zero and
/// delivered the log, and not at all otherwise.
pub proof fn lemma_link_outcome(shaders: Seq<u32>, replies: Seq<Reply>)
    ensures
        ProgramBuildView::start(shaders).run(replies).result == outcome(replies),
{
    reveal_with_fuel(ProgramStepView::run, 5);
    let r1 = replies.drop_first();
    let r2 = r1.drop_first();
    let r3 = r2.drop_first();
    if replies.len() >= 1 {
        assert(r1.len() == replies.len() - 1);
        if replies.len() >= 2 {
            assert(r1[0] == replies[1]);
            assert(r2.len() == replies.len() - 2);
            if replies.len() >= 3 {
                assert(r2[0] == replies[2]);
                assert(r3.len() == replies.len() - 3);
                if replies.len() >= 4 {
                    assert(r3[0] == replies[3]);
                }
            }
        }
    }
}

} // verus!
