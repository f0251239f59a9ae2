//! One compiled shader stage: the owned handle, and the protocol that builds
//! it from source text.

use crate::driver::call_views;
use crate::driver::outcome;
use crate::driver::Call;
use crate::driver::DriverCall;
use crate::driver::DriverReply;
use crate::driver::Reply;
use crate::driver::Run;
use crate::driver::COMPILE_STATUS;
use crate::driver::FRAGMENT_SHADER;
use crate::driver::INFO_LOG_LENGTH;
use crate::driver::VERTEX_SHADER;
use crate::info_log::blank;
use crate::info_log::diagnostic;
use crate::info_log::reads_as;
use crate::info_log::utf8_lossy;
use crate::info_log::whitespace_buffer;
use crate::source::nul_free;
use crate::source::SourceText;
use vstd::prelude::*;

verus! {

/// A compiled shader object of the driver, owned by this value.
///
/// The only way to one is a build that the driver reported as compiled, and
/// the only way out is [`Shader::release`], which consumes it.
#[derive(Debug)]
pub struct Shader {
    id: u32,
}

/// Where the compilation of a shader stands. Each state waits for the answer
/// to the last call of the batch that led to it.
#[derive(Debug)]
enum ShaderState {
    Creating { source: String, kind: u32 },
    Compiling { shader: u32 },
    Measuring { shader: u32 },
    Fetching { shader: u32, capacity: i32 },
}

/// A compilation in progress.
#[derive(Debug)]
pub struct ShaderBuild {
    state: ShaderState,
}

/// What a compilation asks of its caller next.
#[derive(Debug)]
pub enum ShaderStep {
    /// Issue `calls` in order, then hand the answer to the last of them to
    /// [`ShaderBuild::advance`].
    Pending { build: ShaderBuild, calls: Vec<DriverCall> },
    /// The compilation is over: the shader, or the driver's diagnostic.
    Finished { result: Result<Shader, String> },
}

/// Mathematical model of a [`ShaderBuild`].
pub enum ShaderBuildView {
    /// Waiting for the handle of the new shader object.
    Creating { source: Seq<char>, kind: u32 },
    /// Waiting for the compile status.
    Compiling { shader: u32 },
    /// Waiting for the length of the diagnostic log.
    Measuring { shader: u32 },
    /// Waiting for the buffer that the log was written to.
    Fetching { shader: u32, capacity: i32 },
}

/// Mathematical model of a [`ShaderStep`]. A shader is modelled by its handle.
pub enum ShaderStepView {
    Pending { build: ShaderBuildView, calls: Seq<Call> },
    Finished { result: Result<u32, Seq<char>> },
}

impl ShaderBuildView {
    /// The first step of compiling `source` as a stage of kind `kind`.
    pub open spec fn start(source: Seq<char>, kind: u32) -> ShaderStepView {
        ShaderStepView::Pending {
            build: ShaderBuildView::Creating { source, kind },
            calls: seq![Call::CreateShader { kind }],
        }
    }

    /// An upper bound on the answers this build still needs before it ends.
    pub open spec fn answers_left(self) -> nat {
        match self {
            ShaderBuildView::Creating { .. } => 4,
            ShaderBuildView::Compiling { .. } => 3,
            ShaderBuildView::Measuring { .. } => 2,
            ShaderBuildView::Fetching { .. } => 1,
        }
    }

    /// Whether `reply` answers the call this build waits on. A log length must
    /// not be negative, and the log must come back in a buffer as long as the
    /// one that was handed out.
    pub open spec fn accepts(self, reply: Reply) -> bool {
        match self {
            ShaderBuildView::Creating { .. } => reply is Handle,
            ShaderBuildView::Compiling { .. } => reply is Value,
            ShaderBuildView::Measuring { .. } => reply is Value && reply->Value_0 >= 0,
            ShaderBuildView::Fetching { capacity, .. } => reply is Log && reply->Log_0.len()
                == capacity,
        }
    }

    /// The step that follows `reply`, or `None` if `reply` does not answer the
    /// pending call.
    pub open spec fn advance(self, reply: Reply) -> Option<ShaderStepView> {
        if !self.accepts(reply) {
            None
        } else {
            Some(
                match self {
                    ShaderBuildView::Creating { source, kind } => {
                        let shader = reply->Handle_0;
                        ShaderStepView::Pending {
                            build: ShaderBuildView::Compiling { shader },
                            calls: seq![
                                Call::ShaderSource { shader, source },
                                Call::CompileShader { shader },
                                Call::GetShaderiv { shader, pname: COMPILE_STATUS, initial: 1 },
                            ],
                        }
                    },
                    ShaderBuildView::Compiling { shader } => {
                        if reply->Value_0 == 0 {
                            ShaderStepView::Pending {
                                build: ShaderBuildView::Measuring { shader },
                                calls: seq![
                                    Call::GetShaderiv { shader, pname: INFO_LOG_LENGTH, initial: 0 },
                                ],
                            }
                        } else {
                            ShaderStepView::Finished { result: Ok(shader) }
                        }
                    },
                    ShaderBuildView::Measuring { shader } => {
                        let capacity = reply->Value_0;
                        ShaderStepView::Pending {
                            build: ShaderBuildView::Fetching { shader, capacity },
                            calls: seq![
                                Call::GetShaderInfoLog {
                                    shader,
                                    capacity,
                                    buffer: blank(capacity as int),
                                },
                            ],
                        }
                    },
                    ShaderBuildView::Fetching { .. } => ShaderStepView::Finished {
                        result: Err(utf8_lossy(reply->Log_0)),
                    },
                },
            )
        }
    }
}

impl View for ShaderBuild {
    type V = ShaderBuildView;

    closed spec fn view(&self) -> ShaderBuildView {
        match self.state {
            ShaderState::Creating { source, kind } => ShaderBuildView::Creating {
                source: source@,
                kind,
            },
            ShaderState::Compiling { shader } => ShaderBuildView::Compiling { shader },
            ShaderState::Measuring { shader } => ShaderBuildView::Measuring { shader },
            ShaderState::Fetching { shader, capacity } => ShaderBuildView::Fetching {
                shader,
                capacity,
            },
        }
    }
}

impl View for ShaderStep {
    type V = ShaderStepView;

    open spec fn view(&self) -> ShaderStepView {
        match *self {
            ShaderStep::Pending { build, calls } => ShaderStepView::Pending {
                build: build@,
                calls: call_views(calls@),
            },
            ShaderStep::Finished { result } => ShaderStepView::Finished {
                result: match result {
                    Ok(shader) => Ok(shader.handle()),
                    Err(message) => Err(message@),
                },
            },
        }
    }
}

impl ShaderStep {
    /// The step that ends a compilation with the driver's diagnostic.
    pub fn rejected(message: String) -> (step: ShaderStep)
        ensures
            step@ == (ShaderStepView::Finished { result: Err(message@) }),
    {
        ShaderStep::Finished { result: Err(message) }
    }
}

impl Shader {
    /// The driver's handle of this shader.
    pub closed spec fn handle(&self) -> u32 {
        self.id
    }

    /// Begins compiling `source` as a shader stage of kind `kind`. The text
    /// that the driver will be handed is the source, which holds no NUL.
    pub fn from_source(source: &SourceText, kind: u32) -> (step: ShaderStep)
        ensures
            step@ == ShaderBuildView::start(source@, kind),
            nul_free(source@),
    {
        let mut calls: Vec<DriverCall> = Vec::new();
        calls.push(DriverCall::CreateShader { kind });
        let text = source.as_str().to_owned();
        let build = ShaderBuild { state: ShaderState::Creating { source: text, kind } };
        assert(call_views(calls@) =~= seq![Call::CreateShader { kind }]);
        ShaderStep::Pending { build, calls }
    }

    /// Begins compiling `source` as a vertex stage.
    pub fn from_vert_source(source: &SourceText) -> (step: ShaderStep)
        ensures
            step@ == ShaderBuildView::start(source@, VERTEX_SHADER),
            nul_free(source@),
    {
        Shader::from_source(source, VERTEX_SHADER)
    }

    /// Begins compiling `source` as a fragment stage.
    pub fn from_frag_source(source: &SourceText) -> (step: ShaderStep)
        ensures
            step@ == ShaderBuildView::start(source@, FRAGMENT_SHADER),
            nul_free(source@),
    {
        Shader::from_source(source, FRAGMENT_SHADER)
    }

    /// The driver's handle of this shader.
    pub fn id(&self) -> (id: u32)
        ensures
            id == self.handle(),
    {
        self.id
    }

    /// The call that deletes this shader's driver object.
    pub open spec fn release_call(&self) -> Call {
        Call::DeleteShader { shader: self.handle() }
    }

    /// Gives the shader up. The value is consumed, and the one call returned
    /// deletes the driver object it owned.
    pub fn release(self) -> (call: DriverCall)
        ensures
            call@ == self.release_call(),
    {
        DriverCall::DeleteShader { shader: self.id }
    }
}

impl ShaderBuild {
    /// Takes the driver's answer to the pending call and decides what comes
    /// next.
    ///
    /// Returns `None` exactly when `reply` does not answer the pending call.
    /// Where the build ends with a diagnostic, the text is what the buffer that
    /// came back reads as: it is empty only if the driver reported a log of
    /// length zero.
    pub fn advance(self, reply: DriverReply) -> (next: Option<ShaderStep>)
        ensures
            (match next {
                Some(step) => self@.advance(reply@) == Some(step@),
                None => self@.advance(reply@) is None,
            }),
            self@ is Fetching && self@.accepts(reply@) ==> (next matches Some(
                ShaderStep::Finished { result: Err(message), .. },
            ) && reads_as(reply@->Log_0, message@)),
    {
        match self.state {
            ShaderState::Creating { source, kind } => match reply {
                DriverReply::Handle(shader) => {
                    let ghost text = source@;
                    let mut calls: Vec<DriverCall> = Vec::new();
                    calls.push(DriverCall::ShaderSource { shader, source });
                    calls.push(DriverCall::CompileShader { shader });
                    calls.push(
                        DriverCall::GetShaderiv { shader, pname: COMPILE_STATUS, initial: 1 },
                    );
                    assert(call_views(calls@) =~= seq![
                        Call::ShaderSource { shader, source: text },
                        Call::CompileShader { shader },
                        Call::GetShaderiv { shader, pname: COMPILE_STATUS, initial: 1 },
                    ]);
                    Some(
                        ShaderStep::Pending {
                            build: ShaderBuild { state: ShaderState::Compiling { shader } },
                            calls,
                        },
                    )
                },
                _ => None,
            },
            ShaderState::Compiling { shader } => match reply {
                DriverReply::Value(status) => {
                    if status == 0 {
                        let mut calls: Vec<DriverCall> = Vec::new();
                        calls.push(
                            DriverCall::GetShaderiv { shader, pname: INFO_LOG_LENGTH, initial: 0 },
                        );
                        assert(call_views(calls@) =~= seq![
                            Call::GetShaderiv { shader, pname: INFO_LOG_LENGTH, initial: 0 },
                        ]);
                        Some(
                            ShaderStep::Pending {
                                build: ShaderBuild { state: ShaderState::Measuring { shader } },
                                calls,
                            },
                        )
                    } else {
                        Some(ShaderStep::Finished { result: Ok(Shader { id: shader }) })
                    }
                },
                _ => None,
            },
            ShaderState::Measuring { shader } => match reply {
                DriverReply::Value(capacity) => {
                    if capacity < 0 {
                        None
                    } else {
                        let buffer = whitespace_buffer(capacity);
                        let mut calls: Vec<DriverCall> = Vec::new();
                        calls.push(DriverCall::GetShaderInfoLog { shader, capacity, buffer });
                        assert(call_views(calls@) =~= seq![
                            Call::GetShaderInfoLog {
                                shader,
                                capacity,
                                buffer: blank(capacity as int),
                            },
                        ]);
                        Some(
                            ShaderStep::Pending {
                                build: ShaderBuild {
                                    state: ShaderState::Fetching { shader, capacity },
                                },
                                calls,
                            },
                        )
                    }
                },
                _ => None,
            },
            ShaderState::Fetching { shader, capacity } => match reply {
                DriverReply::Log(buffer) => {
                    if capacity >= 0 && buffer.len() == capacity as usize {
                        Some(ShaderStep::rejected(diagnostic(&buffer)))
                    } else {
                        None
                    }
                },
                _ => None,
            },
        }
    }
}

impl ShaderStepView {
    /// Drives a compilation onward from this step with the driver's answers,
    /// one per pending batch. The run stops where the answers run out or one of
    /// them does not answer the pending call; it then has no result.
    pub open spec fn run(self, replies: Seq<Reply>) -> Run
        decreases replies.len(),
    {
        match self {
            ShaderStepView::Finished { result } => Run {
                calls: Seq::empty(),
                result: Some(result),
            },
            ShaderStepView::Pending { build, calls } => {
                if replies.len() == 0 {
                    Run { calls, result: None }
                } else {
                    match build.advance(replies[0]) {
                        None => Run { calls, result: None },
                        Some(next) => {
                            let rest = next.run(replies.drop_first());
                            Run { calls: calls + rest.calls, result: rest.result }
                        },
                    }
                }
            },
        }
    }

    /// Whether no call of this step gives a driver object back.
    pub open spec fn keeps_objects(self) -> bool {
        self matches ShaderStepView::Pending { calls, .. } ==> forall|i: int|
            0 <= i < calls.len() ==> !(#[trigger] calls[i]).is_release()
    }
}

/// Every batch that a compilation hands out ends with a call that the driver
/// answers, and no earlier call of the batch is answered: issuing the batch in
/// order and handing back the last answer is well defined.
pub proof fn lemma_compile_batches_end_in_their_query(build: ShaderBuildView, reply: Reply)
    requires
        build.advance(reply) matches Some(step) && step is Pending,
    ensures
        ({
            let calls = build.advance(reply)->Some_0->calls;
            &&& calls.len() > 0
            &&& calls.last().is_query()
            &&& forall|i: int| 0 <= i < calls.len() - 1 ==> !(#[trigger] calls[i]).is_query()
        }),
{
}

/// Every answer brings a compilation nearer its end: whoever drives one hands
/// back four answers at most.
pub proof fn lemma_compile_progresses(build: ShaderBuildView, reply: Reply)
    requires
        build.advance(reply) matches Some(step) && step is Pending,
    ensures
        build.advance(reply)->Some_0->build.answers_left() < build.answers_left(),
{
}

/// Where the driver reports the compilation as successful, the build ends
/// after two answers with the shader that owns the handle the driver issued,
/// having created the object, set its source, compiled it and asked for the
/// status, in that order and nothing else.
pub proof fn lemma_compile_success(source: Seq<char>, kind: u32, shader: u32, status: i32)
    requires
        status != 0,
    ensures
        ShaderBuildView::start(source, kind).run(
            seq![Reply::Handle(shader), Reply::Value(status)],
        ) == (Run {
            calls: seq![
                Call::CreateShader { kind },
                Call::ShaderSource { shader, source },
                Call::CompileShader { shader },
                Call::GetShaderiv { shader, pname: COMPILE_STATUS, initial: 1 },
            ],
            result: Some(Ok(shader)),
        }),
{
    let replies = seq![Reply::Handle(shader), Reply::Value(status)];
    let first = ShaderBuildView::start(source, kind);
    let second = first->build.advance(replies[0])->Some_0;
    let third = second->build.advance(replies[1])->Some_0;
    assert(replies.drop_first() =~= seq![Reply::Value(status)]);
    assert(replies.drop_first().drop_first() =~= Seq::<Reply>::empty());
    assert(third.run(Seq::empty()).calls =~= Seq::<Call>::empty());
    assert(second.run(replies.drop_first()).calls =~= second->calls) by {
        reveal_with_fuel(ShaderStepView::run, 2);
    }
    assert(first.run(replies).calls =~= first->calls + second->calls) by {
        reveal_with_fuel(ShaderStepView::run, 3);
    }
    assert(first.run(replies).result == Some(Ok::<u32, Seq<char>>(shader))) by {
        reveal_with_fuel(ShaderStepView::run, 3);
    }
    assert(first->calls + second->calls =~= seq![
        Call::CreateShader { kind },
        Call::ShaderSource { shader, source },
        Call::CompileShader { shader },
        Call::GetShaderiv { shader, pname: COMPILE_STATUS, initial: 1 },
    ]);
}

/// Where the driver reports the compilation as failed, the build asks for the
/// length of the log, then for the log itself in a buffer of exactly that many
/// placeholder bytes, and ends with the lossy reading of what came back. No
/// shader exists afterwards.
pub proof fn lemma_compile_failure(
    source: Seq<char>,
    kind: u32,
    shader: u32,
    length: i32,
    log: Seq<u8>,
)
    requires
        length >= 0,
        log.len() == length,
    ensures
        ShaderBuildView::start(source, kind).run(
            seq![Reply::Handle(shader), Reply::Value(0), Reply::Value(length), Reply::Log(log)],
        ) == (Run {
            calls: seq![
                Call::CreateShader { kind },
                Call::ShaderSource { shader, source },
                Call::CompileShader { shader },
                Call::GetShaderiv { shader, pname: COMPILE_STATUS, initial: 1 },
                Call::GetShaderiv { shader, pname: INFO_LOG_LENGTH, initial: 0 },
                Call::GetShaderInfoLog { shader, capacity: length, buffer: blank(length as int) },
            ],
            result: Some(Err(utf8_lossy(log))),
        }),
{
    let replies = seq![
        Reply::Handle(shader),
        Reply::Value(0),
        Reply::Value(length),
        Reply::Log(log),
    ];
    let r1 = replies.drop_first();
    let r2 = r1.drop_first();
    let r3 = r2.drop_first();
    let first = ShaderBuildView::start(source, kind);
    let second = first->build.advance(replies[0])->Some_0;
    let third = second->build.advance(r1[0])->Some_0;
    let fourth = third->build.advance(r2[0])->Some_0;
    let last = fourth->build.advance(r3[0])->Some_0;
    assert(r3.drop_first() =~= Seq::<Reply>::empty());
    assert(last.run(r3.drop_first()).calls =~= Seq::<Call>::empty());
    assert(fourth.run(r3).calls =~= fourth->calls && fourth.run(r3).result == Some(last->result)) by {
        reveal_with_fuel(ShaderStepView::run, 2);
    }
    assert(third.run(r2).calls =~= third->calls + fourth->calls && third.run(r2).result
        == Some(last->result)) by {
        reveal_with_fuel(ShaderStepView::run, 2);
    }
    assert(second.run(r1).calls =~= second->calls + (third->calls + fourth->calls) && second.run(
        r1,
    ).result == Some(last->result)) by {
        reveal_with_fuel(ShaderStepView::run, 2);
    }
    assert(first.run(replies).calls =~= first->calls + (second->calls + (third->calls
        + fourth->calls)) && first.run(replies).result == Some(last->result)) by {
        reveal_with_fuel(ShaderStepView::run, 2);
    }
    assert(first->calls + (second->calls + (third->calls + fourth->calls)) =~= seq![
        Call::CreateShader { kind },
        Call::ShaderSource { shader, source },
        Call::CompileShader { shader },
        Call::GetShaderiv { shader, pname: COMPILE_STATUS, initial: 1 },
        Call::GetShaderiv { shader, pname: INFO_LOG_LENGTH, initial: 0 },
        Call::GetShaderInfoLog { shader, capacity: length, buffer: blank(length as int) },
    ]);
}

proof fn lemma_run_keeps_objects(step: ShaderStepView, replies: Seq<Reply>)
    requires
        step.keeps_objects(),
    ensures
        forall|i: int|
            0 <= i < step.run(replies).calls.len() ==> !(#[trigger] step.run(
                replies,
            ).calls[i]).is_release(),
    decreases replies.len(),
{
    if step is Pending && replies.len() > 0 {
        match step->build.advance(replies[0]) {
            None => {},
            Some(next) => {
                lemma_run_keeps_objects(next, replies.drop_first());
            },
        }
    }
}

/// However the driver answers, a compilation deletes nothing: the object it
/// created is deleted only by [`Shader::release`], or not at all where the
/// compilation failed.
pub proof fn lemma_compile_never_releases(source: Seq<char>, kind: u32, replies: Seq<Reply>)
    ensures
        forall|i: int|
            0 <= i < ShaderBuildView::start(source, kind).run(replies).calls.len() ==> !(
            #[trigger] ShaderBuildView::start(source, kind).run(replies).calls[i]).is_release(),
{
    lemma_run_keeps_objects(ShaderBuildView::start(source, kind), replies);
}

/// Over the life of a shader, from the first call of its compilation to its
/// release, exactly one call gives a driver object back: the last one, which
/// deletes the shader's own object.
pub proof fn lemma_shader_is_released_once(
    source: Seq<char>,
    kind: u32,
    replies: Seq<Reply>,
    shader: Shader,
)
    requires
        ShaderBuildView::start(source, kind).run(replies).result == Some(
            Ok::<u32, Seq<char>>(shader.handle()),
        ),
    ensures
        ({
            let life = ShaderBuildView::start(source, kind).run(replies).calls.push(
                shader.release_call(),
            );
            &&& life.last() == Call::DeleteShader { shader: shader.handle() }
            &&& forall|i: int|
                0 <= i < life.len() ==> ((#[trigger] life[i]).is_release() <==> i == life.len() - 1)
        }),
{
    lemma_compile_never_releases(source, kind, replies);
}

/// A compilation ends as the driver's answers say, whatever the source: with a
/// shader exactly where the driver issued a handle and reported a status
/// other than zero, with a diagnostic exactly where it reported zero and
/// delivered the log, and not at all otherwise.
pub proof fn lemma_compile_outcome(source: Seq<char>, kind: u32, replies: Seq<Reply>)
    ensures
        ShaderBuildView::start(source, kind).run(replies).result == outcome(replies),
{
    reveal_with_fuel(ShaderStepView::run, 5);
    let r1 = replies.drop_first();
    let r2 = r1.drop_first();
    let r3 = r2.drop_first();
    if replies.len() >= 1 {
        assert(r1.len() == replies.len() - 1);
        if replies.len() >= 2 {
            assert(r1[0] == replies[1]);
            assert(r2.len() == replies.len() - 2);
            if replies.len() >= 3 {
                assert(r2[0] == replies[2]);
                assert(r3.len() == replies.len() - 3);
                if replies.len() >= 4 {
                    assert(r3[0] == replies[3]);
                }
            }
        }
    }
}

} // verus!
