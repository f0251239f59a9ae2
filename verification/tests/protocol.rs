use render_gl::driver::COMPILE_STATUS;
use render_gl::driver::FRAGMENT_SHADER;
use render_gl::driver::INFO_LOG_LENGTH;
use render_gl::driver::LINK_STATUS;
use render_gl::driver::VERTEX_SHADER;
use render_gl::info_log::diagnostic;
use render_gl::DriverCall;
use render_gl::DriverReply;
use render_gl::Program;
use render_gl::ProgramStep;
use render_gl::Shader;
use render_gl::ShaderStep;
use render_gl::SourceText;

const TRIANGLE_VERT: &str = "#version 410 core

layout (location = 0) in vec3 position;
layout (location = 1) in vec3 color;

out vec3 vertex_color;

void main() {
    gl_Position = vec4(position, 1.0);
    vertex_color = color;
}
";

const TRIANGLE_FRAG: &str = "#version 410 core

in vec3 vertex_color;

out vec4 fragment_color;

void main() {
    fragment_color = vec4(vertex_color, 1.0);
}
";

/// A driver that lives in memory: it hands out handles, keeps what it was
/// told, and fails compilation and linking on demand.
struct FakeDriver {
    next_handle: u32,
    shader_kinds: Vec<(u32, u32)>,
    attached: Vec<(u32, u32)>,
    broken_sources: Vec<String>,
    failed_shaders: Vec<u32>,
    sources: Vec<(u32, String)>,
    log: Vec<u8>,
    in_use: u32,
    seen: Vec<DriverCall>,
}

impl FakeDriver {
    fn new() -> FakeDriver {
        FakeDriver {
            next_handle: 1,
            shader_kinds: Vec::new(),
            attached: Vec::new(),
            broken_sources: Vec::new(),
            failed_shaders: Vec::new(),
            sources: Vec::new(),
            log: Vec::new(),
            in_use: 0,
            seen: Vec::new(),
        }
    }

    fn rejecting(source: &str, log: &[u8]) -> FakeDriver {
        let mut driver = FakeDriver::new();
        driver.broken_sources.push(source.to_string());
        driver.log = log.to_vec();
        driver
    }

    fn fresh_handle(&mut self) -> u32 {
        let handle = self.next_handle;
        self.next_handle += 1;
        handle
    }

    fn links(&self, program: u32) -> bool {
        let mut kinds: Vec<u32> = Vec::new();
        for (owner, shader) in &self.attached {
            if *owner == program {
                for (handle, kind) in &self.shader_kinds {
                    if handle == shader {
                        if kinds.contains(kind) {
                            return false;
                        }
                        kinds.push(*kind);
                    }
                }
            }
        }
        true
    }

    fn write_log(&self, capacity: i32, mut buffer: Vec<u8>) -> Vec<u8> {
        let room = std::cmp::min(capacity as usize, buffer.len());
        for (slot, byte) in buffer.iter_mut().zip(self.log.iter()).take(room) {
            *slot = *byte;
        }
        buffer
    }

    fn perform(&mut self, call: DriverCall) -> Option<DriverReply> {
        let reply = match &call {
            DriverCall::CreateShader { kind } => {
                let handle = self.fresh_handle();
                self.shader_kinds.push((handle, *kind));
                Some(DriverReply::Handle(handle))
            }
            DriverCall::ShaderSource { shader, source } => {
                self.sources.push((*shader, source.clone()));
                None
            }
            DriverCall::CompileShader { shader } => {
                for (handle, source) in &self.sources {
                    if handle == shader && self.broken_sources.contains(source) {
                        self.failed_shaders.push(*shader);
                    }
                }
                None
            }
            DriverCall::GetShaderiv { shader, pname, initial } => {
                if *pname == COMPILE_STATUS {
                    let failed = self.failed_shaders.contains(shader);
                    Some(DriverReply::Value(if failed { 0 } else { 1 }))
                } else if *pname == INFO_LOG_LENGTH {
                    Some(DriverReply::Value(self.log.len() as i32))
                } else {
                    Some(DriverReply::Value(*initial))
                }
            }
            DriverCall::GetShaderInfoLog { capacity, buffer, .. } => {
                Some(DriverReply::Log(self.write_log(*capacity, buffer.clone())))
            }
            DriverCall::CreateProgram => Some(DriverReply::Handle(self.fresh_handle())),
            DriverCall::AttachShader { program, shader } => {
                self.attached.push((*program, *shader));
                None
            }
            DriverCall::LinkProgram { .. } => None,
            DriverCall::GetProgramiv { program, pname, initial } => {
                if *pname == LINK_STATUS {
                    Some(DriverReply::Value(if self.links(*program) { 1 } else { 0 }))
                } else if *pname == INFO_LOG_LENGTH {
                    Some(DriverReply::Value(self.log.len() as i32))
                } else {
                    Some(DriverReply::Value(*initial))
                }
            }
            DriverCall::GetProgramInfoLog { capacity, buffer, .. } => {
                Some(DriverReply::Log(self.write_log(*capacity, buffer.clone())))
            }
            DriverCall::DetachShader { program, shader } => {
                let pair = (*program, *shader);
                if let Some(at) = self.attached.iter().position(|entry| *entry == pair) {
                    self.attached.remove(at);
                }
                None
            }
            DriverCall::UseProgram { program } => {
                self.in_use = *program;
                None
            }
            DriverCall::DeleteShader { .. } | DriverCall::DeleteProgram { .. } => None,
        };
        self.seen.push(call);
        reply
    }

    fn issue(&mut self, calls: Vec<DriverCall>) -> Option<DriverReply> {
        let mut answer = None;
        for call in calls {
            answer = self.perform(call);
        }
        answer
    }

    fn compile(&mut self, first: ShaderStep) -> Result<Shader, String> {
        let mut step = first;
        loop {
            match step {
                ShaderStep::Pending { build, calls } => {
                    let reply = self.issue(calls).expect("the batch ends in a query");
                    step = build.advance(reply).expect("the reply answers the query");
                }
                ShaderStep::Finished { result } => return result,
            }
        }
    }

    fn link(&mut self, first: ProgramStep) -> Result<Program, String> {
        let mut step = first;
        loop {
            match step {
                ProgramStep::Pending { build, calls } => {
                    let reply = self.issue(calls).expect("the batch ends in a query");
                    step = build.advance(reply).expect("the reply answers the query");
                }
                ProgramStep::Finished { calls, result } => {
                    assert!(self.issue(calls).is_none());
                    return result;
                }
            }
        }
    }

    fn releases_of(&self, call: &DriverCall) -> usize {
        self.seen.iter().filter(|seen| *seen == call).count()
    }
}

fn text(source: &str) -> SourceText {
    SourceText::new(source).expect("the source holds no NUL")
}

fn pending_shader(step: ShaderStep) -> (render_gl::ShaderBuild, Vec<DriverCall>) {
    match step {
        ShaderStep::Pending { build, calls } => (build, calls),
        ShaderStep::Finished { .. } => panic!("the compilation is over"),
    }
}

fn pending_program(step: ProgramStep) -> (render_gl::ProgramBuild, Vec<DriverCall>) {
    match step {
        ProgramStep::Pending { build, calls } => (build, calls),
        ProgramStep::Finished { .. } => panic!("the link is over"),
    }
}

fn shader_with_handle(handle: u32) -> Shader {
    let (build, _) = pending_shader(Shader::from_vert_source(&text("void main() {}")));
    let (build, _) = pending_shader(build.advance(DriverReply::Handle(handle)).unwrap());
    match build.advance(DriverReply::Value(1)).unwrap() {
        ShaderStep::Finished { result } => result.unwrap(),
        ShaderStep::Pending { .. } => panic!("the compilation goes on"),
    }
}

#[test]
fn vertex_source_asks_for_a_vertex_shader() {
    let (_, calls) = pending_shader(Shader::from_vert_source(&text("void main() {}")));
    assert_eq!(calls, vec![DriverCall::CreateShader { kind: 0x8B31 }]);
}

#[test]
fn fragment_source_asks_for_a_fragment_shader() {
    let (_, calls) = pending_shader(Shader::from_frag_source(&text("void main() {}")));
    assert_eq!(calls, vec![DriverCall::CreateShader { kind: 0x8B30 }]);
}

#[test]
fn source_of_any_kind_is_passed_on() {
    let (_, calls) = pending_shader(Shader::from_source(&text("void main() {}"), 0x8DD9));
    assert_eq!(calls, vec![DriverCall::CreateShader { kind: 0x8DD9 }]);
}

#[test]
fn kinds_and_parameter_names_have_their_values() {
    assert_eq!(VERTEX_SHADER, 0x8B31);
    assert_eq!(FRAGMENT_SHADER, 0x8B30);
    assert_eq!(COMPILE_STATUS, 0x8B81);
    assert_eq!(LINK_STATUS, 0x8B82);
    assert_eq!(INFO_LOG_LENGTH, 0x8B84);
}

#[test]
fn compilation_sets_source_compiles_and_asks_for_status() {
    let (build, _) = pending_shader(Shader::from_source(&text("void main() {}"), VERTEX_SHADER));
    let (_, calls) = pending_shader(build.advance(DriverReply::Handle(7)).unwrap());
    assert_eq!(
        calls,
        vec![
            DriverCall::ShaderSource { shader: 7, source: "void main() {}".to_string() },
            DriverCall::CompileShader { shader: 7 },
            DriverCall::GetShaderiv { shader: 7, pname: 0x8B81, initial: 1 },
        ]
    );
}

#[test]
fn compiled_shader_owns_the_handle_the_driver_issued() {
    let (build, _) = pending_shader(Shader::from_source(&text("void main() {}"), VERTEX_SHADER));
    let (build, _) = pending_shader(build.advance(DriverReply::Handle(7)).unwrap());
    match build.advance(DriverReply::Value(1)).unwrap() {
        ShaderStep::Finished { result } => assert_eq!(result.unwrap().id(), 7),
        ShaderStep::Pending { .. } => panic!("the compilation goes on"),
    }
}

#[test]
fn any_status_but_zero_is_success() {
    for status in [1, -1, 2, i32::MAX, i32::MIN] {
        let (build, _) = pending_shader(Shader::from_frag_source(&text("void main() {}")));
        let (build, _) = pending_shader(build.advance(DriverReply::Handle(3)).unwrap());
        match build.advance(DriverReply::Value(status)).unwrap() {
            ShaderStep::Finished { result } => assert_eq!(result.unwrap().id(), 3),
            ShaderStep::Pending { .. } => panic!("the compilation goes on"),
        }
    }
}

#[test]
fn handle_zero_is_taken_as_it_comes() {
    let shader = shader_with_handle(0);
    assert_eq!(shader.id(), 0);
}

#[test]
fn failed_compilation_asks_for_the_length_then_for_the_log() {
    let (build, _) = pending_shader(Shader::from_source(&text("void main() {"), FRAGMENT_SHADER));
    let (build, _) = pending_shader(build.advance(DriverReply::Handle(4)).unwrap());
    let (build, calls) = pending_shader(build.advance(DriverReply::Value(0)).unwrap());
    assert_eq!(calls, vec![DriverCall::GetShaderiv { shader: 4, pname: 0x8B84, initial: 0 }]);
    let (build, calls) = pending_shader(build.advance(DriverReply::Value(5)).unwrap());
    assert_eq!(
        calls,
        vec![DriverCall::GetShaderInfoLog {
            shader: 4,
            capacity: 5,
            buffer: vec![0x20, 0x20, 0x20, 0x20, 0x20],
        }]
    );
    match build.advance(DriverReply::Log(b"oops\0".to_vec())).unwrap() {
        ShaderStep::Finished { result } => assert_eq!(result.unwrap_err(), "oops\0"),
        ShaderStep::Pending { .. } => panic!("the compilation goes on"),
    }
}

#[test]
fn failed_compilation_returns_the_drivers_log() {
    let log = b"0:1(14): error: syntax error, unexpected end of file\0";
    let mut driver = FakeDriver::rejecting("void main() {", log);
    let message = driver.compile(Shader::from_vert_source(&text("void main() {"))).unwrap_err();
    assert!(!message.is_empty());
    assert_eq!(message, "0:1(14): error: syntax error, unexpected end of file\0");
    assert_eq!(
        driver.seen,
        vec![
            DriverCall::CreateShader { kind: VERTEX_SHADER },
            DriverCall::ShaderSource { shader: 1, source: "void main() {".to_string() },
            DriverCall::CompileShader { shader: 1 },
            DriverCall::GetShaderiv { shader: 1, pname: COMPILE_STATUS, initial: 1 },
            DriverCall::GetShaderiv { shader: 1, pname: INFO_LOG_LENGTH, initial: 0 },
            DriverCall::GetShaderInfoLog {
                shader: 1,
                capacity: log.len() as i32,
                buffer: vec![b' '; log.len()],
            },
        ]
    );
}

#[test]
fn log_that_is_not_text_is_read_lossily() {
    let (build, _) = pending_shader(Shader::from_vert_source(&text("x")));
    let (build, _) = pending_shader(build.advance(DriverReply::Handle(1)).unwrap());
    let (build, _) = pending_shader(build.advance(DriverReply::Value(0)).unwrap());
    let (build, _) = pending_shader(build.advance(DriverReply::Value(3)).unwrap());
    match build.advance(DriverReply::Log(vec![b'a', 0xFF, b'b'])).unwrap() {
        ShaderStep::Finished { result } => assert_eq!(result.unwrap_err(), "a\u{FFFD}b"),
        ShaderStep::Pending { .. } => panic!("the compilation goes on"),
    }
}

#[test]
fn log_of_length_zero_gives_an_empty_message() {
    let (build, _) = pending_shader(Shader::from_vert_source(&text("x")));
    let (build, _) = pending_shader(build.advance(DriverReply::Handle(1)).unwrap());
    let (build, _) = pending_shader(build.advance(DriverReply::Value(0)).unwrap());
    let (build, calls) = pending_shader(build.advance(DriverReply::Value(0)).unwrap());
    assert_eq!(
        calls,
        vec![DriverCall::GetShaderInfoLog { shader: 1, capacity: 0, buffer: Vec::new() }]
    );
    match build.advance(DriverReply::Log(Vec::new())).unwrap() {
        ShaderStep::Finished { result } => assert_eq!(result.unwrap_err(), ""),
        ShaderStep::Pending { .. } => panic!("the compilation goes on"),
    }
}

#[test]
fn untouched_buffer_reads_as_spaces() {
    let (build, _) = pending_shader(Shader::from_vert_source(&text("x")));
    let (build, _) = pending_shader(build.advance(DriverReply::Handle(1)).unwrap());
    let (build, _) = pending_shader(build.advance(DriverReply::Value(0)).unwrap());
    let (build, mut calls) = pending_shader(build.advance(DriverReply::Value(4)).unwrap());
    let buffer = match calls.pop().unwrap() {
        DriverCall::GetShaderInfoLog { buffer, .. } => buffer,
        other => panic!("unexpected call {:?}", other),
    };
    match build.advance(DriverReply::Log(buffer)).unwrap() {
        ShaderStep::Finished { result } => assert_eq!(result.unwrap_err(), "    "),
        ShaderStep::Pending { .. } => panic!("the compilation goes on"),
    }
}

#[test]
fn shader_build_refuses_replies_of_the_wrong_kind() {
    let (build, _) = pending_shader(Shader::from_vert_source(&text("x")));
    assert!(build.advance(DriverReply::Value(1)).is_none());
    let (build, _) = pending_shader(Shader::from_vert_source(&text("x")));
    assert!(build.advance(DriverReply::Log(Vec::new())).is_none());

    let (build, _) = pending_shader(Shader::from_vert_source(&text("x")));
    let (build, _) = pending_shader(build.advance(DriverReply::Handle(1)).unwrap());
    assert!(build.advance(DriverReply::Handle(1)).is_none());

    let (build, _) = pending_shader(Shader::from_vert_source(&text("x")));
    let (build, _) = pending_shader(build.advance(DriverReply::Handle(1)).unwrap());
    let (build, _) = pending_shader(build.advance(DriverReply::Value(0)).unwrap());
    assert!(build.advance(DriverReply::Log(Vec::new())).is_none());

    let (build, _) = pending_shader(Shader::from_vert_source(&text("x")));
    let (build, _) = pending_shader(build.advance(DriverReply::Handle(1)).unwrap());
    let (build, _) = pending_shader(build.advance(DriverReply::Value(0)).unwrap());
    let (build, _) = pending_shader(build.advance(DriverReply::Value(2)).unwrap());
    assert!(build.advance(DriverReply::Value(2)).is_none());
}

#[test]
fn shader_build_refuses_a_negative_log_length() {
    let (build, _) = pending_shader(Shader::from_vert_source(&text("x")));
    let (build, _) = pending_shader(build.advance(DriverReply::Handle(1)).unwrap());
    let (build, _) = pending_shader(build.advance(DriverReply::Value(0)).unwrap());
    assert!(build.advance(DriverReply::Value(-1)).is_none());
}

#[test]
fn shader_build_refuses_a_buffer_of_another_length() {
    for length in [0usize, 1, 3, 4] {
        let (build, _) = pending_shader(Shader::from_vert_source(&text("x")));
        let (build, _) = pending_shader(build.advance(DriverReply::Handle(1)).unwrap());
        let (build, _) = pending_shader(build.advance(DriverReply::Value(0)).unwrap());
        let (build, _) = pending_shader(build.advance(DriverReply::Value(2)).unwrap());
        assert!(build.advance(DriverReply::Log(vec![b'x'; length])).is_none());
    }
}

#[test]
fn releasing_a_shader_deletes_its_object() {
    let shader = shader_with_handle(12);
    assert_eq!(shader.release(), DriverCall::DeleteShader { shader: 12 });
}

#[test]
fn link_starts_by_creating_a_program() {
    let shaders = [shader_with_handle(1), shader_with_handle(2)];
    let (_, calls) = pending_program(Program::from_shaders(&shaders));
    assert_eq!(calls, vec![DriverCall::CreateProgram]);
}

#[test]
fn link_attaches_every_shader_in_order_then_links() {
    let shaders = [shader_with_handle(5), shader_with_handle(3), shader_with_handle(5)];
    let (build, _) = pending_program(Program::from_shaders(&shaders));
    let (_, calls) = pending_program(build.advance(DriverReply::Handle(9)).unwrap());
    assert_eq!(
        calls,
        vec![
            DriverCall::AttachShader { program: 9, shader: 5 },
            DriverCall::AttachShader { program: 9, shader: 3 },
            DriverCall::AttachShader { program: 9, shader: 5 },
            DriverCall::LinkProgram { program: 9 },
            DriverCall::GetProgramiv { program: 9, pname: 0x8B82, initial: 1 },
        ]
    );
}

#[test]
fn linked_program_detaches_every_shader_and_owns_the_handle() {
    let shaders = [shader_with_handle(5), shader_with_handle(3)];
    let (build, _) = pending_program(Program::from_shaders(&shaders));
    let (build, _) = pending_program(build.advance(DriverReply::Handle(9)).unwrap());
    match build.advance(DriverReply::Value(1)).unwrap() {
        ProgramStep::Finished { calls, result } => {
            assert_eq!(
                calls,
                vec![
                    DriverCall::DetachShader { program: 9, shader: 5 },
                    DriverCall::DetachShader { program: 9, shader: 3 },
                ]
            );
            assert_eq!(result.unwrap().id(), 9);
        }
        ProgramStep::Pending { .. } => panic!("the link goes on"),
    }
    assert_eq!(shaders[0].id(), 5);
    assert_eq!(shaders[1].id(), 3);
}

#[test]
fn link_of_no_shaders_still_links() {
    let (build, _) = pending_program(Program::from_shaders(&[]));
    let (build, calls) = pending_program(build.advance(DriverReply::Handle(2)).unwrap());
    assert_eq!(
        calls,
        vec![
            DriverCall::LinkProgram { program: 2 },
            DriverCall::GetProgramiv { program: 2, pname: LINK_STATUS, initial: 1 },
        ]
    );
    match build.advance(DriverReply::Value(1)).unwrap() {
        ProgramStep::Finished { calls, result } => {
            assert!(calls.is_empty());
            assert_eq!(result.unwrap().id(), 2);
        }
        ProgramStep::Pending { .. } => panic!("the link goes on"),
    }
}

#[test]
fn failed_link_asks_for_the_length_then_for_the_log() {
    let shaders = [shader_with_handle(5)];
    let (build, _) = pending_program(Program::from_shaders(&shaders));
    let (build, _) = pending_program(build.advance(DriverReply::Handle(9)).unwrap());
    let (build, calls) = pending_program(build.advance(DriverReply::Value(0)).unwrap());
    assert_eq!(calls, vec![DriverCall::GetProgramiv { program: 9, pname: 0x8B84, initial: 0 }]);
    let (build, calls) = pending_program(build.advance(DriverReply::Value(3)).unwrap());
    assert_eq!(
        calls,
        vec![DriverCall::GetProgramInfoLog { program: 9, capacity: 3, buffer: vec![0x20; 3] }]
    );
    match build.advance(DriverReply::Log(b"no\0".to_vec())).unwrap() {
        ProgramStep::Finished { calls, result } => {
            assert!(calls.is_empty());
            assert_eq!(result.unwrap_err(), "no\0");
        }
        ProgramStep::Pending { .. } => panic!("the link goes on"),
    }
}

#[test]
fn program_build_refuses_replies_of_the_wrong_kind() {
    let (build, _) = pending_program(Program::from_shaders(&[]));
    assert!(build.advance(DriverReply::Value(1)).is_none());

    let (build, _) = pending_program(Program::from_shaders(&[]));
    let (build, _) = pending_program(build.advance(DriverReply::Handle(1)).unwrap());
    assert!(build.advance(DriverReply::Handle(1)).is_none());

    let (build, _) = pending_program(Program::from_shaders(&[]));
    let (build, _) = pending_program(build.advance(DriverReply::Handle(1)).unwrap());
    let (build, _) = pending_program(build.advance(DriverReply::Value(0)).unwrap());
    assert!(build.advance(DriverReply::Value(-7)).is_none());

    let (build, _) = pending_program(Program::from_shaders(&[]));
    let (build, _) = pending_program(build.advance(DriverReply::Handle(1)).unwrap());
    let (build, _) = pending_program(build.advance(DriverReply::Value(0)).unwrap());
    let (build, _) = pending_program(build.advance(DriverReply::Value(2)).unwrap());
    assert!(build.advance(DriverReply::Log(vec![b'x'])).is_none());
}

#[test]
fn two_vertex_stages_do_not_link() {
    let log = b"error: multiple definitions of main in vertex stage\0";
    let mut driver = FakeDriver::new();
    driver.log = log.to_vec();
    let first = driver.compile(Shader::from_vert_source(&text("void main() {}"))).unwrap();
    let second = driver.compile(Shader::from_vert_source(&text("void main() {}"))).unwrap();
    let shaders = [first, second];
    let seen_before = driver.seen.len();
    let message = driver.link(Program::from_shaders(&shaders)).unwrap_err();
    assert_eq!(message, "error: multiple definitions of main in vertex stage\0");
    assert_eq!(
        driver.seen[seen_before..],
        [
            DriverCall::CreateProgram,
            DriverCall::AttachShader { program: 3, shader: 1 },
            DriverCall::AttachShader { program: 3, shader: 2 },
            DriverCall::LinkProgram { program: 3 },
            DriverCall::GetProgramiv { program: 3, pname: LINK_STATUS, initial: 1 },
            DriverCall::GetProgramiv { program: 3, pname: INFO_LOG_LENGTH, initial: 0 },
            DriverCall::GetProgramInfoLog {
                program: 3,
                capacity: log.len() as i32,
                buffer: vec![b' '; log.len()],
            },
        ]
    );
    assert_eq!(driver.attached, vec![(3, 1), (3, 2)]);
}

#[test]
fn vertex_and_fragment_stage_link_into_a_usable_program() {
    let mut driver = FakeDriver::new();
    let vert = driver.compile(Shader::from_vert_source(&text(TRIANGLE_VERT))).unwrap();
    let frag = driver.compile(Shader::from_frag_source(&text(TRIANGLE_FRAG))).unwrap();
    let shaders = [vert, frag];
    let program = driver.link(Program::from_shaders(&shaders)).unwrap();
    assert_ne!(program.id(), 0);
    assert_eq!(program.id(), 3);
    assert!(driver.attached.is_empty());
    assert!(driver.perform(program.set_used()).is_none());
    assert_eq!(driver.in_use, 3);
}

#[test]
fn triangle_program_is_built_once_and_only_used_per_frame() {
    let mut driver = FakeDriver::new();
    let vert = driver.compile(Shader::from_vert_source(&text(TRIANGLE_VERT))).unwrap();
    let frag = driver.compile(Shader::from_frag_source(&text(TRIANGLE_FRAG))).unwrap();
    let shaders = [vert, frag];
    let program = driver.link(Program::from_shaders(&shaders)).unwrap();
    assert_eq!(
        driver.seen,
        vec![
            DriverCall::CreateShader { kind: VERTEX_SHADER },
            DriverCall::ShaderSource { shader: 1, source: TRIANGLE_VERT.to_string() },
            DriverCall::CompileShader { shader: 1 },
            DriverCall::GetShaderiv { shader: 1, pname: COMPILE_STATUS, initial: 1 },
            DriverCall::CreateShader { kind: FRAGMENT_SHADER },
            DriverCall::ShaderSource { shader: 2, source: TRIANGLE_FRAG.to_string() },
            DriverCall::CompileShader { shader: 2 },
            DriverCall::GetShaderiv { shader: 2, pname: COMPILE_STATUS, initial: 1 },
            DriverCall::CreateProgram,
            DriverCall::AttachShader { program: 3, shader: 1 },
            DriverCall::AttachShader { program: 3, shader: 2 },
            DriverCall::LinkProgram { program: 3 },
            DriverCall::GetProgramiv { program: 3, pname: LINK_STATUS, initial: 1 },
            DriverCall::DetachShader { program: 3, shader: 1 },
            DriverCall::DetachShader { program: 3, shader: 2 },
        ]
    );
    let built = driver.seen.len();
    for frame in 0..3 {
        driver.perform(program.set_used());
        assert_eq!(driver.seen.len(), built + frame + 1);
        assert_eq!(driver.seen[built + frame], DriverCall::UseProgram { program: 3 });
    }
}

#[test]
fn using_a_program_twice_asks_for_the_same_call() {
    let mut driver = FakeDriver::new();
    let program = driver.link(Program::from_shaders(&[])).unwrap();
    let once = program.set_used();
    let twice = program.set_used();
    assert_eq!(once, DriverCall::UseProgram { program: 1 });
    assert_eq!(once, twice);
    driver.perform(once);
    let after_one = driver.in_use;
    driver.perform(twice);
    assert_eq!(driver.in_use, after_one);
    assert_eq!(program.id(), 1);
}

#[test]
fn releasing_a_program_deletes_its_object() {
    let mut driver = FakeDriver::new();
    let program = driver.link(Program::from_shaders(&[])).unwrap();
    assert_eq!(program.release(), DriverCall::DeleteProgram { program: 1 });
}

#[test]
fn every_object_is_deleted_exactly_once() {
    let mut driver = FakeDriver::new();
    let vert = driver.compile(Shader::from_vert_source(&text(TRIANGLE_VERT))).unwrap();
    let frag = driver.compile(Shader::from_frag_source(&text(TRIANGLE_FRAG))).unwrap();
    let shaders = [vert, frag];
    let program = driver.link(Program::from_shaders(&shaders)).unwrap();
    assert_eq!(driver.releases_of(&DriverCall::DeleteShader { shader: 1 }), 0);
    assert_eq!(driver.releases_of(&DriverCall::DeleteShader { shader: 2 }), 0);
    assert_eq!(driver.releases_of(&DriverCall::DeleteProgram { program: 3 }), 0);
    for shader in shaders {
        let call = shader.release();
        driver.perform(call);
    }
    driver.perform(program.release());
    assert_eq!(driver.releases_of(&DriverCall::DeleteShader { shader: 1 }), 1);
    assert_eq!(driver.releases_of(&DriverCall::DeleteShader { shader: 2 }), 1);
    assert_eq!(driver.releases_of(&DriverCall::DeleteProgram { program: 3 }), 1);
}

#[test]
fn failed_builds_delete_nothing() {
    let mut driver = FakeDriver::rejecting("void main() {", b"bad\0");
    assert!(driver.compile(Shader::from_vert_source(&text("void main() {"))).is_err());
    let first = driver.compile(Shader::from_frag_source(&text("void main() {}"))).unwrap();
    let second = driver.compile(Shader::from_frag_source(&text("void main() {}"))).unwrap();
    let shaders = [first, second];
    assert!(driver.link(Program::from_shaders(&shaders)).is_err());
    for call in &driver.seen {
        assert!(!matches!(
            call,
            DriverCall::DeleteShader { .. } | DriverCall::DeleteProgram { .. }
        ));
    }
}

#[test]
fn diagnostic_keeps_text_as_it_is() {
    assert_eq!(diagnostic(&b"error: undeclared identifier".to_vec()), "error: undeclared identifier");
    assert_eq!(diagnostic(&"d\u{e9}j\u{e0}".as_bytes().to_vec()), "d\u{e9}j\u{e0}");
    assert_eq!(diagnostic(&Vec::new()), "");
}

#[test]
fn diagnostic_replaces_what_is_not_text() {
    assert_eq!(diagnostic(&vec![0xC0]), "\u{FFFD}");
    assert_eq!(diagnostic(&vec![b'o', b'k', 0x80, 0x80]), "ok\u{FFFD}\u{FFFD}");
    assert_eq!(diagnostic(&vec![0xE2, 0x82]), "\u{FFFD}");
}

#[test]
fn source_text_without_nul_is_taken_as_it_is() {
    for source in ["", "void main() {}", "// d\u{e9}j\u{e0} vu \u{1F600}\n", TRIANGLE_VERT, TRIANGLE_FRAG] {
        let taken = SourceText::new(source).unwrap();
        assert_eq!(taken.as_str(), source);
    }
}

#[test]
fn source_text_with_nul_is_refused() {
    for source in ["\0", "void main() {}\0", "\0void main() {}", "void\0main", "d\u{e9}\0j\u{e0}"] {
        assert!(SourceText::new(source).is_none());
    }
}

#[test]
fn compilation_hands_the_driver_the_source_it_was_given() {
    let source = "// d\u{e9}j\u{e0} vu\nvoid main() {}\n";
    let (build, _) = pending_shader(Shader::from_frag_source(&text(source)));
    let (_, mut calls) = pending_shader(build.advance(DriverReply::Handle(2)).unwrap());
    calls.truncate(1);
    assert_eq!(calls, vec![DriverCall::ShaderSource { shader: 2, source: source.to_string() }]);
}
