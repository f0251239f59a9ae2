//! The vocabulary shared with the graphics driver: the calls this library asks
//! its caller to issue and the answers it accepts back.
//!
//! Nothing here touches the driver. A [`DriverCall`] is a plain value naming one
//! entry point and its arguments; whoever owns the rendering context performs
//! it and, where the entry point returns something, hands a [`DriverReply`]
//! back.

use crate::info_log::utf8_lossy;
use vstd::prelude::*;

verus! {

/// Stage kind of a vertex shader.
pub const VERTEX_SHADER: u32 = 0x8B31;

/// Stage kind of a fragment shader.
pub const FRAGMENT_SHADER: u32 = 0x8B30;

/// Parameter name: whether the last compilation of a shader succeeded.
pub const COMPILE_STATUS: u32 = 0x8B81;

/// Parameter name: whether the last link of a program succeeded.
pub const LINK_STATUS: u32 = 0x8B82;

/// Parameter name: length of an object's diagnostic log.
pub const INFO_LOG_LENGTH: u32 = 0x8B84;

/// One call into the graphics driver, with its arguments.
#[derive(Debug, PartialEq, Eq)]
pub enum DriverCall {
    /// Create an empty shader object of the given stage kind; answered with its handle.
    CreateShader { kind: u32 },
    /// Replace the source text of a shader object.
    ShaderSource { shader: u32, source: String },
    /// Compile the source text a shader object holds.
    CompileShader { shader: u32 },
    /// Read one integer parameter of a shader object into a variable that
    /// holds `initial` before the call; answered with the variable afterwards.
    GetShaderiv { shader: u32, pname: u32, initial: i32 },
    /// Have the driver write a shader object's diagnostic log, at most
    /// `capacity` bytes of it, into `buffer`; answered with the buffer afterwards.
    GetShaderInfoLog { shader: u32, capacity: i32, buffer: Vec<u8> },
    /// Delete a shader object.
    DeleteShader { shader: u32 },
    /// Create an empty program object; answered with its handle.
    CreateProgram,
    /// Attach a shader object to a program object.
    AttachShader { program: u32, shader: u32 },
    /// Link the shader objects attached to a program object.
    LinkProgram { program: u32 },
    /// Read one integer parameter of a program object into a variable that
    /// holds `initial` before the call; answered with the variable afterwards.
    GetProgramiv { program: u32, pname: u32, initial: i32 },
    /// Have the driver write a program object's diagnostic log, at most
    /// `capacity` bytes of it, into `buffer`; answered with the buffer afterwards.
    GetProgramInfoLog { program: u32, capacity: i32, buffer: Vec<u8> },
    /// Detach a shader object from a program object.
    DetachShader { program: u32, shader: u32 },
    /// Make a program object the one that subsequent draw calls run.
    UseProgram { program: u32 },
    /// Delete a program object.
    DeleteProgram { program: u32 },
}

/// Mathematical model of a [`DriverCall`].
pub enum Call {
    CreateShader { kind: u32 },
    ShaderSource { shader: u32, source: Seq<char> },
    CompileShader { shader: u32 },
    GetShaderiv { shader: u32, pname: u32, initial: i32 },
    GetShaderInfoLog { shader: u32, capacity: i32, buffer: Seq<u8> },
    DeleteShader { shader: u32 },
    CreateProgram,
    AttachShader { program: u32, shader: u32 },
    LinkProgram { program: u32 },
    GetProgramiv { program: u32, pname: u32, initial: i32 },
    GetProgramInfoLog { program: u32, capacity: i32, buffer: Seq<u8> },
    DetachShader { program: u32, shader: u32 },
    UseProgram { program: u32 },
    DeleteProgram { program: u32 },
}

impl Call {
    /// Whether the driver answers this call with a value.
    pub open spec fn is_query(self) -> bool {
        match self {
            Call::CreateShader { .. }
            | Call::CreateProgram
            | Call::GetShaderiv { .. }
            | Call::GetProgramiv { .. }
            | Call::GetShaderInfoLog { .. }
            | Call::GetProgramInfoLog { .. } => true,
            _ => false,
        }
    }

    /// Whether this call gives a driver object back to the driver.
    pub open spec fn is_release(self) -> bool {
        self is DeleteShader || self is DeleteProgram
    }
}

impl View for DriverCall {
    type V = Call;

    open spec fn view(&self) -> Call {
        match *self {
            DriverCall::CreateShader { kind } => Call::CreateShader { kind },
            DriverCall::ShaderSource { shader, source } => Call::ShaderSource {
                shader,
                source: source@,
            },
            DriverCall::CompileShader { shader } => Call::CompileShader { shader },
            DriverCall::GetShaderiv { shader, pname, initial } => Call::GetShaderiv {
                shader,
                pname,
                initial,
            },
            DriverCall::GetShaderInfoLog { shader, capacity, buffer } => Call::GetShaderInfoLog {
                shader,
                capacity,
                buffer: buffer@,
            },
            DriverCall::DeleteShader { shader } => Call::DeleteShader { shader },
            DriverCall::CreateProgram => Call::CreateProgram,
            DriverCall::AttachShader { program, shader } => Call::AttachShader { program, shader },
            DriverCall::LinkProgram { program } => Call::LinkProgram { program },
            DriverCall::GetProgramiv { program, pname, initial } => Call::GetProgramiv {
                program,
                pname,
                initial,
            },
            DriverCall::GetProgramInfoLog { program, capacity, buffer } => Call::GetProgramInfoLog {
                program,
                capacity,
                buffer: buffer@,
            },
            DriverCall::DetachShader { program, shader } => Call::DetachShader { program, shader },
            DriverCall::UseProgram { program } => Call::UseProgram { program },
            DriverCall::DeleteProgram { program } => Call::DeleteProgram { program },
        }
    }
}

/// The models of a list of calls, in order.
pub open spec fn call_views(calls: Seq<DriverCall>) -> Seq<Call> {
    Seq::new(calls.len(), |i: int| calls[i]@)
}

/// What the driver gave back for the last call of a batch.
#[derive(Debug, PartialEq, Eq)]
pub enum DriverReply {
    /// The handle of a freshly created object.
    Handle(u32),
    /// The variable a parameter query wrote to, as it stands after the call.
    Value(i32),
    /// The buffer a log query wrote to, as it stands after the call.
    Log(Vec<u8>),
}

/// Mathematical model of a [`DriverReply`].
pub enum Reply {
    Handle(u32),
    Value(i32),
    Log(Seq<u8>),
}

impl View for DriverReply {
    type V = Reply;

    open spec fn view(&self) -> Reply {
        match *self {
            DriverReply::Handle(handle) => Reply::Handle(handle),
            DriverReply::Value(value) => Reply::Value(value),
            DriverReply::Log(buffer) => Reply::Log(buffer@),
        }
    }
}

/// A whole build as the driver saw it: every call issued, in order, and how
/// the build ended, if it did. A shader or a program is modelled by its handle.
pub struct Run {
    pub calls: Seq<Call>,
    pub result: Option<Result<u32, Seq<char>>>,
}

/// How a build ends, read off the driver's answers alone. Compiling a shader
/// and linking a program ask the same four questions: for a handle, for the
/// status, and, where the status reports failure, for the length of the log
/// and for the log.
///
/// The build succeeds with the handle if the status is not zero. It fails with
/// the lossy reading of the log if the status is zero, the length is not
/// negative and the log came back in a buffer of that length. It has no result
/// where the answers stop short or one of them does not answer its call.
pub open spec fn outcome(replies: Seq<Reply>) -> Option<Result<u32, Seq<char>>> {
    if replies.len() >= 2 && replies[0] is Handle && replies[1] is Value && replies[1]->Value_0
        != 0 {
        Some(Ok(replies[0]->Handle_0))
    } else if replies.len() >= 4 && replies[0] is Handle && replies[1] == Reply::Value(0)
        && replies[2] is Value && replies[2]->Value_0 >= 0 && replies[3] is Log
        && replies[3]->Log_0.len() == replies[2]->Value_0 {
        Some(Err(utf8_lossy(replies[3]->Log_0)))
    } else {
        None
    }
}

} // verus!
