//! Owned handles for GPU shader stages and linked programs.
//!
//! The library never touches the graphics driver. Building a [`Shader`] or a
//! [`Program`] is a short conversation with the driver, and this crate holds
//! its side of it only: each step names the calls to issue, in order, and the
//! next step is decided from the driver's answer. Whoever owns the rendering
//! context issues the calls. What is decided, and what is asked of the driver
//! on every path, is stated in the contracts and proved.

pub mod driver;
pub mod info_log;
pub mod program;
pub mod shader;
pub mod source;

pub use driver::DriverCall;
pub use driver::DriverReply;
pub use program::Program;
pub use program::ProgramBuild;
pub use program::ProgramStep;
pub use shader::Shader;
pub use shader::ShaderBuild;
pub use shader::ShaderStep;
pub use source::SourceText;
