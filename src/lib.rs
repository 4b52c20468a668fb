//! A scoped request-log recorder: one human-readable line per unit of work,
//! holding either its elapsed time or, when the work failed, a stack trace.

pub mod text;
pub mod duration;
pub mod frames;
pub mod entry;

pub use entry::LogEntry;
pub use frames::{FrameSymbol, StackFrame};
pub use duration::{elapsed_ns, format_time};
