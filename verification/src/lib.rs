//! Host-side harness for running a unikernel guest inside a lightweight
//! virtual machine sandbox.
//!
//! The crate holds the rules of the harness, each stated as a contract and
//! proved:
//!
//! - `size`: memory sizes as people write them (`512Mi`, `1Gi`, `100M`);
//! - `cmdline`: guest arguments framed in a page-aligned header in front of
//!   the boot image;
//! - `capture`: the order in which the diagnostic stream is redirected,
//!   restored and read, and the decoding of what was read;
//! - `harness`: one run, from the look for the kernel file to the result,
//!   with the halt of the guest taken as its normal end;
//! - `archive`: putting one more file into a filesystem archive;
//! - `payload`: a file handed out by the guest through its output;
//! - `script`: generated code freed from its Markdown fence and made ready
//!   for the guest.
//!
//! The crate touches no file, descriptor or sandbox. Where the outside world
//! is needed, the caller is told what to do and reports what came of it.

pub mod archive;
pub mod capture;
pub mod cmdline;
pub mod config;
pub mod harness;
pub mod payload;
pub mod script;
pub mod size;
pub mod text;

pub use crate::cmdline::prepend_cmdline_to_initrd;
pub use crate::config::VmConfig;
pub use crate::harness::VmError;
pub use crate::harness::VmOutput;
pub use crate::size::parse_memory;
pub use crate::size::ParseError;
