//! MLOS's residency logic: the object identifiers and metadata a kernel
//! table holds, access traces and their text format, the replay harness
//! that scores residency policies against a trace, declared streams, the
//! layout vocabulary, and the small decision functions of the drivers and
//! the inspector shell.

pub mod abi;
pub mod objtab;
pub mod text;
pub mod trace;
pub mod derive;
pub mod sim;
pub mod stream;
pub mod spaces;
pub mod virtio;
pub mod synth;
pub mod workload;
pub mod trap;
pub mod shell;
pub mod snapshot;
pub mod report;
