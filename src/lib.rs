//! Capture of UDP datagrams into rotating files: the file-lifecycle state
//! machine, the naming policy for capture files, the decisions of the
//! receive loop, and the reply framing of the remote command executor, each
//! with its contract.
//!
//! The library decides and the caller acts: it creates, appends to and
//! closes files, sends datagrams and runs commands as the returned actions
//! say.
pub mod moment;
pub mod naming;
pub mod writer;
pub mod dispatch;
pub mod reply;
