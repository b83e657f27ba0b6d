//! A debug-adapter bridge: the session state machine, the GDB/MI driver's
//! bookkeeping and the queue of requests that wait for debugger output.
pub mod mi;
pub mod protocol;
pub mod driver;
pub mod queue;
pub mod session;
