//! The reactor core of a thread-per-core asynchronous I/O runtime: the per-task
//! wake signal, the cross-thread wake packet, completion records and the
//! bookkeeping of in-flight I/O operations.

pub mod completion;
pub mod driver;
pub mod io_waker;
pub mod operation;
pub mod wake_signal;
