//! A scope-based profiler.
//!
//! Instrumented code marks nested regions on its own thread. Each thread
//! keeps what it records in a `ThreadStorage`; at a frame boundary the
//! recorded regions become one `FrameReport` for each kind of time source
//! and are delivered to the `Profiler`, from which a consumer takes them.
//!
//! Nothing here is ambient: a call names the storage of its thread and the
//! channel it delivers to. Times are whole nanoseconds, and the value of a
//! trace variable is the 32-bit pattern it was traced with.

pub mod counters;
pub mod frontends;
pub mod name_map;
pub mod nesting;
pub mod profiler;
pub mod profiler_frame;
pub mod profiler_state;
pub mod region;
pub mod report;
pub mod reporter;
pub mod text;
pub mod thread_storage;

pub use counters::FrameReport;
pub use counters::ReportCounter;
pub use profiler::Profiler;
pub use profiler::ProfilerError;
pub use region::Region;
pub use reporter::CustomReporter;
pub use reporter::Reporter;
pub use thread_storage::next_frame;
pub use thread_storage::set_thread_name;
pub use thread_storage::set_variable_value;
pub use thread_storage::ThreadStorage;
