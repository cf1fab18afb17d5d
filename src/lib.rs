//! Repository policy enforcement: policy matching, policy-first batching of
//! handler and resolver calls, and the wire formats shared by the execution
//! backends.

pub mod embedded;
pub mod engine;
pub mod files;
pub mod ipc;
pub mod pattern;
pub mod stats;
mod text;
pub mod types;

pub use embedded::resolve_path;
pub use engine::{BatchCall, CheckRun, CompileError, FileReport, Phase, Verdict};
pub use stats::PerfStats;
pub use types::{
    BatchResponse, BatchResultItem, CompactBatchFailureItem, CompactBatchResponse,
    HandlerResult, IpcRequest, IpcResponse, LoadConfigParams, LoadConfigResponse, PolicyErrorResult,
    PolicyMeta, RunHandlerBatchParams, RunHandlerParams, RunResolverBatchParams,
    RunResolverParams, expand_compact_response,
};
