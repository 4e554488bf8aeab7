//! The ReAct text protocol and the run state machine.

pub mod error;
pub mod parser;
pub mod react_loop;

pub use error::ReactError;
pub use parser::{parse_final_answer, parse_react_tool_call, parse_thought, CallIdSeq};
pub use react_loop::{provider_error_output, ReactConfig, ReactLoop, ReactRun, TurnOutcome};
