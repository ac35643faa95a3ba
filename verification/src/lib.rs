//! Decision logic of an interrupt-driven sampling firmware: an adaptive
//! periodic timer, a double-buffered transfer pipeline, a priority-ceiling
//! dispatcher model and the push-button handling, each with its contract.

pub mod buffers;
pub mod button;
pub mod dispatch;
pub mod interval;
pub mod output;
pub mod pipeline;
pub mod shared;
pub mod tasks;
