//! A parallel recursive copy engine: the work stack that workers share,
//! the state machine each worker follows, and the rule that decides when
//! every worker may stop.

pub mod entry;
pub mod path;
pub mod plan;
pub mod pool;
pub mod state;
