//! The runtime's decision logic: budgets, recovery, protocol state, orchestration,
//! planning, agents, checkpoints, compaction and the context bridge.

pub mod budgets;
pub mod recovery;
pub mod protocol_state;
pub mod agents;
pub mod orchestration;
pub mod compaction;
pub mod planning;
pub mod checkpoints;
pub mod context_bridge;
