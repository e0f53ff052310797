//! Challenge generation: turning mined workspaces into challenges, running
//! batches of them, and tracking how the solver performs.

pub mod swe_forge_adapter;
pub mod challenge_generator;
pub mod performance_tracker;
