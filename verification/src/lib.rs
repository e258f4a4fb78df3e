//! Rolling row buffers and the stage plans of a trading runtime pipeline.

pub mod matrix;
pub mod buffer;
pub mod stage;
