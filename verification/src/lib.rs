pub mod instruction;
pub mod state;
pub mod vm;
pub mod laws;
