pub mod display_trait;
pub mod laws;
pub mod terminal;
