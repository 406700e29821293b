pub mod protocol;
pub mod model;
pub mod data_state;
pub mod laws;
pub mod compositor;
