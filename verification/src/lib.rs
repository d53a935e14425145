pub mod colours;
pub mod laws;
pub mod text;
