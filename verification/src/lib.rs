pub mod category;
pub mod clock;
pub mod codec;
pub mod expense;
pub mod laws;
pub mod menu;
pub mod numbers;
pub mod text;
