pub mod about;
pub mod plots;
pub mod settings;
