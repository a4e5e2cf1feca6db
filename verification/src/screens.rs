pub mod battle;
pub mod start;
pub mod visibility;
