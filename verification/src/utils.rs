pub mod collisions;
pub mod distance;
pub mod pathing;
