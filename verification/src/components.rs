//! What an entity of the game is made of: plain data, and the few methods
//! that move a body between its speed tiers.

pub mod background;
pub mod car;
pub mod dog;
pub mod enemy;
pub mod mud;
pub mod player;

pub use background::Background;
pub use car::Car;
pub use dog::{Dog, Heading};
pub use enemy::Enemy;
pub use mud::Mud;
pub use player::Player;
