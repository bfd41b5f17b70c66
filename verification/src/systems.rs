//! What happens in one tick, system by system. Each system is handed just
//! the parts of the world that it reads or changes.

pub mod background;
pub mod car;
pub mod dog;
pub mod enemy;
pub mod mud;
pub mod obstacles;
pub mod player;
pub mod score_tracking;
pub mod test_system;
pub mod tiling;

pub use background::BackgroundRepeatSystem;
pub use car::CarSystem;
pub use dog::{DogAttackSystem, DogCollisionSystem, DogSystem};
pub use enemy::{EnemyCollisionSystem, EnemyMovementSystem, EnemyObjectCollisionSystem};
pub use mud::MudSystem;
pub use obstacles::ObstacleRandomizationSystem;
pub use player::{PlayerCollisionSystem, PlayerSystem};
pub use score_tracking::ScoreTrackingSystem;
pub use test_system::TestSystem;
