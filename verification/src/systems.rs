//! The steps of a frame, in the order in which a frame runs them: paddle
//! motion, ball motion, collision resolution, block health, damage visuals.
//! Every step does nothing while the match is paused.

pub mod block;
pub mod block_state;
pub mod bounce;
pub mod move_ball;
pub mod paddle;

pub use self::block::BlockSystem;
pub use self::block_state::BlockStateSystem;
pub use self::bounce::BounceSystem;
pub use self::move_ball::MoveBallSystem;
pub use self::paddle::PaddleSystem;
