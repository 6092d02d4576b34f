pub mod mov;
pub mod rotation;
pub mod slice_move;
pub mod transform;
