pub mod coord;
pub mod coud;
pub mod eofb;

pub mod pruning;
