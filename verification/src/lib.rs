pub mod collections;
pub mod hints;
pub mod kern;
pub mod sync;
pub mod sys;
