pub mod idx;
pub mod position;
pub mod diagnostic;
pub mod hints;
pub mod pipeline;
pub mod prefer_reflect_apply;
pub mod laws;
