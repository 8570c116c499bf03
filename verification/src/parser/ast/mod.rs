pub mod lang;
pub mod node;
