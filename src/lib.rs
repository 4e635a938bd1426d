pub mod dom;
pub mod html;
pub mod number;
pub mod sections;
pub mod types;
