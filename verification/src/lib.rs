pub mod error;
pub mod git;
pub mod sections;
