//! Running a parsed script against a turtle and an environment.

pub mod control_flows;
pub mod errors;
pub mod execute;
pub mod facts;
pub mod machine;
pub mod matches;
pub mod meaning;
pub mod turtle;
