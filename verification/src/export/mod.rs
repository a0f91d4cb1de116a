pub mod markdown;
pub mod report;
