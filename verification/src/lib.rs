pub mod account_flow;
pub mod application_flow;
pub mod auth;
pub mod job_flow;
pub mod models;
pub mod password;
pub mod random;
pub mod reply;
pub mod scoring;
pub mod submission;
pub mod text;
pub mod uploads;
