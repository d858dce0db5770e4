//! Submission orchestration for a desktop judge client: session state,
//! cookie policy, submit-form automation, verdict polling and the retry
//! policy of the page fetcher.

pub mod text;
pub mod form;
pub mod auth;
pub mod cookies;
pub mod submit;
pub mod verdict;
pub mod fetch;
pub mod install;
pub mod python;
pub mod page;
pub mod run;
pub mod problems;
