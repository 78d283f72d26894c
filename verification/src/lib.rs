//! Core of a contest-testing tool: a cache-backed testcase store with a
//! verified on-disk codec, command-template expansion for the compile and run
//! steps, the timeout/poll decision logic of the execution engine, and the
//! verifier that classifies each run and folds the per-case statuses into a
//! final verdict.
pub mod codec;
pub mod engine;
pub mod judge;
pub mod status;
pub mod store;
pub mod template;
pub mod testcase;
