pub mod checkpoint;
pub mod control;
pub mod dispatch;
pub mod error;
pub mod manager;
pub mod manifest;
pub mod metadata;
pub mod planner;
pub mod progress;
pub mod resolve;
pub mod retry;
pub mod verify;
pub mod worker;
