pub mod backup_service;
pub mod connection;
pub mod error;
pub mod model;
pub mod models;
pub mod project_repository;
pub mod prompt_repository;
pub mod search_service;
pub mod store;
pub mod tags;
pub mod task_repository;
pub mod text;
