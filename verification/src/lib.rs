//! Rule matching, validation and message utilities for an intercepting HTTP proxy.
pub mod text;
pub mod json;

pub mod headers;
pub mod handlers;
pub mod types;
pub mod error;
pub mod request_info;
pub mod matcher;
pub mod validator;
pub mod common;
pub mod response_info;
pub mod processing;
pub mod mock;
pub mod self_service;
pub mod api_debug;
