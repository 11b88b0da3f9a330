//! Verified core of the berth MCP runtime: resource-limit parsing, global
//! configuration defaults, the exec-permission proxy filter and the MCP
//! health-check decisions.

pub mod json;
pub mod text;
pub mod resource_limits;
pub mod proxy_filter;
pub mod health_check;
pub mod global_config;
