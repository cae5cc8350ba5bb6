//! Verified core of the shared gateway/backend layer: session leases and
//! turns, the backend table and sandbox accounting, the E2B sandbox
//! protocol, and memory automation.

pub mod text;
pub mod principal;
pub mod session_base;
pub mod strmap;
pub mod clock;
pub mod session_lease;
pub mod lease_laws;
pub mod keyhash;
pub mod sandbox_counter;
pub mod counter_laws;
pub mod session_record;
pub mod prompt_utils;
pub mod memory_render;
pub mod memory_laws;
pub mod memory_automation;
pub mod e2b_error;
pub mod e2b_stream;
pub mod stream_laws;
pub mod backend_path;
pub mod path_laws;
pub mod e2b_backend;
pub mod backend_base;
pub mod e2b_provider;
pub mod e2b_create_body;
pub mod backend_registry;
pub mod session_actor;
pub mod conch_config;
pub mod turn_flow;
pub mod json_value;
pub mod json_canonical;
pub mod backend_metadata;
pub mod eviction;
pub mod backend_index;
pub mod e2b_bootstrap;
pub mod sha256_digest;
pub mod e2b_exec;
pub mod dirty_tracker;
pub mod backend_labels;
pub mod llm_assembly;
pub mod queue_file;
pub mod bootstrap_paths;
pub mod session_service;
pub mod backend_table;
pub mod manager_flow;
pub mod str_order;
pub mod manager_rules;
pub mod e2b_files;
pub mod pending_interaction;
pub mod operation_laws;
