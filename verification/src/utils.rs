//! The functions of the library under one path.

pub use crate::domain::{compute_domain, compute_fork_data_root, compute_signing_root};
pub use crate::encoding::{
    address_to_hex_string, bytes_deserialize, bytes_opt_deserialize, bytes_serialize,
    hex_str_to_bytes, u64_to_hex_string,
};
pub use crate::merkle::{branch_to_nodes, bytes32_to_node, is_proof_valid};
pub use crate::period::calc_sync_period;
pub use crate::signature::is_aggregate_valid;
