pub mod api;
pub mod assoc;
pub mod extrinsic;
pub mod hashing;
pub mod hexstr;
pub mod json;
pub mod json_req;
pub mod metadata;
pub mod node_metadata;
pub mod rpc;
pub mod text;
