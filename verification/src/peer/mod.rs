pub mod identity;
pub mod peer_node;
