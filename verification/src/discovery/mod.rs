pub mod errors;
pub mod events;
pub mod advertisement;
pub mod scanner;
pub mod txt_record;
pub mod peer_list;
