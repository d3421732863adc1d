//! The logic of a Cloudreve client: what is decided and computed between the caller and the
//! server.
pub mod batch;
pub mod call_laws;
pub mod directory;
pub mod errors;
pub mod float;
pub mod json;
pub mod json_laws;
pub mod key_order;
pub mod listing;
pub mod listing_laws;
pub mod logger;
pub mod lookup;
pub mod names;
pub mod objects;
pub mod order;
pub mod output;
pub mod parse;
pub mod path;
pub mod path_laws;
pub mod query;
pub mod search;
pub mod session;
pub mod session_laws;
pub mod share;
pub mod share_laws;
pub mod state_laws;
pub mod task_laws;
pub mod tasks;
pub mod text;
pub mod text_laws;
pub mod thumb;
pub mod upload;
pub mod upload_laws;
