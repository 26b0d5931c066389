pub mod text;
pub mod num;
pub mod shared;
pub mod options;
pub mod hir;
pub mod size;
pub mod mir;
pub mod mir_builder;
pub mod mir_serdes;
pub mod mir_server;
pub mod mir_client;
pub mod api;
pub mod nums;
pub mod range;
pub mod ir;
pub mod builder;
pub mod types;
pub mod serdes;
pub mod client;
pub mod server;
pub mod luau_api;
pub mod luau_codes;
pub mod serdes_pieces;
pub mod mir_serdes_pieces;
