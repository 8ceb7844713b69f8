//! A OneNote file parser.
//!
//! The library decodes the binary layers of OneNote files: the FSSHTTPB
//! packaging, the OneStore revision store and the high-level objects of a
//! notebook. Every decoder states, in its contract, the exact bytes it
//! accepts and the value it produces.

pub mod errors;
pub mod reader;
pub mod guid;
pub mod compact;
pub mod exguid;
pub mod property;
pub mod id_mapping;
pub mod exguid_map;
pub mod onestore;
pub mod file_node;
pub mod file_node_payload;
pub mod file_node_reader;
pub mod global_id_table;
pub mod mapping_table;
pub mod text;
pub mod parse_context;
pub mod object;
pub mod object_group_list;
pub mod revision;
pub mod revision_manifest_list;
pub mod merged_revisions;
pub mod root_file_node_list;
pub mod notebook;
pub mod rich_text;
pub mod packaging;
pub mod entry_path;
