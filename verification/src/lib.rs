//! Conversion of Minecraft console (Xbox 360 / Legacy Console Edition) save data:
//! container formats, region files, chunk payloads, NBT and block-state mapping.
pub mod bytes;
pub mod error;
pub mod text;
pub mod models;
pub mod block_mapping;
pub mod world_profile;
pub mod assoc;
pub mod archive;
pub mod region;
pub mod lce_region;
pub mod rle;
pub mod lce_chunk_payload;
pub mod stfs;
pub mod chunk;
pub mod compress;
pub mod nbt;
pub mod nbt_laws;
pub mod modern_chunk_writer;
pub mod level_dat;
pub mod save_data_container;
pub mod convert;
pub mod dlc;
pub mod relay;
