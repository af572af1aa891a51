//! Game logic of a voxel sandbox: blocks, items, inventories, crafting and
//! workstations; the chunked world with its block edits, redstone, liquids
//! and other world rules; the binary codecs of its save files and LAN
//! protocol; and the Minecraft wire protocol.

pub mod blocks;
pub mod items;
pub mod inventory;
pub mod slots;
pub mod workshop;
pub mod crafting;
pub mod codec;
pub mod text;
pub mod mcproto;
pub mod mcclient;
pub mod net;
pub mod save;
pub mod entities;
pub mod coords;
pub mod hashing;
pub mod sound;
pub mod colors;
pub mod world;
pub mod edits;
pub mod fluids;
pub mod actions;
