//! The verified core of the Lora runtime: the `.lora` archive format, the
//! in-memory file table that a loaded game reads its assets from, the
//! recognition of game folders and files, and the small pieces of the
//! main-thread / Lua-thread protocol that do not touch the GPU or physics.
use vstd::prelude::*;

pub mod archive;
pub mod clock;
pub mod files;
pub mod folder;
pub mod ids;
pub mod detect;
pub mod draw;
pub mod input;
pub mod manifest;
pub mod protocol;
pub mod spawn;
pub mod texture;

verus! {

} // verus!
