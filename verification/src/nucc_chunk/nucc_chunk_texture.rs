//! The texture container: a short header and the textures it holds, each with its mipmap
//! sizes and its pixel data. These are the values of the container as plain data; no chunk
//! kind of the registry reads or writes them.

use vstd::prelude::*;

verus! {

/// A texture chunk: two unnamed fields, the size of the picture, the size of the
/// container in bytes, and the container.
#[derive(Clone, Debug, PartialEq, Eq)]
pub struct NuccTexture {
    pub field00: u16,
    pub width: u16,
    pub height: u16,
    pub field06: u16,
    pub size: u32,
    pub nut: Nut,
}

/// A container of textures.
#[derive(Clone, Debug, PartialEq, Eq)]
pub struct Nut {
    pub version: u16,
    pub count: u16,
    pub textures: Vec<NutTexture>,
}

/// One texture of a container: its sizes, its pixel format, the sizes of its mipmaps, two
/// four-byte markers, a hash and the pixel data.
#[derive(Clone, Debug, PartialEq, Eq)]
pub struct NutTexture {
    pub total_size: u32,
    pub data_size: u32,
    pub header_size: u16,
    pub mipmap_count: u16,
    pub pixel_format: u16,
    pub width: u16,
    pub height: u16,
    pub caps2: u32,
    pub cubemap_format: u32,
    pub mipmaps: Vec<u32>,
    pub ext: [u8; 4],
    pub gidx: [u8; 4],
    pub hash: u32,
    pub texture_data: Vec<u8>,
}

} // verus!
