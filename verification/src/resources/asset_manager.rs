//! Textures loaded for the game, each filed under its file name.

use std::sync::Arc;

use vstd::hash_map::StringHashMap;
use vstd::prelude::*;

verus! {

/// Decoded image data: RGBA bytes, row by row.
pub struct Texture {
    pub image_data: Vec<u8>,
    pub width: u32,
    pub height: u32,
}

/// Calls `Arc::clone` on a texture handle. std documents that the clone is a new
/// pointer to the same allocation, so the clone holds the same texture; that is
/// all this contract claims.
#[verifier::external_body]
fn share_texture(texture: &Arc<Texture>) -> (shared: Arc<Texture>)
    ensures
        shared == *texture,
{
    Arc::clone(texture)
}

/// The loaded textures, by name.
pub struct AssetManager {
    textures: StringHashMap<Arc<Texture>>,
}

impl View for AssetManager {
    type V = Map<Seq<char>, Arc<Texture>>;

    closed spec fn view(&self) -> Map<Seq<char>, Arc<Texture>> {
        self.textures@
    }
}

impl AssetManager {
    /// A manager with no texture.
    pub fn new() -> (manager: Self)
        ensures
            manager@ == Map::<Seq<char>, Arc<Texture>>::empty(),
    {
        Self { textures: StringHashMap::new() }
    }

    /// Files `texture` under `name`, unless a texture is already filed under that
    /// name (the first one loaded stays); returns the texture filed under `name`.
    pub fn add_texture(&mut self, name: &str, texture: Texture) -> (stored: &Texture)
        ensures
            final(self)@ == (if old(self)@.contains_key(name@) {
                old(self)@
            } else {
                old(self)@.insert(name@, Arc::new(texture))
            }),
            *stored == *final(self)@[name@],
    {
        if !self.textures.contains_key(name) {
            self.textures.insert(name.to_owned(), Arc::new(texture));
        }
        self.textures.get(name).unwrap()
    }

    /// The texture filed under `name`, if there is one.
    pub fn get_texture(&self, name: &str) -> (texture: Option<Arc<Texture>>)
        ensures
            match texture {
                Some(t) => self@.contains_key(name@) && t == self@[name@],
                None => !self@.contains_key(name@),
            },
    {
        match self.textures.get(name) {
            Some(t) => Some(share_texture(t)),
            None => None,
        }
    }
}

} // verus!
