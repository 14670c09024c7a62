//! Shader programs and textures, kept by name.

use vstd::prelude::*;
use vstd::hash_map::StringHashMap;
use crate::engine::resource_manager::shader::Shader;
use crate::engine::resource_manager::texture::Texture;

pub mod shader;
pub mod texture;

verus! {

/// The store of GPU handles. Compiling a shader and uploading a texture are
/// the host's work; the store takes the outcome and files the handle under a
/// name. A name holds one handle of each kind: filing a second one under the
/// same name replaces the first.
pub struct ResourceManager {
    pub shaders: StringHashMap<Shader>,
    pub textures: StringHashMap<Texture>,
}

impl ResourceManager {
    pub fn new() -> (store: ResourceManager)
        ensures
            store.shaders@ == Map::<Seq<char>, Shader>::empty(),
            store.textures@ == Map::<Seq<char>, Texture>::empty(),
    {
        ResourceManager { shaders: StringHashMap::new(), textures: StringHashMap::new() }
    }

    /// Files a compiled and linked program under `name` and hands it back. A
    /// failed compilation or link leaves the store as it was and passes its
    /// diagnostic on: no program becomes reachable under `name` through it.
    pub fn load_shader(&mut self, compiled: Result<Shader, String>, name: &str) -> (loaded: Result<
        Shader,
        String,
    >)
        ensures
            loaded == compiled,
            final(self).textures@ == old(self).textures@,
            final(self).shaders@ == match compiled {
                Ok(shader) => old(self).shaders@.insert(name@, shader),
                Err(_) => old(self).shaders@,
            },
    {
        match compiled {
            Ok(shader) => {
                self.shaders.insert(name.to_owned(), shader);
                Ok(shader)
            },
            Err(diagnostic) => Err(diagnostic),
        }
    }

    /// The program last filed under `name`, if any.
    pub fn get_shader(&self, name: &str) -> (found: Option<Shader>)
        ensures
            found == (if self.shaders@.contains_key(name@) {
                Some(self.shaders@[name@])
            } else {
                None
            }),
    {
        match self.shaders.get(name) {
            Some(shader) => Some(*shader),
            None => None,
        }
    }

    /// Files an uploaded texture under `name` and hands it back. A failed
    /// decode or upload leaves the store as it was and passes its message on.
    pub fn load_texture(&mut self, uploaded: Result<Texture, String>, name: &str) -> (loaded:
        Result<Texture, String>)
        ensures
            loaded == uploaded,
            final(self).shaders@ == old(self).shaders@,
            final(self).textures@ == match uploaded {
                Ok(texture) => old(self).textures@.insert(name@, texture),
                Err(_) => old(self).textures@,
            },
    {
        match uploaded {
            Ok(texture) => {
                self.textures.insert(name.to_owned(), texture);
                Ok(texture)
            },
            Err(message) => Err(message),
        }
    }

    /// The texture last filed under `name`, if any.
    pub fn get_texture(&self, name: &str) -> (found: Option<Texture>)
        ensures
            found == (if self.textures@.contains_key(name@) {
                Some(self.textures@[name@])
            } else {
                None
            }),
    {
        match self.textures.get(name) {
            Some(texture) => Some(*texture),
            None => None,
        }
    }
}

} // verus!
