//! The read-only uniform store: a slot arena of textures keyed by stable
//! integer handles.
//!
//! The arena is `slab::Slab`, kept behind trusted wrappers whose contracts
//! speak of `slab_model`, the map of keys to stored textures. Nothing is
//! ever removed, so handles stay stable for the store's lifetime.

use vstd::prelude::*;

verus! {

use crate::texture::Texture;

#[verifier::external_type_specification]
#[verifier::external_body]
#[verifier::reject_recursive_types(T)]
pub struct ExSlab<T>(slab::Slab<T>);

/// What the texture arena holds: the stored texture at each occupied key.
pub uninterp spec fn slab_model(s: slab::Slab<Texture>) -> Map<int, Texture>;

/// The model of a store with nothing in it.
pub open spec fn empty_model() -> Map<int, Texture> {
    Map::empty()
}

pub struct Uniforms {
    pub textures: slab::Slab<Texture>,
}

/// Relies on slab::Slab::insert: stores the value at a vacant key and
/// returns that key.
#[verifier::external_body]
fn slab_insert(s: &mut slab::Slab<Texture>, value: Texture) -> (k: usize)
    ensures
        slab_model(*final(s)) == slab_model(*old(s)).insert(k as int, value),
        slab_model(*old(s)) == slab_model(*final(s)).remove(k as int),
{
    s.insert(value)
}

/// Relies on slab::Slab::get: the value stored at the key, or `None` for a
/// vacant key.
#[verifier::external_body]
fn slab_get(s: &slab::Slab<Texture>, key: usize) -> (r: Option<&Texture>)
    ensures
        r is Some <==> slab_model(*s).contains_key(key as int),
        r is Some ==> *r.unwrap() == slab_model(*s)[key as int],
{
    s.get(key)
}

impl Uniforms {
    /// The handle-to-texture map the store realizes.
    pub open spec fn model(self) -> Map<int, Texture> {
        slab_model(self.textures)
    }

    /// Every stored texture is well formed.
    pub open spec fn wf(self) -> bool {
        forall|k: int| #[trigger] self.model().contains_key(k) ==> self.model()[k].wf()
    }

    /// Relies on slab::Slab::new: a slab with no occupied entries.
    #[verifier::external_body]
    pub fn new() -> (r: Uniforms)
        ensures
            r.model() == empty_model(),
    {
        Uniforms { textures: slab::Slab::new() }
    }

    /// Registers a texture and returns its fresh, stable handle.
    pub fn add_texture(&mut self, texture: Texture) -> (h: usize)
        requires
            texture.wf(),
            old(self).wf(),
        ensures
            !old(self).model().contains_key(h as int),
            final(self).model() == old(self).model().insert(h as int, texture),
            final(self).wf(),
    {
        let ghost pre = self.model();
        let h = slab_insert(&mut self.textures, texture);
        proof {
            assert(pre == self.model().remove(h as int));
            assert(!pre.contains_key(h as int));
            assert forall|k: int| #[trigger] self.model().contains_key(k) implies self.model()[k].wf() by {
                if k != h as int {
                    assert(pre.contains_key(k));
                }
            }
        }
        h
    }

    /// The texture a handle resolves to.
    pub fn get_texture(&self, handle: usize) -> (r: &Texture)
        requires
            self.model().contains_key(handle as int),
        ensures
            *r == self.model()[handle as int],
    {
        match slab_get(&self.textures, handle) {
            Some(t) => t,
            None => unreached(),
        }
    }

    /// Whether a handle currently resolves to a texture.
    pub fn has_texture(&self, handle: usize) -> (r: bool)
        ensures
            r == self.model().contains_key(handle as int),
    {
        match slab_get(&self.textures, handle) {
            Some(_) => true,
            None => false,
        }
    }
}

} // verus!
