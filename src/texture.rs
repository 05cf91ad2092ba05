use vstd::prelude::*;

use std::collections::HashMap;

verus! {

broadcast use vstd::std_specs::hash::group_hash_axioms;

/// What a texture handle keeps track of: the id that a cache gave it, whether
/// its image changed since it was last uploaded, and the image.
pub struct TextureInner<I> {
    /// The id under which a `TextureBuffer` holds the uploaded texture.
    pub id: Option<u64>,
    /// Whether the image changed since it was last uploaded.
    pub needs_update: bool,
    /// The image data.
    pub image: I,
}

impl<I> TextureInner<I> {
    /// A handle for an image that no cache has uploaded yet.
    pub fn new(image: I) -> (t: TextureInner<I>)
        ensures
            t.id is None,
            !t.needs_update,
            t.image == image,
    {
        TextureInner { id: None, needs_update: false, image }
    }

    /// The image has to be uploaded before it can be drawn: no cache has it
    /// yet, or it changed since.
    pub open spec fn needs_upload_spec(&self) -> bool {
        self.id is None || self.needs_update
    }

    /// Whether the image has to be uploaded before it can be drawn.
    pub fn needs_upload(&self) -> (r: bool)
        ensures
            r == self.needs_upload_spec(),
    {
        self.id.is_none() || self.needs_update
    }

    /// Notes that the image was edited, whether or not its pixels changed.
    pub fn mark_edited(&mut self)
        ensures
            *final(self) == (TextureInner { needs_update: true, ..*old(self) }),
    {
        self.needs_update = true;
    }
}

/// Why a texture could not be materialized.
#[derive(Clone, Copy, Debug, PartialEq, Eq, Structural)]
pub enum TextureError {
    /// The image has to be uploaded, and no uploaded texture was handed in.
    UploadMissing,
    /// Every id has been given out.
    IdsExhausted,
    /// The handle's id names no texture of this cache.
    Missing,
}

/// What a texture cache holds, as mathematical values.
pub struct CacheModel<T> {
    pub textures: Map<u64, T>,
    pub next_id: u64,
}

/// The cache and the handle after storing `fresh`, a new upload of the
/// handle's image: under a new id for a handle that has none, else in place
/// of the texture under its id, which is then up to date.
pub open spec fn after_install<I, T>(c: CacheModel<T>, t: TextureInner<I>, fresh: T) -> (
    CacheModel<T>,
    TextureInner<I>,
) {
    match t.id {
        None => (
            CacheModel {
                textures: c.textures.insert(c.next_id, fresh),
                next_id: (c.next_id + 1) as u64,
            },
            TextureInner { id: Some(c.next_id), ..t },
        ),
        Some(id) => (
            CacheModel { textures: c.textures.insert(id, fresh), ..c },
            TextureInner { needs_update: false, ..t },
        ),
    }
}

/// A handle is uploaded once until its image is edited. Storing the first
/// upload of an untouched handle gives it an id and leaves it needing no
/// other upload, so materializing it again uploads nothing and returns that
/// texture. After an edit it needs exactly one more upload, which replaces
/// the texture under the same id: the cache keeps the same ids and the same
/// next id.
pub proof fn lemma_upload_once<I, T>(c: CacheModel<T>, t: TextureInner<I>, first: T, second: T)
    requires
        t.id is None,
        !t.needs_update,
        c.next_id < u64::MAX,
    ensures
        ({
            let (c1, t1) = after_install(c, t, first);
            let edited = TextureInner { needs_update: true, ..t1 };
            let (c2, t2) = after_install(c1, edited, second);
            &&& t.needs_upload_spec()
            &&& t1.id == Some(c.next_id)
            &&& c1.textures.contains_key(c.next_id)
            &&& c1.textures[c.next_id] == first
            &&& !t1.needs_upload_spec()
            &&& edited.needs_upload_spec()
            &&& t2.id == t1.id
            &&& !t2.needs_upload_spec()
            &&& c2.textures.dom() == c1.textures.dom()
            &&& c2.textures == c1.textures.insert(c.next_id, second)
            &&& c2.next_id == c1.next_id
        }),
{
    let (c1, _t1) = after_install(c, t, first);
    let (c2, _t2) = after_install(c1, TextureInner { needs_update: true, ..after_install(c, t, first).1 }, second);
    assert(c2.textures.dom() =~= c1.textures.dom());
}

/// Stores the textures uploaded for texture handles, by id.
pub struct TextureBuffer<F, T> {
    /// The factory that creates textures.
    pub factory: F,
    textures: HashMap<u64, T>,
    next_id: u64,
}

impl<F, T> View for TextureBuffer<F, T> {
    type V = CacheModel<T>;

    closed spec fn view(&self) -> CacheModel<T> {
        CacheModel { textures: self.textures@, next_id: self.next_id }
    }
}

impl<F, T> TextureBuffer<F, T> {
    /// The factory that the cache uploads through.
    pub closed spec fn factory_spec(&self) -> F {
        self.factory
    }

    /// Creates an empty cache that uploads through `factory`.
    pub fn new(factory: F) -> (b: TextureBuffer<F, T>)
        ensures
            b.factory_spec() == factory,
            b@.textures == Map::<u64, T>::empty(),
            b@.next_id == 0,
    {
        TextureBuffer { factory, textures: HashMap::new(), next_id: 0 }
    }

    /// Makes the handle's texture ready to draw and returns it. Where the
    /// handle needs an upload, `fresh` is that upload, and it is stored
    /// under a new id (a handle seen for the first time) or in place of the
    /// old texture under the handle's id (an edited image). Where it needs
    /// none, the texture already stored under its id is returned. A failure
    /// changes neither the cache nor the handle.
    pub fn materialize<I>(&mut self, inner: &mut TextureInner<I>, fresh: Option<T>) -> (r: Result<
        &T,
        TextureError,
    >)
        ensures
            final(self).factory_spec() == old(self).factory_spec(),
            !old(inner).needs_upload_spec() ==> {
                let id = old(inner).id->Some_0;
                &&& final(self)@ == old(self)@
                &&& *final(inner) == *old(inner)
                &&& match r {
                    Ok(t) => old(self)@.textures.contains_key(id) && *t == old(self)@.textures[id],
                    Err(e) => !old(self)@.textures.contains_key(id) && e == TextureError::Missing,
                }
            },
            old(inner).needs_upload_spec() && fresh is None ==> {
                &&& final(self)@ == old(self)@
                &&& *final(inner) == *old(inner)
                &&& r == Err::<&T, TextureError>(TextureError::UploadMissing)
            },
            old(inner).needs_upload_spec() && fresh is Some && old(inner).id is None
                && old(self)@.next_id == u64::MAX ==> {
                &&& final(self)@ == old(self)@
                &&& *final(inner) == *old(inner)
                &&& r == Err::<&T, TextureError>(TextureError::IdsExhausted)
            },
            old(inner).needs_upload_spec() && fresh is Some && !(old(inner).id is None
                && old(self)@.next_id == u64::MAX) ==> {
                &&& (final(self)@, *final(inner)) == after_install(
                    old(self)@,
                    *old(inner),
                    fresh->Some_0,
                )
                &&& r matches Ok(t) && *t == fresh->Some_0
            },
    {
        if inner.needs_upload() {
            let fresh = match fresh {
                Some(t) => t,
                None => {
                    return Err(TextureError::UploadMissing);
                },
            };
            let id = match inner.id {
                Some(id) => {
                    inner.needs_update = false;
                    id
                },
                None => {
                    if self.next_id == u64::MAX {
                        return Err(TextureError::IdsExhausted);
                    }
                    let id = self.next_id;
                    self.next_id = self.next_id + 1;
                    inner.id = Some(id);
                    id
                },
            };
            self.textures.insert(id, fresh);
            proof {
                assert(self@.textures.contains_key(id));
            }
            match self.textures.get(&id) {
                Some(t) => Ok(t),
                None => Err(TextureError::Missing),
            }
        } else {
            let id = match inner.id {
                Some(id) => id,
                None => {
                    return Err(TextureError::Missing);
                },
            };
            match self.textures.get(&id) {
                Some(t) => Ok(t),
                None => Err(TextureError::Missing),
            }
        }
    }
}

} // verus!
