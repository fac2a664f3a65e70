//! Loaded-texture bookkeeping for the model loader.
//!
//! A model's materials name their texture files by path. Loading a texture
//! hands back a handle from the graphics backend; that call is expensive, so
//! a loader keeps every texture loaded so far and reuses the entry instead
//! of loading the same file twice. The lookup and registration logic lives
//! here; the backend call itself is the caller's.

use vstd::prelude::*;

verus! {

/// What a texture is used for in a material.
#[derive(Clone, Copy, Debug, PartialEq, Eq, Structural)]
pub enum TextureType {
    Diffuse,
    Specular,
}

/// A texture loaded by the graphics backend: its backend handle, its role in
/// the material, and the path it was loaded from.
#[derive(Clone)]
pub struct Texture {
    pub id: u32,
    pub tex_type: TextureType,
    pub filepath: String,
}

/// Whether no two textures of `s` were loaded from the same path — the
/// each-file-loaded-at-most-once invariant of a loader's texture list.
pub open spec fn distinct_paths(s: Seq<Texture>) -> bool {
    forall|i: int, j: int|
        0 <= i < j < s.len() ==> (#[trigger] s[i].filepath)@ != (#[trigger] s[j].filepath)@
}

/// Position of the texture loaded from `filepath` among `loaded`, if any:
/// the caller reuses that entry instead of loading the file again.
pub fn find_loaded(loaded: &Vec<Texture>, filepath: &String) -> (r: Option<usize>)
    ensures
        match r {
            Some(i) => i < loaded@.len() && loaded@[i as int].filepath@ == filepath@,
            None => forall|j: int|
                0 <= j < loaded@.len() ==> (#[trigger] loaded@[j].filepath)@ != filepath@,
        },
{
    let n = loaded.len();
    let mut i: usize = 0;
    while i < n
        invariant
            i <= n,
            n == loaded@.len(),
            forall|j: int| 0 <= j < i ==> (#[trigger] loaded@[j].filepath)@ != filepath@,
        decreases n - i,
    {
        if loaded[i].filepath == *filepath {
            return Some(i);
        }
        i += 1;
    }
    None
}

/// Appends a freshly loaded texture to the list and returns its position.
/// When the list held no texture of the same path beforehand — which
/// `find_loaded` establishes — a distinct-path list stays distinct, so each
/// file is loaded at most once under the find-then-register discipline.
pub fn register_texture(loaded: &mut Vec<Texture>, texture: Texture) -> (idx: usize)
    ensures
        final(loaded)@ == old(loaded)@.push(texture),
        idx == old(loaded)@.len(),
        (distinct_paths(old(loaded)@) && (forall|j: int|
            0 <= j < old(loaded)@.len() ==> (#[trigger] old(loaded)@[j].filepath)@
                != texture.filepath@)) ==> distinct_paths(final(loaded)@),
{
    let idx = loaded.len();
    let ghost pre = loaded@;
    loaded.push(texture);
    proof {
        if distinct_paths(pre) && (forall|j: int|
            0 <= j < pre.len() ==> (#[trigger] pre[j].filepath)@ != texture.filepath@) {
            let post = loaded@;
            assert forall|i: int, j: int|
                0 <= i < j < post.len() implies (#[trigger] post[i].filepath)@ != (
            #[trigger] post[j].filepath)@ by {
                if j < pre.len() {
                    assert(post[i] == pre[i] && post[j] == pre[j]);
                } else {
                    assert(post[i] == pre[i] && post[j] == texture);
                }
            }
        }
    }
    idx
}

} // verus!
