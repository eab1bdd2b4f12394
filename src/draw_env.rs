//! The draw environment: one pending draw call's full configuration.

use crate::bindings::{
    bind_first, has_key, key_map, lemma_key_map_empty, lemma_key_map_push,
    lemma_key_map_swap_remove, lemma_key_map_update, unique_keys,
};
use crate::glsl::GLSLAny;
use crate::handles::{BufferHandle, ShaderHandle, TextureHandle};
use gl::types::{GLenum, GLint, GLuint};
use vstd::prelude::*;

verus! {

/// The identity recorded where no shader or index buffer is bound.
pub const UNSET_ID: usize = usize::MAX;

/// The depth-test toggle: off, or on with a comparison function.
#[derive(Clone, Copy, Debug, PartialEq, Eq, Structural)]
pub enum EnableDepth {
    No,
    Yes(GLenum),
}

/// The blending toggle: off, or on with source and destination factors.
#[derive(Clone, Copy, Debug, PartialEq, Eq, Structural)]
pub enum EnableBlend {
    No,
    Yes(GLenum, GLenum),
}

/// Sets the uniform at `loc` to `v`, or deletes it where `v` is `NoValue`.
pub open spec fn set_or_delete(m: Map<GLint, GLSLAny>, loc: GLint, v: GLSLAny) -> Map<GLint, GLSLAny> {
    if v is NoValue {
        m.remove(loc)
    } else {
        m.insert(loc, v)
    }
}

/// What a draw environment holds, with each binding collection seen as a
/// map from its key to what is bound there.
pub ghost struct DrawEnvView {
    pub count: usize,
    pub offset: usize,
    pub draw_type: GLenum,
    pub shader: usize,
    pub indices: usize,
    /// buffer identity to attribute location
    pub buffers: Map<usize, GLuint>,
    /// texture identity to unit or location
    pub textures: Map<usize, GLint>,
    /// binding location to uniform value
    pub uniforms: Map<GLint, GLSLAny>,
    pub depth: EnableDepth,
    pub blend: EnableBlend,
}

impl DrawEnvView {
    /// The state of a freshly made environment.
    pub open spec fn empty() -> Self {
        DrawEnvView {
            count: 0,
            offset: 0,
            draw_type: 0,
            shader: UNSET_ID,
            indices: UNSET_ID,
            buffers: Map::empty(),
            textures: Map::empty(),
            uniforms: Map::empty(),
            depth: EnableDepth::No,
            blend: EnableBlend::No,
        }
    }

    /// The same state with the depth toggle set to `d`.
    pub open spec fn set_depth(self, d: EnableDepth) -> Self {
        DrawEnvView { depth: d, ..self }
    }

    /// The same state with the blend toggle set to `b`.
    pub open spec fn set_blend(self, b: EnableBlend) -> Self {
        DrawEnvView { blend: b, ..self }
    }

    /// No uniform is stored as `NoValue`.
    pub open spec fn no_stored_tombstone(self) -> bool {
        forall|l: GLint| #[trigger] self.uniforms.contains_key(l) ==> !(self.uniforms[l] is NoValue)
    }
}

/// Everything a renderer needs to configure the pipeline before one draw.
pub struct DrawEnv {
    count: usize,
    offset: usize,
    draw_type: GLenum,
    shader: usize,
    indices: usize,
    buffers: Vec<(usize, GLuint)>,
    textures: Vec<(usize, GLint)>,
    uniforms: Vec<(GLint, GLSLAny)>,
    depth: EnableDepth,
    blend: EnableBlend,
}

impl View for DrawEnv {
    type V = DrawEnvView;

    closed spec fn view(&self) -> DrawEnvView {
        DrawEnvView {
            count: self.count,
            offset: self.offset,
            draw_type: self.draw_type,
            shader: self.shader,
            indices: self.indices,
            buffers: key_map(self.buffers@),
            textures: key_map(self.textures@),
            uniforms: key_map(self.uniforms@),
            depth: self.depth,
            blend: self.blend,
        }
    }
}

/// Index of the pair whose handle identity is `id`, if any.
fn position_of_handle<V>(v: &Vec<(usize, V)>, id: usize) -> (r: Option<usize>)
    ensures
        match r {
            Some(i) => i < v@.len() && v@[i as int].0 == id,
            None => !has_key(v@, id),
        },
{
    let mut i: usize = 0;
    while i < v.len()
        invariant
            i <= v@.len(),
            forall|j: int| 0 <= j < i ==> #[trigger] v@[j].0 != id,
        decreases v@.len() - i,
    {
        if v[i].0 == id {
            return Some(i);
        }
        i = i + 1;
    }
    None
}

/// Index of the uniform pair at binding location `loc`, if any.
fn position_of_location(v: &Vec<(GLint, GLSLAny)>, loc: GLint) -> (r: Option<usize>)
    ensures
        match r {
            Some(i) => i < v@.len() && v@[i as int].0 == loc,
            None => !has_key(v@, loc),
        },
{
    let mut i: usize = 0;
    while i < v.len()
        invariant
            i <= v@.len(),
            forall|j: int| 0 <= j < i ==> #[trigger] v@[j].0 != loc,
        decreases v@.len() - i,
    {
        if v[i].0 == loc {
            return Some(i);
        }
        i = i + 1;
    }
    None
}

impl DrawEnv {
    /// Each collection holds at most one pair per key, and no uniform pair
    /// holds `NoValue`.
    pub closed spec fn wf(&self) -> bool {
        &&& unique_keys(self.buffers@)
        &&& unique_keys(self.textures@)
        &&& unique_keys(self.uniforms@)
        &&& forall|i: int| 0 <= i < self.uniforms@.len() ==> !(#[trigger] self.uniforms@[i].1 is NoValue)
    }

    /// An empty environment: nothing to draw, no shader or index buffer,
    /// no bindings, both toggles off.
    pub fn new() -> (r: Self)
        ensures
            r.wf(),
            r@ == DrawEnvView::empty(),
    {
        let r = DrawEnv {
            count: 0,
            offset: 0,
            draw_type: 0,
            shader: UNSET_ID,
            indices: UNSET_ID,
            buffers: Vec::new(),
            textures: Vec::new(),
            uniforms: Vec::new(),
            depth: EnableDepth::No,
            blend: EnableBlend::No,
        };
        proof {
            lemma_key_map_empty(r.buffers@);
            lemma_key_map_empty(r.textures@);
            lemma_key_map_empty(r.uniforms@);
        }
        r
    }
    /// Sets how many elements to draw, from which offset, with which
    /// primitive topology.
    pub fn set_draw_count(&mut self, count: usize, offset: usize, draw_type: GLenum)
        requires
            old(self).wf(),
        ensures
            final(self).wf(),
            final(self)@ == (DrawEnvView { count, offset, draw_type, ..old(self)@ }),
    {
        self.count = count;
        self.offset = offset;
        self.draw_type = draw_type;
    }

    /// Selects the shader program to draw with.
    pub fn add_shader(&mut self, shader_handle: &ShaderHandle)
        requires
            old(self).wf(),
        ensures
            final(self).wf(),
            final(self)@ == (DrawEnvView { shader: shader_handle.id(), ..old(self)@ }),
    {
        self.shader = shader_handle.get_id();
    }

    /// Selects the index buffer to draw from.
    pub fn add_index_buffer<T>(&mut self, index_buffer_handle: &BufferHandle<T>)
        requires
            old(self).wf(),
        ensures
            final(self).wf(),
            final(self)@ == (DrawEnvView { indices: index_buffer_handle.id(), ..old(self)@ }),
    {
        self.indices = index_buffer_handle.get_id();
    }

    /// Binds the buffer at `attrib_loc` unless it is bound already; the first
    /// binding of a buffer stands until the buffer is removed.
    pub fn add_buffer<T>(&mut self, buffer_handle: &BufferHandle<T>, attrib_loc: GLuint)
        requires
            old(self).wf(),
        ensures
            final(self).wf(),
            final(self)@ == (DrawEnvView {
                buffers: bind_first(old(self)@.buffers, buffer_handle.id(), attrib_loc),
                ..old(self)@
            }),
            old(self)@.buffers.contains_key(buffer_handle.id()) ==> *final(self) == *old(self),
    {
        let id = buffer_handle.get_id();
        if position_of_handle(&self.buffers, id).is_none() {
            proof {
                lemma_key_map_push(self.buffers@, id, attrib_loc);
            }
            self.buffers.push((id, attrib_loc));
        }
    }

    /// Unbinds the buffer, if it is bound; otherwise nothing changes.
    pub fn remove_buffer<T>(&mut self, buffer_handle: &BufferHandle<T>)
        requires
            old(self).wf(),
        ensures
            final(self).wf(),
            final(self)@ == (DrawEnvView {
                buffers: old(self)@.buffers.remove(buffer_handle.id()),
                ..old(self)@
            }),
            !old(self)@.buffers.contains_key(buffer_handle.id()) ==> *final(self) == *old(self),
    {
        let id = buffer_handle.get_id();
        let index = match position_of_handle(&self.buffers, id) {
            Some(index) => index,
            None => {
                proof {
                    assert(key_map(self.buffers@).remove(id) =~= key_map(self.buffers@));
                }
                return;
            },
        };
        proof {
            lemma_key_map_swap_remove(self.buffers@, index as int);
        }
        self.buffers.swap_remove(index);
    }

    /// Binds the texture at `attrib_loc` unless it is bound already; the first
    /// binding of a texture stands until the texture is removed.
    pub fn add_texture(&mut self, texture_handle: &TextureHandle, attrib_loc: GLint)
        requires
            old(self).wf(),
        ensures
            final(self).wf(),
            final(self)@ == (DrawEnvView {
                textures: bind_first(old(self)@.textures, texture_handle.id(), attrib_loc),
                ..old(self)@
            }),
            old(self)@.textures.contains_key(texture_handle.id()) ==> *final(self) == *old(self),
    {
        let id = texture_handle.get_id();
        if position_of_handle(&self.textures, id).is_none() {
            proof {
                lemma_key_map_push(self.textures@, id, attrib_loc);
            }
            self.textures.push((id, attrib_loc));
        }
    }

    /// Unbinds the texture, if it is bound; otherwise nothing changes.
    pub fn remove_texture(&mut self, texture_handle: &TextureHandle)
        requires
            old(self).wf(),
        ensures
            final(self).wf(),
            final(self)@ == (DrawEnvView {
                textures: old(self)@.textures.remove(texture_handle.id()),
                ..old(self)@
            }),
            !old(self)@.textures.contains_key(texture_handle.id()) ==> *final(self) == *old(self),
    {
        let id = texture_handle.get_id();
        let index = match position_of_handle(&self.textures, id) {
            Some(index) => index,
            None => {
                proof {
                    assert(key_map(self.textures@).remove(id) =~= key_map(self.textures@));
                }
                return;
            },
        };
        proof {
            lemma_key_map_swap_remove(self.textures@, index as int);
        }
        self.textures.swap_remove(index);
    }

    /// Stores `data` at binding location `loc`, replacing what was there;
    /// `NoValue` instead deletes the uniform at `loc`, if there is one.
    pub fn set_uniform(&mut self, loc: GLint, data: GLSLAny)
        requires
            old(self).wf(),
        ensures
            final(self).wf(),
            final(self)@ == (DrawEnvView {
                uniforms: set_or_delete(old(self)@.uniforms, loc, data),
                ..old(self)@
            }),
            !old(self)@.uniforms.contains_key(loc) && data is NoValue ==> *final(self) == *old(self),
    {
        let ghost s = self.uniforms@;
        match position_of_location(&self.uniforms, loc) {
            Some(index) => {
                if data.is_no_value() {
                    self.uniforms.swap_remove(index);
                    proof {
                        lemma_key_map_swap_remove(s, index as int);
                        assert forall|i: int| 0 <= i < self.uniforms@.len() implies !(
                        #[trigger] self.uniforms@[i].1 is NoValue) by {
                            if i == index {
                                assert(self.uniforms@[i] == s[s.len() - 1]);
                            } else {
                                assert(self.uniforms@[i] == s[i]);
                            }
                        }
                    }
                } else {
                    self.uniforms.set(index, (loc, data));
                    proof {
                        lemma_key_map_update(s, index as int, data);
                        assert forall|i: int| 0 <= i < self.uniforms@.len() implies !(
                        #[trigger] self.uniforms@[i].1 is NoValue) by {
                            if i != index {
                                assert(self.uniforms@[i] == s[i]);
                            }
                        }
                    }
                }
            },
            None => {
                if !data.is_no_value() {
                    self.uniforms.push((loc, data));
                    proof {
                        lemma_key_map_push(s, loc, data);
                        assert forall|i: int| 0 <= i < self.uniforms@.len() implies !(
                        #[trigger] self.uniforms@[i].1 is NoValue) by {
                            if i < s.len() {
                                assert(self.uniforms@[i] == s[i]);
                            }
                        }
                    }
                } else {
                    proof {
                        assert(!key_map(s).contains_key(loc));
                        assert(key_map(s).remove(loc) =~= key_map(s));
                    }
                }
            },
        }
    }
    /// Turns depth testing on with comparison function `arg1`.
    pub fn enable_depth(&mut self, arg1: GLenum)
        requires
            old(self).wf(),
        ensures
            final(self).wf(),
            final(self)@ == old(self)@.set_depth(EnableDepth::Yes(arg1)),
    {
        self.depth = EnableDepth::Yes(arg1);
    }

    /// Turns depth testing off.
    pub fn disable_depth(&mut self)
        requires
            old(self).wf(),
        ensures
            final(self).wf(),
            final(self)@ == old(self)@.set_depth(EnableDepth::No),
    {
        self.depth = EnableDepth::No;
    }

    /// Turns blending on with source factor `arg1` and destination factor
    /// `arg2`.
    pub fn enable_blend(&mut self, arg1: GLenum, arg2: GLenum)
        requires
            old(self).wf(),
        ensures
            final(self).wf(),
            final(self)@ == old(self)@.set_blend(EnableBlend::Yes(arg1, arg2)),
    {
        self.blend = EnableBlend::Yes(arg1, arg2);
    }

    /// Turns blending off.
    pub fn disable_blend(&mut self)
        requires
            old(self).wf(),
        ensures
            final(self).wf(),
            final(self)@ == old(self)@.set_blend(EnableBlend::No),
    {
        self.blend = EnableBlend::No;
    }

    /// How many elements to draw.
    pub fn count(&self) -> (r: usize)
        ensures
            r == self@.count,
    {
        self.count
    }

    /// The first element to draw.
    pub fn offset(&self) -> (r: usize)
        ensures
            r == self@.offset,
    {
        self.offset
    }

    /// The primitive topology to draw with.
    pub fn draw_type(&self) -> (r: GLenum)
        ensures
            r == self@.draw_type,
    {
        self.draw_type
    }

    /// Identity of the bound shader program, or `UNSET_ID`.
    pub fn shader(&self) -> (r: usize)
        ensures
            r == self@.shader,
    {
        self.shader
    }

    /// Identity of the bound index buffer, or `UNSET_ID`.
    pub fn indices(&self) -> (r: usize)
        ensures
            r == self@.indices,
    {
        self.indices
    }

    /// The vertex buffer bindings as (buffer identity, attribute location)
    /// pairs, one per buffer, in no particular order.
    pub fn buffers(&self) -> (r: &[(usize, GLuint)])
        requires
            self.wf(),
        ensures
            unique_keys(r@),
            key_map(r@) == self@.buffers,
    {
        self.buffers.as_slice()
    }

    /// The texture bindings as (texture identity, unit or location) pairs,
    /// one per texture, in no particular order.
    pub fn textures(&self) -> (r: &[(usize, GLint)])
        requires
            self.wf(),
        ensures
            unique_keys(r@),
            key_map(r@) == self@.textures,
    {
        self.textures.as_slice()
    }

    /// The uniforms as (binding location, value) pairs, one per location,
    /// in no particular order; none holds `NoValue`.
    pub fn uniforms(&self) -> (r: &[(GLint, GLSLAny)])
        requires
            self.wf(),
        ensures
            unique_keys(r@),
            key_map(r@) == self@.uniforms,
            forall|i: int| 0 <= i < r@.len() ==> !(#[trigger] r@[i].1 is NoValue),
    {
        self.uniforms.as_slice()
    }

    /// The depth-test toggle.
    pub fn depth(&self) -> (r: EnableDepth)
        ensures
            r == self@.depth,
    {
        self.depth
    }

    /// The blending toggle.
    pub fn blend(&self) -> (r: EnableBlend)
        ensures
            r == self@.blend,
    {
        self.blend
    }
}

/// Setting a location twice to values leaves one uniform there, holding
/// the second value, as if only the second call had been made.
pub proof fn lemma_set_uniform_twice(m: Map<GLint, GLSLAny>, loc: GLint, v1: GLSLAny, v2: GLSLAny)
    requires
        !(v1 is NoValue),
        !(v2 is NoValue),
    ensures
        set_or_delete(set_or_delete(m, loc, v1), loc, v2) == set_or_delete(m, loc, v2),
        set_or_delete(set_or_delete(m, loc, v1), loc, v2).contains_key(loc),
        set_or_delete(set_or_delete(m, loc, v1), loc, v2)[loc] == v2,
{
    assert(m.insert(loc, v1).insert(loc, v2) =~= m.insert(loc, v2));
}

/// `NoValue` at a location with no uniform changes nothing; at a location
/// with one, it removes that uniform and nothing else.
pub proof fn lemma_set_uniform_no_value(m: Map<GLint, GLSLAny>, loc: GLint)
    ensures
        !m.contains_key(loc) ==> set_or_delete(m, loc, GLSLAny::NoValue) == m,
        !set_or_delete(m, loc, GLSLAny::NoValue).contains_key(loc),
        set_or_delete(m, loc, GLSLAny::NoValue) == m.remove(loc),
{
    assert(!m.contains_key(loc) ==> m.remove(loc) =~= m);
}

/// Turning depth testing off after turning it on with any function leaves
/// it off, as if it had never been turned on.
pub proof fn lemma_disable_depth_after_enable(e: DrawEnvView, func: GLenum)
    ensures
        e.set_depth(EnableDepth::Yes(func)).set_depth(EnableDepth::No) == e.set_depth(EnableDepth::No),
        e.set_depth(EnableDepth::Yes(func)).set_depth(EnableDepth::No).depth == EnableDepth::No,
{
}

/// A well-formed environment never stores `NoValue` as a uniform.
pub proof fn lemma_no_stored_tombstone(env: &DrawEnv)
    requires
        env.wf(),
    ensures
        env@.no_stored_tombstone(),
{
    assert forall|l: GLint| #[trigger] env@.uniforms.contains_key(l) implies !(env@.uniforms[l] is NoValue) by {
        let i = choose|i: int| 0 <= i < env.uniforms@.len() && #[trigger] env.uniforms@[i].0 == l;
        crate::bindings::lemma_key_map_entry(env.uniforms@, i);
    }
}

} // verus!
