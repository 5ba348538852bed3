//! The shared facade that producer threads use to create, update, delete and
//! draw resources, and the driver that runs one tick on the consumer side.

use vstd::prelude::*;

use crate::assets::{
    BoundingBox, MeshPrimitive, MeshData, MeshIndex, MeshParams, MeshParamsView, RenderTextureParams, ShaderParams,
    SurfaceParams, SurfaceScissor, SurfaceViewport, TextureData, TextureParams, TextureRegion,
    mesh_check, shader_check, texture_check,
};
use crate::errors::Error;
use crate::frame::{payload_of, payload_ptr, BufferPtr, Command, DoubleFrame, Frame};
use crate::handle::Handle;
use crate::registry::{created, freed, leaves_alone, registry_step, replaced, lemma_live_entries_finite, lemma_value_kept_over_run, MAX_SLOTS, Registry};

verus! {

/// The state of a resource whose payload may still be streaming in.
#[derive(Debug)]
pub enum AsyncState<T> {
    /// Committed, with its parameters.
    Ready(T),
    /// Reserved by a loader; the payload has not been committed yet.
    NotReady,
}

/// One draw: a shader, a mesh, which of its indices, and the uniform bytes.
#[derive(Debug)]
pub struct DrawCall {
    pub shader: Handle,
    pub mesh: Handle,
    pub mesh_index: MeshIndex,
    pub uniforms: Vec<u8>,
}

/// What a delete does to the registry and the front frame: an unknown or
/// stale handle changes nothing; otherwise, when the frame has room, the
/// entry is freed and `cmd` is appended, and when it has none the call fails
/// with `CapacityExceeded` and changes nothing.
pub open spec fn delete_effect<T>(
    pre_reg: Registry<T>,
    pre_front: Frame,
    h: Handle,
    cmd: Command,
    post_reg: Registry<T>,
    post_front: Frame,
    r: Result<(), Error>,
) -> bool {
    if !pre_reg@.contains_key(h) {
        &&& r is Ok
        &&& post_reg == pre_reg
        &&& post_front == pre_front
    } else if !pre_front.has_room(1, 0) {
        &&& r == Err::<(), Error>(Error::CapacityExceeded)
        &&& post_reg == pre_reg
        &&& post_front == pre_front
    } else {
        &&& r is Ok
        &&& freed(pre_reg, h, post_reg, Some(pre_reg@[h]))
        &&& post_front.wf()
        &&& post_front.same_capacity(pre_front)
        &&& post_front.commands() == pre_front.commands().push(cmd)
        &&& post_front.payload() == pre_front.payload()
    }
}

/// What appending a command that carries `data` in the arena does to the
/// front frame: on success the bytes go to the end of the arena and
/// `cmd_at(ptr)` to the end of the command list, `ptr` pointing at them.
pub open spec fn appended_with_payload(
    pre: Frame,
    data: Seq<u8>,
    cmd_at: spec_fn(BufferPtr) -> Command,
    post: Frame,
) -> bool {
    let ptr = BufferPtr { offset: pre.payload().len() as usize, len: data.len() as usize };
    &&& post.wf()
    &&& post.same_capacity(pre)
    &&& post.commands() == pre.commands().push(cmd_at(ptr))
    &&& post.payload() == pre.payload() + data
}

/// What appending `cmd` alone does to the front frame.
pub open spec fn appended(pre: Frame, cmd: Command, post: Frame) -> bool {
    &&& post.wf()
    &&& post.same_capacity(pre)
    &&& post.commands() == pre.commands().push(cmd)
    &&& post.payload() == pre.payload()
}

/// The thread-shared part of the video system: one registry per resource
/// kind, and the pair of command frames. Every operation that changes a
/// registry records the matching command in the front frame in the same
/// call, or changes nothing at all.
pub struct VideoSystemShared {
    frames: DoubleFrame,
    surfaces: Registry<SurfaceParams>,
    shaders: Registry<ShaderParams>,
    meshes: Registry<AsyncState<MeshParams>>,
    textures: Registry<AsyncState<TextureParams>>,
    render_textures: Registry<RenderTextureParams>,
}

impl VideoSystemShared {
    /// The frame that producers append to.
    pub closed spec fn front(&self) -> Frame {
        self.frames.front()
    }

    /// The frame that the driver dispatches.
    pub closed spec fn back(&self) -> Frame {
        self.frames.back()
    }

    /// The surface registry.
    pub closed spec fn surfaces(&self) -> Registry<SurfaceParams> {
        self.surfaces
    }

    /// The shader registry.
    pub closed spec fn shaders(&self) -> Registry<ShaderParams> {
        self.shaders
    }

    /// The mesh registry.
    pub closed spec fn meshes(&self) -> Registry<AsyncState<MeshParams>> {
        self.meshes
    }

    /// The texture registry.
    pub closed spec fn textures(&self) -> Registry<AsyncState<TextureParams>> {
        self.textures
    }

    /// The render texture registry.
    pub closed spec fn render_textures(&self) -> Registry<RenderTextureParams> {
        self.render_textures
    }

    /// The facade's internal invariant.
    pub open spec fn wf(&self) -> bool {
        &&& self.front().wf()
        &&& self.back().wf()
        &&& self.surfaces().wf()
        &&& self.shaders().wf()
        &&& self.meshes().wf()
        &&& self.textures().wf()
        &&& self.render_textures().wf()
    }

    /// `post` differs from `pre` at most in the front frame and in the
    /// registries flagged; the front frame keeps its capacities.
    pub open spec fn only_changed(
        pre: VideoSystemShared,
        post: VideoSystemShared,
        surfaces: bool,
        shaders: bool,
        meshes: bool,
        textures: bool,
        render_textures: bool,
    ) -> bool {
        &&& post.wf()
        &&& post.back() == pre.back()
        &&& post.front().same_capacity(pre.front())
        &&& (!surfaces ==> post.surfaces() == pre.surfaces())
        &&& (!shaders ==> post.shaders() == pre.shaders())
        &&& (!meshes ==> post.meshes() == pre.meshes())
        &&& (!textures ==> post.textures() == pre.textures())
        &&& (!render_textures ==> post.render_textures() == pre.render_textures())
    }

    /// A facade with empty registries, whose frames each hold at most
    /// `commands` commands and `bytes` arena bytes.
    pub fn new(commands: usize, bytes: usize) -> (r: VideoSystemShared)
        ensures
            r.wf(),
            r.front().commands() == Seq::<Command>::empty(),
            r.front().payload() == Seq::<u8>::empty(),
            r.front().command_capacity() == commands,
            r.front().payload_capacity() == bytes,
            r.back().commands() == Seq::<Command>::empty(),
            r.surfaces()@ == Map::<Handle, SurfaceParams>::empty(),
            r.shaders()@ == Map::<Handle, ShaderParams>::empty(),
            r.meshes()@ == Map::<Handle, AsyncState<MeshParams>>::empty(),
            r.textures()@ == Map::<Handle, AsyncState<TextureParams>>::empty(),
            r.render_textures()@ == Map::<Handle, RenderTextureParams>::empty(),
            r.surfaces().slot_count() == 0 && r.surfaces().vacancies() == 0,
            r.shaders().slot_count() == 0 && r.shaders().vacancies() == 0,
            r.meshes().slot_count() == 0 && r.meshes().vacancies() == 0,
            r.textures().slot_count() == 0 && r.textures().vacancies() == 0,
            r.render_textures().slot_count() == 0 && r.render_textures().vacancies() == 0,
    {
        VideoSystemShared {
            frames: DoubleFrame::with_capacity(commands, bytes),
            surfaces: Registry::new(),
            shaders: Registry::new(),
            meshes: Registry::new(),
            textures: Registry::new(),
            render_textures: Registry::new(),
        }
    }

    /// Records a draw on `surface`: a `Bind` of the surface, then a `Draw`
    /// whose uniforms are copied into the arena, so the caller may reuse its
    /// buffer at once. Fails with `CapacityExceeded`, changing nothing, when
    /// the front frame has no room for both commands and the bytes.
    pub fn draw(&mut self, surface: Handle, dc: DrawCall) -> (r: Result<(), Error>)
        requires
            old(self).wf(),
        ensures
            old(self).front().has_room(2, dc.uniforms@.len()) ==> {
                let ptr = BufferPtr { offset: old(self).front().payload().len() as usize, len: dc.uniforms@.len() as usize };
                &&& r is Ok
                &&& Self::only_changed(*old(self), *final(self), false, false, false, false, false)
                &&& final(self).front().commands() == old(self).front().commands()
                    .push(Command::Bind(surface))
                    .push(Command::Draw(dc.shader, dc.mesh, dc.mesh_index, ptr))
                &&& final(self).front().payload() == old(self).front().payload() + dc.uniforms@
            },
            !old(self).front().has_room(2, dc.uniforms@.len()) ==> {
                &&& r == Err::<(), Error>(Error::CapacityExceeded)
                &&& *final(self) == *old(self)
            },
    {
        if !self.frames.front_ref().room_for(2, dc.uniforms.len()) {
            return Err(Error::CapacityExceeded);
        }
        let frame = self.frames.front_mut();
        let ptr = frame.extend_from_slice(dc.uniforms.as_slice());
        match ptr {
            Ok(ptr) => {
                let _ = frame.push(Command::Bind(surface));
                let _ = frame.push(Command::Draw(dc.shader, dc.mesh, dc.mesh_index, ptr));
                Ok(())
            },
            Err(e) => Err(e),
        }
    }

    /// Records a change of the scissor test of `surface`: a `Bind`, then an
    /// `UpdateScissor`. Fails with `CapacityExceeded`, changing nothing, when
    /// the front frame has no room for both commands.
    pub fn update_scissor(&mut self, surface: Handle, scissor: SurfaceScissor) -> (r: Result<(), Error>)
        requires
            old(self).wf(),
        ensures
            old(self).front().has_room(2, 0) ==> {
                &&& r is Ok
                &&& Self::only_changed(*old(self), *final(self), false, false, false, false, false)
                &&& final(self).front().commands() == old(self).front().commands()
                    .push(Command::Bind(surface))
                    .push(Command::UpdateScissor(scissor))
                &&& final(self).front().payload() == old(self).front().payload()
            },
            !old(self).front().has_room(2, 0) ==> {
                &&& r == Err::<(), Error>(Error::CapacityExceeded)
                &&& *final(self) == *old(self)
            },
    {
        if !self.frames.front_ref().room_for(2, 0) {
            return Err(Error::CapacityExceeded);
        }
        let frame = self.frames.front_mut();
        let _ = frame.push(Command::Bind(surface));
        let _ = frame.push(Command::UpdateScissor(scissor));
        Ok(())
    }

    /// Records a change of the viewport of `surface`: a `Bind`, then an
    /// `UpdateViewport`. Fails with `CapacityExceeded`, changing nothing,
    /// when the front frame has no room for both commands.
    pub fn update_viewport(&mut self, surface: Handle, viewport: SurfaceViewport) -> (r: Result<(), Error>)
        requires
            old(self).wf(),
        ensures
            old(self).front().has_room(2, 0) ==> {
                &&& r is Ok
                &&& Self::only_changed(*old(self), *final(self), false, false, false, false, false)
                &&& final(self).front().commands() == old(self).front().commands()
                    .push(Command::Bind(surface))
                    .push(Command::UpdateViewport(viewport))
                &&& final(self).front().payload() == old(self).front().payload()
            },
            !old(self).front().has_room(2, 0) ==> {
                &&& r == Err::<(), Error>(Error::CapacityExceeded)
                &&& *final(self) == *old(self)
            },
    {
        if !self.frames.front_ref().room_for(2, 0) {
            return Err(Error::CapacityExceeded);
        }
        let frame = self.frames.front_mut();
        let _ = frame.push(Command::Bind(surface));
        let _ = frame.push(Command::UpdateViewport(viewport));
        Ok(())
    }
}

impl VideoSystemShared {
    /// Creates a surface; see `surface_created`.
    pub fn create_surface(&mut self, params: SurfaceParams) -> (r: Result<Handle, Error>)
        requires
            old(self).wf(),
        ensures
            surface_created(*old(self), params, *final(self), r),
    {
        if !self.frames.front_ref().room_for(1, 0) || self.surfaces.is_full() {
            return Err(Error::CapacityExceeded);
        }
        let handle = self.surfaces.create(params);
        let _ = self.frames.front_mut().push(Command::CreateSurface(handle, params));
        Ok(handle)
    }

    /// The parameters of a live surface; `None` for an unknown or stale handle.
    pub fn surface(&self, handle: Handle) -> (r: Option<SurfaceParams>)
        requires
            self.wf(),
        ensures
            r == self.surfaces()@.get(handle),
    {
        match self.surfaces.get(handle) {
            Some(p) => Some(*p),
            None => None,
        }
    }

    /// Deletes a surface; see `delete_effect`.
    pub fn delete_surface(&mut self, handle: Handle) -> (r: Result<(), Error>)
        requires
            old(self).wf(),
        ensures
            Self::only_changed(*old(self), *final(self), true, false, false, false, false),
            delete_effect(
                old(self).surfaces(),
                old(self).front(),
                handle,
                Command::DeleteSurface(handle),
                final(self).surfaces(),
                final(self).front(),
                r,
            ),
    {
        if !self.surfaces.contains(handle) {
            return Ok(());
        }
        if !self.frames.front_ref().room_for(1, 0) {
            return Err(Error::CapacityExceeded);
        }
        let _ = self.surfaces.free(handle);
        let _ = self.frames.front_mut().push(Command::DeleteSurface(handle));
        Ok(())
    }
}

impl VideoSystemShared {
    /// Creates a shader, once its parameters pass `ShaderParams::validate`
    /// against the sources: the handle resolves to a copy of `params`, and a
    /// `CreateShader` with the sources is recorded. Fails, changing nothing,
    /// with `ValidationError` when the rules are broken, else with
    /// `CapacityExceeded` when the front frame or the registry is full.
    pub fn create_shader(&mut self, params: ShaderParams, vs: String, fs: String) -> (r: Result<Handle, Error>)
        requires
            old(self).wf(),
        ensures
            shader_check(params@, vs@, fs@) is Err ==> {
                &&& r == Err::<Handle, Error>(Error::ValidationError(shader_check(params@, vs@, fs@)->Err_0))
                &&& *final(self) == *old(self)
            },
            shader_check(params@, vs@, fs@) is Ok
                && (!old(self).front().has_room(1, 0) || old(self).shaders().spec_is_full()) ==> {
                &&& r == Err::<Handle, Error>(Error::CapacityExceeded)
                &&& *final(self) == *old(self)
            },
            shader_check(params@, vs@, fs@) is Ok && old(self).front().has_room(1, 0)
                && !old(self).shaders().spec_is_full() ==> {
                &&& r is Ok
                &&& Self::only_changed(*old(self), *final(self), false, true, false, false, false)
                &&& created(old(self).shaders(), final(self).shaders()@[r->Ok_0], final(self).shaders(), r->Ok_0)
                &&& final(self).shaders()@[r->Ok_0]@ == params@
                &&& appended(old(self).front(), Command::CreateShader(r->Ok_0, params, vs, fs), final(self).front())
            },
    {
        match params.validate(vs.as_str(), fs.as_str()) {
            Err(e) => {
                return Err(Error::ValidationError(e));
            },
            Ok(()) => {},
        }
        if !self.frames.front_ref().room_for(1, 0) || self.shaders.is_full() {
            return Err(Error::CapacityExceeded);
        }
        let handle = self.shaders.create(params.clone());
        let _ = self.frames.front_mut().push(Command::CreateShader(handle, params, vs, fs));
        Ok(handle)
    }

    /// A copy of the parameters of a live shader; `None` for an unknown or
    /// stale handle.
    pub fn shader(&self, handle: Handle) -> (r: Option<ShaderParams>)
        requires
            self.wf(),
        ensures
            r is Some == self.shaders()@.contains_key(handle),
            r is Some ==> r->Some_0@ == self.shaders()@[handle]@,
    {
        match self.shaders.get(handle) {
            Some(p) => Some(p.clone()),
            None => None,
        }
    }

    /// Deletes a shader; see `delete_effect`.
    pub fn delete_shader(&mut self, handle: Handle) -> (r: Result<(), Error>)
        requires
            old(self).wf(),
        ensures
            Self::only_changed(*old(self), *final(self), false, true, false, false, false),
            delete_effect(
                old(self).shaders(),
                old(self).front(),
                handle,
                Command::DeleteShader(handle),
                final(self).shaders(),
                final(self).front(),
                r,
            ),
    {
        if !self.shaders.contains(handle) {
            return Ok(());
        }
        if !self.frames.front_ref().room_for(1, 0) {
            return Err(Error::CapacityExceeded);
        }
        let _ = self.shaders.free(handle);
        let _ = self.frames.front_mut().push(Command::DeleteShader(handle));
        Ok(())
    }
}

impl VideoSystemShared {
    /// Creates a render texture: the handle resolves to `params` and a
    /// `CreateRenderTexture` is recorded. Fails with `CapacityExceeded`,
    /// changing nothing, when the front frame or the registry is full.
    pub fn create_render_texture(&mut self, params: RenderTextureParams) -> (r: Result<Handle, Error>)
        requires
            old(self).wf(),
        ensures
            !old(self).front().has_room(1, 0) || old(self).render_textures().spec_is_full() ==> {
                &&& r == Err::<Handle, Error>(Error::CapacityExceeded)
                &&& *final(self) == *old(self)
            },
            old(self).front().has_room(1, 0) && !old(self).render_textures().spec_is_full() ==> {
                &&& r is Ok
                &&& Self::only_changed(*old(self), *final(self), false, false, false, false, true)
                &&& created(old(self).render_textures(), params, final(self).render_textures(), r->Ok_0)
                &&& appended(old(self).front(), Command::CreateRenderTexture(r->Ok_0, params), final(self).front())
            },
    {
        if !self.frames.front_ref().room_for(1, 0) || self.render_textures.is_full() {
            return Err(Error::CapacityExceeded);
        }
        let handle = self.render_textures.create(params);
        let _ = self.frames.front_mut().push(Command::CreateRenderTexture(handle, params));
        Ok(handle)
    }

    /// The parameters of a live render texture; `None` for an unknown or
    /// stale handle.
    pub fn render_texture(&self, handle: Handle) -> (r: Option<RenderTextureParams>)
        requires
            self.wf(),
        ensures
            r == self.render_textures()@.get(handle),
    {
        match self.render_textures.get(handle) {
            Some(p) => Some(*p),
            None => None,
        }
    }

    /// Deletes a render texture; see `delete_effect`.
    pub fn delete_render_texture(&mut self, handle: Handle) -> (r: Result<(), Error>)
        requires
            old(self).wf(),
        ensures
            Self::only_changed(*old(self), *final(self), false, false, false, false, true),
            delete_effect(
                old(self).render_textures(),
                old(self).front(),
                handle,
                Command::DeleteRenderTexture(handle),
                final(self).render_textures(),
                final(self).front(),
                r,
            ),
    {
        if !self.render_textures.contains(handle) {
            return Ok(());
        }
        if !self.frames.front_ref().room_for(1, 0) {
            return Err(Error::CapacityExceeded);
        }
        let _ = self.render_textures.free(handle);
        let _ = self.frames.front_mut().push(Command::DeleteRenderTexture(handle));
        Ok(())
    }
}

/// What `create_surface` does: when the front frame and the registry have
/// room, the new handle resolves to `params` and a `CreateSurface` is
/// recorded; otherwise the call fails with `CapacityExceeded` and changes
/// nothing.
pub open spec fn surface_created(
    pre: VideoSystemShared,
    params: SurfaceParams,
    post: VideoSystemShared,
    r: Result<Handle, Error>,
) -> bool {
    if !pre.front().has_room(1, 0) || pre.surfaces().spec_is_full() {
        &&& r == Err::<Handle, Error>(Error::CapacityExceeded)
        &&& post == pre
    } else {
        &&& r is Ok
        &&& VideoSystemShared::only_changed(pre, post, true, false, false, false, false)
        &&& created(pre.surfaces(), params, post.surfaces(), r->Ok_0)
        &&& appended(pre.front(), Command::CreateSurface(r->Ok_0, params), post.front())
    }
}

/// Whether `s` is a committed state whose parameters have the value `v`.
pub open spec fn ready_with(s: AsyncState<MeshParams>, v: MeshParamsView) -> bool {
    match s {
        AsyncState::Ready(p) => p@ == v,
        AsyncState::NotReady => false,
    }
}

/// The bounding box that the mesh `h` reports: that of its committed
/// parameters, or `None` while it is unknown or not committed yet.
pub open spec fn committed_aabb(meshes: Map<Handle, AsyncState<MeshParams>>, h: Handle) -> Option<BoundingBox> {
    if meshes.contains_key(h) {
        match meshes[h] {
            AsyncState::Ready(p) => Some(p.aabb),
            AsyncState::NotReady => None,
        }
    } else {
        None
    }
}

/// What `create_mesh` does.
pub open spec fn mesh_created(
    pre: VideoSystemShared,
    params: MeshParams,
    data: Option<MeshData>,
    post: VideoSystemShared,
    r: Result<Handle, Error>,
) -> bool {
    if mesh_check(params@, data) is Err {
        &&& r == Err::<Handle, Error>(Error::ValidationError(mesh_check(params@, data)->Err_0))
        &&& post == pre
    } else if !pre.front().has_room(1, 0) || pre.meshes().spec_is_full() {
        &&& r == Err::<Handle, Error>(Error::CapacityExceeded)
        &&& post == pre
    } else {
        &&& r is Ok
        &&& VideoSystemShared::only_changed(pre, post, false, false, true, false, false)
        &&& created(pre.meshes(), post.meshes()@[r->Ok_0], post.meshes(), r->Ok_0)
        &&& ready_with(post.meshes()@[r->Ok_0], params@)
        &&& appended(pre.front(), Command::CreateMesh(r->Ok_0, params, data), post.front())
    }
}

/// What an update of mesh `h` that carries `data` does: an unknown handle
/// fails with `HandleInvalid`, a full front frame with `CapacityExceeded`,
/// both changing nothing; otherwise `cmd_at` is recorded with the bytes.
pub open spec fn mesh_updated(
    pre: VideoSystemShared,
    h: Handle,
    data: Seq<u8>,
    cmd_at: spec_fn(BufferPtr) -> Command,
    post: VideoSystemShared,
    r: Result<(), Error>,
) -> bool {
    if !pre.meshes()@.contains_key(h) {
        &&& r == Err::<(), Error>(Error::HandleInvalid(h))
        &&& post == pre
    } else if !pre.front().has_room(1, data.len()) {
        &&& r == Err::<(), Error>(Error::CapacityExceeded)
        &&& post == pre
    } else {
        &&& r is Ok
        &&& VideoSystemShared::only_changed(pre, post, false, false, false, false, false)
        &&& appended_with_payload(pre.front(), data, cmd_at, post.front())
    }
}

/// What `loader_create_mesh` does: a handle is reserved in the not-ready
/// state, and nothing is recorded.
pub open spec fn mesh_reserved(pre: VideoSystemShared, post: VideoSystemShared, r: Result<Handle, Error>) -> bool {
    if pre.meshes().spec_is_full() {
        &&& r == Err::<Handle, Error>(Error::CapacityExceeded)
        &&& post == pre
    } else {
        &&& r is Ok
        &&& VideoSystemShared::only_changed(pre, post, false, false, true, false, false)
        &&& post.front() == pre.front()
        &&& created(pre.meshes(), AsyncState::NotReady, post.meshes(), r->Ok_0)
    }
}

/// What `loader_update_mesh` does: once the parameters and data pass the
/// rules, a reserved, not-ready handle becomes ready with the parameters and
/// its `CreateMesh` is recorded, in one step.
pub open spec fn mesh_committed(
    pre: VideoSystemShared,
    h: Handle,
    params: MeshParams,
    data: MeshData,
    post: VideoSystemShared,
    r: Result<(), Error>,
) -> bool {
    if mesh_check(params@, Some(data)) is Err {
        &&& r == Err::<(), Error>(Error::ValidationError(mesh_check(params@, Some(data))->Err_0))
        &&& post == pre
    } else if !pre.meshes()@.contains_key(h) || !(pre.meshes()@[h] is NotReady) {
        &&& r == Err::<(), Error>(Error::HandleInvalid(h))
        &&& post == pre
    } else if !pre.front().has_room(1, 0) {
        &&& r == Err::<(), Error>(Error::CapacityExceeded)
        &&& post == pre
    } else {
        &&& r is Ok
        &&& VideoSystemShared::only_changed(pre, post, false, false, true, false, false)
        &&& post.meshes().wf()
        &&& post.meshes()@ == pre.meshes()@.insert(h, post.meshes()@[h])
        &&& post.meshes().issued() == pre.meshes().issued()
        &&& ready_with(post.meshes()@[h], params@)
        &&& appended(pre.front(), Command::CreateMesh(h, params, Some(data)), post.front())
    }
}

impl VideoSystemShared {
    /// Creates a mesh; see `mesh_created`.
    pub fn create_mesh(&mut self, params: MeshParams, data: Option<MeshData>) -> (r: Result<Handle, Error>)
        requires
            old(self).wf(),
        ensures
            mesh_created(*old(self), params, data, *final(self), r),
    {
        match params.validate(data.as_ref()) {
            Err(e) => {
                return Err(Error::ValidationError(e));
            },
            Ok(()) => {},
        }
        if !self.frames.front_ref().room_for(1, 0) || self.meshes.is_full() {
            return Err(Error::CapacityExceeded);
        }
        let handle = self.meshes.create(AsyncState::Ready(params.clone()));
        let _ = self.frames.front_mut().push(Command::CreateMesh(handle, params, data));
        Ok(handle)
    }

    /// The bounding box of a committed mesh; `None` while the mesh is
    /// unknown, stale, or reserved by a loader and not committed yet.
    pub fn mesh_aabb(&self, handle: Handle) -> (r: Option<BoundingBox>)
        requires
            self.wf(),
        ensures
            r == committed_aabb(self.meshes()@, handle),
    {
        match self.meshes.get(handle) {
            Some(AsyncState::Ready(p)) => Some(p.aabb),
            _ => None,
        }
    }

    /// A copy of the parameters of a committed mesh; `None` while the mesh
    /// is unknown, stale, or not committed yet.
    pub fn mesh(&self, handle: Handle) -> (r: Option<MeshParams>)
        requires
            self.wf(),
        ensures
            r is Some == (self.meshes()@.contains_key(handle) && self.meshes()@[handle] is Ready),
            r is Some ==> ready_with(self.meshes()@[handle], r->Some_0@),
    {
        match self.meshes.get(handle) {
            Some(AsyncState::Ready(p)) => Some(p.clone()),
            _ => None,
        }
    }

    /// Records a replacement of vertex bytes of mesh `handle`, from byte
    /// `offset` on; only the bytes given travel, through the arena. See
    /// `mesh_updated`.
    pub fn update_vertex_buffer(&mut self, handle: Handle, offset: usize, data: &[u8]) -> (r: Result<(), Error>)
        requires
            old(self).wf(),
        ensures
            mesh_updated(*old(self), handle, data@, |p: BufferPtr| Command::UpdateVertexBuffer(handle, offset, p), *final(self), r),
    {
        if !self.meshes.contains(handle) {
            return Err(Error::HandleInvalid(handle));
        }
        if !self.frames.front_ref().room_for(1, data.len()) {
            return Err(Error::CapacityExceeded);
        }
        let frame = self.frames.front_mut();
        match frame.extend_from_slice(data) {
            Ok(ptr) => {
                let _ = frame.push(Command::UpdateVertexBuffer(handle, offset, ptr));
                Ok(())
            },
            Err(e) => Err(e),
        }
    }

    /// Records a replacement of index bytes of mesh `handle`, from byte
    /// `offset` on; only the bytes given travel, through the arena. See
    /// `mesh_updated`.
    pub fn update_index_buffer(&mut self, handle: Handle, offset: usize, data: &[u8]) -> (r: Result<(), Error>)
        requires
            old(self).wf(),
        ensures
            mesh_updated(*old(self), handle, data@, |p: BufferPtr| Command::UpdateIndexBuffer(handle, offset, p), *final(self), r),
    {
        if !self.meshes.contains(handle) {
            return Err(Error::HandleInvalid(handle));
        }
        if !self.frames.front_ref().room_for(1, data.len()) {
            return Err(Error::CapacityExceeded);
        }
        let frame = self.frames.front_mut();
        match frame.extend_from_slice(data) {
            Ok(ptr) => {
                let _ = frame.push(Command::UpdateIndexBuffer(handle, offset, ptr));
                Ok(())
            },
            Err(e) => Err(e),
        }
    }

    /// Deletes a mesh; see `delete_effect`.
    pub fn delete_mesh(&mut self, handle: Handle) -> (r: Result<(), Error>)
        requires
            old(self).wf(),
        ensures
            Self::only_changed(*old(self), *final(self), false, false, true, false, false),
            delete_effect(
                old(self).meshes(),
                old(self).front(),
                handle,
                Command::DeleteMesh(handle),
                final(self).meshes(),
                final(self).front(),
                r,
            ),
    {
        if !self.meshes.contains(handle) {
            return Ok(());
        }
        if !self.frames.front_ref().room_for(1, 0) {
            return Err(Error::CapacityExceeded);
        }
        let _ = self.meshes.free(handle);
        let _ = self.frames.front_mut().push(Command::DeleteMesh(handle));
        Ok(())
    }

    /// Reserves a mesh handle for a loader; see `mesh_reserved`.
    pub fn loader_create_mesh(&mut self) -> (r: Result<Handle, Error>)
        requires
            old(self).wf(),
        ensures
            mesh_reserved(*old(self), *final(self), r),
    {
        if self.meshes.is_full() {
            return Err(Error::CapacityExceeded);
        }
        let handle = self.meshes.create(AsyncState::NotReady);
        Ok(handle)
    }

    /// Commits the payload of a reserved mesh; see `mesh_committed`.
    pub fn loader_update_mesh(&mut self, handle: Handle, params: MeshParams, data: MeshData) -> (r: Result<(), Error>)
        requires
            old(self).wf(),
        ensures
            mesh_committed(*old(self), handle, params, data, *final(self), r),
    {
        match params.validate(Some(&data)) {
            Err(e) => {
                return Err(Error::ValidationError(e));
            },
            Ok(()) => {},
        }
        match self.meshes.get(handle) {
            Some(AsyncState::NotReady) => {},
            _ => {
                return Err(Error::HandleInvalid(handle));
            },
        }
        if !self.frames.front_ref().room_for(1, 0) {
            return Err(Error::CapacityExceeded);
        }
        let _ = self.meshes.set(handle, AsyncState::Ready(params.clone()));
        let _ = self.frames.front_mut().push(Command::CreateMesh(handle, params, Some(data)));
        Ok(())
    }
}

/// What `create_texture` does.
pub open spec fn texture_created(
    pre: VideoSystemShared,
    params: TextureParams,
    data: Option<TextureData>,
    post: VideoSystemShared,
    r: Result<Handle, Error>,
) -> bool {
    if texture_check(params, data) is Err {
        &&& r == Err::<Handle, Error>(Error::ValidationError(texture_check(params, data)->Err_0))
        &&& post == pre
    } else if !pre.front().has_room(1, 0) || pre.textures().spec_is_full() {
        &&& r == Err::<Handle, Error>(Error::CapacityExceeded)
        &&& post == pre
    } else {
        &&& r is Ok
        &&& VideoSystemShared::only_changed(pre, post, false, false, false, true, false)
        &&& created(pre.textures(), AsyncState::Ready(params), post.textures(), r->Ok_0)
        &&& appended(pre.front(), Command::CreateTexture(r->Ok_0, params, data), post.front())
    }
}

/// What `loader_update_texture` does: once the parameters and data pass the
/// rules, a reserved, not-ready handle becomes ready with the parameters and
/// its `CreateTexture` is recorded, in one step.
pub open spec fn texture_committed(
    pre: VideoSystemShared,
    h: Handle,
    params: TextureParams,
    data: TextureData,
    post: VideoSystemShared,
    r: Result<(), Error>,
) -> bool {
    if texture_check(params, Some(data)) is Err {
        &&& r == Err::<(), Error>(Error::ValidationError(texture_check(params, Some(data))->Err_0))
        &&& post == pre
    } else if !pre.textures()@.contains_key(h) || !(pre.textures()@[h] is NotReady) {
        &&& r == Err::<(), Error>(Error::HandleInvalid(h))
        &&& post == pre
    } else if !pre.front().has_room(1, 0) {
        &&& r == Err::<(), Error>(Error::CapacityExceeded)
        &&& post == pre
    } else {
        &&& r is Ok
        &&& VideoSystemShared::only_changed(pre, post, false, false, false, true, false)
        &&& post.textures()@ == pre.textures()@.insert(h, AsyncState::Ready(params))
        &&& post.textures().issued() == pre.textures().issued()
        &&& appended(pre.front(), Command::CreateTexture(h, params, Some(data)), post.front())
    }
}

impl VideoSystemShared {
    /// Creates a texture; see `texture_created`.
    pub fn create_texture(&mut self, params: TextureParams, data: Option<TextureData>) -> (r: Result<Handle, Error>)
        requires
            old(self).wf(),
        ensures
            texture_created(*old(self), params, data, *final(self), r),
    {
        match params.validate(data.as_ref()) {
            Err(e) => {
                return Err(Error::ValidationError(e));
            },
            Ok(()) => {},
        }
        if !self.frames.front_ref().room_for(1, 0) || self.textures.is_full() {
            return Err(Error::CapacityExceeded);
        }
        let handle = self.textures.create(AsyncState::Ready(params));
        let _ = self.frames.front_mut().push(Command::CreateTexture(handle, params, data));
        Ok(handle)
    }

    /// Records a replacement of the texels of `region` of a committed
    /// texture; the bytes travel through the arena. A texture that is
    /// unknown, stale or not committed yet fails with `HandleInvalid`, a full
    /// front frame with `CapacityExceeded`, both changing nothing.
    pub fn update_texture(&mut self, handle: Handle, region: TextureRegion, data: &[u8]) -> (r: Result<(), Error>)
        requires
            old(self).wf(),
        ensures
            !(old(self).textures()@.contains_key(handle) && old(self).textures()@[handle] is Ready) ==> {
                &&& r == Err::<(), Error>(Error::HandleInvalid(handle))
                &&& *final(self) == *old(self)
            },
            old(self).textures()@.contains_key(handle) && old(self).textures()@[handle] is Ready
                && !old(self).front().has_room(1, data@.len()) ==> {
                &&& r == Err::<(), Error>(Error::CapacityExceeded)
                &&& *final(self) == *old(self)
            },
            old(self).textures()@.contains_key(handle) && old(self).textures()@[handle] is Ready
                && old(self).front().has_room(1, data@.len()) ==> {
                &&& r is Ok
                &&& Self::only_changed(*old(self), *final(self), false, false, false, false, false)
                &&& appended_with_payload(
                    old(self).front(),
                    data@,
                    |p: BufferPtr| Command::UpdateTexture(handle, region, p),
                    final(self).front(),
                )
            },
    {
        match self.textures.get(handle) {
            Some(AsyncState::Ready(_)) => {},
            _ => {
                return Err(Error::HandleInvalid(handle));
            },
        }
        if !self.frames.front_ref().room_for(1, data.len()) {
            return Err(Error::CapacityExceeded);
        }
        let frame = self.frames.front_mut();
        match frame.extend_from_slice(data) {
            Ok(ptr) => {
                let _ = frame.push(Command::UpdateTexture(handle, region, ptr));
                Ok(())
            },
            Err(e) => Err(e),
        }
    }

    /// Deletes a texture; see `delete_effect`.
    pub fn delete_texture(&mut self, handle: Handle) -> (r: Result<(), Error>)
        requires
            old(self).wf(),
        ensures
            Self::only_changed(*old(self), *final(self), false, false, false, true, false),
            delete_effect(
                old(self).textures(),
                old(self).front(),
                handle,
                Command::DeleteTexture(handle),
                final(self).textures(),
                final(self).front(),
                r,
            ),
    {
        if !self.textures.contains(handle) {
            return Ok(());
        }
        if !self.frames.front_ref().room_for(1, 0) {
            return Err(Error::CapacityExceeded);
        }
        let _ = self.textures.free(handle);
        let _ = self.frames.front_mut().push(Command::DeleteTexture(handle));
        Ok(())
    }

    /// Reserves a texture handle for a loader, in the not-ready state; nothing
    /// is recorded. Fails with `CapacityExceeded`, changing nothing, when the
    /// registry is full.
    pub fn loader_create_texture(&mut self) -> (r: Result<Handle, Error>)
        requires
            old(self).wf(),
        ensures
            old(self).textures().spec_is_full() ==> {
                &&& r == Err::<Handle, Error>(Error::CapacityExceeded)
                &&& *final(self) == *old(self)
            },
            !old(self).textures().spec_is_full() ==> {
                &&& r is Ok
                &&& Self::only_changed(*old(self), *final(self), false, false, false, true, false)
                &&& final(self).front() == old(self).front()
                &&& created(old(self).textures(), AsyncState::NotReady, final(self).textures(), r->Ok_0)
            },
    {
        if self.textures.is_full() {
            return Err(Error::CapacityExceeded);
        }
        let handle = self.textures.create(AsyncState::NotReady);
        Ok(handle)
    }

    /// Commits the payload of a reserved texture; see `texture_committed`.
    pub fn loader_update_texture(&mut self, handle: Handle, params: TextureParams, data: TextureData) -> (r: Result<(), Error>)
        requires
            old(self).wf(),
        ensures
            texture_committed(*old(self), handle, params, data, *final(self), r),
    {
        match params.validate(Some(&data)) {
            Err(e) => {
                return Err(Error::ValidationError(e));
            },
            Ok(()) => {},
        }
        match self.textures.get(handle) {
            Some(AsyncState::NotReady) => {},
            _ => {
                return Err(Error::HandleInvalid(handle));
            },
        }
        if !self.frames.front_ref().room_for(1, 0) {
            return Err(Error::CapacityExceeded);
        }
        let _ = self.textures.set(handle, AsyncState::Ready(params));
        let _ = self.frames.front_mut().push(Command::CreateTexture(handle, params, Some(data)));
        Ok(())
    }
}

/// The backend that executes dispatched commands against a graphics driver.
/// Each call either succeeds or reports a failure in words.
pub trait Visitor {
    /// The window or viewport is now `dimensions` wide and high.
    fn resize(&mut self, dimensions: (u32, u32)) -> Result<(), String>;

    /// Executes `cmd`; `payload` holds the arena bytes that it carries, and
    /// is empty for a command that carries none.
    fn execute(&mut self, cmd: &Command, payload: &[u8], dimensions: (u32, u32)) -> Result<(), String>;
}

/// The information on the video system gathered during one tick.
#[derive(Debug, Copy, Clone, PartialEq, Eq)]
pub struct VideoFrameInfo {
    /// The time the tick took, in nanoseconds, as measured by the caller that
    /// owns the clock; the driver itself reports zero.
    pub duration_ns: u64,
    /// The draws forwarded to the backend.
    pub drawcall: usize,
    /// The triangles those draws cover, saturated at `u64::MAX`.
    pub triangles: u64,
    pub alive_surfaces: usize,
    pub alive_shaders: usize,
    pub alive_meshes: usize,
    pub alive_textures: usize,
    pub alive_render_textures: usize,
}

/// The number of indices that `idx` selects from a mesh with parameters
/// `p`, or `None` when the selection lies outside the mesh.
pub open spec fn index_span(p: MeshParamsView, idx: MeshIndex) -> Option<nat> {
    match idx {
        MeshIndex::All => Some(p.num_idxes as nat),
        MeshIndex::SubMesh(i) => if i < p.sub_mesh_offsets.len() {
            let start = p.sub_mesh_offsets[i as int];
            let end = if i + 1 < p.sub_mesh_offsets.len() { p.sub_mesh_offsets[i + 1] } else { p.num_idxes };
            if start <= end && end <= p.num_idxes {
                Some((end - start) as nat)
            } else {
                None
            }
        } else {
            None
        },
        MeshIndex::Ptr(from, len) => if from + len <= p.num_idxes {
            Some(len as nat)
        } else {
            None
        },
    }
}

/// The triangles that `n` indices assemble into as `prim`.
pub open spec fn primitive_triangles(prim: MeshPrimitive, n: nat) -> nat {
    match prim {
        MeshPrimitive::Triangles => n / 3,
        MeshPrimitive::TriangleStrip => if n >= 3 { (n - 2) as nat } else { 0 },
        _ => 0,
    }
}

/// For a draw whose shader is live and whose mesh is committed with the
/// selected indices inside it, the triangles it covers; `None` for any other
/// command. Handles are resolved against the registries at dispatch time.
pub open spec fn draw_triangles(
    c: Command,
    shaders: Map<Handle, ShaderParams>,
    meshes: Map<Handle, AsyncState<MeshParams>>,
) -> Option<nat> {
    match c {
        Command::Draw(s, m, idx, _) => if shaders.contains_key(s) && meshes.contains_key(m) {
            match meshes[m] {
                AsyncState::Ready(p) => match index_span(p@, idx) {
                    Some(n) => Some(primitive_triangles(p.primitive, n)),
                    None => None,
                },
                AsyncState::NotReady => None,
            }
        } else {
            None
        },
        _ => None,
    }
}

/// The number of draws among `cmds` that resolve.
pub open spec fn resolved_draws(
    cmds: Seq<Command>,
    shaders: Map<Handle, ShaderParams>,
    meshes: Map<Handle, AsyncState<MeshParams>>,
) -> nat
    decreases cmds.len(),
{
    if cmds.len() == 0 {
        0
    } else {
        resolved_draws(cmds.drop_last(), shaders, meshes) + if draw_triangles(cmds.last(), shaders, meshes) is Some {
            1nat
        } else {
            0nat
        }
    }
}

/// The triangles that the draws among `cmds` that resolve cover.
pub open spec fn triangle_total(
    cmds: Seq<Command>,
    shaders: Map<Handle, ShaderParams>,
    meshes: Map<Handle, AsyncState<MeshParams>>,
) -> nat
    decreases cmds.len(),
{
    if cmds.len() == 0 {
        0
    } else {
        triangle_total(cmds.drop_last(), shaders, meshes) + match draw_triangles(cmds.last(), shaders, meshes) {
            Some(t) => t,
            None => 0nat,
        }
    }
}

/// `n`, or `u64::MAX` when `n` is larger.
pub open spec fn saturated(n: nat) -> u64 {
    if n > u64::MAX { u64::MAX } else { n as u64 }
}

fn index_span_of(p: &MeshParams, idx: MeshIndex) -> (r: Option<usize>)
    ensures
        match r {
            Some(n) => index_span(p@, idx) == Some(n as nat),
            None => index_span(p@, idx) is None,
        },
{
    match idx {
        MeshIndex::All => Some(p.num_idxes),
        MeshIndex::SubMesh(i) => {
            let offsets = &p.sub_mesh_offsets;
            if i < offsets.len() {
                let start = offsets[i];
                let end = if i + 1 < offsets.len() { offsets[i + 1] } else { p.num_idxes };
                if start <= end && end <= p.num_idxes {
                    Some(end - start)
                } else {
                    None
                }
            } else {
                None
            }
        },
        MeshIndex::Ptr(from, len) => {
            if len <= p.num_idxes && from <= p.num_idxes - len {
                Some(len)
            } else {
                None
            }
        },
    }
}

fn triangles_of(prim: MeshPrimitive, n: usize) -> (r: usize)
    ensures
        r == primitive_triangles(prim, n as nat),
{
    match prim {
        MeshPrimitive::Triangles => n / 3,
        MeshPrimitive::TriangleStrip => if n >= 3 { n - 2 } else { 0 },
        _ => 0,
    }
}

fn resolve_draw(
    shaders: &Registry<ShaderParams>,
    meshes: &Registry<AsyncState<MeshParams>>,
    cmd: &Command,
) -> (r: Option<usize>)
    requires
        shaders.wf(),
        meshes.wf(),
    ensures
        match r {
            Some(t) => draw_triangles(*cmd, shaders@, meshes@) == Some(t as nat),
            None => draw_triangles(*cmd, shaders@, meshes@) is None,
        },
{
    match cmd {
        Command::Draw(s, m, idx, _) => {
            if !shaders.contains(*s) {
                return None;
            }
            match meshes.get(*m) {
                Some(AsyncState::Ready(p)) => match index_span_of(p, *idx) {
                    Some(n) => Some(triangles_of(p.primitive, n)),
                    None => None,
                },
                _ => None,
            }
        },
        _ => None,
    }
}

/// A request that the driver makes of the backend.
pub enum BackendRequest {
    /// The window or viewport is now this wide and high.
    Resize((u32, u32)),
    /// Execute a command, with the arena bytes it carries, at these dimensions.
    Execute(Command, Seq<u8>, (u32, u32)),
}

/// One exchange with the backend: what was asked and what it answered.
pub struct BackendCall {
    pub request: BackendRequest,
    pub answer: Result<(), String>,
}

/// The requests of a run of exchanges.
pub open spec fn requests_of(calls: Seq<BackendCall>) -> Seq<BackendRequest> {
    calls.map_values(|c: BackendCall| c.request)
}

/// Every exchange of the run was answered with success.
pub open spec fn all_answered_ok(calls: Seq<BackendCall>) -> bool {
    forall|i: int| 0 <= i < calls.len() ==> (#[trigger] calls[i]).answer is Ok
}

/// The bytes that go to the backend with `c`, taken from the arena
/// `payload`: those of its arena run, or none for a command without one.
/// `None` for a draw that does not resolve, which is not forwarded at all.
pub open spec fn forwarded_bytes(
    c: Command,
    payload: Seq<u8>,
    shaders: Map<Handle, ShaderParams>,
    meshes: Map<Handle, AsyncState<MeshParams>>,
) -> Option<Seq<u8>> {
    if c is Draw && draw_triangles(c, shaders, meshes) is None {
        None
    } else {
        match payload_of(c) {
            Some(p) => Some(payload.subrange(p.offset as int, p.offset + p.len)),
            None => Some(Seq::<u8>::empty()),
        }
    }
}

/// The execute requests that dispatching `cmds` over the arena `payload`
/// makes, in append order.
pub open spec fn executed(
    cmds: Seq<Command>,
    payload: Seq<u8>,
    shaders: Map<Handle, ShaderParams>,
    meshes: Map<Handle, AsyncState<MeshParams>>,
    dimensions: (u32, u32),
) -> Seq<BackendRequest>
    decreases cmds.len(),
{
    if cmds.len() == 0 {
        Seq::empty()
    } else {
        let rest = executed(cmds.drop_last(), payload, shaders, meshes, dimensions);
        match forwarded_bytes(cmds.last(), payload, shaders, meshes) {
            Some(b) => rest.push(BackendRequest::Execute(cmds.last(), b, dimensions)),
            None => rest,
        }
    }
}

/// Every request that a tick makes of the backend, in order: a resize when
/// the dimensions changed, then the execution of each forwarded command of
/// the frame that producers filled.
pub open spec fn tick_requests(pre_system_dims: (u32, u32), dimensions: (u32, u32), pre: VideoSystemShared) -> Seq<BackendRequest> {
    let resize = if pre_system_dims != dimensions {
        seq![BackendRequest::Resize(dimensions)]
    } else {
        Seq::<BackendRequest>::empty()
    };
    resize + executed(pre.front().commands(), pre.front().payload(), pre.shaders()@, pre.meshes()@, dimensions)
}

/// The arena bytes that go to the backend with the command at position `i`
/// of `frame`; `None` when that command is a draw that does not resolve.
pub fn forwarded_payload<'a>(
    frame: &'a Frame,
    shaders: &Registry<ShaderParams>,
    meshes: &Registry<AsyncState<MeshParams>>,
    i: usize,
) -> (r: Option<&'a [u8]>)
    requires
        frame.wf(),
        shaders.wf(),
        meshes.wf(),
        i < frame.commands().len(),
    ensures
        match r {
            Some(b) => forwarded_bytes(frame.commands()[i as int], frame.payload(), shaders@, meshes@) == Some(b@),
            None => forwarded_bytes(frame.commands()[i as int], frame.payload(), shaders@, meshes@) is None,
        },
{
    let cmd = frame.command(i);
    let resolved = resolve_draw(shaders, meshes, cmd);
    let is_draw = match cmd {
        Command::Draw(..) => true,
        _ => false,
    };
    if is_draw && resolved.is_none() {
        return None;
    }
    match payload_ptr(cmd) {
        Some(p) => Some(frame.bytes(p)),
        None => {
            let b = frame.bytes(BufferPtr { offset: 0, len: 0 });
            assert(b@ =~= Seq::<u8>::empty());
            Some(b)
        },
    }
}

/// The driver: owns the backend, and runs one tick at a time on the thread
/// that owns the graphics context. It keeps a record of every exchange it
/// has had with the backend.
pub struct VideoSystem<V: Visitor> {
    visitor: V,
    last_dimensions: (u32, u32),
    calls: Ghost<Seq<BackendCall>>,
}

impl<V: Visitor> VideoSystem<V> {
    /// The dimensions last handed to the backend.
    pub closed spec fn dimensions(&self) -> (u32, u32) {
        self.last_dimensions
    }

    /// The backend that the driver owns.
    pub closed spec fn backend(&self) -> V {
        self.visitor
    }

    /// Every exchange with the backend so far, oldest first.
    pub closed spec fn backend_calls(&self) -> Seq<BackendCall> {
        self.calls@
    }

    /// A driver over `visitor`, for a window of `dimensions`.
    pub fn new(visitor: V, dimensions: (u32, u32)) -> (r: Self)
        ensures
            r.dimensions() == dimensions,
            r.backend() == visitor,
            r.backend_calls() == Seq::<BackendCall>::empty(),
    {
        VideoSystem { visitor, last_dimensions: dimensions, calls: Ghost(Seq::empty()) }
    }

    /// The backend.
    pub fn visitor(&self) -> (r: &V)
        ensures
            *r == self.backend(),
    {
        &self.visitor
    }

    /// Runs one tick against a window of `dimensions`.
    ///
    /// When the dimensions changed, the backend is first asked to resize; if
    /// it fails, the tick ends there with `BackendError` and nothing else
    /// changes. Then the frames of `shared` are swapped, and each command of
    /// the frame that producers filled goes to the backend in append order,
    /// with the arena bytes it carries, except a draw that does not resolve
    /// (see `draw_triangles`), which is skipped. The first failure the
    /// backend reports ends the dispatch with `BackendError` and its message;
    /// nothing is retried. The dispatched frame is cleared either way. On
    /// success the counters cover the draws forwarded, and the live counts
    /// the registries.
    pub fn advance(&mut self, shared: &mut VideoSystemShared, dimensions: (u32, u32)) -> (r: Result<VideoFrameInfo, Error>)
        requires
            old(shared).wf(),
        ensures
            final(shared).wf(),
            final(self).backend_calls().len() >= old(self).backend_calls().len(),
            final(self).backend_calls().take(old(self).backend_calls().len() as int) == old(self).backend_calls(),
            ({
                let calls = final(self).backend_calls().skip(old(self).backend_calls().len() as int);
                let expected = tick_requests(old(self).dimensions(), dimensions, *old(shared));
                let resized = old(self).dimensions() == dimensions || (calls.len() > 0 && calls[0].answer is Ok);
                &&& expected.len() == 0 ==> r is Ok
                &&& r is Ok ==> {
                    &&& requests_of(calls) == expected
                    &&& all_answered_ok(calls)
                }
                &&& r is Err ==> {
                    &&& calls.len() >= 1
                    &&& requests_of(calls) == expected.take(calls.len() as int)
                    &&& all_answered_ok(calls.drop_last())
                    &&& r->Err_0 is BackendError
                    &&& calls.last().answer == Err::<(), String>(r->Err_0->BackendError_0)
                }
                &&& resized ==> {
                    &&& final(self).dimensions() == dimensions
                    &&& dispatched(*old(shared), *final(shared))
                }
                &&& !resized ==> {
                    &&& r is Err
                    &&& final(self).dimensions() == old(self).dimensions()
                    &&& *final(shared) == *old(shared)
                }
            }),
            r is Ok ==> {
                let cmds = old(shared).front().commands();
                let shaders = old(shared).shaders()@;
                let meshes = old(shared).meshes()@;
                r->Ok_0 == (VideoFrameInfo {
                    duration_ns: 0,
                    drawcall: resolved_draws(cmds, shaders, meshes) as usize,
                    triangles: saturated(triangle_total(cmds, shaders, meshes)),
                    alive_surfaces: old(shared).surfaces()@.len() as usize,
                    alive_shaders: old(shared).shaders()@.len() as usize,
                    alive_meshes: old(shared).meshes()@.len() as usize,
                    alive_textures: old(shared).textures()@.len() as usize,
                    alive_render_textures: old(shared).render_textures()@.len() as usize,
                })
            },
    {
        let ghost pre_calls = self.calls@;
        let ghost pre_len = self.calls@.len() as int;
        let ghost expected = tick_requests(self.last_dimensions, dimensions, *shared);
        let ghost resize_part = if self.last_dimensions != dimensions {
            seq![BackendRequest::Resize(dimensions)]
        } else {
            Seq::<BackendRequest>::empty()
        };
        if dimensions.0 != self.last_dimensions.0 || dimensions.1 != self.last_dimensions.1 {
            let answer = self.visitor.resize(dimensions);
            proof {
                self.calls@ = self.calls@.push(BackendCall { request: BackendRequest::Resize(dimensions), answer });
                assert(self.calls@.skip(pre_len) =~= seq![BackendCall { request: BackendRequest::Resize(dimensions), answer }]);
                assert(requests_of(self.calls@.skip(pre_len)) =~= resize_part);
                assert(self.calls@.take(pre_len) =~= pre_calls);
            }
            match answer {
                Ok(()) => {},
                Err(msg) => {
                    proof {
                        assert(expected.take(1) =~= resize_part);
                        assert(self.calls@.skip(pre_len).drop_last() =~= Seq::<BackendCall>::empty());
                    }
                    return Err(Error::BackendError(msg));
                },
            }
            self.last_dimensions = dimensions;
        } else {
            proof {
                assert(self.calls@.skip(pre_len) =~= Seq::<BackendCall>::empty());
                assert(requests_of(self.calls@.skip(pre_len)) =~= resize_part);
                assert(self.calls@.take(pre_len) =~= pre_calls);
            }
        }
        shared.frames.swap();
        let ghost cmds = old(shared).front().commands();
        let ghost payload = old(shared).front().payload();
        let ghost shaders = old(shared).shaders()@;
        let ghost meshes = old(shared).meshes()@;
        let n = shared.frames.back_ref().len();
        let mut drawcall: usize = 0;
        let mut triangles: u64 = 0;
        let mut i: usize = 0;
        assert(cmds.take(0) =~= Seq::<Command>::empty());
        assert(resize_part + executed(cmds.take(0), payload, shaders, meshes, dimensions) =~= resize_part);
        while i < n
            invariant
                self.last_dimensions == dimensions,
                shared.wf(),
                shared.front() == old(shared).back(),
                shared.back() == old(shared).front(),
                shared.surfaces() == old(shared).surfaces(),
                shared.shaders() == old(shared).shaders(),
                shared.meshes() == old(shared).meshes(),
                shared.textures() == old(shared).textures(),
                shared.render_textures() == old(shared).render_textures(),
                cmds == old(shared).front().commands(),
                payload == old(shared).front().payload(),
                shaders == old(shared).shaders()@,
                meshes == old(shared).meshes()@,
                expected == resize_part + executed(cmds, payload, shaders, meshes, dimensions),
                n == cmds.len(),
                0 <= i <= n,
                drawcall <= i,
                drawcall == resolved_draws(cmds.take(i as int), shaders, meshes),
                triangles == saturated(triangle_total(cmds.take(i as int), shaders, meshes)),
                0 <= pre_len,
                pre_calls == old(self).backend_calls(),
                pre_calls.len() == pre_len,
                expected == tick_requests(old(self).dimensions(), dimensions, *old(shared)),
                self.calls@.len() >= pre_len,
                self.calls@.take(pre_len) == pre_calls,
                requests_of(self.calls@.skip(pre_len)) == resize_part + executed(cmds.take(i as int), payload, shaders, meshes, dimensions),
                all_answered_ok(self.calls@.skip(pre_len)),
            decreases n - i,
        {
            let frame = shared.frames.back_ref();
            let cmd = frame.command(i);
            let t = resolve_draw(&shared.shaders, &shared.meshes, cmd);
            let forwarded = forwarded_payload(frame, &shared.shaders, &shared.meshes, i);
            proof {
                assert(cmds.take(i + 1).drop_last() =~= cmds.take(i as int));
                assert(cmds.take(i + 1).last() == cmds[i as int]);
                lemma_executed_prefix(cmds, payload, shaders, meshes, dimensions, i as int);
            }
            match forwarded {
                Some(payload_bytes) => {
                    let answer = self.visitor.execute(cmd, payload_bytes, dimensions);
                    let ghost call = BackendCall {
                        request: BackendRequest::Execute(*cmd, payload_bytes@, dimensions),
                        answer,
                    };
                    proof {
                        let before = self.calls@;
                        self.calls@ = self.calls@.push(call);
                        assert(self.calls@.skip(pre_len) =~= before.skip(pre_len).push(call));
                        assert(requests_of(self.calls@.skip(pre_len)) =~= requests_of(before.skip(pre_len)).push(call.request));
                        assert(self.calls@.take(pre_len) =~= before.take(pre_len));
                        assert(self.calls@.skip(pre_len).drop_last() =~= before.skip(pre_len));
                        assert(resize_part + executed(cmds.take(i + 1), payload, shaders, meshes, dimensions)
                            =~= (resize_part + executed(cmds.take(i as int), payload, shaders, meshes, dimensions)).push(call.request));
                    }
                    match answer {
                        Ok(()) => {},
                        Err(msg) => {
                            proof {
                                lemma_executed_prefix_of_all(cmds, payload, shaders, meshes, dimensions, i + 1);
                                let k = requests_of(self.calls@.skip(pre_len)).len();
                                assert(expected.take(k as int) =~= resize_part + executed(cmds.take(i + 1), payload, shaders, meshes, dimensions));
                            }
                            shared.frames.back_mut().clear();
                            return Err(Error::BackendError(msg));
                        },
                    }
                },
                None => {
                    proof {
                        assert(resize_part + executed(cmds.take(i + 1), payload, shaders, meshes, dimensions)
                            =~= resize_part + executed(cmds.take(i as int), payload, shaders, meshes, dimensions));
                    }
                },
            }
            match t {
                Some(t) => {
                    drawcall = drawcall + 1;
                    triangles = triangles.saturating_add(t as u64);
                },
                None => {},
            }
            i = i + 1;
        }
        assert(cmds.take(n as int) =~= cmds);
        shared.frames.back_mut().clear();
        Ok(VideoFrameInfo {
            duration_ns: 0,
            drawcall,
            triangles,
            alive_surfaces: shared.surfaces.len(),
            alive_shaders: shared.shaders.len(),
            alive_meshes: shared.meshes.len(),
            alive_textures: shared.textures.len(),
            alive_render_textures: shared.render_textures.len(),
        })
    }
}

/// Dispatching one more command extends the requests by at most that
/// command's execution.
proof fn lemma_executed_prefix(
    cmds: Seq<Command>,
    payload: Seq<u8>,
    shaders: Map<Handle, ShaderParams>,
    meshes: Map<Handle, AsyncState<MeshParams>>,
    dimensions: (u32, u32),
    i: int,
)
    requires
        0 <= i < cmds.len(),
    ensures
        executed(cmds.take(i + 1), payload, shaders, meshes, dimensions) == match forwarded_bytes(cmds[i], payload, shaders, meshes) {
            Some(b) => executed(cmds.take(i), payload, shaders, meshes, dimensions).push(BackendRequest::Execute(cmds[i], b, dimensions)),
            None => executed(cmds.take(i), payload, shaders, meshes, dimensions),
        },
{
    assert(cmds.take(i + 1).drop_last() =~= cmds.take(i));
    assert(cmds.take(i + 1).last() == cmds[i]);
}

/// The requests of dispatching the first `k` commands are a prefix of
/// those of dispatching them all.
proof fn lemma_executed_prefix_of_all(
    cmds: Seq<Command>,
    payload: Seq<u8>,
    shaders: Map<Handle, ShaderParams>,
    meshes: Map<Handle, AsyncState<MeshParams>>,
    dimensions: (u32, u32),
    k: int,
)
    requires
        0 <= k <= cmds.len(),
    ensures
        executed(cmds.take(k), payload, shaders, meshes, dimensions).len() <= executed(cmds, payload, shaders, meshes, dimensions).len(),
        executed(cmds, payload, shaders, meshes, dimensions).take(
            executed(cmds.take(k), payload, shaders, meshes, dimensions).len() as int,
        ) == executed(cmds.take(k), payload, shaders, meshes, dimensions),
    decreases cmds.len() - k,
{
    if k == cmds.len() {
        assert(cmds.take(k) =~= cmds);
        let e = executed(cmds, payload, shaders, meshes, dimensions);
        assert(e.take(e.len() as int) =~= e);
    } else {
        lemma_executed_prefix_of_all(cmds, payload, shaders, meshes, dimensions, k + 1);
        lemma_executed_prefix(cmds, payload, shaders, meshes, dimensions, k);
        let all = executed(cmds, payload, shaders, meshes, dimensions);
        let a = executed(cmds.take(k), payload, shaders, meshes, dimensions);
        let b = executed(cmds.take(k + 1), payload, shaders, meshes, dimensions);
        assert(b.take(a.len() as int) =~= a);
        assert(all.take(a.len() as int) =~= all.take(b.len() as int).take(a.len() as int));
    }
}

/// What a tick does to the shared state once the frames are swapped: the
/// frame that producers filled is now the back frame, dispatched and
/// cleared; the former back frame takes new commands; registries stay.
pub open spec fn dispatched(pre: VideoSystemShared, post: VideoSystemShared) -> bool {
    &&& post.wf()
    &&& post.front() == pre.back()
    &&& post.back().commands() == Seq::<Command>::empty()
    &&& post.back().payload() == Seq::<u8>::empty()
    &&& post.back().same_capacity(pre.front())
    &&& post.surfaces() == pre.surfaces()
    &&& post.shaders() == pre.shaders()
    &&& post.meshes() == pre.meshes()
    &&& post.textures() == pre.textures()
    &&& post.render_textures() == pre.render_textures()
}

/// Deleting a handle a second time, after a first delete that succeeded, is
/// a no-op: the registry and the front frame stay as the first delete left
/// them. A live handle deleted twice with room for one command in the front
/// frame has exactly one delete command recorded over both calls.
pub proof fn lemma_second_delete_is_noop<T>(
    reg0: Registry<T>,
    front0: Frame,
    h: Handle,
    cmd: Command,
    reg1: Registry<T>,
    front1: Frame,
    r1: Result<(), Error>,
    reg2: Registry<T>,
    front2: Frame,
    r2: Result<(), Error>,
)
    requires
        reg0.wf(),
        delete_effect(reg0, front0, h, cmd, reg1, front1, r1),
        delete_effect(reg1, front1, h, cmd, reg2, front2, r2),
    ensures
        r1 is Ok ==> {
            &&& r2 is Ok
            &&& reg2 == reg1
            &&& front2 == front1
        },
        reg0@.contains_key(h) && front0.has_room(1, 0) ==> {
            &&& r1 is Ok
            &&& r2 is Ok
            &&& !reg2@.contains_key(h)
            &&& front2.commands() == front0.commands().push(cmd)
        },
{
    if reg0@.contains_key(h) && front0.has_room(1, 0) {
        assert(!reg1@.contains_key(h));
    }
}

/// A mesh created and then updated before the next swap, with room in the
/// front frame for both commands and the bytes, is updated successfully and
/// has its `CreateMesh` recorded right before its `UpdateVertexBuffer`, in
/// the frame that the next tick hands to the backend in append order.
pub proof fn lemma_create_recorded_before_update(
    s0: VideoSystemShared,
    params: MeshParams,
    data: Option<MeshData>,
    s1: VideoSystemShared,
    r1: Result<Handle, Error>,
    offset: usize,
    bytes: Seq<u8>,
    s2: VideoSystemShared,
    r2: Result<(), Error>,
)
    requires
        s0.wf(),
        mesh_created(s0, params, data, s1, r1),
        r1 is Ok,
        s0.front().has_room(2, bytes.len()),
        mesh_updated(s1, r1->Ok_0, bytes, |p: BufferPtr| Command::UpdateVertexBuffer(r1->Ok_0, offset, p), s2, r2),
    ensures
        r2 is Ok,
        ({
            let h = r1->Ok_0;
            let i = s0.front().commands().len() as int;
            let cmds = s2.front().commands();
            &&& cmds.len() == i + 2
            &&& cmds.take(i) == s0.front().commands()
            &&& cmds[i] == Command::CreateMesh(h, params, data)
            &&& cmds[i + 1] == Command::UpdateVertexBuffer(
                h,
                offset,
                BufferPtr { offset: s0.front().payload().len() as usize, len: bytes.len() as usize },
            )
        }),
{
    let h = r1->Ok_0;
    assert(s1.meshes()@.contains_key(h));
    let i = s0.front().commands().len() as int;
    assert(s2.front().commands().take(i) =~= s0.front().commands());
}

/// A mesh handle reserved by a loader reports no bounding box until the
/// loader commits its payload, and the committed box right after.
pub proof fn lemma_reserved_mesh_reports_box_once_committed(
    s0: VideoSystemShared,
    s1: VideoSystemShared,
    r1: Result<Handle, Error>,
    params: MeshParams,
    data: MeshData,
    s2: VideoSystemShared,
    r2: Result<(), Error>,
)
    requires
        s0.wf(),
        mesh_reserved(s0, s1, r1),
        r1 is Ok,
        mesh_committed(s1, r1->Ok_0, params, data, s2, r2),
    ensures
        committed_aabb(s1.meshes()@, r1->Ok_0) is None,
        r2 is Ok ==> committed_aabb(s2.meshes()@, r1->Ok_0) == Some(params.aabb),
        r2 is Err ==> committed_aabb(s2.meshes()@, r1->Ok_0) is None,
{
}

/// A delete of another handle, or any create, leaves a handle alone; every
/// delete is a registry step.
pub proof fn lemma_delete_leaves_others_alone<T>(
    pre_reg: Registry<T>,
    pre_front: Frame,
    k: Handle,
    cmd: Command,
    post_reg: Registry<T>,
    post_front: Frame,
    r: Result<(), Error>,
    h: Handle,
)
    requires
        delete_effect(pre_reg, pre_front, k, cmd, post_reg, post_front, r),
    ensures
        registry_step(pre_reg, post_reg),
        k != h ==> leaves_alone(pre_reg, post_reg, h),
{
    if pre_reg@.contains_key(k) && pre_front.has_room(1, 0) {
        let v = Some(pre_reg@[k]);
        assert(freed(pre_reg, k, post_reg, v));
    }
}

/// A surface reads back the parameters it was created with on every call,
/// across any run of operations that leave its handle alone: every facade
/// operation but `delete_surface` of that handle (creates are `created`
/// steps, deletes of other handles are `freed` steps, see
/// `lemma_delete_leaves_others_alone`, and all other operations keep the
/// surface registry as it is).
pub proof fn lemma_surface_reads_back_until_deleted(states: Seq<VideoSystemShared>, h: Handle, p: SurfaceParams)
    requires
        states.len() >= 1,
        states[0].wf(),
        states[0].surfaces()@.get(h) == Some(p),
        forall|i: int| 0 <= i < states.len() - 1
            ==> leaves_alone(#[trigger] states[i].surfaces(), states[i + 1].surfaces(), h),
    ensures
        states.last().surfaces()@.get(h) == Some(p),
{
    let regs = Seq::new(states.len(), |i: int| states[i].surfaces());
    assert forall|i: int| 0 <= i < regs.len() - 1 implies leaves_alone(#[trigger] regs[i], regs[i + 1], h) by {
        assert(leaves_alone(states[i].surfaces(), states[i + 1].surfaces(), h));
    }
    lemma_value_kept_over_run(regs, h);
    assert(regs.last() == states.last().surfaces());
}

/// A commit of another reserved mesh leaves a mesh handle alone.
pub proof fn lemma_commit_leaves_others_alone(
    pre: VideoSystemShared,
    k: Handle,
    params: MeshParams,
    data: MeshData,
    post: VideoSystemShared,
    r: Result<(), Error>,
    h: Handle,
)
    requires
        mesh_committed(pre, k, params, data, post, r),
        k != h,
    ensures
        leaves_alone(pre.meshes(), post.meshes(), h),
{
    if r is Ok {
        assert(replaced(pre.meshes(), k, post.meshes()@[k], post.meshes()));
    }
}

/// A mesh handle reserved by a loader stays unavailable for bounding-box
/// queries across any run of operations that leave it alone: every facade
/// operation but the commit or the delete of that handle.
pub proof fn lemma_reserved_mesh_unavailable_until_committed(states: Seq<VideoSystemShared>, h: Handle)
    requires
        states.len() >= 1,
        states[0].wf(),
        states[0].meshes()@.contains_key(h),
        states[0].meshes()@[h] is NotReady,
        forall|i: int| 0 <= i < states.len() - 1
            ==> leaves_alone(#[trigger] states[i].meshes(), states[i + 1].meshes(), h),
    ensures
        committed_aabb(states.last().meshes()@, h) is None,
{
    let regs = Seq::new(states.len(), |i: int| states[i].meshes());
    assert forall|i: int| 0 <= i < regs.len() - 1 implies leaves_alone(#[trigger] regs[i], regs[i + 1], h) by {
        assert(leaves_alone(states[i].meshes(), states[i + 1].meshes(), h));
    }
    lemma_value_kept_over_run(regs, h);
    assert(regs.last() == states.last().meshes());
}

/// The commands that a run of successful surface creates records.
pub open spec fn surface_commands(params: Seq<SurfaceParams>, results: Seq<Result<Handle, Error>>) -> Seq<Command> {
    Seq::new(params.len(), |i: int| Command::CreateSurface(results[i]->Ok_0, params[i]))
}

/// A run of `create_surface` calls, however the callers interleave, each on
/// the state the previous one left, with room in the front frame for all of
/// them and slots to spare: every call succeeds with a handle of its own,
/// each handle reads back its parameters, the live count grows by the
/// number of calls, and one `CreateSurface` per call is recorded in order.
pub proof fn lemma_surface_creates(
    states: Seq<VideoSystemShared>,
    params: Seq<SurfaceParams>,
    results: Seq<Result<Handle, Error>>,
)
    requires
        states.len() == results.len() + 1,
        params.len() == results.len(),
        states[0].wf(),
        states[0].front().has_room(results.len() as nat, 0),
        states[0].surfaces().slot_count() + results.len() <= MAX_SLOTS,
        forall|i: int| 0 <= i < results.len() ==> #[trigger] surface_created(states[i], params[i], states[i + 1], results[i]),
    ensures
        forall|i: int| 0 <= i < results.len() ==> (#[trigger] results[i]) is Ok,
        forall|i: int, j: int| 0 <= i < j < results.len() ==> results[i]->Ok_0 != results[j]->Ok_0,
        forall|i: int| 0 <= i < results.len() ==> states.last().surfaces()@.get(#[trigger] results[i]->Ok_0) == Some(params[i]),
        states.last().surfaces()@.len() == states[0].surfaces()@.len() + results.len(),
        states.last().front().commands() == states[0].front().commands() + surface_commands(params, results),
{
    lemma_surface_creates_upto(states, params, results, results.len() as int);
    assert(params.take(results.len() as int) =~= params);
    assert(results.take(results.len() as int) =~= results);
}

proof fn lemma_surface_create_step(pre: VideoSystemShared, p: SurfaceParams, post: VideoSystemShared, r: Result<Handle, Error>)
    requires
        pre.wf(),
        pre.front().has_room(1, 0),
        pre.surfaces().slot_count() < MAX_SLOTS,
        surface_created(pre, p, post, r),
    ensures
        r is Ok,
        post.wf(),
        created(pre.surfaces(), p, post.surfaces(), r->Ok_0),
        pre.surfaces()@.dom().finite(),
        post.surfaces()@.dom() == pre.surfaces()@.dom().insert(r->Ok_0),
        post.surfaces().slot_count() <= pre.surfaces().slot_count() + 1,
        post.front().same_capacity(pre.front()),
        post.front().payload() == pre.front().payload(),
        post.front().commands() == pre.front().commands().push(Command::CreateSurface(r->Ok_0, p)),
{
    assert(!pre.surfaces().spec_is_full());
    assert(pre.surfaces().wf());
    lemma_live_entries_finite(pre.surfaces());
}

proof fn lemma_surface_creates_upto(
    states: Seq<VideoSystemShared>,
    params: Seq<SurfaceParams>,
    results: Seq<Result<Handle, Error>>,
    k: int,
)
    requires
        states.len() == results.len() + 1,
        params.len() == results.len(),
        0 <= k <= results.len(),
        states[0].wf(),
        states[0].front().has_room(results.len() as nat, 0),
        states[0].surfaces().slot_count() + results.len() <= MAX_SLOTS,
        forall|i: int| 0 <= i < results.len() ==> #[trigger] surface_created(states[i], params[i], states[i + 1], results[i]),
    ensures
        states[k].wf(),
        states[k].front().same_capacity(states[0].front()),
        states[k].front().payload() == states[0].front().payload(),
        states[k].surfaces().slot_count() <= states[0].surfaces().slot_count() + k,
        forall|i: int| 0 <= i < k ==> (#[trigger] results[i]) is Ok,
        forall|i: int, j: int| 0 <= i < j < k ==> results[i]->Ok_0 != results[j]->Ok_0,
        forall|i: int| 0 <= i < k ==> states[k].surfaces()@.get(#[trigger] results[i]->Ok_0) == Some(params[i]),
        states[k].surfaces()@.len() == states[0].surfaces()@.len() + k,
        states[k].front().commands() == states[0].front().commands() + surface_commands(params.take(k), results.take(k)),
    decreases k,
{
    if k == 0 {
        assert(surface_commands(params.take(0), results.take(0)) =~= Seq::<Command>::empty());
        assert(states[0].front().commands() + Seq::<Command>::empty() =~= states[0].front().commands());
    } else {
        lemma_surface_creates_upto(states, params, results, k - 1);
        let last = k - 1;
        let pre = states[last];
        let post = states[last + 1];
        assert(surface_created(states[last], params[last], states[last + 1], results[last]));
        assert(pre.front().commands().len() == states[0].front().commands().len() + (k - 1));
        lemma_surface_create_step(pre, params[k - 1], post, results[k - 1]);
        let h = results[k - 1]->Ok_0;
        assert forall|i: int| 0 <= i < k implies post.surfaces()@.get(#[trigger] results[i]->Ok_0) == Some(params[i]) by {
            if i < k - 1 {
                assert(states[k - 1].surfaces()@.get(results[i]->Ok_0) == Some(params[i]));
                assert(pre.surfaces()@.contains_key(results[i]->Ok_0));
            }
        }
        assert forall|i: int, j: int| 0 <= i < j < k implies results[i]->Ok_0 != results[j]->Ok_0 by {
            if j == k - 1 {
                assert(states[k - 1].surfaces()@.get(results[i]->Ok_0) == Some(params[i]));
                assert(pre.surfaces()@.contains_key(results[i]->Ok_0));
            }
        }
        assert(post.surfaces()@.dom() == pre.surfaces()@.dom().insert(h));
        assert(surface_commands(params.take(k), results.take(k))
            =~= surface_commands(params.take(k - 1), results.take(k - 1)).push(Command::CreateSurface(h, params[k - 1])));
        assert(states[0].front().commands() + surface_commands(params.take(k), results.take(k))
            =~= (states[0].front().commands() + surface_commands(params.take(k - 1), results.take(k - 1))).push(Command::CreateSurface(h, params[k - 1])));
    }
}

} // verus!
