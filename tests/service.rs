use crayon_video::assets::{
    BoundingBox, Comparison, CullFace, MeshData, MeshIndex, MeshParams, MeshPrimitive,
    RenderState, RenderTextureFormat, RenderTextureParams, ShaderAttribute, ShaderParams,
    SurfaceParams, SurfaceScissor, SurfaceViewport, TextureData, TextureFilter, TextureFormat,
    TextureParams, TextureRegion, TextureWrap, UniformVariable, UniformVariableType,
};
use crayon_video::errors::{Error, Invalid};
use crayon_video::frame::Command;
use crayon_video::handle::Handle;
use crayon_video::mesh::{BufferHint, IndexFormat, VertexAttribute, VertexFormat, VertexLayout};
use crayon_video::frame::Frame;
use crayon_video::registry::Registry;
use crayon_video::service::{forwarded_payload, AsyncState, DrawCall, VideoSystem, VideoSystemShared, Visitor};

/// A backend that writes down what it is asked to do.
#[derive(Default)]
struct Recorder {
    log: Vec<String>,
    resized: Vec<(u32, u32)>,
    fail_on: Option<usize>,
    fail_resize: bool,
}

impl Visitor for Recorder {
    fn resize(&mut self, dimensions: (u32, u32)) -> Result<(), String> {
        self.resized.push(dimensions);
        if self.fail_resize {
            return Err("no such mode".to_string());
        }
        Ok(())
    }

    fn execute(&mut self, cmd: &Command, payload: &[u8], _dimensions: (u32, u32)) -> Result<(), String> {
        if self.fail_on == Some(self.log.len()) {
            return Err("device lost".to_string());
        }
        let entry = match cmd {
            Command::Bind(h) => format!("Bind({})", h.index()),
            Command::Draw(s, m, _, _) => format!("Draw({},{}) {:?}", s.index(), m.index(), payload),
            Command::UpdateScissor(_) => "UpdateScissor".to_string(),
            Command::UpdateViewport(_) => "UpdateViewport".to_string(),
            Command::CreateSurface(h, _) => format!("CreateSurface({})", h.index()),
            Command::DeleteSurface(h) => format!("DeleteSurface({})", h.index()),
            Command::CreateShader(h, _, _, _) => format!("CreateShader({})", h.index()),
            Command::DeleteShader(h) => format!("DeleteShader({})", h.index()),
            Command::CreateMesh(h, _, _) => format!("CreateMesh({})", h.index()),
            Command::UpdateVertexBuffer(h, o, _) => format!("UpdateVertexBuffer({},{}) {:?}", h.index(), o, payload),
            Command::UpdateIndexBuffer(h, o, _) => format!("UpdateIndexBuffer({},{}) {:?}", h.index(), o, payload),
            Command::DeleteMesh(h) => format!("DeleteMesh({})", h.index()),
            Command::CreateTexture(h, _, _) => format!("CreateTexture({})", h.index()),
            Command::UpdateTexture(h, _, _) => format!("UpdateTexture({}) {:?}", h.index(), payload),
            Command::DeleteTexture(h) => format!("DeleteTexture({})", h.index()),
            Command::CreateRenderTexture(h, _) => format!("CreateRenderTexture({})", h.index()),
            Command::DeleteRenderTexture(h) => format!("DeleteRenderTexture({})", h.index()),
        };
        self.log.push(entry);
        Ok(())
    }
}

fn surface_params() -> SurfaceParams {
    SurfaceParams {
        clear_color: Some((0, 0, 0, 255)),
        clear_depth: Some(1.0f32.to_bits()),
        clear_stencil: None,
        order: 0,
        framebuffer: None,
    }
}

fn render_state() -> RenderState {
    RenderState {
        cull_face: CullFace::Back,
        depth_test: Comparison::LessOrEqual,
        depth_write: true,
        color_write: (true, true, true, true),
    }
}

fn color_shader() -> (ShaderParams, String, String) {
    let params = ShaderParams {
        attributes: vec![ShaderAttribute { name: VertexAttribute::Position, size: 3 }],
        uniforms: vec![
            UniformVariable { name: "scn_MVPMatrix".to_string(), variable_type: UniformVariableType::Matrix4f },
            UniformVariable { name: "u_Color".to_string(), variable_type: UniformVariableType::Vector4f },
        ],
        render_state: render_state(),
    };
    let vs = "attribute vec3 Position; uniform mat4 scn_MVPMatrix; void main() {}".to_string();
    let fs = "uniform vec4 u_Color; void main() {}".to_string();
    (params, vs, fs)
}

fn quad_box() -> BoundingBox {
    BoundingBox {
        min: ((-1.0f32).to_bits(), (-1.0f32).to_bits(), 0.0f32.to_bits()),
        max: (1.0f32.to_bits(), 1.0f32.to_bits(), 0.0f32.to_bits()),
    }
}

fn quad_layout() -> VertexLayout {
    VertexLayout::build()
        .with(VertexAttribute::Position, VertexFormat::Float, 3, false)
        .with(VertexAttribute::Color0, VertexFormat::UByte, 4, true)
        .finish()
}

fn quad_params() -> MeshParams {
    MeshParams {
        hint: BufferHint::Immutable,
        layout: quad_layout(),
        index_format: IndexFormat::U16,
        primitive: MeshPrimitive::Triangles,
        num_verts: 4,
        num_idxes: 6,
        sub_mesh_offsets: vec![0],
        aabb: quad_box(),
    }
}

fn quad_data() -> MeshData {
    let points = [[-1.0f32, -1.0, 0.0], [1.0, -1.0, 0.0], [1.0, 1.0, 0.0], [-1.0, 1.0, 0.0]];
    let color = [155u8, 155, 155, 255];
    let mut vptr = Vec::new();
    for p in points.iter() {
        for c in p.iter() {
            vptr.extend_from_slice(&c.to_le_bytes());
        }
        vptr.extend_from_slice(&color);
    }
    let mut iptr = Vec::new();
    for i in [0u16, 1, 2, 2, 3, 0].iter() {
        iptr.extend_from_slice(&i.to_le_bytes());
    }
    MeshData { vptr, iptr }
}

fn texture_params(w: u32, h: u32) -> TextureParams {
    TextureParams {
        hint: BufferHint::Immutable,
        format: TextureFormat::RGBA8,
        filter: TextureFilter::Linear,
        wrap: TextureWrap::ClampToEdge,
        mipmap: false,
        dimensions: (w, h),
    }
}

#[test]
fn quad_round_trips_through_create_mesh() {
    let mut video = VideoSystemShared::new(64, 1024);
    let data = quad_data();
    assert_eq!(data.vptr.len(), 4 * 16);
    assert_eq!(data.iptr.len(), 12);
    let h = video.create_mesh(quad_params(), Some(data)).unwrap();
    let p = video.mesh(h).unwrap();
    assert_eq!(p.num_verts, 4);
    assert_eq!(p.num_idxes, 6);
    assert_eq!(p.layout, quad_layout());
    assert_eq!(p.layout.stride(), 16);
    assert_eq!(p.index_format, IndexFormat::U16);
    assert_eq!(p.sub_mesh_offsets, vec![0]);
    assert_eq!(video.mesh_aabb(h), Some(quad_box()));
}

#[test]
fn surface_params_stay_until_deleted() {
    let mut video = VideoSystemShared::new(8, 0);
    let h = video.create_surface(surface_params()).unwrap();
    assert_eq!(video.surface(h), Some(surface_params()));
    assert_eq!(video.delete_surface(h), Ok(()));
    assert_eq!(video.surface(h), None);
    let h2 = video.create_surface(surface_params()).unwrap();
    assert_eq!(h2.index(), h.index());
    assert_ne!(h2, h);
    assert_eq!(video.surface(h), None);
}

#[test]
fn second_delete_records_nothing() {
    let mut video = VideoSystemShared::new(8, 0);
    let h = video.create_mesh(quad_params(), None).unwrap();
    assert_eq!(video.delete_mesh(h), Ok(()));
    assert_eq!(video.delete_mesh(h), Ok(()));
    let mut system = VideoSystem::new(Recorder::default(), (640, 480));
    system.advance(&mut video, (640, 480)).unwrap();
    assert_eq!(system_log(&system), vec!["CreateMesh(0)".to_string(), "DeleteMesh(0)".to_string()]);
}

fn system_log(system: &VideoSystem<Recorder>) -> Vec<String> {
    system.visitor().log.clone()
}

#[test]
fn create_is_dispatched_before_update() {
    let mut video = VideoSystemShared::new(8, 64);
    let mut params = quad_params();
    params.hint = BufferHint::Dynamic;
    let h = video.create_mesh(params, None).unwrap();
    video.update_vertex_buffer(h, 16, &[9, 8, 7]).unwrap();
    video.update_index_buffer(h, 2, &[1, 0]).unwrap();
    let mut system = VideoSystem::new(Recorder::default(), (640, 480));
    let info = system.advance(&mut video, (640, 480)).unwrap();
    assert_eq!(info.drawcall, 0);
    assert_eq!(
        system_log(&system),
        vec![
            "CreateMesh(0)".to_string(),
            "UpdateVertexBuffer(0,16) [9, 8, 7]".to_string(),
            "UpdateIndexBuffer(0,2) [1, 0]".to_string(),
        ]
    );
}

#[test]
fn updates_of_unknown_mesh_fail() {
    let mut video = VideoSystemShared::new(8, 64);
    let bogus = Handle::new(3, 0);
    assert_eq!(video.update_vertex_buffer(bogus, 0, &[1]), Err(Error::HandleInvalid(bogus)));
    assert_eq!(video.update_index_buffer(bogus, 0, &[1]), Err(Error::HandleInvalid(bogus)));
    assert_eq!(video.update_texture(bogus, TextureRegion { min: (0, 0), max: (1, 1) }, &[1]), Err(Error::HandleInvalid(bogus)));
    assert_eq!(video.delete_mesh(bogus), Ok(()));
}

#[test]
fn loader_path_reports_box_only_after_commit() {
    let mut video = VideoSystemShared::new(8, 64);
    let h = video.loader_create_mesh().unwrap();
    assert_eq!(video.mesh_aabb(h), None);
    assert!(video.mesh(h).is_none());
    video.loader_update_mesh(h, quad_params(), quad_data()).unwrap();
    assert_eq!(video.mesh_aabb(h), Some(quad_box()));
    assert_eq!(
        video.loader_update_mesh(h, quad_params(), quad_data()),
        Err(Error::HandleInvalid(h))
    );
}

#[test]
fn loader_commit_rejects_bad_data_and_stays_pending() {
    let mut video = VideoSystemShared::new(8, 64);
    let h = video.loader_create_mesh().unwrap();
    let mut data = quad_data();
    data.vptr.pop();
    assert_eq!(
        video.loader_update_mesh(h, quad_params(), data),
        Err(Error::ValidationError(Invalid::VertexData))
    );
    assert_eq!(video.mesh_aabb(h), None);
}

#[test]
fn mesh_validation_errors() {
    let mut video = VideoSystemShared::new(8, 64);
    let mut p = quad_params();
    p.sub_mesh_offsets = vec![3, 1];
    assert_eq!(video.create_mesh(p, None), Err(Error::ValidationError(Invalid::SubMeshOffsets)));
    let mut p = quad_params();
    p.sub_mesh_offsets = vec![0, 6];
    assert_eq!(video.create_mesh(p, None), Err(Error::ValidationError(Invalid::SubMeshOffsets)));
    let mut data = quad_data();
    data.iptr.push(0);
    assert_eq!(video.create_mesh(quad_params(), Some(data)), Err(Error::ValidationError(Invalid::IndexData)));
    let mut system = VideoSystem::new(Recorder::default(), (1, 1));
    system.advance(&mut video, (1, 1)).unwrap();
    assert!(system_log(&system).is_empty());
}

#[test]
fn shader_validation_errors() {
    let mut video = VideoSystemShared::new(8, 64);
    let (p, vs, fs) = color_shader();
    let h = video.create_shader(p, vs.clone(), fs.clone()).unwrap();
    assert_eq!(video.shader(h).unwrap().uniforms.len(), 2);

    let (p, _, fs2) = color_shader();
    assert_eq!(video.create_shader(p, String::new(), fs2), Err(Error::ValidationError(Invalid::EmptySource)));

    let (mut p, vs2, fs2) = color_shader();
    p.attributes[0].size = 5;
    assert_eq!(video.create_shader(p, vs2, fs2), Err(Error::ValidationError(Invalid::AttributeSize)));

    let (mut p, vs2, fs2) = color_shader();
    p.attributes.push(ShaderAttribute { name: VertexAttribute::Position, size: 2 });
    assert_eq!(video.create_shader(p, vs2, fs2), Err(Error::ValidationError(Invalid::DuplicateAttribute)));

    let (mut p, vs2, fs2) = color_shader();
    p.attributes.push(ShaderAttribute { name: VertexAttribute::Normal, size: 3 });
    assert_eq!(video.create_shader(p, vs2, fs2), Err(Error::ValidationError(Invalid::AttributeNotReferenced)));

    let (mut p, vs2, fs2) = color_shader();
    p.uniforms[1].name = String::new();
    assert_eq!(video.create_shader(p, vs2, fs2), Err(Error::ValidationError(Invalid::EmptyUniformName)));

    let (mut p, vs2, fs2) = color_shader();
    p.uniforms[1].name = "scn_MVPMatrix".to_string();
    assert_eq!(video.create_shader(p, vs2, fs2), Err(Error::ValidationError(Invalid::DuplicateUniform)));

    let (mut p, vs2, fs2) = color_shader();
    p.uniforms[1].name = "u_Missing".to_string();
    assert_eq!(video.create_shader(p, vs2, fs2), Err(Error::ValidationError(Invalid::UniformNotReferenced)));

    let (mut p, vs2, fs2) = color_shader();
    for _ in 0..13 {
        p.attributes.push(ShaderAttribute { name: VertexAttribute::Normal, size: 1 });
    }
    assert_eq!(video.create_shader(p, vs2, fs2), Err(Error::ValidationError(Invalid::TooManyAttributes)));

    assert_eq!(video.delete_shader(h), Ok(()));
    assert!(video.shader(h).is_none());
}

#[test]
fn texture_rules_and_updates() {
    let mut video = VideoSystemShared::new(8, 64);
    assert_eq!(
        video.create_texture(texture_params(0, 4), None),
        Err(Error::ValidationError(Invalid::TextureDimensions))
    );
    assert_eq!(
        video.create_texture(texture_params(2, 2), Some(TextureData { bytes: vec![0; 15] })),
        Err(Error::ValidationError(Invalid::TextureData))
    );
    let t = video.create_texture(texture_params(2, 2), Some(TextureData { bytes: vec![0; 16] })).unwrap();
    let region = TextureRegion { min: (0, 0), max: (1, 1) };
    assert_eq!(video.update_texture(t, region, &[1, 2, 3, 4]), Ok(()));

    let pending = video.loader_create_texture().unwrap();
    assert_eq!(video.update_texture(pending, region, &[1, 2, 3, 4]), Err(Error::HandleInvalid(pending)));
    assert_eq!(
        video.loader_update_texture(pending, texture_params(1, 1), TextureData { bytes: vec![7; 4] }),
        Ok(())
    );
    assert_eq!(video.update_texture(pending, region, &[5, 6, 7, 8]), Ok(()));
    assert_eq!(video.delete_texture(t), Ok(()));
    assert_eq!(video.delete_texture(t), Ok(()));

    let mut system = VideoSystem::new(Recorder::default(), (8, 8));
    let info = system.advance(&mut video, (8, 8)).unwrap();
    assert_eq!(info.alive_textures, 1);
    assert_eq!(
        system_log(&system),
        vec![
            "CreateTexture(0)".to_string(),
            "UpdateTexture(0) [1, 2, 3, 4]".to_string(),
            "CreateTexture(1)".to_string(),
            "UpdateTexture(1) [5, 6, 7, 8]".to_string(),
            "DeleteTexture(0)".to_string(),
        ]
    );
}

#[test]
fn render_textures_follow_the_registry() {
    let mut video = VideoSystemShared::new(8, 0);
    let params = RenderTextureParams { format: RenderTextureFormat::RGBA8, dimensions: (256, 256), sampler: true };
    let h = video.create_render_texture(params).unwrap();
    assert_eq!(video.render_texture(h), Some(params));
    assert_eq!(video.delete_render_texture(h), Ok(()));
    assert_eq!(video.render_texture(h), None);
}

#[test]
fn many_producers_get_distinct_surfaces() {
    let mut video = VideoSystemShared::new(1000, 0);
    let mut handles = Vec::new();
    for _ in 0..50 {
        handles.push(video.create_surface(surface_params()).unwrap());
    }
    for i in 0..handles.len() {
        for j in (i + 1)..handles.len() {
            assert_ne!(handles[i], handles[j]);
        }
    }
    let mut system = VideoSystem::new(Recorder::default(), (1, 1));
    let info = system.advance(&mut video, (1, 1)).unwrap();
    assert_eq!(info.alive_surfaces, 50);
}

#[test]
fn full_front_frame_rejects_without_change() {
    let mut video = VideoSystemShared::new(1, 4);
    let s = video.create_surface(surface_params()).unwrap();
    assert_eq!(video.create_surface(surface_params()), Err(Error::CapacityExceeded));
    assert_eq!(video.update_scissor(s, SurfaceScissor::Disable), Err(Error::CapacityExceeded));
    assert_eq!(video.delete_surface(s), Err(Error::CapacityExceeded));
    assert_eq!(video.surface(s), Some(surface_params()));
    let dc = DrawCall { shader: s, mesh: s, mesh_index: MeshIndex::All, uniforms: vec![1, 2] };
    assert_eq!(video.draw(s, dc), Err(Error::CapacityExceeded));
}

#[test]
fn draws_are_counted_and_carry_uniform_copies() {
    let mut video = VideoSystemShared::new(64, 64);
    let surface = video.create_surface(surface_params()).unwrap();
    let (p, vs, fs) = color_shader();
    let shader = video.create_shader(p, vs, fs).unwrap();
    let mut params = quad_params();
    params.sub_mesh_offsets = vec![0, 3];
    let mesh = video.create_mesh(params, None).unwrap();

    let mut uniforms = vec![1u8, 2, 3];
    video.draw(surface, DrawCall { shader, mesh, mesh_index: MeshIndex::All, uniforms: uniforms.clone() }).unwrap();
    uniforms[0] = 99;
    video.draw(surface, DrawCall { shader, mesh, mesh_index: MeshIndex::SubMesh(1), uniforms: uniforms.clone() }).unwrap();
    video.draw(surface, DrawCall { shader, mesh, mesh_index: MeshIndex::SubMesh(2), uniforms: vec![] }).unwrap();
    video.draw(surface, DrawCall { shader, mesh, mesh_index: MeshIndex::Ptr(3, 4), uniforms: vec![] }).unwrap();
    video.update_viewport(surface, SurfaceViewport { position: (0, 0), size: (8, 8) }).unwrap();

    let mut system = VideoSystem::new(Recorder::default(), (8, 8));
    let info = system.advance(&mut video, (16, 16)).unwrap();
    assert_eq!(info.drawcall, 2);
    assert_eq!(info.triangles, 3);
    assert_eq!(info.alive_surfaces, 1);
    assert_eq!(info.alive_shaders, 1);
    assert_eq!(info.alive_meshes, 1);
    assert_eq!(system.visitor().resized, vec![(16, 16)]);
    let log = system_log(&system);
    assert_eq!(log[3], "Bind(0)");
    assert_eq!(log[4], "Draw(0,0) [1, 2, 3]");
    assert_eq!(log[6], "Draw(0,0) [99, 2, 3]");
    assert_eq!(log.len(), 11);

    let info = system.advance(&mut video, (16, 16)).unwrap();
    assert_eq!(info.drawcall, 0);
    assert_eq!(system.visitor().resized, vec![(16, 16)]);
}

#[test]
fn draw_of_deleted_mesh_is_skipped() {
    let mut video = VideoSystemShared::new(64, 64);
    let surface = video.create_surface(surface_params()).unwrap();
    let (p, vs, fs) = color_shader();
    let shader = video.create_shader(p, vs, fs).unwrap();
    let mesh = video.create_mesh(quad_params(), None).unwrap();
    video.draw(surface, DrawCall { shader, mesh, mesh_index: MeshIndex::All, uniforms: vec![] }).unwrap();
    video.delete_mesh(mesh).unwrap();
    let mut system = VideoSystem::new(Recorder::default(), (8, 8));
    let info = system.advance(&mut video, (8, 8)).unwrap();
    assert_eq!(info.drawcall, 0);
    assert_eq!(info.triangles, 0);
}

#[test]
fn backend_failure_surfaces_and_clears_the_frame() {
    let mut video = VideoSystemShared::new(8, 0);
    video.create_surface(surface_params()).unwrap();
    video.create_surface(surface_params()).unwrap();
    let mut system = VideoSystem::new(Recorder { fail_on: Some(1), ..Recorder::default() }, (8, 8));
    assert_eq!(system.advance(&mut video, (8, 8)), Err(Error::BackendError("device lost".to_string())));
    let info = system.advance(&mut video, (8, 8)).unwrap();
    assert_eq!(info.alive_surfaces, 2);
    assert_eq!(system_log(&system).len(), 1);
}

#[test]
fn arena_overflow_keeps_earlier_updates() {
    let mut video = VideoSystemShared::new(8, 4);
    let h = video.create_mesh(quad_params(), None).unwrap();
    video.update_vertex_buffer(h, 0, &[1, 2, 3]).unwrap();
    assert_eq!(video.update_vertex_buffer(h, 3, &[4, 5]), Err(Error::CapacityExceeded));
    video.update_index_buffer(h, 0, &[6]).unwrap();
    let mut system = VideoSystem::new(Recorder::default(), (2, 2));
    system.advance(&mut video, (2, 2)).unwrap();
    assert_eq!(
        system_log(&system),
        vec![
            "CreateMesh(0)".to_string(),
            "UpdateVertexBuffer(0,0) [1, 2, 3]".to_string(),
            "UpdateIndexBuffer(0,0) [6]".to_string(),
        ]
    );
}

#[test]
fn failed_resize_ends_the_tick_untouched() {
    let mut video = VideoSystemShared::new(8, 0);
    video.create_surface(surface_params()).unwrap();
    let mut system = VideoSystem::new(Recorder { fail_resize: true, ..Recorder::default() }, (8, 8));
    assert_eq!(system.advance(&mut video, (9, 9)), Err(Error::BackendError("no such mode".to_string())));
    assert!(system_log(&system).is_empty());
    assert_eq!(system.advance(&mut video, (9, 9)), Err(Error::BackendError("no such mode".to_string())));
    assert_eq!(system.visitor().resized, vec![(9, 9), (9, 9)]);
    let info = system.advance(&mut video, (8, 8)).unwrap();
    assert_eq!(info.alive_surfaces, 1);
    assert_eq!(system_log(&system), vec!["CreateSurface(0)".to_string()]);
}

#[test]
fn empty_tick_succeeds_without_backend_calls() {
    let mut video = VideoSystemShared::new(4, 0);
    let mut system = VideoSystem::new(Recorder { fail_on: Some(0), ..Recorder::default() }, (8, 8));
    let info = system.advance(&mut video, (8, 8)).unwrap();
    assert_eq!(info.drawcall, 0);
    assert!(system_log(&system).is_empty());
}

#[test]
fn forwarded_payload_picks_arena_bytes() {
    let mut frame = Frame::with_capacity(4, 8);
    let shaders: Registry<ShaderParams> = Registry::new();
    let meshes: Registry<AsyncState<MeshParams>> = Registry::new();
    let p = frame.extend_from_slice(&[4, 5, 6]).unwrap();
    let q = frame.extend_from_slice(&[7]).unwrap();
    frame.push(Command::UpdateVertexBuffer(Handle::new(0, 0), 0, q)).unwrap();
    frame.push(Command::DeleteMesh(Handle::new(0, 0))).unwrap();
    frame.push(Command::Draw(Handle::new(0, 0), Handle::new(0, 0), MeshIndex::All, p)).unwrap();
    assert_eq!(forwarded_payload(&frame, &shaders, &meshes, 0), Some(&[7u8][..]));
    assert_eq!(forwarded_payload(&frame, &shaders, &meshes, 1), Some(&[][..]));
    assert_eq!(forwarded_payload(&frame, &shaders, &meshes, 2), None);
}

#[test]
fn render_textures_are_counted() {
    let mut video = VideoSystemShared::new(8, 0);
    let params = RenderTextureParams { format: RenderTextureFormat::Depth24, dimensions: (4, 4), sampler: false };
    video.create_render_texture(params).unwrap();
    video.create_render_texture(params).unwrap();
    let mut system = VideoSystem::new(Recorder::default(), (1, 1));
    let info = system.advance(&mut video, (1, 1)).unwrap();
    assert_eq!(info.alive_render_textures, 2);
}

#[test]
fn create_after_delete_reuses_slot() {
    let mut video = VideoSystemShared::new(8, 0);
    let a = video.create_surface(surface_params()).unwrap();
    video.delete_surface(a).unwrap();
    let mut other = surface_params();
    other.order = 3;
    let b = video.create_surface(other).unwrap();
    assert_eq!(b.index(), a.index());
    assert_ne!(b.version(), a.version());
    assert_eq!(video.surface(b), Some(other));
    assert_eq!(video.surface(a), None);
}
