//! The parameters of each resource kind, and the structural rules that
//! resource parameters and data must meet before they are accepted.

use vstd::prelude::*;
use vstd::utf8::encode_utf8;

use crate::errors::Invalid;
use crate::handle::Handle;
use crate::mesh::{
    attribute_name, index_width, BufferHint, IndexFormat, VertexAttribute, VertexLayout,
    MAX_ATTRIBUTES,
};
use crate::text::{occurs_in, str_equal, str_occurs};

verus! {

/// An axis-aligned box, each coordinate held as the IEEE-754 bit pattern of
/// an `f32`. The pipeline stores and hands back boxes; it never computes with
/// their coordinates.
#[derive(Debug, Clone, Copy, PartialEq, Eq)]
pub struct BoundingBox {
    pub min: (u32, u32, u32),
    pub max: (u32, u32, u32),
}

// ---------------------------------------------------------------- surfaces

/// The parameters of a surface: how it is cleared before drawing, and where
/// it stands in the drawing order.
#[derive(Debug, Clone, Copy, PartialEq, Eq)]
pub struct SurfaceParams {
    /// The clear color as red, green, blue and alpha, if the surface is cleared.
    pub clear_color: Option<(u8, u8, u8, u8)>,
    /// The clear depth as the bit pattern of an `f32`, if depth is cleared.
    pub clear_depth: Option<u32>,
    /// The clear stencil value, if stencil is cleared.
    pub clear_stencil: Option<i32>,
    /// The drawing order of the surface.
    pub order: u64,
    /// The render texture the surface draws into; `None` for the window.
    pub framebuffer: Option<Handle>,
}

/// The scissor test of a surface.
#[derive(Debug, Clone, Copy, PartialEq, Eq)]
pub enum SurfaceScissor {
    /// Only pixels within the box can be modified by drawing.
    Enable { position: (i32, i32), size: (u32, u32) },
    /// Every pixel can be modified.
    Disable,
}

/// The viewport of a surface.
#[derive(Debug, Clone, Copy, PartialEq, Eq)]
pub struct SurfaceViewport {
    pub position: (i32, i32),
    pub size: (u32, u32),
}

// ---------------------------------------------------------------- shaders

/// An attribute that a shader reads from each vertex.
#[derive(Debug, Clone, Copy, PartialEq, Eq, Structural)]
pub struct ShaderAttribute {
    pub name: VertexAttribute,
    /// The number of components read.
    pub size: u8,
}

/// The type of a uniform variable.
#[derive(Debug, Clone, Copy, PartialEq, Eq, Structural)]
pub enum UniformVariableType {
    Texture,
    RenderTexture,
    I32,
    F32,
    Vector2f,
    Vector3f,
    Vector4f,
    Matrix2f,
    Matrix3f,
    Matrix4f,
}

/// A uniform variable that a shader declares.
#[derive(Debug)]
pub struct UniformVariable {
    pub name: String,
    pub variable_type: UniformVariableType,
}

impl Clone for UniformVariable {
    fn clone(&self) -> (r: Self)
        ensures
            r == *self,
    {
        UniformVariable { name: self.name.clone(), variable_type: self.variable_type }
    }
}

/// Which faces are culled.
#[derive(Debug, Clone, Copy, PartialEq, Eq, Structural)]
pub enum CullFace {
    Nothing,
    Front,
    Back,
}

/// A depth comparison.
#[derive(Debug, Clone, Copy, PartialEq, Eq, Structural)]
pub enum Comparison {
    Never,
    Less,
    LessOrEqual,
    Greater,
    GreaterOrEqual,
    Equal,
    NotEqual,
    Always,
}

/// The fixed-function state that a shader draws with.
#[derive(Debug, Clone, Copy, PartialEq, Eq)]
pub struct RenderState {
    pub cull_face: CullFace,
    pub depth_test: Comparison,
    pub depth_write: bool,
    /// Whether red, green, blue and alpha are written.
    pub color_write: (bool, bool, bool, bool),
}

/// The parameters of a shader: the vertex attributes it reads, the uniforms
/// it declares, and its render state.
#[derive(Debug)]
pub struct ShaderParams {
    pub attributes: Vec<ShaderAttribute>,
    pub uniforms: Vec<UniformVariable>,
    pub render_state: RenderState,
}

/// The value of a `ShaderParams`.
pub struct ShaderParamsView {
    pub attributes: Seq<ShaderAttribute>,
    pub uniforms: Seq<UniformVariable>,
    pub render_state: RenderState,
}

impl View for ShaderParams {
    type V = ShaderParamsView;

    open spec fn view(&self) -> ShaderParamsView {
        ShaderParamsView {
            attributes: self.attributes@,
            uniforms: self.uniforms@,
            render_state: self.render_state,
        }
    }
}

impl Clone for ShaderParams {
    fn clone(&self) -> (r: Self)
        ensures
            r@ == self@,
    {
        let attributes = self.attributes.clone();
        let uniforms = self.uniforms.clone();
        assert(attributes@ =~= self.attributes@);
        assert(uniforms@ =~= self.uniforms@);
        ShaderParams { attributes, uniforms, render_state: self.render_state }
    }
}

/// Whether the text `name` occurs in the source `src`.
pub open spec fn referenced(src: Seq<char>, name: Seq<char>) -> bool {
    occurs_in(encode_utf8(src), encode_utf8(name))
}

/// Every attribute has one to four components.
pub open spec fn attribute_sizes_ok(a: Seq<ShaderAttribute>) -> bool {
    forall|i: int| 0 <= i < a.len() ==> 1 <= #[trigger] a[i].size <= 4
}

/// No two attributes have the same name.
pub open spec fn attributes_distinct(a: Seq<ShaderAttribute>) -> bool {
    forall|i: int, j: int| 0 <= i < j < a.len() ==> #[trigger] a[i].name != #[trigger] a[j].name
}

/// Every attribute is named in the vertex source `vs`.
pub open spec fn attributes_referenced(a: Seq<ShaderAttribute>, vs: Seq<char>) -> bool {
    forall|i: int| 0 <= i < a.len() ==> referenced(vs, attribute_name(#[trigger] a[i].name))
}

/// Every uniform has a non-empty name.
pub open spec fn uniform_names_nonempty(u: Seq<UniformVariable>) -> bool {
    forall|i: int| 0 <= i < u.len() ==> (#[trigger] u[i]).name@.len() != 0
}

/// No two uniforms have the same name.
pub open spec fn uniforms_distinct(u: Seq<UniformVariable>) -> bool {
    forall|i: int, j: int| 0 <= i < j < u.len() ==> (#[trigger] u[i]).name@ != (#[trigger] u[j]).name@
}

/// Every uniform is named in `vs` or in `fs`.
pub open spec fn uniforms_referenced(u: Seq<UniformVariable>, vs: Seq<char>, fs: Seq<char>) -> bool {
    forall|i: int| 0 <= i < u.len() ==> referenced(vs, (#[trigger] u[i]).name@) || referenced(fs, u[i].name@)
}

/// The first structural rule, in the order listed, that a shader with
/// parameters `p` and sources `vs` and `fs` breaks, if any.
pub open spec fn shader_check(p: ShaderParamsView, vs: Seq<char>, fs: Seq<char>) -> Result<(), Invalid> {
    if vs.len() == 0 || fs.len() == 0 {
        Err(Invalid::EmptySource)
    } else if p.attributes.len() > MAX_ATTRIBUTES {
        Err(Invalid::TooManyAttributes)
    } else if !attribute_sizes_ok(p.attributes) {
        Err(Invalid::AttributeSize)
    } else if !attributes_distinct(p.attributes) {
        Err(Invalid::DuplicateAttribute)
    } else if !attributes_referenced(p.attributes, vs) {
        Err(Invalid::AttributeNotReferenced)
    } else if !uniform_names_nonempty(p.uniforms) {
        Err(Invalid::EmptyUniformName)
    } else if !uniforms_distinct(p.uniforms) {
        Err(Invalid::DuplicateUniform)
    } else if !uniforms_referenced(p.uniforms, vs, fs) {
        Err(Invalid::UniformNotReferenced)
    } else {
        Ok(())
    }
}

fn check_attribute_sizes(a: &Vec<ShaderAttribute>) -> (r: bool)
    ensures
        r == attribute_sizes_ok(a@),
{
    let mut i: usize = 0;
    while i < a.len()
        invariant
            0 <= i <= a@.len(),
            forall|k: int| 0 <= k < i ==> 1 <= #[trigger] a@[k].size <= 4,
        decreases a@.len() - i,
    {
        if a[i].size < 1 || a[i].size > 4 {
            return false;
        }
        i = i + 1;
    }
    true
}

fn check_attributes_distinct(a: &Vec<ShaderAttribute>) -> (r: bool)
    ensures
        r == attributes_distinct(a@),
{
    let mut i: usize = 0;
    while i < a.len()
        invariant
            0 <= i <= a@.len(),
            forall|k: int, j: int| 0 <= k < j < a@.len() && k < i ==> #[trigger] a@[k].name != #[trigger] a@[j].name,
        decreases a@.len() - i,
    {
        let mut j: usize = i + 1;
        while j < a.len()
            invariant
                0 <= i < a@.len(),
                i + 1 <= j <= a@.len(),
                forall|k: int, l: int| 0 <= k < l < a@.len() && k < i ==> #[trigger] a@[k].name != #[trigger] a@[l].name,
                forall|l: int| i < l < j ==> a@[i as int].name != #[trigger] a@[l].name,
            decreases a@.len() - j,
        {
            if a[i].name == a[j].name {
                return false;
            }
            j = j + 1;
        }
        i = i + 1;
    }
    true
}

fn check_attributes_referenced(a: &Vec<ShaderAttribute>, vs: &str) -> (r: bool)
    ensures
        r == attributes_referenced(a@, vs@),
{
    let mut i: usize = 0;
    while i < a.len()
        invariant
            0 <= i <= a@.len(),
            forall|k: int| 0 <= k < i ==> referenced(vs@, attribute_name(#[trigger] a@[k].name)),
        decreases a@.len() - i,
    {
        if !str_occurs(vs, a[i].name.name()) {
            return false;
        }
        i = i + 1;
    }
    true
}

fn check_uniform_names(u: &Vec<UniformVariable>) -> (r: bool)
    ensures
        r == uniform_names_nonempty(u@),
{
    let mut i: usize = 0;
    while i < u.len()
        invariant
            0 <= i <= u@.len(),
            forall|k: int| 0 <= k < i ==> (#[trigger] u@[k]).name@.len() != 0,
        decreases u@.len() - i,
    {
        if u[i].name.as_str().is_empty() {
            return false;
        }
        i = i + 1;
    }
    true
}

fn check_uniforms_distinct(u: &Vec<UniformVariable>) -> (r: bool)
    ensures
        r == uniforms_distinct(u@),
{
    let mut i: usize = 0;
    while i < u.len()
        invariant
            0 <= i <= u@.len(),
            forall|k: int, j: int| 0 <= k < j < u@.len() && k < i ==> (#[trigger] u@[k]).name@ != (#[trigger] u@[j]).name@,
        decreases u@.len() - i,
    {
        let mut j: usize = i + 1;
        while j < u.len()
            invariant
                0 <= i < u@.len(),
                i + 1 <= j <= u@.len(),
                forall|k: int, l: int| 0 <= k < l < u@.len() && k < i ==> (#[trigger] u@[k]).name@ != (#[trigger] u@[l]).name@,
                forall|l: int| i < l < j ==> u@[i as int].name@ != (#[trigger] u@[l]).name@,
            decreases u@.len() - j,
        {
            if str_equal(u[i].name.as_str(), u[j].name.as_str()) {
                return false;
            }
            j = j + 1;
        }
        i = i + 1;
    }
    true
}

fn check_uniforms_referenced(u: &Vec<UniformVariable>, vs: &str, fs: &str) -> (r: bool)
    ensures
        r == uniforms_referenced(u@, vs@, fs@),
{
    let mut i: usize = 0;
    while i < u.len()
        invariant
            0 <= i <= u@.len(),
            forall|k: int| 0 <= k < i ==> referenced(vs@, (#[trigger] u@[k]).name@) || referenced(fs@, u@[k].name@),
        decreases u@.len() - i,
    {
        let name = u[i].name.as_str();
        if !str_occurs(vs, name) && !str_occurs(fs, name) {
            return false;
        }
        i = i + 1;
    }
    true
}

impl ShaderParams {
    /// Checks the parameters against the sources `vs` and `fs`: both sources
    /// are non-empty; the attributes fit in a vertex, have one to four
    /// components, are distinct and are each named in `vs`; the uniforms have
    /// distinct non-empty names, each named in `vs` or `fs`.
    pub fn validate(&self, vs: &str, fs: &str) -> (r: Result<(), Invalid>)
        ensures
            r == shader_check(self@, vs@, fs@),
    {
        if vs.is_empty() || fs.is_empty() {
            Err(Invalid::EmptySource)
        } else if self.attributes.len() > MAX_ATTRIBUTES {
            Err(Invalid::TooManyAttributes)
        } else if !check_attribute_sizes(&self.attributes) {
            Err(Invalid::AttributeSize)
        } else if !check_attributes_distinct(&self.attributes) {
            Err(Invalid::DuplicateAttribute)
        } else if !check_attributes_referenced(&self.attributes, vs) {
            Err(Invalid::AttributeNotReferenced)
        } else if !check_uniform_names(&self.uniforms) {
            Err(Invalid::EmptyUniformName)
        } else if !check_uniforms_distinct(&self.uniforms) {
            Err(Invalid::DuplicateUniform)
        } else if !check_uniforms_referenced(&self.uniforms, vs, fs) {
            Err(Invalid::UniformNotReferenced)
        } else {
            Ok(())
        }
    }
}

// ---------------------------------------------------------------- meshes

/// How the indices of a mesh assemble into primitives.
#[derive(Debug, Clone, Copy, PartialEq, Eq, Structural)]
pub enum MeshPrimitive {
    Points,
    Lines,
    LineStrip,
    Triangles,
    TriangleStrip,
}

/// Which indices of a mesh a draw call uses.
#[derive(Debug, Clone, Copy, PartialEq, Eq, Structural)]
pub enum MeshIndex {
    /// `len` indices starting at index `from`.
    Ptr(usize, usize),
    /// The indices of one sub-mesh.
    SubMesh(usize),
    /// Every index.
    All,
}

/// The parameters of a mesh.
#[derive(Debug)]
pub struct MeshParams {
    pub hint: BufferHint,
    pub layout: VertexLayout,
    pub index_format: IndexFormat,
    pub primitive: MeshPrimitive,
    pub num_verts: usize,
    pub num_idxes: usize,
    /// The index at which each sub-mesh starts.
    pub sub_mesh_offsets: Vec<usize>,
    pub aabb: BoundingBox,
}

/// The value of a `MeshParams`.
pub struct MeshParamsView {
    pub hint: BufferHint,
    pub layout: VertexLayout,
    pub index_format: IndexFormat,
    pub primitive: MeshPrimitive,
    pub num_verts: usize,
    pub num_idxes: usize,
    pub sub_mesh_offsets: Seq<usize>,
    pub aabb: BoundingBox,
}

impl View for MeshParams {
    type V = MeshParamsView;

    open spec fn view(&self) -> MeshParamsView {
        MeshParamsView {
            hint: self.hint,
            layout: self.layout,
            index_format: self.index_format,
            primitive: self.primitive,
            num_verts: self.num_verts,
            num_idxes: self.num_idxes,
            sub_mesh_offsets: self.sub_mesh_offsets@,
            aabb: self.aabb,
        }
    }
}

impl Clone for MeshParams {
    fn clone(&self) -> (r: Self)
        ensures
            r@ == self@,
    {
        let sub_mesh_offsets = self.sub_mesh_offsets.clone();
        assert(sub_mesh_offsets@ =~= self.sub_mesh_offsets@);
        MeshParams {
            hint: self.hint,
            layout: self.layout,
            index_format: self.index_format,
            primitive: self.primitive,
            num_verts: self.num_verts,
            num_idxes: self.num_idxes,
            sub_mesh_offsets,
            aabb: self.aabb,
        }
    }
}

/// The encoded vertices and indices of a mesh.
#[derive(Debug)]
pub struct MeshData {
    pub vptr: Vec<u8>,
    pub iptr: Vec<u8>,
}

/// The sub-mesh offsets never decrease and each is below the index count.
pub open spec fn sub_mesh_offsets_ok(p: MeshParamsView) -> bool {
    &&& forall|i: int| 0 <= i < p.sub_mesh_offsets.len() ==> #[trigger] p.sub_mesh_offsets[i] < p.num_idxes
    &&& forall|i: int| 0 < i < p.sub_mesh_offsets.len() ==> p.sub_mesh_offsets[i - 1] <= #[trigger] p.sub_mesh_offsets[i]
}

/// The first structural rule that a mesh with parameters `p` and data
/// `data` breaks, if any. The vertex bytes must be exactly the vertex count
/// times the stride, the index bytes exactly the index count times the index
/// width.
pub open spec fn mesh_check(p: MeshParamsView, data: Option<MeshData>) -> Result<(), Invalid> {
    if !sub_mesh_offsets_ok(p) {
        Err(Invalid::SubMeshOffsets)
    } else {
        match data {
            Some(d) => if d.vptr@.len() != p.num_verts * p.layout.spec_stride() {
                Err(Invalid::VertexData)
            } else if d.iptr@.len() != p.num_idxes * index_width(p.index_format) {
                Err(Invalid::IndexData)
            } else {
                Ok(())
            },
            None => Ok(()),
        }
    }
}

/// Whether `len` is exactly `count * width`, without overflowing.
fn is_product(len: usize, count: usize, width: usize) -> (r: bool)
    ensures
        r == (len == count * width),
{
    match count.checked_mul(width) {
        Some(n) => n == len,
        None => {
            assert(count * width > usize::MAX);
            false
        },
    }
}

impl MeshParams {
    /// Checks the parameters, and the data if any: see `mesh_check`.
    pub fn validate(&self, data: Option<&MeshData>) -> (r: Result<(), Invalid>)
        ensures
            r == mesh_check(self@, match data { Some(d) => Some(*d), None => None }),
    {
        let offsets = &self.sub_mesh_offsets;
        let mut i: usize = 0;
        while i < offsets.len()
            invariant
                0 <= i <= offsets@.len(),
                offsets@ == self.sub_mesh_offsets@,
                forall|k: int| 0 <= k < i ==> #[trigger] offsets@[k] < self.num_idxes,
                forall|k: int| 0 < k < i ==> offsets@[k - 1] <= #[trigger] offsets@[k],
            decreases offsets@.len() - i,
        {
            if offsets[i] >= self.num_idxes || (i > 0 && offsets[i - 1] > offsets[i]) {
                assert(!sub_mesh_offsets_ok(self@)) by {
                    if offsets@[i as int] >= self.num_idxes {
                        assert(self@.sub_mesh_offsets[i as int] >= self.num_idxes);
                    } else {
                        assert(self@.sub_mesh_offsets[i - 1] > self@.sub_mesh_offsets[i as int]);
                    }
                }
                return Err(Invalid::SubMeshOffsets);
            }
            i = i + 1;
        }
        match data {
            Some(d) => {
                if !is_product(d.vptr.len(), self.num_verts, self.layout.stride() as usize) {
                    Err(Invalid::VertexData)
                } else if !is_product(d.iptr.len(), self.num_idxes, self.index_format.size()) {
                    Err(Invalid::IndexData)
                } else {
                    Ok(())
                }
            },
            None => Ok(()),
        }
    }
}

// ---------------------------------------------------------------- textures

/// The pixel format of a texture.
#[derive(Debug, Clone, Copy, PartialEq, Eq, Structural)]
pub enum TextureFormat {
    R8,
    RG8,
    RGB8,
    RGBA8,
    RGB565,
    RGBA4,
    RGBA5551,
    RGBA16F,
    RGBA32F,
}

/// The width in bytes of one pixel of format `f`.
pub open spec fn pixel_width(f: TextureFormat) -> nat {
    match f {
        TextureFormat::R8 => 1,
        TextureFormat::RG8 => 2,
        TextureFormat::RGB8 => 3,
        TextureFormat::RGBA8 => 4,
        TextureFormat::RGB565 => 2,
        TextureFormat::RGBA4 => 2,
        TextureFormat::RGBA5551 => 2,
        TextureFormat::RGBA16F => 8,
        TextureFormat::RGBA32F => 16,
    }
}

impl TextureFormat {
    /// The width in bytes of one pixel.
    pub fn size(&self) -> (r: usize)
        ensures
            r == pixel_width(*self),
    {
        match self {
            TextureFormat::R8 => 1,
            TextureFormat::RG8 => 2,
            TextureFormat::RGB8 => 3,
            TextureFormat::RGBA8 => 4,
            TextureFormat::RGB565 => 2,
            TextureFormat::RGBA4 => 2,
            TextureFormat::RGBA5551 => 2,
            TextureFormat::RGBA16F => 8,
            TextureFormat::RGBA32F => 16,
        }
    }
}

/// How a texture is sampled between texels.
#[derive(Debug, Clone, Copy, PartialEq, Eq, Structural)]
pub enum TextureFilter {
    Nearest,
    Linear,
}

/// How a texture is sampled outside its edges.
#[derive(Debug, Clone, Copy, PartialEq, Eq, Structural)]
pub enum TextureWrap {
    Repeat,
    ClampToEdge,
    MirroredRepeat,
}

/// The parameters of a texture.
#[derive(Debug, Clone, Copy, PartialEq, Eq)]
pub struct TextureParams {
    pub hint: BufferHint,
    pub format: TextureFormat,
    pub filter: TextureFilter,
    pub wrap: TextureWrap,
    pub mipmap: bool,
    /// Width and height in texels.
    pub dimensions: (u32, u32),
}

/// The texels of a texture, row after row.
#[derive(Debug)]
pub struct TextureData {
    pub bytes: Vec<u8>,
}

/// The first structural rule that a texture with parameters `p` and data
/// `data` breaks, if any: both dimensions are positive, and the bytes are
/// exactly the texel count times the pixel width.
pub open spec fn texture_check(p: TextureParams, data: Option<TextureData>) -> Result<(), Invalid> {
    if p.dimensions.0 == 0 || p.dimensions.1 == 0 {
        Err(Invalid::TextureDimensions)
    } else {
        match data {
            Some(d) => if d.bytes@.len() != p.dimensions.0 * p.dimensions.1 * pixel_width(p.format) {
                Err(Invalid::TextureData)
            } else {
                Ok(())
            },
            None => Ok(()),
        }
    }
}

impl TextureParams {
    /// Checks the parameters, and the data if any: see `texture_check`.
    pub fn validate(&self, data: Option<&TextureData>) -> (r: Result<(), Invalid>)
        ensures
            r == texture_check(*self, match data { Some(d) => Some(*d), None => None }),
    {
        if self.dimensions.0 == 0 || self.dimensions.1 == 0 {
            return Err(Invalid::TextureDimensions);
        }
        match data {
            Some(d) => {
                let n = d.bytes.len();
                let w = self.dimensions.0 as usize;
                let h = self.dimensions.1 as usize;
                let ok = match w.checked_mul(h) {
                    Some(texels) => {
                        assert(texels == self.dimensions.0 * self.dimensions.1);
                        is_product(d.bytes.len(), texels, self.format.size())
                    },
                    None => {
                        assert(w * h * pixel_width(self.format) > usize::MAX) by (nonlinear_arith)
                            requires
                                w * h > usize::MAX,
                                pixel_width(self.format) >= 1,
                        ;
                        assert(d.bytes@.len() == n);
                        false
                    },
                };
                assert(ok == (d.bytes@.len() == self.dimensions.0 * self.dimensions.1 * pixel_width(self.format)));
                if ok {
                    Ok(())
                } else {
                    Err(Invalid::TextureData)
                }
            },
            None => Ok(()),
        }
    }
}

/// A rectangle of texels, from `min` included to `max` excluded.
#[derive(Debug, Clone, Copy, PartialEq, Eq)]
pub struct TextureRegion {
    pub min: (u32, u32),
    pub max: (u32, u32),
}

// ---------------------------------------------------------------- render textures

/// The format of a render texture.
#[derive(Debug, Clone, Copy, PartialEq, Eq, Structural)]
pub enum RenderTextureFormat {
    RGB8,
    RGBA4,
    RGBA8,
    Depth16,
    Depth24,
    Depth32,
    Depth24Stencil8,
}

/// The parameters of a render texture.
#[derive(Debug, Clone, Copy, PartialEq, Eq)]
pub struct RenderTextureParams {
    pub format: RenderTextureFormat,
    pub dimensions: (u32, u32),
    /// Whether shaders can sample the render texture.
    pub sampler: bool,
}

} // verus!
