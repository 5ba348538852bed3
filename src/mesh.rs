//! Immutable or dynamic vertex and index data: buffer setups, index and vertex
//! formats, and the layout of a single vertex.

use vstd::prelude::*;

use crate::text::str_equal;

verus! {

/// The largest number of attributes a vertex layout holds.
pub const MAX_ATTRIBUTES: usize = 12;

/// Hint about the intended update strategy of the data.
#[derive(Debug, PartialEq, Eq, Clone, Copy, Structural)]
pub enum BufferHint {
    /// Initialized with data and never changed later: the most common and
    /// most efficient usage.
    Immutable,
    /// Initialized without data, and updated by the CPU in each frame.
    Stream,
    /// Initialized without data and written by the CPU before use; updates
    /// are infrequent.
    Dynamic,
}

/// Vertex indices are either 16- or 32-bit wide.
#[derive(Debug, PartialEq, Eq, Clone, Copy, Structural)]
pub enum IndexFormat {
    U16,
    U32,
}

/// The width in bytes of one index of format `f`.
pub open spec fn index_width(f: IndexFormat) -> nat {
    match f {
        IndexFormat::U16 => 2,
        IndexFormat::U32 => 4,
    }
}

impl IndexFormat {
    /// The width in bytes of one index.
    pub fn size(&self) -> (r: usize)
        ensures
            r == index_width(*self),
    {
        match self {
            IndexFormat::U16 => 2,
            IndexFormat::U32 => 4,
        }
    }
}

/// The setup of an index buffer.
#[derive(Debug, Copy, Clone)]
pub struct IndexBufferSetup {
    /// Usage hint.
    pub hint: BufferHint,
    /// The number of indices in this buffer.
    pub num: usize,
    /// The format of each index.
    pub format: IndexFormat,
}

impl IndexBufferSetup {
    /// The size of the buffer in bytes.
    pub fn len(&self) -> (r: usize)
        requires
            self.num * index_width(self.format) <= usize::MAX,
        ensures
            r == self.num * index_width(self.format),
    {
        self.num * self.format.size()
    }
}

/// The setup of a vertex buffer.
#[derive(Debug, Copy, Clone)]
pub struct VertexBufferSetup {
    /// Usage hint.
    pub hint: BufferHint,
    /// The layout of each vertex.
    pub layout: VertexLayout,
    /// The number of vertices in this buffer.
    pub num: usize,
}

impl VertexBufferSetup {
    /// The size of the buffer in bytes.
    pub fn len(&self) -> (r: usize)
        requires
            self.num * self.layout.spec_stride() <= usize::MAX,
        ensures
            r == self.num * self.layout.spec_stride(),
    {
        self.num * self.layout.stride() as usize
    }
}

impl Default for VertexBufferSetup {
    fn default() -> (r: Self)
        ensures
            r.hint == BufferHint::Immutable,
            r.layout.wf(),
            r.layout.descs() == Seq::<VertexAttributeDesc>::empty(),
            r.layout.spec_stride() == 0,
            r.num == 0,
    {
        VertexBufferSetup { hint: BufferHint::Immutable, layout: VertexLayout::default(), num: 0 }
    }
}

/// The data type of one component of a vertex attribute.
#[derive(Debug, PartialEq, Eq, Clone, Copy, Structural)]
pub enum VertexFormat {
    Byte,
    UByte,
    Short,
    UShort,
    Float,
}

/// The width in bytes of one component of format `f`.
pub open spec fn component_width(f: VertexFormat) -> nat {
    match f {
        VertexFormat::Byte | VertexFormat::UByte => 1,
        VertexFormat::Short | VertexFormat::UShort => 2,
        VertexFormat::Float => 4,
    }
}

fn size_of_vertex(format: VertexFormat) -> (r: u8)
    ensures
        r == component_width(format),
{
    match format {
        VertexFormat::Byte | VertexFormat::UByte => 1,
        VertexFormat::Short | VertexFormat::UShort => 2,
        VertexFormat::Float => 4,
    }
}

/// The pre-defined and named attributes of a vertex, describing what each
/// component is used for.
#[derive(Debug, PartialEq, Eq, Clone, Copy, Structural)]
pub enum VertexAttribute {
    Position,
    Normal,
    Tangent,
    Bitangent,
    Color0,
    Color1,
    Indices,
    Weight,
    Texcoord0,
    Texcoord1,
    Texcoord2,
    Texcoord3,
}

/// The name of attribute `a`, as shader sources refer to it.
pub open spec fn attribute_name(a: VertexAttribute) -> Seq<char> {
    match a {
        VertexAttribute::Position => "Position"@,
        VertexAttribute::Normal => "Normal"@,
        VertexAttribute::Tangent => "Tangent"@,
        VertexAttribute::Bitangent => "Bitangent"@,
        VertexAttribute::Color0 => "Color0"@,
        VertexAttribute::Color1 => "Color1"@,
        VertexAttribute::Indices => "Indices"@,
        VertexAttribute::Weight => "Weight"@,
        VertexAttribute::Texcoord0 => "Texcoord0"@,
        VertexAttribute::Texcoord1 => "Texcoord1"@,
        VertexAttribute::Texcoord2 => "Texcoord2"@,
        VertexAttribute::Texcoord3 => "Texcoord3"@,
    }
}

/// Every attribute, in declaration order.
pub open spec fn all_attributes() -> Seq<VertexAttribute> {
    seq![
        VertexAttribute::Position,
        VertexAttribute::Normal,
        VertexAttribute::Tangent,
        VertexAttribute::Bitangent,
        VertexAttribute::Color0,
        VertexAttribute::Color1,
        VertexAttribute::Indices,
        VertexAttribute::Weight,
        VertexAttribute::Texcoord0,
        VertexAttribute::Texcoord1,
        VertexAttribute::Texcoord2,
        VertexAttribute::Texcoord3,
    ]
}

impl VertexAttribute {
    /// The name of this attribute.
    pub fn name(self) -> (r: &'static str)
        ensures
            r@ == attribute_name(self),
    {
        match self {
            VertexAttribute::Position => "Position",
            VertexAttribute::Normal => "Normal",
            VertexAttribute::Tangent => "Tangent",
            VertexAttribute::Bitangent => "Bitangent",
            VertexAttribute::Color0 => "Color0",
            VertexAttribute::Color1 => "Color1",
            VertexAttribute::Indices => "Indices",
            VertexAttribute::Weight => "Weight",
            VertexAttribute::Texcoord0 => "Texcoord0",
            VertexAttribute::Texcoord1 => "Texcoord1",
            VertexAttribute::Texcoord2 => "Texcoord2",
            VertexAttribute::Texcoord3 => "Texcoord3",
        }
    }

    /// The attribute named `v`: the first in declaration order whose name is
    /// `v`, or `None` when no attribute has that name.
    pub fn from_str(v: &str) -> (r: Option<VertexAttribute>)
        ensures
            match r {
                Some(a) => exists|k: int|
                    0 <= k < 12 && all_attributes()[k] == a && attribute_name(a) == v@
                        && forall|j: int| 0 <= j < k ==> attribute_name(#[trigger] all_attributes()[j]) != v@,
                None => forall|k: int| 0 <= k < 12 ==> attribute_name(#[trigger] all_attributes()[k]) != v@,
            },
    {
        let attributes = [
            VertexAttribute::Position,
            VertexAttribute::Normal,
            VertexAttribute::Tangent,
            VertexAttribute::Bitangent,
            VertexAttribute::Color0,
            VertexAttribute::Color1,
            VertexAttribute::Indices,
            VertexAttribute::Weight,
            VertexAttribute::Texcoord0,
            VertexAttribute::Texcoord1,
            VertexAttribute::Texcoord2,
            VertexAttribute::Texcoord3,
        ];
        assert(attributes@ == all_attributes());
        let mut i: usize = 0;
        while i < 12
            invariant
                0 <= i <= 12,
                attributes@ == all_attributes(),
                forall|j: int| 0 <= j < i ==> attribute_name(#[trigger] all_attributes()[j]) != v@,
            decreases 12 - i,
        {
            let at = attributes[i];
            if str_equal(v, at.name()) {
                return Some(at);
            }
            i = i + 1;
        }
        None
    }
}

/// The details of a vertex attribute.
#[derive(Debug, PartialEq, Eq, Clone, Copy, Structural)]
pub struct VertexAttributeDesc {
    /// The attribute described.
    pub name: VertexAttribute,
    /// The data type of each component.
    pub format: VertexFormat,
    /// The number of components.
    pub size: u8,
    /// Whether fixed-point values are normalized.
    pub normalized: bool,
}

impl Default for VertexAttributeDesc {
    fn default() -> (r: Self)
        ensures
            r == (VertexAttributeDesc {
                name: VertexAttribute::Position,
                format: VertexFormat::Byte,
                size: 0,
                normalized: false,
            }),
    {
        VertexAttributeDesc {
            name: VertexAttribute::Position,
            format: VertexFormat::Byte,
            size: 0,
            normalized: false,
        }
    }
}

/// The number of bytes that attribute `d` takes in a vertex.
pub open spec fn desc_bytes(d: VertexAttributeDesc) -> nat {
    d.size as nat * component_width(d.format)
}

/// The number of bytes that the first `n` attributes of `descs` take.
pub open spec fn bytes_before(descs: Seq<VertexAttributeDesc>, n: int) -> nat
    decreases n,
{
    if n <= 0 {
        0
    } else {
        bytes_before(descs, n - 1) + desc_bytes(descs[n - 1])
    }
}

/// Whether no two attributes of `descs` have the same name.
pub open spec fn names_unique(descs: Seq<VertexAttributeDesc>) -> bool {
    forall|i: int, j: int| 0 <= i < descs.len() && 0 <= j < descs.len() && i != j
        ==> #[trigger] descs[i].name != #[trigger] descs[j].name
}

/// Whether `i` is the first position in `descs` of the attribute called `name`.
pub open spec fn first_named(descs: Seq<VertexAttributeDesc>, name: VertexAttribute, i: int) -> bool {
    &&& 0 <= i < descs.len()
    &&& descs[i].name == name
    &&& forall|j: int| 0 <= j < i ==> #[trigger] descs[j].name != name
}

/// Whether some attribute of `descs` is called `name`.
pub open spec fn has_attribute(descs: Seq<VertexAttributeDesc>, name: VertexAttribute) -> bool {
    exists|i: int| 0 <= i < descs.len() && #[trigger] descs[i].name == name
}

/// `descs` after declaring `desc`: an attribute of the same name is replaced
/// in place, otherwise `desc` is appended.
pub open spec fn with_attribute(descs: Seq<VertexAttributeDesc>, desc: VertexAttributeDesc) -> Seq<VertexAttributeDesc> {
    if has_attribute(descs, desc.name) {
        let i = choose|i: int| 0 <= i < descs.len() && #[trigger] descs[i].name == desc.name;
        descs.update(i, desc)
    } else {
        descs.push(desc)
    }
}

/// `VertexLayout` defines what a single vertex looks like: a list of
/// attributes, each with its format and its byte offset in the vertex, and the
/// stride from one vertex to the next.
#[derive(Debug, PartialEq, Eq, Clone, Copy)]
pub struct VertexLayout {
    stride: u8,
    len: u8,
    offset: [u8; MAX_ATTRIBUTES],
    elements: [VertexAttributeDesc; MAX_ATTRIBUTES],
}

impl Default for VertexLayout {
    fn default() -> (r: Self)
        ensures
            r.wf(),
            r.descs() == Seq::<VertexAttributeDesc>::empty(),
            r.offsets() == Seq::<u8>::empty(),
            r.spec_stride() == 0,
    {
        let d = VertexAttributeDesc::default();
        let r = VertexLayout {
            stride: 0,
            len: 0,
            offset: [0, 0, 0, 0, 0, 0, 0, 0, 0, 0, 0, 0],
            elements: [d, d, d, d, d, d, d, d, d, d, d, d],
        };
        assert(r.descs() =~= Seq::<VertexAttributeDesc>::empty());
        assert(r.offsets() =~= Seq::<u8>::empty());
        r
    }
}

impl VertexLayout {
    /// The attributes of the layout, in the order they were declared.
    pub closed spec fn descs(&self) -> Seq<VertexAttributeDesc> {
        self.elements@.take(self.len as int)
    }

    /// The byte offset of each attribute, in the order of `descs`.
    pub closed spec fn offsets(&self) -> Seq<u8> {
        self.offset@.take(self.len as int)
    }

    /// The stride of a single vertex.
    pub closed spec fn spec_stride(&self) -> u8 {
        self.stride
    }

    /// The layout's internal invariant.
    pub closed spec fn wf(&self) -> bool {
        self.len as usize <= MAX_ATTRIBUTES
    }

    /// Creates an empty `VertexLayoutBuilder`.
    pub fn build() -> (r: VertexLayoutBuilder)
        ensures
            r.wf(),
            r.descs() == Seq::<VertexAttributeDesc>::empty(),
    {
        VertexLayoutBuilder::new()
    }

    /// The stride of a single vertex.
    pub fn stride(&self) -> (r: u8)
        ensures
            r == self.spec_stride(),
    {
        self.stride
    }

    /// The number of attributes in the layout.
    pub fn len(&self) -> (r: u8)
        requires
            self.wf(),
        ensures
            r == self.descs().len(),
    {
        self.len
    }

    /// The byte offset of the attribute called `name` in a vertex, or `None`
    /// when the layout has no such attribute.
    pub fn offset(&self, name: VertexAttribute) -> (r: Option<u8>)
        requires
            self.wf(),
        ensures
            match r {
                Some(o) => exists|i: int| first_named(self.descs(), name, i) && self.offsets()[i] == o,
                None => !has_attribute(self.descs(), name),
            },
    {
        let mut i: usize = 0;
        while i < self.len as usize
            invariant
                self.wf(),
                0 <= i <= self.len,
                forall|j: int| 0 <= j < i ==> #[trigger] self.descs()[j].name != name,
            decreases self.len - i,
        {
            if self.elements[i].name == name {
                assert(self.descs()[i as int] == self.elements@[i as int]);
                assert(self.offsets()[i as int] == self.offset@[i as int]);
                assert(first_named(self.descs(), name, i as int));
                return Some(self.offset[i]);
            }
            i = i + 1;
        }
        None
    }

    /// The description of the attribute called `name`, or `None` when the
    /// layout has no such attribute.
    pub fn element(&self, name: VertexAttribute) -> (r: Option<VertexAttributeDesc>)
        requires
            self.wf(),
        ensures
            match r {
                Some(d) => exists|i: int| first_named(self.descs(), name, i) && self.descs()[i] == d,
                None => !has_attribute(self.descs(), name),
            },
    {
        let mut i: usize = 0;
        while i < self.len as usize
            invariant
                self.wf(),
                0 <= i <= self.len,
                forall|j: int| 0 <= j < i ==> #[trigger] self.descs()[j].name != name,
            decreases self.len - i,
        {
            if self.elements[i].name == name {
                assert(self.descs()[i as int] == self.elements@[i as int]);
                assert(first_named(self.descs(), name, i as int));
                return Some(self.elements[i]);
            }
            i = i + 1;
        }
        None
    }
}

/// Whether every attribute of `descs` has between one and four components.
pub open spec fn sizes_in_range(descs: Seq<VertexAttributeDesc>) -> bool {
    forall|i: int| 0 <= i < descs.len() ==> 1 <= #[trigger] descs[i].size <= 4
}

proof fn lemma_bytes_before_bound(descs: Seq<VertexAttributeDesc>, n: int)
    requires
        0 <= n <= descs.len(),
        sizes_in_range(descs),
    ensures
        bytes_before(descs, n) <= 16 * n,
    decreases n,
{
    if n > 0 {
        lemma_bytes_before_bound(descs, n - 1);
        let d = descs[n - 1];
        let w = component_width(d.format);
        assert(d.size as nat * w <= 16) by (nonlinear_arith)
            requires
                d.size <= 4,
                w <= 4,
        ;
    }
}

proof fn lemma_with_attribute_existing(descs: Seq<VertexAttributeDesc>, desc: VertexAttributeDesc, i: int)
    requires
        names_unique(descs),
        0 <= i < descs.len(),
        descs[i].name == desc.name,
    ensures
        with_attribute(descs, desc) == descs.update(i, desc),
{
    assert(has_attribute(descs, desc.name));
    let k = choose|k: int| 0 <= k < descs.len() && #[trigger] descs[k].name == desc.name;
    assert(k == i);
}

/// Builds a `VertexLayout` whose attributes are packed one after the other.
pub struct VertexLayoutBuilder(VertexLayout);

impl VertexLayoutBuilder {
    /// The attributes declared so far.
    pub closed spec fn descs(&self) -> Seq<VertexAttributeDesc> {
        self.0.descs()
    }

    /// The builder's internal invariant.
    pub closed spec fn wf(&self) -> bool {
        &&& self.0.wf()
        &&& names_unique(self.descs())
        &&& sizes_in_range(self.descs())
    }

    /// Creates a builder with no attribute.
    pub fn new() -> (r: Self)
        ensures
            r.wf(),
            r.descs() == Seq::<VertexAttributeDesc>::empty(),
    {
        VertexLayoutBuilder(VertexLayout::default())
    }

    /// Declares an attribute; one declared before under the same name is
    /// replaced in place.
    pub fn with(&mut self, attribute: VertexAttribute, format: VertexFormat, size: u8, normalized: bool) -> (r: &mut Self)
        requires
            old(self).wf(),
            0 < size <= 4,
            has_attribute(old(self).descs(), attribute) || old(self).descs().len() < MAX_ATTRIBUTES,
        ensures
            (*r).wf(),
            (*r).descs() == with_attribute(
                old(self).descs(),
                VertexAttributeDesc { name: attribute, format, size, normalized },
            ),
            *final(self) == *final(r),
    {
        let desc = VertexAttributeDesc { name: attribute, format: format, size: size, normalized: normalized };
        let ghost pre = self.descs();
        let mut i: usize = 0;
        while i < self.0.len as usize
            invariant
                self.wf(),
                self.descs() == pre,
                desc == (VertexAttributeDesc { name: attribute, format, size, normalized }),
                pre == old(self).descs(),
                0 < size <= 4,
                0 <= i <= self.0.len,
                forall|j: int| 0 <= j < i ==> #[trigger] pre[j].name != attribute,
            decreases self.0.len - i,
        {
            assert(pre[i as int] == self.0.elements@[i as int]);
            if self.0.elements[i].name == attribute {
                proof {
                    lemma_with_attribute_existing(pre, desc, i as int);
                }
                self.0.elements[i] = desc;
                assert(self.descs() =~= pre.update(i as int, desc));
                assert(names_unique(self.descs())) by {
                    assert forall|a: int, b: int|
                        0 <= a < self.descs().len() && 0 <= b < self.descs().len() && a != b
                            implies #[trigger] self.descs()[a].name != #[trigger] self.descs()[b].name by {
                        assert(pre[a].name != pre[b].name);
                    }
                }
                assert(sizes_in_range(self.descs())) by {
                    assert forall|a: int| 0 <= a < self.descs().len() implies 1 <= #[trigger] self.descs()[a].size <= 4 by {
                        if a != i {
                            assert(self.descs()[a] == pre[a]);
                        }
                    }
                }
                assert(self.wf());
                assert(self.descs() == with_attribute(pre, desc));
                return self;
            }
            i = i + 1;
        }
        let n = self.0.len as usize;
        self.0.elements[n] = desc;
        self.0.len = self.0.len + 1;
        assert(self.descs() =~= pre.push(desc));
        assert(!has_attribute(pre, attribute));
        assert(names_unique(self.descs())) by {
            assert forall|a: int, b: int|
                0 <= a < self.descs().len() && 0 <= b < self.descs().len() && a != b
                    implies #[trigger] self.descs()[a].name != #[trigger] self.descs()[b].name by {
                if a < pre.len() && b < pre.len() {
                    assert(pre[a].name != pre[b].name);
                } else if a < pre.len() {
                    assert(pre[a].name != attribute);
                } else {
                    assert(pre[b].name != attribute);
                }
            }
        }
        self
    }

    /// The layout, with each attribute's offset the sum of the sizes of the
    /// attributes declared before it, and the stride the sum of all.
    pub fn finish(&mut self) -> (r: VertexLayout)
        requires
            old(self).wf(),
        ensures
            r.wf(),
            r.descs() == old(self).descs(),
            r.offsets().len() == r.descs().len(),
            forall|i: int| 0 <= i < r.descs().len() ==> r.offsets()[i] == bytes_before(r.descs(), i),
            r.spec_stride() == bytes_before(r.descs(), r.descs().len() as int),
            final(self).wf(),
            final(self).descs() == old(self).descs(),
    {
        let ghost descs = self.descs();
        self.0.stride = 0;
        let mut i: usize = 0;
        while i < self.0.len as usize
            invariant
                self.wf(),
                self.descs() == descs,
                0 <= i <= self.0.len,
                self.0.stride == bytes_before(descs, i as int),
                forall|j: int| 0 <= j < i ==> self.0.offset@[j] == bytes_before(descs, j),
            decreases self.0.len - i,
        {
            proof {
                lemma_bytes_before_bound(descs, i + 1);
            }
            let e = self.0.elements[i];
            let w = size_of_vertex(e.format);
            assert(e.size * w <= 16) by (nonlinear_arith)
                requires
                    e.size <= 4,
                    w <= 4,
            ;
            let len = e.size * w;
            self.0.offset[i] = self.0.stride;
            self.0.stride = self.0.stride + len;
            i = i + 1;
        }
        self.0
    }
}

/// Builds a `VertexLayout` whose attribute offsets and stride are given by
/// the caller, to match a vertex type of its own.
pub struct CustomVertexLayoutBuilder(VertexLayout);

impl CustomVertexLayoutBuilder {
    /// The attributes declared so far.
    pub closed spec fn descs(&self) -> Seq<VertexAttributeDesc> {
        self.0.descs()
    }

    /// The offsets declared so far, in the order of `descs`.
    pub closed spec fn offsets(&self) -> Seq<u8> {
        self.0.offsets()
    }

    /// The builder's internal invariant.
    pub closed spec fn wf(&self) -> bool {
        &&& self.0.wf()
        &&& names_unique(self.descs())
        &&& sizes_in_range(self.descs())
    }

    /// Creates a builder with no attribute.
    pub fn new() -> (r: Self)
        ensures
            r.wf(),
            r.descs() == Seq::<VertexAttributeDesc>::empty(),
            r.offsets() == Seq::<u8>::empty(),
    {
        CustomVertexLayoutBuilder(VertexLayout::default())
    }

    /// Declares an attribute at byte offset `offset_of_field`. One declared
    /// before under the same name is replaced in place and keeps its offset.
    pub fn with(
        &mut self,
        attribute: VertexAttribute,
        format: VertexFormat,
        size: u8,
        normalized: bool,
        offset_of_field: u8,
    ) -> (r: &mut Self)
        requires
            old(self).wf(),
            0 < size <= 4,
            has_attribute(old(self).descs(), attribute) || old(self).descs().len() < MAX_ATTRIBUTES,
        ensures
            (*r).wf(),
            (*r).descs() == with_attribute(
                old(self).descs(),
                VertexAttributeDesc { name: attribute, format, size, normalized },
            ),
            (*r).offsets() == if has_attribute(old(self).descs(), attribute) {
                old(self).offsets()
            } else {
                old(self).offsets().push(offset_of_field)
            },
            *final(self) == *final(r),
    {
        let desc = VertexAttributeDesc { name: attribute, format: format, size: size, normalized: normalized };
        let ghost pre = self.descs();
        let ghost pre_offsets = self.offsets();
        let mut i: usize = 0;
        while i < self.0.len as usize
            invariant
                self.wf(),
                self.descs() == pre,
                self.offsets() == pre_offsets,
                pre_offsets == old(self).offsets(),
                desc == (VertexAttributeDesc { name: attribute, format, size, normalized }),
                pre == old(self).descs(),
                0 < size <= 4,
                0 <= i <= self.0.len,
                forall|j: int| 0 <= j < i ==> #[trigger] pre[j].name != attribute,
            decreases self.0.len - i,
        {
            assert(pre[i as int] == self.0.elements@[i as int]);
            if self.0.elements[i].name == attribute {
                proof {
                    lemma_with_attribute_existing(pre, desc, i as int);
                }
                self.0.elements[i] = desc;
                assert(self.descs() =~= pre.update(i as int, desc));
                assert(names_unique(self.descs())) by {
                    assert forall|a: int, b: int|
                        0 <= a < self.descs().len() && 0 <= b < self.descs().len() && a != b
                            implies #[trigger] self.descs()[a].name != #[trigger] self.descs()[b].name by {
                        assert(pre[a].name != pre[b].name);
                    }
                }
                assert(sizes_in_range(self.descs())) by {
                    assert forall|a: int| 0 <= a < self.descs().len() implies 1 <= #[trigger] self.descs()[a].size <= 4 by {
                        if a != i {
                            assert(self.descs()[a] == pre[a]);
                        }
                    }
                }
                assert(self.wf());
                assert(self.descs() == with_attribute(pre, desc));
                return self;
            }
            i = i + 1;
        }
        let n = self.0.len as usize;
        self.0.offset[n] = offset_of_field;
        self.0.elements[n] = desc;
        self.0.len = self.0.len + 1;
        assert(self.descs() =~= pre.push(desc));
        assert(!has_attribute(pre, attribute));
        assert(names_unique(self.descs())) by {
            assert forall|a: int, b: int|
                0 <= a < self.descs().len() && 0 <= b < self.descs().len() && a != b
                    implies #[trigger] self.descs()[a].name != #[trigger] self.descs()[b].name by {
                if a < pre.len() && b < pre.len() {
                    assert(pre[a].name != pre[b].name);
                } else if a < pre.len() {
                    assert(pre[a].name != attribute);
                } else {
                    assert(pre[b].name != attribute);
                }
            }
        }
        assert(self.offsets() =~= pre_offsets.push(offset_of_field));
        self
    }

    /// The layout, with the offsets declared and the given stride.
    pub fn finish(&mut self, stride: u8) -> (r: VertexLayout)
        requires
            old(self).wf(),
        ensures
            r.wf(),
            r.descs() == old(self).descs(),
            r.offsets() == old(self).offsets(),
            r.spec_stride() == stride,
            final(self).wf(),
            final(self).descs() == old(self).descs(),
            final(self).offsets() == old(self).offsets(),
    {
        self.0.stride = stride;
        self.0
    }
}

} // verus!
