use crayon_video::mesh::{
    BufferHint, CustomVertexLayoutBuilder, IndexBufferSetup, IndexFormat, VertexAttribute,
    VertexBufferSetup, VertexFormat, VertexLayout,
};

#[test]
fn basic() {
    let layout = VertexLayout::build()
        .with(VertexAttribute::Position, VertexFormat::Float, 3, true)
        .with(VertexAttribute::Texcoord0, VertexFormat::Float, 2, true)
        .finish();

    assert_eq!(layout.stride(), 20);
    assert_eq!(layout.offset(VertexAttribute::Position), Some(0));
    assert_eq!(layout.offset(VertexAttribute::Texcoord0), Some(12));
    assert_eq!(layout.offset(VertexAttribute::Normal), None);

    let element = layout.element(VertexAttribute::Position).unwrap();
    assert_eq!(element.format, VertexFormat::Float);
    assert_eq!(element.size, 3);
    assert_eq!(element.normalized, true);
    assert_eq!(layout.element(VertexAttribute::Normal), None);
}

#[test]
fn rewrite() {
    let layout = VertexLayout::build()
        .with(VertexAttribute::Position, VertexFormat::Byte, 1, false)
        .with(VertexAttribute::Texcoord0, VertexFormat::Float, 2, true)
        .with(VertexAttribute::Position, VertexFormat::Float, 3, true)
        .finish();

    assert_eq!(layout.stride(), 20);
    assert_eq!(layout.offset(VertexAttribute::Position), Some(0));
    assert_eq!(layout.offset(VertexAttribute::Texcoord0), Some(12));
    assert_eq!(layout.offset(VertexAttribute::Normal), None);

    let element = layout.element(VertexAttribute::Position).unwrap();
    assert_eq!(element.format, VertexFormat::Float);
    assert_eq!(element.size, 3);
    assert_eq!(element.normalized, true);
    assert_eq!(layout.element(VertexAttribute::Normal), None);
}

#[test]
fn layout_without_position_has_no_position_offset() {
    let layout = VertexLayout::build()
        .with(VertexAttribute::Normal, VertexFormat::Short, 4, false)
        .with(VertexAttribute::Color0, VertexFormat::UByte, 4, true)
        .finish();
    assert_eq!(layout.len(), 2);
    assert_eq!(layout.stride(), 12);
    assert_eq!(layout.offset(VertexAttribute::Normal), Some(0));
    assert_eq!(layout.offset(VertexAttribute::Color0), Some(8));
    assert_eq!(layout.offset(VertexAttribute::Position), None);
    assert_eq!(layout.element(VertexAttribute::Position), None);
}

#[test]
fn empty_layout() {
    let layout = VertexLayout::build().finish();
    assert_eq!(layout.len(), 0);
    assert_eq!(layout.stride(), 0);
    assert_eq!(layout.offset(VertexAttribute::Position), None);
}

#[test]
fn twelve_attributes_fill_a_layout() {
    let all = [
        VertexAttribute::Position,
        VertexAttribute::Normal,
        VertexAttribute::Tangent,
        VertexAttribute::Bitangent,
        VertexAttribute::Color0,
        VertexAttribute::Color1,
        VertexAttribute::Indices,
        VertexAttribute::Weight,
        VertexAttribute::Texcoord0,
        VertexAttribute::Texcoord1,
        VertexAttribute::Texcoord2,
        VertexAttribute::Texcoord3,
    ];
    let mut builder = VertexLayout::build();
    for a in all.iter() {
        builder.with(*a, VertexFormat::Float, 4, false);
    }
    let layout = builder.finish();
    assert_eq!(layout.len(), 12);
    assert_eq!(layout.stride(), 192);
    assert_eq!(layout.offset(VertexAttribute::Texcoord3), Some(176));
}

#[test]
fn custom_layout_keeps_given_offsets() {
    let layout = CustomVertexLayoutBuilder::new()
        .with(VertexAttribute::Position, VertexFormat::Float, 3, false, 0)
        .with(VertexAttribute::Color0, VertexFormat::UByte, 4, true, 12)
        .with(VertexAttribute::Texcoord0, VertexFormat::Float, 2, false, 16)
        .with(VertexAttribute::Color0, VertexFormat::UByte, 3, true, 40)
        .finish(36);
    assert_eq!(layout.stride(), 36);
    assert_eq!(layout.len(), 3);
    assert_eq!(layout.offset(VertexAttribute::Color0), Some(12));
    assert_eq!(layout.offset(VertexAttribute::Texcoord0), Some(16));
    assert_eq!(layout.element(VertexAttribute::Color0).unwrap().size, 3);
}

#[test]
fn attribute_names_round_trip() {
    assert_eq!(VertexAttribute::from_str("Position"), Some(VertexAttribute::Position));
    assert_eq!(VertexAttribute::from_str("Texcoord3"), Some(VertexAttribute::Texcoord3));
    assert_eq!(VertexAttribute::from_str("Color1"), Some(VertexAttribute::Color1));
    assert_eq!(VertexAttribute::from_str("position"), None);
    assert_eq!(VertexAttribute::from_str(""), None);
    assert_eq!(VertexAttribute::Weight.name(), "Weight");
}

#[test]
fn buffer_setup_lengths() {
    let idx = IndexBufferSetup { hint: BufferHint::Immutable, num: 6, format: IndexFormat::U16 };
    assert_eq!(idx.len(), 12);
    let idx = IndexBufferSetup { hint: BufferHint::Stream, num: 6, format: IndexFormat::U32 };
    assert_eq!(idx.len(), 24);
    assert_eq!(IndexFormat::U16.size(), 2);
    assert_eq!(IndexFormat::U32.size(), 4);

    let layout = VertexLayout::build()
        .with(VertexAttribute::Position, VertexFormat::Float, 3, false)
        .finish();
    let vb = VertexBufferSetup { hint: BufferHint::Dynamic, layout, num: 4 };
    assert_eq!(vb.len(), 48);
    let empty = VertexBufferSetup::default();
    assert_eq!(empty.len(), 0);
    assert_eq!(empty.hint, BufferHint::Immutable);
}
