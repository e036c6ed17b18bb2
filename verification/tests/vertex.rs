use hle_render::vertex::{
    pack_vertices, Vertex, VertexAttribute, F32_MINUS_ONE, F32_ONE, INDEX_BUFFER_BYTES,
    INDEX_CAPACITY, VERTEX_BUFFER_BYTES, VERTEX_CAPACITY, VERTEX_WORDS,
};

#[test]
fn float_patterns() {
    assert_eq!(F32_ONE, 1.0f32.to_bits());
    assert_eq!(F32_MINUS_ONE, (-1.0f32).to_bits());
}

#[test]
fn buffer_capacities() {
    assert_eq!(VERTEX_CAPACITY, 64 * 1024);
    assert_eq!(INDEX_CAPACITY, 10 * 1024);
    assert_eq!(VERTEX_WORDS, 9);
    assert_eq!(VERTEX_BUFFER_BYTES, 64 * 1024 * 36);
    assert_eq!(INDEX_BUFFER_BYTES, 10 * 1024 * 2);
    assert_eq!(std::mem::size_of::<Vertex>(), Vertex::size());
}

#[test]
fn vertex_size_and_offsets() {
    assert_eq!(Vertex::size(), 36);
    assert_eq!(Vertex::_offset_of(0), 0);
    assert_eq!(Vertex::_offset_of(1), 36);
    assert_eq!(Vertex::_offset_of(65535), 65535 * 36);
}

#[test]
fn default_vertex_is_opaque_black_at_the_origin() {
    let v = Vertex::_new();
    assert_eq!(v.position, [0, 0, 0]);
    assert_eq!(v.tex_coords, [0, 0]);
    assert_eq!(v.color, [0, 0, 0, 1.0f32.to_bits()]);
}

#[test]
fn layout_tiles_the_vertex() {
    let layout = Vertex::desc();
    assert_eq!(layout.array_stride, 36);
    assert_eq!(
        layout.attributes,
        [
            VertexAttribute { offset: 0, shader_location: 0, components: 3 },
            VertexAttribute { offset: 12, shader_location: 1, components: 2 },
            VertexAttribute { offset: 20, shader_location: 2, components: 4 },
        ]
    );
}

#[test]
fn pack_vertices_orders_position_texture_color() {
    let v = Vertex { position: [1, 2, 3], tex_coords: [4, 5], color: [6, 7, 8, 9] };
    let w = Vertex { position: [11, 12, 13], tex_coords: [14, 15], color: [16, 17, 18, 19] };
    assert_eq!(
        pack_vertices(&[v, w]),
        vec![1, 2, 3, 4, 5, 6, 7, 8, 9, 11, 12, 13, 14, 15, 16, 17, 18, 19]
    );
    assert!(pack_vertices(&[]).is_empty());
}
