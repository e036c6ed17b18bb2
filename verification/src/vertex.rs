//! Vertex layout and the geometry buffers' fixed sizes.

use vstd::prelude::*;

verus! {

/// Vertices that the vertex buffer holds.
pub const VERTEX_CAPACITY: usize = 65536;

/// Indices that the index buffer holds.
pub const INDEX_CAPACITY: usize = 10240;

/// 32-bit words in one vertex.
pub const VERTEX_WORDS: usize = 9;

/// Size of the vertex buffer in bytes: `VERTEX_CAPACITY` vertices of 36 bytes.
pub const VERTEX_BUFFER_BYTES: u64 = 2_359_296;

/// Size of the index buffer in bytes: `INDEX_CAPACITY` 16-bit indices.
pub const INDEX_BUFFER_BYTES: u64 = 20_480;

/// Bit pattern of the 32-bit float `1.0`.
pub const F32_ONE: u32 = 0x3F80_0000;

/// Bit pattern of the 32-bit float `-1.0`.
pub const F32_MINUS_ONE: u32 = 0xBF80_0000;

/// A vertex as the GPU reads it. Every component is the bit pattern of a
/// 32-bit float. The Y texture coordinate is stored inverted, so that the
/// sampled image is shown upright.
#[derive(Clone, Copy, Debug, PartialEq, Eq)]
pub struct Vertex {
    pub position: [u32; 3],
    pub tex_coords: [u32; 2],
    pub color: [u32; 4],
}

/// One attribute of the vertex layout: where it starts within a vertex, the
/// shader input it feeds, and how many 32-bit floats it has.
#[derive(Clone, Copy, Debug, PartialEq, Eq)]
pub struct VertexAttribute {
    pub offset: u64,
    pub shader_location: u32,
    pub components: u32,
}

/// How a vertex buffer is stepped through and split into attributes.
#[derive(Clone, Copy, Debug, PartialEq, Eq)]
pub struct VertexBufferLayout {
    pub array_stride: u64,
    pub attributes: [VertexAttribute; 3],
}

impl VertexAttribute {
    /// First byte after the attribute.
    pub open spec fn end(self) -> int {
        self.offset + 4 * self.components
    }
}

impl VertexBufferLayout {
    /// The attributes follow each other without gap or overlap, from the start
    /// of the vertex to the stride, and feed the shader inputs 0, 1, 2.
    pub open spec fn tiles(self) -> bool {
        &&& self.attributes[0].offset == 0
        &&& self.attributes[1].offset == self.attributes[0].end()
        &&& self.attributes[2].offset == self.attributes[1].end()
        &&& self.array_stride == self.attributes[2].end()
        &&& forall|k: int| 0 <= k < 3 ==> (#[trigger] self.attributes[k]).shader_location == k
    }
}

impl Vertex {
    /// The `j`-th word of the vertex: position, then texture coordinates,
    /// then color.
    pub open spec fn word(self, j: int) -> u32 {
        if j < 3 {
            self.position[j]
        } else if j < 5 {
            self.tex_coords[j - 3]
        } else {
            self.color[j - 5]
        }
    }

    /// The nine words of the vertex.
    pub open spec fn words(self) -> Seq<u32> {
        Seq::new(VERTEX_WORDS as nat, |j: int| self.word(j))
    }

    /// A vertex at the origin, opaque black.
    pub fn _new() -> (v: Vertex)
        ensures
            v == (Vertex { position: [0, 0, 0], tex_coords: [0, 0], color: [0, 0, 0, F32_ONE] }),
    {
        Vertex { position: [0, 0, 0], tex_coords: [0, 0], color: [0, 0, 0, F32_ONE] }
    }

    /// The layout of a buffer of vertices: three floats of position at
    /// offset 0, two of texture coordinates at 12, four of color at 20.
    pub fn desc() -> (layout: VertexBufferLayout)
        ensures
            layout.tiles(),
            layout.array_stride == 4 * VERTEX_WORDS,
            layout.attributes[0].components == 3,
            layout.attributes[1].components == 2,
            layout.attributes[2].components == 4,
    {
        VertexBufferLayout {
            array_stride: 36,
            attributes: [
                VertexAttribute { offset: 0, shader_location: 0, components: 3 },
                VertexAttribute { offset: 12, shader_location: 1, components: 2 },
                VertexAttribute { offset: 20, shader_location: 2, components: 4 },
            ],
        }
    }

    /// Size of a vertex in bytes.
    pub fn size() -> (bytes: usize)
        ensures
            bytes == 4 * VERTEX_WORDS,
    {
        36
    }

    /// Byte offset of vertex `index` in a vertex buffer.
    pub fn _offset_of(index: usize) -> (offset: u64)
        requires
            index * (4 * VERTEX_WORDS) <= u64::MAX,
        ensures
            offset == index * (4 * VERTEX_WORDS),
    {
        (index as u64) * 36
    }
}

/// The geometry buffers have room for exactly their capacity.
pub proof fn lemma_buffer_sizes()
    ensures
        VERTEX_BUFFER_BYTES == VERTEX_CAPACITY * (4 * VERTEX_WORDS),
        INDEX_BUFFER_BYTES == INDEX_CAPACITY * 2,
{
}

/// The words that a run of vertices occupies in the vertex buffer.
pub open spec fn vertex_words(vertices: Seq<Vertex>) -> Seq<u32> {
    Seq::new(
        vertices.len() * VERTEX_WORDS as nat,
        |k: int| vertices[k / VERTEX_WORDS as int].word(k % VERTEX_WORDS as int),
    )
}

/// Appending a vertex to a run appends its words to the run's words.
pub proof fn lemma_vertex_words_push(vertices: Seq<Vertex>, v: Vertex)
    ensures
        vertex_words(vertices.push(v)) == vertex_words(vertices) + v.words(),
{
    let left = vertex_words(vertices.push(v));
    let right = vertex_words(vertices) + v.words();
    let n = vertices.len() as int;
    assert(left.len() == right.len());
    assert forall|k: int| 0 <= k < left.len() implies left[k] == right[k] by {
        if k < n * 9 {
            assert(k / 9 < n);
            assert(vertices.push(v)[k / 9] == vertices[k / 9]);
        } else {
            assert(k / 9 == n);
            assert(k % 9 == k - n * 9);
            assert(vertices.push(v)[k / 9] == v);
        }
    }
    assert(left =~= right);
}

/// Lays `vertices` out as buffer words, vertex after vertex.
pub fn pack_vertices(vertices: &[Vertex]) -> (words: Vec<u32>)
    ensures
        words@ == vertex_words(vertices@),
{
    let mut words: Vec<u32> = Vec::new();
    let mut i: usize = 0;
    assert(vertices@.take(0) =~= Seq::<Vertex>::empty());
    assert(vertex_words(Seq::<Vertex>::empty()) =~= Seq::<u32>::empty());
    while i < vertices.len()
        invariant
            i <= vertices@.len(),
            words@ == vertex_words(vertices@.take(i as int)),
        decreases vertices@.len() - i,
    {
        let v = &vertices[i];
        let ghost before = words@;
        proof {
            lemma_vertex_words_push(vertices@.take(i as int), *v);
            assert(vertices@.take(i as int).push(*v) =~= vertices@.take(i + 1));
        }
        words.push(v.position[0]);
        words.push(v.position[1]);
        words.push(v.position[2]);
        words.push(v.tex_coords[0]);
        words.push(v.tex_coords[1]);
        words.push(v.color[0]);
        words.push(v.color[1]);
        words.push(v.color[2]);
        words.push(v.color[3]);
        assert(words@ =~= before + v.words());
        i += 1;
    }
    assert(vertices@.take(i as int) =~= vertices@);
    words
}

/// Corner `i` of the quad that fills the screen, in the order top left, top
/// right, bottom left, bottom right. The texture's first row goes to the top
/// edge.
pub open spec fn quad_corner(i: int) -> Vertex {
    Vertex {
        position: [
            if i % 2 == 0 {
                F32_MINUS_ONE
            } else {
                F32_ONE
            },
            if i < 2 {
                F32_ONE
            } else {
                F32_MINUS_ONE
            },
            0,
        ],
        tex_coords: [
            if i % 2 == 0 {
                0
            } else {
                F32_ONE
            },
            if i < 2 {
                0
            } else {
                F32_ONE
            },
        ],
        color: [0, 0, 0, 0],
    }
}

/// The four corners of the quad on which a texture is shown.
pub fn quad_vertices() -> (quad: [Vertex; 4])
    ensures
        forall|i: int| 0 <= i < 4 ==> #[trigger] quad[i] == quad_corner(i),
{
    let quad = [
        Vertex { position: [F32_MINUS_ONE, F32_ONE, 0], tex_coords: [0, 0], color: [0, 0, 0, 0] },
        Vertex { position: [F32_ONE, F32_ONE, 0], tex_coords: [F32_ONE, 0], color: [0, 0, 0, 0] },
        Vertex {
            position: [F32_MINUS_ONE, F32_MINUS_ONE, 0],
            tex_coords: [0, F32_ONE],
            color: [0, 0, 0, 0],
        },
        Vertex {
            position: [F32_ONE, F32_MINUS_ONE, 0],
            tex_coords: [F32_ONE, F32_ONE],
            color: [0, 0, 0, 0],
        },
    ];
    quad
}

/// The two triangles of the quad, as indices into `quad_vertices`.
pub fn quad_indices() -> (indices: [u16; 6])
    ensures
        indices@ == seq![2u16, 1, 0, 1, 3, 2],
{
    let indices: [u16; 6] = [2, 1, 0, 1, 3, 2];
    assert(indices@ =~= seq![2u16, 1, 0, 1, 3, 2]);
    indices
}

} // verus!
