//! Vertex layouts: which attributes a vertex has, how many bytes each takes
//! and where each starts.

use vstd::prelude::*;

verus! {

/// The type of one vertex attribute.
#[derive(Clone, Copy, PartialEq, Eq, Debug, Structural)]
pub enum Attribute {
    Float,
    Vec2,
    Vec3,
    Vec4,
    Double,
    DVec2,
    DVec3,
    DVec4,
    Int,
    IVec2,
    IVec3,
    IVec4,
    UInt,
    UVec2,
    UVec3,
    UVec4,
}

/// The scalar type that an attribute is made of.
#[derive(Clone, Copy, PartialEq, Eq, Debug, Structural)]
pub enum Scalar {
    Float,
    Double,
    Int,
    UInt,
}

impl Scalar {
    /// The size of one scalar in bytes.
    pub open spec fn size(self) -> int {
        match self {
            Scalar::Double => 8,
            _ => 4,
        }
    }
}

impl Attribute {
    /// The scalar type of the attribute.
    pub open spec fn scalar(self) -> Scalar {
        match self {
            Attribute::Float | Attribute::Vec2 | Attribute::Vec3 | Attribute::Vec4 => Scalar::Float,
            Attribute::Double | Attribute::DVec2 | Attribute::DVec3 | Attribute::DVec4 => {
                Scalar::Double
            },
            Attribute::Int | Attribute::IVec2 | Attribute::IVec3 | Attribute::IVec4 => Scalar::Int,
            Attribute::UInt | Attribute::UVec2 | Attribute::UVec3 | Attribute::UVec4 => Scalar::UInt,
        }
    }

    /// The number of scalars in the attribute, from one to four.
    pub open spec fn components(self) -> int {
        match self {
            Attribute::Float | Attribute::Double | Attribute::Int | Attribute::UInt => 1,
            Attribute::Vec2 | Attribute::DVec2 | Attribute::IVec2 | Attribute::UVec2 => 2,
            Attribute::Vec3 | Attribute::DVec3 | Attribute::IVec3 | Attribute::UVec3 => 3,
            Attribute::Vec4 | Attribute::DVec4 | Attribute::IVec4 | Attribute::UVec4 => 4,
        }
    }

    /// The size of the attribute in bytes.
    pub open spec fn size(self) -> int {
        self.components() * self.scalar().size()
    }

    /// Executable form of [`Attribute::scalar`].
    pub fn scalar_type(&self) -> (scalar: Scalar)
        ensures
            scalar == self.scalar(),
    {
        match self {
            Attribute::Float | Attribute::Vec2 | Attribute::Vec3 | Attribute::Vec4 => Scalar::Float,
            Attribute::Double | Attribute::DVec2 | Attribute::DVec3 | Attribute::DVec4 => {
                Scalar::Double
            },
            Attribute::Int | Attribute::IVec2 | Attribute::IVec3 | Attribute::IVec4 => Scalar::Int,
            Attribute::UInt | Attribute::UVec2 | Attribute::UVec3 | Attribute::UVec4 => Scalar::UInt,
        }
    }

    /// Executable form of [`Attribute::components`].
    pub fn component_count(&self) -> (count: i32)
        ensures
            count == self.components(),
            1 <= count <= 4,
    {
        match self {
            Attribute::Float | Attribute::Double | Attribute::Int | Attribute::UInt => 1,
            Attribute::Vec2 | Attribute::DVec2 | Attribute::IVec2 | Attribute::UVec2 => 2,
            Attribute::Vec3 | Attribute::DVec3 | Attribute::IVec3 | Attribute::UVec3 => 3,
            Attribute::Vec4 | Attribute::DVec4 | Attribute::IVec4 | Attribute::UVec4 => 4,
        }
    }

    /// The size of the attribute in bytes.
    pub fn size_in_bytes(&self) -> (bytes: usize)
        ensures
            bytes == self.size(),
            4 <= bytes <= 32,
    {
        match self {
            Attribute::Float => 4,
            Attribute::Vec2 => 8,
            Attribute::Vec3 => 12,
            Attribute::Vec4 => 16,
            Attribute::Double => 8,
            Attribute::DVec2 => 16,
            Attribute::DVec3 => 24,
            Attribute::DVec4 => 32,
            Attribute::Int => 4,
            Attribute::IVec2 => 8,
            Attribute::IVec3 => 12,
            Attribute::IVec4 => 16,
            Attribute::UInt => 4,
            Attribute::UVec2 => 8,
            Attribute::UVec3 => 12,
            Attribute::UVec4 => 16,
        }
    }
}

/// The size in bytes of the attributes taken together.
pub open spec fn total_size(attributes: Seq<Attribute>) -> int
    decreases attributes.len(),
{
    if attributes.len() == 0 {
        0
    } else {
        total_size(attributes.drop_last()) + attributes.last().size()
    }
}

/// Where one attribute lies in a vertex and what it is made of.
#[derive(Clone, Copy, PartialEq, Eq, Debug, Structural)]
pub struct AttributeFormat {
    /// The place of the attribute in the layout.
    pub index: u32,
    /// The number of scalars, from one to four.
    pub components: i32,
    pub scalar: Scalar,
    /// The number of bytes from the start of the vertex to the attribute.
    pub offset: u32,
}

/// How the vertices of a layout lie in memory.
pub struct VertexFormat {
    /// The number of bytes from one vertex to the next.
    pub stride: i32,
    /// One entry for each attribute, in the order of the layout.
    pub attributes: Vec<AttributeFormat>,
}

/// The entry of attribute `i` in the format of a layout.
pub open spec fn format_of(attributes: Seq<Attribute>, i: int) -> AttributeFormat {
    AttributeFormat {
        index: i as u32,
        components: attributes[i].components() as i32,
        scalar: attributes[i].scalar(),
        offset: total_size(attributes.take(i)) as u32,
    }
}

/// The attributes of a vertex in the order in which they lie in memory.
pub struct Layout {
    attributes: Vec<Attribute>,
}

impl View for Layout {
    type V = Seq<Attribute>;

    closed spec fn view(&self) -> Seq<Attribute> {
        self.attributes@
    }
}

impl Default for Layout {
    /// The layout without attributes.
    fn default() -> (l: Layout)
        ensures
            l@ == Seq::<Attribute>::empty(),
    {
        Layout { attributes: Vec::new() }
    }
}

impl Layout {
    /// Position, texture coordinate and normal in space.
    pub fn default_3d() -> (l: Layout)
        ensures
            l@ == seq![Attribute::Vec3, Attribute::Vec2, Attribute::Vec3],
    {
        Layout { attributes: vec![Attribute::Vec3, Attribute::Vec2, Attribute::Vec3] }
    }

    /// Position and normal in space.
    pub fn simple_3d() -> (l: Layout)
        ensures
            l@ == seq![Attribute::Vec3, Attribute::Vec3],
    {
        Layout { attributes: vec![Attribute::Vec3, Attribute::Vec3] }
    }

    /// Position in space.
    pub fn basic_3d() -> (l: Layout)
        ensures
            l@ == seq![Attribute::Vec3],
    {
        Layout { attributes: vec![Attribute::Vec3] }
    }

    /// Position and texture coordinate in the plane.
    pub fn default_2d() -> (l: Layout)
        ensures
            l@ == seq![Attribute::Vec2, Attribute::Vec2],
    {
        Layout { attributes: vec![Attribute::Vec2, Attribute::Vec2] }
    }

    /// Position in the plane.
    pub fn basic_2d() -> (l: Layout)
        ensures
            l@ == seq![Attribute::Vec2],
    {
        Layout { attributes: vec![Attribute::Vec2] }
    }

    /// The layout with one more attribute at its end.
    pub fn next_attribute(self, attribute: Attribute) -> (l: Layout)
        ensures
            l@ == self@.push(attribute),
    {
        let mut layout = self;
        layout.attributes.push(attribute);
        layout
    }

    pub fn attributes(&self) -> (attributes: &[Attribute])
        ensures
            attributes@ == self@,
    {
        self.attributes.as_slice()
    }

    /// The number of bytes from one vertex to the next: the size of all
    /// attributes together. There is none for a layout whose vertex is larger
    /// than `i32::MAX` bytes.
    pub fn stride(&self) -> (stride: Option<i32>)
        ensures
            stride is Some <==> total_size(self@) <= i32::MAX,
            stride matches Some(bytes) ==> bytes == total_size(self@),
    {
        let mut total: u32 = 0;
        let mut i: usize = 0;
        while i < self.attributes.len()
            invariant
                i <= self.attributes.len(),
                total == total_size(self@.take(i as int)),
                total <= i32::MAX,
            decreases self.attributes.len() - i,
        {
            let size: u32 = self.attributes[i].size_in_bytes() as u32;
            proof {
                let next = self@.take(i + 1);
                assert(next.drop_last() =~= self@.take(i as int));
                assert(next.last() == self@[i as int]);
            }
            if size > 0x7fff_ffff - total {
                proof {
                    lemma_total_size_grows(self@, i + 1);
                }
                return None;
            }
            total = total + size;
            i += 1;
        }
        assert(self@.take(i as int) =~= self@);
        Some(total as i32)
    }

    /// The format of the layout: the stride, and for each attribute its
    /// place, what it is made of and where it starts, which is where the one
    /// before it ends. There is none for a layout whose vertex is larger than
    /// `i32::MAX` bytes.
    pub fn format(&self) -> (format: Option<VertexFormat>)
        ensures
            format is Some <==> total_size(self@) <= i32::MAX,
            format matches Some(f) ==> {
                &&& f.stride == total_size(self@)
                &&& f.attributes@.len() == self@.len()
                &&& forall|i: int|
                    0 <= i < self@.len() ==> #[trigger] f.attributes@[i] == format_of(self@, i)
            },
    {
        let stride: i32 = match self.stride() {
            Some(bytes) => bytes,
            None => {
                return None;
            },
        };
        let mut formats: Vec<AttributeFormat> = Vec::new();
        let mut offset: u32 = 0;
        let mut i: usize = 0;
        while i < self.attributes.len()
            invariant
                i <= self.attributes.len(),
                total_size(self@) <= i32::MAX,
                offset == total_size(self@.take(i as int)),
                formats@.len() == i,
                forall|j: int| 0 <= j < i ==> #[trigger] formats@[j] == format_of(self@, j),
            decreases self.attributes.len() - i,
        {
            let attribute = self.attributes[i];
            let size: u32 = attribute.size_in_bytes() as u32;
            proof {
                let next = self@.take(i + 1);
                assert(next.drop_last() =~= self@.take(i as int));
                assert(next.last() == self@[i as int]);
                lemma_total_size_grows(self@, i + 1);
                lemma_total_size_grows(self@, i as int);
                lemma_total_size_counts(self@.take(i as int));
            }
            formats.push(
                AttributeFormat {
                    index: i as u32,
                    components: attribute.component_count(),
                    scalar: attribute.scalar_type(),
                    offset,
                },
            );
            offset = offset + size;
            i += 1;
        }
        Some(VertexFormat { stride, attributes: formats })
    }
}

/// Each attribute takes at least four bytes.
pub proof fn lemma_total_size_counts(attributes: Seq<Attribute>)
    ensures
        4 * attributes.len() <= total_size(attributes),
    decreases attributes.len(),
{
    if attributes.len() > 0 {
        lemma_total_size_counts(attributes.drop_last());
    }
}

/// A layout is at least as large as each part of it that starts at its
/// beginning.
pub proof fn lemma_total_size_grows(attributes: Seq<Attribute>, n: int)
    requires
        0 <= n <= attributes.len(),
    ensures
        0 <= total_size(attributes.take(n)) <= total_size(attributes),
    decreases attributes.len(),
{
    if n == attributes.len() {
        assert(attributes.take(n) =~= attributes);
        lemma_total_size_not_negative(attributes);
    } else {
        assert(attributes.drop_last().take(n) =~= attributes.take(n));
        lemma_total_size_grows(attributes.drop_last(), n);
    }
}

/// No layout has a negative size.
pub proof fn lemma_total_size_not_negative(attributes: Seq<Attribute>)
    ensures
        0 <= total_size(attributes),
    decreases attributes.len(),
{
    if attributes.len() > 0 {
        lemma_total_size_not_negative(attributes.drop_last());
    }
}

/// The number of whole vertices in a buffer of `bytes` bytes.
pub fn vertex_count(bytes: usize, stride: i32) -> (count: usize)
    requires
        stride > 0,
    ensures
        count == bytes as int / stride as int,
{
    bytes / (stride as usize)
}

/// The place in the index list of corner `c` of the cell in row `i` and
/// column `j` of a grid with `x_divisions` cells in a row.
pub open spec fn cell_slot(x_divisions: int, i: int, j: int, c: int) -> int {
    6 * (i * x_divisions + j) + c
}

/// The vertex at corner `c` of the two triangles that cover the cell in row
/// `i` and column `j`. A grid with `x_divisions` cells in a row has one
/// vertex more in each row. The first triangle joins the cell's own vertex,
/// the one below it and the one to its right; the second joins the one
/// below, the one below and to the right, and the one to the right.
pub open spec fn cell_corner(x_divisions: int, i: int, j: int, c: int) -> int {
    let current = i * (x_divisions + 1) + j;
    let next = current + x_divisions + 1;
    if c == 0 {
        current
    } else if c == 1 || c == 3 {
        next
    } else if c == 4 {
        next + 1
    } else {
        current + 1
    }
}

/// The vertex indices of the triangles of a sphere whose surface is a grid of
/// `y_divisions` rows of `x_divisions` cells: six indices for each cell, row
/// by row.
pub fn sphere_indices(x_divisions: usize, y_divisions: usize) -> (indices: Vec<usize>)
    requires
        (x_divisions + 1) * (y_divisions + 1) <= usize::MAX,
    ensures
        indices.len() == 6 * (y_divisions * x_divisions),
        forall|i: int, j: int, c: int|
            0 <= i < y_divisions && 0 <= j < x_divisions && 0 <= c < 6 ==> indices[cell_slot(
                x_divisions as int,
                i,
                j,
                c,
            )] == #[trigger] cell_corner(x_divisions as int, i, j, c),
        forall|e: int|
            0 <= e < indices.len() ==> #[trigger] indices[e] < (x_divisions + 1) * (y_divisions + 1),
{
    let ghost x = x_divisions as int;
    let ghost y = y_divisions as int;
    let mut indices: Vec<usize> = Vec::new();
    let mut i: usize = 0;
    while i < y_divisions
        invariant
            x == x_divisions,
            y == y_divisions,
            (x + 1) * (y + 1) <= usize::MAX,
            i <= y_divisions,
            indices.len() == 6 * (i * x),
            forall|a: int, b: int, c: int|
                0 <= a < i && 0 <= b < x && 0 <= c < 6 ==> indices[cell_slot(x, a, b, c)]
                    == #[trigger] cell_corner(x, a, b, c),
            forall|e: int| 0 <= e < indices.len() ==> #[trigger] indices[e] < (x + 1) * (y + 1),
        decreases y_divisions - i,
    {
        let mut j: usize = 0;
        while j < x_divisions
            invariant
                x == x_divisions,
                y == y_divisions,
                (x + 1) * (y + 1) <= usize::MAX,
                i < y_divisions,
                j <= x_divisions,
                indices.len() == 6 * (i * x + j),
                forall|a: int, b: int, c: int|
                    0 <= a < i && 0 <= b < x && 0 <= c < 6 ==> indices[cell_slot(x, a, b, c)]
                        == #[trigger] cell_corner(x, a, b, c),
                forall|b: int, c: int|
                    0 <= b < j && 0 <= c < 6 ==> indices[cell_slot(x, i as int, b, c)]
                        == #[trigger] cell_corner(x, i as int, b, c),
                forall|e: int| 0 <= e < indices.len() ==> #[trigger] indices[e] < (x + 1) * (y + 1),
            decreases x_divisions - j,
        {
            proof {
                assert((i + 1) * (x + 1) + j + 1 < (x + 1) * (y + 1)) by (nonlinear_arith)
                    requires
                        0 <= i < y,
                        0 <= j < x,
                ;
                assert(0 <= i * (x + 1)) by (nonlinear_arith)
                    requires
                        0 <= i,
                        0 <= x,
                ;
                assert((i + 1) * (x + 1) == i * (x + 1) + x + 1) by (nonlinear_arith);
            }
            let ghost before = indices@;
            let current: usize = i * (x_divisions + 1) + j;
            let next: usize = current + x_divisions + 1;
            indices.push(current);
            indices.push(next);
            indices.push(current + 1);
            indices.push(next);
            indices.push(next + 1);
            indices.push(current + 1);
            proof {
                assert forall|a: int, b: int, c: int|
                    0 <= a < i && 0 <= b < x && 0 <= c < 6 implies indices[cell_slot(x, a, b, c)]
                    == #[trigger] cell_corner(x, a, b, c) by {
                    assert(a * x + b < i * x) by (nonlinear_arith)
                        requires
                            0 <= a < i,
                            0 <= b < x,
                    ;
                    assert(indices[cell_slot(x, a, b, c)] == before[cell_slot(x, a, b, c)]);
                }
                assert forall|b: int, c: int| 0 <= b < j + 1 && 0 <= c < 6 implies indices[cell_slot(
                    x,
                    i as int,
                    b,
                    c,
                )] == #[trigger] cell_corner(x, i as int, b, c) by {
                    if b < j {
                        assert(indices[cell_slot(x, i as int, b, c)] == before[cell_slot(
                            x,
                            i as int,
                            b,
                            c,
                        )]);
                    }
                }
                assert forall|e: int| 0 <= e < indices.len() implies #[trigger] indices[e] < (x + 1)
                    * (y + 1) by {
                    if e < before.len() {
                        assert(indices[e] == before[e]);
                    }
                }
            }
            j += 1;
        }
        proof {
            assert((i + 1) * x == i * x + x) by (nonlinear_arith);
        }
        i += 1;
    }
    proof {
        assert(i * x == y_divisions * x_divisions) by (nonlinear_arith)
            requires
                i == y_divisions,
                x == x_divisions,
        ;
    }
    indices
}

} // verus!
