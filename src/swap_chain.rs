//! The swap chain: a pixel buffer sized to a rendering extent, and the
//! rasterizer that fills it.

use vstd::prelude::*;
use vstd::arithmetic::div_mod::{lemma_fundamental_div_mod, lemma_fundamental_div_mod_converse};

use crate::{NDC_ONE, Pixel, TriangleVertices};
use crate::math::{
    Triangle2D, Vector2, triangle_area, triangle_contains, triangle_max_x, triangle_max_y,
    triangle_min_x, triangle_min_y,
};
use crate::shader::{FragmentShader2D, VertexShader2D};

verus! {

/// The size of a rendering surface, in pixels.
#[derive(Copy, Clone, Debug, PartialEq, Eq, PartialOrd, Ord, Hash, Structural)]
pub struct Extent {
    pub width: usize,
    pub height: usize,
}

/// The number of pixels of an extent.
pub open spec fn pixel_count(e: Extent) -> int {
    e.width * e.height
}

/// `n / d` rounded to the nearest integer, halves away from zero.
pub open spec fn round_half_away(n: int, d: int) -> int {
    if n >= 0 {
        (2 * n + d) / (2 * d)
    } else {
        -((-2 * n + d) / (2 * d))
    }
}

/// `v` clamped to the range of `i32`.
pub open spec fn saturate_i32(v: int) -> int {
    if v > i32::MAX {
        i32::MAX as int
    } else if v < i32::MIN {
        i32::MIN as int
    } else {
        v
    }
}

/// The pixel coordinate of the normalized device coordinate `v / NDC_ONE`
/// on an axis of `dim` pixels: `round((v / NDC_ONE + 1) / 2 * dim)`, clamped
/// to `i32`.
pub open spec fn ndc_to_pixel(v: int, dim: int) -> int {
    saturate_i32(round_half_away((v + NDC_ONE) * dim, 2 * NDC_ONE))
}

/// The pixel-space triangle of three positions in normalized device
/// coordinates, on a target of extent `e`.
pub open spec fn mapped_triangle(
    e: Extent,
    a: Vector2<i32>,
    b: Vector2<i32>,
    c: Vector2<i32>,
) -> Triangle2D<i32> {
    Triangle2D(mapped_point(e, a), mapped_point(e, b), mapped_point(e, c))
}

/// The pixel position of a position in normalized device coordinates, on a
/// target of extent `e`: X scales by the width, Y by the height.
pub open spec fn mapped_point(e: Extent, v: Vector2<i32>) -> Vector2<i32> {
    Vector2 {
        x: ndc_to_pixel(v.x as int, e.width as int) as i32,
        y: ndc_to_pixel(v.y as int, e.height as int) as i32,
    }
}

/// The pixels after every pixel that `t` covers on a target of extent `e`
/// takes `color`; the others keep theirs.
pub open spec fn paint(e: Extent, pixels: Seq<Pixel>, t: Triangle2D<i32>, color: Pixel) -> Seq<
    Pixel,
> {
    Seq::new(
        pixels.len(),
        |i: int|
            if covers(e, t, i % (e.width as int), i / (e.width as int)) {
                color
            } else {
                pixels[i]
            },
    )
}

/// The pixel-space triangle that the vertex shader and the mapping to pixel
/// space make of `v`.
pub open spec fn shaded_triangle<V: VertexShader2D>(
    e: Extent,
    v: TriangleVertices,
    vertex_shader: V,
) -> Triangle2D<i32> {
    mapped_triangle(
        e,
        vertex_shader.transform(v.a),
        vertex_shader.transform(v.b),
        vertex_shader.transform(v.c),
    )
}

/// The pixels after the triangles are painted in order, each with `color`,
/// so that a later triangle paints over an earlier one.
pub open spec fn painted<V: VertexShader2D>(
    e: Extent,
    pixels: Seq<Pixel>,
    triangles: Seq<TriangleVertices>,
    vertex_shader: V,
    color: Pixel,
) -> Seq<Pixel>
    decreases triangles.len(),
{
    if triangles.len() == 0 {
        pixels
    } else {
        paint(
            e,
            painted(e, pixels, triangles.drop_last(), vertex_shader, color),
            shaded_triangle(e, triangles.last(), vertex_shader),
            color,
        )
    }
}

/// After drawing a list of triangles, a pixel has the fragment color when
/// some triangle of the list covers it, and keeps its color when none does;
/// pixels outside every triangle's bounding rectangle are never touched.
pub proof fn lemma_painted_pixel<V: VertexShader2D>(
    e: Extent,
    pixels: Seq<Pixel>,
    triangles: Seq<TriangleVertices>,
    vertex_shader: V,
    color: Pixel,
    i: int,
)
    requires
        0 <= i < pixels.len(),
    ensures
        painted(e, pixels, triangles, vertex_shader, color).len() == pixels.len(),
        painted(e, pixels, triangles, vertex_shader, color)[i] == if exists|k: int|
            0 <= k < triangles.len() && covers(
                e,
                #[trigger] shaded_triangle(e, triangles[k], vertex_shader),
                i % (e.width as int),
                i / (e.width as int),
            ) {
            color
        } else {
            pixels[i]
        },
    decreases triangles.len(),
{
    let w = e.width as int;
    if triangles.len() > 0 {
        let rest = triangles.drop_last();
        lemma_painted_pixel(e, pixels, rest, vertex_shader, color, i);
        let last = triangles.len() - 1;
        assert(triangles[last] == triangles.last());
        if exists|k: int|
            0 <= k < triangles.len() && covers(
                e,
                #[trigger] shaded_triangle(e, triangles[k], vertex_shader),
                i % w,
                i / w,
            ) {
            let k = choose|k: int|
                0 <= k < triangles.len() && covers(
                    e,
                    #[trigger] shaded_triangle(e, triangles[k], vertex_shader),
                    i % w,
                    i / w,
                );
            if k < last {
                assert(rest[k] == triangles[k]);
            }
        } else {
            assert forall|k: int| 0 <= k < rest.len() implies !covers(
                e,
                #[trigger] shaded_triangle(e, rest[k], vertex_shader),
                i % w,
                i / w,
            ) by {
                assert(rest[k] == triangles[k]);
            }
        }
    }
}

/// The wire layout of a pixel buffer: four bytes for each pixel, red,
/// green, blue and alpha in that order, pixels in buffer order.
pub open spec fn wire_bytes(pixels: Seq<Pixel>) -> Seq<u8> {
    Seq::new(
        4 * pixels.len(),
        |i: int|
            {
                let p = pixels[i / 4];
                if i % 4 == 0 {
                    p.red
                } else if i % 4 == 1 {
                    p.green
                } else if i % 4 == 2 {
                    p.blue
                } else {
                    p.alpha
                }
            },
    )
}

/// Whether rasterizing the pixel-space triangle `t` into a target of extent
/// `e` writes the pixel `(x, y)`: the triangle has a nonzero area, the pixel
/// lies in the half-open bounding rectangle of the triangle, passes the
/// containment test, and lies within the target.
pub open spec fn covers(e: Extent, t: Triangle2D<i32>, x: int, y: int) -> bool {
    &&& triangle_area(t) > 0
    &&& triangle_min_x(t) <= x < triangle_max_x(t)
    &&& triangle_min_y(t) <= y < triangle_max_y(t)
    &&& triangle_contains(t, Vector2 { x: x as i32, y: y as i32 })
    &&& 0 <= x < e.width
    &&& 0 <= y < e.height
}

/// The number of pixels `(x, y)` of row `y` that `t` covers, for `x` from
/// the least X of `t` up to (not including) `x_end`.
pub open spec fn row_coverage(e: Extent, t: Triangle2D<i32>, y: int, x_end: int) -> nat
    decreases x_end - triangle_min_x(t),
{
    if x_end <= triangle_min_x(t) {
        0
    } else {
        row_coverage(e, t, y, x_end - 1) + if covers(e, t, x_end - 1, y) {
            1nat
        } else {
            0nat
        }
    }
}

/// The number of pixels that `t` covers in the rows from the least Y of `t`
/// up to (not including) `y_end`.
pub open spec fn rows_coverage(e: Extent, t: Triangle2D<i32>, y_end: int) -> nat
    decreases y_end - triangle_min_y(t),
{
    if y_end <= triangle_min_y(t) {
        0
    } else {
        rows_coverage(e, t, y_end - 1) + row_coverage(e, t, y_end - 1, triangle_max_x(t))
    }
}

/// The number of pixels that rasterizing `t` into a target of extent `e`
/// writes.
pub open spec fn coverage(e: Extent, t: Triangle2D<i32>) -> nat {
    rows_coverage(e, t, triangle_max_y(t))
}

proof fn lemma_row_coverage_bound(e: Extent, t: Triangle2D<i32>, y: int, x_end: int)
    ensures
        row_coverage(e, t, y, x_end) <= if x_end <= triangle_min_x(t) {
            0
        } else {
            x_end - triangle_min_x(t)
        },
    decreases x_end - triangle_min_x(t),
{
    if x_end > triangle_min_x(t) {
        lemma_row_coverage_bound(e, t, y, x_end - 1);
    }
}

proof fn lemma_rows_coverage_bound(e: Extent, t: Triangle2D<i32>, y_end: int)
    requires
        triangle_min_x(t) <= triangle_max_x(t),
    ensures
        rows_coverage(e, t, y_end) <= if y_end <= triangle_min_y(t) {
            0
        } else {
            (y_end - triangle_min_y(t)) * (triangle_max_x(t) - triangle_min_x(t))
        },
    decreases y_end - triangle_min_y(t),
{
    if y_end > triangle_min_y(t) {
        let width = triangle_max_x(t) - triangle_min_x(t);
        lemma_rows_coverage_bound(e, t, y_end - 1);
        lemma_row_coverage_bound(e, t, y_end - 1, triangle_max_x(t));
        assert((y_end - 1 - triangle_min_y(t)) * width + width == (y_end - triangle_min_y(t))
            * width) by (nonlinear_arith);
        assert(0 <= (y_end - 1 - triangle_min_y(t)) * width) by (nonlinear_arith)
            requires
                y_end - 1 - triangle_min_y(t) >= 0,
                width >= 0,
        ;
    }
}

proof fn lemma_flat_row_coverage(e: Extent, t: Triangle2D<i32>, y: int, x_end: int)
    requires
        triangle_area(t) == 0,
    ensures
        row_coverage(e, t, y, x_end) == 0,
    decreases x_end - triangle_min_x(t),
{
    if x_end > triangle_min_x(t) {
        lemma_flat_row_coverage(e, t, y, x_end - 1);
    }
}

proof fn lemma_flat_rows_coverage(e: Extent, t: Triangle2D<i32>, y_end: int)
    requires
        triangle_area(t) == 0,
    ensures
        rows_coverage(e, t, y_end) == 0,
    decreases y_end - triangle_min_y(t),
{
    if y_end > triangle_min_y(t) {
        lemma_flat_rows_coverage(e, t, y_end - 1);
        lemma_flat_row_coverage(e, t, y_end - 1, triangle_max_x(t));
    }
}

proof fn lemma_area_bound(a: int, b: int)
    requires
        0 <= a <= 0xFFFF_FFFF,
        0 <= b <= 0xFFFF_FFFF,
    ensures
        a * b <= u64::MAX,
{
    assert(a * b <= 0xFFFF_FFFF * 0xFFFF_FFFF) by (nonlinear_arith)
        requires
            0 <= a <= 0xFFFF_FFFF,
            0 <= b <= 0xFFFF_FFFF,
    ;
}

/// A triangle of zero area, such as one with collinear or coincident
/// vertices, covers no pixel: rasterizing it writes nothing.
pub proof fn lemma_degenerate_triangle_covers_nothing(e: Extent, t: Triangle2D<i32>)
    requires
        triangle_area(t) == 0,
    ensures
        forall|x: int, y: int| !#[trigger] covers(e, t, x, y),
{
}

/// Every pixel that a triangle covers lies in its half-open bounding
/// rectangle and within the target, and passes the containment test.
pub proof fn lemma_covered_pixels_pass_every_test(e: Extent, t: Triangle2D<i32>, x: int, y: int)
    requires
        covers(e, t, x, y),
    ensures
        triangle_min_x(t) <= x < triangle_max_x(t),
        triangle_min_y(t) <= y < triangle_max_y(t),
        0 <= x < e.width,
        0 <= y < e.height,
        triangle_contains(t, Vector2 { x: x as i32, y: y as i32 }),
{
}

/// Creates a pixel buffer of `width * height` pixels, each of them `color`.
pub fn create_pixel_buffer(width: usize, height: usize, color: Pixel) -> (r: Vec<Pixel>)
    requires
        width * height <= usize::MAX,
    ensures
        r@ == Seq::new((width * height) as nat, |i: int| color),
{
    let n: usize = width * height;
    let mut vec: Vec<Pixel> = Vec::new();
    while vec.len() < n
        invariant
            vec.len() <= n,
            forall|i: int| 0 <= i < vec.len() ==> vec@[i] == color,
        decreases n - vec.len(),
    {
        vec.push(color);
    }
    assert(vec@ =~= Seq::new(n as nat, |i: int| color));
    vec
}

/// The bytes of a pixel buffer in its wire layout (see `wire_bytes`).
pub fn pixel_bytes(pixels: &[Pixel]) -> (r: Vec<u8>)
    requires
        4 * pixels@.len() <= usize::MAX,
    ensures
        r@ == wire_bytes(pixels@),
{
    let mut bytes: Vec<u8> = Vec::new();
    let mut i: usize = 0;
    while i < pixels.len()
        invariant
            4 * pixels@.len() <= usize::MAX,
            i <= pixels@.len(),
            bytes@ == wire_bytes(pixels@.subrange(0, i as int)),
        decreases pixels.len() - i,
    {
        let p = pixels[i];
        bytes.push(p.red);
        bytes.push(p.green);
        bytes.push(p.blue);
        bytes.push(p.alpha);
        proof {
            let done = pixels@.subrange(0, i + 1);
            assert forall|k: int| 0 <= k < 4 * done.len() implies #[trigger] bytes@[k]
                == wire_bytes(done)[k] by {
                if k >= 4 * i {
                    assert(k / 4 == i) by (nonlinear_arith)
                        requires
                            4 * i <= k < 4 * i + 4,
                    ;
                } else {
                    assert(k / 4 < i) by (nonlinear_arith)
                        requires
                            0 <= k < 4 * i,
                    ;
                }
            }
            assert(bytes@ =~= wire_bytes(done));
        }
        i = i + 1;
    }
    assert(pixels@.subrange(0, i as int) =~= pixels@);
    bytes
}

proof fn lemma_row_major_index(x: int, y: int, w: int, h: int)
    requires
        0 <= x < w,
        0 <= y < h,
    ensures
        0 <= y * w + x < w * h,
        (y * w + x) % w == x,
        (y * w + x) / w == y,
{
    assert(0 <= y * w + x < w * h) by (nonlinear_arith)
        requires
            0 <= x < w,
            0 <= y < h,
    ;
    lemma_fundamental_div_mod_converse(y * w + x, w, y, x);
}

proof fn lemma_scaled_bound(a: int, b: int)
    requires
        -0x1_0000_0000 <= a <= 0x1_0000_0000,
        0 <= b <= 0x1_0000_0000_0000_0000,
    ensures
        -0x1_0000_0000_0000_0000_0000_0000 <= a * b <= 0x1_0000_0000_0000_0000_0000_0000,
{
    assert(-0x1_0000_0000_0000_0000_0000_0000 <= a * b <= 0x1_0000_0000_0000_0000_0000_0000)
        by (nonlinear_arith)
        requires
            -0x1_0000_0000 <= a <= 0x1_0000_0000,
            0 <= b <= 0x1_0000_0000_0000_0000,
    ;
}

/// Maps one normalized device coordinate to a pixel coordinate on an axis of
/// `dim` pixels.
fn axis_to_pixel(v: i32, dim: usize) -> (r: i32)
    ensures
        r == ndc_to_pixel(v as int, dim as int),
{
    let d: i128 = 2 * (NDC_ONE as i128);
    let shifted: i128 = v as i128 + NDC_ONE as i128;
    proof {
        lemma_scaled_bound(shifted as int, dim as int);
    }
    let n: i128 = shifted * (dim as i128);
    let magnitude: i128 = if n >= 0 {
        n
    } else {
        -n
    };
    let rounded: i128 = (2 * magnitude + d) / (2 * d);
    let q: i128 = if n >= 0 {
        rounded
    } else {
        -rounded
    };
    if q > i32::MAX as i128 {
        i32::MAX
    } else if q < i32::MIN as i128 {
        i32::MIN
    } else {
        q as i32
    }
}

/// A pixel buffer of exactly `width * height` pixels, row-major with the top
/// row first: the pixel `(x, y)` is at index `y * width + x`.
pub struct SwapChain {
    extent: Extent,
    buffer: Vec<Pixel>,
}

impl SwapChain {
    /// The extent of the buffer.
    pub closed spec fn spec_extent(&self) -> Extent {
        self.extent
    }

    /// The pixels of the buffer, row-major.
    pub closed spec fn pixels(&self) -> Seq<Pixel> {
        self.buffer@
    }

    /// The buffer holds exactly one pixel for each position of the extent.
    pub open spec fn wf(&self) -> bool {
        self.pixels().len() == pixel_count(self.spec_extent())
    }

    /// Creates a swap chain of the given extent, filled with opaque black.
    pub fn new(size: Extent) -> (r: Self)
        requires
            pixel_count(size) <= usize::MAX,
        ensures
            r.wf(),
            r.spec_extent() == size,
            r.pixels() == Seq::new(
                pixel_count(size) as nat,
                |i: int| Pixel { red: 0, green: 0, blue: 0, alpha: 0xFF },
            ),
    {
        Self {
            extent: Extent { width: size.width, height: size.height },
            buffer: create_pixel_buffer(size.width, size.height, Pixel::black()),
        }
    }

    /// The extent of the buffer.
    pub fn extent(&self) -> (r: Extent)
        ensures
            r == self.spec_extent(),
    {
        self.extent
    }

    /// The pixels of the buffer, row-major with the top row first.
    pub fn buffer(&self) -> (r: &[Pixel])
        ensures
            r@ == self.pixels(),
    {
        self.buffer.as_slice()
    }

    /// Overwrites every pixel with `color`; the extent and the number of
    /// pixels stay as they are.
    pub fn clear(&mut self, color: Pixel)
        requires
            old(self).wf(),
        ensures
            final(self).wf(),
            final(self).spec_extent() == old(self).spec_extent(),
            final(self).pixels() == Seq::new(old(self).pixels().len(), |i: int| color),
    {
        let n: usize = self.buffer.len();
        let mut i: usize = 0;
        while i < n
            invariant
                n == self.buffer@.len(),
                self.extent == old(self).extent,
                self.buffer@.len() == old(self).buffer@.len(),
                i <= n,
                forall|k: int| 0 <= k < i ==> self.buffer@[k] == color,
            decreases n - i,
        {
            self.buffer[i] = color;
            i = i + 1;
        }
        assert(self.buffer@ =~= Seq::new(old(self).pixels().len(), |i: int| color));
    }

    /// Replaces the buffer with one of the new extent, every pixel of it
    /// `color`. Nothing of the old content is kept.
    pub fn resize_with_clear_color(&mut self, size: Extent, color: Pixel)
        requires
            pixel_count(size) <= usize::MAX,
        ensures
            final(self).wf(),
            final(self).spec_extent() == size,
            final(self).pixels() == Seq::new(pixel_count(size) as nat, |i: int| color),
    {
        self.extent = Extent { width: size.width, height: size.height };
        self.buffer = create_pixel_buffer(size.width, size.height, color);
    }

    /// Whether the point lies within the extent: `0 <= x < width` and
    /// `0 <= y < height`.
    pub fn is_point_inside(&self, point: Vector2<i32>) -> (r: bool)
        ensures
            r == (0 <= point.x < self.spec_extent().width && 0 <= point.y
                < self.spec_extent().height),
    {
        point.x >= 0 && point.y >= 0 && (point.x as usize) < self.extent.width
            && (point.y as usize) < self.extent.height
    }

    fn set_pixel(&mut self, point: Vector2<i32>, color: Pixel)
        requires
            old(self).wf(),
            0 <= point.x < old(self).spec_extent().width,
            0 <= point.y < old(self).spec_extent().height,
        ensures
            final(self).spec_extent() == old(self).spec_extent(),
            final(self).pixels() == old(self).pixels().update(
                point.y * old(self).spec_extent().width + point.x,
                color,
            ),
    {
        let x = point.x as usize;
        let y = point.y as usize;
        proof {
            lemma_row_major_index(
                x as int,
                y as int,
                self.extent.width as int,
                self.extent.height as int,
            );
        }
        assert(self.buffer@.len() == self.buffer.len());
        let index = y * self.extent.width + x;
        self.buffer[index] = color;
    }

    /// Maps a position in normalized device coordinates to pixel space: each
    /// axis by `round((v / NDC_ONE + 1) / 2 * dim)`, with the width for X and
    /// the height for Y.
    pub fn vertex_to_pixel_position(&self, vertex: Vector2<i32>) -> (r: Vector2<i32>)
        ensures
            r.x == ndc_to_pixel(vertex.x as int, self.spec_extent().width as int),
            r.y == ndc_to_pixel(vertex.y as int, self.spec_extent().height as int),
    {
        let x = axis_to_pixel(vertex.x, self.extent.width);
        let y = axis_to_pixel(vertex.y, self.extent.height);
        Vector2::new(x, y)
    }

    /// Fills the pixel-space triangle: every pixel of its half-open bounding
    /// rectangle that passes the containment test and lies within the
    /// extent takes the fragment shader's color; the shader runs once for
    /// each such pixel. A triangle of zero area writes nothing. Pixels that
    /// the triangle does not cover keep their color. Returns the number of
    /// pixels shaded, which is the number of pixels that the triangle covers.
    pub fn rasterize_triangle<F: FragmentShader2D>(
        &mut self,
        triangle: &Triangle2D<i32>,
        fragment_shader: &F,
    ) -> (r: u64)
        requires
            old(self).wf(),
        ensures
            r == coverage(old(self).spec_extent(), *triangle),
            final(self).wf(),
            final(self).spec_extent() == old(self).spec_extent(),
            final(self).pixels() == paint(
                old(self).spec_extent(),
                old(self).pixels(),
                *triangle,
                fragment_shader.color(),
            ),
    {
        let ghost e = self.extent;
        let ghost w = e.width as int;
        let ghost t = *triangle;
        let ghost before = self.buffer@;
        let ghost color = fragment_shader.color();
        if triangle.area() == 0 {
            proof {
                lemma_flat_rows_coverage(self.extent, *triangle, triangle_max_y(*triangle));
                assert(self.buffer@ =~= paint(e, before, t, color));
            }
            return 0;
        }
        let rect = triangle.encapsulating_rectangle();
        let rows = rect.y_range();
        let columns = rect.x_range();
        let mut shaded: u64 = 0;
        let mut y: i32 = rows.start;
        while y < rows.end
            invariant
                shaded == rows_coverage(e, t, y as int),
                y <= rows.end,
                self.extent == e,
                w == e.width as int,
                color == fragment_shader.color(),
                self.buffer@.len() == before.len(),
                before.len() == pixel_count(e),
                triangle_area(t) > 0,
                t == *triangle,
                rows.start == triangle_min_y(t),
                rows.end == triangle_max_y(t),
                columns.start == triangle_min_x(t),
                columns.end == triangle_max_x(t),
                rows.start <= y,
                forall|i: int|
                    0 <= i < before.len() ==> #[trigger] self.buffer@[i] == if covers(
                        e,
                        t,
                        i % w,
                        i / w,
                    ) && i / w < y {
                        color
                    } else {
                        before[i]
                    },
            decreases rows.end - y,
        {
            let mut x: i32 = columns.start;
            while x < columns.end
                invariant
                    shaded == rows_coverage(e, t, y as int) + row_coverage(e, t, y as int, x as int),
                    x <= columns.end,
                    self.extent == e,
                    w == e.width as int,
                    color == fragment_shader.color(),
                    self.buffer@.len() == before.len(),
                    before.len() == pixel_count(e),
                    triangle_area(t) > 0,
                    t == *triangle,
                    rows.start == triangle_min_y(t),
                    rows.end == triangle_max_y(t),
                    columns.start == triangle_min_x(t),
                    columns.end == triangle_max_x(t),
                    rows.start <= y < rows.end,
                    columns.start <= x,
                    forall|i: int|
                        0 <= i < before.len() ==> #[trigger] self.buffer@[i] == if covers(
                            e,
                            t,
                            i % w,
                            i / w,
                        ) && (i / w < y || (i / w == y && i % w < x)) {
                            color
                        } else {
                            before[i]
                        },
                decreases columns.end - x,
            {
                let point = Vector2::new(x, y);
                let ghost current = self.buffer@;
                if triangle.hit_test(point) && self.is_point_inside(point) {
                    let pixel_color = fragment_shader.run();
                    proof {
                        lemma_row_major_index(x as int, y as int, w, e.height as int);
                        let columns_len = columns.end - columns.start;
                        let rows_len = rows.end - rows.start;
                        lemma_rows_coverage_bound(e, t, y as int);
                        lemma_row_coverage_bound(e, t, y as int, x as int);
                        assert((y - rows.start) * columns_len + columns_len <= rows_len
                            * columns_len) by (nonlinear_arith)
                            requires
                                0 <= y - rows.start < rows_len,
                                columns_len >= 0,
                        ;
                        lemma_area_bound(rows_len, columns_len);
                    }
                    self.set_pixel(point, pixel_color);
                    shaded = shaded + 1;
                    proof {
                        let index = y * w + x;
                        assert(point == Vector2 { x: (x as int) as i32, y: (y as int) as i32 });
                        assert(covers(e, t, x as int, y as int));
                        assert(index % w == x && index / w == y);
                        assert forall|i: int| 0 <= i < before.len() implies #[trigger] self.buffer@[i]
                            == if covers(e, t, i % w, i / w) && (i / w < y || (i / w == y && i % w
                            < x + 1)) {
                            color
                        } else {
                            before[i]
                        } by {
                            if i != index {
                                lemma_fundamental_div_mod(i, w);
                                assert(current[i] == self.buffer@[i]);
                                assert(i == w * (i / w) + i % w);
                                assert(!(i / w == y && i % w == x)) by {
                                    if i / w == y && i % w == x {
                                        assert(w * (i / w) == y * w) by (nonlinear_arith)
                                            requires
                                                i / w == y,
                                        ;
                                    }
                                }
                            } else {
                                assert(self.buffer@[i] == color);
                            }
                        }
                    }
                } else {
                    proof {
                        assert(!covers(e, t, x as int, y as int));
                        assert forall|i: int| 0 <= i < before.len() implies #[trigger] self.buffer@[i]
                            == if covers(e, t, i % w, i / w) && (i / w < y || (i / w == y && i % w
                            < x + 1)) {
                            color
                        } else {
                            before[i]
                        } by {
                            assert(current[i] == self.buffer@[i]);
                        }
                    }
                }
                x = x + 1;
            }
            y = y + 1;
        }
        proof {
            assert(self.buffer@ =~= paint(e, before, t, color));
        }
        shaded
    }

    /// Fills the triangle of three positions in normalized device
    /// coordinates, as the vertex shader returned them: they are mapped to
    /// pixel space, and the triangle they form is rasterized. Returns the
    /// number of pixels shaded.
    pub fn draw_triangle<F: FragmentShader2D>(
        &mut self,
        a: Vector2<i32>,
        b: Vector2<i32>,
        c: Vector2<i32>,
        fragment_shader: &F,
    ) -> (r: u64)
        requires
            old(self).wf(),
        ensures
            r == coverage(old(self).spec_extent(), mapped_triangle(old(self).spec_extent(), a, b, c)),
            final(self).wf(),
            final(self).spec_extent() == old(self).spec_extent(),
            final(self).pixels() == paint(
                old(self).spec_extent(),
                old(self).pixels(),
                mapped_triangle(old(self).spec_extent(), a, b, c),
                fragment_shader.color(),
            ),
    {
        let coord_a = self.vertex_to_pixel_position(a);
        let coord_b = self.vertex_to_pixel_position(b);
        let coord_c = self.vertex_to_pixel_position(c);
        let triangle = Triangle2D(coord_a, coord_b, coord_c);
        self.rasterize_triangle(&triangle, fragment_shader)
    }

    /// Draws each triangle in order: its three vertices go through the vertex
    /// shader, are mapped to pixel space, and every pixel that the triangle
    /// they form covers takes the fragment shader's color. A later triangle
    /// paints over an earlier one.
    pub fn draw_rasterized<V: VertexShader2D, F: FragmentShader2D>(
        &mut self,
        vertices: &[TriangleVertices],
        vertex_shader: &V,
        fragment_shader: &F,
    )
        requires
            old(self).wf(),
        ensures
            final(self).wf(),
            final(self).spec_extent() == old(self).spec_extent(),
            final(self).pixels() == painted(
                old(self).spec_extent(),
                old(self).pixels(),
                vertices@,
                *vertex_shader,
                fragment_shader.color(),
            ),
    {
        let mut i: usize = 0;
        while i < vertices.len()
            invariant
                self.wf(),
                self.spec_extent() == old(self).spec_extent(),
                i <= vertices@.len(),
                self.pixels() == painted(
                    old(self).spec_extent(),
                    old(self).pixels(),
                    vertices@.subrange(0, i as int),
                    *vertex_shader,
                    fragment_shader.color(),
                ),
            decreases vertices.len() - i,
        {
            let triple = vertices[i];
            let va = vertex_shader.run(triple.a);
            let vb = vertex_shader.run(triple.b);
            let vc = vertex_shader.run(triple.c);
            let _shaded = self.draw_triangle(va, vb, vc, fragment_shader);
            proof {
                let done = vertices@.subrange(0, i + 1);
                assert(done.drop_last() =~= vertices@.subrange(0, i as int));
                assert(done.last() == triple);
            }
            i = i + 1;
        }
        proof {
            assert(vertices@.subrange(0, i as int) =~= vertices@);
        }
    }
}

} // verus!
