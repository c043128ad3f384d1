use std::cell::Cell;

use raggio::math::{Triangle2D, Vector2};
use raggio::platform::{bitmap_dimensions, SurfacePresentationError};
use raggio::shader::{FragmentShader2D, VertexShader2D};
use raggio::swap_chain::{create_pixel_buffer, pixel_bytes, Extent, SwapChain};
use raggio::{Pixel, TriangleVertices, NDC_ONE};

struct Identity;

impl VertexShader2D for Identity {
    fn transform(&self, position: Vector2<i32>) -> Vector2<i32> {
        position
    }

    fn run(&self, position: Vector2<i32>) -> Vector2<i32> {
        self.transform(position)
    }
}

struct Constant(Pixel);

impl FragmentShader2D for Constant {
    fn color(&self) -> Pixel {
        self.0
    }

    fn run(&self) -> Pixel {
        self.color()
    }
}

struct Counting {
    calls: Cell<usize>,
    color: Pixel,
}

impl FragmentShader2D for Counting {
    fn color(&self) -> Pixel {
        self.color
    }

    fn run(&self) -> Pixel {
        self.calls.set(self.calls.get() + 1);
        self.color()
    }
}

fn black() -> Pixel {
    Pixel::new(0, 0, 0, 0xFF)
}

fn half() -> i32 {
    NDC_ONE / 2
}

#[test]
fn new_swap_chain_is_black() {
    let chain = SwapChain::new(Extent { width: 3, height: 2 });
    assert_eq!(chain.extent(), Extent { width: 3, height: 2 });
    assert_eq!(chain.buffer().len(), 6);
    assert!(chain.buffer().iter().all(|p| *p == black()));
    assert_eq!(Pixel::black(), black());
}

#[test]
fn clear_fills_every_pixel() {
    let mut chain = SwapChain::new(Extent { width: 7, height: 5 });
    let color = Pixel::new(1, 2, 3, 4);
    chain.clear(color);
    assert_eq!(chain.buffer().len(), 35);
    assert!(chain.buffer().iter().all(|p| *p == color));
    assert_eq!(chain.extent(), Extent { width: 7, height: 5 });
}

#[test]
fn resize_replaces_the_buffer() {
    let mut chain = SwapChain::new(Extent { width: 4, height: 4 });
    chain.clear(Pixel::new(9, 9, 9, 9));
    let color = Pixel::new(10, 20, 30, 40);
    chain.resize_with_clear_color(Extent { width: 6, height: 3 }, color);
    assert_eq!(chain.extent(), Extent { width: 6, height: 3 });
    assert_eq!(chain.buffer().len(), 18);
    assert!(chain.buffer().iter().all(|p| *p == color));
}

#[test]
fn resize_to_nothing_makes_drawing_a_no_op() {
    let mut chain = SwapChain::new(Extent { width: 4, height: 4 });
    chain.resize_with_clear_color(Extent { width: 0, height: 0 }, black());
    assert_eq!(chain.buffer().len(), 0);
    chain.clear(Pixel::new(1, 1, 1, 1));
    let vertices = [TriangleVertices::new(Vector2::new(-NDC_ONE, -NDC_ONE),
        Vector2::new(NDC_ONE, -NDC_ONE), Vector2::new(0, NDC_ONE))];
    chain.draw_rasterized(&vertices, &Identity, &Constant(Pixel::new(5, 5, 5, 5)));
    assert_eq!(chain.buffer().len(), 0);
}

#[test]
fn create_pixel_buffer_fills_width_times_height() {
    let color = Pixel::new(0x30, 0xA7, 0xF8, 0xFF);
    let buffer = create_pixel_buffer(5, 3, color);
    assert_eq!(buffer.len(), 15);
    assert!(buffer.iter().all(|p| *p == color));
    assert!(create_pixel_buffer(0, 9, color).is_empty());
}

#[test]
fn draws_one_triangle_end_to_end() {
    let mut chain = SwapChain::new(Extent { width: 100, height: 100 });
    chain.clear(black());
    let vertices = [TriangleVertices::new(Vector2::new(0, -half()),
        Vector2::new(-half(), half()), Vector2::new(half(), half()))];
    let color = Pixel::new(0x30, 0xA7, 0xF8, 0xFF);
    chain.draw_rasterized(&vertices, &Identity, &Constant(color));
    assert_eq!(chain.buffer()[50 * 100 + 50], color);
    assert_eq!(chain.buffer()[0], black());
    assert_eq!(chain.buffer().len(), 10000);
}

#[test]
fn ndc_maps_x_by_width_and_y_by_height() {
    let chain = SwapChain::new(Extent { width: 200, height: 100 });
    let p = chain.vertex_to_pixel_position(Vector2::new(0, 0));
    assert_eq!(p, Vector2::new(100, 50));
    let p = chain.vertex_to_pixel_position(Vector2::new(-NDC_ONE, NDC_ONE));
    assert_eq!(p, Vector2::new(0, 100));
    let p = chain.vertex_to_pixel_position(Vector2::new(half(), -half()));
    assert_eq!(p, Vector2::new(150, 25));
}

#[test]
fn ndc_mapping_rounds_halves_away_from_zero() {
    let chain = SwapChain::new(Extent { width: 3, height: 1 });
    // (0 + 1) / 2 * 3 = 1.5 rounds to 2; (-1 + 1) / 2 * 1 = 0.
    let p = chain.vertex_to_pixel_position(Vector2::new(0, -NDC_ONE));
    assert_eq!(p, Vector2::new(2, 0));
    // (-2 + 1) / 2 * 3 = -1.5 rounds to -2.
    let p = chain.vertex_to_pixel_position(Vector2::new(-2 * NDC_ONE, 0));
    assert_eq!(p.x, -2);
}

#[test]
fn ndc_mapping_saturates() {
    let chain = SwapChain::new(Extent { width: 4_000_000, height: 0 });
    let p = chain.vertex_to_pixel_position(Vector2::new(i32::MAX, i32::MIN));
    assert_eq!(p.x, i32::MAX);
    assert_eq!(p.y, 0);
    let chain = SwapChain::new(Extent { width: 4_000_000, height: 1 });
    let p = chain.vertex_to_pixel_position(Vector2::new(i32::MIN, 0));
    assert_eq!(p.x, i32::MIN);
}

#[test]
fn point_inside_extent() {
    let chain = SwapChain::new(Extent { width: 3, height: 2 });
    assert!(chain.is_point_inside(Vector2::new(0, 0)));
    assert!(chain.is_point_inside(Vector2::new(2, 1)));
    assert!(!chain.is_point_inside(Vector2::new(3, 1)));
    assert!(!chain.is_point_inside(Vector2::new(2, 2)));
    assert!(!chain.is_point_inside(Vector2::new(-1, 0)));
}

#[test]
fn collinear_triangle_writes_nothing() {
    let mut chain = SwapChain::new(Extent { width: 4, height: 4 });
    let shader = Counting { calls: Cell::new(0), color: Pixel::new(1, 2, 3, 4) };
    let triangle = Triangle2D(Vector2::new(0, 0), Vector2::new(1, 1), Vector2::new(2, 2));
    assert_eq!(chain.rasterize_triangle(&triangle, &shader), 0);
    assert_eq!(shader.calls.get(), 0);
    assert!(chain.buffer().iter().all(|p| *p == black()));
}

#[test]
fn fragment_runs_once_per_covered_pixel() {
    let extent = Extent { width: 10, height: 8 };
    let mut chain = SwapChain::new(extent);
    let color = Pixel::new(7, 7, 7, 7);
    let shader = Counting { calls: Cell::new(0), color };
    let triangle = Triangle2D(Vector2::new(-3, 1), Vector2::new(12, 4), Vector2::new(2, 11));
    let shaded = chain.rasterize_triangle(&triangle, &shader);
    let rectangle = triangle.encapsulating_rectangle();
    let mut expected = 0;
    for y in rectangle.y_range() {
        for x in rectangle.x_range() {
            let point = Vector2::new(x, y);
            if triangle.hit_test(point) && chain.is_point_inside(point) {
                expected += 1;
                assert_eq!(chain.buffer()[y as usize * 10 + x as usize], color);
            }
        }
    }
    assert!(expected > 0);
    assert_eq!(shader.calls.get(), expected);
    assert_eq!(shaded, expected as u64);
    let written = chain.buffer().iter().filter(|p| **p == color).count();
    assert_eq!(written, expected);
}

#[test]
fn later_triangle_wins() {
    let mut chain = SwapChain::new(Extent { width: 20, height: 20 });
    let whole = TriangleVertices::new(Vector2::new(-NDC_ONE, -NDC_ONE),
        Vector2::new(NDC_ONE, -NDC_ONE), Vector2::new(-NDC_ONE, NDC_ONE));
    let first = Pixel::new(1, 0, 0, 0xFF);
    let second = Pixel::new(2, 0, 0, 0xFF);
    chain.draw_rasterized(&[whole], &Identity, &Constant(first));
    assert_eq!(chain.buffer()[21], first);
    chain.draw_rasterized(&[whole], &Identity, &Constant(second));
    assert_eq!(chain.buffer()[21], second);
    // Pixel (19, 19) lies outside the triangle and keeps its color.
    assert_eq!(chain.buffer()[19 * 20 + 19], black());
}

#[test]
fn overlapping_triangles_in_one_list() {
    let mut chain = SwapChain::new(Extent { width: 20, height: 20 });
    let lower = TriangleVertices::new(Vector2::new(-NDC_ONE, -NDC_ONE),
        Vector2::new(NDC_ONE, -NDC_ONE), Vector2::new(-NDC_ONE, NDC_ONE));
    let upper = TriangleVertices::new(Vector2::new(NDC_ONE, NDC_ONE),
        Vector2::new(NDC_ONE, -NDC_ONE), Vector2::new(-NDC_ONE, NDC_ONE));
    let color = Pixel::new(0x30, 0xA7, 0xF8, 0xFF);
    chain.draw_rasterized(&[lower, upper], &Identity, &Constant(color));
    assert_eq!(chain.buffer()[21], color);
    assert_eq!(chain.buffer()[18 * 20 + 18], color);
    // The half-open bounding rectangles stop before x = 20 and y = 20, so
    // every pixel of the target is covered by one of the two.
    assert!(chain.buffer().iter().all(|p| *p == color));
}

#[test]
fn bitmap_dimensions_of_presentable_extent() {
    assert_eq!(bitmap_dimensions(Extent { width: 640, height: 480 }), Ok((640, -480)));
    assert_eq!(bitmap_dimensions(Extent { width: i32::MAX as usize, height: 0 }),
        Ok((i32::MAX, 0)));
}

#[test]
fn bitmap_dimensions_reject_too_large() {
    let too_large = i32::MAX as usize + 1;
    assert_eq!(bitmap_dimensions(Extent { width: too_large, height: 1 }),
        Err(SurfacePresentationError::ImageTooLarge));
    assert_eq!(bitmap_dimensions(Extent { width: 1, height: too_large }),
        Err(SurfacePresentationError::ImageTooLarge));
}

#[test]
fn pixel_bytes_are_red_green_blue_alpha() {
    let pixels = [Pixel::new(1, 2, 3, 4), Pixel::new(0x30, 0xA7, 0xF8, 0xFF)];
    assert_eq!(pixel_bytes(&pixels), vec![1, 2, 3, 4, 0x30, 0xA7, 0xF8, 0xFF]);
    assert!(pixel_bytes(&[]).is_empty());
}

#[test]
fn draw_triangle_maps_then_fills() {
    let mut chain = SwapChain::new(Extent { width: 100, height: 100 });
    let color = Pixel::new(0x30, 0xA7, 0xF8, 0xFF);
    let shaded = chain.draw_triangle(Vector2::new(0, -half()), Vector2::new(-half(), half()),
        Vector2::new(half(), half()), &Constant(color));
    let expected = chain.buffer().iter().filter(|p| **p == color).count();
    assert_eq!(shaded, expected as u64);
    assert!(shaded > 0);
    assert_eq!(chain.buffer()[50 * 100 + 50], color);
    assert_eq!(chain.buffer()[0], black());
    // Pixel-space vertices (50, 25), (25, 75), (75, 75): the rows end
    // before y = 75 and the columns before x = 75.
    assert_eq!(chain.buffer()[75 * 100 + 50], black());
    assert_eq!(chain.buffer()[74 * 100 + 50], color);
}
