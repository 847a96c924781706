use raster2d::blend::{blend_pixel, ts_blend_mode};
use raster2d::geom::{Point, Rect, Transform};
use raster2d::path::{PathBuilder, PathVerb, rounded_rect};
use raster2d::pixmap::{Pixel, Pixmap, ts_color};
use raster2d::raster::{fill_path, fill_rect, ts_fill_rule};
use raster2d::shader::{LinearGradient, Paint, RadialGradient, shade, spread_t, ts_spread_mode};
use raster2d::stroke::{stroke_path, stroke_rect, Stroke};
use raster2d::RenderError;

const ONE: i64 = 256;

fn px(n: i64) -> i64 {
    n * ONE
}

fn red() -> Paint {
    Paint::Solid(ts_color { r: 255, g: 0, b: 0, a: 255 })
}

fn pixel_at(pm: &Pixmap, x: u32, y: u32) -> Pixel {
    pm.get(x, y)
}

#[test]
fn transform_identity_combine() {
    let t = Transform { sx: 300, kx: -40, ky: 77, sy: 123, tx: 999, ty: -456 };
    let id = Transform::identity();
    assert_eq!(Transform::combine(id, t), t);
    assert_eq!(Transform::combine(t, id), t);
}

#[test]
fn transform_rotate_inverse_near_identity() {
    let a = 30 * ONE;
    let r1 = Transform::rotate(a);
    let r2 = Transform::rotate(-a);
    let c = Transform::combine(r1, r2);
    assert!((c.sx - ONE).abs() <= 4, "sx {}", c.sx);
    assert!((c.sy - ONE).abs() <= 4, "sy {}", c.sy);
    assert!(c.kx.abs() <= 4);
    assert!(c.ky.abs() <= 4);
    assert_eq!(c.tx, 0);
    assert_eq!(c.ty, 0);
}

#[test]
fn transform_rotate_quarter_exact() {
    let r = Transform::rotate(90 * ONE);
    assert_eq!(r.sx, 0);
    assert_eq!(r.kx, ONE);
    assert_eq!(r.ky, -ONE);
    assert_eq!(r.sy, 0);
}

#[test]
fn path_segment_count_stable() {
    let mut b = PathBuilder::new();
    b.move_to(0, 0);
    b.line_to(px(10), 0);
    b.line_to(px(10), px(10));
    b.close();
    let p = b.finish().unwrap();
    assert_eq!(p.len(), 3);
    assert_eq!(p.len(), 3);
}

#[test]
fn path_drawing_before_move_ignored() {
    let mut b = PathBuilder::new();
    b.line_to(px(5), px(5));
    b.quad_to(px(1), px(1), px(2), px(2));
    assert!(matches!(b.finish(), Err(RenderError::EmptyPath)));
}

#[test]
fn empty_builder_is_error() {
    let b = PathBuilder::new();
    assert!(matches!(b.finish(), Err(RenderError::EmptyPath)));
}

#[test]
fn rect_reversed_is_error() {
    assert!(matches!(Rect::from_ltrb(px(4), 0, px(1), px(2)), Err(RenderError::InvalidRect)));
    assert!(matches!(Rect::from_ltrb(0, px(4), px(1), px(2)), Err(RenderError::InvalidRect)));
    assert!(Rect::from_ltrb(0, 0, px(4), px(4)).is_ok());
}

#[test]
fn pixmap_zero_dims_is_error() {
    assert!(matches!(Pixmap::create(0, 4), Err(RenderError::InvalidDimensions)));
    assert!(matches!(Pixmap::create(4, 0), Err(RenderError::InvalidDimensions)));
    assert!(Pixmap::create(4, 4).is_ok());
}

#[test]
fn stroke_nonpositive_width_is_error() {
    assert!(matches!(Stroke::new(0), Err(RenderError::InvalidStroke)));
    assert!(matches!(Stroke::new(-5), Err(RenderError::InvalidStroke)));
    assert!(Stroke::new(ONE).is_ok());
}

#[test]
fn rounded_rect_radius_clamps() {
    let rect = Rect::from_ltrb(0, 0, px(10), px(8)).unwrap();
    let a = rounded_rect(&rect, px(50), px(50));
    let b = rounded_rect(&rect, px(5), px(4));
    assert_eq!(a.verb_count(), b.verb_count());
    for i in 0..a.verb_count() {
        assert_eq!(a.verb(i), b.verb(i));
    }
    // the first corner lands exactly half the width from the left edge
    match a.verb(0) {
        PathVerb::Move(p) => assert_eq!(p, Point { x: px(5), y: 0 }),
        v => panic!("expected move, got {:?}", v),
    }
    match a.verb(1) {
        PathVerb::Line(p) => assert_eq!(p, Point { x: px(5), y: 0 }),
        v => panic!("expected line, got {:?}", v),
    }
}

#[test]
fn arc_zero_radius_is_straight_line() {
    let mut b = PathBuilder::new();
    b.move_to(0, 0);
    b.arc_to(0, 0, 0, false, true, px(10), px(10));
    let p = b.finish().unwrap();
    assert_eq!(p.verb_count(), 2);
    match p.verb(1) {
        PathVerb::Line(q) => assert_eq!(q, Point { x: px(10), y: px(10) }),
        v => panic!("expected line, got {:?}", v),
    }
}

#[test]
fn arc_emits_cubics_ending_at_endpoint() {
    let mut b = PathBuilder::new();
    b.move_to(px(10), 0);
    b.arc_to(px(10), px(10), 0, false, true, 0, px(10));
    let p = b.finish().unwrap();
    assert!(p.verb_count() >= 2);
    match p.verb(p.verb_count() - 1) {
        PathVerb::Cubic(_, _, q) => assert_eq!(q, Point { x: 0, y: px(10) }),
        v => panic!("expected cubic, got {:?}", v),
    }
}

#[test]
fn fill_rules_differ_on_figure_eight() {
    // two same-orientation overlapping squares: winding 2 in the overlap
    let build = || {
        let mut b = PathBuilder::new();
        b.move_to(0, 0);
        b.line_to(px(4), 0);
        b.line_to(px(4), px(4));
        b.line_to(0, px(4));
        b.close();
        b.move_to(px(2), px(2));
        b.line_to(px(6), px(2));
        b.line_to(px(6), px(6));
        b.line_to(px(2), px(6));
        b.close();
        b.finish().unwrap()
    };
    let id = Transform::identity();
    let mut pm_nz = Pixmap::create(8, 8).unwrap();
    fill_path(&mut pm_nz, &build(), &id, &red(), ts_fill_rule::Winding, ts_blend_mode::SourceOver);
    let mut pm_eo = Pixmap::create(8, 8).unwrap();
    fill_path(&mut pm_eo, &build(), &id, &red(), ts_fill_rule::EvenOdd, ts_blend_mode::SourceOver);
    // overlap pixel: filled under non-zero winding, empty under even-odd
    assert_eq!(pixel_at(&pm_nz, 3, 3).a, 255);
    assert_eq!(pixel_at(&pm_eo, 3, 3).a, 0);
    // single-winding pixel: filled under both
    assert_eq!(pixel_at(&pm_nz, 1, 1).a, 255);
    assert_eq!(pixel_at(&pm_eo, 1, 1).a, 255);
}

#[test]
fn fill_red_reads_out_bgra() {
    let mut pm = Pixmap::create(2, 2).unwrap();
    let rect = Rect::from_ltrb(0, 0, px(2), px(2)).unwrap();
    fill_rect(&mut pm, &rect, &Transform::identity(), &red(), ts_blend_mode::SourceOver);
    let out = pm.read_out();
    assert_eq!(out.len(), 2 * 2 * 4);
    for i in 0..4usize {
        assert_eq!(out.byte(4 * i), 0, "blue");
        assert_eq!(out.byte(4 * i + 1), 0, "green");
        assert_eq!(out.byte(4 * i + 2), 255, "red");
        assert_eq!(out.byte(4 * i + 3), 255, "alpha");
    }
}

#[test]
fn half_alpha_red_over_white_matches_porter_duff() {
    let mut pm = Pixmap::create(2, 2).unwrap();
    let rect = Rect::from_ltrb(0, 0, px(2), px(2)).unwrap();
    let white = Paint::Solid(ts_color { r: 255, g: 255, b: 255, a: 255 });
    fill_rect(&mut pm, &rect, &Transform::identity(), &white, ts_blend_mode::SourceOver);
    let half_red = Paint::Solid(ts_color { r: 255, g: 0, b: 0, a: 128 });
    fill_rect(&mut pm, &rect, &Transform::identity(), &half_red, ts_blend_mode::SourceOver);
    let p = pixel_at(&pm, 0, 0);
    // closed form: src premul (128,0,0,128) over (255,255,255,255)
    assert!((p.r as i64 - 255).abs() <= 2, "r {}", p.r);
    assert!((p.g as i64 - 127).abs() <= 2, "g {}", p.g);
    assert!((p.b as i64 - 127).abs() <= 2, "b {}", p.b);
    assert_eq!(p.a, 255);
}

#[test]
fn fill_rect_matches_path_fill() {
    let rect = Rect::from_ltrb(px(1), px(1), px(5), px(3)).unwrap();
    let mut pm1 = Pixmap::create(6, 6).unwrap();
    fill_rect(&mut pm1, &rect, &Transform::identity(), &red(), ts_blend_mode::SourceOver);
    let mut b = PathBuilder::new();
    b.move_to(px(1), px(1));
    b.line_to(px(5), px(1));
    b.line_to(px(5), px(3));
    b.line_to(px(1), px(3));
    b.close();
    let p = b.finish().unwrap();
    let mut pm2 = Pixmap::create(6, 6).unwrap();
    fill_path(&mut pm2, &p, &Transform::identity(), &red(), ts_fill_rule::Winding,
        ts_blend_mode::SourceOver);
    let o1 = pm1.read_out();
    let o2 = pm2.read_out();
    assert_eq!(o1.len(), o2.len());
    for i in 0..o1.len() {
        assert_eq!(o1.byte(i), o2.byte(i), "byte {}", i);
    }
}

#[test]
fn gradient_spread_modes_at_three_halves() {
    // black at 0, white at 1, sampled at t = 1.5 along the axis
    let make = |mode: ts_spread_mode| {
        let mut g = LinearGradient::create(0, 0, ONE, 0, mode, Transform::identity());
        g.push_stop(0, ts_color { r: 0, g: 0, b: 0, a: 255 });
        g.push_stop(ONE, ts_color { r: 255, g: 255, b: 255, a: 255 });
        Paint::Linear(g)
    };
    let x = 384; // 1.5 in fixed point
    let pad = shade(&make(ts_spread_mode::Pad), x, 0);
    assert_eq!((pad.r, pad.g, pad.b, pad.a), (255, 255, 255, 255));
    let rep = shade(&make(ts_spread_mode::Repeat), x, 0);
    assert_eq!((rep.r, rep.g, rep.b, rep.a), (127, 127, 127, 255));
    let refl = shade(&make(ts_spread_mode::Reflect), x, 0);
    assert_eq!((refl.r, refl.g, refl.b, refl.a), (127, 127, 127, 255));
}

#[test]
fn spread_functions_exact() {
    assert_eq!(spread_t(ts_spread_mode::Pad, 384), 256);
    assert_eq!(spread_t(ts_spread_mode::Pad, -5), 0);
    assert_eq!(spread_t(ts_spread_mode::Repeat, 384), 128);
    assert_eq!(spread_t(ts_spread_mode::Repeat, -64), 192);
    assert_eq!(spread_t(ts_spread_mode::Reflect, 384), 128);
    assert_eq!(spread_t(ts_spread_mode::Reflect, 300), 212);
}

#[test]
fn degenerate_linear_gradient_uses_first_stop() {
    let mut g = LinearGradient::create(px(1), px(1), px(1), px(1), ts_spread_mode::Pad,
        Transform::identity());
    g.push_stop(0, ts_color { r: 10, g: 20, b: 30, a: 255 });
    g.push_stop(ONE, ts_color { r: 200, g: 200, b: 200, a: 255 });
    let p = shade(&Paint::Linear(g), px(3), px(4));
    assert_eq!((p.r, p.g, p.b, p.a), (10, 20, 30, 255));
}

#[test]
fn radial_gradient_center_ramp() {
    let mut g = RadialGradient::create(px(4), px(4), px(4), px(4), px(4), ts_spread_mode::Pad,
        Transform::identity());
    g.push_stop(0, ts_color { r: 0, g: 0, b: 0, a: 255 });
    g.push_stop(ONE, ts_color { r: 255, g: 255, b: 255, a: 255 });
    let pa = Paint::Radial(g);
    let center = shade(&pa, px(4), px(4));
    assert_eq!((center.r, center.g, center.b, center.a), (0, 0, 0, 255));
    let mid = shade(&pa, px(6), px(4)); // distance 2 of radius 4
    assert!((mid.r as i64 - 127).abs() <= 2, "mid {}", mid.r);
    let edge = shade(&pa, px(12), px(4)); // beyond the radius, pad clamps
    assert_eq!(edge.r, 255);
}

#[test]
fn radial_zero_radius_falls_back_to_edge_color() {
    let mut g = RadialGradient::create(px(4), px(4), px(4), px(4), 0, ts_spread_mode::Pad,
        Transform::identity());
    g.push_stop(0, ts_color { r: 0, g: 0, b: 0, a: 255 });
    g.push_stop(ONE, ts_color { r: 250, g: 10, b: 20, a: 255 });
    let p = shade(&Paint::Radial(g), px(1), px(1));
    assert_eq!((p.r, p.g, p.b), (250, 10, 20));
}

#[test]
fn out_of_order_stop_raised() {
    let mut g = LinearGradient::create(0, 0, ONE, 0, ts_spread_mode::Pad, Transform::identity());
    g.push_stop(200, ts_color { r: 1, g: 1, b: 1, a: 255 });
    g.push_stop(100, ts_color { r: 9, g: 9, b: 9, a: 255 });
    // the second stop is raised to position 200; at t=0.9 the later stop wins
    let p = shade(&Paint::Linear(g), 230, 0);
    assert_eq!(p.r, 9);
}

#[test]
fn readout_length_is_width_height_4() {
    let pm = Pixmap::create(3, 5).unwrap();
    let out = pm.read_out();
    assert_eq!(out.len(), 3 * 5 * 4);
    let pm2 = Pixmap::create(7, 1).unwrap();
    assert_eq!(pm2.read_out().len(), 28);
}

#[test]
fn new_pixmap_is_transparent() {
    let pm = Pixmap::create(4, 4).unwrap();
    let out = pm.read_out();
    for i in 0..out.len() {
        assert_eq!(out.byte(i), 0);
    }
}

#[test]
fn blend_source_over_transparent_keeps_source() {
    let s = Pixel { r: 11, g: 22, b: 33, a: 200 };
    let d = Pixel { r: 0, g: 0, b: 0, a: 0 };
    assert_eq!(blend_pixel(ts_blend_mode::SourceOver, s, d), s);
}

#[test]
fn blend_porter_duff_formulas() {
    let s = Pixel { r: 100, g: 50, b: 0, a: 200 };
    let d = Pixel { r: 20, g: 40, b: 60, a: 255 };
    let clear = blend_pixel(ts_blend_mode::Clear, s, d);
    assert_eq!(clear, Pixel { r: 0, g: 0, b: 0, a: 0 });
    let copy = blend_pixel(ts_blend_mode::SourceCopy, s, d);
    assert_eq!(copy, s);
    let dst = blend_pixel(ts_blend_mode::Destination, s, d);
    assert_eq!(dst, d);
    // source-over: s + d*(255-200)/255
    let over = blend_pixel(ts_blend_mode::SourceOver, s, d);
    assert_eq!(over.r, 100 + ((20 * 55 + 128) / 255) as u8);
    assert_eq!(over.a, 255);
    // plus saturates
    let plus = blend_pixel(ts_blend_mode::Plus, Pixel { r: 200, g: 1, b: 2, a: 3 },
        Pixel { r: 200, g: 1, b: 2, a: 3 });
    assert_eq!(plus.r, 255);
    assert_eq!(plus.g, 2);
}

#[test]
fn blend_screen_formula() {
    let s = Pixel { r: 100, g: 0, b: 255, a: 255 };
    let d = Pixel { r: 200, g: 0, b: 255, a: 255 };
    let out = blend_pixel(ts_blend_mode::Screen, s, d);
    // s + d - s*d/255, rounded
    assert_eq!(out.r as i64, 100 + 200 - (100 * 200 + 128) / 255);
    assert_eq!(out.b, 255);
}

#[test]
fn blend_modulate_multiplies() {
    let s = Pixel { r: 128, g: 255, b: 0, a: 255 };
    let d = Pixel { r: 255, g: 128, b: 77, a: 255 };
    let out = blend_pixel(ts_blend_mode::Modulate, s, d);
    assert_eq!(out.r, 128);
    assert_eq!(out.g, 128);
    assert_eq!(out.b, 0);
}

#[test]
fn blend_luminosity_takes_source_luma() {
    let s = Pixel { r: 255, g: 255, b: 255, a: 255 }; // white: luma 255
    let d = Pixel { r: 255, g: 0, b: 0, a: 255 };
    let out = blend_pixel(ts_blend_mode::Luminosity, s, d);
    // red at full luminosity clips toward white
    assert_eq!(out.a, 255);
    assert!(out.r >= 250);
    assert!(out.g >= 250, "g {}", out.g);
}

#[test]
fn stroke_horizontal_line() {
    let mut pm = Pixmap::create(8, 8).unwrap();
    let mut b = PathBuilder::new();
    b.move_to(px(1), px(4));
    b.line_to(px(7), px(4));
    let p = b.finish().unwrap();
    let st = Stroke::new(2 * ONE).unwrap();
    stroke_path(&mut pm, &p, &Transform::identity(), &red(), &st, ts_blend_mode::SourceOver);
    // the stroked band spans rows 3..5
    assert_eq!(pixel_at(&pm, 4, 3).a, 255);
    assert_eq!(pixel_at(&pm, 4, 4).a, 255);
    assert_eq!(pixel_at(&pm, 4, 1).a, 0);
    assert_eq!(pixel_at(&pm, 4, 6).a, 0);
}

#[test]
fn stroke_rect_draws_border_not_interior() {
    let mut pm = Pixmap::create(10, 10).unwrap();
    let rect = Rect::from_ltrb(px(2), px(2), px(8), px(8)).unwrap();
    let st = Stroke::new(ONE).unwrap();
    stroke_rect(&mut pm, &rect, &Transform::identity(), &red(), &st, ts_blend_mode::SourceOver);
    assert!(pixel_at(&pm, 2, 2).a >= 128, "corner on the border at least half covered");
    assert!(pixel_at(&pm, 5, 2).a >= 128, "top edge covered");
    assert_eq!(pixel_at(&pm, 5, 5).a, 0, "interior untouched");
    assert_eq!(pixel_at(&pm, 0, 0).a, 0, "outside untouched");
}

#[test]
fn rounded_rect_corner_outside_curve_is_empty() {
    let mut pm = Pixmap::create(8, 8).unwrap();
    let rect = Rect::from_ltrb(0, 0, px(8), px(8)).unwrap();
    let p = rounded_rect(&rect, px(4), px(4));
    fill_path(&mut pm, &p, &Transform::identity(), &red(), ts_fill_rule::Winding,
        ts_blend_mode::SourceOver);
    assert_eq!(pixel_at(&pm, 0, 0).a, 0, "corner outside the rounding");
    assert_eq!(pixel_at(&pm, 4, 4).a, 255, "center filled");
    assert_eq!(pixel_at(&pm, 4, 0).a, 255, "top middle filled");
    assert_eq!(pixel_at(&pm, 0, 4).a, 255, "left middle filled");
}

#[test]
fn fill_with_translation_moves_shape() {
    let mut pm = Pixmap::create(8, 8).unwrap();
    let rect = Rect::from_ltrb(0, 0, px(2), px(2)).unwrap();
    let t = Transform::translate(px(4), px(4));
    fill_rect(&mut pm, &rect, &t, &red(), ts_blend_mode::SourceOver);
    assert_eq!(pixel_at(&pm, 5, 5).a, 255);
    assert_eq!(pixel_at(&pm, 1, 1).a, 0);
}

#[test]
fn gradient_fill_shades_by_device_position() {
    let mut pm = Pixmap::create(4, 1).unwrap();
    let mut g = LinearGradient::create(0, 0, px(4), 0, ts_spread_mode::Pad,
        Transform::identity());
    g.push_stop(0, ts_color { r: 0, g: 0, b: 0, a: 255 });
    g.push_stop(ONE, ts_color { r: 255, g: 255, b: 255, a: 255 });
    let rect = Rect::from_ltrb(0, 0, px(4), px(1)).unwrap();
    fill_rect(&mut pm, &rect, &Transform::identity(), &Paint::Linear(g),
        ts_blend_mode::SourceOver);
    let a = pixel_at(&pm, 0, 0).r;
    let b = pixel_at(&pm, 3, 0).r;
    assert!(a < 64, "left dark, got {}", a);
    assert!(b > 192, "right bright, got {}", b);
}

#[test]
fn blend_xor_and_difference_exact() {
    let s = Pixel { r: 100, g: 50, b: 0, a: 200 };
    let d = Pixel { r: 20, g: 40, b: 60, a: 255 };
    let diff = blend_pixel(ts_blend_mode::Difference, s, d);
    // s + d - 2*min(s*da, d*sa)/255 = 100 + 20 - 2*16
    assert_eq!(diff.r, 88);
    let xor = blend_pixel(ts_blend_mode::Xor, s, d);
    // fs = 255-da = 0, fd = 255-sa = 55
    assert_eq!(xor.r, 4);
    assert_eq!(xor.a, 55);
}

#[test]
fn blend_dest_in_out_atop() {
    let s = Pixel { r: 100, g: 50, b: 0, a: 200 };
    let d = Pixel { r: 20, g: 40, b: 60, a: 255 };
    let din = blend_pixel(ts_blend_mode::DestinationIn, s, d);
    // d * sa / 255
    assert_eq!(din.r, ((20 * 200 + 128) / 255) as u8);
    let dout = blend_pixel(ts_blend_mode::DestinationOut, s, d);
    // d * (255 - sa) / 255
    assert_eq!(dout.r, ((20 * 55 + 128) / 255) as u8);
    let satop = blend_pixel(ts_blend_mode::SourceAtop, s, d);
    // s*da/255 + d*(255-sa)/255 = 100 + 4
    assert_eq!(satop.r, 104);
    assert_eq!(satop.a, 200 + ((255 * 55 + 128) / 255) as u8);
}

#[test]
fn blend_dodge_and_burn_branches() {
    let sa = 255u8;
    let da = 255u8;
    // dodge with a zero destination channel keeps the spill only
    let s = Pixel { r: 100, g: 255, b: 50, a: sa };
    let d = Pixel { r: 0, g: 10, b: 200, a: da };
    let out = blend_pixel(ts_blend_mode::ColorDodge, s, d);
    assert_eq!(out.r, 0, "zero backdrop stays zero at full alphas");
    // a full source channel dodges to full
    assert_eq!(out.g, 255);
    let burn = blend_pixel(ts_blend_mode::ColorBurn, s, d);
    // full backdrop channel burns to the alpha product
    let s2 = Pixel { r: 10, g: 0, b: 0, a: 255 };
    let d2 = Pixel { r: 255, g: 128, b: 128, a: 255 };
    let out2 = blend_pixel(ts_blend_mode::ColorBurn, s2, d2);
    assert_eq!(out2.r, 255);
    // a zero source channel burns to black at full alphas
    assert_eq!(out2.g, 0);
    let _ = burn;
}

#[test]
fn blend_darken_lighten_pick_extremes() {
    let s = Pixel { r: 100, g: 200, b: 30, a: 255 };
    let d = Pixel { r: 150, g: 40, b: 30, a: 255 };
    let dk = blend_pixel(ts_blend_mode::Darken, s, d);
    assert_eq!((dk.r, dk.g, dk.b), (100, 40, 30));
    let lt = blend_pixel(ts_blend_mode::Lighten, s, d);
    assert_eq!((lt.r, lt.g, lt.b), (150, 200, 30));
}

#[test]
fn gradient_respects_global_transform_inverse() {
    let mut pm = Pixmap::create(4, 1).unwrap();
    let mut g = LinearGradient::create(0, 0, px(2), 0, ts_spread_mode::Pad,
        Transform::identity());
    g.push_stop(0, ts_color { r: 0, g: 0, b: 0, a: 255 });
    g.push_stop(ONE, ts_color { r: 255, g: 255, b: 255, a: 255 });
    let rect = Rect::from_ltrb(-px(2), 0, px(2), px(1)).unwrap();
    // the draw is shifted right by 2 pixels; shading follows the shape
    let t = Transform::translate(px(2), 0);
    fill_rect(&mut pm, &rect, &t, &Paint::Linear(g), ts_blend_mode::SourceOver);
    assert_eq!(pixel_at(&pm, 0, 0).a, 255);
    let left = pixel_at(&pm, 2, 0).r; // local x = 0.5 of the 2-pixel axis
    let right = pixel_at(&pm, 3, 0).r; // local x = 1.5, padded to the end
    assert!(left > 32 && left < 96, "left {}", left);
    assert!(right > 160, "right {}", right);
}

#[test]
fn clear_blend_erases_covered_pixels_only() {
    let mut pm = Pixmap::create(4, 4).unwrap();
    let all = Rect::from_ltrb(0, 0, px(4), px(4)).unwrap();
    fill_rect(&mut pm, &all, &Transform::identity(), &red(), ts_blend_mode::SourceOver);
    let hole = Rect::from_ltrb(px(1), px(1), px(2), px(2)).unwrap();
    fill_rect(&mut pm, &hole, &Transform::identity(), &red(), ts_blend_mode::Clear);
    assert_eq!(pixel_at(&pm, 1, 1).a, 0, "cleared");
    assert_eq!(pixel_at(&pm, 3, 3).a, 255, "untouched");
}

#[test]
fn readout_channel_order_distinct_values() {
    let mut pm = Pixmap::create(1, 1).unwrap();
    let rect = Rect::from_ltrb(0, 0, px(1), px(1)).unwrap();
    let paint = Paint::Solid(ts_color { r: 10, g: 20, b: 30, a: 255 });
    fill_rect(&mut pm, &rect, &Transform::identity(), &paint, ts_blend_mode::SourceOver);
    let out = pm.read_out();
    assert_eq!(out.byte(0), 30, "blue first");
    assert_eq!(out.byte(1), 20, "green second");
    assert_eq!(out.byte(2), 10, "red third");
    assert_eq!(out.byte(3), 255, "alpha last");
    assert_eq!(out.as_slice().len(), 4);
}
