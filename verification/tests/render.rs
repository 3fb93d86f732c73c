use pathtracer::gpu::{resolve, Colour, Rgb};
use pathtracer::overlay::add_debug_info;
use pathtracer::policy::{progressive, samples_limit, time_limit};
use pathtracer::scene::Scene;

fn grey(v: f32) -> Colour {
    let bits = v.to_bits();
    Colour { r: bits, g: bits, b: bits }
}

#[test]
fn count_policy_bounds() {
    let p = samples_limit(3);
    assert!(p.allows(0, 0, false));
    assert!(p.allows(1, 999_999, false));
    assert!(p.allows(2, 0, true));
    assert!(!p.allows(3, 0, false));
    assert!(!p.allows(4, 0, false));
    // A cap of zero refuses the very first pass.
    assert!(!samples_limit(0).allows(0, 0, false));
}

#[test]
fn time_policy_bounds() {
    let p = time_limit(10, 1000);
    assert!(p.allows(5, 999, false));
    // Out of time, even with samples to spare.
    assert!(!p.allows(5, 1000, false));
    assert!(!p.allows(5, 5000, false));
    // Out of samples, even with time to spare.
    assert!(!p.allows(10, 0, false));
}

#[test]
fn progressive_policy_stops_on_signal() {
    let p = progressive(10, Some(1000));
    assert!(p.allows(5, 500, false));
    assert!(!p.allows(5, 500, true));
    assert!(!p.allows(5, 1500, false));
    assert!(!p.allows(10, 0, false));
    let unbounded = progressive(10, None);
    assert!(unbounded.allows(5, 1_000_000, false));
    assert!(!unbounded.allows(5, 0, true));
}

#[test]
fn resolve_zero_samples_is_black() {
    let acc = vec![grey(0.0), grey(123.0), grey(0.5), grey(-7.0)];
    let img = resolve(&acc, 2, 2, 0);
    assert_eq!(img.width, 2);
    assert_eq!(img.height, 2);
    assert_eq!(img.pixels.len(), 4);
    for px in &img.pixels {
        assert_eq!(*px, Rgb { r: 0, g: 0, b: 0 });
    }
}

#[test]
fn resolve_saturates_at_full_brightness() {
    // Two samples whose sums reach 2 * 255 in the display scale.
    let acc = vec![grey(510.0)];
    let img = resolve(&acc, 1, 1, 2);
    assert_eq!(img.pixels[0], Rgb { r: 255, g: 255, b: 255 });
    // Far beyond the scale it stays clamped.
    let img2 = resolve(&vec![grey(1.0e30)], 1, 1, 1);
    assert_eq!(img2.pixels[0], Rgb { r: 255, g: 255, b: 255 });
}

#[test]
fn resolve_rounds_toward_zero() {
    // 255 * 0.5 = 127.5 resolves to 127 with one sample.
    let img = resolve(&vec![grey(0.5)], 1, 1, 1);
    assert_eq!(img.pixels[0], Rgb { r: 127, g: 127, b: 127 });
    // Averaged over two samples: 255 * 0.5 / 2 = 63.75 resolves to 63.
    let img2 = resolve(&vec![grey(0.5)], 1, 1, 2);
    assert_eq!(img2.pixels[0], Rgb { r: 63, g: 63, b: 63 });
}

#[test]
fn resolve_handles_odd_sums() {
    // A negative sum, a not-a-number and an infinite sum resolve the way a
    // saturating machine cast would: 0, 0 and 255.
    let acc = vec![grey(-1.0), grey(f32::NAN), grey(f32::INFINITY), grey(-0.0)];
    let img = resolve(&acc, 4, 1, 1);
    assert_eq!(img.pixels[0], Rgb { r: 0, g: 0, b: 0 });
    assert_eq!(img.pixels[1], Rgb { r: 0, g: 0, b: 0 });
    assert_eq!(img.pixels[2], Rgb { r: 255, g: 255, b: 255 });
    assert_eq!(img.pixels[3], Rgb { r: 0, g: 0, b: 0 });
}

#[test]
fn resolve_flips_vertically() {
    // Accumulation row 0 is the bottom of the logical picture; it must come
    // out as the last pixel row of the image, for every resolution tried.
    let white = grey(1.0);
    let black = grey(0.0);
    // 2 wide, 3 tall: bottom row white, the rest black.
    let acc = vec![white, white, black, black, black, black];
    let img = resolve(&acc, 2, 3, 1);
    assert_eq!(img.pixels[2 * 2 + 0], Rgb { r: 255, g: 255, b: 255 });
    assert_eq!(img.pixels[2 * 2 + 1], Rgb { r: 255, g: 255, b: 255 });
    for k in 0..4 {
        assert_eq!(img.pixels[k], Rgb { r: 0, g: 0, b: 0 });
    }
    // 1 wide, 2 tall with distinct rows.
    let acc2 = vec![grey(0.2), grey(0.8)];
    let img2 = resolve(&acc2, 1, 2, 1);
    assert_eq!(img2.pixels[0], Rgb { r: 204, g: 204, b: 204 });
    assert_eq!(img2.pixels[1], Rgb { r: 51, g: 51, b: 51 });
}

#[test]
fn one_sample_render_of_one_triangle() {
    // A scene with one triangle and the material "red", rendered at 2 by 2
    // with a cap of one sample: the loop runs exactly once and the resolved
    // image is 2 by 2.
    let text = "{\"camera\":{\"pos\":[0,0,0],\"front\":[0,0,-1],\"up\":[0,1,0],\"fov\":60},\
                \"materials\":{\"red\":{\"colour\":[1,0,0]}},\
                \"surfaces\":[{\"mat\":\"red\",\"tri\":[[0,0,0],[1,0,0],[0,1,0]]}]}";
    let scene = Scene::parse(text).expect("scene");
    assert_eq!(scene.triangles.len(), 1);
    assert!(scene.materials_in_range());

    let policy = samples_limit(1);
    let mut samples: u32 = 0;
    let mut acc = vec![grey(0.0); 4];
    while policy.allows(samples, 0, false) {
        // One dispatch: the kernel adds one sample of pure red per pixel.
        for px in acc.iter_mut() {
            px.r = (f32::from_bits(px.r) + 1.0).to_bits();
        }
        samples += 1;
    }
    assert_eq!(samples, 1);

    let img = resolve(&acc, 2, 2, samples);
    assert_eq!(img.width, 2);
    assert_eq!(img.height, 2);
    assert_eq!(img.pixels.len(), 4);
    for px in &img.pixels {
        assert_eq!(*px, Rgb { r: 255, g: 0, b: 0 });
    }
}

#[test]
fn overlay_skips_small_images() {
    let mut img = resolve(&vec![grey(0.25); 16], 4, 4, 1);
    let before = img.clone();
    assert!(!add_debug_info(&mut img, 10, 3, 61));
    assert_eq!(img.pixels, before.pixels);
    assert_eq!(img.width, 4);
    assert_eq!(img.height, 4);
}

#[test]
fn overlay_stamps_large_images() {
    let mut img = resolve(&vec![grey(0.0); 120 * 30], 120, 30, 1);
    assert!(add_debug_info(&mut img, 1, 1, 3661));
    assert_eq!(img.width, 120);
    assert_eq!(img.height, 30);
    assert_eq!(img.pixels.len(), 120 * 30);
    // The digit 1 of the sample count starts one column in, 24 rows from
    // the bottom; its top row lights the third column.
    let y0 = 30 - 24;
    assert_eq!(img.pixels[y0 * 120 + 3], Rgb { r: 255, g: 255, b: 255 });
    assert_eq!(img.pixels[y0 * 120 + 1], Rgb { r: 0, g: 0, b: 0 });
}
