use fractal_core::color::Rgb;
use fractal_core::frame::FractalVariant;
use fractal_core::frame::render_frame;
use fractal_core::frame::variant_from_code;

fn rgb(r: u8, g: u8, b: u8) -> Rgb {
    Rgb { r, g, b }
}

#[test]
fn variant_codes_decode_with_fallback() {
    assert_eq!(variant_from_code(0), FractalVariant::Standard);
    assert_eq!(variant_from_code(1), FractalVariant::BurningShip);
    assert_eq!(variant_from_code(2), FractalVariant::Tricorn);
    assert_eq!(variant_from_code(3), FractalVariant::Celtic);
    assert_eq!(variant_from_code(4), FractalVariant::Cosine);
    assert_eq!(variant_from_code(5), FractalVariant::Standard);
    assert_eq!(variant_from_code(u32::MAX), FractalVariant::Standard);
}

#[test]
fn buffer_len_is_width_height_4() {
    for (w, h) in [(1u32, 1u32), (3, 5), (16, 2), (7, 7)] {
        let count = (w * h) as usize;
        let iters: Vec<u32> = vec![0; count];
        let alphas: Vec<u8> = vec![0; count];
        let buf = render_frame(w, h, &iters, &alphas, &Vec::new(), 10, rgb(0, 0, 0), true);
        assert_eq!(buf.len(), count * 4);
    }
}

#[test]
fn no_colors_renders_black() {
    // fewer than 2 control colors: all-black table, so a live pixel keeps
    // black with its fade alpha in transparent mode
    let buf = render_frame(1, 1, &vec![3], &vec![99], &Vec::new(), 10, rgb(1, 2, 3), true);
    assert_eq!(buf, vec![0, 0, 0, 99]);
}

#[test]
fn single_pixel_opaque_blend() {
    let flat: Vec<u8> = vec![0, 0, 0, 255, 255, 255];
    // iteration 5 -> slot 50 -> 12; alpha 51 over bg (100, 50, 25)
    let buf = render_frame(1, 1, &vec![5], &vec![51], &flat, 50, rgb(100, 50, 25), false);
    assert_eq!(buf, vec![82, 42, 22, 255]);
}

#[test]
fn row_major_order() {
    let flat: Vec<u8> = vec![0, 0, 0, 255, 255, 255];
    // 2x2: pixel (x=1, y=0) is slot 1, pixel (x=0, y=1) is slot 2
    let iters: Vec<u32> = vec![50, 5, 0, 50];
    let alphas: Vec<u8> = vec![7, 200, 30, 9];
    let buf = render_frame(2, 2, &iters, &alphas, &flat, 50, rgb(0, 0, 0), true);
    assert_eq!(buf.len(), 16);
    // capped pixels keep the looked-up color (slot 500 -> 124) but lose
    // their alpha
    assert_eq!(&buf[0..4], &[124, 124, 124, 0]);
    assert_eq!(&buf[4..8], &[12, 12, 12, 200]);
    assert_eq!(&buf[8..12], &[0, 0, 0, 30]);
    assert_eq!(&buf[12..16], &[124, 124, 124, 0]);
}

#[test]
fn four_by_four_standard_fixture() {
    // width=4, height=4, c=(-0.8, 0.156), zoom=1, offset=(0,0), rotation=0,
    // max_iter=50, Standard variant, 5-stop grayscale gradient, black
    // background, opaque mode, fade_black=0, alpha_gamma=1.
    // Iteration counts and fade alphas follow from those parameters; the
    // byte sequence is the regression fixture.
    let flat: Vec<u8> = vec![
        0, 0, 0, 64, 64, 64, 128, 128, 128, 191, 191, 191, 255, 255, 255,
    ];
    let iters: Vec<u32> = vec![0, 1, 1, 1, 1, 2, 50, 2, 4, 23, 50, 23, 1, 2, 50, 2];
    let alphas: Vec<u8> = vec![0, 2, 2, 2, 2, 5, 125, 5, 10, 57, 125, 57, 2, 5, 125, 5];
    let buf = render_frame(4, 4, &iters, &alphas, &flat, 50, rgb(0, 0, 0), false);
    let golden: Vec<u8> = vec![
        0, 0, 0, 255, 0, 0, 0, 255, 0, 0, 0, 255, 0, 0, 0, 255, 0, 0, 0, 255, 0, 0, 0, 255, 0, 0,
        0, 255, 0, 0, 0, 255, 0, 0, 0, 255, 12, 12, 12, 255, 0, 0, 0, 255, 12, 12, 12, 255, 0, 0,
        0, 255, 0, 0, 0, 255, 0, 0, 0, 255, 0, 0, 0, 255,
    ];
    assert_eq!(buf, golden);
}
