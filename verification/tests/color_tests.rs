use fractal_core::color::Rgb;
use fractal_core::color::brightness;
use fractal_core::color::parse_control_colors;

fn rgb(r: u8, g: u8, b: u8) -> Rgb {
    Rgb { r, g, b }
}

#[test]
fn parse_full_five_colors() {
    let flat: Vec<u8> = vec![
        0, 0, 0, 64, 64, 64, 128, 128, 128, 191, 191, 191, 255, 255, 255,
    ];
    let colors = parse_control_colors(&flat);
    assert_eq!(colors.len(), 5);
    assert_eq!(colors[0], rgb(0, 0, 0));
    assert_eq!(colors[1], rgb(64, 64, 64));
    assert_eq!(colors[4], rgb(255, 255, 255));
}

#[test]
fn parse_short_input_truncates() {
    let flat: Vec<u8> = vec![10, 20, 30, 40, 50, 60, 70, 80];
    let colors = parse_control_colors(&flat);
    assert_eq!(colors.len(), 2);
    assert_eq!(colors[0], rgb(10, 20, 30));
    assert_eq!(colors[1], rgb(40, 50, 60));
}

#[test]
fn parse_empty_and_partial() {
    assert_eq!(parse_control_colors(&Vec::new()).len(), 0);
    assert_eq!(parse_control_colors(&vec![1, 2]).len(), 0);
    let one = parse_control_colors(&vec![9, 8, 7]);
    assert_eq!(one.len(), 1);
    assert_eq!(one[0], rgb(9, 8, 7));
}

#[test]
fn parse_ignores_extra_bytes() {
    let flat: Vec<u8> = vec![1; 32];
    let colors = parse_control_colors(&flat);
    assert_eq!(colors.len(), 5);
}

#[test]
fn brightness_is_channel_max() {
    assert_eq!(brightness(rgb(10, 200, 30)), 200);
    assert_eq!(brightness(rgb(250, 5, 90)), 250);
    assert_eq!(brightness(rgb(0, 0, 255)), 255);
    assert_eq!(brightness(rgb(7, 7, 7)), 7);
    assert_eq!(brightness(rgb(0, 0, 0)), 0);
}
