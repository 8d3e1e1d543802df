use fractal_core::palette::Palette;

#[test]
fn new_keeps_the_grid() {
    let p = Palette::new(vec![1u32, 2, 3, 4, 5, 6], 3, 2, Some("grid".to_string()));
    assert_eq!(p.colors.len(), 6);
    assert_eq!(p.width, 3);
    assert_eq!(p.height, 2);
    assert_eq!(p.name.as_deref(), Some("grid"));
}

#[test]
fn get_pixel_indexes_row_major_and_clamps() {
    let p = Palette::new(vec![1u32, 2, 3, 4, 5, 6], 3, 2, None);
    assert_eq!(p.get_pixel(0, 0), 1);
    assert_eq!(p.get_pixel(2, 0), 3);
    assert_eq!(p.get_pixel(0, 1), 4);
    assert_eq!(p.get_pixel(2, 1), 6);
    assert_eq!(p.get_pixel(10, 0), 3);
    assert_eq!(p.get_pixel(1, 99), 5);
    assert_eq!(p.get_pixel(u32::MAX, u32::MAX), 6);
}

#[test]
fn one_dimensional_palette_clamps_rows() {
    let colors: Vec<u8> = (0..=255).collect();
    let p = Palette::new(colors, 256, 1, None);
    assert_eq!(p.get_pixel(255, 0), 255);
    assert_eq!(p.get_pixel(300, 7), 255);
    assert_eq!(p.get_pixel(17, 3), 17);
}

#[test]
fn get_pixel_ignores_colors_past_the_grid() {
    let p = Palette { colors: vec![1u32, 2, 3, 4, 5], width: 2, height: 2, name: None };
    assert_eq!(p.get_pixel(5, 5), 4);
    assert_eq!(p.get_pixel(1, 0), 2);
}
