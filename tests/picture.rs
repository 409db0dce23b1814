use pathtracer::picture::assemble;
use pathtracer::settings::ImageSettings;

fn color_of(k: usize) -> (u8, u8, u8) {
    (k as u8, (k * 2) as u8, 255 - k as u8)
}

#[test]
fn assembled_picture_flips_rows() {
    let s = ImageSettings::new(3, 2).unwrap();
    let frame: Vec<(u8, u8, u8)> = (0..6).map(color_of).collect();
    let picture = assemble(&s, &frame);
    assert_eq!(picture.image.dimensions(), (3, 2));
    for x in 0..3u32 {
        for y in 0..2u32 {
            let k = s.index_of(x, s.image_row(y));
            let (r, g, b) = frame[k];
            assert_eq!(picture.image.get_pixel(x, y).0, [r, g, b]);
        }
    }
    // bottom-left pixel of the frame is the first entry, shown in the last row
    assert_eq!(picture.image.get_pixel(0, 1).0, [0, 0, 255]);
    // top-right pixel of the frame is the last entry, shown in the first row
    assert_eq!(picture.image.get_pixel(2, 0).0, [5, 10, 250]);
}

#[test]
fn assembled_picture_of_uniform_frame() {
    let s = ImageSettings::new(4, 4).unwrap();
    let frame = vec![(10u8, 20u8, 30u8); 16];
    let picture = assemble(&s, &frame);
    for p in picture.image.pixels() {
        assert_eq!(p.0, [10, 20, 30]);
    }
}
