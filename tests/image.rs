use raytracer::image::Image;
use raytracer::ppm::Rgb8;

const RED: Rgb8 = Rgb8 { r: 255, g: 0, b: 0 };
const GREEN: Rgb8 = Rgb8 { r: 0, g: 255, b: 0 };

#[test]
fn new_image_is_black() {
    let img = Image::new(2, 2);
    assert_eq!(img.width(), 2);
    assert_eq!(img.height(), 2);
    assert_eq!(
        img.encode(),
        b"P3\n2 2\n255\n0 0 0\n0 0 0\n0 0 0\n0 0 0\n".to_vec()
    );
}

#[test]
fn pixels_are_written_row_major() {
    let mut img = Image::new(3, 2);
    img.set_pixel(1, 0, RED);
    img.set_pixel(0, 1, GREEN);
    img.set_pixel(2, 1, Rgb8 { r: 1, g: 2, b: 3 });
    let text = String::from_utf8(img.encode()).unwrap();
    let lines: Vec<&str> = text.lines().collect();
    assert_eq!(
        lines,
        vec![
            "P3", "3 2", "255", "0 0 0", "255 0 0", "0 0 0", "0 255 0", "0 0 0", "1 2 3"
        ]
    );
}

#[test]
fn set_pixel_order_does_not_matter() {
    let mut a = Image::new(2, 2);
    a.set_pixel(0, 0, RED);
    a.set_pixel(1, 1, GREEN);
    let mut b = Image::new(2, 2);
    b.set_pixel(1, 1, GREEN);
    b.set_pixel(0, 0, RED);
    assert_eq!(a.encode(), b.encode());
}

#[test]
fn pixel_reads_back_what_was_set() {
    let mut img = Image::new(4, 3);
    img.set_pixel(3, 2, RED);
    assert_eq!(img.pixel(3, 2), RED);
    assert_eq!(img.pixel(2, 2), Rgb8 { r: 0, g: 0, b: 0 });
    img.set_pixel(3, 2, GREEN);
    assert_eq!(img.pixel(3, 2), GREEN);
}

#[test]
fn encoding_twice_gives_identical_bytes() {
    let mut img = Image::new(4, 2);
    img.set_pixel(2, 1, RED);
    assert_eq!(img.encode(), img.encode());
}

#[test]
fn single_pixel_image() {
    let img = Image::new(1, 1);
    assert_eq!(img.encode(), b"P3\n1 1\n255\n0 0 0\n".to_vec());
}

#[test]
fn empty_image_has_header_only() {
    let img = Image::new(0, 5);
    assert_eq!(img.encode(), b"P3\n0 5\n255\n".to_vec());
}
