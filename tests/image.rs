use pathtracer::array::Array;
use pathtracer::image::{ResultImage, RGB256};

fn rgb(r: u8, g: u8, b: u8) -> RGB256 {
    Array { data: [r, g, b] }
}

#[test]
fn new_image_is_black_with_its_dimensions() {
    let img = ResultImage::new(4, 3);
    assert_eq!(img.width(), 4);
    assert_eq!(img.height(), 3);
    assert_eq!(img.pixels.len(), 12);
    assert!(img.pixels.iter().all(|p| p.data == [0, 0, 0]));
}

#[test]
fn fill_stores_row_major() {
    let mut img = ResultImage::new(3, 2);
    img.fill(|x, y| rgb(x as u8, y as u8, (10 * y + x) as u8));
    for y in 0..2 {
        for x in 0..3 {
            let p = img.pixels[(x + y * 3) as usize];
            assert_eq!(p.data, [x as u8, y as u8, (10 * y + x) as u8]);
        }
    }
}

#[test]
fn fill_twice_gives_identical_buffers() {
    let shade = |x: i32, y: i32| rgb((x * 37 % 256) as u8, (y * 91 % 256) as u8, ((x ^ y) % 256) as u8);
    let mut a = ResultImage::new(16, 9);
    let mut b = ResultImage::new(16, 9);
    a.fill(shade);
    b.fill(shade);
    assert_eq!(a.to_ppm(), b.to_ppm());
    a.fill(shade);
    assert_eq!(a.to_ppm(), b.to_ppm());
}

#[test]
fn ppm_header_and_body() {
    let mut img = ResultImage::new(2, 1);
    img.fill(|x, _| if x == 0 { rgb(1, 2, 3) } else { rgb(250, 251, 255) });
    let bytes = img.to_ppm();
    let mut expected = b"P6\n2 1\n255\n".to_vec();
    expected.extend_from_slice(&[1, 2, 3, 250, 251, 255]);
    assert_eq!(bytes, expected);
}

#[test]
fn ppm_length_is_header_plus_three_per_pixel() {
    for (w, h) in [(1, 1), (9, 10), (256, 144), (1000, 3)] {
        let img = ResultImage::new(w, h);
        let header = format!("P6\n{} {}\n255\n", w, h);
        let bytes = img.to_ppm();
        assert_eq!(bytes.len(), header.len() + 3 * (w * h) as usize);
        assert_eq!(&bytes[..header.len()], header.as_bytes());
    }
}

#[test]
fn ppm_single_pixel_black() {
    let img = ResultImage::new(1, 1);
    assert_eq!(img.to_ppm(), b"P6\n1 1\n255\n\0\0\0".to_vec());
}
