use raytracer::ppm::{create_blue_gradient_background, encode, header, push_pixel, Pixel};

fn lines(bytes: &[u8]) -> Vec<String> {
    String::from_utf8(bytes.to_vec())
        .unwrap()
        .split_terminator('\n')
        .map(|s| s.to_string())
        .collect()
}

#[test]
fn header_text() {
    assert_eq!(header(20, 10), b"P3\n20 10\n255\n".to_vec());
    assert_eq!(header(0, 7), b"P3\n0 7\n255\n".to_vec());
    assert_eq!(header(4294967295, 1), b"P3\n4294967295 1\n255\n".to_vec());
}

#[test]
fn pixel_line() {
    let mut out = b"x".to_vec();
    push_pixel(&mut out, Pixel { r: 0, g: 127, b: 255 });
    assert_eq!(out, b"x0 127 255\n".to_vec());
}

#[test]
fn encoded_image_has_header_and_one_line_per_pixel() {
    let (w, h) = (20u32, 10u32);
    let pixels: Vec<Pixel> = (0..w * h)
        .map(|i| Pixel { r: (i % 256) as u8, g: 9, b: 200 })
        .collect();
    let text = encode(w, h, &pixels);
    let ls = lines(&text);
    assert_eq!(ls.len(), 203);
    assert_eq!(ls[0], "P3");
    assert_eq!(ls[1], "20 10");
    assert_eq!(ls[2], "255");
    assert_eq!(ls[3], "0 9 200");
    assert_eq!(ls[202], "199 9 200");
    assert_eq!(*text.last().unwrap(), b'\n');
}

#[test]
fn empty_image_is_header_only() {
    assert_eq!(encode(0, 5, &Vec::new()), b"P3\n0 5\n255\n".to_vec());
}

#[test]
fn encoding_is_repeatable() {
    let pixels: Vec<Pixel> = (0..6).map(|i| Pixel { r: i, g: 2 * i, b: 3 * i }).collect();
    assert_eq!(encode(3, 2, &pixels), encode(3, 2, &pixels));
}

#[test]
fn gradient_image_text() {
    let pixels = vec![Pixel { r: 255, g: 255, b: 255 }; 100 * 50];
    let text = create_blue_gradient_background(100, 50, &pixels);
    let ls = lines(&text);
    assert_eq!(ls.len(), 3 + 100 * 50);
    assert_eq!(ls[1], "100 50");
    assert_eq!(ls[4], "255 255 255");
}
