use julia_png::color::Pixel;
use julia_png::fixed::Fx;
use julia_png::image::{encode_image, render_png, to_rgba_bytes, ImageError};
use julia_png::render::Config;

const PNG_SIGNATURE: [u8; 8] = [137, 80, 78, 71, 13, 10, 26, 10];

#[test]
fn rgba_bytes_order_and_length() {
    let buf = vec![Pixel::new(1, 2, 3), Pixel::from_hex(0x9B1D1D)];
    let bytes = to_rgba_bytes(&buf);
    assert_eq!(bytes, vec![1, 2, 3, 255, 0x9B, 0x1D, 0x1D, 255]);
}

#[test]
fn encode_rejects_zero_dimension() {
    let buf: Vec<Pixel> = Vec::new();
    assert_eq!(encode_image(&buf, 0, 1), Err(ImageError::ZeroDimension));
    assert_eq!(encode_image(&buf, 1, 0), Err(ImageError::ZeroDimension));
}

#[test]
fn encode_rejects_size_mismatch() {
    let buf = vec![Pixel::new(0, 0, 0)];
    assert_eq!(encode_image(&buf, 2, 1), Err(ImageError::SizeMismatch));
}

#[test]
fn encode_decode_round_trip() {
    let buf = vec![
        Pixel::from_hex(0xFF0000),
        Pixel::from_hex(0x00FF00),
        Pixel::from_hex(0x0000FF),
        Pixel::new(10, 20, 30),
    ];
    let bytes = encode_image(&buf, 2, 2).expect("encoding failed");
    assert_eq!(&bytes[..8], &PNG_SIGNATURE);

    let decoder = png::Decoder::new(std::io::Cursor::new(&bytes[..]));
    let mut reader = decoder.read_info().expect("decoding failed");
    let mut data = vec![0u8; reader.output_buffer_size().unwrap()];
    let info = reader.next_frame(&mut data).expect("decoding failed");
    assert_eq!(info.width, 2);
    assert_eq!(info.height, 2);
    assert_eq!(info.color_type, png::ColorType::Rgba);
    assert_eq!(info.bit_depth, png::BitDepth::Eight);
    assert_eq!(&data[..info.buffer_size()], &to_rgba_bytes(&buf)[..]);
}

#[test]
fn render_png_produces_decodable_stream() {
    let palette = vec![
        Pixel::from_hex(0x000000),
        Pixel::from_hex(0x9B1D1D),
        Pixel::from_hex(0x3D2A2A),
        Pixel::from_hex(0x635C5C),
        Pixel::from_hex(0xFFFFFF),
    ];
    let cfg = Config::new(
        8,
        6,
        palette,
        Fx::from_ratio(-7269, 10000),
        Fx::from_ratio(1889, 10000),
        40,
        Fx::from_int(100),
        Fx::from_ratio(1, 2),
        Fx::from_ratio(15, 100),
        Fx::from_ratio(25, 100),
    )
    .expect("configuration within bounds");
    let bytes = render_png(&cfg).expect("encoding failed");
    assert_eq!(&bytes[..8], &PNG_SIGNATURE);

    let decoder = png::Decoder::new(std::io::Cursor::new(&bytes[..]));
    let mut reader = decoder.read_info().expect("decoding failed");
    let mut data = vec![0u8; reader.output_buffer_size().unwrap()];
    let info = reader.next_frame(&mut data).expect("decoding failed");
    assert_eq!(info.width, 8);
    assert_eq!(info.height, 6);
    assert_eq!(info.buffer_size(), 8 * 6 * 4);
}

#[test]
fn encode_succeeds_on_any_matching_buffer() {
    let buf = vec![Pixel::new(0, 0, 0)];
    assert!(encode_image(&buf, 1, 1).is_ok());
}
