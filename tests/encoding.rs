use minnowsnap::encode::encode_capture;
use minnowsnap::frame::Frame;

const PNG_SIGNATURE: [u8; 8] = [0x89, b'P', b'N', b'G', 0x0D, 0x0A, 0x1A, 0x0A];

fn sample() -> Frame {
    let mut data = Vec::new();
    for y in 0..6u32 {
        for x in 0..5u32 {
            data.extend_from_slice(&[(x * 40) as u8, (y * 30) as u8, 200, 255]);
        }
    }
    Frame::from_raw(5, 6, data).unwrap()
}

fn decode(bytes: &[u8]) -> (u32, u32, Vec<u8>) {
    let img = image::load_from_memory_with_format(bytes, image::ImageFormat::Png).unwrap().to_rgba8();
    let (w, h) = img.dimensions();
    (w, h, img.into_raw())
}

#[test]
fn plain_png_round_trips() {
    let f = sample();
    let bytes = encode_capture(&f, false).unwrap();
    assert_eq!(&bytes[0..8], &PNG_SIGNATURE);
    assert_eq!(decode(&bytes), (5, 6, f.as_raw().clone()));
}

#[test]
fn optimized_png_round_trips() {
    let f = sample();
    let bytes = encode_capture(&f, true).unwrap();
    assert_eq!(&bytes[0..8], &PNG_SIGNATURE);
    assert_eq!(decode(&bytes), (5, 6, f.as_raw().clone()));
}

#[test]
fn encoding_repeats() {
    let f = sample();
    assert_eq!(encode_capture(&f, true), encode_capture(&f, true));
    assert_eq!(encode_capture(&f, false), encode_capture(&f, false));
}
