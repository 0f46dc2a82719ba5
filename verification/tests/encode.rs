use indeximage::encode::{encode_image, encoded, has_pixel_bytes};
use indeximage::failure::Failure;

fn decode_png(stream: &[u8]) -> (png::OutputInfo, Vec<u8>) {
    let decoder = png::Decoder::new(std::io::Cursor::new(stream));
    let mut reader = decoder.read_info().unwrap();
    let mut pixels = vec![0; reader.output_buffer_size().unwrap()];
    let info = reader.next_frame(&mut pixels).unwrap();
    pixels.truncate(info.buffer_size());
    (info, pixels)
}

#[test]
fn the_stream_decodes_to_the_buffer() {
    let data: Vec<u8> = vec![255, 0, 0, 0, 255, 0, 0, 0, 255, 1, 2, 3, 4, 5, 6, 7, 8, 9];
    let stream = encode_image(&data, (3, 2)).unwrap();
    let (info, pixels) = decode_png(&stream);
    assert_eq!(info.width, 3);
    assert_eq!(info.height, 2);
    assert_eq!(info.color_type, png::ColorType::Rgb);
    assert_eq!(info.bit_depth, png::BitDepth::Eight);
    assert_eq!(pixels, data);
}

#[test]
fn a_larger_image_decodes_to_the_buffer() {
    let width: usize = 37;
    let height: usize = 23;
    let mut data: Vec<u8> = Vec::new();
    for i in 0..3 * width * height {
        data.push((i * 7 % 251) as u8);
    }
    let stream = encode_image(&data, (width, height)).unwrap();
    let (info, pixels) = decode_png(&stream);
    assert_eq!((info.width, info.height), (37, 23));
    assert_eq!(pixels, data);
}

#[test]
fn the_stream_is_not_the_buffer() {
    let data: Vec<u8> = vec![9, 8, 7];
    let stream = encode_image(&data, (1, 1)).unwrap();
    assert_ne!(stream, data);
    assert!(stream.len() > 33);
}

#[test]
fn the_stream_opens_with_signature_and_header() {
    let data: Vec<u8> = vec![0; 3 * 258 * 2];
    let stream = encode_image(&data, (258, 2)).unwrap();
    assert_eq!(&stream[0..8], &[137, 80, 78, 71, 13, 10, 26, 10]);
    assert_eq!(&stream[8..12], &[0, 0, 0, 13]);
    assert_eq!(&stream[12..16], b"IHDR");
    assert_eq!(&stream[16..20], &[0, 0, 1, 2]);
    assert_eq!(&stream[20..24], &[0, 0, 0, 2]);
    assert_eq!(&stream[24..29], &[8, 2, 0, 0, 0]);
}

#[test]
fn the_stream_ends_with_the_end_chunk() {
    let data: Vec<u8> = vec![1, 2, 3];
    let stream = encode_image(&data, (1, 1)).unwrap();
    let n = stream.len();
    assert_eq!(&stream[n - 8..n - 4], b"IEND");
}

#[test]
fn equal_images_give_equal_streams() {
    let data: Vec<u8> = vec![1, 2, 3, 4, 5, 6];
    assert_eq!(encode_image(&data, (2, 1)), encode_image(&data, (2, 1)));
    assert_ne!(encode_image(&data, (2, 1)), encode_image(&data, (1, 2)));
}

#[test]
fn an_image_without_columns_is_refused() {
    assert_eq!(encode_image(&[], (0, 5)), Err(Failure::EncodeFailure));
}

#[test]
fn an_image_without_rows_is_refused() {
    assert_eq!(encode_image(&[], (5, 0)), Err(Failure::EncodeFailure));
    assert_eq!(encode_image(&[], (0, 0)), Err(Failure::EncodeFailure));
}

#[test]
fn a_buffer_of_the_wrong_length_is_refused() {
    assert_eq!(encode_image(&[1, 2, 3, 4], (1, 1)), Err(Failure::EncodeFailure));
    assert_eq!(encode_image(&[1, 2], (1, 1)), Err(Failure::EncodeFailure));
    assert_eq!(encode_image(&[], (1, 1)), Err(Failure::EncodeFailure));
    assert_eq!(encode_image(&[1, 2, 3], (1, 2)), Err(Failure::EncodeFailure));
}

#[test]
fn a_dimension_beyond_32_bits_is_refused() {
    if usize::BITS > 32 {
        let wide = (u32::MAX as u64 + 2) as usize;
        assert_eq!(encode_image(&[], (wide, 0)), Err(Failure::EncodeFailure));
        assert_eq!(encode_image(&[1, 2, 3], (wide, 1)), Err(Failure::EncodeFailure));
        assert_eq!(encode_image(&[1, 2, 3], (1, wide)), Err(Failure::EncodeFailure));
    }
}

#[test]
fn the_largest_dimensions_do_not_overflow() {
    let largest = u32::MAX as usize;
    assert_eq!(encode_image(&[1, 2, 3], (largest, largest)), Err(Failure::EncodeFailure));
    assert!(!has_pixel_bytes(&[], u32::MAX, u32::MAX));
}

#[test]
fn three_bytes_for_each_pixel() {
    assert!(has_pixel_bytes(&[0; 12], 2, 2));
    assert!(has_pixel_bytes(&[0; 12], 4, 1));
    assert!(!has_pixel_bytes(&[0; 12], 2, 3));
    assert!(!has_pixel_bytes(&[0; 11], 2, 2));
    assert!(has_pixel_bytes(&[], 0, 7));
}

#[test]
fn an_encoder_error_is_an_encode_failure() {
    assert_eq!(
        encoded(Err(png::EncodingError::LimitsExceeded)),
        Err(Failure::EncodeFailure)
    );
}

#[test]
fn an_encoder_stream_is_passed_on() {
    assert_eq!(encoded(Ok(vec![1, 2, 3])), Ok(vec![1, 2, 3]));
}
