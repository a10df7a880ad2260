use std::io::Cursor;

use aether_matrix::media::{encode_as_data_url, fits_within, plan_resize, MediaError, ResizeDecision};
use image::DynamicImage;

fn png(width: u32, height: u32) -> Vec<u8> {
    let img = DynamicImage::new_rgb8(width, height);
    let mut output = Vec::new();
    img.write_to(&mut Cursor::new(&mut output), image::ImageFormat::Png).unwrap();
    output
}

#[test]
fn test_encode_as_data_url() {
    let data = b"hello";
    let result = encode_as_data_url(data, "image/png");
    assert!(result.starts_with("data:image/png;base64,"));
    assert!(result.ends_with("aGVsbG8="));
    assert_eq!(result, "data:image/png;base64,aGVsbG8=");
}

#[test]
fn test_encode_as_data_url_empty_data() {
    let empty_data: &[u8] = &[];
    let result = encode_as_data_url(empty_data, "image/png");
    assert_eq!(result, "data:image/png;base64,");
}

#[test]
fn test_encode_as_data_url_invalid_media_type() {
    let data = b"test";
    let result = encode_as_data_url(data, "");
    assert_eq!(result, "data:;base64,dGVzdA==");

    let result2 = encode_as_data_url(data, "invalid/type");
    assert_eq!(result2, "data:invalid/type;base64,dGVzdA==");
}

#[test]
fn test_resize_image_if_needed_small_image() {
    let output = png(1, 1);
    assert!(output.starts_with(&[0x89, 0x50, 0x4E, 0x47]));
    assert_eq!(plan_resize(&output, 1024), Ok(ResizeDecision::Keep));
}

#[test]
fn test_resize_image_if_needed_preserves_aspect_ratio() {
    let output = png(2, 1);
    assert_eq!(plan_resize(&output, 10), Ok(ResizeDecision::Keep));
}

#[test]
fn test_resize_image_if_needed_invalid_image_format() {
    let invalid_data = b"This is not an image file at all!";
    let result = plan_resize(invalid_data, 1024);
    assert!(result.is_err());
    assert!(result.unwrap_err().message().contains("无法解析图片数据"));
}

#[test]
fn test_resize_image_if_needed_corrupted_image_data() {
    let corrupted_png = b"\x89PNG\r\n\x1a\n\x00\x00\x00\rIHDR\x00\x00\x00\x01\x00\x00\x00\x01\x08\x06\x00\x00\x00\x1f\x15\xc4\x89\x00\x00\x00\x0cIDAT\x08\xd7c\xf8\x0f\x00\x01\x00\x01\x00\x00\x00\x00\x00\x00\x00\x00\x00";
    let result = plan_resize(corrupted_png, 1024);
    assert!(result.is_err());
    assert!(result.unwrap_err().message().contains("无法解析图片数据"));
}

#[test]
fn test_resize_image_if_needed_empty_data() {
    let empty_data: &[u8] = &[];
    let result = plan_resize(empty_data, 1024);
    assert!(result.is_err());
    assert!(result.unwrap_err().message().contains("无法解析图片数据"));
}

#[test]
fn test_resize_image_if_needed_unsupported_format() {
    let random_data = vec![0x12, 0x34, 0x56, 0x78, 0x9a, 0xbc, 0xde, 0xf0];
    let result = plan_resize(&random_data, 1024);
    assert_eq!(result, Err(MediaError::Undecodable));
}

#[test]
fn oversized_image_is_to_be_shrunk() {
    let output = png(2048, 1536);
    assert_eq!(plan_resize(&output, 1024), Ok(ResizeDecision::Shrink { width: 2048, height: 1536 }));
    let tall = png(3, 20);
    assert_eq!(plan_resize(&tall, 10), Ok(ResizeDecision::Shrink { width: 3, height: 20 }));
}

#[test]
fn fitting_is_inclusive() {
    assert!(fits_within(1024, 1024, 1024));
    assert!(!fits_within(1025, 10, 1024));
    assert!(!fits_within(10, 1025, 1024));
}
