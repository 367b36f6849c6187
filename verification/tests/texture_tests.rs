//! Image decoding and row padding scenarios.
use asterism::gpu_context::RenderError;
use image::{ImageBuffer, Rgba};
use asterism::texture::{align_row_bytes, decode_texture_pixels, pad_rows, unpad_rows, MAX_TEXTURE_SIDE};

/// 使用 `image` crate 的编码器生成 1×1 PNG。
fn generate_test_png(r: u8, g: u8, b: u8) -> Vec<u8> {
    let img: ImageBuffer<Rgba<u8>, Vec<u8>> = ImageBuffer::from_pixel(1, 1, Rgba([r, g, b, 255]));
    let mut buf = std::io::Cursor::new(Vec::new());
    img.write_to(&mut buf, image::ImageFormat::Png).expect("生成测试 PNG 失败");
    buf.into_inner()
}

fn png_of_size(w: u32, h: u32) -> Vec<u8> {
    let img: ImageBuffer<Rgba<u8>, Vec<u8>> = ImageBuffer::from_fn(w, h, |x, y| Rgba([x as u8, y as u8, 7, 255]));
    let mut buf = std::io::Cursor::new(Vec::new());
    img.write_to(&mut buf, image::ImageFormat::Png).expect("encode");
    buf.into_inner()
}

/// AC01: 验证 1×1 红色 PNG 纹理加载成功，尺寸正确。
#[test]
fn ac01_load_1x1_png_texture() {
    let png_bytes = generate_test_png(255, 0, 0);
    let texture = decode_texture_pixels(&png_bytes).expect("1×1 PNG 纹理加载应成功");
    assert_eq!(texture.width, 1, "纹理宽度应为 1");
    assert_eq!(texture.height, 1, "纹理高度应为 1");
    assert_eq!(texture.bytes_per_row, 256);
    assert_eq!(texture.data.len(), 256);
    assert_eq!(&texture.data[..4], &[255, 0, 0, 255]);
    assert!(texture.data[4..].iter().all(|&b| b == 0));
}

/// AC01: 验证 16×16 多色 PNG 纹理加载成功。
#[test]
fn ac01_load_16x16_png_texture() {
    let png_bytes = png_of_size(16, 16);
    let texture = decode_texture_pixels(&png_bytes).expect("16×16 PNG 纹理加载应成功");
    assert_eq!(texture.width, 16);
    assert_eq!(texture.height, 16);
    // 16 px * 4 bytes = 64 bytes a row, padded to 256
    assert_eq!(texture.bytes_per_row, 256);
    assert_eq!(texture.data.len(), 256 * 16);
    assert_eq!(&texture.data[256 * 3 + 4 * 5..256 * 3 + 4 * 5 + 4], &[5, 3, 7, 255]);
}

/// AC04: 验证加载无效字节（非图片数据）返回 `Err`。
#[test]
fn ac04_load_invalid_bytes_returns_error() {
    let invalid_bytes = b"this is not a valid image file";
    let result = decode_texture_pixels(invalid_bytes);
    assert!(result.is_err(), "加载无效图片字节应返回 Err");
    match result {
        Err(RenderError::Generic(msg)) => {
            assert!(msg.contains("解码") || msg.contains("失败"), "错误消息应包含解码相关信息，实际消息：{msg}");
        }
        _ => panic!("expected a generic error"),
    }
}

#[test]
fn decode_failure_message_names_the_decoder() {
    match decode_texture_pixels(b"not an image") {
        Err(RenderError::Generic(msg)) => assert!(msg.starts_with("图片解码失败："), "{msg}"),
        _ => panic!("expected a generic error"),
    }
}

fn encoded(w: u32, h: u32, format: image::ImageFormat) -> Vec<u8> {
    let img = image::DynamicImage::ImageRgb8(image::ImageBuffer::from_pixel(w, h, image::Rgb([40u8, 120, 200])));
    let mut buf = std::io::Cursor::new(Vec::new());
    img.write_to(&mut buf, format).expect("encode");
    buf.into_inner()
}

#[test]
fn jpeg_textures_decode() {
    let texture = decode_texture_pixels(&encoded(8, 4, image::ImageFormat::Jpeg)).expect("JPEG decodes");
    assert_eq!((texture.width, texture.height), (8, 4));
    assert_eq!(texture.bytes_per_row, 256);
    assert_eq!(texture.data.len(), 256 * 4);
    assert_eq!(texture.data[3], 255);
}

#[test]
fn webp_textures_decode() {
    let texture = decode_texture_pixels(&encoded(3, 5, image::ImageFormat::WebP)).expect("WebP decodes");
    assert_eq!((texture.width, texture.height), (3, 5));
    assert_eq!(&texture.data[..4], &[40, 120, 200, 255]);
}

/// AC04: 验证零尺寸图片返回错误（通过构造 0×0 像素的图片）。
#[test]
fn ac04_zero_size_image_returns_error() {
    let img: ImageBuffer<Rgba<u8>, Vec<u8>> = ImageBuffer::new(0, 0);
    let mut buf = std::io::Cursor::new(Vec::new());
    let result = img.write_to(&mut buf, image::ImageFormat::Png);
    if result.is_err() {
        return; // image crate 拒绝，合理
    }
    let result = decode_texture_pixels(&buf.into_inner());
    assert!(result.is_err(), "0×0 图片应返回错误");
}

#[test]
fn oversized_image_is_rejected() {
    let png = png_of_size(MAX_TEXTURE_SIDE + 1, 1);
    match decode_texture_pixels(&png) {
        Err(RenderError::Generic(msg)) => assert_eq!(msg, "纹理尺寸超出 GPU 限制：最大 8192×8192"),
        _ => panic!("expected the size error"),
    }
}

#[test]
fn aligned_rows_are_returned_unchanged() {
    let png = png_of_size(64, 2);
    let texture = decode_texture_pixels(&png).expect("decodes");
    assert_eq!(texture.bytes_per_row, 256);
    assert_eq!(texture.data.len(), 512);
}

#[test]
fn align_row_bytes_rounds_up_to_256() {
    assert_eq!(align_row_bytes(0), 0);
    assert_eq!(align_row_bytes(1), 256);
    assert_eq!(align_row_bytes(256), 256);
    assert_eq!(align_row_bytes(257), 512);
}

#[test]
fn pad_rows_inserts_zero_padding() {
    let data = [1u8, 2, 3, 4, 5, 6];
    let out = pad_rows(&data, 3, 2);
    assert_eq!(out.len(), 512);
    assert_eq!(&out[..3], &[1, 2, 3]);
    assert!(out[3..256].iter().all(|&b| b == 0));
    assert_eq!(&out[256..259], &[4, 5, 6]);
    let aligned = [9u8; 256];
    assert_eq!(pad_rows(&aligned, 256, 1), aligned.to_vec());
}

#[test]
fn unpad_rows_drops_the_row_padding() {
    let mut data = vec![0u8; 512];
    data[..3].copy_from_slice(&[1, 2, 3]);
    data[256..259].copy_from_slice(&[4, 5, 6]);
    assert_eq!(unpad_rows(&data, 3, 256, 2), vec![1, 2, 3, 4, 5, 6]);
}

#[test]
fn unpad_rows_undoes_pad_rows() {
    let data: Vec<u8> = (0u8..20).collect();
    let padded = pad_rows(&data, 5, 4);
    assert_eq!(unpad_rows(&padded, 5, align_row_bytes(5), 4), data);
}
