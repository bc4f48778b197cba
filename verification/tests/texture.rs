use lora::texture::get_image;
use lora::texture::try_get_image;

fn png_of(img: image::DynamicImage) -> Vec<u8> {
    let mut out = std::io::Cursor::new(Vec::new());
    img.write_to(&mut out, image::ImageFormat::Png).unwrap();
    out.into_inner()
}

#[test]
fn rgba_png_decodes() {
    let mut img = image::RgbaImage::new(2, 1);
    img.put_pixel(0, 0, image::Rgba([1, 2, 3, 4]));
    img.put_pixel(1, 0, image::Rgba([5, 6, 7, 8]));
    let bytes = png_of(image::DynamicImage::ImageRgba8(img));
    let (pixels, dims) = get_image(&bytes);
    assert_eq!(pixels, vec![1, 2, 3, 4, 5, 6, 7, 8]);
    assert_eq!(dims, (2, 1));
    assert_eq!(try_get_image(&bytes), Some((vec![1, 2, 3, 4, 5, 6, 7, 8], (2, 1))));
}

#[test]
fn rgb_png_gets_an_opaque_alpha() {
    let mut img = image::RgbImage::new(1, 2);
    img.put_pixel(0, 0, image::Rgb([10, 20, 30]));
    img.put_pixel(0, 1, image::Rgb([40, 50, 60]));
    let bytes = png_of(image::DynamicImage::ImageRgb8(img));
    let (pixels, dims) = get_image(&bytes);
    assert_eq!(pixels, vec![10, 20, 30, 255, 40, 50, 60, 255]);
    assert_eq!(dims, (1, 2));
}

#[test]
fn grey_png_spreads_to_all_channels() {
    let mut img = image::GrayImage::new(2, 1);
    img.put_pixel(0, 0, image::Luma([7]));
    img.put_pixel(1, 0, image::Luma([200]));
    let bytes = png_of(image::DynamicImage::ImageLuma8(img));
    assert_eq!(try_get_image(&bytes), Some((vec![7, 7, 7, 255, 200, 200, 200, 255], (2, 1))));
}

#[test]
fn garbage_is_refused() {
    assert_eq!(try_get_image(&[1, 2, 3, 4]), None);
    assert_eq!(try_get_image(&[]), None);
}
