use rusty_trace::texture::{pixel_index, Image};

fn gradient() -> Image {
    // 3 wide, 2 high; pixel (x, y) is [10 * x, 20 * y, x + y]
    let mut data = Vec::new();
    for y in 0..2u8 {
        for x in 0..3u8 {
            data.extend_from_slice(&[10 * x, 20 * y, x + y]);
        }
    }
    Image::from_raw(3, 2, data).unwrap()
}

#[test]
fn image_keeps_dimensions_and_bytes() {
    let data: Vec<u8> = (0..18).collect();
    let image = Image::from_raw(3, 2, data.clone()).unwrap();
    assert_eq!(image.dimensions(), (3, 2));
    assert_eq!(image.width(), 3);
    assert_eq!(image.height(), 2);
    assert_eq!(image.as_raw(), &data);
}

#[test]
fn image_refuses_short_buffer() {
    assert!(Image::from_raw(3, 2, vec![0; 17]).is_none());
    assert!(Image::from_raw(3, 2, vec![0; 18]).is_some());
    assert!(Image::from_raw(u32::MAX, u32::MAX, vec![0; 18]).is_none());
}

#[test]
fn image_accepts_longer_buffer() {
    let image = Image::from_raw(1, 1, vec![1, 2, 3, 4, 5]).unwrap();
    assert_eq!(image.dimensions(), (1, 1));
    assert_eq!(image.as_raw().len(), 5);
    assert_eq!(image.get_pixel(0, 0), Some([1, 2, 3]));
}

#[test]
fn image_get_pixel_reads_row_major() {
    let image = gradient();
    assert_eq!(image.get_pixel(0, 0), Some([0, 0, 0]));
    assert_eq!(image.get_pixel(2, 0), Some([20, 0, 2]));
    assert_eq!(image.get_pixel(1, 1), Some([10, 20, 2]));
    assert_eq!(image.get_pixel(2, 1), Some([20, 20, 3]));
    assert_eq!(image.get_pixel(3, 0), None);
    assert_eq!(image.get_pixel(0, 2), None);
}

#[test]
fn image_sample_clamps_the_far_edge() {
    let image = gradient();
    assert_eq!(image.sample(0, 0), Some([0, 0, 0]));
    assert_eq!(image.sample(2, 1), Some([20, 20, 3]));
    assert_eq!(image.sample(3, 2), Some([20, 20, 3]));
    assert_eq!(image.sample(3, 0), Some([20, 0, 2]));
    assert_eq!(image.sample(1, 2), Some([10, 20, 2]));
    assert_eq!(image.sample(u32::MAX, u32::MAX), Some([20, 20, 3]));
}

#[test]
fn image_sample_of_empty_raster_is_none() {
    let empty = Image::from_raw(0, 0, Vec::new()).unwrap();
    assert_eq!(empty.sample(0, 0), None);
    let flat = Image::from_raw(4, 0, Vec::new()).unwrap();
    assert_eq!(flat.sample(1, 0), None);
    assert_eq!(flat.get_pixel(0, 0), None);
}

#[test]
fn image_clone_copies_pixels() {
    let image = gradient();
    let copy = image.clone();
    assert_eq!(copy.dimensions(), image.dimensions());
    assert_eq!(copy.as_raw(), image.as_raw());
}

#[test]
fn image_round_trips_through_its_parts() {
    let image = gradient();
    let (width, height) = image.dimensions();
    let again = Image::from_raw(width, height, image.as_raw().clone()).unwrap();
    assert_eq!(again.dimensions(), image.dimensions());
    assert_eq!(again.as_raw(), image.as_raw());
}

#[test]
fn image_agrees_with_the_image_crate() {
    let mut raster = image::RgbImage::new(4, 3);
    raster.put_pixel(3, 2, image::Rgb([9, 8, 7]));
    raster.put_pixel(1, 0, image::Rgb([1, 2, 3]));
    let ours = Image::from_raw(4, 3, raster.as_raw().clone()).unwrap();
    for y in 0..3 {
        for x in 0..4 {
            assert_eq!(ours.get_pixel(x, y), Some(raster.get_pixel(x, y).0));
        }
    }
}

#[test]
fn pixel_index_values() {
    assert_eq!(pixel_index(0, 4), 0);
    assert_eq!(pixel_index(3, 4), 3);
    assert_eq!(pixel_index(4, 4), 3);
    assert_eq!(pixel_index(9, 4), 3);
    assert_eq!(pixel_index(0, 1), 0);
    assert_eq!(pixel_index(1, 1), 0);
}

#[test]
fn image_into_raw_gives_the_buffer_back() {
    let data: Vec<u8> = (100..118).collect();
    let image = Image::from_raw(2, 3, data.clone()).unwrap();
    assert_eq!(image.into_raw(), data);
}
