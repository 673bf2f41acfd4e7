use dhash::{ColorImage, GreyImage, HashError};

#[test]
fn color_image_needs_four_values_per_pixel() {
    let img = ColorImage::new(2, 3, vec![0; 24]).unwrap();
    assert_eq!(img.width(), 2);
    assert_eq!(img.height(), 3);
    let img = ColorImage::from_bytes(2, 3, &[0; 24]).unwrap();
    assert_eq!(img.width(), 2);
    assert_eq!(img.height(), 3);
    assert_eq!(ColorImage::from_bytes(2, 3, &[0; 23]).err(), Some(HashError::InvalidImage));
    assert_eq!(ColorImage::from_bytes(2, 3, &[0; 25]).err(), Some(HashError::InvalidImage));
    assert_eq!(ColorImage::from_bytes(0, 0, &[0; 1]).err(), Some(HashError::InvalidImage));
    assert_eq!(ColorImage::new(2, 3, vec![0; 23]).err(), Some(HashError::InvalidImage));
    assert_eq!(ColorImage::new(2, 3, vec![0; 25]).err(), Some(HashError::InvalidImage));
    assert_eq!(ColorImage::new(2, 3, vec![0; 6]).err(), Some(HashError::InvalidImage));
    assert_eq!(ColorImage::new(0, 3, vec![0; 4]).err(), Some(HashError::InvalidImage));
}

#[test]
fn color_image_without_pixels_can_be_made() {
    assert!(ColorImage::new(0, 0, vec![]).is_ok());
    assert!(ColorImage::new(0, 7, vec![]).is_ok());
    assert!(ColorImage::new(7, 0, vec![]).is_ok());
    assert!(ColorImage::from_bytes(0, 7, &[]).is_ok());
    assert!(ColorImage::new(u32::MAX, u32::MAX, vec![]).is_err());
    assert!(ColorImage::from_bytes(u32::MAX, u32::MAX, &[]).is_err());
}

#[test]
fn grey_image_needs_one_value_per_pixel() {
    let img = GreyImage::new(3, 2, vec![1, 2, 3, 4, 5, 6]).unwrap();
    assert_eq!(img.width(), 3);
    assert_eq!(img.height(), 2);
    assert_eq!(GreyImage::new(3, 2, vec![0; 5]).err(), Some(HashError::InvalidGridShape));
    assert_eq!(GreyImage::new(3, 2, vec![0; 7]).err(), Some(HashError::InvalidGridShape));
    assert_eq!(
        GreyImage::new(u32::MAX, u32::MAX, vec![0; 1]).err(),
        Some(HashError::InvalidGridShape)
    );
}

#[test]
fn grey_image_is_stored_row_by_row() {
    let img = GreyImage::new(3, 2, vec![1, 2, 3, 4, 5, 60000]).unwrap();
    assert_eq!(img.get_pixel(0, 0), 1);
    assert_eq!(img.get_pixel(1, 0), 2);
    assert_eq!(img.get_pixel(2, 0), 3);
    assert_eq!(img.get_pixel(0, 1), 4);
    assert_eq!(img.get_pixel(1, 1), 5);
    assert_eq!(img.get_pixel(2, 1), 60000);
}
