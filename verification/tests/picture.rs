use fractal_scheduler::canvas::Picture;

#[test]
fn new_picture_is_black() {
    let p = Picture::new(2, 3).unwrap();
    assert_eq!(p.width(), 2);
    assert_eq!(p.height(), 3);
    assert_eq!(p.into_bytes(), vec![0u8; 18]);
}

#[test]
fn picture_too_large_for_memory_is_refused() {
    assert!(Picture::new(u32::MAX, u32::MAX).is_none());
}

#[test]
fn empty_pictures_have_no_bytes() {
    assert_eq!(Picture::new(0, 0).unwrap().into_bytes(), Vec::<u8>::new());
    assert_eq!(Picture::new(5, 0).unwrap().into_bytes(), Vec::<u8>::new());
    assert_eq!(Picture::new(0, 5).unwrap().into_bytes(), Vec::<u8>::new());
}

#[test]
fn paint_row_changes_that_row_only() {
    let mut p = Picture::new(2, 3).unwrap();
    p.paint_row(1, &vec![1, 15]);
    assert_eq!(
        p.into_bytes(),
        vec![0, 0, 0, 0, 0, 0, 66, 30, 15, 153, 87, 0, 0, 0, 0, 0, 0, 0]
    );
}

#[test]
fn paint_row_overwrites_what_was_there() {
    let mut p = Picture::new(1, 2).unwrap();
    p.paint_row(0, &vec![1]);
    p.paint_row(1, &vec![2]);
    p.paint_row(0, &vec![3]);
    assert_eq!(p.into_bytes(), vec![9, 1, 47, 25, 7, 26]);
}

#[test]
fn pixel_starts_at_three_times_its_position() {
    let width = 4u32;
    let height = 3u32;
    let mut p = Picture::new(width, height).unwrap();
    for y in 0..height {
        let shades: Vec<u8> = (0..width).map(|x| (1 + x + y) as u8).collect();
        p.paint_row(y, &shades);
    }
    let bytes = p.into_bytes();
    assert_eq!(bytes.len(), 36);
    let img = image::RgbImage::from_raw(width, height, bytes.clone()).unwrap();
    for y in 0..height {
        for x in 0..width {
            let at = 3 * (y * width + x) as usize;
            let want = fractal_scheduler::palette::color((1 + x + y) as u8);
            assert_eq!((bytes[at], bytes[at + 1], bytes[at + 2]), want);
            assert_eq!(img.get_pixel(x, y).0, [want.0, want.1, want.2]);
        }
    }
}
