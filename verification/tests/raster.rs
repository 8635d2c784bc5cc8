use raytracer::raster::Raster;

#[test]
fn len_is_width_times_height() {
    assert_eq!(Raster { width: 400, height: 225 }.len(), 90_000);
    assert_eq!(Raster { width: 2, height: 1 }.len(), 2);
    assert_eq!(Raster { width: 0, height: 7 }.len(), 0);
    assert_eq!(Raster { width: 7, height: 0 }.len(), 0);
    assert_eq!(Raster { width: u32::MAX, height: u32::MAX }.len(), 18_446_744_065_119_617_025);
}

#[test]
fn pixels_leave_from_the_top_row_down_and_from_left_to_right() {
    let r = Raster { width: 3, height: 2 };
    let order: Vec<Option<(u32, u32)>> = (0..7).map(|k| r.pixel(k)).collect();
    assert_eq!(
        order,
        vec![Some((0, 1)), Some((1, 1)), Some((2, 1)), Some((0, 0)), Some((1, 0)), Some((2, 0)), None]
    );
}

#[test]
fn pixel_order_is_that_of_two_nested_loops() {
    let r = Raster { width: 5, height: 4 };
    let mut k: u64 = 0;
    for j in (0..r.height).rev() {
        for i in 0..r.width {
            assert_eq!(r.pixel(k), Some((i, j)));
            k += 1;
        }
    }
    assert_eq!(k, r.len());
    assert_eq!(r.pixel(k), None);
}

#[test]
fn image_without_pixels_has_no_first_pixel() {
    assert_eq!(Raster { width: 0, height: 0 }.pixel(0), None);
    assert_eq!(Raster { width: 0, height: 9 }.pixel(0), None);
    assert_eq!(Raster { width: 9, height: 0 }.pixel(0), None);
}

#[test]
fn last_pixel_of_the_largest_image() {
    let r = Raster { width: u32::MAX, height: u32::MAX };
    assert_eq!(r.pixel(0), Some((0, u32::MAX - 1)));
    assert_eq!(r.pixel(r.len() - 1), Some((u32::MAX - 1, 0)));
    assert_eq!(r.pixel(r.len()), None);
    assert_eq!(r.pixel(u64::MAX), None);
}
