use tile_print::raster::Raster;

#[test]
fn from_parts_checks_the_length() {
    let ok = Raster::from_parts(2, 1, vec![0; 8]);
    assert!(ok.is_some());
    let r = ok.unwrap();
    assert_eq!(r.width, 2);
    assert_eq!(r.height, 1);

    assert!(Raster::from_parts(2, 1, vec![0; 7]).is_none());
    assert!(Raster::from_parts(2, 1, vec![0; 9]).is_none());
    assert!(Raster::from_parts(0, 0, Vec::new()).is_some());
}

#[test]
fn channels_read_row_by_row() {
    let data = vec![
        1, 2, 3, 4, // pixel (0, 0)
        5, 6, 7, 8, // pixel (1, 0)
        9, 10, 11, 12, // pixel (0, 1)
        13, 14, 15, 16, // pixel (1, 1)
    ];
    let r = Raster::from_parts(2, 2, data).unwrap();
    assert_eq!(r.get_channel(0, 0, 0), 1);
    assert_eq!(r.get_channel(1, 0, 3), 8);
    assert_eq!(r.get_channel(0, 1, 1), 10);
    assert_eq!(r.get_channel(1, 1, 2), 15);
}

#[test]
fn new_zeroed_is_blank() {
    let r = Raster::new_zeroed(3, 5);
    assert_eq!(r.width, 3);
    assert_eq!(r.height, 5);
    assert_eq!(r.data.len(), 60);
    assert!(r.data.iter().all(|&b| b == 0));
}
