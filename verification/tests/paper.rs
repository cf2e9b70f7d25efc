use tile_print::paper::PaperSize;

#[test]
fn portrait_sizes_are_fixed() {
    assert_eq!(PaperSize::A3.size(false), (2970, 4200));
    assert_eq!(PaperSize::A4.size(false), (2100, 2970));
    assert_eq!(PaperSize::A5.size(false), (1480, 2100));
}

// Rotating a lookup swaps width and height for every variant.
#[test]
fn rotate_swaps_every_variant() {
    for paper in [PaperSize::A3, PaperSize::A4, PaperSize::A5] {
        let (w, h) = paper.size(false);
        assert_eq!(paper.size(true), (h, w));
    }
}

#[test]
fn vec_new_lists_smallest_first() {
    let v = PaperSize::vec_new();
    assert_eq!(v, vec![PaperSize::A5, PaperSize::A4, PaperSize::A3]);
}

#[test]
fn labels_name_the_format() {
    assert_eq!(PaperSize::A3.label(), "A3");
    assert_eq!(PaperSize::A4.label(), "A4");
    assert_eq!(PaperSize::A5.label(), "A5");
}
