use tile_print::naming::candidate_name;

// With no existing file the first candidate is `output.png`; with it taken
// the next proposal is `output(1).png`, then `output(2).png`, and so on.
#[test]
fn candidates_probe_in_order() {
    assert_eq!(candidate_name(0), "output.png");
    assert_eq!(candidate_name(1), "output(1).png");
    assert_eq!(candidate_name(2), "output(2).png");
}

#[test]
fn candidate_counters_print_in_decimal() {
    assert_eq!(candidate_name(10), "output(10).png");
    assert_eq!(candidate_name(907), "output(907).png");
    assert_eq!(candidate_name(4294967295), "output(4294967295).png");
}
