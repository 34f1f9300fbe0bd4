use docfit::orientation::{orientation_for_panel, Orientation};

#[test]
fn wide_panel_is_landscape() {
    assert_eq!(orientation_for_panel(900, 400), Orientation::Landscape);
}

#[test]
fn tall_or_square_panel_is_portrait() {
    assert_eq!(orientation_for_panel(400, 900), Orientation::Portrait);
    assert_eq!(orientation_for_panel(500, 500), Orientation::Portrait);
}
