use tui_session::frame::{dimensions_label, frame_panel, frame_regions, panel_in, push_decimal, Region};

fn area(x: u16, y: u16, width: u16, height: u16) -> Region {
    Region { x, y, width, height }
}

#[test]
fn bands_of_forty_by_one_twenty() {
    let bands = frame_regions(area(0, 0, 120, 40));
    assert_eq!(bands, vec![area(0, 0, 120, 20), area(0, 20, 120, 1), area(0, 21, 120, 19)]);
}

#[test]
fn bands_follow_an_offset_area() {
    let bands = frame_regions(area(3, 5, 10, 10));
    assert_eq!(bands, vec![area(3, 5, 10, 5), area(3, 10, 10, 1), area(3, 11, 10, 4)]);
}

#[test]
fn bands_of_a_single_row() {
    let bands = frame_regions(area(0, 0, 8, 1));
    assert_eq!(bands.len(), 3);
    assert!(bands.iter().all(|b| b.width == 8 && b.x == 0));
}

#[test]
fn last_band_ends_at_the_saturated_bottom() {
    let bands = frame_regions(area(2, 65000, 10, 1000));
    assert_eq!(bands.len(), 3);
    assert!(bands.iter().all(|b| b.x == 2 && b.width == 10));
    assert_eq!(bands[0].y, 65000);
    assert_eq!(bands[2].y as u32 + bands[2].height as u32, 65535);
}

#[test]
fn bands_of_an_empty_frame() {
    let bands = frame_regions(area(0, 0, 0, 0));
    assert_eq!(bands, vec![area(0, 0, 0, 0), area(0, 0, 0, 0), area(0, 0, 0, 0)]);
}

#[test]
fn panel_of_forty_by_one_twenty() {
    let panel = frame_panel(area(0, 0, 120, 40));
    assert_eq!(panel.title, "40 x 120");
    assert_eq!(panel.area, area(0, 20, 120, 1));
}

#[test]
fn panel_takes_the_middle_band() {
    let bands = vec![area(0, 0, 4, 1), area(0, 1, 4, 2), area(0, 3, 4, 3)];
    let panel = panel_in(&bands, area(0, 0, 4, 6));
    assert_eq!(panel.area, area(0, 1, 4, 2));
    assert_eq!(panel.title, "6 x 4");
}

#[test]
fn label_puts_height_first() {
    assert_eq!(dimensions_label(24, 80), "24 x 80");
    assert_eq!(dimensions_label(80, 24), "80 x 24");
}

#[test]
fn label_of_zero_and_largest_sizes() {
    assert_eq!(dimensions_label(0, 0), "0 x 0");
    assert_eq!(dimensions_label(65535, 10), "65535 x 10");
    assert_eq!(dimensions_label(9, 100), "9 x 100");
}

#[test]
fn decimal_appends_to_what_is_there() {
    let mut s = String::from("rows: ");
    push_decimal(&mut s, 1000);
    assert_eq!(s, "rows: 1000");
}
