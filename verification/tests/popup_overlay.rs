use docfit::document::{DocumentPage, Image};
use docfit::layout::{CompiledDocument, Frame, Item, Marker, PlacedItem};
use docfit::overlay::{build_areas, HoverRect, Overlay};
use docfit::popup::{Popup, PopupStore};

fn store() -> PopupStore {
    PopupStore {
        entries: vec![
            (
                String::from("pulse_1"),
                vec![
                    (String::from("label"), String::from("First block")),
                    (String::from("link"), String::from("https://example.test")),
                ],
            ),
            (String::from("emptied"), vec![]),
        ],
    }
}

#[test]
fn known_label_gets_popup() {
    let p = Popup::new(&store(), &String::from("pulse_1")).unwrap();
    let data = p.data();
    assert_eq!(data.len(), 2);
    assert_eq!(data[0].0, "label");
    assert_eq!(data[0].1, "First block");
    assert_eq!(data[1].0, "link");
    assert_eq!(data[1].1, "https://example.test");
}

#[test]
fn unknown_label_degrades_to_no_popup() {
    assert!(Popup::new(&store(), &String::from("nonexistent")).is_none());
}

#[test]
fn label_without_entries_gets_no_popup() {
    assert!(Popup::new(&store(), &String::from("emptied")).is_none());
}

fn overlay_with_popup() -> Overlay {
    let blocks = {
        let doc = CompiledDocument {
            pages: vec![Frame {
                width: 100,
                height: 100,
                items: vec![
                    PlacedItem {
                        x: 0,
                        y: 0,
                        item: Item::Marker(Marker::Start {
                            grid: true,
                            label: Some(String::from("pulse_1")),
                        }),
                    },
                    PlacedItem {
                        x: 10,
                        y: 10,
                        item: Item::Group(Box::new(Frame {
                            width: 20,
                            height: 20,
                            items: vec![],
                        })),
                    },
                ],
            }],
        };
        let image = Image { data: Vec::new(), width: 0, height: 0 };
        let dp = DocumentPage::new_followup(doc, 100, 100, image).unwrap();
        dp.get_data_blocks().unwrap()
    };
    let mut areas = build_areas(blocks, &store());
    assert_eq!(areas.len(), 1);
    areas.pop().unwrap()
}

#[test]
fn overlay_show_and_hide() {
    let mut o = overlay_with_popup();
    assert!(o.has_popup());
    assert!(!o.is_popup_visible());
    o.show_popup();
    assert!(o.is_popup_visible());
    o.hide_popup();
    assert!(!o.is_popup_visible());
}

#[test]
fn overlay_without_popup_never_shows_one() {
    let mut o = Overlay::new(
        HoverRect {
            x: docfit::geometry::Px { num: 0, den: 1 },
            y: docfit::geometry::Px { num: 0, den: 1 },
            width: docfit::geometry::Px { num: 10, den: 1 },
            height: docfit::geometry::Px { num: 10, den: 1 },
        },
        String::from("unknown"),
        None,
    );
    assert!(!o.has_popup());
    o.show_popup();
    assert!(!o.is_popup_visible());
    assert!(o.popup().is_none());
}

#[test]
fn build_areas_keeps_rects_labels_and_popups() {
    let o = overlay_with_popup();
    assert_eq!(o.label(), "pulse_1");
    // Ratio is 100/100; the block rect is (10-8, 10-8, 20+16, 20+16).
    let p = o.popup().unwrap();
    assert_eq!(p.data()[0].1, "First block");
}
