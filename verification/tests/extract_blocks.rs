use docfit::document::{DocumentError, DocumentPage, Image};
use docfit::extract::{DataBlock, ExtractError};
use docfit::geometry::Px;
use docfit::layout::{CompiledDocument, Frame, Item, Marker, PlacedItem};

fn group(x: i64, y: i64, w: i64, h: i64, items: Vec<PlacedItem>) -> PlacedItem {
    PlacedItem {
        x,
        y,
        item: Item::Group(Box::new(Frame { width: w, height: h, items })),
    }
}

fn grid_marker(label: Option<&str>) -> PlacedItem {
    PlacedItem {
        x: 0,
        y: 0,
        item: Item::Marker(Marker::Start {
            grid: true,
            label: label.map(String::from),
        }),
    }
}

fn other() -> PlacedItem {
    PlacedItem { x: 3, y: 4, item: Item::Other }
}

fn empty_image() -> Image {
    Image { data: Vec::new(), width: 0, height: 0 }
}

fn page(w: i64, h: i64, items: Vec<PlacedItem>) -> CompiledDocument {
    CompiledDocument { pages: vec![Frame { width: w, height: h, items }] }
}

fn blocks_of(doc: CompiledDocument, vw: u32, vh: u32) -> Vec<DataBlock> {
    let dp = DocumentPage::new_followup(doc, vw, vh, empty_image()).unwrap();
    dp.get_data_blocks().unwrap()
}

#[test]
fn two_pulse_blocks_scenario() {
    // Two grid-marked groups labeled pulse_1 and pulse_2, stacked
    // vertically in a 745x800 page, shown in a 945x900 panel: the fit is
    // by height with ratio 900/800, and exactly two blocks come out, in
    // source order.
    let doc = page(
        745,
        800,
        vec![
            grid_marker(Some("pulse_1")),
            group(50, 100, 600, 200, vec![]),
            grid_marker(Some("pulse_2")),
            group(50, 400, 600, 250, vec![]),
        ],
    );
    let blocks = blocks_of(doc, 945, 900);
    assert_eq!(blocks.len(), 2);
    assert_eq!(blocks[0].label, "pulse_1");
    assert_eq!(blocks[1].label, "pulse_2");

    // Exact pixel fractions over the common denominator 800:
    // x = 900*50/800 - 8, so the numerator is 900*50 - 8*800.
    assert_eq!(blocks[0].x.den, 800);
    assert_eq!(blocks[0].x.num, 900 * 50 - 8 * 800);
    assert_eq!(blocks[0].y.num, 900 * 100 - 8 * 800);
    assert_eq!(blocks[0].width.num, 900 * 600 + 16 * 800);
    assert_eq!(blocks[0].height.num, 900 * 200 + 16 * 800);
    assert_eq!(blocks[1].y.num, 900 * 400 - 8 * 800);

    // Positive sizes.
    for b in &blocks {
        assert!(b.width.is_positive());
        assert!(b.height.is_positive());
    }

    // Vertical order preserved: the first block's bottom edge is at or
    // above the second block's top edge, compared as exact fractions.
    let bottom_first = Px {
        num: blocks[0].y.num + blocks[0].height.num,
        den: blocks[0].y.den,
    };
    let top_second = blocks[1].y;
    assert!(bottom_first.le(&top_second));
    assert!(!top_second.le(&bottom_first) || top_second.eq_value(&bottom_first));
}

#[test]
fn pair_count_matches_markers() {
    // Three top-level marker/group pairs yield exactly three blocks, in
    // source order.
    let doc = page(
        200,
        200,
        vec![
            grid_marker(Some("a")),
            group(0, 0, 10, 10, vec![]),
            other(),
            grid_marker(Some("b")),
            group(0, 50, 10, 10, vec![]),
            grid_marker(Some("c")),
            group(0, 100, 10, 10, vec![]),
        ],
    );
    let blocks = blocks_of(doc, 200, 200);
    assert_eq!(blocks.len(), 3);
    assert_eq!(blocks[0].label, "a");
    assert_eq!(blocks[1].label, "b");
    assert_eq!(blocks[2].label, "c");
}

#[test]
fn dangling_marker_yields_nothing() {
    // A marker with no following group before its frame ends yields no
    // block and no error.
    let doc = page(
        200,
        200,
        vec![
            grid_marker(Some("a")),
            group(0, 0, 10, 10, vec![]),
            grid_marker(Some("dangling")),
        ],
    );
    let blocks = blocks_of(doc, 200, 200);
    assert_eq!(blocks.len(), 1);
    assert_eq!(blocks[0].label, "a");
}

#[test]
fn dangling_marker_in_nested_frame_spares_later_markers() {
    // A marker left armed inside a nested frame is dropped at that
    // frame's boundary; markers after the frame are extracted normally.
    let doc = page(
        200,
        200,
        vec![
            group(5, 5, 50, 50, vec![grid_marker(Some("inner_dangling"))]),
            grid_marker(Some("after")),
            group(0, 100, 10, 10, vec![]),
        ],
    );
    let blocks = blocks_of(doc, 200, 200);
    assert_eq!(blocks.len(), 1);
    assert_eq!(blocks[0].label, "after");
}

#[test]
fn marker_collision_is_error() {
    // A grid marker arriving while another is still armed is an
    // unsupported input.
    let doc = page(
        200,
        200,
        vec![grid_marker(Some("a")), grid_marker(Some("b")), group(0, 0, 10, 10, vec![])],
    );
    let dp = DocumentPage::new_followup(doc, 200, 200, empty_image()).unwrap();
    assert!(matches!(dp.get_data_blocks(), Err(ExtractError::MarkerAlreadyArmed)));
}

#[test]
fn unlabeled_marker_skips_its_region() {
    // A marker whose label cannot be resolved skips that one region and
    // extraction continues.
    let doc = page(
        200,
        200,
        vec![
            grid_marker(None),
            group(0, 0, 10, 10, vec![]),
            grid_marker(Some("kept")),
            group(0, 50, 10, 10, vec![]),
        ],
    );
    let blocks = blocks_of(doc, 200, 200);
    assert_eq!(blocks.len(), 1);
    assert_eq!(blocks[0].label, "kept");
}

#[test]
fn nested_offsets_accumulate() {
    // A pair inside an unmarked group: the region's position is the sum
    // of the group offset and the local position, scaled. With a 1:1
    // fit, x = 10 + 5 - 8 = 7 exactly.
    let doc = page(
        100,
        100,
        vec![group(
            10,
            20,
            80,
            70,
            vec![grid_marker(Some("n")), group(5, 6, 30, 40, vec![])],
        )],
    );
    let blocks = blocks_of(doc, 100, 100);
    assert_eq!(blocks.len(), 1);
    assert_eq!(blocks[0].label, "n");
    assert_eq!(blocks[0].x.num, 100 * 15 - 8 * 100);
    assert_eq!(blocks[0].x.den, 100);
    assert_eq!(blocks[0].y.num, 100 * 26 - 8 * 100);
    assert_eq!(blocks[0].width.num, 100 * 30 + 16 * 100);
    assert_eq!(blocks[0].height.num, 100 * 40 + 16 * 100);
}

#[test]
fn matched_group_is_a_leaf() {
    // The group a marker claims is not entered: pairs inside it are not
    // extracted.
    let doc = page(
        200,
        200,
        vec![
            grid_marker(Some("outer")),
            group(
                0,
                0,
                100,
                100,
                vec![grid_marker(Some("inner")), group(1, 1, 5, 5, vec![])],
            ),
        ],
    );
    let blocks = blocks_of(doc, 200, 200);
    assert_eq!(blocks.len(), 1);
    assert_eq!(blocks[0].label, "outer");
}

#[test]
fn extraction_idempotent() {
    // Re-running extraction on the same page and ratio yields an
    // identical list: same count, same exact rectangles, same labels.
    let doc = page(
        745,
        800,
        vec![
            grid_marker(Some("pulse_1")),
            group(50, 100, 600, 200, vec![]),
            grid_marker(Some("pulse_2")),
            group(50, 400, 600, 250, vec![]),
        ],
    );
    let dp = DocumentPage::new_followup(doc, 945, 900, empty_image()).unwrap();
    let first = dp.get_data_blocks().unwrap();
    let second = dp.get_data_blocks().unwrap();
    assert_eq!(first.len(), second.len());
    for (a, b) in first.iter().zip(second.iter()) {
        assert_eq!(a.x, b.x);
        assert_eq!(a.y, b.y);
        assert_eq!(a.width, b.width);
        assert_eq!(a.height, b.height);
        assert_eq!(a.label, b.label);
    }
}

#[test]
fn regions_scale_with_viewport() {
    // Tripling the panel triples the ratio; every block coordinate,
    // once the fixed margin is set aside, scales by exactly three.
    let items = || {
        vec![
            grid_marker(Some("pulse_1")),
            group(50, 100, 600, 200, vec![]),
            grid_marker(Some("pulse_2")),
            group(50, 400, 600, 250, vec![]),
        ]
    };
    let b1 = blocks_of(page(745, 800, items()), 945, 900);
    let b2 = blocks_of(page(745, 800, items()), 2835, 2700);
    assert_eq!(b1.len(), b2.len());
    for (a, b) in b1.iter().zip(b2.iter()) {
        let d1 = a.x.den as i128;
        let d2 = b.x.den as i128;
        let scaled = |v1: i64, v2: i64, pad1: i128, pad2: i128| {
            (v2 as i128 + pad2) * d1 == 3 * (v1 as i128 + pad1) * d2
        };
        assert!(scaled(a.x.num, b.x.num, 8 * d1, 8 * d2));
        assert!(scaled(a.y.num, b.y.num, 8 * d1, 8 * d2));
        assert!(scaled(a.width.num, b.width.num, -16 * d1, -16 * d2));
        assert!(scaled(a.height.num, b.height.num, -16 * d1, -16 * d2));
        assert_eq!(a.label, b.label);
    }
}

#[test]
fn empty_document_is_rejected() {
    let doc = CompiledDocument { pages: Vec::new() };
    let r = DocumentPage::new_followup(doc, 200, 200, empty_image());
    assert!(matches!(r, Err(DocumentError::EmptyDocument)));
}

#[test]
fn oversized_page_is_rejected() {
    let doc = page(0x4000_0001, 100, vec![]);
    let r = DocumentPage::new_followup(doc, 200, 200, empty_image());
    assert!(matches!(r, Err(DocumentError::OutOfBounds)));
}
