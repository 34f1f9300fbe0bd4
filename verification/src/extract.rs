//! The region extractor.
//!
//! At each nesting level the extractor walks the item list left to right
//! with a one-slot state: a grid marker arms the level and parks the
//! marker's label; the next group at the same level is the armed marker's
//! region and is not entered; a group met while idle is entered with the
//! offsets accumulated. A grid marker met while already armed is an
//! unsupported input and fails the whole extraction. A marker whose label
//! is missing skips its one region and extraction continues. A marker
//! still armed when its frame ends yields nothing.
//!
//! The extracted regions are mapped to pixel space with the fit ratio and
//! a fixed outward margin: for an absolute position `(x, y)` and group
//! size `(w, h)` in document units the region is
//! `(ratio*x - PAD, ratio*y - PAD, ratio*w + 2*PAD, ratio*h + 2*PAD)`,
//! exact over the ratio's denominator.

use vstd::prelude::*;

use crate::fit::{spec_fit_den, spec_fit_num};
use crate::geometry::{Frac, Px};
use crate::layout::{frame_bounded, in_coord_range, item_bounded, Frame, Item, Marker, PlacedItem};

verus! {

/// Outward pixel margin applied symmetrically around every region. A
/// fixed pixel amount, deliberately independent of the raster's own size.
pub const PAD: u32 = 8;

/// Extraction failure.
#[derive(Clone, Copy, PartialEq, Eq, Structural, Debug)]
pub enum ExtractError {
    /// A grid marker arrived while a previous grid marker at the same
    /// level was still waiting for its group. The input is unsupported:
    /// neither overwriting nor dropping a pending marker would be right.
    MarkerAlreadyArmed,
}

/// Extraction state of one nesting level: idle, or armed with the pending
/// marker's label when it had one.
pub enum Arm {
    Idle,
    Pending(Option<Seq<char>>),
}

/// A labeled rectangle in document units: the absolute position of a
/// matched group and its size.
pub struct RawRegion {
    pub x: int,
    pub y: int,
    pub w: int,
    pub h: int,
    pub label: Seq<char>,
}

/// The label a marker hands to the extraction state.
pub open spec fn marker_label_view(l: Option<String>) -> Option<Seq<char>> {
    match l {
        Some(s) => Some(s@),
        None => None,
    }
}

/// One level of extraction over `items`, starting in state `st` with
/// accumulated offset `(ox, oy)`: the regions found, in traversal order,
/// and the state left when the level ends; `None` on unsupported input.
pub open spec fn run_items(items: Seq<PlacedItem>, st: Arm, ox: int, oy: int) -> Option<
    (Seq<RawRegion>, Arm),
>
    decreases items,
{
    if items.len() == 0 {
        Some((Seq::empty(), st))
    } else {
        let p = items[0];
        let rest = items.drop_first();
        match p.item {
            Item::Marker(m) => match m {
                Marker::Start { grid, label } => {
                    if grid {
                        if st is Pending {
                            None
                        } else {
                            run_items(rest, Arm::Pending(marker_label_view(label)), ox, oy)
                        }
                    } else {
                        run_items(rest, st, ox, oy)
                    }
                },
                Marker::End => run_items(rest, st, ox, oy),
            },
            Item::Group(g) => match st {
                Arm::Pending(lbl) => match run_items(rest, Arm::Idle, ox, oy) {
                    None => None,
                    Some(t) => match lbl {
                        Some(l) => Some(
                            (
                                seq![
                                    RawRegion {
                                        x: ox + p.x,
                                        y: oy + p.y,
                                        w: g.width as int,
                                        h: g.height as int,
                                        label: l,
                                    }
                                ] + t.0,
                                t.1,
                            ),
                        ),
                        None => Some(t),
                    },
                },
                Arm::Idle => match run_items(g.items@, Arm::Idle, ox + p.x, oy + p.y) {
                    None => None,
                    Some(inner) => match run_items(rest, Arm::Idle, ox, oy) {
                        None => None,
                        Some(t) => Some((inner.0 + t.0, t.1)),
                    },
                },
            },
            Item::Other => run_items(rest, st, ox, oy),
        }
    }
}

/// An extracted interactive block in pixel space, exact over the fit
/// ratio's denominator.
pub struct DataBlock {
    pub x: Px,
    pub y: Px,
    pub width: Px,
    pub height: Px,
    pub label: String,
}

/// The pixel block `b` is the raw region `r` mapped through the ratio
/// `n / d` with the fixed outward margin.
pub open spec fn block_matches(b: DataBlock, r: RawRegion, n: int, d: int) -> bool {
    &&& b.x.den == d
    &&& b.y.den == d
    &&& b.width.den == d
    &&& b.height.den == d
    &&& b.x.num == n * r.x - PAD * d
    &&& b.y.num == n * r.y - PAD * d
    &&& b.width.num == n * r.w + 2 * PAD * d
    &&& b.height.num == n * r.h + 2 * PAD * d
    &&& b.label@ == r.label
}

/// Pointwise `block_matches` over whole lists.
pub open spec fn blocks_match(v: Seq<DataBlock>, raw: Seq<RawRegion>, n: int, d: int) -> bool {
    &&& v.len() == raw.len()
    &&& forall|i: int| 0 <= i < raw.len() ==> block_matches(#[trigger] v[i], raw[i], n, d)
}

/// `blocks_match` respects concatenation.
pub proof fn lemma_blocks_match_concat(
    v1: Seq<DataBlock>,
    raw1: Seq<RawRegion>,
    v2: Seq<DataBlock>,
    raw2: Seq<RawRegion>,
    n: int,
    d: int,
)
    requires
        blocks_match(v1, raw1, n, d),
        blocks_match(v2, raw2, n, d),
    ensures
        blocks_match(v1 + v2, raw1 + raw2, n, d),
{
    assert forall|i: int| 0 <= i < (raw1 + raw2).len() implies block_matches(
        #[trigger] (v1 + v2)[i],
        (raw1 + raw2)[i],
        n,
        d,
    ) by {
        if i < raw1.len() {
            assert((v1 + v2)[i] == v1[i]);
            assert((raw1 + raw2)[i] == raw1[i]);
        } else {
            assert((v1 + v2)[i] == v2[i - raw1.len()]);
            assert((raw1 + raw2)[i] == raw2[i - raw1.len()]);
        }
    }
}

/// Bound on a ratio component times a bounded coordinate: it stays well
/// inside the `i64` range.
pub proof fn lemma_scale_bounds(n: int, v: int)
    by (nonlinear_arith)
    requires
        0 <= n <= 0x4000_0000,
        -0x4000_0000 <= v <= 0x4000_0000,
    ensures
        -0x1000_0000_0000_0000 <= n * v <= 0x1000_0000_0000_0000,
{
}

/// The extraction state the exec walker's locals denote.
pub open spec fn arm_of(armed: bool, pending: Option<String>) -> Arm {
    if armed {
        Arm::Pending(marker_label_view(pending))
    } else {
        Arm::Idle
    }
}

/// Extract the pixel blocks of the tree under `frame`, which sits at
/// absolute offset `(ox, oy)`, scaling by `ratio`. Fails exactly when the
/// tree holds a grid marker arriving at an armed level.
pub fn extract_frame(frame: &Frame, ox: i64, oy: i64, ratio: Frac) -> (r: Result<
    Vec<DataBlock>,
    ExtractError,
>)
    requires
        ratio.wf(),
        in_coord_range(ox as int),
        in_coord_range(oy as int),
        frame_bounded(*frame, ox as int, oy as int),
    ensures
        match run_items(frame.items@, Arm::Idle, ox as int, oy as int) {
            Some(t) => r matches Ok(v) && blocks_match(
                v@,
                t.0,
                ratio.num as int,
                ratio.den as int,
            ),
            None => r matches Err(e) && e == ExtractError::MarkerAlreadyArmed,
        },
    decreases *frame,
{
    let ghost full = run_items(frame.items@, Arm::Idle, ox as int, oy as int);
    let mut out: Vec<DataBlock> = Vec::new();
    let ghost mut done: Seq<RawRegion> = Seq::empty();
    let mut armed: bool = false;
    let mut pending: Option<String> = None;
    let mut i: usize = 0;
    proof {
        assert(frame.items@.subrange(0, frame.items@.len() as int) =~= frame.items@);
        match full {
            Some(t) => {
                assert(done + t.0 =~= t.0);
            },
            None => {},
        }
    }
    while i < frame.items.len()
        invariant
            0 <= i <= frame.items@.len(),
            ratio.wf(),
            in_coord_range(ox as int),
            in_coord_range(oy as int),
            frame_bounded(*frame, ox as int, oy as int),
            full == run_items(frame.items@, Arm::Idle, ox as int, oy as int),
            blocks_match(out@, done, ratio.num as int, ratio.den as int),
            full == (match run_items(
                frame.items@.subrange(i as int, frame.items@.len() as int),
                arm_of(armed, pending),
                ox as int,
                oy as int,
            ) {
                None => None::<(Seq<RawRegion>, Arm)>,
                Some(t) => Some((done + t.0, t.1)),
            }),
        decreases frame.items@.len() - i,
    {
        let ghost suffix = frame.items@.subrange(i as int, frame.items@.len() as int);
        let ghost next_suffix = frame.items@.subrange(i as int + 1, frame.items@.len() as int);
        proof {
            assert(suffix[0] == frame.items@[i as int]);
            assert(suffix.drop_first() =~= next_suffix);
            assert(item_bounded(frame.items@[i as int], ox as int, oy as int));
        }
        let p = &frame.items[i];
        match &p.item {
            Item::Marker(m) => match m {
                Marker::Start { grid, label } => {
                    if *grid {
                        if armed {
                            return Err(ExtractError::MarkerAlreadyArmed);
                        }
                        armed = true;
                        pending = match label {
                            Some(l) => Some(l.clone()),
                            None => None,
                        };
                    }
                },
                Marker::End => {},
            },
            Item::Group(g) => {
                if armed {
                    armed = false;
                    let taken = pending;
                    pending = None;
                    if let Some(l) = taken {
                        let wx = ox + p.x;
                        let wy = oy + p.y;
                        proof {
                            lemma_scale_bounds(ratio.num as int, wx as int);
                            lemma_scale_bounds(ratio.num as int, wy as int);
                            lemma_scale_bounds(ratio.num as int, g.width as int);
                            lemma_scale_bounds(ratio.num as int, g.height as int);
                        }
                        let num = ratio.num as i64;
                        let den = ratio.den as i64;
                        // The margin terms are PAD and 2*PAD, written as
                        // literals to keep the products linear.
                        let block = DataBlock {
                            x: Px { num: num * wx - 8 * den, den: ratio.den },
                            y: Px { num: num * wy - 8 * den, den: ratio.den },
                            width: Px { num: num * g.width + 16 * den, den: ratio.den },
                            height: Px { num: num * g.height + 16 * den, den: ratio.den },
                            label: l,
                        };
                        let ghost region = RawRegion {
                            x: wx as int,
                            y: wy as int,
                            w: g.width as int,
                            h: g.height as int,
                            label: block.label@,
                        };
                        out.push(block);
                        proof {
                            done = done + seq![region];
                        }
                    }
                } else {
                    let sub = match extract_frame(g, ox + p.x, oy + p.y, ratio) {
                        Ok(v) => v,
                        Err(e) => {
                            return Err(e);
                        },
                    };
                    let ghost inner_regions = (run_items(
                        g.items@,
                        Arm::Idle,
                        ox as int + p.x,
                        oy as int + p.y,
                    )->0).0;
                    proof {
                        lemma_blocks_match_concat(
                            out@,
                            done,
                            sub@,
                            inner_regions,
                            ratio.num as int,
                            ratio.den as int,
                        );
                        done = done + inner_regions;
                    }
                    let mut sub = sub;
                    out.append(&mut sub);
                }
            },
            Item::Other => {},
        }
        proof {
            assert(full == (match run_items(
                next_suffix,
                arm_of(armed, pending),
                ox as int,
                oy as int,
            ) {
                None => None::<(Seq<RawRegion>, Arm)>,
                Some(t) => Some((done + t.0, t.1)),
            }));
        }
        i = i + 1;
    }
    proof {
        let suffix = frame.items@.subrange(i as int, frame.items@.len() as int);
        assert(suffix.len() == 0);
        assert(done + Seq::<RawRegion>::empty() =~= done);
    }
    Ok(out)
}

/// `p` is a grid start marker, labeled or not.
pub open spec fn is_grid_start(p: PlacedItem) -> bool {
    p.item matches Item::Marker(Marker::Start { grid: true, label: _ })
}

/// `p` is a grid start marker carrying a label.
pub open spec fn is_labeled_grid_marker(p: PlacedItem) -> bool {
    p.item matches Item::Marker(Marker::Start { grid: true, label: Some(_) })
}

/// The label of a labeled start marker.
pub open spec fn marker_label(p: PlacedItem) -> Seq<char> {
    match p.item {
        Item::Marker(Marker::Start { label: Some(s), .. }) => s@,
        _ => Seq::empty(),
    }
}

/// `p` is a group.
pub open spec fn is_group(p: PlacedItem) -> bool {
    p.item matches Item::Group(_)
}

/// Width of a group item, in document units.
pub open spec fn group_width(p: PlacedItem) -> int {
    match p.item {
        Item::Group(g) => g.width as int,
        _ => 0,
    }
}

/// Height of a group item, in document units.
pub open spec fn group_height(p: PlacedItem) -> int {
    match p.item {
        Item::Group(g) => g.height as int,
        _ => 0,
    }
}

/// The region a marker/group pair yields at parent offset `(ox, oy)`.
pub open spec fn pair_region(mk: PlacedItem, gp: PlacedItem, ox: int, oy: int) -> RawRegion {
    RawRegion {
        x: ox + gp.x,
        y: oy + gp.y,
        w: group_width(gp),
        h: group_height(gp),
        label: marker_label(mk),
    }
}

/// Concatenating sequences is associative.
proof fn lemma_seq_assoc<T>(x: Seq<T>, y: Seq<T>, z: Seq<T>)
    ensures
        (x + y) + z == x + (y + z),
{
    assert((x + y) + z =~= x + (y + z));
}

/// Running a level over `a + b` is running it over `a` and continuing
/// over `b` from the state `a` left behind.
pub proof fn lemma_run_items_concat(a: Seq<PlacedItem>, b: Seq<PlacedItem>, st: Arm, ox: int, oy: int)
    ensures
        run_items(a + b, st, ox, oy) == (match run_items(a, st, ox, oy) {
            None => None::<(Seq<RawRegion>, Arm)>,
            Some(t1) => match run_items(b, t1.1, ox, oy) {
                None => None::<(Seq<RawRegion>, Arm)>,
                Some(t2) => Some((t1.0 + t2.0, t2.1)),
            },
        }),
    decreases a.len(),
{
    if a.len() == 0 {
        assert(a + b =~= b);
        match run_items(b, st, ox, oy) {
            Some(t2) => {
                assert(Seq::<RawRegion>::empty() + t2.0 =~= t2.0);
            },
            None => {},
        }
    } else {
        let p = a[0];
        let arest = a.drop_first();
        assert((a + b)[0] == p);
        assert((a + b).drop_first() =~= arest + b);
        match p.item {
            Item::Marker(m) => match m {
                Marker::Start { grid, label } => {
                    if grid {
                        if !(st is Pending) {
                            lemma_run_items_concat(
                                arest,
                                b,
                                Arm::Pending(marker_label_view(label)),
                                ox,
                                oy,
                            );
                        }
                    } else {
                        lemma_run_items_concat(arest, b, st, ox, oy);
                    }
                },
                Marker::End => {
                    lemma_run_items_concat(arest, b, st, ox, oy);
                },
            },
            Item::Group(g) => match st {
                Arm::Pending(lbl) => {
                    lemma_run_items_concat(arest, b, Arm::Idle, ox, oy);
                    match (run_items(arest, Arm::Idle, ox, oy), lbl) {
                        (Some(t1), Some(l)) => {
                            let region = RawRegion {
                                x: ox + p.x,
                                y: oy + p.y,
                                w: g.width as int,
                                h: g.height as int,
                                label: l,
                            };
                            match run_items(b, t1.1, ox, oy) {
                                Some(t2) => {
                                    lemma_seq_assoc(seq![region], t1.0, t2.0);
                                },
                                None => {},
                            }
                        },
                        _ => {},
                    }
                },
                Arm::Idle => {
                    lemma_run_items_concat(arest, b, Arm::Idle, ox, oy);
                    match run_items(g.items@, Arm::Idle, ox + p.x, oy + p.y) {
                        Some(inner) => match run_items(arest, Arm::Idle, ox, oy) {
                            Some(t1) => match run_items(b, t1.1, ox, oy) {
                                Some(t2) => {
                                    lemma_seq_assoc(inner.0, t1.0, t2.0);
                                },
                                None => {},
                            },
                            None => {},
                        },
                        None => {},
                    }
                },
            },
            Item::Other => {
                lemma_run_items_concat(arest, b, st, ox, oy);
            },
        }
    }
}

/// Every item is neither a grid marker nor a group: end markers, text,
/// shapes, and markers of other kinds.
pub open spec fn all_neutral(items: Seq<PlacedItem>) -> bool {
    forall|i: int|
        0 <= i < items.len() ==> !is_grid_start(#[trigger] items[i]) && !is_group(items[i])
}

/// Neutral items produce nothing and change nothing: the armed state
/// persists across them.
pub proof fn lemma_neutral_items(items: Seq<PlacedItem>, st: Arm, ox: int, oy: int)
    requires
        all_neutral(items),
    ensures
        run_items(items, st, ox, oy) == Some((Seq::<RawRegion>::empty(), st)),
    decreases items.len(),
{
    if items.len() > 0 {
        assert(!is_grid_start(items[0]) && !is_group(items[0]));
        let rest = items.drop_first();
        assert forall|i: int|
            0 <= i < rest.len() implies !is_grid_start(#[trigger] rest[i]) && !is_group(
            rest[i],
        ) by {
            assert(rest[i] == items[i + 1]);
            assert(!is_grid_start(items[i + 1]) && !is_group(items[i + 1]));
        }
        lemma_neutral_items(rest, st, ox, oy);
    }
}

/// A top-level layout of labeled pairs with ordinary content around
/// them: each part is a run of neutral items followed by one labeled
/// grid marker and its group, and a neutral tail closes the level.
pub open spec fn interleaved_pairs(
    parts: Seq<(Seq<PlacedItem>, PlacedItem, PlacedItem)>,
    tail: Seq<PlacedItem>,
) -> Seq<PlacedItem>
    decreases parts.len(),
{
    if parts.len() == 0 {
        tail
    } else {
        (parts[0].0 + seq![parts[0].1, parts[0].2]) + interleaved_pairs(
            parts.drop_first(),
            tail,
        )
    }
}

/// A level holding labeled pairs in any amount of ordinary content
/// yields exactly one region per pair, in source order, and ends idle:
/// the content around the pairs contributes nothing.
pub proof fn lemma_interleaved_pairs_extract(
    parts: Seq<(Seq<PlacedItem>, PlacedItem, PlacedItem)>,
    tail: Seq<PlacedItem>,
    ox: int,
    oy: int,
)
    requires
        forall|j: int| 0 <= j < parts.len() ==> all_neutral((#[trigger] parts[j]).0),
        forall|j: int| 0 <= j < parts.len() ==> is_labeled_grid_marker((#[trigger] parts[j]).1),
        forall|j: int| 0 <= j < parts.len() ==> is_group((#[trigger] parts[j]).2),
        all_neutral(tail),
    ensures
        run_items(interleaved_pairs(parts, tail), Arm::Idle, ox, oy) matches Some(t) && t.1
            is Idle && t.0.len() == parts.len() && forall|j: int|
            0 <= j < parts.len() ==> #[trigger] t.0[j] == pair_region(
                parts[j].1,
                parts[j].2,
                ox,
                oy,
            ),
    decreases parts.len(),
{
    if parts.len() == 0 {
        lemma_neutral_items(tail, Arm::Idle, ox, oy);
    } else {
        let pre = parts[0].0;
        let mk = parts[0].1;
        let gp = parts[0].2;
        let flat_rest = interleaved_pairs(parts.drop_first(), tail);
        let items = interleaved_pairs(parts, tail);
        assert(items == (pre + seq![mk, gp]) + flat_rest);
        assert(items =~= pre + (seq![mk, gp] + flat_rest));

        assert forall|j: int| 0 <= j < parts.drop_first().len() implies all_neutral(
            (#[trigger] parts.drop_first()[j]).0,
        ) && is_labeled_grid_marker(parts.drop_first()[j].1) && is_group(
            parts.drop_first()[j].2,
        ) by {
            assert(parts.drop_first()[j] == parts[j + 1]);
            assert(all_neutral(parts[j + 1].0));
            assert(is_labeled_grid_marker(parts[j + 1].1));
            assert(is_group(parts[j + 1].2));
        }
        lemma_interleaved_pairs_extract(parts.drop_first(), tail, ox, oy);
        let t_rest = run_items(flat_rest, Arm::Idle, ox, oy)->0;

        lemma_pair_prepend(mk, gp, flat_rest, ox, oy);
        let region0 = pair_region(mk, gp, ox, oy);

        lemma_neutral_items(pre, Arm::Idle, ox, oy);
        lemma_run_items_concat(pre, seq![mk, gp] + flat_rest, Arm::Idle, ox, oy);
        let t_all = run_items(items, Arm::Idle, ox, oy)->0;
        assert(t_all.0 =~= seq![region0] + t_rest.0);

        assert forall|j: int| 0 <= j < parts.len() implies #[trigger] t_all.0[j] == pair_region(
            parts[j].1,
            parts[j].2,
            ox,
            oy,
        ) by {
            if j == 0 {
                assert(t_all.0[0] == region0);
            } else {
                assert(t_all.0[j] == t_rest.0[j - 1]);
                assert(t_rest.0[j - 1] == pair_region(
                    parts.drop_first()[j - 1].1,
                    parts.drop_first()[j - 1].2,
                    ox,
                    oy,
                ));
                assert(parts.drop_first()[j - 1] == parts[j]);
            }
        }
    }
}

/// One labeled pair at the head of a level: it yields exactly its own
/// region and leaves the rest of the level to continue from idle. With
/// the concatenation and neutral-item lemmas this accounts for any
/// top-level layout of pairs separated by ordinary content.
pub proof fn lemma_pair_prepend(mk: PlacedItem, gp: PlacedItem, rest: Seq<PlacedItem>, ox: int, oy: int)
    requires
        is_labeled_grid_marker(mk),
        is_group(gp),
    ensures
        run_items(seq![mk, gp] + rest, Arm::Idle, ox, oy) == (match run_items(
            rest,
            Arm::Idle,
            ox,
            oy,
        ) {
            None => None::<(Seq<RawRegion>, Arm)>,
            Some(t) => Some((seq![pair_region(mk, gp, ox, oy)] + t.0, t.1)),
        }),
{
    reveal_with_fuel(run_items, 3);
    let items = seq![mk, gp] + rest;
    assert(items[0] == mk);
    assert(items.drop_first() =~= seq![gp] + rest);
    assert((seq![gp] + rest)[0] == gp);
    assert((seq![gp] + rest).drop_first() =~= rest);
}

/// A level holding exactly marker/group pairs — each grid marker labeled
/// and immediately followed by its group — yields exactly one region per
/// pair, in source order, and ends idle.
pub proof fn lemma_pairs_extract(items: Seq<PlacedItem>, ox: int, oy: int)
    requires
        items.len() % 2 == 0,
        forall|j: int| 0 <= j < items.len() / 2 ==> is_labeled_grid_marker(#[trigger] items[2 * j]),
        forall|j: int| 0 <= j < items.len() / 2 ==> is_group(#[trigger] items[2 * j + 1]),
    ensures
        run_items(items, Arm::Idle, ox, oy) matches Some(t) && t.1 is Idle && t.0.len()
            == items.len() / 2 && forall|j: int|
            0 <= j < items.len() / 2 ==> #[trigger] t.0[j] == pair_region(
                items[2 * j],
                items[2 * j + 1],
                ox,
                oy,
            ),
    decreases items.len(),
{
    if items.len() == 0 {
    } else {
        reveal_with_fuel(run_items, 3);
        assert(is_labeled_grid_marker(items[2 * 0int]));
        assert(is_group(items[2 * 0int + 1]));
        let rest = items.drop_first();
        let rest2 = rest.drop_first();
        assert(rest[0] == items[1]);
        assert forall|j: int| 0 <= j < rest2.len() / 2 implies is_labeled_grid_marker(
            #[trigger] rest2[2 * j],
        ) by {
            assert(rest2[2 * j] == items[2 * (j + 1)]);
            assert(is_labeled_grid_marker(items[2 * (j + 1)]));
        }
        assert forall|j: int| 0 <= j < rest2.len() / 2 implies is_group(
            #[trigger] rest2[2 * j + 1],
        ) by {
            assert(rest2[2 * j + 1] == items[2 * (j + 1) + 1]);
            assert(is_group(items[2 * (j + 1) + 1]));
        }
        lemma_pairs_extract(rest2, ox, oy);
        let t_rest = run_items(rest2, Arm::Idle, ox, oy)->0;
        let region0 = pair_region(items[0], items[1], ox, oy);
        let t_all = run_items(items, Arm::Idle, ox, oy)->0;
        assert(t_all.0 == seq![region0] + t_rest.0);
        assert(t_all.0.len() == items.len() / 2);
        assert forall|j: int| 0 <= j < items.len() / 2 implies #[trigger] t_all.0[j]
            == pair_region(items[2 * j], items[2 * j + 1], ox, oy) by {
            if j == 0 {
                assert(t_all.0[0] == region0);
            } else {
                assert(t_all.0[j] == t_rest.0[j - 1]);
                assert(t_rest.0[j - 1] == pair_region(rest2[2 * (j - 1)], rest2[2 * (j - 1) + 1], ox, oy));
                assert(rest2[2 * (j - 1)] == items[2 * j]);
                assert(rest2[2 * (j - 1) + 1] == items[2 * j + 1]);
            }
        }
    }
}

/// A marker with no following group yields no region: appending a grid
/// marker at the end of a level leaves the extracted regions unchanged;
/// only the level's final state becomes armed.
pub proof fn lemma_trailing_marker(items: Seq<PlacedItem>, mk: PlacedItem, st: Arm, ox: int, oy: int)
    requires
        is_grid_start(mk),
        run_items(items, st, ox, oy) matches Some(t) && t.1 is Idle,
    ensures
        run_items(items + seq![mk], st, ox, oy) matches Some(t2) && t2.0 == (run_items(
            items,
            st,
            ox,
            oy,
        )->0).0 && t2.1 is Pending,
{
    reveal_with_fuel(run_items, 2);
    lemma_run_items_concat(items, seq![mk], st, ox, oy);
    let t = run_items(items, st, ox, oy)->0;
    assert(seq![mk].drop_first() =~= Seq::<PlacedItem>::empty());
    let t2 = run_items(items + seq![mk], st, ox, oy)->0;
    assert(t2.0 =~= t.0);
}

/// A marker left armed at the end of a nested frame is dropped at that
/// frame's boundary: the group contributes exactly the regions found
/// before the marker, and the items after the group — further markers
/// included — are processed from the idle state, as if the dangling
/// marker were absent.
pub proof fn lemma_dangling_marker_scoped(
    inner: Seq<PlacedItem>,
    mk: PlacedItem,
    p: PlacedItem,
    rest: Seq<PlacedItem>,
    ox: int,
    oy: int,
)
    requires
        is_grid_start(mk),
        p.item matches Item::Group(g) && g.items@ == inner + seq![mk],
        run_items(inner, Arm::Idle, ox + p.x, oy + p.y) matches Some(t) && t.1 is Idle,
    ensures
        run_items(seq![p] + rest, Arm::Idle, ox, oy) == (match run_items(
            rest,
            Arm::Idle,
            ox,
            oy,
        ) {
            None => None::<(Seq<RawRegion>, Arm)>,
            Some(t2) => Some(
                ((run_items(inner, Arm::Idle, ox + p.x, oy + p.y)->0).0 + t2.0, t2.1),
            ),
        }),
{
    lemma_trailing_marker(inner, mk, Arm::Idle, ox + p.x, oy + p.y);
    assert((seq![p] + rest)[0] == p);
    assert((seq![p] + rest).drop_first() =~= rest);
    assert((seq![p] + rest).len() > 0);
}

/// Extraction is a function of the layout tree and the ratio alone: two
/// block lists matching the same raw extraction under the same ratio
/// agree in count, in every rectangle, and in every label.
pub proof fn lemma_extraction_unique(
    v1: Seq<DataBlock>,
    v2: Seq<DataBlock>,
    raw: Seq<RawRegion>,
    n: int,
    d: int,
)
    requires
        blocks_match(v1, raw, n, d),
        blocks_match(v2, raw, n, d),
    ensures
        v1.len() == v2.len(),
        forall|i: int|
            0 <= i < v1.len() ==> {
                &&& #[trigger] v1[i].x == v2[i].x
                &&& v1[i].y == v2[i].y
                &&& v1[i].width == v2[i].width
                &&& v1[i].height == v2[i].height
                &&& v1[i].label@ == v2[i].label@
            },
{
    assert forall|i: int| 0 <= i < v1.len() implies {
        &&& #[trigger] v1[i].x == v2[i].x
        &&& v1[i].y == v2[i].y
        &&& v1[i].width == v2[i].width
        &&& v1[i].height == v2[i].height
        &&& v1[i].label@ == v2[i].label@
    } by {
        assert(block_matches(v1[i], raw[i], n, d));
        assert(block_matches(v2[i], raw[i], n, d));
    }
}

/// Cross-multiplied scaling, lifted over one coordinate.
proof fn lemma_cross_scale(a: int, n1: int, d1: int, n2: int, d2: int, k: int)
    by (nonlinear_arith)
    requires
        n2 * d1 == k * (n1 * d2),
    ensures
        (n2 * a) * d1 == k * ((n1 * a) * d2),
{
}

/// The second block list is the first scaled by `k`, once the fixed
/// margin is set aside: every position (plus the margin) and every size
/// (minus the doubled margin) scales by exactly `k`, and labels agree.
/// All equations are cross-multiplied by the two denominators.
pub open spec fn blocks_scaled_by(
    v1: Seq<DataBlock>,
    d1: int,
    v2: Seq<DataBlock>,
    d2: int,
    k: int,
) -> bool {
    &&& v1.len() == v2.len()
    &&& forall|i: int|
        0 <= i < v1.len() ==> {
            &&& (#[trigger] v2[i].x.num + PAD * d2) * d1 == k * ((v1[i].x.num + PAD * d1) * d2)
            &&& (v2[i].y.num + PAD * d2) * d1 == k * ((v1[i].y.num + PAD * d1) * d2)
            &&& (v2[i].width.num - 2 * PAD * d2) * d1 == k * ((v1[i].width.num - 2 * PAD * d1)
                * d2)
            &&& (v2[i].height.num - 2 * PAD * d2) * d1 == k * ((v1[i].height.num - 2 * PAD * d1)
                * d2)
            &&& v2[i].label@ == v1[i].label@
        }
}

/// Scaling the ratio by `k` scales every block by `k` once the fixed
/// margin is accounted for.
pub proof fn lemma_blocks_scale(
    v1: Seq<DataBlock>,
    v2: Seq<DataBlock>,
    raw: Seq<RawRegion>,
    n1: int,
    d1: int,
    n2: int,
    d2: int,
    k: int,
)
    requires
        blocks_match(v1, raw, n1, d1),
        blocks_match(v2, raw, n2, d2),
        n2 * d1 == k * (n1 * d2),
    ensures
        blocks_scaled_by(v1, d1, v2, d2, k),
{
    assert forall|i: int| 0 <= i < v1.len() implies {
        &&& (#[trigger] v2[i].x.num + PAD * d2) * d1 == k * ((v1[i].x.num + PAD * d1) * d2)
        &&& (v2[i].y.num + PAD * d2) * d1 == k * ((v1[i].y.num + PAD * d1) * d2)
        &&& (v2[i].width.num - 2 * PAD * d2) * d1 == k * ((v1[i].width.num - 2 * PAD * d1) * d2)
        &&& (v2[i].height.num - 2 * PAD * d2) * d1 == k * ((v1[i].height.num - 2 * PAD * d1) * d2)
        &&& v2[i].label@ == v1[i].label@
    } by {
        assert(block_matches(v1[i], raw[i], n1, d1));
        assert(block_matches(v2[i], raw[i], n2, d2));
        lemma_cross_scale(raw[i].x, n1, d1, n2, d2, k);
        lemma_cross_scale(raw[i].y, n1, d1, n2, d2, k);
        lemma_cross_scale(raw[i].w, n1, d1, n2, d2, k);
        lemma_cross_scale(raw[i].h, n1, d1, n2, d2, k);
    }
}

/// Scaling the viewport uniformly by `k` scales the fit ratio by `k`
/// and, with it, every extracted block: two block lists over the same
/// layout tree, computed for panels `(vw, vh)` and `(k*vw, k*vh)`, are
/// scaled copies of one another once the fixed margin is set aside.
pub proof fn lemma_regions_scale_with_viewport(
    pw: int,
    ph: int,
    vw: int,
    vh: int,
    k: int,
    v1: Seq<DataBlock>,
    v2: Seq<DataBlock>,
    raw: Seq<RawRegion>,
)
    requires
        1 <= pw,
        1 <= ph,
        1 <= vw,
        1 <= vh,
        1 <= k,
        blocks_match(v1, raw, spec_fit_num(pw, ph, vw, vh), spec_fit_den(pw, ph, vw, vh)),
        blocks_match(
            v2,
            raw,
            spec_fit_num(pw, ph, k * vw, k * vh),
            spec_fit_den(pw, ph, k * vw, k * vh),
        ),
    ensures
        blocks_scaled_by(
            v1,
            spec_fit_den(pw, ph, vw, vh),
            v2,
            spec_fit_den(pw, ph, k * vw, k * vh),
            k,
        ),
{
    let n1 = spec_fit_num(pw, ph, vw, vh);
    let d1 = spec_fit_den(pw, ph, vw, vh);
    let n2 = spec_fit_num(pw, ph, k * vw, k * vh);
    let d2 = spec_fit_den(pw, ph, k * vw, k * vh);
    crate::fit::lemma_fit_scales(pw, ph, vw, vh, k);
    assert(n2 * d1 == k * (n1 * d2)) by (nonlinear_arith)
        requires
            n2 * d1 == k * n1 * d2,
    ;
    lemma_blocks_scale(v1, v2, raw, n1, d1, n2, d2, k);
}

} // verus!
