use vstd::prelude::*;

use crate::geometry::{AxisSpec, TrackSpec};

verus! {

/// Whether an integer can be held in an `i64`.
pub open spec fn fits_i64(v: int) -> bool {
    i64::MIN <= v <= i64::MAX
}

/// Half of `v`, rounded toward zero.
pub open spec fn half(v: int) -> int {
    if v >= 0 {
        v / 2
    } else {
        -((-v) / 2)
    }
}

/// The span left for weighted tracks once `min_size` is reserved, never below zero.
pub open spec fn weighted_room(span: int, min_size: int) -> int {
    if span - min_size > 0 {
        span - min_size
    } else {
        0
    }
}

/// The axis weight used as a divisor: at least one.
pub open spec fn weight_divisor(weight: int) -> int {
    if weight > 1 {
        weight
    } else {
        1
    }
}

/// `weight` units of length `room / den`, that is `room * weight / den`,
/// rounded toward zero.
pub open spec fn weighted_len(room: int, weight: int, den: int) -> int {
    if weight >= 0 {
        (room * weight) / den
    } else {
        -((room * (-weight)) / den)
    }
}

/// The raw length of a track: its fixed size when positive, else its weighted share.
pub open spec fn track_len(t: TrackSpec, room: int, den: int) -> int {
    if t.fixed_size > 0 {
        t.fixed_size as int
    } else {
        weighted_len(room, t.weight as int, den)
    }
}

/// The sum of the raw lengths of the first `i` tracks.
pub open spec fn track_offset(tracks: Seq<TrackSpec>, i: int, room: int, den: int) -> int
    decreases i,
{
    if i <= 0 {
        0
    } else {
        track_offset(tracks, i - 1, room, den) + track_len(tracks[i - 1], room, den)
    }
}

/// The room of an axis laid over `size` less the outer paddings `lead` and `trail`.
pub open spec fn axis_room(axis: AxisSpec, size: int, lead: int, trail: int) -> int {
    weighted_room(size - lead - trail, axis.min_size as int)
}

/// The raw length of track `i` of an axis.
pub open spec fn axis_track_len(axis: AxisSpec, size: int, lead: int, trail: int, i: int) -> int {
    track_len(axis.tracks@[i], axis_room(axis, size, lead, trail), weight_divisor(axis.weight as int))
}

/// Where the cell of track `i` starts: past the outer lead padding, half the
/// cell lead padding, and all the earlier tracks.
pub open spec fn cell_start(
    axis: AxisSpec,
    size: int,
    lead: int,
    trail: int,
    cell_lead: int,
    i: int,
) -> int {
    lead + half(cell_lead) + track_offset(
        axis.tracks@,
        i,
        axis_room(axis, size, lead, trail),
        weight_divisor(axis.weight as int),
    )
}

/// The extent of the cell of track `i`: the raw track length less half of
/// each cell padding.
pub open spec fn cell_extent(
    axis: AxisSpec,
    size: int,
    lead: int,
    trail: int,
    cell_lead: int,
    cell_trail: int,
    i: int,
) -> int {
    axis_track_len(axis, size, lead, trail, i) - (half(cell_lead) + half(cell_trail))
}

/// Whether the raw length, cell start and cell extent of every track fit in an `i64`.
pub open spec fn axis_fits(
    axis: AxisSpec,
    size: int,
    lead: int,
    trail: int,
    cell_lead: int,
    cell_trail: int,
) -> bool {
    forall|i: int|
        0 <= i < axis.tracks@.len() ==> {
            &&& fits_i64(#[trigger] axis_track_len(axis, size, lead, trail, i))
            &&& fits_i64(cell_start(axis, size, lead, trail, cell_lead, i))
            &&& fits_i64(cell_extent(axis, size, lead, trail, cell_lead, cell_trail, i))
        }
}

/// Where a cell starts on one axis and how long it is.
#[derive(Clone, Copy, Debug, PartialEq, Eq, Structural)]
pub struct CellSpan {
    pub start: i64,
    pub extent: i64,
}

/// The cell spans of every track of an axis, in order.
pub open spec fn axis_spans_are(
    spans: Seq<CellSpan>,
    axis: AxisSpec,
    size: int,
    lead: int,
    trail: int,
    cell_lead: int,
    cell_trail: int,
) -> bool {
    &&& spans.len() == axis.tracks@.len()
    &&& forall|i: int|
        0 <= i < spans.len() ==> {
            &&& spans[i].start == cell_start(axis, size, lead, trail, cell_lead, i)
            &&& spans[i].extent == cell_extent(axis, size, lead, trail, cell_lead, cell_trail, i)
        }
}

proof fn lemma_quotient_too_large(p: int, d: int)
    requires
        p > u128::MAX,
        1 <= d <= i64::MAX,
    ensures
        p / d > i64::MAX + 1,
{
    assert(p / d > i64::MAX + 1) by (nonlinear_arith)
        requires
            p > u128::MAX,
            1 <= d <= i64::MAX,
    {
        let q = p / d;
        let r = p % d;
        assert(p == q * d + r && 0 <= r < d) by {
            vstd::arithmetic::div_mod::lemma_fundamental_div_mod(p, d);
        }
    }
}

/// Half of `v`, rounded toward zero.
fn half_of(v: i64) -> (r: i128)
    ensures
        r == half(v as int),
{
    if v >= 0 {
        (v as i128) / 2
    } else {
        let m: i128 = -(v as i128);
        -(m / 2)
    }
}

/// `room * weight / den` rounded toward zero, when that fits in an `i64`.
fn weighted_length(room: u128, weight: i64, den: u128) -> (r: Option<i64>)
    requires
        1 <= den <= i64::MAX,
    ensures
        r is Some <==> fits_i64(weighted_len(room as int, weight as int, den as int)),
        r is Some ==> r->0 == weighted_len(room as int, weight as int, den as int),
{
    let mag: u128 = if weight >= 0 {
        weight as u128
    } else {
        (-(weight as i128)) as u128
    };
    assert(mag as int == if weight >= 0 { weight as int } else { -weight });
    match room.checked_mul(mag) {
        None => {
            proof {
                lemma_quotient_too_large(room * mag, den as int);
            }
            None
        },
        Some(p) => {
            let q: u128 = p / den;
            if weight >= 0 {
                if q <= i64::MAX as u128 {
                    Some(q as i64)
                } else {
                    None
                }
            } else {
                if q <= 0x8000_0000_0000_0000u128 {
                    Some((-(q as i128)) as i64)
                } else {
                    None
                }
            }
        },
    }
}

/// Resolves one axis of a grid laid over `size`, with outer paddings `lead`
/// and `trail` and cell paddings `cell_lead` and `cell_trail`: for each track
/// in order, where its cell starts and how long it is. Tracks are placed one
/// after another by their raw lengths, so cell padding shrinks each cell
/// without moving the tracks that follow. `None` exactly when some track's
/// raw length, cell start or cell extent does not fit in an `i64`.
pub fn resolve_axis(
    axis: &AxisSpec,
    size: i64,
    lead: i64,
    trail: i64,
    cell_lead: i64,
    cell_trail: i64,
) -> (r: Option<Vec<CellSpan>>)
    ensures
        r is Some <==> axis_fits(
            *axis,
            size as int,
            lead as int,
            trail as int,
            cell_lead as int,
            cell_trail as int,
        ),
        r is Some ==> axis_spans_are(
            r->0@,
            *axis,
            size as int,
            lead as int,
            trail as int,
            cell_lead as int,
            cell_trail as int,
        ),
{
    let span: i128 = size as i128 - lead as i128 - trail as i128;
    let room: i128 = if span - axis.min_size as i128 > 0 {
        span - axis.min_size as i128
    } else {
        0
    };
    let den: i128 = if axis.weight > 1 {
        axis.weight as i128
    } else {
        1
    };
    let pad_lead: i128 = half_of(cell_lead);
    let pad_total: i128 = pad_lead + half_of(cell_trail);
    let origin: i128 = lead as i128 + pad_lead;
    let ghost sroom = axis_room(*axis, size as int, lead as int, trail as int);
    let ghost sden = weight_divisor(axis.weight as int);
    assert(room == sroom && den == sden);

    let mut spans: Vec<CellSpan> = Vec::new();
    let mut offset: i128 = 0;
    let n: usize = axis.tracks.len();
    let mut i: usize = 0;
    while i < n
        invariant
            n == axis.tracks@.len(),
            0 <= i <= n,
            room == sroom,
            den == sden,
            sroom == axis_room(*axis, size as int, lead as int, trail as int),
            sden == weight_divisor(axis.weight as int),
            0 <= room <= 0x4_0000_0000_0000_0000i128,
            1 <= den <= i64::MAX,
            pad_lead == half(cell_lead as int),
            pad_total == half(cell_lead as int) + half(cell_trail as int),
            origin == lead + half(cell_lead as int),
            offset == track_offset(axis.tracks@, i as int, sroom, sden),
            -0x4_0000_0000_0000_0000i128 <= offset <= 0x4_0000_0000_0000_0000i128,
            spans@.len() == i,
            forall|j: int|
                0 <= j < i ==> {
                    &&& fits_i64(#[trigger] axis_track_len(*axis, size as int, lead as int, trail as int, j))
                    &&& fits_i64(cell_start(*axis, size as int, lead as int, trail as int, cell_lead as int, j))
                    &&& fits_i64(cell_extent(*axis, size as int, lead as int, trail as int, cell_lead as int, cell_trail as int, j))
                    &&& spans@[j].start == cell_start(*axis, size as int, lead as int, trail as int, cell_lead as int, j)
                    &&& spans@[j].extent == cell_extent(*axis, size as int, lead as int, trail as int, cell_lead as int, cell_trail as int, j)
                },
        decreases n - i,
    {
        let t: TrackSpec = axis.tracks[i];
        let len: i64 = if t.fixed_size > 0 {
            t.fixed_size
        } else {
            match weighted_length(room as u128, t.weight, den as u128) {
                Some(v) => v,
                None => {
                    assert(!fits_i64(axis_track_len(*axis, size as int, lead as int, trail as int, i as int)));
                    return None;
                },
            }
        };
        assert(len == axis_track_len(*axis, size as int, lead as int, trail as int, i as int));
        let start: i128 = origin + offset;
        assert(start == cell_start(*axis, size as int, lead as int, trail as int, cell_lead as int, i as int));
        if start < i64::MIN as i128 || start > i64::MAX as i128 {
            assert(!fits_i64(cell_start(*axis, size as int, lead as int, trail as int, cell_lead as int, i as int)));
            return None;
        }
        let extent: i128 = len as i128 - pad_total;
        assert(extent == cell_extent(*axis, size as int, lead as int, trail as int, cell_lead as int, cell_trail as int, i as int));
        if extent < i64::MIN as i128 || extent > i64::MAX as i128 {
            return None;
        }
        let ghost before = spans@;
        spans.push(CellSpan { start: start as i64, extent: extent as i64 });
        assert(spans@ == before.push(CellSpan { start: start as i64, extent: extent as i64 }));
        assert(forall|j: int| 0 <= j < i ==> spans@[j] == before[j]);
        assert(fits_i64(axis_track_len(*axis, size as int, lead as int, trail as int, i as int)));
        assert(fits_i64(cell_start(*axis, size as int, lead as int, trail as int, cell_lead as int, i as int)));
        assert(fits_i64(cell_extent(*axis, size as int, lead as int, trail as int, cell_lead as int, cell_trail as int, i as int)));
        assert(spans@[i as int].start == cell_start(*axis, size as int, lead as int, trail as int, cell_lead as int, i as int));
        assert(spans@[i as int].extent == cell_extent(*axis, size as int, lead as int, trail as int, cell_lead as int, cell_trail as int, i as int));
        offset = offset + len as i128;
        i = i + 1;
    }
    assert(axis_fits(*axis, size as int, lead as int, trail as int, cell_lead as int, cell_trail as int));
    assert forall|j: int| 0 <= j < spans@.len() implies {
        &&& spans@[j].start == cell_start(*axis, size as int, lead as int, trail as int, cell_lead as int, j)
        &&& spans@[j].extent == cell_extent(*axis, size as int, lead as int, trail as int, cell_lead as int, cell_trail as int, j)
    } by {
        assert(fits_i64(axis_track_len(*axis, size as int, lead as int, trail as int, j)));
    }
    assert(axis_spans_are(spans@, *axis, size as int, lead as int, trail as int, cell_lead as int, cell_trail as int));
    Some(spans)
}

} // verus!
