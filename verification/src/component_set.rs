//! Accumulates one named sample's coordinates, runs and pending segment
//! declarations, and finalizes them into an immutable [`ComponentSet`].
//!
//! Segment resolution is deferred to finalization because later statements
//! may still extend the runs a component list refers to.

use vstd::prelude::*;

use crate::error::{UniPenError, ValidationKind};
use crate::lex::{copy_chars, copy_vec};
use crate::model::{
    BoundingBox, BoundingBoxView, Component, ComponentSet, ComponentSetView, Coordinate,
    IndexRange, Quality, Segment, SegmentView,
};
use crate::statements::{ComponentItem, ComponentList, ComponentPoint, Point};

verus! {

/// A segment statement waiting for resolution at finalization.
pub struct PendingSegment {
    pub hierarchy: Vec<char>,
    pub items: Vec<ComponentItem>,
    pub quality: Option<Quality>,
    pub label: Option<Vec<char>>,
}

/// The mathematical value of a pending segment.
pub struct PendingSegmentView {
    pub hierarchy: Seq<char>,
    pub items: Seq<ComponentItem>,
    pub quality: Option<Quality>,
    pub label: Option<Seq<char>>,
}

impl View for PendingSegment {
    type V = PendingSegmentView;

    open spec fn view(&self) -> PendingSegmentView {
        PendingSegmentView {
            hierarchy: self.hierarchy@,
            items: self.items@,
            quality: self.quality,
            label: match self.label {
                Some(l) => Some(l@),
                None => None,
            },
        }
    }
}

/// Builds one sample set from pen statements and segment declarations.
pub struct ComponentSetBuilder {
    name: Vec<char>,
    coordinates: Vec<Coordinate>,
    components: Vec<Component>,
    pending: Vec<PendingSegment>,
}

/// The mathematical value of a sample-set builder.
pub struct ComponentSetBuilderView {
    pub name: Seq<char>,
    pub coordinates: Seq<Coordinate>,
    pub components: Seq<Component>,
    pub pending: Seq<PendingSegmentView>,
}

impl View for ComponentSetBuilder {
    type V = ComponentSetBuilderView;

    closed spec fn view(&self) -> ComponentSetBuilderView {
        ComponentSetBuilderView {
            name: self.name@,
            coordinates: self.coordinates@,
            components: self.components@,
            pending: self.pending@.map_values(|p: PendingSegment| p@),
        }
    }
}

/// Every run's span lies inside the coordinate sequence and never runs
/// backward. Builders keep this; finalization relies on it.
pub open spec fn components_wf(components: Seq<Component>, n_coords: int) -> bool {
    forall|k: int| 0 <= k < components.len() ==> match #[trigger] components[k] {
        Component::PenDown(r) => r.start <= r.end < n_coords,
        Component::PenUp(r) => r.start <= r.end < n_coords,
        Component::Dt(_) => true,
    }
}

impl ComponentSetBuilderView {
    /// Well-formedness of a builder: runs stay inside the coordinates.
    pub open spec fn wf(self) -> bool {
        components_wf(self.components, self.coordinates.len() as int)
    }

    /// The view of a fresh, empty builder.
    pub open spec fn spec_empty() -> ComponentSetBuilderView {
        ComponentSetBuilderView {
            name: Seq::empty(),
            coordinates: Seq::empty(),
            components: Seq::empty(),
            pending: Seq::empty(),
        }
    }

    /// How a pen statement extends a builder: the samples are appended and,
    /// when there is at least one, they form one new run. A pen statement
    /// without samples appends no run.
    pub open spec fn spec_pen(self, new: Seq<Coordinate>, down: bool) -> ComponentSetBuilderView {
        if new.len() == 0 {
            self
        } else {
            let r = IndexRange {
                start: self.coordinates.len() as usize,
                end: (self.coordinates.len() + new.len() - 1) as usize,
            };
            ComponentSetBuilderView {
                coordinates: self.coordinates + new,
                components: self.components.push(
                    if down {
                        Component::PenDown(r)
                    } else {
                        Component::PenUp(r)
                    },
                ),
                ..self
            }
        }
    }
}

impl Default for ComponentSetBuilder {
    /// A fresh builder: unnamed, with no samples, runs or pending segments.
    fn default() -> (r: ComponentSetBuilder)
        ensures
            r@ == ComponentSetBuilderView::spec_empty(),
            r@.wf(),
    {
        let r = ComponentSetBuilder {
            name: Vec::new(),
            coordinates: Vec::new(),
            components: Vec::new(),
            pending: Vec::new(),
        };
        proof {
            assert(r@.pending =~= Seq::<PendingSegmentView>::empty());
        }
        r
    }
}

impl ComponentSetBuilder {
    /// Whether no coordinates have been collected yet.
    pub fn is_empty(&self) -> (r: bool)
        ensures
            r == (self@.coordinates.len() == 0),
    {
        self.coordinates.len() == 0
    }

    /// The number of coordinates collected so far.
    pub fn coordinate_count(&self) -> (r: usize)
        ensures
            r == self@.coordinates.len(),
    {
        self.coordinates.len()
    }

    /// Renames the sample set.
    pub fn name(self, name: Vec<char>) -> (r: ComponentSetBuilder)
        ensures
            r@ == (ComponentSetBuilderView { name: name@, ..self@ }),
    {
        ComponentSetBuilder { name, ..self }
    }

    fn add_coordinates(self, new_coordinates: Vec<Coordinate>, down: bool) -> (r:
        ComponentSetBuilder)
        requires
            self@.coordinates.len() + new_coordinates@.len() <= usize::MAX,
        ensures
            r@ == self@.spec_pen(new_coordinates@, down),
    {
        if new_coordinates.len() == 0 {
            return self;
        }
        let ghost old_view = self@;
        let mut this = self;
        let start = this.coordinates.len();
        let mut new_coordinates = new_coordinates;
        let count = new_coordinates.len();
        this.coordinates.append(&mut new_coordinates);
        let r = IndexRange { start, end: start + count - 1 };
        this.components.push(
            if down {
                Component::PenDown(r)
            } else {
                Component::PenUp(r)
            },
        );
        proof {
            assert(this@.pending =~= old_view.pending);
        }
        this
    }

    /// Appends a pen-down run of samples.
    pub fn pen_down(self, new_coordinates: Vec<Coordinate>) -> (r: ComponentSetBuilder)
        requires
            self@.coordinates.len() + new_coordinates@.len() <= usize::MAX,
        ensures
            r@ == self@.spec_pen(new_coordinates@, true),
    {
        self.add_coordinates(new_coordinates, true)
    }

    /// Appends a pen-up run of samples.
    pub fn pen_up(self, new_coordinates: Vec<Coordinate>) -> (r: ComponentSetBuilder)
        requires
            self@.coordinates.len() + new_coordinates@.len() <= usize::MAX,
        ensures
            r@ == self@.spec_pen(new_coordinates@, false),
    {
        self.add_coordinates(new_coordinates, false)
    }

    /// Appends a timing gap of the given duration, in millionths of a
    /// second, without adding coordinates.
    pub fn dt(self, dt: i64) -> (r: ComponentSetBuilder)
        ensures
            r@ == (ComponentSetBuilderView {
                components: self@.components.push(Component::Dt(dt)),
                ..self@
            }),
    {
        let ghost old_view = self@;
        let mut this = self;
        this.components.push(Component::Dt(dt));
        proof {
            assert(this@.pending =~= old_view.pending);
        }
        this
    }

    /// Records a segment declaration for resolution at finalization.
    pub fn segment(
        self,
        hierarchy: Vec<char>,
        component_list: ComponentList,
        quality: Option<Quality>,
        label: Option<Vec<char>>,
    ) -> (r: ComponentSetBuilder)
        ensures
            r@ == (ComponentSetBuilderView {
                pending: self@.pending.push(PendingSegmentView {
                    hierarchy: hierarchy@,
                    items: component_list@,
                    quality: quality,
                    label: match label {
                        Some(l) => Some(l@),
                        None => None,
                    },
                }),
                ..self@
            }),
    {
        let ghost old_view = self@;
        let mut this = self;
        let p = PendingSegment { hierarchy, items: component_list.0, quality, label };
        let ghost pv = p@;
        this.pending.push(p);
        proof {
            assert(this@.pending =~= old_view.pending.push(pv));
        }
        this
    }

    /// Resolves the pending segments, computes their bounding boxes, and
    /// freezes the set. The first resolution error aborts the build.
    #[verifier::loop_isolation(false)]
    pub fn build(&self) -> (r: Result<ComponentSet, UniPenError>)
        requires
            self@.wf(),
        ensures
            match r {
                Ok(c) => spec_build(self@) == Ok::<ComponentSetView, UniPenError>(c@),
                Err(e) => spec_build(self@) == Err::<ComponentSetView, UniPenError>(e),
            },
    {
        let ghost v = self@;
        let coordinates = &self.coordinates;
        let components = &self.components;
        let pending = &self.pending;
        proof {
            assert(v.name == self.name@);
            assert(v.coordinates == coordinates@);
            assert(v.components == components@);
            assert(v.pending == pending@.map_values(|p: PendingSegment| p@));
        }
        let mut segments: Vec<Segment> = Vec::new();
        let mut boxes: Vec<BoundingBox> = Vec::new();
        let n = pending.len();
        let mut i: usize = 0;
        proof {
            assert(v.pending.skip(0) =~= v.pending);
            assert(segments@.map_values(|s: Segment| s@) =~= Seq::<SegmentView>::empty());
            assert(boxes@.map_values(|b: BoundingBox| b@) =~= Seq::<BoundingBoxView>::empty());
            if let Ok(rest) = resolve_list(v.coordinates, v.components, v.pending) {
                assert(segments@.map_values(|s: Segment| s@).zip_with(
                    boxes@.map_values(|b: BoundingBox| b@),
                ) + rest =~= rest);
            }
        }
        while i < n
            invariant
                i <= n,
                n == pending@.len(),
                v.coordinates == coordinates@,
                v.components == components@,
                v.pending == pending@.map_values(|p: PendingSegment| p@),
                components_wf(components@, coordinates@.len() as int),
                match resolve_list(v.coordinates, v.components, v.pending.skip(i as int)) {
                    Ok(rest) => resolve_list(v.coordinates, v.components, v.pending)
                        == Ok::<Seq<(SegmentView, BoundingBoxView)>, UniPenError>(
                        segments@.map_values(|s: Segment| s@).zip_with(
                            boxes@.map_values(|b: BoundingBox| b@),
                        ) + rest,
                    ),
                    Err(e) => resolve_list(v.coordinates, v.components, v.pending)
                        == Err::<Seq<(SegmentView, BoundingBoxView)>, UniPenError>(e),
                },
                segments@.len() == boxes@.len(),
            decreases n - i,
        {
            let p = &pending[i];
            proof {
                assert(v.pending.skip(i as int).first() == p@);
                assert(v.pending.skip(i as int).drop_first() =~= v.pending.skip(i as int + 1));
            }
            match resolve_pending(coordinates, components, p) {
                Ok((s, b)) => {
                    let ghost seg_views = segments@.map_values(|s: Segment| s@);
                    let ghost box_views = boxes@.map_values(|b: BoundingBox| b@);
                    let ghost sv = s@;
                    let ghost bv = b@;
                    segments.push(s);
                    boxes.push(b);
                    proof {
                        assert(segments@.map_values(|s: Segment| s@)
                            =~= seg_views.push(sv));
                        assert(boxes@.map_values(|b: BoundingBox| b@)
                            =~= box_views.push(bv));
                        assert(segments@.map_values(|s: Segment| s@).zip_with(
                            boxes@.map_values(|b: BoundingBox| b@),
                        ) =~= seg_views.zip_with(box_views).push((sv, bv)));
                        if let Ok(rest2) = resolve_list(
                            v.coordinates,
                            v.components,
                            v.pending.skip(i as int + 1),
                        ) {
                            assert(seg_views.zip_with(box_views).push((sv, bv)) + rest2
                                =~= seg_views.zip_with(box_views) + (seq![(sv, bv)] + rest2));
                        }
                    }
                    i += 1;
                }
                Err(e) => {
                    proof {
                        assert(resolve_list(v.coordinates, v.components, v.pending.skip(i as int))
                            == Err::<Seq<(SegmentView, BoundingBoxView)>, UniPenError>(e));
                    }
                    return Err(e);
                }
            }
        }
        proof {
            assert(v.pending.skip(n as int) =~= Seq::<PendingSegmentView>::empty());
            if let Ok(all) = resolve_list(v.coordinates, v.components, v.pending) {
                assert(segments@.map_values(|s: Segment| s@).zip_with(
                    boxes@.map_values(|b: BoundingBox| b@),
                ) + Seq::<(SegmentView, BoundingBoxView)>::empty()
                    =~= segments@.map_values(|s: Segment| s@).zip_with(
                    boxes@.map_values(|b: BoundingBox| b@),
                ));
            }
        }
        let set = ComponentSet {
            name: copy_chars(&self.name),
            coordinates: copy_vec(&self.coordinates),
            components: copy_vec(&self.components),
            segments,
            bounding_boxes: boxes,
        };
        proof {
            let pairs = resolve_list(v.coordinates, v.components, v.pending).unwrap();
            assert(set@.segments =~= pairs.map_values(|p: (SegmentView, BoundingBoxView)| p.0));
            assert(set@.bounding_boxes =~= pairs.map_values(
                |p: (SegmentView, BoundingBoxView)| p.1,
            ));
        }
        Ok(set)
    }
}

/// The exact result of finalization: the resolved segments and boxes, or
/// the first error among them.
pub open spec fn spec_build(v: ComponentSetBuilderView) -> Result<ComponentSetView, UniPenError> {
    match resolve_list(v.coordinates, v.components, v.pending) {
        Ok(pairs) => Ok(ComponentSetView {
            name: v.name,
            coordinates: v.coordinates,
            components: v.components,
            segments: pairs.map_values(|p: (SegmentView, BoundingBoxView)| p.0),
            bounding_boxes: pairs.map_values(|p: (SegmentView, BoundingBoxView)| p.1),
        }),
        Err(e) => Err(e),
    }
}

/// Resolves the pending segments in order; the first error wins.
pub open spec fn resolve_list(
    coords: Seq<Coordinate>,
    comps: Seq<Component>,
    pending: Seq<PendingSegmentView>,
) -> Result<Seq<(SegmentView, BoundingBoxView)>, UniPenError>
    decreases pending.len(),
{
    if pending.len() == 0 {
        Ok(Seq::empty())
    } else {
        match spec_resolve_pending(coords, comps, pending.first()) {
            Ok(pair) => match resolve_list(coords, comps, pending.drop_first()) {
                Ok(rest) => Ok(seq![pair] + rest),
                Err(e) => Err(e),
            },
            Err(e) => Err(e),
        }
    }
}

/// Resolves one pending segment into coordinate spans and its bounding box.
pub open spec fn spec_resolve_pending(
    coords: Seq<Coordinate>,
    comps: Seq<Component>,
    p: PendingSegmentView,
) -> Result<(SegmentView, BoundingBoxView), UniPenError> {
    if p.items.len() == 0 {
        Err(UniPenError::Validation(ValidationKind::EmptySegmentList))
    } else {
        match resolve_items(comps, p.items) {
            Ok(ranges) => Ok(
                (
                    SegmentView {
                        hierarchy: p.hierarchy,
                        coordinates: ranges,
                        quality: p.quality,
                        label: p.label,
                    },
                    BoundingBoxView {
                        x_min: spec_extreme(coords, ranges, true, true),
                        y_min: spec_extreme(coords, ranges, false, true),
                        x_max: spec_extreme(coords, ranges, true, false),
                        y_max: spec_extreme(coords, ranges, false, false),
                        coordinates: ranges,
                    },
                ),
            ),
            Err(e) => Err(e),
        }
    }
}

/// Resolves each component-list item to a coordinate span, in order.
pub open spec fn resolve_items(comps: Seq<Component>, items: Seq<ComponentItem>) -> Result<
    Seq<IndexRange>,
    UniPenError,
>
    decreases items.len(),
{
    if items.len() == 0 {
        Ok(Seq::empty())
    } else {
        match resolve_item(comps, items.first()) {
            Ok(r) => match resolve_items(comps, items.drop_first()) {
                Ok(rest) => Ok(seq![r] + rest),
                Err(e) => Err(e),
            },
            Err(e) => Err(e),
        }
    }
}

/// The coordinate span a run occupies; a timing gap has none, and a
/// missing run is a validation error.
pub open spec fn run_span(comps: Seq<Component>, c: int) -> Result<IndexRange, UniPenError> {
    if !(0 <= c < comps.len()) {
        Err(UniPenError::Validation(ValidationKind::NoSuchComponent))
    } else {
        match comps[c] {
            Component::PenDown(r) => Ok(r),
            Component::PenUp(r) => Ok(r),
            Component::Dt(_) => Err(UniPenError::Validation(ValidationKind::ComponentWithoutSamples)),
        }
    }
}

/// The coordinate span one component point names: the whole run, or the
/// single sample at the given offset within it.
pub open spec fn resolve_point(comps: Seq<Component>, p: ComponentPoint) -> Result<
    IndexRange,
    UniPenError,
> {
    match run_span(comps, p.component as int) {
        Ok(r) => match p.point {
            Point::All => Ok(r),
            Point::Index(n) => {
                if r.start + n <= r.end {
                    Ok(IndexRange { start: (r.start + n) as usize, end: (r.start + n) as usize })
                } else {
                    Err(UniPenError::Validation(ValidationKind::PointOutOfRange))
                }
            },
        },
        Err(e) => Err(e),
    }
}

/// The coordinate span one component-list item names. A range runs from
/// its start point's first index to its end point's last index, inclusive;
/// a backward range is a validation error.
pub open spec fn resolve_item(comps: Seq<Component>, item: ComponentItem) -> Result<
    IndexRange,
    UniPenError,
> {
    match item {
        ComponentItem::Single(p) => resolve_point(comps, p),
        ComponentItem::Range(cr) => match resolve_point(comps, cr.start) {
            Ok(rs) => match resolve_point(comps, cr.end) {
                Ok(re) => {
                    if rs.start <= re.end {
                        Ok(IndexRange { start: rs.start, end: re.end })
                    } else {
                        Err(UniPenError::Validation(ValidationKind::InvertedRange))
                    }
                },
                Err(e) => Err(e),
            },
            Err(e) => Err(e),
        },
    }
}

/// The least (or greatest, for `min == false`) x or y position over the
/// samples of `ranges.take(k+1)`, the last range only up to offset `j`.
/// Stated recursively, most significant range last.
pub open spec fn spec_extreme(
    coords: Seq<Coordinate>,
    ranges: Seq<IndexRange>,
    x_axis: bool,
    min: bool,
) -> i64
    decreases ranges.len(),
{
    if ranges.len() == 0 {
        if min {
            i64::MAX
        } else {
            i64::MIN
        }
    } else {
        let rest = spec_extreme(coords, ranges.drop_last(), x_axis, min);
        let here = run_extreme(coords, ranges.last(), ranges.last().end as int, x_axis, min);
        if min {
            if here < rest {
                here
            } else {
                rest
            }
        } else {
            if here > rest {
                here
            } else {
                rest
            }
        }
    }
}

/// The least (or greatest) x or y position over `r.start ..= hi`.
pub open spec fn run_extreme(
    coords: Seq<Coordinate>,
    r: IndexRange,
    hi: int,
    x_axis: bool,
    min: bool,
) -> i64
    decreases hi - r.start,
{
    let v = if x_axis {
        coords[hi].x_position
    } else {
        coords[hi].y_position
    };
    if hi <= r.start {
        v
    } else {
        let rest = run_extreme(coords, r, hi - 1, x_axis, min);
        if min {
            if v < rest {
                v
            } else {
                rest
            }
        } else {
            if v > rest {
                v
            } else {
                rest
            }
        }
    }
}

/// Resolves one pending segment and computes its bounding box.
fn resolve_pending(
    coords: &Vec<Coordinate>,
    comps: &Vec<Component>,
    p: &PendingSegment,
) -> (r: Result<(Segment, BoundingBox), UniPenError>)
    requires
        components_wf(comps@, coords@.len() as int),
    ensures
        match r {
            Ok(pair) => spec_resolve_pending(coords@, comps@, p@) == Ok::<
                (SegmentView, BoundingBoxView),
                UniPenError,
            >((pair.0@, pair.1@)),
            Err(e) => spec_resolve_pending(coords@, comps@, p@) == Err::<
                (SegmentView, BoundingBoxView),
                UniPenError,
            >(e),
        },
{
    if p.items.len() == 0 {
        return Err(UniPenError::Validation(ValidationKind::EmptySegmentList));
    }
    proof {
        assert forall|k: int| 0 <= k < comps@.len() implies match #[trigger] comps@[k] {
            Component::PenDown(r) => r.start <= r.end < usize::MAX as int + 1,
            Component::PenUp(r) => r.start <= r.end < usize::MAX as int + 1,
            Component::Dt(_) => true,
        } by {
            assert(components_wf(comps@, coords@.len() as int));
        }
    }
    let ranges = match resolve_items_exec(comps, &p.items) {
        Ok(r) => r,
        Err(e) => {
            return Err(e);
        }
    };
    proof {
        lemma_resolve_items_wf(comps@, p@.items, coords@.len() as int);
    }
    let (x_min, y_min, x_max, y_max) = extremes(coords, &ranges);
    let seg = Segment {
        hierarchy: copy_chars(&p.hierarchy),
        coordinates: copy_ranges(&ranges),
        quality: p.quality,
        label: match &p.label {
            Some(l) => Some(copy_chars(l)),
            None => None,
        },
    };
    let bbox = BoundingBox { x_min, y_min, x_max, y_max, coordinates: ranges };
    Ok((seg, bbox))
}


/// A fresh vector with the same spans.
fn copy_ranges(v: &Vec<IndexRange>) -> (r: Vec<IndexRange>)
    ensures
        r@ == v@,
{
    let mut r: Vec<IndexRange> = Vec::new();
    let mut i: usize = 0;
    while i < v.len()
        invariant
            i <= v@.len(),
            r@ == v@.take(i as int),
        decreases v@.len() - i,
    {
        r.push(v[i]);
        proof {
            assert(r@ =~= v@.take(i as int + 1));
        }
        i += 1;
    }
    proof {
        assert(v@.take(v@.len() as int) =~= v@);
    }
    r
}

/// Spans a resolved item list covers, each inside the coordinates.
pub open spec fn ranges_wf(ranges: Seq<IndexRange>, n_coords: int) -> bool {
    forall|k: int| 0 <= k < ranges.len()
        ==> (#[trigger] ranges[k]).start <= ranges[k].end < n_coords
}

/// Every span a well-formed component sequence yields stays in bounds.
proof fn lemma_resolve_items_wf(
    comps: Seq<Component>,
    items: Seq<ComponentItem>,
    n_coords: int,
)
    requires
        components_wf(comps, n_coords),
    ensures
        match resolve_items(comps, items) {
            Ok(ranges) => ranges_wf(ranges, n_coords),
            Err(_) => true,
        },
    decreases items.len(),
{
    if items.len() > 0 {
        lemma_resolve_items_wf(comps, items.drop_first(), n_coords);
    }
}

/// Resolves each component-list item, walking the list left to right.
fn resolve_items_exec(comps: &Vec<Component>, items: &Vec<ComponentItem>) -> (r: Result<
    Vec<IndexRange>,
    UniPenError,
>)
    requires
        components_wf(comps@, usize::MAX as int + 1),
    ensures
        match r {
            Ok(v) => resolve_items(comps@, items@) == Ok::<Seq<IndexRange>, UniPenError>(v@),
            Err(e) => resolve_items(comps@, items@) == Err::<Seq<IndexRange>, UniPenError>(e),
        },
{
    let mut out: Vec<IndexRange> = Vec::new();
    let n = items.len();
    let mut i: usize = 0;
    proof {
        assert(items@.skip(0) =~= items@);
        if let Ok(rest) = resolve_items(comps@, items@) {
            assert(out@ + rest =~= rest);
        }
    }
    while i < n
        invariant
            i <= n,
            n == items@.len(),
            components_wf(comps@, usize::MAX as int + 1),
            match resolve_items(comps@, items@.skip(i as int)) {
                Ok(rest) => resolve_items(comps@, items@) == Ok::<Seq<IndexRange>, UniPenError>(
                    out@ + rest,
                ),
                Err(e) => resolve_items(comps@, items@) == Err::<Seq<IndexRange>, UniPenError>(e),
            },
        decreases n - i,
    {
        proof {
            assert(items@.skip(i as int).first() == items@[i as int]);
            assert(items@.skip(i as int).drop_first() =~= items@.skip(i as int + 1));
        }
        match resolve_item_exec(comps, &items[i]) {
            Ok(r) => {
                let ghost old_out = out@;
                out.push(r);
                proof {
                    if let Ok(rest2) = resolve_items(comps@, items@.skip(i as int + 1)) {
                        assert(old_out.push(r) + rest2 =~= old_out + (seq![r] + rest2));
                    }
                }
                i += 1;
            }
            Err(e) => {
                return Err(e);
            }
        }
    }
    proof {
        assert(items@.skip(n as int) =~= Seq::<ComponentItem>::empty());
        assert(out@ + Seq::<IndexRange>::empty() =~= out@);
    }
    Ok(out)
}

/// Resolves one component point.
fn resolve_point_exec(comps: &Vec<Component>, p: &ComponentPoint) -> (r: Result<
    IndexRange,
    UniPenError,
>)
    requires
        components_wf(comps@, usize::MAX as int + 1),
    ensures
        r == resolve_point(comps@, *p),
{
    if p.component >= comps.len() {
        return Err(UniPenError::Validation(ValidationKind::NoSuchComponent));
    }
    let span = match &comps[p.component] {
        Component::PenDown(r) => *r,
        Component::PenUp(r) => *r,
        Component::Dt(_) => {
            return Err(UniPenError::Validation(ValidationKind::ComponentWithoutSamples));
        }
    };
    match p.point {
        Point::All => Ok(span),
        Point::Index(n) => {
            if n <= span.end - span.start {
                Ok(IndexRange { start: span.start + n, end: span.start + n })
            } else {
                Err(UniPenError::Validation(ValidationKind::PointOutOfRange))
            }
        }
    }
}

/// Resolves one component-list item.
fn resolve_item_exec(comps: &Vec<Component>, item: &ComponentItem) -> (r: Result<
    IndexRange,
    UniPenError,
>)
    requires
        components_wf(comps@, usize::MAX as int + 1),
    ensures
        r == resolve_item(comps@, *item),
{
    match item {
        ComponentItem::Single(p) => resolve_point_exec(comps, p),
        ComponentItem::Range(cr) => {
            let rs = match resolve_point_exec(comps, &cr.start) {
                Ok(rs) => rs,
                Err(e) => {
                    return Err(e);
                }
            };
            let re = match resolve_point_exec(comps, &cr.end) {
                Ok(re) => re,
                Err(e) => {
                    return Err(e);
                }
            };
            if rs.start <= re.end {
                Ok(IndexRange { start: rs.start, end: re.end })
            } else {
                Err(UniPenError::Validation(ValidationKind::InvertedRange))
            }
        }
    }
}

/// The four extremes of x and y over the given spans.
fn extremes(coords: &Vec<Coordinate>, ranges: &Vec<IndexRange>) -> (r: (i64, i64, i64, i64))
    requires
        ranges_wf(ranges@, coords@.len() as int),
    ensures
        r.0 == spec_extreme(coords@, ranges@, true, true),
        r.1 == spec_extreme(coords@, ranges@, false, true),
        r.2 == spec_extreme(coords@, ranges@, true, false),
        r.3 == spec_extreme(coords@, ranges@, false, false),
{
    let mut x_min: i64 = i64::MAX;
    let mut y_min: i64 = i64::MAX;
    let mut x_max: i64 = i64::MIN;
    let mut y_max: i64 = i64::MIN;
    let n = ranges.len();
    let mut k: usize = 0;
    while k < n
        invariant
            k <= n,
            n == ranges@.len(),
            ranges_wf(ranges@, coords@.len() as int),
            x_min == spec_extreme(coords@, ranges@.take(k as int), true, true),
            y_min == spec_extreme(coords@, ranges@.take(k as int), false, true),
            x_max == spec_extreme(coords@, ranges@.take(k as int), true, false),
            y_max == spec_extreme(coords@, ranges@.take(k as int), false, false),
        decreases n - k,
    {
        let r = ranges[k];
        let mut i: usize = r.start;
        let mut rx_min: i64 = coords[r.start].x_position;
        let mut ry_min: i64 = coords[r.start].y_position;
        let mut rx_max: i64 = coords[r.start].x_position;
        let mut ry_max: i64 = coords[r.start].y_position;
        while i < r.end
            invariant
                r.start <= i <= r.end < coords@.len(),
                r == ranges@[k as int],
                rx_min == run_extreme(coords@, r, i as int, true, true),
                ry_min == run_extreme(coords@, r, i as int, false, true),
                rx_max == run_extreme(coords@, r, i as int, true, false),
                ry_max == run_extreme(coords@, r, i as int, false, false),
            decreases r.end - i,
        {
            i += 1;
            let c = &coords[i];
            if c.x_position < rx_min {
                rx_min = c.x_position;
            }
            if c.y_position < ry_min {
                ry_min = c.y_position;
            }
            if c.x_position > rx_max {
                rx_max = c.x_position;
            }
            if c.y_position > ry_max {
                ry_max = c.y_position;
            }
        }
        proof {
            assert(ranges@.take(k as int + 1).drop_last() =~= ranges@.take(k as int));
            assert(ranges@.take(k as int + 1).last() == ranges@[k as int]);
        }
        if rx_min < x_min {
            x_min = rx_min;
        }
        if ry_min < y_min {
            y_min = ry_min;
        }
        if rx_max > x_max {
            x_max = rx_max;
        }
        if ry_max > y_max {
            y_max = ry_max;
        }
        k += 1;
    }
    proof {
        assert(ranges@.take(n as int) =~= ranges@);
    }
    (x_min, y_min, x_max, y_max)
}

} // verus!
