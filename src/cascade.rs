//! The push cascade: a dragged box pushes every box it overlaps by the same
//! displacement, and each pushed box pushes on in turn. A box is pushed at
//! most once per cascade, so the cascade ends.
use vstd::prelude::*;
use vstd::set_lib::{lemma_int_range, lemma_len_subset, set_int_range};
use crate::geometry::{clamp_i64, world_point, Point, WORLD_LIMIT};
use crate::textbox::DraggableTextBox;

verus! {

/// `p` displaced by `delta`, held within the world limit.
pub open spec fn moved_point(p: Point, delta: Point) -> Point {
    world_point(p.x + delta.x, p.y + delta.y)
}

/// Box `i` as it stands once the cascade from `source` has reached it: the
/// source stays where the drag put it, any other box is displaced by `delta`.
pub open spec fn pushed_box(
    boxes: Seq<DraggableTextBox>,
    source: int,
    delta: Point,
    i: int,
) -> DraggableTextBox {
    if i == source {
        boxes[i]
    } else {
        DraggableTextBox { position: moved_point(boxes[i].position, delta), ..boxes[i] }
    }
}

/// Box `i`, once reached, overlaps box `j` where `j` stands now.
pub open spec fn pushes(
    boxes: Seq<DraggableTextBox>,
    source: int,
    delta: Point,
    i: int,
    j: int,
) -> bool {
    &&& 0 <= i < boxes.len()
    &&& 0 <= j < boxes.len()
    &&& i != j
    &&& pushed_box(boxes, source, delta, i).rect().overlap(boxes[j].rect())
}

/// Every box that a member of `s` pushes is in `s`.
pub open spec fn closed_under_push(
    boxes: Seq<DraggableTextBox>,
    source: int,
    delta: Point,
    s: Set<int>,
) -> bool {
    forall|i: int, j: int|
        #![trigger s.contains(i), pushes(boxes, source, delta, i, j)]
        s.contains(i) && pushes(boxes, source, delta, i, j) ==> s.contains(j)
}

/// `order` lists, each once, the boxes that a cascade from box `source` by
/// `delta` reaches: the least set that holds the source and every box that a
/// member pushes.
pub open spec fn is_cascade(
    boxes: Seq<DraggableTextBox>,
    source: int,
    delta: Point,
    order: Seq<usize>,
) -> bool {
    &&& 0 <= source < boxes.len()
    &&& order.no_duplicates()
    &&& forall|k: int| 0 <= k < order.len() ==> order[k] < boxes.len()
    &&& order.contains(source as usize)
    &&& forall|i: int, j: int|
        #![trigger order.contains(i as usize), pushes(boxes, source, delta, i, j)]
        pushes(boxes, source, delta, i, j) && order.contains(i as usize) ==> order.contains(
            j as usize,
        )
    &&& forall|s: Set<int>|
        #![trigger closed_under_push(boxes, source, delta, s)]
        closed_under_push(boxes, source, delta, s) && s.contains(source) ==> forall|k: int|
            0 <= k < order.len() ==> s.contains(order[k] as int)
}

/// The boxes after the cascade listed in `order`: those reached are pushed,
/// the others stay.
pub open spec fn cascaded(
    boxes: Seq<DraggableTextBox>,
    source: int,
    delta: Point,
    order: Seq<usize>,
) -> Seq<DraggableTextBox> {
    Seq::new(
        boxes.len(),
        |i: int|
            if order.contains(i as usize) {
                pushed_box(boxes, source, delta, i)
            } else {
                boxes[i]
            },
    )
}

/// Runs the cascade from box `source`, which has just been moved by `delta`:
/// each box it reaches, other than the source, is displaced by `delta` once.
/// Returns the boxes reached, in the order they were reached.
pub fn push_overlapping(boxes: &mut Vec<DraggableTextBox>, source: usize, delta: Point) -> (order:
    Vec<usize>)
    requires
        source < old(boxes).len(),
        forall|i: int| 0 <= i < old(boxes).len() ==> (#[trigger] old(boxes)[i]).wf(),
        delta.within(2 * WORLD_LIMIT),
    ensures
        is_cascade(old(boxes)@, source as int, delta, order@),
        final(boxes)@ == cascaded(old(boxes)@, source as int, delta, order@),
        order@.len() <= old(boxes).len(),
{
    let ghost orig = boxes@;
    let n = boxes.len();
    let mut marks: Vec<bool> = Vec::new();
    let mut i: usize = 0;
    while i < n
        invariant
            i <= n,
            marks.len() == i,
            forall|k: int| 0 <= k < i ==> !marks[k],
        decreases n - i,
    {
        marks.push(false);
        i += 1;
    }
    marks.set(source, true);
    let mut order: Vec<usize> = Vec::new();
    order.push(source);
    let ghost mut seen: Set<int> = set![source as int];
    assert(order@ =~= seq![source]);
    assert(order@[0] == source);
    let mut head: usize = 0;
    while head < order.len()
        invariant
            n == boxes.len(),
            orig.len() == n,
            marks.len() == n,
            source < n,
            delta.within(2 * WORLD_LIMIT),
            forall|i: int| 0 <= i < n ==> (#[trigger] orig[i]).wf(),
            head <= order.len() <= n,
            order@.no_duplicates(),
            forall|k: int| 0 <= k < order.len() ==> order[k] < n,
            seen.finite(),
            seen.len() == order.len(),
            forall|i: int| seen.contains(i) <==> 0 <= i < n && marks[i],
            forall|i: int| 0 <= i < n ==> (marks[i] <==> order@.contains(i as usize)),
            marks[source as int],
            forall|i: int|
                0 <= i < n ==> boxes[i] == (if marks[i] {
                    pushed_box(orig, source as int, delta, i)
                } else {
                    orig[i]
                }),
            forall|k: int, j: int|
                0 <= k < head && pushes(orig, source as int, delta, order[k] as int, j) ==> marks[j],
            forall|s: Set<int>|
                #![trigger closed_under_push(orig, source as int, delta, s)]
                closed_under_push(orig, source as int, delta, s) && s.contains(source as int)
                    ==> forall|k: int| 0 <= k < order.len() ==> s.contains(order[k] as int),
        decreases n - head,
    {
        let x = order[head];
        let bx = boxes[x];
        let mut j: usize = 0;
        while j < n
            invariant
                n == boxes.len(),
                orig.len() == n,
                marks.len() == n,
                source < n,
                delta.within(2 * WORLD_LIMIT),
                forall|i: int| 0 <= i < n ==> (#[trigger] orig[i]).wf(),
                head < order.len() <= n,
                j <= n,
                x == order[head as int],
                x < n,
                marks[x as int],
                bx == pushed_box(orig, source as int, delta, x as int),
                order@.no_duplicates(),
                forall|k: int| 0 <= k < order.len() ==> order[k] < n,
                seen.finite(),
                seen.len() == order.len(),
                forall|i: int| seen.contains(i) <==> 0 <= i < n && marks[i],
                forall|i: int| 0 <= i < n ==> (marks[i] <==> order@.contains(i as usize)),
                marks[source as int],
                forall|i: int|
                    0 <= i < n ==> boxes[i] == (if marks[i] {
                        pushed_box(orig, source as int, delta, i)
                    } else {
                        orig[i]
                    }),
                forall|k: int, j2: int|
                    0 <= k < head && pushes(orig, source as int, delta, order[k] as int, j2)
                        ==> marks[j2],
                forall|j2: int|
                    0 <= j2 < j && pushes(orig, source as int, delta, x as int, j2) ==> marks[j2],
                forall|s: Set<int>|
                    #![trigger closed_under_push(orig, source as int, delta, s)]
                    closed_under_push(orig, source as int, delta, s) && s.contains(source as int)
                        ==> forall|k: int| 0 <= k < order.len() ==> s.contains(order[k] as int),
            decreases n - j,
        {
            if !marks[j] {
                let bj = boxes[j];
                if bx.overlaps(&bj) {
                    assert(pushes(orig, source as int, delta, x as int, j as int));
                    let moved = DraggableTextBox {
                        position: Point {
                            x: clamp_i64(bj.position.x + delta.x, -WORLD_LIMIT, WORLD_LIMIT),
                            y: clamp_i64(bj.position.y + delta.y, -WORLD_LIMIT, WORLD_LIMIT),
                        },
                        ..bj
                    };
                    proof {
                        lemma_int_range(0, n as int);
                        assert(seen.insert(j as int).subset_of(set_int_range(0, n as int)));
                        lemma_len_subset(seen.insert(j as int), set_int_range(0, n as int));
                    }
                    let ghost old_order = order@;
                    boxes.set(j, moved);
                    marks.set(j, true);
                    order.push(j);
                    proof {
                        seen = seen.insert(j as int);
                        assert(order@ == old_order.push(j));
                        assert(order@[old_order.len() as int] == j);
                        assert forall|i: int| 0 <= i < n implies (marks[i] <==> order@.contains(
                            i as usize,
                        )) by {
                            if order@.contains(i as usize) && i != j {
                                let k = choose|k: int| 0 <= k < order@.len() && order@[k] == i as usize;
                                assert(old_order[k] == i as usize);
                            }
                            if i != j && old_order.contains(i as usize) {
                                let k = choose|k: int| 0 <= k < old_order.len() && old_order[k] == i as usize;
                                assert(order@[k] == i as usize);
                            }
                        }
                        assert forall|s: Set<int>|
                            #![trigger closed_under_push(orig, source as int, delta, s)]
                            closed_under_push(orig, source as int, delta, s) && s.contains(
                                source as int,
                            ) implies forall|k: int|
                            0 <= k < order.len() ==> s.contains(order[k] as int) by {
                            assert(s.contains(old_order[head as int] as int));
                            assert(s.contains(x as int) && pushes(orig, source as int, delta, x as int, j as int));
                            assert(s.contains(j as int));
                        }
                    }
                }
            }
            j += 1;
        }
        head += 1;
    }
    proof {
        assert forall|i: int, j: int|
            #![trigger order@.contains(i as usize), pushes(orig, source as int, delta, i, j)]
            pushes(orig, source as int, delta, i, j) && order@.contains(i as usize) implies order@.contains(
            j as usize,
        ) by {
            let k = choose|k: int| 0 <= k < order@.len() && order@[k] == i as usize;
            assert(order[k] as int == i);
            assert(marks[j]);
        }
        assert(order@.contains(source));
        assert(boxes@ =~= cascaded(orig, source as int, delta, order@));
    }
    order
}

/// A cascade is determined by the drag alone: any two listings of it reach
/// the same boxes and leave every box in the same place, whatever order the
/// boxes were visited in.
pub proof fn lemma_cascade_unique(
    boxes: Seq<DraggableTextBox>,
    source: int,
    delta: Point,
    first: Seq<usize>,
    second: Seq<usize>,
)
    requires
        is_cascade(boxes, source, delta, first),
        is_cascade(boxes, source, delta, second),
    ensures
        forall|i: int|
            #![trigger first.contains(i as usize)]
            #![trigger second.contains(i as usize)]
            0 <= i < boxes.len() ==> (first.contains(i as usize) <==> second.contains(i as usize)),
        cascaded(boxes, source, delta, first) == cascaded(boxes, source, delta, second),
{
    lemma_listing_within(boxes, source, delta, first, second);
    lemma_listing_within(boxes, source, delta, second, first);
    assert(cascaded(boxes, source, delta, first) =~= cascaded(boxes, source, delta, second));
}

/// Every box that the cascade `inner` reaches is listed in the cascade
/// `outer` too.
proof fn lemma_listing_within(
    boxes: Seq<DraggableTextBox>,
    source: int,
    delta: Point,
    inner: Seq<usize>,
    outer: Seq<usize>,
)
    requires
        is_cascade(boxes, source, delta, inner),
        is_cascade(boxes, source, delta, outer),
    ensures
        forall|i: int|
            #![trigger inner.contains(i as usize)]
            0 <= i < boxes.len() && inner.contains(i as usize) ==> outer.contains(i as usize),
{
    let s = Set::new(|i: int| 0 <= i && outer.contains(i as usize));
    assert(closed_under_push(boxes, source, delta, s)) by {
        assert forall|i: int, j: int|
            #![trigger s.contains(i), pushes(boxes, source, delta, i, j)]
            s.contains(i) && pushes(boxes, source, delta, i, j) implies s.contains(j) by {
            assert(outer.contains(j as usize));
        }
    }
    assert forall|i: int|
        #![trigger inner.contains(i as usize)]
        0 <= i < boxes.len() && inner.contains(i as usize) implies outer.contains(i as usize) by {
        let k = choose|k: int| 0 <= k < inner.len() && inner[k] == i as usize;
        assert(s.contains(inner[k] as int));
    }
}

} // verus!
