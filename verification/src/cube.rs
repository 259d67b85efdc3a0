//! The cube that shows how the model is turned, and what the pointer does to the view.

use crate::ui::{StandardView, UiAction};
use vstd::prelude::*;

verus! {

/// A direction or a place in space.
pub struct Point {
    pub x: int,
    pub y: int,
    pub z: int,
}

/// Corner number `index` of the cube.
pub open spec fn corner(index: int) -> Point {
    Point {
        x: if index % 4 == 1 || index % 4 == 2 {
            1
        } else {
            -1
        },
        y: if index % 4 >= 2 {
            1
        } else {
            -1
        },
        z: if index >= 4 {
            1
        } else {
            -1
        },
    }
}

/// The direction that a side of the cube faces.
pub open spec fn normal(side: StandardView) -> Point {
    match side {
        StandardView::Front => Point { x: 0, y: 0, z: 1 },
        StandardView::Back => Point { x: 0, y: 0, z: -1 },
        StandardView::Right => Point { x: 1, y: 0, z: 0 },
        StandardView::Left => Point { x: -1, y: 0, z: 0 },
        StandardView::Top => Point { x: 0, y: 1, z: 0 },
        StandardView::Bottom => Point { x: 0, y: -1, z: 0 },
    }
}

/// The corners of a side of the cube, one next to the other.
pub open spec fn side_corners(side: StandardView) -> Seq<int> {
    match side {
        StandardView::Front => seq![4, 5, 6, 7],
        StandardView::Back => seq![1, 0, 3, 2],
        StandardView::Right => seq![5, 1, 2, 6],
        StandardView::Left => seq![0, 4, 7, 3],
        StandardView::Top => seq![7, 6, 2, 3],
        StandardView::Bottom => seq![0, 1, 5, 4],
    }
}

/// The coordinates of corner number `index` of the cube.
pub fn cube_corner(index: usize) -> (place: [i8; 3])
    requires
        index < 8,
    ensures
        place@[0] == corner(index as int).x,
        place@[1] == corner(index as int).y,
        place@[2] == corner(index as int).z,
{
    let column: usize = index % 4;
    let x: i8 = if column == 1 || column == 2 {
        1
    } else {
        -1
    };
    let y: i8 = if column >= 2 {
        1
    } else {
        -1
    };
    let z: i8 = if index >= 4 {
        1
    } else {
        -1
    };
    [x, y, z]
}

impl StandardView {
    /// The direction that this side of the cube faces.
    pub fn normal(self) -> (direction: [i8; 3])
        ensures
            direction@[0] == normal(self).x,
            direction@[1] == normal(self).y,
            direction@[2] == normal(self).z,
    {
        match self {
            StandardView::Front => [0, 0, 1],
            StandardView::Back => [0, 0, -1],
            StandardView::Right => [1, 0, 0],
            StandardView::Left => [-1, 0, 0],
            StandardView::Top => [0, 1, 0],
            StandardView::Bottom => [0, -1, 0],
        }
    }

    /// The corners of this side of the cube, one next to the other.
    pub fn corners(self) -> (corners: [usize; 4])
        ensures
            forall|k: int| 0 <= k < 4 ==> (#[trigger] corners@[k]) == side_corners(self)[k],
            forall|k: int| 0 <= k < 4 ==> (#[trigger] corners@[k]) < 8,
    {
        match self {
            StandardView::Front => [4, 5, 6, 7],
            StandardView::Back => [1, 0, 3, 2],
            StandardView::Right => [5, 1, 2, 6],
            StandardView::Left => [0, 4, 7, 3],
            StandardView::Top => [7, 6, 2, 3],
            StandardView::Bottom => [0, 1, 5, 4],
        }
    }

    /// What is written on this side of the cube.
    pub fn label(self) -> (label: &'static str)
        ensures
            label@ == (match self {
                StandardView::Front => "前"@,
                StandardView::Back => "後"@,
                StandardView::Right => "右"@,
                StandardView::Left => "左"@,
                StandardView::Top => "上"@,
                StandardView::Bottom => "下"@,
            }),
    {
        match self {
            StandardView::Front => "前",
            StandardView::Back => "後",
            StandardView::Right => "右",
            StandardView::Left => "左",
            StandardView::Top => "上",
            StandardView::Bottom => "下",
        }
    }
}

/// The corners of a side lie on that side, and go round it counterclockwise as seen from outside.
pub proof fn law_sides_are_faces(side: StandardView, k: int)
    by (nonlinear_arith)
    requires
        0 <= k < 4,
    ensures
        ({
            let n = normal(side);
            let a = corner(side_corners(side)[k]);
            let b = corner(side_corners(side)[(k + 1) % 4]);
            let c = corner(side_corners(side)[(k + 2) % 4]);
            &&& 0 <= side_corners(side)[k] < 8
            &&& n.x * a.x + n.y * a.y + n.z * a.z == 1
            &&& (b.y - a.y) * (c.z - b.z) - (b.z - a.z) * (c.y - b.y) == 4 * n.x
            &&& (b.z - a.z) * (c.x - b.x) - (b.x - a.x) * (c.z - b.z) == 4 * n.y
            &&& (b.x - a.x) * (c.y - b.y) - (b.y - a.y) * (c.x - b.x) == 4 * n.z
        }),
{
    assert(k == 0 || k == 1 || k == 2 || k == 3);
}

/// A side of the cube that can be seen.
#[derive(Clone, Copy, Debug, Eq, PartialEq, Structural)]
pub struct CubeFace {
    pub side: StandardView,
    /// How near the side is: a nearer one has a greater number.
    pub depth: i32,
    /// Whether the pointer is over the side.
    pub under_pointer: bool,
}

/// Whether side number `a` is drawn before side number `b`: the farther first, and of two that
/// are equally far the one that comes first.
pub open spec fn is_drawn_before(faces: Seq<CubeFace>, a: int, b: int) -> bool {
    faces[a].depth < faces[b].depth || (faces[a].depth == faces[b].depth && a < b)
}

/// Whether `order` names each of the sides once, in the order in which they are drawn.
pub open spec fn is_draw_order(faces: Seq<CubeFace>, order: Seq<usize>) -> bool {
    &&& order.len() == faces.len()
    &&& forall|i: int| 0 <= i < order.len() ==> (#[trigger] order[i]) < faces.len()
    &&& forall|k: usize| k < faces.len() ==> #[trigger] order.contains(k)
    &&& forall|i: int, j: int|
        0 <= i < j < order.len() ==> is_drawn_before(
            faces,
            #[trigger] order[i] as int,
            #[trigger] order[j] as int,
        )
}

/// The order in which the sides are drawn.
pub fn draw_order(faces: &Vec<CubeFace>) -> (order: Vec<usize>)
    ensures
        is_draw_order(faces@, order@),
{
    let mut order: Vec<usize> = Vec::new();
    let mut next: usize = 0;
    while next < faces.len()
        invariant
            next <= faces@.len(),
            order@.len() == next,
            forall|i: int| 0 <= i < order@.len() ==> (#[trigger] order@[i]) < next,
            forall|k: usize| k < next ==> #[trigger] order@.contains(k),
            forall|i: int, j: int|
                0 <= i < j < order@.len() ==> is_drawn_before(
                    faces@,
                    #[trigger] order@[i] as int,
                    #[trigger] order@[j] as int,
                ),
        decreases faces@.len() - next,
    {
        let mut place: usize = order.len();
        while place > 0 && faces[next].depth < faces[order[place - 1]].depth
            invariant
                place <= order@.len(),
                next < faces@.len(),
                forall|i: int| 0 <= i < order@.len() ==> (#[trigger] order@[i]) < next,
                forall|i: int|
                    place <= i < order@.len() ==> faces@[next as int].depth < faces@[(
                    #[trigger] order@[i]) as int].depth,
            decreases place,
        {
            place = place - 1;
        }
        let ghost before = order@;
        order.insert(place, next);
        proof {
            assert forall|k: usize| k < next + 1 implies #[trigger] order@.contains(k) by {
                if k == next {
                    assert(order@[place as int] == k);
                } else {
                    assert(before.contains(k));
                    let i = before.index_of(k);
                    assert(order@[if i < place { i } else { i + 1 }] == k);
                }
            }
            assert forall|i: int, j: int| 0 <= i < j < order@.len() implies is_drawn_before(
                faces@,
                #[trigger] order@[i] as int,
                #[trigger] order@[j] as int,
            ) by {
                if i == place {
                    assert(order@[j] == before[j - 1]);
                } else if j == place {
                    assert(order@[i] == before[i]);
                    assert(order@[place - 1] == before[place - 1]);
                }
            }
        }
        next = next + 1;
    }
    order
}

/// The place in the order of the side that the pointer is over, the one drawn last of those that
/// it is over.
pub fn hovered_place(faces: &Vec<CubeFace>, order: &Vec<usize>) -> (place: Option<usize>)
    requires
        is_draw_order(faces@, order@),
    ensures
        match place {
            Some(place) => {
                &&& place < order@.len()
                &&& faces@[order@[place as int] as int].under_pointer
                &&& forall|j: int|
                    place < j < order@.len() ==> !faces@[(#[trigger] order@[j]) as int].under_pointer
            },
            None => forall|j: int|
                0 <= j < order@.len() ==> !faces@[(#[trigger] order@[j]) as int].under_pointer,
        },
{
    let mut place: usize = order.len();
    while place > 0
        invariant
            is_draw_order(faces@, order@),
            place <= order@.len(),
            forall|j: int|
                place <= j < order@.len() ==> !faces@[(#[trigger] order@[j]) as int].under_pointer,
        decreases place,
    {
        place = place - 1;
        if faces[order[place]].under_pointer {
            return Some(place);
        }
    }
    None
}

/// What a click on the cube asks for: the view of the nearest side that the pointer is over.
pub fn cube_click(faces: &Vec<CubeFace>) -> (action: Option<UiAction>)
    ensures
        match action {
            Some(action) => exists|k: int| #[trigger]
                is_on_top(faces@, k) && action == UiAction::SetStandardView(faces@[k].side),
            None => forall|k: int| 0 <= k < faces@.len() ==> !(#[trigger] faces@[k]).under_pointer,
        },
{
    let order = draw_order(faces);
    match hovered_place(faces, &order) {
        Some(place) => {
            let top = order[place];
            proof {
                assert(faces@.len() == faces.len());
                assert forall|m: int|
                    0 <= m < faces@.len() && m != top && (
                    #[trigger] faces@[m]).under_pointer implies is_drawn_before(
                    faces@,
                    m,
                    top as int,
                ) by {
                    let j = order@.index_of(m as usize);
                    assert(order@.contains(m as usize));
                    assert(order@[j] == m);
                }
                assert(is_on_top(faces@, top as int));
            }
            Some(UiAction::SetStandardView(faces[top].side))
        },
        None => {
            proof {
                assert(faces@.len() == faces.len());
                assert forall|k: int| 0 <= k < faces@.len() implies !(
                #[trigger] faces@[k]).under_pointer by {
                    assert(order@.contains(k as usize));
                    let j = order@.index_of(k as usize);
                    assert(order@[j] == k);
                }
            }
            None
        },
    }
}

/// Whether the pointer is over side number `k`, and every other side that it is over is drawn
/// before that one.
pub open spec fn is_on_top(faces: Seq<CubeFace>, k: int) -> bool {
    &&& 0 <= k < faces.len()
    &&& faces[k].under_pointer
    &&& forall|m: int|
        0 <= m < faces.len() && m != k && (#[trigger] faces[m]).under_pointer ==> is_drawn_before(
            faces,
            m,
            k,
        )
}

/// Where a point lies as seen along an edge of a polygon.
#[derive(Clone, Copy, Debug, Eq, PartialEq, Structural)]
pub enum EdgeSide {
    Left,
    Right,
    /// So close to the line of the edge that it counts as neither.
    On,
}

/// Whether a point lies in a convex polygon, given where it lies as seen along each of the edges,
/// one after the other: not on both sides.
pub fn point_in_convex_polygon(sides: &Vec<EdgeSide>) -> (inside: bool)
    ensures
        inside == !(sides@.contains(EdgeSide::Left) && sides@.contains(EdgeSide::Right)),
{
    let mut seen: EdgeSide = EdgeSide::On;
    for i in 0..sides.len()
        invariant
            match seen {
                EdgeSide::On => forall|k: int| 0 <= k < i ==> (#[trigger] sides@[k]) is On,
                EdgeSide::Left => sides@.contains(EdgeSide::Left) && forall|k: int|
                    0 <= k < i ==> !((#[trigger] sides@[k]) is Right),
                EdgeSide::Right => sides@.contains(EdgeSide::Right) && forall|k: int|
                    0 <= k < i ==> !((#[trigger] sides@[k]) is Left),
            },
    {
        let side = sides[i];
        if side != EdgeSide::On {
            proof {
                assert(sides@.contains(sides@[i as int]));
            }
            if seen == EdgeSide::On {
                seen = side;
            } else if side != seen {
                return false;
            }
        }
    }
    true
}

/// What the pointer does over the model and over the cube.
#[derive(Clone, Copy, Debug, Eq, PartialEq, Structural)]
pub struct PointerInput {
    /// The cube is dragged with the primary button.
    pub cube_dragged: bool,
    /// The model is dragged with the primary button.
    pub dragged: bool,
    /// The model is dragged with the middle button or the secondary one.
    pub dragged_aside: bool,
    pub hovers: bool,
    pub hovers_cube: bool,
    pub scrolled: bool,
    pub double_clicked: bool,
}

/// What the camera does in turn.
#[derive(Clone, Copy, Debug, Eq, PartialEq, Structural)]
pub struct CameraResponse {
    /// It turns with the cube, which goes before the model.
    pub turns_with_cube: bool,
    pub turns_with_model: bool,
    pub pans: bool,
    pub zooms: bool,
    pub resets: bool,
}

/// What the camera does.
pub fn camera_response(input: PointerInput) -> (response: CameraResponse)
    ensures
        response == (CameraResponse {
            turns_with_cube: input.cube_dragged,
            turns_with_model: input.dragged && !input.cube_dragged,
            pans: input.dragged_aside,
            zooms: input.scrolled && input.hovers && !input.hovers_cube,
            resets: input.double_clicked,
        }),
{
    CameraResponse {
        turns_with_cube: input.cube_dragged,
        turns_with_model: !input.cube_dragged && input.dragged,
        pans: input.dragged_aside,
        zooms: input.hovers && !input.hovers_cube && input.scrolled,
        resets: input.double_clicked,
    }
}

/// The corners of the cube: the first four behind, the others in front of them, and four times from
/// the lower left corner to the lower right, the upper right and the upper left.
pub proof fn law_corners_of_the_cube(column: int, row: int, layer: int)
    requires
        0 <= column <= 1,
        0 <= row <= 1,
        0 <= layer <= 1,
    ensures
        ({
            let index = 4 * layer + if row == 0 {
                column
            } else {
                3 - column
            };
            &&& corner(index).x == 2 * column - 1
            &&& corner(index).y == 2 * row - 1
            &&& corner(index).z == 2 * layer - 1
        }),
{
}

/// The front faces the viewer, the right side the right, and the top upwards; opposite sides face
/// opposite ways.
pub proof fn law_sides_face_their_ways()
    ensures
        normal(StandardView::Front) == (Point { x: 0, y: 0, z: 1 }),
        normal(StandardView::Right) == (Point { x: 1, y: 0, z: 0 }),
        normal(StandardView::Top) == (Point { x: 0, y: 1, z: 0 }),
        normal(StandardView::Back) == (Point { x: 0, y: 0, z: -1 }),
        normal(StandardView::Left) == (Point { x: -1, y: 0, z: 0 }),
        normal(StandardView::Bottom) == (Point { x: 0, y: -1, z: 0 }),
{
}

/// The text on a side stands upright on it: the first corner of each side is the one from which its
/// first edge runs to the right, or, on the top and the bottom, from left to right.
pub proof fn law_sides_start_at_their_corner()
    ensures
        side_corners(StandardView::Front) == seq![4int, 5, 6, 7],
        side_corners(StandardView::Back) == seq![1int, 0, 3, 2],
        side_corners(StandardView::Right) == seq![5int, 1, 2, 6],
        side_corners(StandardView::Left) == seq![0int, 4, 7, 3],
        side_corners(StandardView::Top) == seq![7int, 6, 2, 3],
        side_corners(StandardView::Bottom) == seq![0int, 1, 5, 4],
{
}

/// Sides are drawn once each, the farther before the nearer, and equally far ones in the order in
/// which they are given.
pub proof fn law_farther_sides_are_drawn_first(
    faces: Seq<CubeFace>,
    order: Seq<usize>,
    i: int,
    j: int,
)
    requires
        is_draw_order(faces, order),
        0 <= i < j < order.len(),
    ensures
        order.len() == faces.len(),
        0 <= order[i] < faces.len(),
        0 <= order[j] < faces.len(),
        order[i] != order[j],
        faces[order[i] as int].depth <= faces[order[j] as int].depth,
        faces[order[i] as int].depth == faces[order[j] as int].depth ==> order[i] < order[j],
{
    assert(is_drawn_before(faces, order[i] as int, order[j] as int));
}

/// Every side is drawn.
pub proof fn law_every_side_is_drawn(faces: Seq<CubeFace>, order: Seq<usize>, side: usize) -> (place:
    int)
    requires
        is_draw_order(faces, order),
        side < faces.len(),
    ensures
        0 <= place < order.len(),
        order[place] == side,
{
    assert(order.contains(side));
    order.index_of(side)
}

/// The side that a click chooses is under the pointer, and no other side under it is nearer.
pub proof fn law_click_chooses_the_nearest_side(faces: Seq<CubeFace>, chosen: int, other: int)
    requires
        is_on_top(faces, chosen),
        0 <= other < faces.len(),
        faces[other].under_pointer,
    ensures
        0 <= chosen < faces.len(),
        faces[chosen].under_pointer,
        faces[other].depth <= faces[chosen].depth,
        faces[other].depth == faces[chosen].depth ==> other <= chosen,
{
}

/// Of the sides under the pointer, if there are any, there is one that a click chooses, and one
/// only.
pub proof fn law_click_chooses_one_side(faces: Seq<CubeFace>, a: int, b: int)
    requires
        is_on_top(faces, a),
        is_on_top(faces, b),
    ensures
        a == b,
{
}

} // verus!
