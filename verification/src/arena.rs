//! The walls that bound the play field.

use crate::detect::{detected, lemma_separated_no_contact, Obstacle};
use crate::error::InvalidInput;
use crate::side::Side;
use crate::vector::{Direction, Vector};
use vstd::prelude::*;

verus! {

/// The four walls of a field centred at the origin, in the order top,
/// bottom, left, right.
///
/// The field is `2 * half_width` wide and `2 * half_height` high, and each
/// wall is `2 * half_thickness` thick. The top and bottom walls lie inside
/// the field, along its upper and lower edge; the left and right walls lie
/// just outside it.
pub open spec fn walls_of(half_width: int, half_height: int, half_thickness: int) -> Seq<
    Obstacle,
> {
    seq![
        Obstacle {
            center: Vector { x: 0, y: (half_height - half_thickness) as i32 },
            half_extents: Vector { x: half_width as i32, y: half_thickness as i32 },
        },
        Obstacle {
            center: Vector { x: 0, y: (half_thickness - half_height) as i32 },
            half_extents: Vector { x: half_width as i32, y: half_thickness as i32 },
        },
        Obstacle {
            center: Vector { x: (-(half_width + half_thickness)) as i32, y: 0 },
            half_extents: Vector { x: half_thickness as i32, y: half_height as i32 },
        },
        Obstacle {
            center: Vector { x: (half_width + half_thickness) as i32, y: 0 },
            half_extents: Vector { x: half_thickness as i32, y: half_height as i32 },
        },
    ]
}

/// Whether a field of these measures can be walled: all three are
/// positive, and the outer walls' centres fit a coordinate.
pub open spec fn field_is_valid(half_width: int, half_height: int, half_thickness: int) -> bool {
    half_width > 0 && half_height > 0 && half_thickness > 0 && half_width + half_thickness
        <= i32::MAX
}

/// Builds the four walls of a field; `Extents` where the measures are not
/// valid.
pub fn arena_walls(half_width: i32, half_height: i32, half_thickness: i32) -> (walls: Result<
    Vec<Obstacle>,
    InvalidInput,
>)
    ensures
        field_is_valid(half_width as int, half_height as int, half_thickness as int) ==> (
        walls matches Ok(w) && w@ == walls_of(
            half_width as int,
            half_height as int,
            half_thickness as int,
        )),
        !field_is_valid(half_width as int, half_height as int, half_thickness as int) ==> walls
            == Err::<Vec<Obstacle>, InvalidInput>(InvalidInput::Extents),
{
    if half_width <= 0 || half_height <= 0 || half_thickness <= 0 {
        return Err(InvalidInput::Extents);
    }
    if half_width > i32::MAX - half_thickness {
        return Err(InvalidInput::Extents);
    }
    let top: i32 = half_height - half_thickness;
    let side: i32 = half_width + half_thickness;
    let horizontal = Vector { x: half_width, y: half_thickness };
    let vertical = Vector { x: half_thickness, y: half_height };
    let mut walls: Vec<Obstacle> = Vec::new();
    walls.push(Obstacle { center: Vector { x: 0, y: top }, half_extents: horizontal });
    walls.push(Obstacle { center: Vector { x: 0, y: -top }, half_extents: horizontal });
    walls.push(Obstacle { center: Vector { x: -side, y: 0 }, half_extents: vertical });
    walls.push(Obstacle { center: Vector { x: side, y: 0 }, half_extents: vertical });
    assert(walls@ =~= walls_of(half_width as int, half_height as int, half_thickness as int));
    Ok(walls)
}

/// Every wall of a valid field has an area, and a ball that keeps more than
/// its radius away from the inner faces of all four walls touches none of
/// them.
pub proof fn lemma_field_is_clear(
    half_width: int,
    half_height: int,
    half_thickness: int,
    p: Direction,
    radius: int,
    i: int,
)
    requires
        field_is_valid(half_width, half_height, half_thickness),
        half_height <= i32::MAX,
        radius > 0,
        -half_width + radius < p.x < half_width - radius,
        -(half_height - 2 * half_thickness) + radius < p.y < (half_height - 2 * half_thickness)
            - radius,
        0 <= i < 4,
    ensures
        walls_of(half_width, half_height, half_thickness)[i].wf(),
        detected(p, radius, walls_of(half_width, half_height, half_thickness)[i]) is None,
{
    let wall = walls_of(half_width, half_height, half_thickness)[i];
    if i == 0 {
        lemma_separated_no_contact(wall, p, radius, Side::Bottom);
    } else if i == 1 {
        lemma_separated_no_contact(wall, p, radius, Side::Top);
    } else if i == 2 {
        lemma_separated_no_contact(wall, p, radius, Side::Right);
    } else {
        lemma_separated_no_contact(wall, p, radius, Side::Left);
    }
}

} // verus!
