//! Dotted lines that crawl with time.

use crate::scalar::{Scalar, UNIT};
use crate::zone::{DrawZone, Vec2};
use vstd::prelude::*;

verus! {

/// The length that a dash and the gap after it each aim at.
pub open spec fn segment_length() -> Scalar {
    Scalar::of(15 * UNIT)
}

/// A stroke from one point to another.
#[derive(Clone, Copy, Debug, PartialEq, Eq, Structural)]
pub struct Stroke {
    pub from: Vec2,
    pub to: Vec2,
}

/// The distance between two points.
pub open spec fn distance(a: Vec2, b: Vec2) -> Scalar {
    a.x.minus(b.x).times(a.x.minus(b.x)).plus(a.y.minus(b.y).times(a.y.minus(b.y))).sqrt()
}

/// The whole part of a number that is not below zero, as far as 32 bits hold it; zero for a
/// number below zero.
pub open spec fn whole_part(v: Scalar) -> u32 {
    if v@ < 0 {
        0
    } else if v@ / (UNIT as int) > u32::MAX {
        u32::MAX
    } else {
        (v@ / (UNIT as int)) as u32
    }
}

/// The number of dashes and gaps of a dotted line between two points: as many lengths as
/// fit, less one if that is odd.
pub open spec fn segments(start: Vec2, stop: Vec2) -> u32 {
    (whole_part(distance(start, stop).over(segment_length())) / 2 * 2) as u32
}

/// One dash or gap of a dotted line between two points, as a vector.
pub open spec fn segment(start: Vec2, stop: Vec2) -> Vec2 {
    let length = distance(start, stop).over(Scalar::from_count(segments(start, stop) as usize));
    Vec2 {
        x: stop.x.minus(start.x).over(distance(start, stop)).times(length),
        y: stop.y.minus(start.y).over(distance(start, stop)).times(length),
    }
}

/// How far the dashes have crawled at `time`, in dashes: twice the time, less the pairs of
/// dash and gap that are full.
pub open spec fn shift_at(time: Scalar) -> Scalar {
    if time@ >= 0 {
        Scalar::of((2 * time@) % (2 * UNIT))
    } else {
        Scalar::of(-((2 * (-time@)) % (2 * UNIT)))
    }
}

/// The point `factor` segments after `start`.
pub open spec fn along(start: Vec2, step: Vec2, factor: Scalar) -> Vec2 {
    Vec2 { x: start.x.plus(factor.times(step.x)), y: start.y.plus(factor.times(step.y)) }
}

/// Dash `i` of a dotted line between two points at `time`. The last dash ends at the end of
/// the line where it would crawl past it.
pub open spec fn dash(start: Vec2, stop: Vec2, time: Scalar, i: int) -> Stroke {
    let step = segment(start, stop);
    let shift = shift_at(time);
    Stroke {
        from: along(start, step, Scalar::from_count((2 * i) as usize).plus(shift)),
        to: if i == segments(start, stop) / 2 - 1 && shift@ > UNIT {
            stop
        } else {
            along(start, step, Scalar::from_count((2 * i) as usize).plus(Scalar::of(UNIT as int)).plus(shift))
        },
    }
}

/// The strokes of a dotted line between two points at `time`: its dashes, and before them
/// the part of the last dash that has crawled round to the start.
pub open spec fn dotted(start: Vec2, stop: Vec2, time: Scalar) -> Seq<Stroke> {
    Seq::new((segments(start, stop) / 2) as nat, |i: int| dash(start, stop, time, i)) + (if shift_at(time)@ > UNIT {
        seq![
            Stroke {
                from: start,
                to: along(start, segment(start, stop), shift_at(time).minus(Scalar::of(UNIT as int))),
            },
        ]
    } else {
        Seq::empty()
    })
}

/// The distance between two points.
fn norm(a: Vec2, b: Vec2) -> (r: Scalar)
    ensures
        r == distance(a, b),
{
    let dx = a.x.minus(b.x);
    let dy = a.y.minus(b.y);
    dx.times(dx).plus(dy.times(dy)).sqrt()
}

/// The whole part of a number, as far as 32 bits hold it.
fn truncate(v: Scalar) -> (r: u32)
    ensures
        r == whole_part(v),
{
    if v.micros < 0 {
        0
    } else {
        let whole: i64 = v.micros / 1_000_000;
        if whole > u32::MAX as i64 {
            u32::MAX
        } else {
            whole as u32
        }
    }
}

/// How far the dashes have crawled at `time`.
fn shift_of(time: Scalar) -> (r: Scalar)
    ensures
        r == shift_at(time),
{
    if time.micros >= 0 {
        let twice: u128 = 2 * (time.micros as u128);
        Scalar { micros: (twice % 2_000_000) as i64 }
    } else {
        let twice: u128 = 2 * ((-(time.micros as i128)) as u128);
        Scalar { micros: -((twice % 2_000_000) as i64) }
    }
}

/// The point `factor` segments after `start`.
fn point_along(start: Vec2, step: Vec2, factor: Scalar) -> (r: Vec2)
    ensures
        r == along(start, step, factor),
{
    Vec2 { x: start.x.plus(factor.times(step.x)), y: start.y.plus(factor.times(step.y)) }
}

/// The strokes of a dotted line from `start` to `stop` at `time`.
pub fn dotted_line(time: Scalar, start: Vec2, stop: Vec2) -> (r: Vec<Stroke>)
    ensures
        r@ == dotted(start, stop, time),
{
    let length = norm(start, stop);
    let segments_n: u32 = truncate(length.over(Scalar::from_int(15))) / 2 * 2;
    let new_length = length.over(Scalar::from_count(segments_n as usize));
    let step = Vec2 {
        x: stop.x.minus(start.x).over(length).times(new_length),
        y: stop.y.minus(start.y).over(length).times(new_length),
    };
    let shift = shift_of(time);
    let mut strokes: Vec<Stroke> = Vec::new();
    let mut i: u32 = 0;
    while i < segments_n / 2
        invariant
            i <= segments_n / 2,
            segments_n == segments(start, stop),
            step == segment(start, stop),
            shift == shift_at(time),
            strokes@.len() == i,
            forall|k: int| 0 <= k < i ==> strokes@[k] == dash(start, stop, time, k),
        decreases segments_n / 2 - i,
    {
        let sstart = point_along(start, step, Scalar::from_count(2 * (i as usize)).plus(shift));
        let sstop = if i == segments_n / 2 - 1 && shift.micros > 1_000_000 {
            stop
        } else {
            point_along(start, step, Scalar::from_count(2 * (i as usize)).plus(Scalar::one()).plus(shift))
        };
        strokes.push(Stroke { from: sstart, to: sstop });
        i = i + 1;
    }
    if shift.micros > 1_000_000 {
        strokes.push(Stroke { from: start, to: point_along(start, step, shift.minus(Scalar::one())) });
    }
    assert(strokes@ =~= dotted(start, stop, time));
    strokes
}

/// The strokes of a dotted frame round a zone at `time`: dotted lines along its four edges,
/// from the corner at high x and low y round by the corner at low x and low y.
pub fn dotted_zone(time: Scalar, zone: &DrawZone) -> (r: Vec<Stroke>)
    ensures
        r@ == dotted(
            Vec2 { x: zone.right(), y: zone.bottom() },
            Vec2 { x: zone.left(), y: zone.bottom() },
            time,
        ) + dotted(Vec2 { x: zone.left(), y: zone.bottom() }, Vec2 { x: zone.left(), y: zone.top() }, time)
            + dotted(Vec2 { x: zone.left(), y: zone.top() }, Vec2 { x: zone.right(), y: zone.top() }, time)
            + dotted(Vec2 { x: zone.right(), y: zone.top() }, Vec2 { x: zone.right(), y: zone.bottom() }, time),
{
    let a = Vec2 { x: zone.right(), y: zone.bottom() };
    let b = Vec2 { x: zone.left(), y: zone.bottom() };
    let c = Vec2 { x: zone.left(), y: zone.top() };
    let d = Vec2 { x: zone.right(), y: zone.top() };
    let mut strokes = dotted_line(time, a, b);
    let mut second = dotted_line(time, b, c);
    let mut third = dotted_line(time, c, d);
    let mut fourth = dotted_line(time, d, a);
    strokes.append(&mut second);
    strokes.append(&mut third);
    strokes.append(&mut fourth);
    strokes
}

} // verus!
