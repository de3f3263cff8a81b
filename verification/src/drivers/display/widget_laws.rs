//! What widgets look like: where their operations lie, in which colors, and what
//! they show.

use vstd::prelude::*;

use crate::drivers::display::geometry::{Point, Rectangle};
use crate::drivers::display::sweep::{
    in_sweep, law_sweep_is_exact, reads_before, sweep_dots, Needle,
};
use crate::drivers::display::widgets::{
    inner_width, line_width, marks_fit, op_views, radius_in, reports, widget_fault, widget_ops, Align,
    ArcGaugeStyle, DrawOp, DrawOpView, FontSize, GaugeMarks, WidgetConfig, WidgetPalette,
};
use crate::entities::state::Availability;
use crate::entities::SensorValue;
use crate::ieee::Binary64;
use crate::text::{occurs, substituted};

verus! {

/// A text widget draws one line of text, in the palette's foreground color and in
/// the configured font, whatever the zone and the state. The text is the template
/// with the value's numeral in it if the source is online and has a value, and
/// with two dashes otherwise.
pub proof fn law_text_is_visible_in_its_font<C>(
    template: String,
    font: FontSize,
    align: Align,
    rect: Rectangle,
    palette: WidgetPalette<C>,
    availability: Availability,
    value: Option<SensorValue>,
    marks: GaugeMarks,
)
    ensures
        ({
            let ops = widget_ops(
                WidgetConfig::Text { template, font, align },
                rect,
                palette,
                availability,
                value,
                marks,
            );
            &&& ops.len() == 1
            &&& ops[0] matches DrawOpView::Text { text, font: used, color, .. }
            &&& used == font
            &&& color == palette.foreground
            &&& availability == Availability::Online && value is Some ==> text == substituted(
                template@,
                "{{value}}"@,
                value->0.numeral(),
            )
            &&& availability != Availability::Online || value is None ==> text == substituted(
                template@,
                "{{value}}"@,
                "--"@,
            )
        }),
{
}

/// A line of text that fits its zone touches the zone's left edge, its right edge,
/// or leaves the same gap on both sides (one pixel more on the right if it has
/// to), as configured; a longer one starts at the left edge. Likewise it is
/// centered between top and bottom, or starts at the top.
pub proof fn law_text_is_placed_as_configured<C>(
    template: String,
    font: FontSize,
    align: Align,
    rect: Rectangle,
    palette: WidgetPalette<C>,
    availability: Availability,
    value: Option<SensorValue>,
    marks: GaugeMarks,
)
    requires
        rect.in_range(),
    ensures
        ({
            let ops = widget_ops(
                WidgetConfig::Text { template, font, align },
                rect,
                palette,
                availability,
                value,
                marks,
            );
            let glyph: (int, int) = match font {
                FontSize::Small => (6, 10),
                FontSize::Medium => (8, 13),
                FontSize::Large => (10, 20),
            };
            &&& ops[0] matches DrawOpView::Text { text, position, .. }
            &&& {
                let width = text.len() * glyph.0;
                let left = position.x - rect.top_left.x;
                let right = rect.top_left.x + rect.size.width - (position.x + width);
                if width > rect.size.width {
                    left == 0
                } else {
                    match align {
                        Align::Left => left == 0,
                        Align::Center => left <= right <= left + 1 && left >= 0,
                        Align::Right => right == 0,
                    }
                }
            }
            &&& {
                let top = position.y - rect.top_left.y;
                let bottom = rect.top_left.y + rect.size.height - (position.y + glyph.1);
                if glyph.1 > rect.size.height {
                    top == 0
                } else {
                    top >= 0 && top <= bottom <= top + 1
                }
            }
        }),
{
    let ops = widget_ops(
        WidgetConfig::Text { template, font, align },
        rect,
        palette,
        availability,
        value,
        marks,
    );
    let n = ops[0]->Text_text.len();
    let glyph: (int, int) = match font {
        FontSize::Small => (6, 10),
        FontSize::Medium => (8, 13),
        FontSize::Large => (10, 20),
    };
    assert(line_width(font, n) == n * glyph.0) by {
        let gaps: nat = if n == 0 {
            0
        } else {
            (n - 1) as nat
        };
        assert(gaps * 0nat == 0) by (nonlinear_arith);
    }
}

/// A linear gauge is its zone's outline; a solid fill from the left, as many
/// pixels wide as the value's mark says, one pixel inside the outline, if there is
/// a value and it covers any; and a vertical redline mark if one is configured.
/// All is in the foreground color, but the redline mark is in the background color
/// where the value has reached it.
pub proof fn law_bar_shows_value_and_redline<C>(
    min: Binary64,
    max: Binary64,
    redline: Option<Binary64>,
    rect: Rectangle,
    palette: WidgetPalette<C>,
    availability: Availability,
    value: Option<SensorValue>,
    marks: GaugeMarks,
)
    requires
        rect.in_range(),
        marks_fit(WidgetConfig::GaugeLinear { min, max, redline }, rect, marks),
    ensures
        ({
            let ops = widget_ops(
                WidgetConfig::GaugeLinear { min, max, redline },
                rect,
                palette,
                availability,
                value,
                marks,
            );
            let filled: int = if value is Some && marks.bar.fill > 0 {
                1
            } else {
                0
            };
            let marked: int = if redline is Some {
                1
            } else {
                0
            };
            &&& ops.len() == 1 + filled + marked
            &&& ops[0] == (DrawOpView::Outline { rect, color: palette.foreground })
            &&& filled == 1 ==> {
                &&& ops[1] matches DrawOpView::Fill { rect: fill, color }
                &&& fill.top_left.x == rect.top_left.x + 1
                &&& fill.top_left.y == rect.top_left.y + 1
                &&& fill.size.width == marks.bar.fill
                &&& fill.size.height == if rect.size.height >= 2 {
                    rect.size.height - 2
                } else {
                    0
                }
                &&& color == palette.foreground
            }
            &&& marked == 1 ==> {
                &&& ops.last() matches DrawOpView::Line { from, to, color }
                &&& from.x == rect.top_left.x + 1 + marks.bar.redline
                &&& to.x == from.x
                &&& from.y == rect.top_left.y + 1
                &&& to.y == rect.top_left.y + rect.size.height - 2
                &&& color == if value is Some && marks.bar.redline_reached {
                    palette.background
                } else {
                    palette.foreground
                }
            }
        }),
{
}

/// Whether a dial of this radius fits the zone with the style's margin above it and
/// on both sides.
pub open spec fn dial_has_room(rect: Rectangle, style: ArcGaugeStyle, radius: int) -> bool {
    let margin: int = if style == ArcGaugeStyle::Classic {
        2
    } else {
        1
    };
    radius + margin <= rect.size.height && 2 * (radius + margin) <= rect.size.width
}

/// The radius given for an arc gauge is the largest there is room for.
pub proof fn law_dial_radius_is_the_largest(rect: Rectangle, style: ArcGaugeStyle, radius: int)
    ensures
        dial_has_room(rect, style, radius) <==> radius <= radius_in(rect, style),
{
}

/// The width given for a linear gauge is the zone's without its two edges.
pub proof fn law_bar_lies_between_the_edges(rect: Rectangle)
    ensures
        rect.size.width >= 2 ==> inner_width(rect) + 2 == rect.size.width,
        rect.size.width < 2 ==> inner_width(rect) == 0,
{
}

/// Marks are accepted for a linear gauge exactly if neither fill nor redline lies
/// past the inner width; and for an arc gauge that is drawn, exactly if the needle's
/// tip and both ends of the redline lie no farther than the radius from the center,
/// to either side and upwards, and a sweep can be computed. For other widgets marks
/// do not matter.
pub proof fn law_marks_are_accepted_within_the_gauge(
    widget: WidgetConfig,
    rect: Rectangle,
    marks: GaugeMarks,
    radius: int,
)
    requires
        widget matches WidgetConfig::GaugeArc { style, .. } ==> dial_has_room(rect, style, radius)
            && !dial_has_room(rect, style, radius + 1),
    ensures
        marks_fit(widget, rect, marks) <==> match widget {
            WidgetConfig::Text { .. } => true,
            WidgetConfig::GaugeLinear { .. } => {
                &&& marks.bar.fill == 0 || marks.bar.fill + 2 <= rect.size.width
                &&& marks.bar.redline == 0 || (marks.bar.redline > 0 && marks.bar.redline + 2
                    <= rect.size.width)
            },
            WidgetConfig::GaugeArc { style, .. } => radius < 4 || {
                &&& -radius <= marks.dial.tip.x <= radius
                &&& -radius <= marks.dial.tip.y <= 0
                &&& -radius <= marks.dial.redline_inner.x <= radius
                &&& -radius <= marks.dial.redline_inner.y <= 0
                &&& -radius <= marks.dial.redline_outer.x <= radius
                &&& -radius <= marks.dial.redline_outer.y <= 0
                &&& style == ArcGaugeStyle::Filled ==> radius <= 32768
                &&& marks.dial.sweep matches Some(needle) ==> needle.in_range()
            },
        },
{
}

/// An arc gauge is drawn exactly if there is room for a radius of 4 pixels, and then
/// as large as there is room for, around the middle of the zone's bottom edge. It
/// starts with the half circle, in the foreground color.
pub proof fn law_dial_is_as_large_as_fits<C>(
    min: Binary64,
    max: Binary64,
    redline: Option<Binary64>,
    style: ArcGaugeStyle,
    rect: Rectangle,
    palette: WidgetPalette<C>,
    availability: Availability,
    value: Option<SensorValue>,
    marks: GaugeMarks,
)
    requires
        rect.in_range(),
    ensures
        ({
            let ops = widget_ops(
                WidgetConfig::GaugeArc { min, max, redline, style },
                rect,
                palette,
                availability,
                value,
                marks,
            );
            &&& !dial_has_room(rect, style, 4) ==> ops.len() == 0
            &&& dial_has_room(rect, style, 4) ==> {
                &&& ops.len() > 0
                &&& ops[0] matches DrawOpView::HalfCircle { top_left, diameter, color }
                &&& diameter as int % 2 == 0
                &&& diameter as int / 2 >= 4
                &&& dial_has_room(rect, style, diameter as int / 2)
                &&& !dial_has_room(rect, style, diameter as int / 2 + 1)
                &&& top_left.x + diameter as int / 2 == rect.top_left.x + rect.size.width as int / 2
                &&& top_left.y + diameter as int / 2 == rect.top_left.y + rect.size.height - 1
                &&& color == palette.foreground
            }
        }),
{
}

/// The needle of an arc gauge points where the marks say: the last operation is a
/// line in the foreground color from the middle of the zone's bottom edge to the
/// place that lies off it by the tip's offset, in x and in y.
pub proof fn law_needle_points_at_its_tip<C>(
    min: Binary64,
    max: Binary64,
    redline: Option<Binary64>,
    style: ArcGaugeStyle,
    rect: Rectangle,
    palette: WidgetPalette<C>,
    availability: Availability,
    value: SensorValue,
    marks: GaugeMarks,
)
    requires
        rect.in_range(),
        dial_has_room(rect, style, 4),
        marks_fit(WidgetConfig::GaugeArc { min, max, redline, style }, rect, marks),
    ensures
        ({
            let ops = widget_ops(
                WidgetConfig::GaugeArc { min, max, redline, style },
                rect,
                palette,
                availability,
                Some(value),
                marks,
            );
            &&& ops.len() >= 2
            &&& ops.last() matches DrawOpView::Line { from, to, color }
            &&& from.x == rect.top_left.x + rect.size.width as int / 2
            &&& from.y == rect.top_left.y + rect.size.height - 1
            &&& to.x - from.x == marks.dial.tip.x
            &&& to.y - from.y == marks.dial.tip.y
            &&& color == palette.foreground
        }),
{
}

/// Two needles with different tips are never drawn alike.
pub proof fn law_needles_differ_with_their_tips<C>(
    min: Binary64,
    max: Binary64,
    redline: Option<Binary64>,
    style: ArcGaugeStyle,
    rect: Rectangle,
    palette: WidgetPalette<C>,
    availability: Availability,
    a: SensorValue,
    b: SensorValue,
    marks_a: GaugeMarks,
    marks_b: GaugeMarks,
)
    requires
        rect.in_range(),
        dial_has_room(rect, style, 4),
        marks_fit(WidgetConfig::GaugeArc { min, max, redline, style }, rect, marks_a),
        marks_fit(WidgetConfig::GaugeArc { min, max, redline, style }, rect, marks_b),
        marks_a.dial.tip != marks_b.dial.tip,
    ensures
        ({
            let widget = WidgetConfig::GaugeArc { min, max, redline, style };
            widget_ops(widget, rect, palette, availability, Some(a), marks_a) != widget_ops(
                widget,
                rect,
                palette,
                availability,
                Some(b),
                marks_b,
            )
        }),
{
    law_needle_points_at_its_tip(min, max, redline, style, rect, palette, availability, a, marks_a);
    law_needle_points_at_its_tip(min, max, redline, style, rect, palette, availability, b, marks_b);
}

/// Between the half circle and the needle an arc gauge draws the sweep and then the
/// redline mark, and nothing else: the sweep in the dim color, for the filled style
/// with a value whose mark has one; the mark in the foreground color, if a redline
/// is configured, between two places that lie off the dial's center by the marks'
/// offsets.
pub proof fn law_dial_shows_sweep_and_redline<C>(
    min: Binary64,
    max: Binary64,
    redline: Option<Binary64>,
    style: ArcGaugeStyle,
    rect: Rectangle,
    palette: WidgetPalette<C>,
    availability: Availability,
    value: Option<SensorValue>,
    marks: GaugeMarks,
)
    requires
        rect.in_range(),
        dial_has_room(rect, style, 4),
        marks_fit(WidgetConfig::GaugeArc { min, max, redline, style }, rect, marks),
    ensures
        ({
            let ops = widget_ops(
                WidgetConfig::GaugeArc { min, max, redline, style },
                rect,
                palette,
                availability,
                value,
                marks,
            );
            let swept: int = if style == ArcGaugeStyle::Filled && value is Some
                && marks.dial.sweep is Some {
                1
            } else {
                0
            };
            let marked: int = if redline is Some {
                1
            } else {
                0
            };
            let pointed: int = if value is Some {
                1
            } else {
                0
            };
            let cx = rect.top_left.x + rect.size.width as int / 2;
            let cy = rect.top_left.y + rect.size.height - 1;
            &&& ops.len() == 1 + swept + marked + pointed
            &&& swept == 1 ==> {
                &&& ops[1] matches DrawOpView::Dots { points, color }
                &&& color == palette.dim
                &&& ops[0] matches DrawOpView::HalfCircle { diameter, .. }
                &&& points == sweep_dots(
                    Point { x: cx as i32, y: cy as i32 },
                    diameter as int / 2 - 1,
                    marks.dial.sweep->0,
                )
            }
            &&& marked == 1 ==> {
                &&& ops[1 + swept] matches DrawOpView::Line { from, to, color }
                &&& from.x - cx == marks.dial.redline_inner.x
                &&& from.y - cy == marks.dial.redline_inner.y
                &&& to.x - cx == marks.dial.redline_outer.x
                &&& to.y - cy == marks.dial.redline_outer.y
                &&& color == palette.foreground
            }
        }),
{
}

/// A pixel belongs to the sweep exactly if it lies on or above the center's row,
/// within the radius but not at the center itself, on the checkerboard, and not past
/// the needle.
pub proof fn law_sweep_is_the_checkered_part_behind_the_needle(
    center: Point,
    radius: int,
    needle: Needle,
    p: Point,
)
    requires
        0 <= radius <= 32767,
        center.x - radius >= i32::MIN,
        center.x + radius <= i32::MAX,
        center.y - radius >= i32::MIN,
    ensures
        ({
            let right = p.x - center.x;
            let up = center.y - p.y;
            sweep_dots(center, radius, needle).contains(p) <==> {
                &&& up >= 0
                &&& right * right + up * up <= radius * radius
                &&& !(right == 0 && up == 0)
                &&& (right - up) % 2 == 0
                &&& needle.x * up >= needle.y * right
            }
        }),
{
    law_sweep_is_exact(center, radius, needle);
    let right = p.x - center.x;
    let up = center.y - p.y;
    let down = p.y - center.y;
    assert(down * down == up * up && needle.x * (-down) == needle.x * up) by (nonlinear_arith)
        requires
            down == -up,
    ;
    assert(right * right >= 0 && up * up >= 0) by (nonlinear_arith);
    assert(right * right + up * up == 0 ==> right == 0 && up == 0) by (nonlinear_arith);
    assert(right == 0 && up == 0 ==> right * right + up * up == 0) by (nonlinear_arith);
    assert(right * right + up * up <= radius * radius ==> -radius <= right <= radius && -radius
        <= up <= radius) by (nonlinear_arith)
        requires
            radius >= 0,
    ;
    let dots = sweep_dots(center, radius, needle);
    assert(dots.contains(p) <==> in_sweep(
        p.x - center.x,
        p.y - center.y,
        radius,
        needle,
    ));
}

/// A gauge range is accepted exactly if its ends are in order and the redline, if
/// there is one, is between them; for numbers that can be compared at all.
pub proof fn law_gauge_ranges_are_ordered(
    min: Binary64,
    max: Binary64,
    redline: Option<Binary64>,
    style: ArcGaugeStyle,
)
    requires
        !min.is_nan(),
        !max.is_nan(),
        redline matches Some(r) ==> !r.is_nan(),
    ensures
        ({
            let ordered = min.less(max) && (redline matches Some(r) ==> (min.less(r) || min.equals(
                r,
            )) && (r.less(max) || r.equals(max)));
            &&& widget_fault(WidgetConfig::GaugeLinear { min, max, redline }) is None <==> ordered
            &&& widget_fault(WidgetConfig::GaugeArc { min, max, redline, style }) is None
                <==> ordered
        }),
{
}

/// An end of a gauge range, or a redline, that cannot be compared is no reason to
/// refuse the gauge.
pub proof fn law_incomparable_numbers_are_accepted(
    min: Binary64,
    max: Binary64,
    redline: Option<Binary64>,
)
    ensures
        (min.is_nan() || max.is_nan()) && redline is None ==> widget_fault(
            WidgetConfig::GaugeLinear { min, max, redline },
        ) is None,
        min.less(max) && (redline matches Some(r) && r.is_nan()) ==> widget_fault(
            WidgetConfig::GaugeLinear { min, max, redline },
        ) is None,
{
}

/// A text widget is accepted exactly if its template holds the placeholder.
pub proof fn law_templates_hold_the_placeholder(template: String, font: FontSize, align: Align)
    ensures
        widget_fault(WidgetConfig::Text { template, font, align }) is None <==> exists|
            before: Seq<char>,
            after: Seq<char>,
        | template@ == #[trigger] (before + "{{value}}"@ + after),
{
    let p = "{{value}}"@;
    if occurs(template@, p) {
        let i = choose|i: int| crate::text::occurs_at(template@, p, i);
        let before = template@.take(i);
        let after = template@.skip(i + p.len());
        assert(template@ =~= before + p + after);
    }
    assert forall|before: Seq<char>, after: Seq<char>| template@ == #[trigger] (before + p
        + after) implies occurs(template@, p) by {
        let i = before.len() as int;
        assert(template@.subrange(i, i + p.len()) =~= p);
        assert(crate::text::occurs_at(template@, p, i));
    }
}

/// The pixels of a sweep are listed row by row from the top and in each row from the
/// left, none twice.
pub proof fn law_sweep_is_listed_in_reading_order(
    center: Point,
    radius: int,
    needle: Needle,
    i: int,
    j: int,
)
    requires
        0 <= radius <= 32767,
        center.x - radius >= i32::MIN,
        center.x + radius <= i32::MAX,
        center.y - radius >= i32::MIN,
        0 <= i < j < sweep_dots(center, radius, needle).len(),
    ensures
        ({
            let p = sweep_dots(center, radius, needle)[i];
            let q = sweep_dots(center, radius, needle)[j];
            p.y < q.y || (p.y == q.y && p.x < q.x)
        }),
{
    law_sweep_is_exact(center, radius, needle);
    assert(reads_before(
        sweep_dots(center, radius, needle)[i],
        sweep_dots(center, radius, needle)[j],
    ));
}

/// What is said of a list of operations is said of each of them, in order, and leaves
/// nothing of it out.
pub proof fn law_operations_are_told_in_full<C>(ops: Seq<DrawOp<C>>, i: int)
    requires
        0 <= i < ops.len(),
    ensures
        op_views(ops).len() == ops.len(),
        match (ops[i], op_views(ops)[i]) {
            (
                DrawOp::Text { text: t, position: p, font: f, color: c },
                DrawOpView::Text { text, position, font, color },
            ) => t@ == text && p == position && f == font && c == color,
            (
                DrawOp::Outline { rect: r, color: c },
                DrawOpView::Outline { rect, color },
            ) => r == rect && c == color,
            (
                DrawOp::Fill { rect: r, color: c },
                DrawOpView::Fill { rect, color },
            ) => r == rect && c == color,
            (
                DrawOp::Line { from: a, to: b, color: c },
                DrawOpView::Line { from, to, color },
            ) => a == from && b == to && c == color,
            (
                DrawOp::HalfCircle { top_left: t, diameter: d, color: c },
                DrawOpView::HalfCircle { top_left, diameter, color },
            ) => t == top_left && d == diameter && c == color,
            (
                DrawOp::Dots { points: p, color: c },
                DrawOpView::Dots { points, color },
            ) => p@ == points && c == color,
            _ => false,
        },
{
}

/// A check passes exactly if there is no fault, and fails with the very message of the
/// one there is.
pub proof fn law_checks_tell_the_fault(fault: Option<Seq<char>>, message: String)
    ensures
        reports(Ok(()), fault) <==> fault is None,
        reports(Err(message), fault) <==> fault is Some && fault->0 == message@,
{
}

} // verus!
