//! Widget rendering with no hardware, I2C/SPI, or specific-chip knowledge.
//!
//! Given a bound value, a widget's own config, and a target region, a widget
//! yields the drawing operations that show it. Generic over pixel color, so the
//! same code serves monochrome and color displays.
//!
//! `text`, `gauge_linear`, and `gauge_arc` are a closed set of widget kinds.

use embedded_graphics::mono_font::ascii::{FONT_10X20, FONT_6X10, FONT_8X13};
use vstd::prelude::*;

use crate::drivers::display::geometry::{Point, Rectangle, Size};
use crate::drivers::display::sweep::{dithered_sweep, sweep_dots, Needle};
use crate::entities::state::Availability;
use crate::entities::SensorValue;
use crate::ieee::Binary64;
use crate::text::{
    append_decimal, contains_text, decimal, law_substituted_text_occurs, occurs, substitute,
    substituted,
};

verus! {

/// Colors a widget draws with. Every widget receives an explicit
/// foreground/background/dim triple instead of assuming a two-color (on/off)
/// duality that doesn't hold for e.g. RGB targets.
#[derive(Debug, Clone, Copy, PartialEq, Eq)]
pub struct WidgetPalette<C> {
    pub foreground: C,
    pub background: C,
    /// Color for already swept regions of the filled arc gauge style. On a
    /// monochrome palette this typically equals `foreground`: checkerboard
    /// dithering, not a third color value, is what makes it read as dim there.
    pub dim: C,
}

/// The two presentation styles for [`WidgetConfig::GaugeArc`].
#[derive(Debug, Clone, Copy, PartialEq, Eq, Structural)]
pub enum ArcGaugeStyle {
    /// Thin arc track + needle line.
    Classic,
    /// Solid rim hugging the zone's edges; the range already swept by the
    /// needle is filled with a dithered (checkerboard) pattern, with a solid
    /// needle on top.
    Filled,
}

impl Default for ArcGaugeStyle {
    fn default() -> (style: Self)
        ensures
            style == ArcGaugeStyle::Classic,
    {
        ArcGaugeStyle::Classic
    }
}

impl ArcGaugeStyle {
    /// The style a config-level number selects.
    pub fn try_from(value: u8) -> (style: Result<Self, String>)
        ensures
            match style {
                Ok(style) => value == (match style {
                    ArcGaugeStyle::Classic => 0u8,
                    ArcGaugeStyle::Filled => 1u8,
                }),
                Err(message) => value > 1 && message@ == "gauge_arc style must be 0 or 1, got "@
                    + decimal(value as nat),
            },
    {
        match value {
            0 => Ok(ArcGaugeStyle::Classic),
            1 => Ok(ArcGaugeStyle::Filled),
            other => {
                let mut message: String = "gauge_arc style must be 0 or 1, got ".to_owned();
                append_decimal(&mut message, other as u128);
                Err(message)
            },
        }
    }
}

#[derive(Debug, Clone, Copy, PartialEq, Eq, Structural)]
pub enum FontSize {
    Small,
    Medium,
    Large,
}

impl Default for FontSize {
    fn default() -> (font: Self)
        ensures
            font == FontSize::Medium,
    {
        FontSize::Medium
    }
}

#[derive(Debug, Clone, Copy, PartialEq, Eq, Structural)]
pub enum Align {
    Left,
    Center,
    Right,
}

impl Default for Align {
    fn default() -> (align: Self)
        ensures
            align == Align::Left,
    {
        Align::Left
    }
}

/// The closed set of widget kinds a zone can render. Each kind owns its
/// config shape.
#[derive(Debug, PartialEq)]
pub enum WidgetConfig {
    /// A template string with a single `{{value}}` placeholder (deliberately
    /// not a templating engine), e.g. `"Speed: {{value}}"`.
    Text { template: String, font: FontSize, align: Align },
    /// Bar-style gauge: value mapped onto `min..=max`, drawn as a filled bar.
    GaugeLinear { min: Binary64, max: Binary64, redline: Option<Binary64> },
    /// Arc-style gauge (analog-dial look): same range concept along a
    /// half-circle arc with a needle.
    GaugeArc {
        min: Binary64,
        max: Binary64,
        redline: Option<Binary64>,
        style: ArcGaugeStyle,
    },
}

impl Clone for WidgetConfig {
    fn clone(&self) -> (copy: Self)
        ensures
            copy == *self,
    {
        match self {
            WidgetConfig::Text { template, font, align } => WidgetConfig::Text {
                template: template.clone(),
                font: *font,
                align: *align,
            },
            WidgetConfig::GaugeLinear { min, max, redline } => WidgetConfig::GaugeLinear {
                min: *min,
                max: *max,
                redline: *redline,
            },
            WidgetConfig::GaugeArc { min, max, redline, style } => WidgetConfig::GaugeArc {
                min: *min,
                max: *max,
                redline: *redline,
                style: *style,
            },
        }
    }
}

/// What is wrong with a gauge range, if anything.
pub open spec fn range_fault(min: Binary64, max: Binary64, redline: Option<Binary64>) -> Option<
    Seq<char>,
> {
    if min.equals(max) || max.less(min) {
        Some("gauge needs min < max"@)
    } else if redline matches Some(r) && (r.less(min) || max.less(r)) {
        Some("redline must lie within min..=max"@)
    } else {
        None
    }
}

/// What is wrong with a widget's own config, if anything.
pub open spec fn widget_fault(widget: WidgetConfig) -> Option<Seq<char>> {
    match widget {
        WidgetConfig::Text { template, .. } => if occurs(template@, "{{value}}"@) {
            None
        } else {
            Some("text template must contain '{{value}}'"@)
        },
        WidgetConfig::GaugeLinear { min, max, redline } => range_fault(min, max, redline),
        WidgetConfig::GaugeArc { min, max, redline, .. } => range_fault(min, max, redline),
    }
}

/// Whether a check came out as `fault` says: no fault, no error, and else the
/// fault's message.
pub open spec fn reports(checked: Result<(), String>, fault: Option<Seq<char>>) -> bool {
    match checked {
        Ok(_) => fault is None,
        Err(message) => fault == Some(message@),
    }
}

fn validate_gauge_range(min: Binary64, max: Binary64, redline: Option<Binary64>) -> (checked:
    Result<(), String>)
    ensures
        reports(checked, range_fault(min, max, redline)),
{
    if min.at_least(&max) {
        return Err("gauge needs min < max".to_owned());
    }
    if let Some(r) = redline {
        if r.less_than(&min) || max.less_than(&r) {
            return Err("redline must lie within min..=max".to_owned());
        }
    }
    Ok(())
}

/// What a text widget shows of a state. Never freeze a last-known value on
/// screen: only online data with a value renders as text; anything else (stale,
/// unavailable, no reading yet) is a placeholder.
pub open spec fn shown_text(availability: Availability, value: Option<SensorValue>) -> Seq<char> {
    match (availability, value) {
        (Availability::Online, Some(v)) => v.numeral(),
        _ => "--"@,
    }
}

/// The text that shows a state.
pub fn value_text(availability: Availability, value: Option<SensorValue>) -> (text: String)
    ensures
        text@ == shown_text(availability, value),
{
    match (availability, value) {
        (Availability::Online, Some(v)) => v.format_value(),
        _ => "--".to_owned(),
    }
}

/// The pixel size of a font's glyphs and the gap between them.
#[derive(Debug, Clone, Copy, PartialEq, Eq, Structural)]
pub struct FontMetrics {
    pub width: u32,
    pub height: u32,
    pub spacing: u32,
}

/// `FONT_6X10` of embedded-graphics: its `character_size` is 6 by 10 pixels and
/// its `character_spacing` is 0.
#[verifier::external_body]
fn metrics_6x10() -> (metrics: FontMetrics)
    ensures
        metrics == (FontMetrics { width: 6, height: 10, spacing: 0 }),
{
    FontMetrics {
        width: FONT_6X10.character_size.width,
        height: FONT_6X10.character_size.height,
        spacing: FONT_6X10.character_spacing,
    }
}

/// `FONT_8X13` of embedded-graphics: its `character_size` is 8 by 13 pixels and
/// its `character_spacing` is 0.
#[verifier::external_body]
fn metrics_8x13() -> (metrics: FontMetrics)
    ensures
        metrics == (FontMetrics { width: 8, height: 13, spacing: 0 }),
{
    FontMetrics {
        width: FONT_8X13.character_size.width,
        height: FONT_8X13.character_size.height,
        spacing: FONT_8X13.character_spacing,
    }
}

/// `FONT_10X20` of embedded-graphics: its `character_size` is 10 by 20 pixels
/// and its `character_spacing` is 0.
#[verifier::external_body]
fn metrics_10x20() -> (metrics: FontMetrics)
    ensures
        metrics == (FontMetrics { width: 10, height: 20, spacing: 0 }),
{
    FontMetrics {
        width: FONT_10X20.character_size.width,
        height: FONT_10X20.character_size.height,
        spacing: FONT_10X20.character_spacing,
    }
}

/// The metrics of the font that a size selects.
pub open spec fn metrics_of(font: FontSize) -> FontMetrics {
    match font {
        FontSize::Small => FontMetrics { width: 6, height: 10, spacing: 0 },
        FontSize::Medium => FontMetrics { width: 8, height: 13, spacing: 0 },
        FontSize::Large => FontMetrics { width: 10, height: 20, spacing: 0 },
    }
}

/// The metrics of the font that a size selects.
pub fn font_metrics(font: FontSize) -> (metrics: FontMetrics)
    ensures
        metrics == metrics_of(font),
{
    match font {
        FontSize::Small => metrics_6x10(),
        FontSize::Medium => metrics_8x13(),
        FontSize::Large => metrics_10x20(),
    }
}

/// The width in pixels of a line of `chars` characters.
pub open spec fn line_width(font: FontSize, chars: nat) -> nat {
    let metrics = metrics_of(font);
    let gaps = if chars == 0 {
        0
    } else {
        (chars - 1) as nat
    };
    chars * metrics.width as nat + gaps * metrics.spacing as nat
}

/// What is left of `whole` beside `part`; nothing if the part is the larger.
pub open spec fn slack(whole: nat, part: nat) -> nat {
    if whole >= part {
        (whole - part) as nat
    } else {
        0
    }
}

/// Where a line of text starts in a zone: aligned horizontally, centered
/// vertically, and never left of or above the zone.
pub open spec fn text_origin(rect: Rectangle, font: FontSize, align: Align, chars: nat) -> Point {
    let free = slack(rect.size.width as nat, line_width(font, chars));
    let shift = match align {
        Align::Left => 0,
        Align::Center => free / 2,
        Align::Right => free,
    };
    Point {
        x: (rect.top_left.x + shift) as i32,
        y: (rect.top_left.y + slack(rect.size.height as nat, metrics_of(font).height as nat) / 2)
            as i32,
    }
}

/// One drawing operation.
#[derive(Debug, PartialEq)]
pub enum DrawOp<C> {
    /// A line of text, its top left corner at `position`.
    Text { text: String, position: Point, font: FontSize, color: C },
    /// The one-pixel outline of a rectangle.
    Outline { rect: Rectangle, color: C },
    /// A filled rectangle.
    Fill { rect: Rectangle, color: C },
    /// A one-pixel line, both ends included.
    Line { from: Point, to: Point, color: C },
    /// The upper half of a one-pixel circle.
    HalfCircle { top_left: Point, diameter: u32, color: C },
    /// Single pixels.
    Dots { points: Vec<Point>, color: C },
}

/// The contents of a [`DrawOp`].
#[verifier::ext_equal]
pub enum DrawOpView<C> {
    Text { text: Seq<char>, position: Point, font: FontSize, color: C },
    Outline { rect: Rectangle, color: C },
    Fill { rect: Rectangle, color: C },
    Line { from: Point, to: Point, color: C },
    HalfCircle { top_left: Point, diameter: u32, color: C },
    Dots { points: Seq<Point>, color: C },
}

impl<C> View for DrawOp<C> {
    type V = DrawOpView<C>;

    open spec fn view(&self) -> DrawOpView<C> {
        match *self {
            DrawOp::Text { text, position, font, color } => DrawOpView::Text {
                text: text@,
                position,
                font,
                color,
            },
            DrawOp::Outline { rect, color } => DrawOpView::Outline { rect, color },
            DrawOp::Fill { rect, color } => DrawOpView::Fill { rect, color },
            DrawOp::Line { from, to, color } => DrawOpView::Line { from, to, color },
            DrawOp::HalfCircle { top_left, diameter, color } => DrawOpView::HalfCircle {
                top_left,
                diameter,
                color,
            },
            DrawOp::Dots { points, color } => DrawOpView::Dots { points: points@, color },
        }
    }
}

/// The contents of a list of operations.
pub open spec fn op_views<C>(ops: Seq<DrawOp<C>>) -> Seq<DrawOpView<C>> {
    ops.map_values(|op: DrawOp<C>| op@)
}

/// Where the value and the redline stand on a bar of [`bar_width`] pixels.
#[derive(Debug, Clone, Copy, PartialEq, Eq, Structural)]
pub struct BarMarks {
    /// Pixels the value fills, from the left.
    pub fill: u32,
    /// Pixels left of the redline mark.
    pub redline: i32,
    /// Whether the value has reached the redline.
    pub redline_reached: bool,
}

/// Where the value and the redline stand on a half-dial, as offsets from its
/// center.
#[derive(Debug, Clone, Copy, PartialEq, Eq, Structural)]
pub struct DialMarks {
    /// The direction of the needle, unless it rests at the range's start.
    pub sweep: Option<Needle>,
    pub redline_inner: Point,
    pub redline_outer: Point,
    /// The tip of the needle.
    pub tip: Point,
}

/// Positions of the value and the redline within a gauge.
#[derive(Debug, Clone, Copy, PartialEq, Eq, Structural)]
pub struct GaugeMarks {
    pub bar: BarMarks,
    pub dial: DialMarks,
}

/// The width in pixels inside a linear gauge's outline.
pub open spec fn inner_width(rect: Rectangle) -> nat {
    slack(rect.size.width as nat, 2)
}

/// The width in pixels inside a linear gauge's outline.
pub fn bar_width(rect: Rectangle) -> (width: u32)
    ensures
        width == inner_width(rect),
{
    rect.size.width.saturating_sub(2)
}

/// The distance an arc gauge keeps from its zone's edges.
pub open spec fn dial_margin(style: ArcGaugeStyle) -> int {
    match style {
        ArcGaugeStyle::Classic => 2,
        ArcGaugeStyle::Filled => 1,
    }
}

/// The radius of an arc gauge: as large as height and half the width allow.
pub open spec fn radius_in(rect: Rectangle, style: ArcGaugeStyle) -> int {
    let by_height = rect.size.height - dial_margin(style);
    let by_width = rect.size.width as int / 2 - dial_margin(style);
    if by_height <= by_width {
        by_height
    } else {
        by_width
    }
}

/// The radius of an arc gauge.
pub fn dial_radius(rect: Rectangle, style: ArcGaugeStyle) -> (radius: i32)
    requires
        rect.in_range(),
    ensures
        radius == radius_in(rect, style),
{
    let margin: i32 = match style {
        ArcGaugeStyle::Classic => 2,
        ArcGaugeStyle::Filled => 1,
    };
    let by_height: i32 = rect.size.height as i32 - margin;
    let by_width: i32 = (rect.size.width / 2) as i32 - margin;
    if by_height <= by_width {
        by_height
    } else {
        by_width
    }
}

/// The center of an arc gauge: the middle of the zone's bottom edge.
pub open spec fn dial_center(rect: Rectangle) -> Point {
    Point {
        x: (rect.top_left.x + rect.size.width as int / 2) as i32,
        y: (rect.top_left.y + rect.size.height - 1) as i32,
    }
}

/// A point at an offset.
pub open spec fn shifted(p: Point, by: Point) -> Point {
    Point { x: (p.x + by.x) as i32, y: (p.y + by.y) as i32 }
}

/// Whether an offset stays within a distance of the origin in each direction,
/// and on or above it.
pub open spec fn offset_within(p: Point, radius: int) -> bool {
    -radius <= p.x <= radius && -radius <= p.y <= 0
}

/// Whether `marks` are positions within the gauge that `widget` draws in `rect`.
pub open spec fn marks_fit(widget: WidgetConfig, rect: Rectangle, marks: GaugeMarks) -> bool {
    match widget {
        WidgetConfig::Text { .. } => true,
        WidgetConfig::GaugeLinear { .. } => marks.bar.fill <= inner_width(rect) && 0
            <= marks.bar.redline <= inner_width(rect),
        WidgetConfig::GaugeArc { style, .. } => {
            let radius = radius_in(rect, style);
            radius >= 4 ==> {
                &&& offset_within(marks.dial.redline_inner, radius)
                &&& offset_within(marks.dial.redline_outer, radius)
                &&& offset_within(marks.dial.tip, radius)
                &&& style == ArcGaugeStyle::Filled ==> radius <= 32768
                &&& marks.dial.sweep matches Some(needle) ==> needle.in_range()
            }
        },
    }
}

/// The operations that show a text widget.
pub open spec fn text_ops<C>(
    rect: Rectangle,
    palette: WidgetPalette<C>,
    template: Seq<char>,
    font: FontSize,
    align: Align,
    availability: Availability,
    value: Option<SensorValue>,
) -> Seq<DrawOpView<C>> {
    let text = substituted(template, "{{value}}"@, shown_text(availability, value));
    seq![
        DrawOpView::Text {
            text,
            position: text_origin(rect, font, align, text.len()),
            font,
            color: palette.foreground,
        },
    ]
}

/// The operations that show a linear gauge: an outline, the fill if there is a
/// value, and the redline mark, inverted where the fill has reached it so that
/// it stays visible.
pub open spec fn bar_ops<C>(
    rect: Rectangle,
    palette: WidgetPalette<C>,
    has_redline: bool,
    has_value: bool,
    marks: BarMarks,
) -> Seq<DrawOpView<C>> {
    let outline = seq![DrawOpView::Outline { rect, color: palette.foreground }];
    let fill = if has_value && marks.fill > 0 {
        seq![
            DrawOpView::Fill {
                rect: Rectangle {
                    top_left: shifted(rect.top_left, Point { x: 1, y: 1 }),
                    size: Size {
                        width: marks.fill,
                        height: slack(rect.size.height as nat, 2) as u32,
                    },
                },
                color: palette.foreground,
            },
        ]
    } else {
        Seq::empty()
    };
    let mark = if has_redline {
        let x = (rect.top_left.x + 1 + marks.redline) as i32;
        seq![
            DrawOpView::Line {
                from: Point { x, y: (rect.top_left.y + 1) as i32 },
                to: Point { x, y: (rect.top_left.y + rect.size.height - 2) as i32 },
                color: if has_value && marks.redline_reached {
                    palette.background
                } else {
                    palette.foreground
                },
            },
        ]
    } else {
        Seq::empty()
    };
    outline + fill + mark
}

/// The operations that show an arc gauge: the half circle, the dithered sweep
/// of the filled style, the redline mark, and the needle; nothing at all in a
/// zone too small for a legible dial.
pub open spec fn dial_ops<C>(
    rect: Rectangle,
    palette: WidgetPalette<C>,
    has_redline: bool,
    style: ArcGaugeStyle,
    has_value: bool,
    marks: DialMarks,
) -> Seq<DrawOpView<C>> {
    let radius = radius_in(rect, style);
    let center = dial_center(rect);
    if radius < 4 {
        Seq::empty()
    } else {
        let circle = seq![
            DrawOpView::HalfCircle {
                top_left: Point { x: (center.x - radius) as i32, y: (center.y - radius) as i32 },
                diameter: (2 * radius) as u32,
                color: palette.foreground,
            },
        ];
        let sweep = match marks.sweep {
            Some(needle) if style == ArcGaugeStyle::Filled && has_value => seq![
                DrawOpView::Dots {
                    points: sweep_dots(center, radius - 1, needle),
                    color: palette.dim,
                },
            ],
            _ => Seq::empty(),
        };
        let mark = if has_redline {
            seq![
                DrawOpView::Line {
                    from: shifted(center, marks.redline_inner),
                    to: shifted(center, marks.redline_outer),
                    color: palette.foreground,
                },
            ]
        } else {
            Seq::empty()
        };
        let needle = if has_value {
            seq![
                DrawOpView::Line {
                    from: center,
                    to: shifted(center, marks.tip),
                    color: palette.foreground,
                },
            ]
        } else {
            Seq::empty()
        };
        circle + sweep + mark + needle
    }
}

/// The operations that show a widget.
///
/// Gauges freeze at the last position rather than reacting to availability: a
/// stale reading still carries its last value, and the value is gone only once
/// the entity is unavailable.
pub open spec fn widget_ops<C>(
    widget: WidgetConfig,
    rect: Rectangle,
    palette: WidgetPalette<C>,
    availability: Availability,
    value: Option<SensorValue>,
    marks: GaugeMarks,
) -> Seq<DrawOpView<C>> {
    match widget {
        WidgetConfig::Text { template, font, align } => text_ops(
            rect,
            palette,
            template@,
            font,
            align,
            availability,
            value,
        ),
        WidgetConfig::GaugeLinear { redline, .. } => bar_ops(
            rect,
            palette,
            redline is Some,
            value is Some,
            marks.bar,
        ),
        WidgetConfig::GaugeArc { redline, style, .. } => dial_ops(
            rect,
            palette,
            redline is Some,
            style,
            value is Some,
            marks.dial,
        ),
    }
}

impl WidgetConfig {
    /// Validate this widget's own config, independent of zone geometry
    /// (callers wrap the message with zone context).
    pub fn validate(&self) -> (checked: Result<(), String>)
        ensures
            reports(checked, widget_fault(*self)),
    {
        match self {
            WidgetConfig::Text { template, .. } => {
                if !contains_text(template.as_str(), "{{value}}") {
                    return Err("text template must contain '{{value}}'".to_owned());
                }
                Ok(())
            },
            WidgetConfig::GaugeLinear { min, max, redline } => validate_gauge_range(
                *min,
                *max,
                *redline,
            ),
            WidgetConfig::GaugeArc { min, max, redline, .. } => validate_gauge_range(
                *min,
                *max,
                *redline,
            ),
        }
    }

    /// Whether `marks` are positions within the gauge this widget draws.
    pub fn accepts(&self, rect: Rectangle, marks: &GaugeMarks) -> (fit: bool)
        requires
            rect.in_range(),
        ensures
            fit == marks_fit(*self, rect, *marks),
    {
        match self {
            WidgetConfig::Text { .. } => true,
            WidgetConfig::GaugeLinear { .. } => {
                let width: u32 = bar_width(rect);
                marks.bar.fill <= width && 0 <= marks.bar.redline && marks.bar.redline as u32
                    <= width
            },
            WidgetConfig::GaugeArc { style, .. } => {
                let radius: i32 = dial_radius(rect, *style);
                radius < 4 || (is_offset_within(marks.dial.redline_inner, radius)
                    && is_offset_within(marks.dial.redline_outer, radius) && is_offset_within(
                    marks.dial.tip,
                    radius,
                ) && (*style != ArcGaugeStyle::Filled || radius <= 32768) && match marks.dial.sweep {
                    Some(needle) => -65536 <= needle.x && needle.x <= 65536 && -65536 <= needle.y
                        && needle.y <= 65536,
                    None => true,
                })
            },
        }
    }

    /// The operations that draw this widget's current state into `rect`. No
    /// hardware or chip knowledge: they suit any target.
    pub fn render<C: Copy>(
        &self,
        rect: Rectangle,
        palette: WidgetPalette<C>,
        availability: Availability,
        value: Option<SensorValue>,
        marks: &GaugeMarks,
    ) -> (ops: Vec<DrawOp<C>>)
        requires
            rect.in_range(),
            marks_fit(*self, rect, *marks),
        ensures
            op_views(ops@) == widget_ops(*self, rect, palette, availability, value, *marks),
    {
        match self {
            WidgetConfig::Text { template, font, align } => render_text(
                rect,
                palette,
                template.as_str(),
                *font,
                *align,
                availability,
                value,
            ),
            WidgetConfig::GaugeLinear { redline, .. } => render_gauge_linear(
                rect,
                palette,
                redline.is_some(),
                value.is_some(),
                marks.bar,
            ),
            WidgetConfig::GaugeArc { redline, style, .. } => render_gauge_arc(
                rect,
                palette,
                redline.is_some(),
                *style,
                value.is_some(),
                marks.dial,
            ),
        }
    }
}

fn is_offset_within(p: Point, radius: i32) -> (r: bool)
    requires
        radius >= 0,
    ensures
        r == offset_within(p, radius as int),
{
    -radius <= p.x && p.x <= radius && -radius <= p.y && p.y <= 0
}

fn render_text<C: Copy>(
    rect: Rectangle,
    palette: WidgetPalette<C>,
    template: &str,
    font: FontSize,
    align: Align,
    availability: Availability,
    value: Option<SensorValue>,
) -> (ops: Vec<DrawOp<C>>)
    requires
        rect.in_range(),
    ensures
        op_views(ops@) == text_ops(rect, palette, template@, font, align, availability, value),
{
    proof {
        reveal_strlit("{{value}}");
    }
    let text: String = substitute(
        template,
        "{{value}}",
        value_text(availability, value).as_str(),
    );
    let metrics: FontMetrics = font_metrics(font);
    let chars: usize = text.as_str().unicode_len();
    let gaps: usize = chars.saturating_sub(1);
    assert(0 <= chars * metrics.width <= 0x1_0000_0000_0000_0000 * 0x1_0000_0000) by (nonlinear_arith)
        requires
            0 <= metrics.width < 0x1_0000_0000,
            0 <= chars < 0x1_0000_0000_0000_0000,
    ;
    assert(0 <= gaps * metrics.spacing <= 0x1_0000_0000_0000_0000 * 0x1_0000_0000) by (nonlinear_arith)
        requires
            0 <= metrics.spacing < 0x1_0000_0000,
            0 <= gaps < 0x1_0000_0000_0000_0000,
    ;
    let line: u128 = chars as u128 * metrics.width as u128 + gaps as u128 * metrics.spacing as u128;
    assert(line == line_width(font, text@.len()));
    let free: i32 = if rect.size.width as u128 >= line {
        (rect.size.width as u128 - line) as i32
    } else {
        0
    };
    let shift: i32 = match align {
        Align::Left => 0,
        Align::Center => free / 2,
        Align::Right => free,
    };
    let x: i32 = rect.top_left.x + shift;
    let y: i32 = rect.top_left.y + (rect.size.height.saturating_sub(metrics.height) / 2) as i32;
    let mut ops: Vec<DrawOp<C>> = Vec::new();
    ops.push(
        DrawOp::Text { text, position: Point { x, y }, font, color: palette.foreground },
    );
    assert(op_views(ops@) =~= text_ops(
        rect,
        palette,
        template@,
        font,
        align,
        availability,
        value,
    ));
    ops
}

fn render_gauge_linear<C: Copy>(
    rect: Rectangle,
    palette: WidgetPalette<C>,
    has_redline: bool,
    has_value: bool,
    marks: BarMarks,
) -> (ops: Vec<DrawOp<C>>)
    requires
        rect.in_range(),
        0 <= marks.redline <= inner_width(rect),
    ensures
        op_views(ops@) == bar_ops(rect, palette, has_redline, has_value, marks),
{
    let mut ops: Vec<DrawOp<C>> = Vec::new();
    ops.push(DrawOp::Outline { rect, color: palette.foreground });
    if has_value && marks.fill > 0 {
        ops.push(
            DrawOp::Fill {
                rect: Rectangle {
                    top_left: Point { x: rect.top_left.x + 1, y: rect.top_left.y + 1 },
                    size: Size {
                        width: marks.fill,
                        height: rect.size.height.saturating_sub(2),
                    },
                },
                color: palette.foreground,
            },
        );
    }
    if has_redline {
        let x: i32 = rect.top_left.x + 1 + marks.redline;
        let color: C = if has_value && marks.redline_reached {
            palette.background
        } else {
            palette.foreground
        };
        ops.push(
            DrawOp::Line {
                from: Point { x, y: rect.top_left.y + 1 },
                to: Point { x, y: rect.top_left.y + rect.size.height as i32 - 2 },
                color,
            },
        );
    }
    assert(op_views(ops@) =~= bar_ops(rect, palette, has_redline, has_value, marks));
    ops
}

fn render_gauge_arc<C: Copy>(
    rect: Rectangle,
    palette: WidgetPalette<C>,
    has_redline: bool,
    style: ArcGaugeStyle,
    has_value: bool,
    marks: DialMarks,
) -> (ops: Vec<DrawOp<C>>)
    requires
        rect.in_range(),
        radius_in(rect, style) >= 4 ==> {
            let radius = radius_in(rect, style);
            &&& offset_within(marks.redline_inner, radius)
            &&& offset_within(marks.redline_outer, radius)
            &&& offset_within(marks.tip, radius)
            &&& style == ArcGaugeStyle::Filled ==> radius <= 32768
            &&& marks.sweep matches Some(needle) ==> needle.in_range()
        },
    ensures
        op_views(ops@) == dial_ops(rect, palette, has_redline, style, has_value, marks),
{
    let mut ops: Vec<DrawOp<C>> = Vec::new();
    let radius: i32 = dial_radius(rect, style);
    if radius < 4 {
        assert(op_views(ops@) =~= dial_ops(rect, palette, has_redline, style, has_value, marks));
        return ops;
    }
    let center: Point = Point {
        x: rect.top_left.x + (rect.size.width / 2) as i32,
        y: rect.top_left.y + rect.size.height as i32 - 1,
    };
    ops.push(
        DrawOp::HalfCircle {
            top_left: Point { x: center.x - radius, y: center.y - radius },
            diameter: (radius * 2) as u32,
            color: palette.foreground,
        },
    );
    if style == ArcGaugeStyle::Filled && has_value {
        if let Some(needle) = marks.sweep {
            let points: Vec<Point> = dithered_sweep(center, radius - 1, needle);
            ops.push(DrawOp::Dots { points, color: palette.dim });
        }
    }
    if has_redline {
        ops.push(
            DrawOp::Line {
                from: Point {
                    x: center.x + marks.redline_inner.x,
                    y: center.y + marks.redline_inner.y,
                },
                to: Point {
                    x: center.x + marks.redline_outer.x,
                    y: center.y + marks.redline_outer.y,
                },
                color: palette.foreground,
            },
        );
    }
    if has_value {
        ops.push(
            DrawOp::Line {
                from: center,
                to: Point { x: center.x + marks.tip.x, y: center.y + marks.tip.y },
                color: palette.foreground,
            },
        );
    }
    assert(op_views(ops@) =~= dial_ops(rect, palette, has_redline, style, has_value, marks));
    ops
}

/// A text widget never shows a last-known value: a stale or unavailable source
/// looks the same as one that was never read.
pub proof fn law_text_never_freezes<C>(
    template: String,
    font: FontSize,
    align: Align,
    rect: Rectangle,
    palette: WidgetPalette<C>,
    availability: Availability,
    value: Option<SensorValue>,
    marks: GaugeMarks,
)
    requires
        availability != Availability::Online,
    ensures
        widget_ops(
            WidgetConfig::Text { template, font, align },
            rect,
            palette,
            availability,
            value,
            marks,
        ) == widget_ops(
            WidgetConfig::Text { template, font, align },
            rect,
            palette,
            Availability::Unavailable,
            None,
            marks,
        ),
{
}

/// A gauge shows a value the same way whatever the availability: it freezes at
/// the last position for as long as there is a value.
pub proof fn law_gauges_freeze<C>(
    widget: WidgetConfig,
    rect: Rectangle,
    palette: WidgetPalette<C>,
    a: Availability,
    b: Availability,
    value: Option<SensorValue>,
    marks: GaugeMarks,
)
    requires
        !(widget is Text),
    ensures
        widget_ops(widget, rect, palette, a, value, marks) == widget_ops(
            widget,
            rect,
            palette,
            b,
            value,
            marks,
        ),
{
}

/// Without a value, a gauge shows nothing of where the value last stood.
pub proof fn law_gauges_hide_without_value<C>(
    widget: WidgetConfig,
    rect: Rectangle,
    palette: WidgetPalette<C>,
    availability: Availability,
    bar: BarMarks,
    dial: DialMarks,
    marks: GaugeMarks,
)
    requires
        !(widget is Text),
        bar.redline == marks.bar.redline,
        dial.redline_inner == marks.dial.redline_inner,
        dial.redline_outer == marks.dial.redline_outer,
    ensures
        widget_ops(widget, rect, palette, availability, None, marks) == widget_ops(
            widget,
            rect,
            palette,
            availability,
            None,
            GaugeMarks { bar, dial },
        ),
{
    let other = GaugeMarks { bar, dial };
    assert(widget_ops(widget, rect, palette, availability, None, marks) =~= widget_ops(
        widget,
        rect,
        palette,
        availability,
        None,
        other,
    ));
}

/// What an accepted text widget draws contains the value, or the placeholder for
/// a missing one.
pub proof fn law_accepted_text_shows_value<C>(
    template: String,
    font: FontSize,
    align: Align,
    rect: Rectangle,
    palette: WidgetPalette<C>,
    availability: Availability,
    value: Option<SensorValue>,
    marks: GaugeMarks,
)
    requires
        widget_fault(WidgetConfig::Text { template, font, align }) is None,
    ensures
        ({
            let ops = widget_ops(
                WidgetConfig::Text { template, font, align },
                rect,
                palette,
                availability,
                value,
                marks,
            );
            &&& ops.len() == 1
            &&& ops[0] matches DrawOpView::Text { text, .. }
            &&& occurs(text, shown_text(availability, value))
        }),
{
    reveal_strlit("{{value}}");
    law_substituted_text_occurs(template@, "{{value}}"@, shown_text(availability, value));
}

/// A bar's fill and redline mark stay inside the zone.
pub proof fn law_bar_fits_zone(rect: Rectangle, marks: BarMarks, x: int, y: int)
    requires
        rect.in_range(),
        marks.fill <= inner_width(rect),
        0 <= marks.redline <= inner_width(rect),
        rect.size.width >= 2,
        rect.size.height >= 2,
    ensures
        ({
            let fill = Rectangle {
                top_left: shifted(rect.top_left, Point { x: 1, y: 1 }),
                size: Size {
                    width: marks.fill,
                    height: slack(rect.size.height as nat, 2) as u32,
                },
            };
            fill.covers(x, y) ==> rect.covers(x, y)
        }),
        rect.covers(rect.top_left.x + 1 + marks.redline, rect.top_left.y + 1),
        rect.size.height >= 3 ==> rect.covers(
            rect.top_left.x + 1 + marks.redline,
            rect.top_left.y + rect.size.height - 2,
        ),
{
}

/// The upper half disc around a dial's center, with the sweep, the redline mark and
/// the needle on it, stays inside the zone.
pub proof fn law_dial_fits_zone(rect: Rectangle, style: ArcGaugeStyle, p: Point)
    requires
        rect.in_range(),
        radius_in(rect, style) >= 4,
        offset_within(p, radius_in(rect, style)),
    ensures
        rect.covers(shifted(dial_center(rect), p).x as int, shifted(dial_center(rect), p).y as int),
{
}

} // verus!
