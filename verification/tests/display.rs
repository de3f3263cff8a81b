use embedded_graphics::draw_target::{DrawTarget, DrawTargetExt};
use embedded_graphics::geometry::{AngleUnit, OriginDimensions};
use embedded_graphics::mock_display::MockDisplay;
use embedded_graphics::mono_font::ascii::{FONT_10X20, FONT_6X10, FONT_8X13};
use embedded_graphics::mono_font::{MonoFont, MonoTextStyle};
use embedded_graphics::pixelcolor::{BinaryColor, PixelColor, Rgb565, RgbColor};
use embedded_graphics::primitives::{Arc, Line, Primitive, PrimitiveStyle};
use embedded_graphics::text::{Baseline, Text};
use embedded_graphics::{Drawable, Pixel};

use firmware::drivers::display::compositor::{
    validate_layout, zone_entities, Compositor, TickAction, TickEvent, ZoneConfig,
};
use firmware::drivers::display::generic::{FlushAction, FlushEvent, GenericDisplayDriver};
use firmware::drivers::display::geometry::{Point, Rectangle, Size};
use firmware::drivers::display::scratch::ZoneScratch;
use firmware::drivers::display::sweep::{dithered_sweep, Needle};
use firmware::drivers::display::widgets::{
    bar_width, dial_radius, font_metrics, value_text, Align, ArcGaugeStyle, BarMarks, DialMarks,
    DrawOp, FontMetrics, FontSize, GaugeMarks, WidgetConfig, WidgetPalette,
};
use firmware::entities::state::Availability;
use firmware::entities::{
    ActuatorCommand, ActuatorType, Entity, EntityId, EntityType, SensorValue,
};
use firmware::error::DriverError;
use firmware::ieee::{Binary32, Binary64};
use firmware::time::{Duration, Instant};

fn number(x: f64) -> Binary64 {
    Binary64::from_bits(x.to_bits())
}

fn as_f64(x: Binary64) -> f64 {
    f64::from_bits(x.to_bits())
}

fn speed(v: f32) -> SensorValue {
    SensorValue::Speed(Binary32::from_bits(v.to_bits()))
}

fn mono_palette() -> WidgetPalette<BinaryColor> {
    WidgetPalette {
        foreground: BinaryColor::On,
        background: BinaryColor::Off,
        dim: BinaryColor::On,
    }
}

fn color_palette() -> WidgetPalette<Rgb565> {
    WidgetPalette {
        foreground: Rgb565::WHITE,
        background: Rgb565::BLACK,
        dim: Rgb565::new(8, 16, 8),
    }
}

fn value_as_f64(value: SensorValue) -> f64 {
    match value {
        SensorValue::Rpm(v) => f64::from(v),
        SensorValue::Speed(v) => f64::from(f32::from_bits(v.to_bits())),
    }
}

fn offset(t: f64, length: f64) -> Point {
    let phi = (180.0 * (1.0 - t)).to_radians();
    Point::new((length * phi.cos()) as i32, (length * -phi.sin()) as i32)
}

/// Where a value and a redline stand on the gauge that a widget draws.
fn marks(widget: &WidgetConfig, rect: Rectangle, value: Option<SensorValue>) -> GaugeMarks {
    let mut marks = GaugeMarks {
        bar: BarMarks {
            fill: 0,
            redline: 0,
            redline_reached: false,
        },
        dial: DialMarks {
            sweep: None,
            redline_inner: Point::new(0, 0),
            redline_outer: Point::new(0, 0),
            tip: Point::new(0, 0),
        },
    };
    let position = |x: f64, min: f64, max: f64| ((x - min) / (max - min)).clamp(0.0, 1.0);
    match widget {
        WidgetConfig::Text { .. } => {}
        WidgetConfig::GaugeLinear { min, max, redline } => {
            let (min, max) = (as_f64(*min), as_f64(*max));
            let width = f64::from(bar_width(rect));
            let fraction = value.map(|v| position(value_as_f64(v), min, max));
            if let Some(t) = fraction {
                marks.bar.fill = (width * t) as u32;
            }
            if let Some(r) = redline {
                let t_red = position(as_f64(*r), min, max);
                marks.bar.redline = (width * t_red) as i32;
                marks.bar.redline_reached = fraction.is_some_and(|t| t >= t_red);
            }
        }
        WidgetConfig::GaugeArc {
            min,
            max,
            redline,
            style,
        } => {
            let (min, max) = (as_f64(*min), as_f64(*max));
            let radius = f64::from(dial_radius(rect, *style));
            if let Some(t) = value.map(|v| position(value_as_f64(v), min, max)) {
                if t > 0.0 {
                    let phi = (180.0 * (1.0 - t)).to_radians();
                    marks.dial.sweep = Some(Needle {
                        x: (phi.cos() * 65536.0) as i64,
                        y: (phi.sin() * 65536.0) as i64,
                    });
                }
                marks.dial.tip = offset(t, radius - 1.0);
            }
            if let Some(r) = redline {
                let t_red = position(as_f64(*r), min, max);
                marks.dial.redline_inner = offset(t_red, 0.8 * radius);
                marks.dial.redline_outer = offset(t_red, radius);
            }
        }
    }
    assert!(rect.is_in_range());
    assert!(widget.accepts(rect, &marks));
    marks
}

fn eg_point(p: Point) -> embedded_graphics::geometry::Point {
    embedded_graphics::geometry::Point::new(p.x, p.y)
}

fn eg_rectangle(r: Rectangle) -> embedded_graphics::primitives::Rectangle {
    embedded_graphics::primitives::Rectangle::new(
        eg_point(r.top_left),
        embedded_graphics::geometry::Size::new(r.size.width, r.size.height),
    )
}

fn draw_op<D: DrawTarget>(target: &mut D, op: &DrawOp<D::Color>) -> Result<(), D::Error> {
    match op {
        DrawOp::Text {
            text,
            position,
            font,
            color,
        } => {
            let font: &MonoFont = match font {
                FontSize::Small => &FONT_6X10,
                FontSize::Medium => &FONT_8X13,
                FontSize::Large => &FONT_10X20,
            };
            Text::with_baseline(
                text,
                eg_point(*position),
                MonoTextStyle::new(font, *color),
                Baseline::Top,
            )
            .draw(target)?;
            Ok(())
        }
        DrawOp::Outline { rect, color } => eg_rectangle(*rect)
            .into_styled(PrimitiveStyle::with_stroke(*color, 1))
            .draw(target),
        DrawOp::Fill { rect, color } => eg_rectangle(*rect)
            .into_styled(PrimitiveStyle::with_fill(*color))
            .draw(target),
        DrawOp::Line { from, to, color } => Line::new(eg_point(*from), eg_point(*to))
            .into_styled(PrimitiveStyle::with_stroke(*color, 1))
            .draw(target),
        DrawOp::HalfCircle {
            top_left,
            diameter,
            color,
        } => Arc::new(eg_point(*top_left), *diameter, 0.0.deg(), 180.0.deg())
            .into_styled(PrimitiveStyle::with_stroke(*color, 1))
            .draw(target),
        DrawOp::Dots { points, color } => {
            target.draw_iter(points.iter().map(|p| Pixel(eg_point(*p), *color)))
        }
    }
}

fn draw_ops<D: DrawTarget>(target: &mut D, ops: &[DrawOp<D::Color>]) -> Result<(), D::Error> {
    ops.iter().try_for_each(|op| draw_op(target, op))
}

/// The scratch buffer as a draw target.
struct ScratchTarget<'a, C>(&'a mut ZoneScratch<C>);

impl<C: PixelColor> OriginDimensions for ScratchTarget<'_, C> {
    fn size(&self) -> embedded_graphics::geometry::Size {
        let size = self.0.size();
        embedded_graphics::geometry::Size::new(size.width, size.height)
    }
}

impl<C: PixelColor> DrawTarget for ScratchTarget<'_, C> {
    type Color = C;
    type Error = core::convert::Infallible;

    fn draw_iter<I>(&mut self, pixels: I) -> Result<(), Self::Error>
    where
        I: IntoIterator<Item = Pixel<C>>,
    {
        for Pixel(p, color) in pixels {
            self.0.draw_pixel(Point::new(p.x, p.y), color);
        }
        Ok(())
    }
}

fn draw_zone<D: DrawTarget>(
    target: &mut D,
    compositor: &mut Compositor<D::Color>,
    i: usize,
) -> Result<(), D::Error> {
    let zone = &compositor.zones[i];
    let area = eg_rectangle(zone.rect);
    let marks = marks(&zone.widget, zone.rect, zone.staged.1);
    let (frame, buffered) = compositor.render_staged(i, &marks);
    assert_eq!(buffered, compositor.scratch.is_some());
    if buffered {
        let scratch = compositor.scratch.as_mut().unwrap();
        let mut buffer = ScratchTarget(scratch);
        let Ok(()) = draw_ops(&mut buffer.translated(-area.top_left), &frame.ops);
        target.fill_contiguous(&area, scratch.pixels().iter().copied())
    } else {
        target.fill_solid(&area, frame.background)?;
        draw_ops(&mut target.clipped(&area), &frame.ops)
    }
}

/// A whole tick.
fn tick<D: DrawTarget>(
    compositor: &mut Compositor<D::Color>,
    target: &mut D,
    now: Instant,
) -> Result<(), D::Error> {
    let mut action = compositor.tick(TickEvent::Start(now));
    while let TickAction::DrawZone(i) = action {
        draw_zone(target, compositor, i)?;
        action = compositor.tick(TickEvent::ZoneDrawn(i));
    }
    Ok(())
}

fn mock_display() -> MockDisplay<BinaryColor> {
    let mut display = MockDisplay::new();
    display.set_allow_overdraw(true);
    display
}

/// Renders `widget` onto a fresh `MockDisplay`, for pixel-level comparison.
fn render_to_mock(
    widget: &WidgetConfig,
    rect: Rectangle,
    availability: Availability,
    value: Option<SensorValue>,
) -> MockDisplay<BinaryColor> {
    let mut display = mock_display();
    display.set_allow_out_of_bounds_drawing(true);
    let marks = marks(widget, rect, value);
    let ops = widget.render(rect, mono_palette(), availability, value, &marks);
    draw_ops(&mut display, &ops).unwrap();
    display
}

fn rect(x: i32, y: i32, width: u32, height: u32) -> Rectangle {
    Rectangle::new(Point::new(x, y), Size::new(width, height))
}

fn at(millis: u64) -> Instant {
    Instant::at(Duration::from_millis(5_000 + millis))
}

fn declared() -> Entity {
    Entity {
        id: "gateway.display".parse().unwrap(),
        entity_type: EntityType::Actuator(ActuatorType::DisplayPanel),
        name: None,
    }
}

fn text(template: &str) -> WidgetConfig {
    WidgetConfig::Text {
        template: template.to_owned(),
        font: Default::default(),
        align: Default::default(),
    }
}

fn text_zone(id: &str, x: u32, y: u32, width: u32, height: u32) -> ZoneConfig {
    ZoneConfig {
        id: id.to_owned(),
        x,
        y,
        width,
        height,
        widget: text("{{value}}"),
    }
}

// Widgets.

#[test]
fn value_text_is_placeholder_unless_online_with_a_value() {
    assert_eq!(
        value_text(Availability::Online, Some(SensorValue::Rpm(4200))),
        "4200"
    );
    assert_eq!(
        value_text(Availability::Stale, Some(SensorValue::Rpm(4200))),
        "--"
    );
    assert_eq!(value_text(Availability::Unavailable, None), "--");
}

#[test]
fn text_validate_requires_value_placeholder() {
    let widget = WidgetConfig::Text {
        template: "Speed".to_owned(),
        font: FontSize::default(),
        align: Align::default(),
    };
    assert!(widget.validate().unwrap_err().contains("{{value}}"));
}

#[test]
fn gauge_validate_requires_min_less_than_max_and_redline_in_range() {
    assert!(WidgetConfig::GaugeLinear {
        min: number(5.0),
        max: number(5.0),
        redline: None
    }
    .validate()
    .is_err());
    assert!(WidgetConfig::GaugeArc {
        min: number(0.0),
        max: number(100.0),
        redline: Some(number(200.0)),
        style: ArcGaugeStyle::default()
    }
    .validate()
    .is_err());
    assert!(WidgetConfig::GaugeLinear {
        min: number(0.0),
        max: number(100.0),
        redline: Some(number(80.0))
    }
    .validate()
    .is_ok());
}

#[test]
fn arc_style_defaults_to_classic_and_accepts_0_or_1() {
    assert_eq!(ArcGaugeStyle::default(), ArcGaugeStyle::Classic);
    for (style, expected) in [(0, ArcGaugeStyle::Classic), (1, ArcGaugeStyle::Filled)] {
        assert_eq!(ArcGaugeStyle::try_from(style), Ok(expected));
    }
}

#[test]
fn rejects_unknown_arc_style() {
    let err = ArcGaugeStyle::try_from(2).unwrap_err();
    assert!(err.contains("style must be 0 or 1"), "{err}");
    assert_eq!(err, "gauge_arc style must be 0 or 1, got 2");
}

#[test]
fn all_widgets_render_on_a_monochrome_target() {
    let mut display = MockDisplay::<BinaryColor>::new();
    display.set_allow_overdraw(true);
    display.set_allow_out_of_bounds_drawing(true);
    let rect = rect(0, 0, 60, 32);

    for widget in [
        WidgetConfig::Text {
            template: "RPM: {{value}}".to_owned(),
            font: FontSize::Small,
            align: Align::Center,
        },
        WidgetConfig::GaugeLinear {
            min: number(0.0),
            max: number(100.0),
            redline: Some(number(80.0)),
        },
        WidgetConfig::GaugeArc {
            min: number(0.0),
            max: number(100.0),
            redline: Some(number(80.0)),
            style: ArcGaugeStyle::Classic,
        },
        WidgetConfig::GaugeArc {
            min: number(0.0),
            max: number(100.0),
            redline: Some(number(80.0)),
            style: ArcGaugeStyle::Filled,
        },
    ] {
        let value = Some(SensorValue::Rpm(50));
        let marks = marks(&widget, rect, value);
        let ops = widget.render(rect, mono_palette(), Availability::Online, value, &marks);
        draw_ops(&mut display, &ops).unwrap();
    }
}

#[test]
fn all_widgets_render_on_a_color_target() {
    let mut display = MockDisplay::<Rgb565>::new();
    display.set_allow_overdraw(true);
    display.set_allow_out_of_bounds_drawing(true);
    let rect = rect(0, 0, 60, 32);

    for widget in [
        WidgetConfig::Text {
            template: "Speed: {{value}}".to_owned(),
            font: FontSize::Medium,
            align: Align::Right,
        },
        WidgetConfig::GaugeLinear {
            min: number(0.0),
            max: number(100.0),
            redline: None,
        },
        WidgetConfig::GaugeArc {
            min: number(0.0),
            max: number(100.0),
            redline: Some(number(80.0)),
            style: ArcGaugeStyle::Filled,
        },
    ] {
        let value = Some(speed(42.0));
        let marks = marks(&widget, rect, value);
        let ops = widget.render(rect, color_palette(), Availability::Online, value, &marks);
        draw_ops(&mut display, &ops).unwrap();
    }
}

#[test]
fn text_shows_a_placeholder_for_stale_and_unavailable_instead_of_freezing() {
    let widget = WidgetConfig::Text {
        template: "{{value}}".to_owned(),
        font: FontSize::Small,
        align: Align::Left,
    };
    let rect = rect(0, 0, 60, 16);

    let online = render_to_mock(
        &widget,
        rect,
        Availability::Online,
        Some(SensorValue::Rpm(4200)),
    );
    let stale = render_to_mock(
        &widget,
        rect,
        Availability::Stale,
        Some(SensorValue::Rpm(4200)),
    );
    let unavailable = render_to_mock(&widget, rect, Availability::Unavailable, None);

    assert_ne!(
        online, stale,
        "text must show a placeholder, not the frozen last value, once stale"
    );
    assert_eq!(
        stale, unavailable,
        "stale and unavailable render the same '--' placeholder for text"
    );
}

#[test]
fn gauge_linear_freezes_at_the_last_position_when_stale_and_hides_when_unavailable() {
    let widget = WidgetConfig::GaugeLinear {
        min: number(0.0),
        max: number(100.0),
        redline: None,
    };
    let rect = rect(0, 0, 40, 16);

    let online = render_to_mock(
        &widget,
        rect,
        Availability::Online,
        Some(SensorValue::Rpm(80)),
    );
    let stale = render_to_mock(
        &widget,
        rect,
        Availability::Stale,
        Some(SensorValue::Rpm(80)),
    );
    let unavailable = render_to_mock(&widget, rect, Availability::Unavailable, None);

    assert_eq!(
        online, stale,
        "a stale reading freezes the fill at its last position, unchanged"
    );
    assert_ne!(
        online, unavailable,
        "an unavailable reading (no value) must not show a frozen fill"
    );
}

#[test]
fn gauge_arc_freezes_at_the_last_position_when_stale_and_hides_when_unavailable() {
    for style in [ArcGaugeStyle::Classic, ArcGaugeStyle::Filled] {
        let widget = WidgetConfig::GaugeArc {
            min: number(0.0),
            max: number(100.0),
            redline: Some(number(80.0)),
            style,
        };
        let rect = rect(0, 0, 60, 32);

        let online = render_to_mock(
            &widget,
            rect,
            Availability::Online,
            Some(SensorValue::Rpm(50)),
        );
        let stale = render_to_mock(
            &widget,
            rect,
            Availability::Stale,
            Some(SensorValue::Rpm(50)),
        );
        let unavailable = render_to_mock(&widget, rect, Availability::Unavailable, None);

        assert_eq!(
            online, stale,
            "a stale reading freezes the needle at its last position ({style:?})"
        );
        assert_ne!(
            online, unavailable,
            "an unavailable reading (no value) must not show a frozen needle ({style:?})"
        );
    }
}

#[test]
fn font_metrics_are_those_of_the_fonts() {
    for (font, mono) in [
        (FontSize::Small, &FONT_6X10),
        (FontSize::Medium, &FONT_8X13),
        (FontSize::Large, &FONT_10X20),
    ] {
        assert_eq!(
            font_metrics(font),
            FontMetrics {
                width: mono.character_size.width,
                height: mono.character_size.height,
                spacing: mono.character_spacing,
            }
        );
    }
    assert_eq!(font_metrics(FontSize::Small).height, 10);
    assert_eq!(font_metrics(FontSize::Medium).width, 8);
    assert_eq!(font_metrics(FontSize::Large).width, 10);
}

#[test]
fn text_is_aligned_and_centered() {
    let widget = |font, align| WidgetConfig::Text {
        template: "v={{value}}".to_owned(),
        font,
        align,
    };
    let position = |font, align, rect: Rectangle| {
        let widget = widget(font, align);
        let value = Some(SensorValue::Rpm(42));
        let marks = marks(&widget, rect, value);
        let ops = widget.render(rect, mono_palette(), Availability::Online, value, &marks);
        assert_eq!(ops.len(), 1);
        match &ops[0] {
            DrawOp::Text { text, position, .. } => {
                assert_eq!(text, "v=42");
                *position
            }
            other => panic!("{other:?}"),
        }
    };
    let zone = rect(10, 20, 60, 32);
    assert_eq!(
        position(FontSize::Small, Align::Left, zone),
        Point::new(10, 31)
    );
    assert_eq!(
        position(FontSize::Small, Align::Center, zone),
        Point::new(28, 31)
    );
    assert_eq!(
        position(FontSize::Small, Align::Right, zone),
        Point::new(46, 31)
    );
    // Too long or too high for the zone: starts at its corner.
    assert_eq!(
        position(FontSize::Large, Align::Right, rect(1, 2, 30, 16)),
        Point::new(1, 2)
    );
}

#[test]
fn a_bar_shows_fill_and_redline() {
    let widget = WidgetConfig::GaugeLinear {
        min: number(0.0),
        max: number(100.0),
        redline: Some(number(80.0)),
    };
    let zone = rect(5, 6, 42, 10);
    let render = |value| {
        let marks = marks(&widget, zone, value);
        widget.render(zone, mono_palette(), Availability::Online, value, &marks)
    };
    let outline = DrawOp::Outline {
        rect: zone,
        color: BinaryColor::On,
    };
    let mark = |color| DrawOp::Line {
        from: Point::new(38, 7),
        to: Point::new(38, 14),
        color,
    };
    let fill = |width| DrawOp::Fill {
        rect: rect(6, 7, width, 8),
        color: BinaryColor::On,
    };
    assert_eq!(
        render(Some(SensorValue::Rpm(50))),
        vec![
            DrawOp::Outline {
                rect: zone,
                color: BinaryColor::On,
            },
            fill(20),
            mark(BinaryColor::On)
        ]
    );
    assert_eq!(
        render(Some(SensorValue::Rpm(90))),
        vec![
            DrawOp::Outline {
                rect: zone,
                color: BinaryColor::On,
            },
            fill(36),
            mark(BinaryColor::Off)
        ],
        "inverted where the fill has passed it"
    );
    assert_eq!(render(None), vec![outline, mark(BinaryColor::On)]);
}

#[test]
fn a_dial_needs_room() {
    let widget = WidgetConfig::GaugeArc {
        min: number(0.0),
        max: number(100.0),
        redline: None,
        style: ArcGaugeStyle::Classic,
    };
    let render = |zone| {
        let value = Some(SensorValue::Rpm(100));
        let marks = marks(&widget, zone, value);
        widget.render(zone, mono_palette(), Availability::Online, value, &marks)
    };
    assert_eq!(render(rect(0, 0, 11, 32)), vec![], "radius below 4");
    assert_eq!(
        render(rect(0, 0, 12, 32)),
        vec![
            DrawOp::HalfCircle {
                top_left: Point::new(2, 27),
                diameter: 8,
                color: BinaryColor::On,
            },
            DrawOp::Line {
                from: Point::new(6, 31),
                to: Point::new(9, 31),
                color: BinaryColor::On,
            },
        ]
    );
    assert_eq!(dial_radius(rect(0, 0, 60, 32), ArcGaugeStyle::Classic), 28);
    assert_eq!(dial_radius(rect(0, 0, 60, 32), ArcGaugeStyle::Filled), 29);
    assert_eq!(dial_radius(rect(0, 0, 200, 32), ArcGaugeStyle::Filled), 31);
    assert_eq!(bar_width(rect(0, 0, 1, 1)), 0);
}

#[test]
fn a_sweep_is_a_checkerboard_up_to_the_needle() {
    // Needle straight up: the left quarter, and the column above the center.
    let up = Needle { x: 0, y: 65536 };
    assert_eq!(
        dithered_sweep(Point::new(10, 10), 2, up),
        vec![
            Point::new(10, 8),
            Point::new(9, 9),
            Point::new(8, 10),
        ]
    );
    // Needle at the far right: everything.
    let right = Needle { x: 65536, y: 0 };
    assert_eq!(
        dithered_sweep(Point::new(10, 10), 2, right),
        vec![
            Point::new(10, 8),
            Point::new(9, 9),
            Point::new(11, 9),
            Point::new(8, 10),
            Point::new(12, 10),
        ]
    );
    assert_eq!(dithered_sweep(Point::new(0, 0), 0, right), vec![]);
}

#[test]
fn messages_of_widget_faults() {
    let gauge = |min: f64, max: f64, redline: Option<f64>| {
        WidgetConfig::GaugeLinear {
            min: number(min),
            max: number(max),
            redline: redline.map(number),
        }
        .validate()
    };
    assert_eq!(gauge(5.0, 5.0, None), Err("gauge needs min < max".to_owned()));
    assert_eq!(gauge(6.0, 5.0, None), Err("gauge needs min < max".to_owned()));
    assert_eq!(gauge(-0.0, 0.0, None), Err("gauge needs min < max".to_owned()));
    for outside in [-0.5, 10.5, f64::INFINITY] {
        assert_eq!(
            gauge(0.0, 10.0, Some(outside)),
            Err("redline must lie within min..=max".to_owned())
        );
    }
    for inside in [0.0, -0.0, 10.0, 3.5] {
        assert_eq!(gauge(0.0, 10.0, Some(inside)), Ok(()));
    }
    // Comparisons with a NaN are false, as for any floats.
    assert_eq!(gauge(f64::NAN, 1.0, Some(f64::NAN)), Ok(()));
    assert_eq!(gauge(-5.0, -1.0, Some(-3.0)), Ok(()));
    assert_eq!(
        text("RPM {value}").validate(),
        Err("text template must contain '{{value}}'".to_owned())
    );
    assert_eq!(text("a{{value}}b{{value}}").validate(), Ok(()));
}

// Layouts.

#[test]
fn zones_expand_to_dotted_display_region_entities() {
    let layout = vec![
        text_zone("top", 0, 0, 128, 40),
        text_zone("bottom", 0, 40, 128, 24),
    ];
    let entities = zone_entities(&declared(), &layout).unwrap();
    assert_eq!(entities.len(), 2);
    assert_eq!(entities[0].id.to_string(), "gateway.display.top");
    assert_eq!(entities[1].id.to_string(), "gateway.display.bottom");
    assert!(entities
        .iter()
        .all(|e| e.entity_type == EntityType::Actuator(ActuatorType::DisplayRegion)));
}

#[test]
fn zone_count_is_config_driven_not_fixed() {
    let layout: Vec<_> = (0..4)
        .map(|i| text_zone(&format!("z{i}"), 0, i * 16, 128, 16))
        .collect();
    let entities = zone_entities(&declared(), &layout).unwrap();
    assert_eq!(entities.len(), 4);
}

#[test]
fn rejects_wrong_declared_entity_type() {
    let mut wrong = declared();
    wrong.entity_type = EntityType::Actuator(ActuatorType::AudioPlayer);
    let layout = vec![text_zone("a", 0, 0, 64, 16)];
    assert!(zone_entities(&wrong, &layout).is_err());
}

#[test]
fn rejects_overlapping_zones() {
    let layout = vec![text_zone("a", 0, 0, 64, 32), text_zone("b", 32, 16, 64, 32)];
    let err = validate_layout(&layout, 128, 64).unwrap_err();
    assert!(err.contains("overlap"), "{err}");
}

#[test]
fn rejects_zone_outside_panel() {
    let layout = vec![text_zone("a", 100, 0, 40, 16)];
    let err = validate_layout(&layout, 128, 64).unwrap_err();
    assert!(err.contains("exceeds"), "{err}");
}

#[test]
fn rejects_duplicate_zone_ids_and_bad_gauge_ranges() {
    let dup = vec![text_zone("a", 0, 0, 64, 16), text_zone("a", 0, 16, 64, 16)];
    assert!(validate_layout(&dup, 128, 64)
        .unwrap_err()
        .contains("duplicate zone id"));

    let bad_range = vec![ZoneConfig {
        id: "a".to_owned(),
        x: 0,
        y: 0,
        width: 64,
        height: 16,
        widget: WidgetConfig::GaugeLinear {
            min: number(5.0),
            max: number(5.0),
            redline: None,
        },
    }];
    assert!(validate_layout(&bad_range, 128, 64)
        .unwrap_err()
        .contains("min < max"));
}

#[test]
fn rejects_missing_placeholder_via_widget_validate() {
    let layout = vec![ZoneConfig {
        id: "a".to_owned(),
        x: 0,
        y: 0,
        width: 64,
        height: 16,
        widget: WidgetConfig::Text {
            template: "Speed".to_owned(),
            font: Default::default(),
            align: Default::default(),
        },
    }];
    assert!(validate_layout(&layout, 128, 64)
        .unwrap_err()
        .contains("{{value}}"));
}

#[test]
fn messages_of_layout_faults() {
    let error = |layout: &[ZoneConfig]| validate_layout(layout, 128, 64).unwrap_err();
    assert_eq!(error(&[]), "layout must define at least one zone");
    assert_eq!(
        error(&[text_zone("Top", 0, 0, 8, 8)]),
        "zone id 'Top' is invalid: ids must match [a-z][a-z0-9_]*"
    );
    assert_eq!(
        error(&[text_zone("a", 0, 0, 8, 8), text_zone("a", 8, 8, 8, 8)]),
        "duplicate zone id 'a'"
    );
    assert_eq!(
        error(&[text_zone("a", 0, 0, 8, 0)]),
        "zone 'a' has zero width or height"
    );
    assert_eq!(
        error(&[text_zone("a", 0, 60, 8, 5)]),
        "zone 'a' exceeds the 128x64 panel"
    );
    assert_eq!(
        error(&[text_zone("a", u32::MAX, 0, 2, 8)]),
        "zone 'a' exceeds the 128x64 panel"
    );
    assert_eq!(
        error(&[text_zone("a", 0, 0, 8, 8), text_zone("b", 7, 7, 8, 8)]),
        "zones 'a' and 'b' overlap"
    );
    let mut bad = text_zone("a", 0, 0, 8, 8);
    bad.widget = text("x");
    assert_eq!(
        error(&[bad]),
        "zone 'a': text template must contain '{{value}}'"
    );
    assert_eq!(
        validate_layout(
            &[text_zone("a", 0, 0, 64, 64), text_zone("b", 64, 0, 64, 64)],
            128,
            64
        ),
        Ok(())
    );
}

#[test]
fn expansion_names_what_it_cannot_expand() {
    let mut wrong = declared();
    wrong.entity_type = EntityType::Actuator(ActuatorType::AudioPlayer);
    assert_eq!(
        zone_entities(&wrong, &[]).unwrap_err(),
        "a partitioned display must be declared as a 'display_panel' entity, not 'audio_player'"
    );
    assert_eq!(
        zone_entities(
            &declared(),
            &[text_zone("ok", 0, 0, 8, 8), text_zone("not-ok", 0, 0, 8, 8)]
        )
        .unwrap_err(),
        "invalid id 'display.not-ok': ids must match [a-z][a-z0-9_]*"
    );
    let zones = zone_entities(&declared(), &[text_zone("top", 0, 0, 8, 8)]).unwrap();
    assert_eq!(zones[0].name.as_deref(), Some("top"));
    assert_ne!(zones[0].id, declared().id);
}

// Compositor.

fn one_zone_compositor() -> Compositor<BinaryColor> {
    Compositor::new(
        vec![(
            "gateway.display.top".parse().unwrap(),
            rect(0, 0, 60, 16),
            text("{{value}}"),
        )],
        mono_palette(),
    )
}

#[test]
fn tick_skips_unchanged_state_and_tracks_dirty() {
    let mut compositor = one_zone_compositor();
    let mut display = mock_display();
    let interval = compositor.render_interval.as_millis() as u64;
    assert_eq!(interval, 80);

    // First tick always renders, even with nothing staged yet.
    tick(&mut compositor, &mut display, at(0)).unwrap();
    assert!(compositor.take_dirty());

    compositor.stage(0, Availability::Online, Some(SensorValue::Rpm(1200)));
    tick(&mut compositor, &mut display, at(interval)).unwrap();
    assert!(compositor.take_dirty());
    assert!(!compositor.take_dirty(), "dirty flag should clear itself");

    // Same state staged again: the next tick renders nothing new.
    compositor.stage(0, Availability::Online, Some(SensorValue::Rpm(1200)));
    tick(&mut compositor, &mut display, at(interval * 2)).unwrap();
    assert!(!compositor.take_dirty());
}

#[test]
fn tick_does_not_render_faster_than_the_configured_interval() {
    let mut compositor = one_zone_compositor().with_render_interval(Duration::from_millis(100));
    let mut display = mock_display();

    tick(&mut compositor, &mut display, at(0)).unwrap();
    assert!(compositor.take_dirty(), "the first tick always renders");

    // Stage a rapid burst of distinct updates, all within one interval: no matter
    // how many raw updates arrive, only the interval boundary should trigger a
    // render.
    for i in 1..=20u32 {
        compositor.stage(0, Availability::Online, Some(SensorValue::Rpm(i)));
        tick(&mut compositor, &mut display, at(u64::from(i))).unwrap();
        assert!(
            !compositor.take_dirty(),
            "tick before the interval elapsed must not render (i={i})"
        );
    }

    // Once the interval has elapsed, the next tick renders whatever the latest
    // staged value happens to be.
    compositor.stage(0, Availability::Online, Some(SensorValue::Rpm(999)));
    tick(&mut compositor, &mut display, at(150)).unwrap();
    assert!(
        compositor.take_dirty(),
        "tick past the interval must render"
    );
    assert_eq!(
        compositor.zones[0].rendered,
        Some((Availability::Online, Some(SensorValue::Rpm(999))))
    );
}

#[test]
fn zone_index_finds_zones_by_entity_id() {
    let compositor = one_zone_compositor();
    assert_eq!(
        compositor.zone_index(&"gateway.display.top".parse().unwrap()),
        Some(0)
    );
    assert_eq!(
        compositor.zone_index(&"gateway.display.bottom".parse().unwrap()),
        None
    );
}

/// The zone-buffered path is a pure transport optimization: its pixel output must
/// be identical to direct rendering. Exercised with the filled arc gauge, the
/// dithered widget whose per-pixel output is the reason zone buffering exists.
#[test]
fn zone_buffering_renders_identically_to_direct() {
    let zones = || -> Vec<(EntityId, Rectangle, WidgetConfig)> {
        vec![(
            "gateway.display.dial".parse().unwrap(),
            rect(2, 3, 56, 28),
            WidgetConfig::GaugeArc {
                min: number(0.0),
                max: number(100.0),
                redline: Some(number(80.0)),
                style: ArcGaugeStyle::Filled,
            },
        )]
    };

    let mut direct = Compositor::new(zones(), mono_palette());
    let mut buffered = Compositor::new(zones(), mono_palette()).with_zone_buffering();

    let mut direct_display = mock_display();
    // No overdraw allowance needed: the blit writes each pixel once.
    let mut buffered_display = MockDisplay::new();

    for compositor in [&mut direct, &mut buffered] {
        compositor.stage(0, Availability::Online, Some(SensorValue::Rpm(65)));
    }
    tick(&mut direct, &mut direct_display, at(0)).unwrap();
    tick(&mut buffered, &mut buffered_display, at(0)).unwrap();
    assert!(buffered.take_dirty());

    assert_eq!(direct_display, buffered_display);
}

#[test]
fn a_tick_asks_for_the_outdated_zones_in_order() {
    let zones = (0..4)
        .map(|i: i32| {
            (
                format!("gateway.display.z{i}").parse().unwrap(),
                rect(0, 16 * i, 60, 16),
                text("{{value}}"),
            )
        })
        .collect();
    let mut compositor = Compositor::new(zones, mono_palette());
    let run = |compositor: &mut Compositor<BinaryColor>, now| {
        let mut drawn = Vec::new();
        let mut action = compositor.tick(TickEvent::Start(now));
        while let TickAction::DrawZone(i) = action {
            drawn.push(i);
            action = compositor.tick(TickEvent::ZoneDrawn(i));
        }
        drawn
    };
    assert_eq!(run(&mut compositor, at(0)), [0, 1, 2, 3]);
    compositor.stage(3, Availability::Online, Some(SensorValue::Rpm(3)));
    compositor.stage(1, Availability::Online, Some(SensorValue::Rpm(1)));
    assert_eq!(run(&mut compositor, at(79)), [] as [usize; 0]);
    assert_eq!(run(&mut compositor, at(80)), [1, 3]);
    // A tick that draws nothing still starts a new interval.
    assert_eq!(run(&mut compositor, at(160)), [] as [usize; 0]);
    compositor.stage(0, Availability::Stale, None);
    assert_eq!(run(&mut compositor, at(200)), [] as [usize; 0]);
    assert_eq!(run(&mut compositor, at(240)), [0]);
    // A value that is not even equal to itself is drawn again every time.
    compositor.stage(2, Availability::Online, Some(speed(f32::NAN)));
    assert_eq!(run(&mut compositor, at(400)), [2]);
    assert_eq!(run(&mut compositor, at(500)), [2]);
    assert_eq!(
        compositor.tick(TickEvent::ZoneDrawn(17)),
        TickAction::Done,
        "there is no such zone"
    );
}

#[test]
fn a_tick_cut_short_leaves_the_rest_outdated() {
    let zones = (0..2)
        .map(|i: i32| {
            (
                format!("gateway.display.z{i}").parse().unwrap(),
                rect(0, 16 * i, 60, 16),
                text("{{value}}"),
            )
        })
        .collect();
    let mut compositor = Compositor::new(zones, mono_palette());
    assert_eq!(
        compositor.tick(TickEvent::Start(at(0))),
        TickAction::DrawZone(0)
    );
    assert_eq!(
        compositor.tick(TickEvent::ZoneDrawn(0)),
        TickAction::DrawZone(1)
    );
    // Drawing zone 1 fails here; the next tick asks for it again.
    assert!(compositor.take_dirty());
    assert_eq!(compositor.tick(TickEvent::Start(at(40))), TickAction::Done);
    assert_eq!(
        compositor.tick(TickEvent::Start(at(80))),
        TickAction::DrawZone(1)
    );
}

#[test]
fn scratch_takes_only_pixels_inside() {
    let mut scratch: ZoneScratch<u8> = ZoneScratch::new();
    assert_eq!(scratch.pixels().len(), 0);
    scratch.reset(Size::new(3, 2), 7);
    assert_eq!(scratch.size(), Size::new(3, 2));
    for (p, color) in [
        (Point::new(0, 0), 1),
        (Point::new(2, 1), 2),
        (Point::new(3, 0), 9),
        (Point::new(0, 2), 9),
        (Point::new(-1, 0), 9),
        (Point::new(0, -1), 9),
        (Point::new(2, 1), 3),
    ] {
        scratch.draw_pixel(p, color);
    }
    assert_eq!(scratch.pixels(), &[1, 7, 7, 7, 7, 3]);
    scratch.reset(Size::new(1, 1), 5);
    assert_eq!(scratch.pixels(), &[5]);
}

// The shared driver.

/// A driver over a `MockDisplay` that counts hardware flushes, so tests can
/// observe that hardware is only touched when there is something new to show.
struct FakeDisplay {
    driver: GenericDisplayDriver<BinaryColor>,
    target: MockDisplay<BinaryColor>,
    flush_count: usize,
}

fn zone_id() -> EntityId {
    "gateway.display.top".parse().unwrap()
}

impl FakeDisplay {
    fn new() -> Self {
        // Render-tick rate-limiting is exercised above; a zero interval keeps this
        // independent of the times passed.
        let compositor = Compositor::new(
            vec![(zone_id(), rect(0, 0, 40, 16), text("{{value}}"))],
            mono_palette(),
        )
        .with_render_interval(Duration::from_millis(0));
        let mut target = MockDisplay::new();
        target.set_allow_overdraw(true);
        target.set_allow_out_of_bounds_drawing(true);
        FakeDisplay {
            driver: GenericDisplayDriver::new(
                "gateway.display".to_owned(),
                vec![Entity {
                    id: zone_id(),
                    entity_type: EntityType::Actuator(ActuatorType::DisplayRegion),
                    name: None,
                }],
                compositor,
            ),
            target,
            flush_count: 0,
        }
    }

    fn flush(&mut self) -> Result<(), DriverError> {
        let mut action = self.driver.flush(FlushEvent::Start(at(0)));
        loop {
            let event = match action {
                FlushAction::Finish(outcome) => return outcome,
                FlushAction::DrawZone(i) => {
                    draw_zone(&mut self.target, &mut self.driver.compositor, i).unwrap();
                    FlushEvent::ZoneDrawn(i)
                }
                FlushAction::FlushHardware => {
                    self.flush_count += 1;
                    FlushEvent::HardwareFlushed(Ok(()))
                }
            };
            action = self.driver.flush(event);
        }
    }
}

fn update(rpm: u32) -> ActuatorCommand {
    ActuatorCommand::SourceUpdate {
        availability: Availability::Online,
        value: Some(SensorValue::Rpm(rpm)),
    }
}

#[test]
fn execute_stages_without_touching_hardware() {
    let mut display = FakeDisplay::new();
    display.driver.execute(&zone_id(), &update(4200)).unwrap();
    assert_eq!(display.flush_count, 0, "execute() must not flush");
    assert_eq!(
        display.driver.compositor.zones[0].staged,
        (Availability::Online, Some(SensorValue::Rpm(4200)))
    );
}

#[test]
fn execute_on_unknown_target_reports_unknown_entity() {
    let mut display = FakeDisplay::new();
    let unknown: EntityId = "gateway.display.ghost".parse().unwrap();
    let err = display.driver.execute(&unknown, &update(1)).unwrap_err();
    assert!(matches!(err, DriverError::UnknownEntity { .. }));
    assert_eq!(
        err.message(),
        "driver instance 'gateway.display' does not expose entity 'gateway.display.ghost'"
    );
}

#[test]
fn flush_renders_and_calls_hardware_flush_only_when_dirty() {
    let mut display = FakeDisplay::new();

    // First flush: the compositor's first tick always renders its initial ("no
    // data yet") frame, so the hardware is flushed once.
    display.flush().unwrap();
    assert_eq!(display.flush_count, 1);

    // No new execute() in between: nothing changed, so no further hardware flush,
    // even though flush() runs again.
    display.flush().unwrap();
    assert_eq!(display.flush_count, 1);

    // A genuine update, then flush: hardware is touched again.
    display.driver.execute(&zone_id(), &update(4200)).unwrap();
    display.flush().unwrap();
    assert_eq!(display.flush_count, 2);
}

#[test]
fn failures_end_a_flush_with_an_error() {
    let mut display = FakeDisplay::new();
    assert_eq!(
        display.driver.flush(FlushEvent::Start(at(0))),
        FlushAction::DrawZone(0)
    );
    assert_eq!(
        display
            .driver
            .flush(FlushEvent::DrawFailed("BusWriteError".to_owned())),
        FlushAction::Finish(Err(DriverError::Display("BusWriteError".to_owned())))
    );
    // The zone is still outdated, so the next flush draws it and flushes.
    assert_eq!(
        display.driver.flush(FlushEvent::Start(at(0))),
        FlushAction::DrawZone(0)
    );
    assert_eq!(
        display.driver.flush(FlushEvent::ZoneDrawn(0)),
        FlushAction::FlushHardware
    );
    let failed = || {
        Err(DriverError::Esp {
            code: 263,
            description: "ESP_ERR_TIMEOUT".to_owned(),
        })
    };
    assert_eq!(
        display.driver.flush(FlushEvent::HardwareFlushed(failed())),
        FlushAction::Finish(failed())
    );
    assert_eq!(display.driver.instance_id(), "gateway.display");
    assert_eq!(display.driver.entities().len(), 1);
}

// Staying inside.

#[test]
fn fills_sweeps_marks_and_needles_stay_inside_the_zone() {
    // No out-of-bounds allowance: the mock display panics on a pixel outside.
    let zone = rect(0, 0, 64, 64);
    for value in [0, 1, 33, 50, 80, 99, 100, 5000] {
        for widget in [
            WidgetConfig::GaugeLinear {
                min: number(0.0),
                max: number(100.0),
                redline: Some(number(100.0)),
            },
            WidgetConfig::GaugeArc {
                min: number(0.0),
                max: number(100.0),
                redline: Some(number(0.0)),
                style: ArcGaugeStyle::Classic,
            },
            WidgetConfig::GaugeArc {
                min: number(0.0),
                max: number(100.0),
                redline: Some(number(70.0)),
                style: ArcGaugeStyle::Filled,
            },
        ] {
            let value = Some(SensorValue::Rpm(value));
            let marks = marks(&widget, zone, value);
            let mut ops = widget.render(zone, mono_palette(), Availability::Online, value, &marks);
            // The stroke of the rim rounds over the dial's lower edge, where it
            // is clipped to the zone.
            ops.retain(|op| !matches!(op, DrawOp::HalfCircle { .. }));
            draw_ops(&mut mock_display(), &ops).unwrap();
        }
    }
}

#[test]
fn a_zone_never_touches_pixels_outside_its_rectangle() {
    for buffered in [false, true] {
        let zone = rect(8, 8, 20, 9);
        let compositor = Compositor::new(
            vec![(
                "gateway.display.top".parse().unwrap(),
                zone,
                text("much too long: {{value}}"),
            )],
            mono_palette(),
        );
        let mut compositor = if buffered {
            compositor.with_zone_buffering()
        } else {
            compositor
        };
        let mut display = mock_display();
        tick(&mut compositor, &mut display, at(0)).unwrap();
        for x in 0..64 {
            for y in 0..64 {
                let inside = (8..28).contains(&x) && (8..17).contains(&y);
                let point = embedded_graphics::geometry::Point::new(x, y);
                assert_eq!(display.get_pixel(point).is_some(), inside, "({x}, {y})");
            }
        }
    }
}

#[test]
fn accepted_zones_share_no_pixel() {
    let layout = [
        text_zone("a", 0, 0, 10, 10),
        text_zone("b", 10, 0, 6, 10),
        text_zone("c", 0, 10, 16, 2),
    ];
    assert_eq!(validate_layout(&layout, 16, 12), Ok(()));
    for x in 0..16 {
        for y in 0..12 {
            let owners = layout
                .iter()
                .filter(|z| (z.x..z.x + z.width).contains(&x) && (z.y..z.y + z.height).contains(&y))
                .count();
            assert_eq!(owners, 1);
        }
    }
}

#[test]
fn both_ways_of_rendering_a_zone_draw_the_same_operations() {
    let mut compositor = one_zone_compositor();
    compositor.stage(0, Availability::Online, Some(SensorValue::Rpm(7)));
    let zone = &compositor.zones[0];
    let marks = marks(&zone.widget, zone.rect, zone.staged.1);
    let direct = compositor.render_zone(0, &marks);
    let mut compositor = compositor.with_zone_buffering();
    let buffered = compositor.render_zone_buffered(0, &marks);
    assert_eq!(direct.rect, buffered.rect);
    assert_eq!(direct.ops, buffered.ops);
    let scratch = compositor.scratch.as_ref().unwrap();
    assert_eq!(scratch.size(), Size::new(60, 16));
    assert!(scratch.pixels().iter().all(|c| *c == BinaryColor::Off));
}

#[test]
fn a_flush_draws_all_that_changed_and_flushes_once() {
    let ids: Vec<EntityId> = (0..3)
        .map(|i| format!("gateway.display.z{i}").parse().unwrap())
        .collect();
    let zones = ids
        .iter()
        .zip(0..)
        .map(|(id, i)| (id.clone(), rect(0, 16 * i, 60, 16), text("{{value}}")))
        .collect();
    let mut driver = GenericDisplayDriver::new(
        "gateway.display".to_owned(),
        vec![],
        Compositor::new(zones, mono_palette()),
    );
    let run = |driver: &mut GenericDisplayDriver<BinaryColor>, now| {
        let (mut drawn, mut flushes) = (Vec::new(), 0);
        let mut action = driver.flush(FlushEvent::Start(now));
        loop {
            let event = match action {
                FlushAction::Finish(outcome) => {
                    assert_eq!(outcome, Ok(()));
                    assert!(!driver.compositor.dirty);
                    return (drawn, flushes);
                }
                FlushAction::DrawZone(i) => {
                    drawn.push(i);
                    FlushEvent::ZoneDrawn(i)
                }
                FlushAction::FlushHardware => {
                    flushes += 1;
                    FlushEvent::HardwareFlushed(Ok(()))
                }
            };
            action = driver.flush(event);
        }
    };
    assert_eq!(run(&mut driver, at(0)), (vec![0, 1, 2], 1));
    driver.execute(&ids[2], &update(5)).unwrap();
    driver.execute(&ids[0], &update(6)).unwrap();
    assert_eq!(run(&mut driver, at(79)), (vec![], 0), "not due yet");
    assert_eq!(run(&mut driver, at(80)), (vec![0, 2], 1));
    assert_eq!(run(&mut driver, at(160)), (vec![], 0));
    // What a flush cut short had drawn still reaches the hardware, even before
    // the next render is due.
    driver.execute(&ids[1], &update(7)).unwrap();
    driver.execute(&ids[2], &update(8)).unwrap();
    assert_eq!(
        driver.flush(FlushEvent::Start(at(240))),
        FlushAction::DrawZone(1)
    );
    assert_eq!(
        driver.flush(FlushEvent::ZoneDrawn(1)),
        FlushAction::DrawZone(2)
    );
    assert!(matches!(
        driver.flush(FlushEvent::DrawFailed("bus".to_owned())),
        FlushAction::Finish(Err(_))
    ));
    assert_eq!(run(&mut driver, at(250)), (vec![], 1));
    assert_eq!(run(&mut driver, at(320)), (vec![2], 1));
}
