use geo_svg::{
    Arrow, Color, CombineToSVG, Coord, Geometry, GeometryCollection, Line, LineString,
    MultiLineString, MultiPoint, MultiPolygon, Point, Polygon, Rect, Scalar, Style, Stylable,
    Text, ToSvg, ToSvgStr, Triangle, Unit, ViewBox,
};

fn c(x: i64, y: i64) -> Coord {
    Coord { x: Scalar::from_centi(x), y: Scalar::from_centi(y) }
}

#[test]
fn test_arrow() {
    let arrow = Arrow::new(Line { start: c(0, 0), end: c(1000, 1000) });
    let style = Style::default()
        .with_stroke_color(Color::Named("black"))
        .with_stroke_width(Scalar::from_centi(1))
        .with_radius(Scalar::from_centi(50));
    println!("{}", arrow.to_svg_str(&style));
}

#[test]
fn zero_length_arrow_renders_as_empty_string() {
    let arrow = Arrow::new(Line { start: c(300, 400), end: c(300, 400) });
    let style = Style::default().with_radius(Scalar::from_centi(200));
    assert_eq!(arrow.to_svg_str(&style), "");
}

#[test]
fn arrow_renders_base_line_and_two_head_strokes() {
    let arrow = Arrow::new(Line { start: c(0, 0), end: c(1000, 1000) });
    let style = Style::default()
        .with_stroke_color(Color::Named("black"))
        .with_stroke_width(Scalar::from_centi(1))
        .with_radius(Scalar::from_centi(50));
    let attrs = r#" stroke="black" stroke-width="0.01""#;
    let expect = format!(
        r#"<path d="M 0.0 0.0 L 10.0 10.0"{attrs}/><path d="M 10.0 10.0 L 9.5 10.0"{attrs}/><path d="M 10.0 10.0 L 10.0 9.5"{attrs}/>"#,
    );
    assert_eq!(arrow.to_svg_str(&style), expect);
}

#[test]
fn point_renders_circle_with_effective_radius() {
    let p = Point(c(1000, 2810));
    let style = Style::default().with_radius(Scalar::from_centi(200));
    assert_eq!(p.to_svg_str(&style), r#"<circle cx="10.0" cy="28.1" r="2"/>"#);
    let unset = Style::default();
    assert_eq!(p.to_svg_str(&unset), r#"<circle cx="10.0" cy="28.1" r="1"/>"#);
}

#[test]
fn point_bounds_inflate_by_radius_plus_default_stroke() {
    let p = Point(c(1000, 2810));
    let style = Style::default().with_radius(Scalar::from_centi(200));
    // radius 2 plus the bound default stroke width 1, although the
    // rendered circle carries no stroke attribute at all.
    let expected = ViewBox::new(
        Scalar::from_centi(700),
        Scalar::from_centi(2510),
        Scalar::from_centi(1300),
        Scalar::from_centi(3110),
    );
    assert_eq!(p.viewbox(&style), expected);
    assert!(p.to_svg_str(&style).contains(r#"cx="10.0""#));
}

#[test]
fn line_bounds_inflate_by_stroke_only() {
    let l = Line { start: c(11419, 2226), end: c(1593, -1576) };
    let style = Style::default()
        .with_stroke_width(Scalar::from_centi(250))
        .with_radius(Scalar::from_centi(900));
    let expected = ViewBox::new(
        Scalar::from_centi(1343),
        Scalar::from_centi(-1826),
        Scalar::from_centi(11669),
        Scalar::from_centi(2476),
    );
    assert_eq!(l.viewbox(&style), expected);
}

#[test]
fn line_string_renders_one_path_per_segment() {
    let ls = LineString(vec![c(0, 0), c(100, 0), c(100, 100)]);
    let style = Style::default();
    assert_eq!(
        ls.to_svg_str(&style),
        r#"<path d="M 0.0 0.0 L 1.0 0.0"/><path d="M 1.0 0.0 L 1.0 1.0"/>"#,
    );
    let lonely = LineString(vec![c(0, 0)]);
    assert_eq!(lonely.to_svg_str(&style), "");
    assert_eq!(lonely.viewbox(&style), ViewBox::empty());
}

#[test]
fn polygon_with_hole_renders_two_closed_subpaths_under_even_odd() {
    let poly = Polygon::new(
        LineString(vec![c(0, 0), c(400, 0), c(0, 400)]),
        vec![LineString(vec![c(100, 100), c(200, 100), c(100, 200)])],
    );
    let style = Style::default();
    let rendered = poly.to_svg_str(&style);
    assert_eq!(
        rendered,
        r#"<path fill-rule="evenodd" d="M 0.0 0.0 L 4.0 0.0 L 0.0 4.0 L 0.0 0.0 Z M 1.0 1.0 L 2.0 1.0 L 1.0 2.0 L 1.0 1.0 Z "/>"#,
    );
    assert_eq!(rendered.matches(" Z ").count(), 2);
    assert!(rendered.contains(r#"fill-rule="evenodd""#));
}

#[test]
fn rect_and_triangle_render_as_closed_polygons() {
    let r = Rect::new(c(0, 0), c(200, 100));
    let style = Style::default();
    assert_eq!(
        r.to_svg_str(&style),
        r#"<path fill-rule="evenodd" d="M 0.0 0.0 L 2.0 0.0 L 2.0 1.0 L 0.0 1.0 L 0.0 0.0 Z "/>"#,
    );
    let t = Triangle(c(0, 0), c(200, 0), c(100, 100));
    assert_eq!(
        t.to_svg_str(&style),
        r#"<path fill-rule="evenodd" d="M 0.0 0.0 L 2.0 0.0 L 1.0 1.0 L 0.0 0.0 Z "/>"#,
    );
}

#[test]
fn collections_concatenate_members_and_union_bounds() {
    let style = Style::default().with_stroke_width(Scalar::from_centi(0)).with_radius(
        Scalar::from_centi(0),
    );
    let mp = MultiPoint(vec![Point(c(0, 0)), Point(c(1000, 0))]);
    assert_eq!(
        mp.to_svg_str(&style),
        r#"<circle cx="0.0" cy="0.0" r="0" stroke-width="0"/><circle cx="10.0" cy="0.0" r="0" stroke-width="0"/>"#,
    );
    assert_eq!(
        mp.viewbox(&style),
        ViewBox::new(
            Scalar::from_centi(0),
            Scalar::from_centi(0),
            Scalar::from_centi(1000),
            Scalar::from_centi(0),
        ),
    );
    let mls = MultiLineString(vec![
        LineString(vec![c(0, 0), c(100, 0)]),
        LineString(vec![c(0, 200), c(100, 200)]),
    ]);
    assert_eq!(
        mls.to_svg_str(&style),
        r#"<path d="M 0.0 0.0 L 1.0 0.0" stroke-width="0"/><path d="M 0.0 2.0 L 1.0 2.0" stroke-width="0"/>"#,
    );
    let collection = Geometry::GeometryCollection(GeometryCollection(vec![
        Geometry::Point(Point(c(0, 0))),
        Geometry::Line(Line { start: c(0, 0), end: c(500, 0) }),
    ]));
    assert_eq!(
        collection.to_svg_str(&style),
        r#"<circle cx="0.0" cy="0.0" r="0" stroke-width="0"/><path d="M 0.0 0.0 L 5.0 0.0" stroke-width="0"/>"#,
    );
    let empty = MultiPolygon(vec![]);
    assert_eq!(empty.to_svg_str(&style), "");
    assert_eq!(empty.viewbox(&style), ViewBox::empty());
}

#[test]
fn viewbox_union_is_commutative_and_associative_on_values() {
    let a = ViewBox::new(
        Scalar::from_centi(0),
        Scalar::from_centi(0),
        Scalar::from_centi(100),
        Scalar::from_centi(100),
    );
    let b = ViewBox::new(
        Scalar::from_centi(-500),
        Scalar::from_centi(20),
        Scalar::from_centi(50),
        Scalar::from_centi(900),
    );
    let e = ViewBox::empty();
    assert_eq!(a.and(&b), b.and(&a));
    assert_eq!(a.and(&b).and(&e), a.and(&b.and(&e)));
    assert_eq!(e.and(&a), a);
}

#[test]
fn fallback_merge_favors_the_left_style() {
    let s1 = Style::default().with_fill_color(Color::Named("red")).with_opacity(
        Scalar::from_centi(40),
    );
    let s2 = Style::default()
        .with_fill_color(Color::Named("blue"))
        .with_stroke_width(Scalar::from_centi(200))
        .with_radius(Scalar::from_centi(700));
    let merged = s1.or_style(&s2);
    assert_eq!(merged.fill_color, Some(Color::Named("red")));
    assert_eq!(merged.opacity, Some(Scalar::from_centi(40)));
    assert_eq!(merged.stroke_width, Some(Scalar::from_centi(200)));
    assert_eq!(merged.radius, Some(Scalar::from_centi(700)));
    assert_eq!(merged.stroke_color, None);
}

#[test]
fn style_attributes_emit_in_fixed_order() {
    let style = Style::default()
        .with_stroke_linejoin(geo_svg::LineJoin::Bevel)
        .with_stroke_linecap(geo_svg::LineCap::Round)
        .with_stroke_dasharray(vec![Scalar::from_centi(200), Scalar::from_centi(100)])
        .with_stroke_opacity(Scalar::from_centi(25))
        .with_opacity(Scalar::from_centi(50));
    assert_eq!(
        style.attrs_string(),
        r#" opacity="0.5" stroke-opacity="0.25" stroke-dasharray="2 1" stroke-linecap="round" stroke-linejoin="bevel""#,
    );
}

#[test]
fn scalar_attribute_form_trims_and_coordinate_form_keeps_a_decimal() {
    assert_eq!(Scalar::from_centi(700).attr_string(), "7");
    assert_eq!(Scalar::from_centi(-1826).attr_string(), "-18.26");
    assert_eq!(Scalar::from_centi(250).attr_string(), "2.5");
    assert_eq!(Scalar::from_centi(5).attr_string(), "0.05");
    assert_eq!(Scalar::from_centi(0).attr_string(), "0");
    assert_eq!(Scalar::from_int(12).attr_string(), "12");
    let p = Point(c(700, 0));
    let style = Style::default();
    assert!(p.to_svg_str(&style).contains(r#"cx="7.0""#));
}

#[test]
fn unit_carries_value_symbol_and_scales() {
    let u = Unit::Pixel(Scalar::from_centi(200));
    assert_eq!(u.value(), Scalar::from_centi(200));
    assert_eq!(u.symbol(), "px");
    assert_eq!(u.scale(Scalar::from_centi(150)), Unit::Pixel(Scalar::from_centi(300)));
    assert_eq!(u.render(), "2px");
    assert_eq!(Unit::Unitless(Scalar::from_centi(125)).render(), "1.25");
    assert_eq!(Unit::QuarterMillimeter(Scalar::from_centi(100)).symbol(), "Q");
}

#[test]
fn text_renders_but_contributes_no_bounds() {
    let t = Text::new(String::from("label"), c(100, 200)).with_font_size(Scalar::from_centi(1200));
    let style = Style::default();
    assert_eq!(t.to_svg_str(&style), r#"<text font-size="12" x="1" y="2">label</text>"#);
    assert_eq!(t.viewbox(&style), ViewBox::empty());
    let fresh = Text::new(String::from("x"), c(0, 0));
    assert_eq!(fresh.to_svg_str(&style), r#"<text font-size="10" x="0" y="0">x</text>"#);
}

#[test]
fn bounds_agree_with_the_coordinates_the_markup_carries() {
    // The circle prints its center (10, 28.1); with radius 2 and the
    // default stroke 1 its box spans 3 around it, and the standalone
    // bounds pass reports exactly that box.
    let style = Style::default().with_radius(Scalar::from_centi(200));
    let g = Geometry::Point(Point(c(1000, 2810)));
    let rendered = g.to_svg_str(&style);
    assert!(rendered.contains(r#"cx="10.0" cy="28.1""#));
    assert_eq!(
        g.viewbox(&style),
        ViewBox::new(
            Scalar::from_centi(700),
            Scalar::from_centi(2510),
            Scalar::from_centi(1300),
            Scalar::from_centi(3110),
        ),
    );
}

#[test]
fn combine_wraps_each_shape_in_its_own_default_group() {
    let shapes = vec![
        Geometry::Point(Point(c(0, 0))),
        Geometry::Line(Line { start: c(0, 0), end: c(500, 0) }),
    ];
    let combined = shapes.combine_to_svg().unwrap();
    assert_eq!(combined.parts.len(), 2);
    let manual = Point(c(0, 0)).to_svg().and(Line { start: c(0, 0), end: c(500, 0) }.to_svg());
    assert_eq!(combined.render(), manual.render());

    let nothing: Vec<Geometry> = vec![];
    assert!(nothing.combine_to_svg().is_none());
}

#[test]
fn to_svg_wraps_a_shape_at_the_default_style() {
    let doc = Point(c(1000, 2810)).to_svg();
    assert!(doc.render().contains(r#"<circle cx="10.0" cy="28.1" r="1"/>"#));
    assert!(doc.render().contains(r#"viewBox="8 26.1 4 4""#));
}

#[test]
fn single_position_ring_draws_its_coordinate_but_spans_no_bounds() {
    // A one-position ring closes onto itself: its path data moves to
    // the coordinate and closes without any segment, so the bounds
    // accumulator sees nothing.
    let poly = Polygon::new(LineString(vec![c(100, 100)]), vec![]);
    let style = Style::default();
    assert_eq!(
        poly.to_svg_str(&style),
        r#"<path fill-rule="evenodd" d="M 1.0 1.0 Z "/>"#,
    );
    assert_eq!(poly.viewbox(&style), ViewBox::empty());

    let empty_poly = Polygon::new(LineString(vec![]), vec![]);
    assert_eq!(empty_poly.to_svg_str(&style), r#"<path fill-rule="evenodd" d=" Z "/>"#);
}

#[test]
fn scalar_arithmetic_saturates_at_the_working_range() {
    let huge = Scalar::from_int(i64::MAX);
    assert_eq!(huge, Scalar::from_centi(geo_svg::SC_MAX));
    assert_eq!(huge.add(huge), Scalar::from_centi(geo_svg::SC_MAX));
    assert_eq!(huge.attr_string(), "100000000000");
    let tiny = Scalar::from_int(i64::MIN);
    assert_eq!(tiny, Scalar::from_centi(-geo_svg::SC_MAX));
    assert_eq!(tiny.sub(huge), Scalar::from_centi(-geo_svg::SC_MAX));
}
