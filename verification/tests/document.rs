use geo_svg::{
    Color, Coord, Line, LineString, Point, Polygon, SVGDocument, Scalar, Stylable, Triangle, Unit,
};

fn c(x: i64, y: i64) -> Coord {
    Coord { x: Scalar::from_centi(x), y: Scalar::from_centi(y) }
}

#[test]
fn new_document_api_works() {
    let single_point = Point(c(0, 0));
    let zero = c(0, 0);
    let triangles = vec![
        Triangle(zero, zero, zero),
        Triangle(zero, zero, zero),
        Triangle(zero, zero, zero),
    ];
    let svg = SVGDocument::style_builder()
        .with_radius(Scalar::from_centi(100))
        .finish_style()
        .add_shape(&single_point)
        .add_shapes(&triangles)
        .finish_shapes()
        .render();
    println!("{svg}");
}

#[test]
fn two_unified_point_documents_with_fallback_style() {
    let part1 = SVGDocument::style_builder()
        .with_fill_color(Color::Named("red"))
        .with_radius(Scalar::from_centi(1000))
        .with_stroke_color(Color::Named("black"))
        .finish_style()
        .add_shape(&Point(c(0, 0)))
        .finish_shapes();
    let part2 = SVGDocument::style_builder()
        .with_radius(Scalar::from_centi(500))
        .with_stroke_color(Color::Named("blue"))
        .finish_style()
        .add_shape(&Point(c(5000, 0)))
        .finish_shapes();

    let svg = part1
        .and(part2)
        .with_stroke_width(Scalar::from_centi(100))
        .with_opacity(Scalar::from_centi(50))
        .with_fill_opacity(Scalar::from_centi(50))
        .with_fill_color(Color::Named("green"))
        .render();

    println!("{svg}");
}

#[test]
fn test_polygon() {
    let svg = SVGDocument::style_builder()
        .with_fill_color(Color::Named("black"))
        .with_stroke_color(Color::Named("red"))
        .finish_style()
        .add_shape(&Polygon::new(
            LineString(vec![c(21000, 0), c(30000, 0), c(30000, 9000), c(21000, 9000)]),
            vec![LineString(vec![c(23000, 2000), c(28000, 2000), c(28000, 7000), c(23000, 7000)])],
        ))
        .finish_shapes()
        .render();

    println!("{svg}");
}

#[test]
fn end_to_end_two_styled_parts_render_exactly() {
    let point = Point(c(1000, 2810));
    let line = Line { start: c(11419, 2226), end: c(1593, -1576) };

    let svg = SVGDocument::style_builder()
        .with_radius(Scalar::from_centi(200))
        .finish_style()
        .add_shape(&point)
        .finish_shapes()
        .and(
            SVGDocument::style_builder()
                .with_stroke_width(Scalar::from_centi(250))
                .finish_style()
                .add_shape(&line)
                .finish_shapes(),
        )
        .with_fill_color(Color::Named("red"))
        .with_stroke_color(Color::Rgb(200, 0, 100))
        .with_fill_opacity(Scalar::from_centi(70));

    let expect = r#"<svg xmlns="http://www.w3.org/2000/svg" preserveAspectRatio="xMidYMid meet" viewBox="7 -18.26 109.69 49.36"  fill="red" fill-opacity="0.7" stroke="rgb(200,0,100)"><circle cx="10.0" cy="28.1" r="2"/><path d="M 114.19 22.26 L 15.93 -15.76" stroke-width="2.5"/></svg>"#;

    assert_eq!(expect, svg.render().as_str());
}

#[test]
fn rendering_twice_gives_the_same_string() {
    let doc = SVGDocument::style_builder()
        .with_radius(Scalar::from_centi(200))
        .finish_style()
        .add_shape(&Point(c(1000, 2810)))
        .finish_shapes();
    assert_eq!(doc.render(), doc.render());
}

#[test]
fn empty_group_renders_blank_content_and_degenerate_viewport() {
    let svg = SVGDocument::style_builder().finish_style().finish_shapes();
    assert_eq!(
        svg.render(),
        r#"<svg xmlns="http://www.w3.org/2000/svg" preserveAspectRatio="xMidYMid meet" viewBox="0 0 0 0" ></svg>"#,
    );
}

#[test]
fn style_setting_propagates_to_every_part_of_a_union() {
    let part1 = SVGDocument::style_builder()
        .with_fill_color(Color::Named("red"))
        .finish_style()
        .add_shape(&Point(c(0, 0)))
        .finish_shapes();
    let part2 = SVGDocument::style_builder()
        .with_fill_color(Color::Named("blue"))
        .finish_style()
        .add_shape(&Point(c(5000, 0)))
        .finish_shapes();
    let combined = part1.and(part2).with_stroke_width(Scalar::from_centi(300));
    assert_eq!(combined.style.stroke_width, Some(Scalar::from_centi(300)));
    assert_eq!(combined.parts.len(), 2);
    assert_eq!(combined.parts[0].style.stroke_width, Some(Scalar::from_centi(300)));
    assert_eq!(combined.parts[1].style.stroke_width, Some(Scalar::from_centi(300)));
    assert_eq!(combined.parts[0].style.fill_color, Some(Color::Named("red")));
    assert_eq!(combined.parts[1].style.fill_color, Some(Color::Named("blue")));
}

#[test]
fn union_merges_styles_with_the_left_side_winning() {
    let left = SVGDocument::style_builder()
        .with_fill_color(Color::Named("red"))
        .finish_style()
        .finish_shapes()
        .with_fill_color(Color::Named("red"))
        .with_opacity(Scalar::from_centi(30));
    let right = SVGDocument::style_builder()
        .finish_style()
        .finish_shapes()
        .with_fill_color(Color::Named("blue"))
        .with_stroke_width(Scalar::from_centi(200));
    let merged = left.and(right);
    assert_eq!(merged.style.fill_color, Some(Color::Named("red")));
    assert_eq!(merged.style.opacity, Some(Scalar::from_centi(30)));
    assert_eq!(merged.style.stroke_width, Some(Scalar::from_centi(200)));
}

#[test]
fn explicit_height_computes_width_from_aspect_ratio() {
    let mut doc = SVGDocument::style_builder()
        .with_stroke_width(Scalar::from_centi(0))
        .with_radius(Scalar::from_centi(0))
        .finish_style()
        .add_shape(&Line { start: c(0, 0), end: c(10000, 5000) })
        .finish_shapes();
    doc.set_height(Unit::Centimeter(Scalar::from_centi(500)));
    let svg = doc.render();
    assert!(svg.contains(r#" width="10cm" height="5cm""#));

    let mut doc2 = SVGDocument::style_builder()
        .with_stroke_width(Scalar::from_centi(0))
        .with_radius(Scalar::from_centi(0))
        .finish_style()
        .add_shape(&Line { start: c(0, 0), end: c(10000, 5000) })
        .finish_shapes();
    doc2.set_width(Unit::Pixel(Scalar::from_centi(2000)));
    let svg2 = doc2.render();
    assert!(svg2.contains(r#" width="20px" height="10px""#));
}

#[test]
fn margin_expands_the_viewport_on_all_sides() {
    let doc = SVGDocument::style_builder()
        .with_radius(Scalar::from_centi(100))
        .finish_style()
        .add_shape(&Point(c(0, 0)))
        .finish_shapes()
        .with_margin(Scalar::from_centi(100));
    // radius 1 + default stroke 1 inflate to 2; the margin adds 1 more.
    assert!(doc.render().contains(r#"viewBox="-3 -3 6 6""#));
}
