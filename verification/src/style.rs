use vstd::prelude::*;

use crate::color::{color_seq, Color};
use crate::scalar::{attr_num_seq, Scalar};

verus! {

/// The shape drawn at the end of a stroked line.
#[derive(Debug, Clone, Copy, PartialEq)]
pub enum LineCap {
    Butt,
    Round,
    Square,
}

impl Default for LineCap {
    fn default() -> (r: Self)
        ensures
            r == LineCap::Butt,
    {
        LineCap::Butt
    }
}

/// The shape drawn at the corners of a stroked path.
#[derive(Debug, Clone, Copy, PartialEq)]
pub enum LineJoin {
    Miter,
    Round,
    Bevel,
}

impl Default for LineJoin {
    fn default() -> (r: Self)
        ensures
            r == LineJoin::Miter,
    {
        LineJoin::Miter
    }
}

/// The cascading set of visual attributes.  Every attribute is optional;
/// an unset attribute emits nothing and, for the point radius and the
/// stroke width, falls back to an effective default of 1 where a value
/// is needed.
#[derive(Debug, PartialEq)]
pub struct Style {
    pub opacity: Option<Scalar>,
    pub fill_color: Option<Color>,
    pub fill_opacity: Option<Scalar>,
    pub stroke_color: Option<Color>,
    pub stroke_width: Option<Scalar>,
    pub stroke_opacity: Option<Scalar>,
    pub stroke_dasharray: Option<Vec<Scalar>>,
    pub stroke_linecap: Option<LineCap>,
    pub stroke_linejoin: Option<LineJoin>,
    pub radius: Option<Scalar>,
}

/// The mathematical value of a `Style`: the same record with the dash
/// pattern abstracted to a sequence.
pub struct StyleModel {
    pub opacity: Option<Scalar>,
    pub fill_color: Option<Color>,
    pub fill_opacity: Option<Scalar>,
    pub stroke_color: Option<Color>,
    pub stroke_width: Option<Scalar>,
    pub stroke_opacity: Option<Scalar>,
    pub stroke_dasharray: Option<Seq<Scalar>>,
    pub stroke_linecap: Option<LineCap>,
    pub stroke_linejoin: Option<LineJoin>,
    pub radius: Option<Scalar>,
}

impl View for Style {
    type V = StyleModel;

    open spec fn view(&self) -> StyleModel {
        StyleModel {
            opacity: self.opacity,
            fill_color: self.fill_color,
            fill_opacity: self.fill_opacity,
            stroke_color: self.stroke_color,
            stroke_width: self.stroke_width,
            stroke_opacity: self.stroke_opacity,
            stroke_dasharray: match self.stroke_dasharray {
                Some(ref vs) => Some(vs@),
                None => None,
            },
            stroke_linecap: self.stroke_linecap,
            stroke_linejoin: self.stroke_linejoin,
            radius: self.radius,
        }
    }
}

/// A style with no attribute set.
pub open spec fn empty_style() -> StyleModel {
    StyleModel {
        opacity: None,
        fill_color: None,
        fill_opacity: None,
        stroke_color: None,
        stroke_width: None,
        stroke_opacity: None,
        stroke_dasharray: None,
        stroke_linecap: None,
        stroke_linejoin: None,
        radius: None,
    }
}

impl Default for Style {
    fn default() -> (r: Self)
        ensures
            r@ == empty_style(),
    {
        Style {
            opacity: None,
            fill_color: None,
            fill_opacity: None,
            stroke_color: None,
            stroke_width: None,
            stroke_opacity: None,
            stroke_dasharray: None,
            stroke_linecap: None,
            stroke_linejoin: None,
            radius: None,
        }
    }
}

/// Copy a dash pattern element by element.
fn clone_scalars(vs: &Vec<Scalar>) -> (r: Vec<Scalar>)
    ensures
        r@ == vs@,
{
    let mut r: Vec<Scalar> = Vec::new();
    let mut i: usize = 0;
    while i < vs.len()
        invariant
            i <= vs.len(),
            r@ == vs@.take(i as int),
        decreases vs.len() - i,
    {
        r.push(vs[i]);
        i = i + 1;
        proof {
            assert(r@ =~= vs@.take(i as int));
        }
    }
    proof {
        assert(vs@.take(vs.len() as int) =~= vs@);
    }
    r
}

impl Clone for Style {
    fn clone(&self) -> (r: Self)
        ensures
            r@ == self@,
    {
        Style {
            opacity: self.opacity,
            fill_color: self.fill_color,
            fill_opacity: self.fill_opacity,
            stroke_color: self.stroke_color,
            stroke_width: self.stroke_width,
            stroke_opacity: self.stroke_opacity,
            stroke_dasharray: match &self.stroke_dasharray {
                Some(vs) => Some(clone_scalars(vs)),
                None => None,
            },
            stroke_linecap: self.stroke_linecap,
            stroke_linejoin: self.stroke_linejoin,
            radius: self.radius,
        }
    }
}

/// The point radius that rendering uses: the set value, else 1.
pub open spec fn eff_radius(m: StyleModel) -> Scalar {
    match m.radius {
        Some(r) => r,
        None => Scalar { centi: 100 },
    }
}

/// The stroke width that bound computation uses: the set value, else 1.
/// Bounds inflate by this default even when rendering emits no stroke.
pub open spec fn stroke_or_default(m: StyleModel) -> Scalar {
    match m.stroke_width {
        Some(w) => w,
        None => Scalar { centi: 100 },
    }
}

/// The same style with the point radius forced to zero, as line bounds
/// use it.
pub open spec fn zero_radius(m: StyleModel) -> StyleModel {
    StyleModel { radius: Some(Scalar { centi: 0 }), ..m }
}

/// First-set-wins choice between two optional attribute values.
pub open spec fn opt_or<T>(a: Option<T>, b: Option<T>) -> Option<T> {
    match a {
        Some(v) => Some(v),
        None => b,
    }
}

/// Fallback-merge: each attribute keeps the left side's value when set,
/// else takes the right side's.
pub open spec fn or_merge(a: StyleModel, b: StyleModel) -> StyleModel {
    StyleModel {
        opacity: opt_or(a.opacity, b.opacity),
        fill_color: opt_or(a.fill_color, b.fill_color),
        fill_opacity: opt_or(a.fill_opacity, b.fill_opacity),
        stroke_color: opt_or(a.stroke_color, b.stroke_color),
        stroke_width: opt_or(a.stroke_width, b.stroke_width),
        stroke_opacity: opt_or(a.stroke_opacity, b.stroke_opacity),
        stroke_dasharray: opt_or(a.stroke_dasharray, b.stroke_dasharray),
        stroke_linecap: opt_or(a.stroke_linecap, b.stroke_linecap),
        stroke_linejoin: opt_or(a.stroke_linejoin, b.stroke_linejoin),
        radius: opt_or(a.radius, b.radius),
    }
}

/// Fallback-merge favors the left operand: for every attribute the
/// merged value is the left side's when the left side has one, and the
/// right side's otherwise, exactly as `Option::or` would choose it.
pub proof fn lemma_or_merge_favors_left(a: StyleModel, b: StyleModel)
    ensures
        or_merge(a, b).opacity == opt_or(a.opacity, b.opacity),
        or_merge(a, b).fill_color == opt_or(a.fill_color, b.fill_color),
        or_merge(a, b).fill_opacity == opt_or(a.fill_opacity, b.fill_opacity),
        or_merge(a, b).stroke_color == opt_or(a.stroke_color, b.stroke_color),
        or_merge(a, b).stroke_width == opt_or(a.stroke_width, b.stroke_width),
        or_merge(a, b).stroke_opacity == opt_or(a.stroke_opacity, b.stroke_opacity),
        or_merge(a, b).stroke_dasharray == opt_or(a.stroke_dasharray, b.stroke_dasharray),
        or_merge(a, b).stroke_linecap == opt_or(a.stroke_linecap, b.stroke_linecap),
        or_merge(a, b).stroke_linejoin == opt_or(a.stroke_linejoin, b.stroke_linejoin),
        or_merge(a, b).radius == opt_or(a.radius, b.radius),
{
}

/// One attribute assignment, as the `with_` builders perform it.
pub enum StyleUpdate {
    Opacity(Scalar),
    /// Fill and stroke color together.
    Color(Color),
    FillColor(Color),
    FillOpacity(Scalar),
    StrokeColor(Color),
    StrokeWidth(Scalar),
    StrokeOpacity(Scalar),
    StrokeDasharray(Vec<Scalar>),
    StrokeLinecap(LineCap),
    StrokeLinejoin(LineJoin),
    Radius(Scalar),
}

/// The mathematical value of a `StyleUpdate`.
pub enum StyleUpdateModel {
    Opacity(Scalar),
    Color(Color),
    FillColor(Color),
    FillOpacity(Scalar),
    StrokeColor(Color),
    StrokeWidth(Scalar),
    StrokeOpacity(Scalar),
    StrokeDasharray(Seq<Scalar>),
    StrokeLinecap(LineCap),
    StrokeLinejoin(LineJoin),
    Radius(Scalar),
}

impl View for StyleUpdate {
    type V = StyleUpdateModel;

    open spec fn view(&self) -> StyleUpdateModel {
        match self {
            StyleUpdate::Opacity(v) => StyleUpdateModel::Opacity(*v),
            StyleUpdate::Color(c) => StyleUpdateModel::Color(*c),
            StyleUpdate::FillColor(c) => StyleUpdateModel::FillColor(*c),
            StyleUpdate::FillOpacity(v) => StyleUpdateModel::FillOpacity(*v),
            StyleUpdate::StrokeColor(c) => StyleUpdateModel::StrokeColor(*c),
            StyleUpdate::StrokeWidth(v) => StyleUpdateModel::StrokeWidth(*v),
            StyleUpdate::StrokeOpacity(v) => StyleUpdateModel::StrokeOpacity(*v),
            StyleUpdate::StrokeDasharray(vs) => StyleUpdateModel::StrokeDasharray(vs@),
            StyleUpdate::StrokeLinecap(c) => StyleUpdateModel::StrokeLinecap(*c),
            StyleUpdate::StrokeLinejoin(j) => StyleUpdateModel::StrokeLinejoin(*j),
            StyleUpdate::Radius(v) => StyleUpdateModel::Radius(*v),
        }
    }
}

/// The style after one attribute assignment.
pub open spec fn apply_update(m: StyleModel, u: StyleUpdateModel) -> StyleModel {
    match u {
        StyleUpdateModel::Opacity(v) => StyleModel { opacity: Some(v), ..m },
        StyleUpdateModel::Color(c) => StyleModel {
            fill_color: Some(c),
            stroke_color: Some(c),
            ..m
        },
        StyleUpdateModel::FillColor(c) => StyleModel { fill_color: Some(c), ..m },
        StyleUpdateModel::FillOpacity(v) => StyleModel { fill_opacity: Some(v), ..m },
        StyleUpdateModel::StrokeColor(c) => StyleModel { stroke_color: Some(c), ..m },
        StyleUpdateModel::StrokeWidth(v) => StyleModel { stroke_width: Some(v), ..m },
        StyleUpdateModel::StrokeOpacity(v) => StyleModel { stroke_opacity: Some(v), ..m },
        StyleUpdateModel::StrokeDasharray(vs) => StyleModel {
            stroke_dasharray: Some(vs),
            ..m
        },
        StyleUpdateModel::StrokeLinecap(c) => StyleModel { stroke_linecap: Some(c), ..m },
        StyleUpdateModel::StrokeLinejoin(j) => StyleModel { stroke_linejoin: Some(j), ..m },
        StyleUpdateModel::Radius(v) => StyleModel { radius: Some(v), ..m },
    }
}

impl Style {
    /// The style after one attribute assignment, leaving `self` as it is.
    pub fn updated(&self, update: &StyleUpdate) -> (r: Style)
        ensures
            r@ == apply_update(self@, update@),
    {
        let mut r: Style = self.clone();
        match update {
            StyleUpdate::Opacity(v) => {
                r.opacity = Some(*v);
            },
            StyleUpdate::Color(c) => {
                r.fill_color = Some(*c);
                r.stroke_color = Some(*c);
            },
            StyleUpdate::FillColor(c) => {
                r.fill_color = Some(*c);
            },
            StyleUpdate::FillOpacity(v) => {
                r.fill_opacity = Some(*v);
            },
            StyleUpdate::StrokeColor(c) => {
                r.stroke_color = Some(*c);
            },
            StyleUpdate::StrokeWidth(v) => {
                r.stroke_width = Some(*v);
            },
            StyleUpdate::StrokeOpacity(v) => {
                r.stroke_opacity = Some(*v);
            },
            StyleUpdate::StrokeDasharray(vs) => {
                r.stroke_dasharray = Some(clone_scalars(vs));
            },
            StyleUpdate::StrokeLinecap(c) => {
                r.stroke_linecap = Some(*c);
            },
            StyleUpdate::StrokeLinejoin(j) => {
                r.stroke_linejoin = Some(*j);
            },
            StyleUpdate::Radius(v) => {
                r.radius = Some(*v);
            },
        }
        r
    }

    /// The point radius that rendering uses.
    pub fn effective_radius(&self) -> (r: Scalar)
        ensures
            r == eff_radius(self@),
    {
        match self.radius {
            Some(r) => r,
            None => Scalar { centi: 100 },
        }
    }

    /// The fallback-merge of this style with `other`: each attribute
    /// keeps this style's value when set, else takes `other`'s.
    pub fn or_merged(&self, other: &Style) -> (r: Style)
        ensures
            r@ == or_merge(self@, other@),
    {
        Style {
            opacity: match self.opacity {
                Some(v) => Some(v),
                None => other.opacity,
            },
            fill_color: match self.fill_color {
                Some(v) => Some(v),
                None => other.fill_color,
            },
            fill_opacity: match self.fill_opacity {
                Some(v) => Some(v),
                None => other.fill_opacity,
            },
            stroke_color: match self.stroke_color {
                Some(v) => Some(v),
                None => other.stroke_color,
            },
            stroke_width: match self.stroke_width {
                Some(v) => Some(v),
                None => other.stroke_width,
            },
            stroke_opacity: match self.stroke_opacity {
                Some(v) => Some(v),
                None => other.stroke_opacity,
            },
            stroke_dasharray: match (&self.stroke_dasharray, &other.stroke_dasharray) {
                (Some(vs), _) => Some(clone_scalars(vs)),
                (None, Some(vs)) => Some(clone_scalars(vs)),
                (None, None) => None,
            },
            stroke_linecap: match self.stroke_linecap {
                Some(v) => Some(v),
                None => other.stroke_linecap,
            },
            stroke_linejoin: match self.stroke_linejoin {
                Some(v) => Some(v),
                None => other.stroke_linejoin,
            },
            radius: match self.radius {
                Some(v) => Some(v),
                None => other.radius,
            },
        }
    }

    /// The stroke width that bound computation uses.
    pub fn bound_stroke(&self) -> (r: Scalar)
        ensures
            r == stroke_or_default(self@),
    {
        match self.stroke_width {
            Some(w) => w,
            None => Scalar { centi: 100 },
        }
    }
}

/// The keyword for a line cap.
pub open spec fn linecap_seq(c: LineCap) -> Seq<char> {
    match c {
        LineCap::Butt => "butt"@,
        LineCap::Round => "round"@,
        LineCap::Square => "square"@,
    }
}

/// The keyword for a line join.
pub open spec fn linejoin_seq(j: LineJoin) -> Seq<char> {
    match j {
        LineJoin::Miter => "miter"@,
        LineJoin::Round => "round"@,
        LineJoin::Bevel => "bevel"@,
    }
}

/// Dash lengths joined by single spaces.
pub open spec fn dash_seq(vs: Seq<Scalar>) -> Seq<char>
    decreases vs.len(),
{
    if vs.len() == 0 {
        Seq::<char>::empty()
    } else if vs.len() == 1 {
        attr_num_seq(vs[0]@)
    } else {
        dash_seq(vs.drop_last()) + " "@ + attr_num_seq(vs.last()@)
    }
}

pub open spec fn opacity_attr(o: Option<Scalar>) -> Seq<char> {
    match o {
        Some(v) => " opacity=\""@ + attr_num_seq(v@) + "\""@,
        None => Seq::<char>::empty(),
    }
}

pub open spec fn fill_attr(c: Option<Color>) -> Seq<char> {
    match c {
        Some(v) => " fill=\""@ + color_seq(v) + "\""@,
        None => Seq::<char>::empty(),
    }
}

pub open spec fn fill_opacity_attr(o: Option<Scalar>) -> Seq<char> {
    match o {
        Some(v) => " fill-opacity=\""@ + attr_num_seq(v@) + "\""@,
        None => Seq::<char>::empty(),
    }
}

pub open spec fn stroke_attr(c: Option<Color>) -> Seq<char> {
    match c {
        Some(v) => " stroke=\""@ + color_seq(v) + "\""@,
        None => Seq::<char>::empty(),
    }
}

pub open spec fn stroke_width_attr(o: Option<Scalar>) -> Seq<char> {
    match o {
        Some(v) => " stroke-width=\""@ + attr_num_seq(v@) + "\""@,
        None => Seq::<char>::empty(),
    }
}

pub open spec fn stroke_opacity_attr(o: Option<Scalar>) -> Seq<char> {
    match o {
        Some(v) => " stroke-opacity=\""@ + attr_num_seq(v@) + "\""@,
        None => Seq::<char>::empty(),
    }
}

pub open spec fn dasharray_attr(d: Option<Seq<Scalar>>) -> Seq<char> {
    match d {
        Some(vs) => " stroke-dasharray=\""@ + dash_seq(vs) + "\""@,
        None => Seq::<char>::empty(),
    }
}

pub open spec fn linecap_attr(c: Option<LineCap>) -> Seq<char> {
    match c {
        Some(v) => " stroke-linecap=\""@ + linecap_seq(v) + "\""@,
        None => Seq::<char>::empty(),
    }
}

pub open spec fn linejoin_attr(j: Option<LineJoin>) -> Seq<char> {
    match j {
        Some(v) => " stroke-linejoin=\""@ + linejoin_seq(v) + "\""@,
        None => Seq::<char>::empty(),
    }
}

/// Every presentation attribute of a style, in the fixed emission order,
/// each preceded by one space; an empty style emits nothing.
pub open spec fn style_seq(m: StyleModel) -> Seq<char> {
    opacity_attr(m.opacity) + fill_attr(m.fill_color) + fill_opacity_attr(m.fill_opacity)
        + stroke_attr(m.stroke_color) + stroke_width_attr(m.stroke_width) + stroke_opacity_attr(
        m.stroke_opacity,
    ) + dasharray_attr(m.stroke_dasharray) + linecap_attr(m.stroke_linecap) + linejoin_attr(
        m.stroke_linejoin,
    )
}

fn push_opacity(out: &mut String, o: Option<Scalar>)
    ensures
        final(out)@ == old(out)@ + opacity_attr(o),
{
    if let Some(v) = o {
        out.append(" opacity=\"");
        v.push_attr_num(out);
        out.append("\"");
    }
    proof {
        assert(final(out)@ =~= old(out)@ + opacity_attr(o));
    }
}

fn push_fill(out: &mut String, c: Option<Color>)
    ensures
        final(out)@ == old(out)@ + fill_attr(c),
{
    if let Some(v) = c {
        out.append(" fill=\"");
        v.push_svg(out);
        out.append("\"");
    }
    proof {
        assert(final(out)@ =~= old(out)@ + fill_attr(c));
    }
}

fn push_fill_opacity(out: &mut String, o: Option<Scalar>)
    ensures
        final(out)@ == old(out)@ + fill_opacity_attr(o),
{
    if let Some(v) = o {
        out.append(" fill-opacity=\"");
        v.push_attr_num(out);
        out.append("\"");
    }
    proof {
        assert(final(out)@ =~= old(out)@ + fill_opacity_attr(o));
    }
}

fn push_stroke(out: &mut String, c: Option<Color>)
    ensures
        final(out)@ == old(out)@ + stroke_attr(c),
{
    if let Some(v) = c {
        out.append(" stroke=\"");
        v.push_svg(out);
        out.append("\"");
    }
    proof {
        assert(final(out)@ =~= old(out)@ + stroke_attr(c));
    }
}

fn push_stroke_width(out: &mut String, o: Option<Scalar>)
    ensures
        final(out)@ == old(out)@ + stroke_width_attr(o),
{
    if let Some(v) = o {
        out.append(" stroke-width=\"");
        v.push_attr_num(out);
        out.append("\"");
    }
    proof {
        assert(final(out)@ =~= old(out)@ + stroke_width_attr(o));
    }
}

fn push_stroke_opacity(out: &mut String, o: Option<Scalar>)
    ensures
        final(out)@ == old(out)@ + stroke_opacity_attr(o),
{
    if let Some(v) = o {
        out.append(" stroke-opacity=\"");
        v.push_attr_num(out);
        out.append("\"");
    }
    proof {
        assert(final(out)@ =~= old(out)@ + stroke_opacity_attr(o));
    }
}

fn push_dasharray(out: &mut String, d: &Option<Vec<Scalar>>)
    ensures
        final(out)@ == old(out)@ + dasharray_attr(
            match *d {
                Some(ref vs) => Some(vs@),
                None => None,
            },
        ),
{
    if let Some(vs) = d {
        out.append(" stroke-dasharray=\"");
        push_dash_values(out, vs);
        out.append("\"");
    }
    proof {
        assert(final(out)@ =~= old(out)@ + dasharray_attr(
            match *d {
                Some(ref vs) => Some(vs@),
                None => None,
            },
        ));
    }
}

fn push_linecap(out: &mut String, c: Option<LineCap>)
    ensures
        final(out)@ == old(out)@ + linecap_attr(c),
{
    if let Some(v) = c {
        out.append(" stroke-linecap=\"");
        match v {
            LineCap::Butt => out.append("butt"),
            LineCap::Round => out.append("round"),
            LineCap::Square => out.append("square"),
        }
        out.append("\"");
    }
    proof {
        assert(final(out)@ =~= old(out)@ + linecap_attr(c));
    }
}

fn push_linejoin(out: &mut String, j: Option<LineJoin>)
    ensures
        final(out)@ == old(out)@ + linejoin_attr(j),
{
    if let Some(v) = j {
        out.append(" stroke-linejoin=\"");
        match v {
            LineJoin::Miter => out.append("miter"),
            LineJoin::Round => out.append("round"),
            LineJoin::Bevel => out.append("bevel"),
        }
        out.append("\"");
    }
    proof {
        assert(final(out)@ =~= old(out)@ + linejoin_attr(j));
    }
}

impl Style {
    /// Append the presentation attributes of this style to `out`.
    pub fn push_attrs(&self, out: &mut String)
        ensures
            final(out)@ == old(out)@ + style_seq(self@),
    {
        let ghost base: Seq<char> = out@;
        let ghost m: StyleModel = self@;
        push_opacity(out, self.opacity);
        push_fill(out, self.fill_color);
        proof {
            assert(out@ =~= base + (opacity_attr(m.opacity) + fill_attr(m.fill_color)));
        }
        push_fill_opacity(out, self.fill_opacity);
        proof {
            assert(out@ =~= base + (opacity_attr(m.opacity) + fill_attr(m.fill_color)
                + fill_opacity_attr(m.fill_opacity)));
        }
        push_stroke(out, self.stroke_color);
        proof {
            assert(out@ =~= base + (opacity_attr(m.opacity) + fill_attr(m.fill_color)
                + fill_opacity_attr(m.fill_opacity) + stroke_attr(m.stroke_color)));
        }
        push_stroke_width(out, self.stroke_width);
        proof {
            assert(out@ =~= base + (opacity_attr(m.opacity) + fill_attr(m.fill_color)
                + fill_opacity_attr(m.fill_opacity) + stroke_attr(m.stroke_color)
                + stroke_width_attr(m.stroke_width)));
        }
        push_stroke_opacity(out, self.stroke_opacity);
        proof {
            assert(out@ =~= base + (opacity_attr(m.opacity) + fill_attr(m.fill_color)
                + fill_opacity_attr(m.fill_opacity) + stroke_attr(m.stroke_color)
                + stroke_width_attr(m.stroke_width) + stroke_opacity_attr(m.stroke_opacity)));
        }
        push_dasharray(out, &self.stroke_dasharray);
        proof {
            assert(out@ =~= base + (opacity_attr(m.opacity) + fill_attr(m.fill_color)
                + fill_opacity_attr(m.fill_opacity) + stroke_attr(m.stroke_color)
                + stroke_width_attr(m.stroke_width) + stroke_opacity_attr(m.stroke_opacity)
                + dasharray_attr(m.stroke_dasharray)));
        }
        push_linecap(out, self.stroke_linecap);
        proof {
            assert(out@ =~= base + (opacity_attr(m.opacity) + fill_attr(m.fill_color)
                + fill_opacity_attr(m.fill_opacity) + stroke_attr(m.stroke_color)
                + stroke_width_attr(m.stroke_width) + stroke_opacity_attr(m.stroke_opacity)
                + dasharray_attr(m.stroke_dasharray) + linecap_attr(m.stroke_linecap)));
        }
        push_linejoin(out, self.stroke_linejoin);
        proof {
            assert(out@ =~= base + (opacity_attr(m.opacity) + fill_attr(m.fill_color)
                + fill_opacity_attr(m.fill_opacity) + stroke_attr(m.stroke_color)
                + stroke_width_attr(m.stroke_width) + stroke_opacity_attr(m.stroke_opacity)
                + dasharray_attr(m.stroke_dasharray) + linecap_attr(m.stroke_linecap)
                + linejoin_attr(m.stroke_linejoin)));
            assert(final(out)@ == old(out)@ + style_seq(self@));
        }
    }

    /// The presentation attributes of this style as a fresh string.
    pub fn attrs_string(&self) -> (r: String)
        ensures
            r@ == style_seq(self@),
    {
        let mut out: String = String::new();
        self.push_attrs(&mut out);
        proof {
            assert(out@ =~= style_seq(self@));
        }
        out
    }
}

/// Append the dash lengths joined by single spaces.
fn push_dash_values(out: &mut String, vs: &Vec<Scalar>)
    ensures
        final(out)@ == old(out)@ + dash_seq(vs@),
{
    let ghost base: Seq<char> = out@;
    let mut i: usize = 0;
    while i < vs.len()
        invariant
            i <= vs.len(),
            out@ == base + dash_seq(vs@.take(i as int)),
        decreases vs.len() - i,
    {
        if i > 0 {
            out.append(" ");
        }
        let v: Scalar = vs[i];
        v.push_attr_num(out);
        i = i + 1;
        proof {
            assert(vs@.take(i as int).drop_last() =~= vs@.take(i - 1 as int));
            assert(vs@.take(i as int).last() == vs@[i - 1 as int]);
            assert(out@ =~= base + dash_seq(vs@.take(i as int)));
        }
    }
    proof {
        assert(vs@.take(vs.len() as int) =~= vs@);
    }
}

} // verus!
