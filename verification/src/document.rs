use vstd::prelude::*;

use crate::scalar::{attr_num_seq, Scalar};
use crate::style::{
    apply_update, empty_style, or_merge, style_seq, Style, StyleModel, StyleUpdate,
};
use crate::stylable::Stylable;
use crate::to_svg_str::ToSvgStr;
use crate::unit::{unit_ratio, unit_seq, Unit};
use crate::viewbox::{
    bound_or_zero, vb_empty, vb_height, vb_margin, vb_union, vb_width, ViewBox,
};

verus! {

/// One shape's markup, fixed at the style it was added under.
#[derive(Debug, PartialEq)]
pub struct SVGShape {
    pub content: String,
}

impl View for SVGShape {
    type V = Seq<char>;

    open spec fn view(&self) -> Seq<char> {
        self.content@
    }
}

/// The mathematical value of a document part.
pub struct PartModel {
    pub style: StyleModel,
    pub viewbox: ViewBox,
    pub shapes: Seq<Seq<char>>,
}

/// A group that accumulates shapes under one active style.  Each added
/// shape is rendered at once and its bounds merged in; a later style
/// change never re-renders what was already added.
#[derive(Debug, PartialEq)]
pub struct SVGDocumentPart {
    pub style: Style,
    pub viewbox: ViewBox,
    pub shapes: Vec<SVGShape>,
}

impl View for SVGDocumentPart {
    type V = PartModel;

    open spec fn view(&self) -> PartModel {
        PartModel {
            style: self.style@,
            viewbox: self.viewbox,
            shapes: Seq::new(self.shapes@.len(), |i: int| self.shapes@[i]@),
        }
    }
}

/// The mathematical value of a document.
pub struct DocModel {
    pub style: StyleModel,
    pub viewbox: ViewBox,
    pub parts: Seq<PartModel>,
    pub width: Option<Unit>,
    pub height: Option<Unit>,
}

/// A finished tree of parts: the top-level value that renders to a
/// complete `<svg>` element with the accumulated viewport, the active
/// style's attributes, and every part's content in order.
#[derive(Debug, PartialEq)]
pub struct SVGDocument {
    pub style: Style,
    pub viewbox: ViewBox,
    pub parts: Vec<SVGDocumentPart>,
    pub width: Option<Unit>,
    pub height: Option<Unit>,
}

impl View for SVGDocument {
    type V = DocModel;

    open spec fn view(&self) -> DocModel {
        DocModel {
            style: self.style@,
            viewbox: self.viewbox,
            parts: Seq::new(self.parts@.len(), |i: int| self.parts@[i]@),
            width: self.width,
            height: self.height,
        }
    }
}

/// Collects style settings before any shape is added.
#[derive(Debug, PartialEq)]
pub struct SVGDocumentBuilder {
    pub style: Style,
}

impl View for SVGDocumentBuilder {
    type V = StyleModel;

    open spec fn view(&self) -> StyleModel {
        self.style@
    }
}

impl Default for SVGDocumentBuilder {
    fn default() -> (r: Self)
        ensures
            r@ == empty_style(),
    {
        SVGDocumentBuilder { style: Style::default() }
    }
}

impl SVGDocumentBuilder {
    /// Freeze the collected style and start accepting shapes.
    pub fn finish_style(self) -> (r: SVGDocumentPart)
        ensures
            r@.style == self@,
            r@.viewbox == vb_empty(),
            r@.shapes == Seq::<Seq<char>>::empty(),
    {
        let r: SVGDocumentPart = SVGDocumentPart {
            style: self.style,
            viewbox: ViewBox::empty(),
            shapes: Vec::new(),
        };
        proof {
            assert(r@.shapes =~= Seq::<Seq<char>>::empty());
        }
        r
    }
}

/// The markup of every rendered shape of a part, in the order added.
pub open spec fn shapes_concat(ss: Seq<Seq<char>>) -> Seq<char>
    decreases ss.len(),
{
    if ss.len() == 0 {
        Seq::<char>::empty()
    } else {
        shapes_concat(ss.drop_last()) + ss.last()
    }
}

/// The rendered shapes a run of added shapes contributes.
pub open spec fn shapes_of<S: ToSvgStr>(items: Seq<S>, m: StyleModel) -> Seq<Seq<char>> {
    items.map_values(|s: S| s.spec_svg_str(m))
}

/// The bounds after merging a run of shapes into `init`, in order.
pub open spec fn boxes_fold<S: ToSvgStr>(init: ViewBox, items: Seq<S>, m: StyleModel) -> ViewBox
    decreases items.len(),
{
    if items.len() == 0 {
        init
    } else {
        vb_union(boxes_fold(init, items.drop_last(), m), items.last().spec_viewbox(m))
    }
}

impl SVGDocumentPart {
    /// Render one shape at the current style, fixing its markup, and
    /// merge its bounds in.
    pub fn add_shape<S: ToSvgStr>(self, shapeable: &S) -> (r: Self)
        ensures
            r@.style == self@.style,
            r@.viewbox == vb_union(self@.viewbox, shapeable.spec_viewbox(self@.style)),
            r@.shapes == self@.shapes.push(shapeable.spec_svg_str(self@.style)),
    {
        let ghost pre: PartModel = self@;
        let mut part: SVGDocumentPart = self;
        part.viewbox = part.viewbox.and(&shapeable.viewbox(&part.style));
        let content: String = shapeable.to_svg_str(&part.style);
        part.shapes.push(SVGShape { content });
        proof {
            assert(part@.shapes =~= pre.shapes.push(shapeable.spec_svg_str(pre.style)));
        }
        part
    }

    /// Add a run of shapes, in order.
    pub fn add_shapes<S: ToSvgStr>(self, shapeables: &Vec<S>) -> (r: Self)
        ensures
            r@.style == self@.style,
            r@.viewbox == boxes_fold(self@.viewbox, shapeables@, self@.style),
            r@.shapes == self@.shapes + shapes_of(shapeables@, self@.style),
    {
        let ghost pre: PartModel = self@;
        let mut part: SVGDocumentPart = self;
        let mut i: usize = 0;
        while i < shapeables.len()
            invariant
                i <= shapeables.len(),
                part@.style == pre.style,
                part@.viewbox == boxes_fold(pre.viewbox, shapeables@.take(i as int), pre.style),
                part@.shapes == pre.shapes + shapes_of(shapeables@.take(i as int), pre.style),
            decreases shapeables.len() - i,
        {
            part = part.add_shape(&shapeables[i]);
            i = i + 1;
            proof {
                assert(shapeables@.take(i as int).drop_last() =~= shapeables@.take(i - 1 as int));
                assert(part@.shapes =~= pre.shapes + shapes_of(
                    shapeables@.take(i as int),
                    pre.style,
                ));
            }
        }
        proof {
            assert(shapeables@.take(shapeables.len() as int) =~= shapeables@);
        }
        part
    }

    /// Close this group into a document of one part.  The document's
    /// own style starts empty; the part's style stays with its shapes.
    pub fn finish_shapes(self) -> (r: SVGDocument)
        ensures
            r@.style == empty_style(),
            r@.viewbox == self@.viewbox,
            r@.parts == seq![self@],
            r@.width is None,
            r@.height is None,
    {
        let ghost pre: PartModel = self@;
        let viewbox: ViewBox = self.viewbox;
        let mut parts: Vec<SVGDocumentPart> = Vec::new();
        parts.push(self);
        let r: SVGDocument = SVGDocument {
            style: Style::default(),
            viewbox,
            parts,
            width: None,
            height: None,
        };
        proof {
            assert(r@.parts =~= seq![pre]);
        }
        r
    }

    /// The concatenated markup of this part's shapes.
    pub fn render(&self) -> (r: String)
        ensures
            r@ == shapes_concat(self@.shapes),
    {
        let mut out: String = String::new();
        push_part_content(&mut out, self);
        proof {
            assert(out@ =~= shapes_concat(self@.shapes));
        }
        out
    }
}

/// Append every rendered shape of a part.
fn push_part_content(out: &mut String, part: &SVGDocumentPart)
    ensures
        final(out)@ == old(out)@ + shapes_concat(part@.shapes),
{
    let ghost base: Seq<char> = out@;
    let mut i: usize = 0;
    while i < part.shapes.len()
        invariant
            i <= part.shapes.len(),
            out@ == base + shapes_concat(part@.shapes.take(i as int)),
        decreases part.shapes.len() - i,
    {
        out.append(part.shapes[i].content.as_str());
        i = i + 1;
        proof {
            assert(part@.shapes.take(i as int).drop_last() =~= part@.shapes.take(i - 1 as int));
            assert(part@.shapes.take(i as int).last() == part.shapes@[i - 1 as int]@);
            assert(out@ =~= base + shapes_concat(part@.shapes.take(i as int)));
        }
    }
    proof {
        assert(part@.shapes.take(part.shapes.len() as int) =~= part@.shapes);
    }
}

/// The markup of every part, in order.
pub open spec fn parts_content(parts: Seq<PartModel>) -> Seq<char>
    decreases parts.len(),
{
    if parts.len() == 0 {
        Seq::<char>::empty()
    } else {
        parts_content(parts.drop_last()) + shapes_concat(parts.last().shapes)
    }
}

/// The width attribute a document renders: the requested width, or the
/// height scaled to keep the viewport's aspect ratio.
pub open spec fn doc_width_unit(d: DocModel) -> Unit {
    match d.width {
        Some(w) => w,
        None => match d.height {
            Some(h) => unit_ratio(h, vb_width(d.viewbox), vb_height(d.viewbox)),
            None => Unit::Unitless(Scalar { centi: 0 }),
        },
    }
}

/// The height attribute a document renders: the requested height, or
/// the width scaled to keep the viewport's aspect ratio.
pub open spec fn doc_height_unit(d: DocModel) -> Unit {
    match d.height {
        Some(h) => h,
        None => match d.width {
            Some(w) => unit_ratio(w, vb_height(d.viewbox), vb_width(d.viewbox)),
            None => Unit::Unitless(Scalar { centi: 0 }),
        },
    }
}

/// The explicit size attributes: nothing unless a width or a height was
/// requested, else both, the missing one computed from the aspect
/// ratio.
pub open spec fn size_attrs_seq(d: DocModel) -> Seq<char> {
    match (d.width, d.height) {
        (None, None) => Seq::<char>::empty(),
        _ => " width=\""@ + unit_seq(doc_width_unit(d)) + "\" height=\""@ + unit_seq(
            doc_height_unit(d),
        ) + "\""@,
    }
}

/// The complete markup of a document: the `<svg>` element with the
/// accumulated viewport, any explicit size, the active style's
/// attributes, and every part's content.
pub open spec fn doc_render_seq(d: DocModel) -> Seq<char> {
    "<svg xmlns=\"http://www.w3.org/2000/svg\" preserveAspectRatio=\"xMidYMid meet\" viewBox=\""@
        + attr_num_seq(bound_or_zero(d.viewbox.min_x)@) + " "@ + attr_num_seq(
        bound_or_zero(d.viewbox.min_y)@,
    ) + " "@ + attr_num_seq(vb_width(d.viewbox)@) + " "@ + attr_num_seq(vb_height(d.viewbox)@)
        + "\""@ + size_attrs_seq(d) + " "@ + style_seq(d.style) + ">"@ + parts_content(d.parts)
        + "</svg>"@
}

impl SVGDocument {
    /// Start collecting a style for a new group.
    pub fn style_builder() -> (r: SVGDocumentBuilder)
        ensures
            r@ == empty_style(),
    {
        SVGDocumentBuilder { style: Style::default() }
    }

    /// Combine with another document: bounds united, styles
    /// fallback-merged with this side's settings winning, parts
    /// concatenated with this side's first.
    pub fn and(self, other: Self) -> (r: Self)
        ensures
            r@.style == or_merge(self@.style, other@.style),
            r@.viewbox == vb_union(self@.viewbox, other@.viewbox),
            r@.parts == self@.parts + other@.parts,
            r@.width == self@.width,
            r@.height == self@.height,
    {
        let ghost pre: DocModel = self@;
        let ghost pre_other: DocModel = other@;
        let mut d: SVGDocument = self;
        d.viewbox = d.viewbox.and(&other.viewbox);
        d.style = d.style.or_merged(&other.style);
        let mut others: Vec<SVGDocumentPart> = other.parts;
        d.parts.append(&mut others);
        proof {
            assert(d@.parts =~= pre.parts + pre_other.parts);
        }
        d
    }

    /// Expand the accumulated bounds outward by `margin`.
    pub fn with_margin(self, margin: Scalar) -> (r: Self)
        ensures
            r@ == (DocModel { viewbox: vb_margin(self@.viewbox, margin), ..self@ }),
    {
        let mut d: SVGDocument = self;
        d.viewbox = d.viewbox.with_margin(margin);
        d
    }

    /// Request an explicit width; the height attribute follows the
    /// viewport's aspect ratio unless it is requested too.
    pub fn set_width(&mut self, width: Unit)
        ensures
            final(self)@ == (DocModel { width: Some(width), ..old(self)@ }),
    {
        self.width = Some(width);
    }

    /// Request an explicit height; the width attribute follows the
    /// viewport's aspect ratio unless it is requested too.
    pub fn set_height(&mut self, height: Unit)
        ensures
            final(self)@ == (DocModel { height: Some(height), ..old(self)@ }),
    {
        self.height = Some(height);
    }

    /// The complete markup.  Rendering reads the document and may be
    /// repeated; nothing changes.
    #[verifier::rlimit(100)]
    pub fn render(&self) -> (r: String)
        ensures
            r@ == doc_render_seq(self@),
    {
        let mut out: String = String::new();
        let ghost d: DocModel = self@;
        out.append("<svg xmlns=\"http://www.w3.org/2000/svg\" preserveAspectRatio=\"xMidYMid meet\" viewBox=\"");
        self.viewbox.min_x().push_attr_num(&mut out);
        out.append(" ");
        self.viewbox.min_y().push_attr_num(&mut out);
        out.append(" ");
        self.viewbox.width().push_attr_num(&mut out);
        out.append(" ");
        self.viewbox.height().push_attr_num(&mut out);
        out.append("\"");
        proof {
            assert(out@ =~= "<svg xmlns=\"http://www.w3.org/2000/svg\" preserveAspectRatio=\"xMidYMid meet\" viewBox=\""@
                + attr_num_seq(bound_or_zero(d.viewbox.min_x)@) + " "@ + attr_num_seq(
                bound_or_zero(d.viewbox.min_y)@,
            ) + " "@ + attr_num_seq(vb_width(d.viewbox)@) + " "@ + attr_num_seq(
                vb_height(d.viewbox)@,
            ) + "\""@);
        }
        let ghost header: Seq<char> = out@;
        match (self.width, self.height) {
            (None, None) => {},
            (w_opt, h_opt) => {
                let w: Unit = match (w_opt, h_opt) {
                    (Some(w), _) => w,
                    (None, Some(h)) => h.scale_ratio(self.viewbox.width(), self.viewbox.height()),
                    (None, None) => Unit::Unitless(Scalar { centi: 0 }),
                };
                let h: Unit = match (h_opt, w_opt) {
                    (Some(h), _) => h,
                    (None, Some(w)) => w.scale_ratio(self.viewbox.height(), self.viewbox.width()),
                    (None, None) => Unit::Unitless(Scalar { centi: 0 }),
                };
                proof {
                    assert(w == doc_width_unit(d));
                    assert(h == doc_height_unit(d));
                }
                out.append(" width=\"");
                w.push_svg(&mut out);
                out.append("\" height=\"");
                h.push_svg(&mut out);
                out.append("\"");
            },
        }
        proof {
            assert(out@ =~= header + size_attrs_seq(d));
        }
        let ghost sized: Seq<char> = out@;
        out.append(" ");
        self.style.push_attrs(&mut out);
        out.append(">");
        proof {
            assert(out@ =~= sized + (" "@ + style_seq(d.style) + ">"@));
        }
        let ghost open_tag: Seq<char> = out@;
        let mut i: usize = 0;
        while i < self.parts.len()
            invariant
                i <= self.parts.len(),
                out@ == open_tag + parts_content(d.parts.take(i as int)),
                d == self@,
                open_tag == header + size_attrs_seq(d) + (" "@ + style_seq(d.style) + ">"@),
            decreases self.parts.len() - i,
        {
            push_part_content(&mut out, &self.parts[i]);
            i = i + 1;
            proof {
                assert(d.parts.take(i as int).drop_last() =~= d.parts.take(i - 1 as int));
                assert(d.parts.take(i as int).last() == self.parts@[i - 1 as int]@);
                assert(out@ =~= open_tag + parts_content(d.parts.take(i as int)));
            }
        }
        proof {
            assert(d.parts.take(self.parts.len() as int) =~= d.parts);
        }
        out.append("</svg>");
        proof {
            assert(out@ =~= doc_render_seq(self@));
        }
        out
    }
}

/// A group to which no shape was added renders an empty content string,
/// and its document's viewport degrades to the stable fallback: absent
/// bounds read as 0, and the width and height fall back to 0.
pub proof fn lemma_empty_group_renders_blank(s: StyleModel)
    ensures
        parts_content(seq![PartModel { style: s, viewbox: vb_empty(), shapes: Seq::empty() }])
            == Seq::<char>::empty(),
        bound_or_zero(vb_empty().min_x)@ == 0,
        bound_or_zero(vb_empty().min_y)@ == 0,
        vb_width(vb_empty())@ == 0,
        vb_height(vb_empty())@ == 0,
{
    let p: PartModel = PartModel { style: s, viewbox: vb_empty(), shapes: Seq::empty() };
    assert(seq![p].drop_last() =~= Seq::<PartModel>::empty());
    assert(seq![p].last() == p);
    assert(parts_content(Seq::<PartModel>::empty()) == Seq::<char>::empty());
    assert(shapes_concat(Seq::<Seq<char>>::empty()) == Seq::<char>::empty());
    assert(parts_content(seq![p]) =~= Seq::<char>::empty());
}

impl Stylable for SVGDocumentBuilder {
    open spec fn styles(&self) -> Seq<StyleModel> {
        seq![self@]
    }

    open spec fn same_but_styles(&self, other: &Self) -> bool {
        true
    }

    fn styled(self, update: &StyleUpdate) -> (r: Self) {
        let r: SVGDocumentBuilder = SVGDocumentBuilder { style: self.style.updated(update) };
        proof {
            assert(r.styles() =~= self.styles().map_values(
                |m: StyleModel| apply_update(m, update@),
            ));
        }
        r
    }

    fn use_style(self, other: &Style) -> (r: Self) {
        let r: SVGDocumentBuilder = SVGDocumentBuilder { style: other.clone() };
        proof {
            assert(r.styles() =~= Seq::new(self.styles().len(), |i: int| other@));
        }
        r
    }

    fn or_style(self, other: &Style) -> (r: Self) {
        let r: SVGDocumentBuilder = SVGDocumentBuilder { style: self.style.or_merged(other) };
        proof {
            assert(r.styles() =~= self.styles().update(0, or_merge(self.styles()[0], other@)));
        }
        r
    }
}

impl Stylable for SVGDocument {
    open spec fn styles(&self) -> Seq<StyleModel> {
        seq![self@.style] + self@.parts.map_values(|p: PartModel| p.style)
    }

    open spec fn same_but_styles(&self, other: &Self) -> bool {
        &&& self@.viewbox == other@.viewbox
        &&& self@.width == other@.width
        &&& self@.height == other@.height
        &&& self@.parts.len() == other@.parts.len()
        &&& forall|i: int|
            0 <= i < self@.parts.len() ==> #[trigger] other@.parts[i].shapes
                == self@.parts[i].shapes
        &&& forall|i: int|
            0 <= i < self@.parts.len() ==> #[trigger] other@.parts[i].viewbox
                == self@.parts[i].viewbox
    }

    fn styled(self, update: &StyleUpdate) -> (r: Self) {
        let ghost pre: DocModel = self@;
        let ghost pre_styles: Seq<StyleModel> = self.styles();
        let mut d: SVGDocument = self;
        d.style = d.style.updated(update);
        let mut i: usize = 0;
        while i < d.parts.len()
            invariant
                i <= d.parts.len(),
                d.parts@.len() == pre.parts.len(),
                d.style@ == apply_update(pre.style, update@),
                d.viewbox == pre.viewbox,
                d.width == pre.width,
                d.height == pre.height,
                forall|j: int|
                    0 <= j < i ==> #[trigger] d.parts@[j]@.style == apply_update(
                        pre.parts[j].style,
                        update@,
                    ),
                forall|j: int| 0 <= j < i ==> #[trigger] d.parts@[j]@.shapes == pre.parts[j].shapes,
                forall|j: int|
                    0 <= j < i ==> #[trigger] d.parts@[j]@.viewbox == pre.parts[j].viewbox,
                forall|j: int|
                    i <= j < d.parts@.len() ==> #[trigger] d.parts@[j]@ == pre.parts[j],
            decreases d.parts.len() - i,
        {
            let mut tmp: SVGDocumentPart = SVGDocumentPart {
                style: Style::default(),
                viewbox: ViewBox::empty(),
                shapes: Vec::new(),
            };
            d.parts.set_and_swap(i, &mut tmp);
            proof {
                assert(tmp@ == pre.parts[i as int]);
            }
            let new_style: Style = tmp.style.updated(update);
            proof {
                assert(new_style@ == apply_update(pre.parts[i as int].style, update@));
            }
            tmp.style = new_style;
            proof {
                assert(tmp@.style == apply_update(pre.parts[i as int].style, update@));
                assert(tmp@.shapes == pre.parts[i as int].shapes);
            }
            d.parts.set_and_swap(i, &mut tmp);
            proof {
                assert(d.parts@[i as int]@.style == apply_update(
                    pre.parts[i as int].style,
                    update@,
                ));
            }
            i = i + 1;
            proof {
                assert(d.parts@[i - 1 as int]@.style == apply_update(
                    pre.parts[i - 1 as int].style,
                    update@,
                ));
                assert(d.parts@[i - 1 as int]@.shapes == pre.parts[i - 1 as int].shapes);
                assert(d.parts@[i - 1 as int]@.viewbox == pre.parts[i - 1 as int].viewbox);
                assert(forall|j: int|
                    0 <= j < i - 1 ==> #[trigger] d.parts@[j]@.style == apply_update(
                        pre.parts[j].style,
                        update@,
                    ) && d.parts@[j]@.shapes == pre.parts[j].shapes && d.parts@[j]@.viewbox
                        == pre.parts[j].viewbox);
                assert(forall|j: int| i <= j < d.parts@.len() ==> #[trigger] d.parts@[j]@
                    == pre.parts[j]);
            }
        }
        proof {
            assert(d.styles() =~= pre_styles.map_values(
                |m: StyleModel| apply_update(m, update@),
            ));
        }
        d
    }

    fn use_style(self, other: &Style) -> (r: Self) {
        let ghost pre: DocModel = self@;
        let ghost pre_styles: Seq<StyleModel> = self.styles();
        let mut d: SVGDocument = self;
        d.style = other.clone();
        let mut i: usize = 0;
        while i < d.parts.len()
            invariant
                i <= d.parts.len(),
                d.parts@.len() == pre.parts.len(),
                d.style@ == other@,
                d.viewbox == pre.viewbox,
                d.width == pre.width,
                d.height == pre.height,
                forall|j: int| 0 <= j < i ==> #[trigger] d.parts@[j]@.style == other@,
                forall|j: int| 0 <= j < i ==> #[trigger] d.parts@[j]@.shapes == pre.parts[j].shapes,
                forall|j: int|
                    0 <= j < i ==> #[trigger] d.parts@[j]@.viewbox == pre.parts[j].viewbox,
                forall|j: int|
                    i <= j < d.parts@.len() ==> #[trigger] d.parts@[j]@ == pre.parts[j],
            decreases d.parts.len() - i,
        {
            let mut tmp: SVGDocumentPart = SVGDocumentPart {
                style: Style::default(),
                viewbox: ViewBox::empty(),
                shapes: Vec::new(),
            };
            d.parts.set_and_swap(i, &mut tmp);
            proof {
                assert(tmp@ == pre.parts[i as int]);
            }
            tmp.style = other.clone();
            proof {
                assert(tmp@.style == other@);
                assert(tmp@.shapes == pre.parts[i as int].shapes);
            }
            d.parts.set_and_swap(i, &mut tmp);
            proof {
                assert(d.parts@[i as int]@.style == other@);
            }
            i = i + 1;
        }
        proof {
            assert(d.styles() =~= Seq::new(pre_styles.len(), |i: int| other@));
        }
        d
    }

    fn or_style(self, other: &Style) -> (r: Self) {
        let ghost pre: DocModel = self@;
        let ghost pre_styles: Seq<StyleModel> = self.styles();
        let mut d: SVGDocument = self;
        d.style = d.style.or_merged(other);
        proof {
            assert(d.styles() =~= pre_styles.update(0, or_merge(pre_styles[0], other@)));
        }
        d
    }
}

} // verus!
