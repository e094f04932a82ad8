//! What is to be drawn, as plain values: styled text, bordered panels, and the
//! rectangles they go to.

use vstd::prelude::*;
use vstd::string::*;

use crate::area::Rect;

verus! {

/// The colours of the program.
#[derive(Clone, Copy, PartialEq, Eq, Structural)]
pub enum Color {
    Dim,
    Frame,
    Wire,
    Hot,
    Lit,
    Ink,
    /// A drum letter that is about to come into the window.
    Near,
    /// A lamp that is off.
    Unlit,
    /// The terminal's own white.
    White,
    /// The terminal's own black.
    Black,
}

impl Color {
    /// Red, green and blue; the terminal's own colours have none.
    pub open spec fn rgb_of(self) -> Option<(u8, u8, u8)> {
        match self {
            Color::Dim => Some((90, 92, 100)),
            Color::Frame => Some((70, 72, 80)),
            Color::Wire => Some((120, 170, 255)),
            Color::Hot => Some((255, 196, 60)),
            Color::Lit => Some((120, 255, 140)),
            Color::Ink => Some((180, 184, 200)),
            Color::Near => Some((150, 152, 160)),
            Color::Unlit => Some((110, 112, 120)),
            Color::White => None,
            Color::Black => None,
        }
    }

    /// Red, green and blue; the terminal's own colours have none.
    pub fn rgb(self) -> (rgb: Option<(u8, u8, u8)>)
        ensures
            rgb == self.rgb_of(),
    {
        match self {
            Color::Dim => Some((90, 92, 100)),
            Color::Frame => Some((70, 72, 80)),
            Color::Wire => Some((120, 170, 255)),
            Color::Hot => Some((255, 196, 60)),
            Color::Lit => Some((120, 255, 140)),
            Color::Ink => Some((180, 184, 200)),
            Color::Near => Some((150, 152, 160)),
            Color::Unlit => Some((110, 112, 120)),
            Color::White => None,
            Color::Black => None,
        }
    }
}

/// How text looks; a colour that is not given is the terminal's.
#[derive(Clone, Copy, PartialEq, Eq, Structural)]
pub struct Style {
    pub fg: Option<Color>,
    pub bg: Option<Color>,
    pub bold: bool,
}

/// Text as the terminal shows it by itself.
pub open spec fn plain() -> Style {
    Style { fg: None, bg: None, bold: false }
}

/// Text in a colour.
pub open spec fn inked(color: Color) -> Style {
    Style { fg: Some(color), bg: None, bold: false }
}

/// Bold text in a colour.
pub open spec fn bold(color: Color) -> Style {
    Style { fg: Some(color), bg: None, bold: true }
}

impl Style {
    /// Text as the terminal shows it by itself.
    pub fn plain() -> (s: Style)
        ensures
            s == plain(),
    {
        Style { fg: None, bg: None, bold: false }
    }

    /// Text in a colour.
    pub fn inked(color: Color) -> (s: Style)
        ensures
            s == inked(color),
    {
        Style { fg: Some(color), bg: None, bold: false }
    }

    /// Bold text in a colour.
    pub fn bold(color: Color) -> (s: Style)
        ensures
            s == bold(color),
    {
        Style { fg: Some(color), bg: None, bold: true }
    }
}

/// A piece of text in one style.
pub struct Span {
    pub text: String,
    pub style: Style,
}

/// The model of a [`Span`].
#[verifier::ext_equal]
pub struct SpanView {
    pub text: Seq<char>,
    pub style: Style,
}

impl View for Span {
    type V = SpanView;

    open spec fn view(&self) -> SpanView {
        SpanView { text: self.text@, style: self.style }
    }
}

/// The models of pieces of text.
pub open spec fn span_views(spans: Seq<Span>) -> Seq<SpanView> {
    Seq::new(spans.len(), |i: int| spans[i]@)
}

/// A line of text.
pub struct Line {
    pub spans: Vec<Span>,
    pub centred: bool,
}

/// The model of a [`Line`].
#[verifier::ext_equal]
pub struct LineView {
    pub spans: Seq<SpanView>,
    pub centred: bool,
}

impl View for Line {
    type V = LineView;

    open spec fn view(&self) -> LineView {
        LineView { spans: span_views(self.spans@), centred: self.centred }
    }
}

/// The models of lines.
pub open spec fn line_views(lines: Seq<Line>) -> Seq<LineView> {
    Seq::new(lines.len(), |i: int| lines[i]@)
}

/// A piece of text in one style.
pub open spec fn span_of(text: Seq<char>, style: Style) -> SpanView {
    SpanView { text, style }
}

/// A line of one piece.
pub open spec fn line_of(text: Seq<char>, style: Style) -> LineView {
    LineView { spans: seq![span_of(text, style)], centred: false }
}

/// A line that is left free.
pub open spec fn free_line() -> LineView {
    LineView { spans: Seq::empty(), centred: false }
}

/// A line of two pieces.
pub open spec fn pair_of(first: SpanView, second: SpanView) -> LineView {
    LineView { spans: seq![first, second], centred: false }
}

/// Appends a piece of text.
pub fn push_span(spans: &mut Vec<Span>, text: String, style: Style)
    ensures
        span_views(final(spans)@) == span_views(old(spans)@).push(span_of(text@, style)),
{
    spans.push(Span { text, style });
    proof {
        assert(span_views(spans@) =~= span_views(old(spans)@).push(span_of(text@, style)));
    }
}

/// Appends a line.
pub fn push_line(lines: &mut Vec<Line>, line: Line)
    ensures
        line_views(final(lines)@) == line_views(old(lines)@).push(line@),
{
    lines.push(line);
    proof {
        assert(line_views(lines@) =~= line_views(old(lines)@).push(line@));
    }
}

/// A line of one piece.
pub fn single(text: String, style: Style) -> (line: Line)
    ensures
        line@ == line_of(text@, style),
{
    let mut spans: Vec<Span> = Vec::new();
    push_span(&mut spans, text, style);
    let line = Line { spans, centred: false };
    proof {
        assert(line@.spans =~= line_of(text@, style).spans);
    }
    line
}

/// A line that is left free.
pub fn blank() -> (line: Line)
    ensures
        line@ == free_line(),
{
    let line = Line { spans: Vec::new(), centred: false };
    proof {
        assert(line@.spans =~= Seq::empty());
    }
    line
}

/// A line of two pieces.
pub fn double(first: String, style: Style, second: String, next: Style) -> (line: Line)
    ensures
        line@ == pair_of(span_of(first@, style), span_of(second@, next)),
{
    let mut spans: Vec<Span> = Vec::new();
    push_span(&mut spans, first, style);
    push_span(&mut spans, second, next);
    let line = Line { spans, centred: false };
    proof {
        assert(line@.spans =~= pair_of(span_of(first@, style), span_of(second@, next)).spans);
    }
    line
}

/// A border on all sides, with a title.
pub struct Border {
    pub color: Color,
    pub title: String,
    /// The title stands in the middle.
    pub centred: bool,
}

/// The model of a [`Border`].
#[verifier::ext_equal]
pub struct BorderView {
    pub color: Color,
    pub title: Seq<char>,
    pub centred: bool,
}

impl View for Border {
    type V = BorderView;

    open spec fn view(&self) -> BorderView {
        BorderView { color: self.color, title: self.title@, centred: self.centred }
    }
}

/// A border with the title on the left.
pub open spec fn titled(color: Color, title: Seq<char>) -> BorderView {
    BorderView { color, title, centred: false }
}

/// Something to draw; later ones go on top of earlier ones.
pub enum Widget {
    /// Wipes the rectangle.
    Clear(Rect),
    /// Draws a border and nothing within it.
    Border(Rect, Border),
    /// Draws lines of text.
    Text(Paragraph),
}

/// Lines of text in a rectangle.
pub struct Paragraph {
    pub area: Rect,
    pub border: Option<Border>,
    pub lines: Vec<Line>,
    /// Long lines go on in the next row.
    pub wrap: bool,
    /// Rows that are scrolled out at the top.
    pub scroll: u16,
}

/// The model of a [`Paragraph`].
#[verifier::ext_equal]
pub struct ParagraphView {
    pub area: Rect,
    pub border: Option<BorderView>,
    pub lines: Seq<LineView>,
    pub wrap: bool,
    pub scroll: u16,
}

impl View for Paragraph {
    type V = ParagraphView;

    open spec fn view(&self) -> ParagraphView {
        ParagraphView {
            area: self.area,
            border: match self.border {
                Some(b) => Some(b@),
                None => None,
            },
            lines: line_views(self.lines@),
            wrap: self.wrap,
            scroll: self.scroll,
        }
    }
}

/// The model of a [`Widget`].
#[verifier::ext_equal]
pub enum WidgetView {
    Clear(Rect),
    Border(Rect, BorderView),
    Text(ParagraphView),
}

impl View for Widget {
    type V = WidgetView;

    open spec fn view(&self) -> WidgetView {
        match self {
            Widget::Clear(r) => WidgetView::Clear(*r),
            Widget::Border(r, b) => WidgetView::Border(*r, b@),
            Widget::Text(p) => WidgetView::Text(p@),
        }
    }
}

/// The models of things to draw.
pub open spec fn widget_views(widgets: Seq<Widget>) -> Seq<WidgetView> {
    Seq::new(widgets.len(), |i: int| widgets[i]@)
}

/// Appends something to draw.
pub fn push_widget(widgets: &mut Vec<Widget>, widget: Widget)
    ensures
        widget_views(final(widgets)@) == widget_views(old(widgets)@).push(widget@),
{
    widgets.push(widget);
    proof {
        assert(widget_views(widgets@) =~= widget_views(old(widgets)@).push(widget@));
    }
}

/// Lines of text without a border.
pub open spec fn bare_text(area: Rect, lines: Seq<LineView>) -> WidgetView {
    WidgetView::Text(ParagraphView { area, border: None, lines, wrap: false, scroll: 0 })
}

/// Lines of text in a panel.
pub open spec fn panel(area: Rect, border: BorderView, lines: Seq<LineView>) -> WidgetView {
    WidgetView::Text(
        ParagraphView { area, border: Some(border), lines, wrap: false, scroll: 0 },
    )
}

/// One line of text without a border.
pub fn bare_line(area: Rect, text: String, style: Style) -> (w: Widget)
    ensures
        w@ == bare_text(area, seq![line_of(text@, style)]),
{
    let mut lines: Vec<Line> = Vec::new();
    push_line(&mut lines, single(text, style));
    proof {
        assert(line_views(lines@) =~= seq![line_of(text@, style)]);
    }
    Widget::Text(Paragraph { area, border: None, lines, wrap: false, scroll: 0 })
}

} // verus!
