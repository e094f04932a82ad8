//! Whole screens: which panels are shown, and where.

use vstd::prelude::*;
use vstd::string::*;

use crate::area::{
    can_split_into, divide, has_middle, inside_lies_within, is_division, lies_within,
    middle_lies_within, middle_of, Axis, Extent, Rect,
};
use crate::help::{help_screen, help_view};
use crate::paint::{push_widget, widget_views, Color, Widget, WidgetView};
use crate::panels::{
    drum_view, footer_styled, footer_view, lampboard, lampboard_view, rotor_drum, settings_line,
    settings_view, signal_path, signal_view, tape_view, text_log, Drum,
};
use crate::session::{App, AppView, Screen};
use crate::setup::{setup_overlay, setup_view};

verus! {

/// The three drums side by side.
pub open spec fn drums_view(app: AppView, drums: Seq<Drum>, cols: Seq<Rect>) -> Seq<WidgetView> {
    seq![
        drum_view(app.machine.left.spec.name@, drums[0], cols[0]),
        drum_view(app.machine.middle.spec.name@, drums[1], cols[1]),
        drum_view(app.machine.right.spec.name@, drums[2], cols[2]),
    ]
}

/// The message in the footer, or else the keys that can be used.
pub open spec fn bottom_view(app: AppView, area: Rect) -> WidgetView {
    match app.status {
        Some(s) => footer_view(area, s.0, Color::Lit),
        None => footer_view(
            area,
            "A-Z encipher   Tab setup   ? help   Ctrl+S save   Ctrl+R reset   Esc quit"@,
            Color::Dim,
        ),
    }
}

/// The run screen on six rows, the drums on three columns.
pub open spec fn run_view(
    app: AppView,
    drums: Seq<Drum>,
    rows: Seq<Rect>,
    cols: Seq<Rect>,
) -> Seq<WidgetView> {
    seq![settings_view(app, rows[0])] + drums_view(app, drums, cols) + seq![
        signal_view(app, rows[2]),
        lampboard_view(app, rows[3]),
        tape_view(app, rows[4]),
        bottom_view(app, rows[5]),
    ]
}

/// What is shown: the run screen, with the setup screen over it if that is open,
/// or the help screen.
pub open spec fn screen_view(
    app: AppView,
    drums: Seq<Drum>,
    area: Rect,
    rows: Seq<Rect>,
    cols: Seq<Rect>,
) -> Seq<WidgetView> {
    match app.screen {
        Screen::Run => run_view(app, drums, rows, cols),
        Screen::Setup => run_view(app, drums, rows, cols) + setup_view(app, area),
        Screen::Help => help_view(area, app.help_scroll),
    }
}

/// The heights of the rows: settings, drums, signal path, lamps, tape, footer.
pub open spec fn row_extents() -> Seq<Extent> {
    seq![
        Extent::Length(1),
        Extent::Length(9),
        Extent::Length(4),
        Extent::Length(5),
        Extent::Min(3),
        Extent::Length(1),
    ]
}

/// The widths of the drums.
pub open spec fn column_extents() -> Seq<Extent> {
    seq![Extent::Ratio(1, 3), Extent::Ratio(1, 3), Extent::Ratio(1, 3)]
}

/// The rows of the terminal, and the columns of the second of them.
pub open spec fn is_grid(area: Rect, rows: Seq<Rect>, cols: Seq<Rect>) -> bool {
    &&& can_split_into(Axis::Down, row_extents(), area, rows)
    &&& is_division(rows, Axis::Down, 6, area)
    &&& can_split_into(Axis::Across, column_extents(), rows[1], cols)
    &&& is_division(cols, Axis::Across, 3, rows[1])
}

/// The rectangle that something is drawn in.
pub open spec fn place(widget: WidgetView) -> Rect {
    match widget {
        WidgetView::Clear(area) => area,
        WidgetView::Border(area, _) => area,
        WidgetView::Text(paragraph) => paragraph.area,
    }
}

/// Everything that is shown lies within the terminal.
pub proof fn nothing_sticks_out(
    app: AppView,
    drums: Seq<Drum>,
    area: Rect,
    rows: Seq<Rect>,
    cols: Seq<Rect>,
    i: int,
)
    requires
        app.screen != Screen::Help ==> is_grid(area, rows, cols),
        app.screen == Screen::Setup ==> has_middle(64, 20, area),
        0 <= i < screen_view(app, drums, area, rows, cols).len(),
    ensures
        lies_within(place(screen_view(app, drums, area, rows, cols)[i]), area),
{
    inside_lies_within(area);
    if app.screen != Screen::Help {
        assert(lies_within(rows[1], area));
        assert(forall|k: int| 0 <= k < 3 ==> lies_within(#[trigger] cols[k], rows[1]));
    }
    if app.screen == Screen::Setup {
        middle_lies_within(64, 20, area);
        inside_lies_within(middle_of(64, 20, area));
    }
}

/// The three drums side by side.
pub fn rotor_drums(app: &App, drums: &[Drum; 3], cols: &Vec<Rect>) -> (widgets: Vec<Widget>)
    requires
        forall|i: int| 0 <= i < 3 ==> (#[trigger] drums[i]).is_in_range(),
        cols.len() == 3,
    ensures
        widget_views(widgets@) == drums_view(app@, drums@, cols@),
{
    let r = &app.machine.rotors;
    let mut widgets: Vec<Widget> = Vec::new();
    push_widget(&mut widgets, rotor_drum(r[0].spec.name, &drums[0], cols[0]));
    push_widget(&mut widgets, rotor_drum(r[1].spec.name, &drums[1], cols[1]));
    push_widget(&mut widgets, rotor_drum(r[2].spec.name, &drums[2], cols[2]));
    proof {
        assert(widget_views(widgets@) =~= drums_view(app@, drums@, cols@));
    }
    widgets
}

/// Appends things to draw.
fn append_widgets(widgets: &mut Vec<Widget>, mut more: Vec<Widget>)
    ensures
        widget_views(final(widgets)@) == widget_views(old(widgets)@) + widget_views(more@),
{
    let ghost added = more@;
    widgets.append(&mut more);
    proof {
        assert(widget_views(widgets@) =~= widget_views(old(widgets)@) + widget_views(added));
    }
}

/// The run screen on six rows, the drums on three columns.
pub fn run_screen(app: &App, drums: &[Drum; 3], rows: &Vec<Rect>, cols: &Vec<Rect>) -> (widgets:
    Vec<Widget>)
    requires
        app@.wf(),
        forall|i: int| 0 <= i < 3 ==> (#[trigger] drums[i]).is_in_range(),
        rows.len() == 6,
        cols.len() == 3,
    ensures
        widget_views(widgets@) == run_view(app@, drums@, rows@, cols@),
{
    let mut widgets: Vec<Widget> = Vec::new();
    push_widget(&mut widgets, settings_line(app, rows[0]));
    append_widgets(&mut widgets, rotor_drums(app, drums, cols));
    push_widget(&mut widgets, signal_path(app, rows[2]));
    push_widget(&mut widgets, lampboard(app, rows[3]));
    push_widget(&mut widgets, text_log(app, rows[4]));
    let bottom = match &app.status {
        Some(s) => footer_styled(rows[5], s.0.as_str(), Color::Lit),
        None => footer_styled(
            rows[5],
            "A-Z encipher   Tab setup   ? help   Ctrl+S save   Ctrl+R reset   Esc quit",
            Color::Dim,
        ),
    };
    assert(bottom@ == bottom_view(app@, rows@[5]));
    push_widget(&mut widgets, bottom);
    proof {
        assert(widget_views(widgets@) =~= run_view(app@, drums@, rows@, cols@));
    }
    widgets
}

/// What is shown on a terminal that has been divided into rows and columns.
pub fn compose(
    app: &App,
    drums: &[Drum; 3],
    area: Rect,
    rows: &Vec<Rect>,
    cols: &Vec<Rect>,
) -> (widgets: Vec<Widget>)
    requires
        app@.wf(),
        app.screen == Screen::Setup ==> has_middle(64, 20, area),
        app.screen != Screen::Help ==> forall|i: int|
            0 <= i < 3 ==> (#[trigger] drums[i]).is_in_range(),
        app.screen != Screen::Help ==> rows.len() == 6 && cols.len() == 3,
    ensures
        widget_views(widgets@) == screen_view(app@, drums@, area, rows@, cols@),
{
    match app.screen {
        Screen::Run => run_screen(app, drums, rows, cols),
        Screen::Setup => {
            let mut widgets = run_screen(app, drums, rows, cols);
            append_widgets(&mut widgets, setup_overlay(app, area));
            widgets
        },
        Screen::Help => help_screen(area, app.help_scroll),
    }
}

/// What is shown on a terminal: the settings, the drums, the signal path, the
/// lamps, the tape and the footer, one below the other.
pub fn ui(app: &App, drums: &[Drum; 3], area: Rect) -> (widgets: Vec<Widget>)
    requires
        app@.wf(),
        app.screen == Screen::Setup ==> has_middle(64, 20, area),
        app.screen != Screen::Help ==> forall|i: int|
            0 <= i < 3 ==> (#[trigger] drums[i]).is_in_range(),
    ensures
        app.screen == Screen::Help ==> widget_views(widgets@) == help_view(area, app.help_scroll),
        app.screen != Screen::Help ==> exists|rows: Seq<Rect>, cols: Seq<Rect>| #[trigger]
            is_grid(area, rows, cols) && widget_views(widgets@) == screen_view(
                app@,
                drums@,
                area,
                rows,
                cols,
            ),
{
    if app.screen == Screen::Help {
        return help_screen(area, app.help_scroll);
    }
    let mut heights: Vec<Extent> = Vec::new();
    heights.push(Extent::Length(1));
    heights.push(Extent::Length(9));
    heights.push(Extent::Length(4));
    heights.push(Extent::Length(5));
    heights.push(Extent::Min(3));
    heights.push(Extent::Length(1));
    let mut widths: Vec<Extent> = Vec::new();
    widths.push(Extent::Ratio(1, 3));
    widths.push(Extent::Ratio(1, 3));
    widths.push(Extent::Ratio(1, 3));
    proof {
        assert(heights@ =~= row_extents());
        assert(widths@ =~= column_extents());
    }
    let rows = divide(Axis::Down, &heights, area);
    let cols = divide(Axis::Across, &widths, rows[1]);
    assert(is_grid(area, rows@, cols@));
    compose(app, drums, area, &rows, &cols)
}

} // verus!
