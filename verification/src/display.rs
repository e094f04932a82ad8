//! What stands on the screens, told by what a reader sees in which place.

use vstd::prelude::*;
use vstd::string::*;

use crate::area::{can_split_into, inside, lies_within, middle_of, spans, Axis, Extent, Rect};
use crate::enigma::{REFLECTORS, ROTORS};
use crate::help::{help_view, BLANK, BODY, HEADING, HELP};
use crate::mechanism::the_current_passes_part_by_part;
use crate::paint::{bold, inked, plain, span_of, BorderView, Color, LineView, WidgetView};
use crate::panels::{
    box_row, box_span, drum_view, lampboard_view, letter_row, letter_span, settings_view,
    signal_view, tape_view, wire_span, Drum, Shade, LAMPS, SIGNAL_LABELS,
};
use crate::record::Event;
use crate::screen::{
    bottom_view, column_extents, is_grid, place, row_extents, run_view, screen_view,
};
use crate::session::{AppView, Key, Screen};
use crate::setup::{cables_listed, plug_field, setup_lines, setup_view};
use crate::text::{centred, contact_of, decimal, grouped, left_aligned, letter_of};

verus! {

/// The lines of text of something that is drawn.
pub open spec fn lines_of(w: WidgetView) -> Seq<LineView> {
    w->Text_0.lines
}

/// The path that is shown is that of the last letter on the tape, from its key to its
/// lamp.
pub open spec fn replays_the_last_letter(s: AppView) -> bool {
    s.anim matches Some(a) ==> {
        &&& s.plaintext.len() > 0 && s.ciphertext.len() > 0
        &&& a.trace.hops.len() == 10
        &&& letter_of(a.trace.hops[0].input) == s.plaintext.last()
        &&& letter_of(a.trace.hops[9].output) == s.ciphertext.last()
        &&& letter_of(a.trace.lamp) == s.ciphertext.last()
    }
}

/// Nothing that happens to a session parts the path that is shown from the tape.
pub proof fn every_event_keeps_the_replay(s: AppView, event: Event)
    requires
        replays_the_last_letter(s),
    ensures
        replays_the_last_letter(s.after(event)),
{
    match event {
        Event::Key(key, ctrl, now) => {
            match key {
                Key::Char(c) => {
                    match contact_of(c) {
                        Some(v) => {
                            the_current_passes_part_by_part(s.machine, v);
                        },
                        None => {},
                    }
                },
                _ => {},
            }
        },
        _ => {},
    }
}

/// In every session the path that is shown is that of the last letter on the tape.
pub proof fn every_session_replays_the_last_letter(events: Seq<Event>)
    ensures
        replays_the_last_letter(AppView::initial().after_all(events)),
    decreases events.len(),
{
    if events.len() > 0 {
        every_session_replays_the_last_letter(events.drop_last());
        every_event_keeps_the_replay(
            AppView::initial().after_all(events.drop_last()),
            events.last(),
        );
    }
}

/// The letters stand at every second place, with a space behind each.
proof fn lemma_letter_row(app: AppView, n: nat, i: int)
    requires
        0 <= i < n,
    ensures
        letter_row(app, n).len() == 2 * n + 1,
        letter_row(app, n)[0] == span_of("  "@, plain()),
        letter_row(app, n)[2 * i + 1] == letter_span(app, i),
        letter_row(app, n)[2 * i + 2] == span_of(" "@, plain()),
    decreases n,
{
    let fewer = (n - 1) as nat;
    if n == 1 {
        assert(letter_row(app, 0).len() == 1);
    } else if i < n - 1 {
        lemma_letter_row(app, fewer, i);
    } else {
        lemma_letter_row(app, fewer, 0);
    }
}

/// The boxes stand at every second place, with a wire behind each.
proof fn lemma_box_row(app: AppView, n: nat, i: int)
    requires
        0 <= i < n,
    ensures
        box_row(app, n).len() == 2 * n + 1,
        box_row(app, n)[0] == span_of("  "@, plain()),
        box_row(app, n)[2 * i + 1] == box_span(app, i),
        box_row(app, n)[2 * i + 2] == wire_span(app, i),
    decreases n,
{
    let fewer = (n - 1) as nat;
    if n == 1 {
        assert(box_row(app, 0).len() == 1);
    } else if i < n - 1 {
        lemma_box_row(app, fewer, i);
    } else {
        lemma_box_row(app, fewer, 0);
    }
}

/// Whenever a signal path is shown, the letter over its first place is the letter that
/// was typed last, the letter over each later place is what the hop that leads there
/// makes of the signal, and the letter over the last place is the last letter of the
/// ciphertext. Without a path there are no letters.
pub proof fn the_path_is_spelt_out(events: Seq<Event>, area: Rect, i: int)
    requires
        0 <= i < 11,
    ensures
        ({
            let s = AppView::initial().after_all(events);
            let top = lines_of(signal_view(s, area))[0].spans;
            &&& top.len() == 23
            &&& top[2 * i + 1].text.len() == 3
            &&& top[2 * i + 1].text[0] == ' ' && top[2 * i + 1].text[2] == ' '
            &&& s.anim is None ==> top[2 * i + 1].text[1] == ' '
            &&& s.anim matches Some(a) ==> {
                &&& top[1].text[1] == s.plaintext.last()
                &&& i > 0 ==> top[2 * i + 1].text[1] == letter_of(a.trace.hops[i - 1].output)
                &&& top[21].text[1] == s.ciphertext.last()
            }
        }),
{
    reveal_strlit(" ");
    let s = AppView::initial().after_all(events);
    every_session_replays_the_last_letter(events);
    lemma_letter_row(s, 11, i);
    lemma_letter_row(s, 11, 0);
    lemma_letter_row(s, 11, 10);
    let top = lines_of(signal_view(s, area))[0].spans;
    assert(top == letter_row(s, 11));
    assert(top[2 * i + 1] == letter_span(s, i));
    assert(top[1] == letter_span(s, 0));
    assert(top[21] == letter_span(s, 10));
}

/// The boxes below the letters are labelled from the keyboard to the lamps; the place
/// where the signal is stands out, those that it has passed are lit, but for the
/// keyboard, and those before it are dim. So are the wires behind them, and the
/// letters above.
pub proof fn the_signal_lights_its_way(s: AppView, area: Rect, i: int)
    requires
        0 <= i < 11,
    ensures
        ({
            let top = lines_of(signal_view(s, area))[0].spans;
            let mid = lines_of(signal_view(s, area))[1].spans;
            let here = s.anim is Some && i == s.anim.unwrap().hop;
            let passed = s.anim is Some && 0 < i < s.anim.unwrap().hop;
            &&& lines_of(signal_view(s, area)).len() == 2
            &&& mid.len() == 23
            &&& mid[2 * i + 1].text == "["@ + centred(SIGNAL_LABELS[i]@, 3) + "]"@
            &&& mid[2 * i + 2].text == "-"@
            &&& mid[2 * i + 1].style.fg == Some(
                if here {
                    Color::Hot
                } else if passed {
                    Color::Wire
                } else {
                    Color::Dim
                },
            )
            &&& mid[2 * i + 2].style.fg == Some(
                if passed || (here && i > 0) {
                    Color::Wire
                } else {
                    Color::Dim
                },
            )
            &&& top[2 * i + 1].style.fg == Some(
                if here {
                    Color::Hot
                } else if passed {
                    Color::White
                } else {
                    Color::Dim
                },
            )
            &&& top[2 * i + 1].style.bold == here
        }),
{
    lemma_letter_row(s, 11, i);
    lemma_box_row(s, 11, i);
}

/// The places of the signal path, in the order in which the current passes them.
pub proof fn the_places_of_the_path()
    ensures
        SIGNAL_LABELS[0]@ == "KB"@,
        SIGNAL_LABELS[1]@ == "S"@ && SIGNAL_LABELS[9]@ == "S"@,
        SIGNAL_LABELS[2]@ == "R"@ && SIGNAL_LABELS[8]@ == "R"@,
        SIGNAL_LABELS[3]@ == "M"@ && SIGNAL_LABELS[7]@ == "M"@,
        SIGNAL_LABELS[4]@ == "L"@ && SIGNAL_LABELS[6]@ == "L"@,
        SIGNAL_LABELS[5]@ == "UKW"@,
        SIGNAL_LABELS[10]@ == "LMP"@,
{
}

/// The lampboard shows every letter of its rows, set in by two cells and two more for
/// each row; exactly the lamp of the letter that is lit stands out.
pub proof fn one_lamp_is_lit(s: AppView, area: Rect, row: int, i: int)
    requires
        0 <= row < 3,
        0 <= i < LAMPS[row]@.len(),
    ensures
        ({
            let lines = lines_of(lampboard_view(s, area));
            let lamp = lines[row].spans[i + 1];
            let c = LAMPS[row]@[i];
            let on = s.live_lamp() is Some && (c as int == 65 + s.live_lamp().unwrap());
            &&& lines.len() == 3
            &&& lines[row].spans.len() == LAMPS[row]@.len() + 1
            &&& lines[row].spans[0].text.len() == 2 * row + 2
            &&& lamp.text == seq![' ', c, ' ']
            &&& lamp.style.bold == on
            &&& lamp.style.bg == if on {
                Some(Color::Lit)
            } else {
                None
            }
            &&& lamp.style.fg == Some(
                if on {
                    Color::Black
                } else {
                    Color::Unlit
                },
            )
        }),
{
    reveal_strlit(" ");
    reveal_strlit("QWERTZUIO");
    reveal_strlit("ASDFGHJK");
    reveal_strlit("PYXCVBNML");
    let c = LAMPS[row]@[i];
    assert('A' <= c <= 'Z');
    assert(" "@ + seq![c] + " "@ =~= seq![' ', c, ' ']);
}

/// The keys of the three rows of lamps.
pub proof fn the_rows_of_lamps()
    ensures
        LAMPS[0]@ == "QWERTZUIO"@,
        LAMPS[1]@ == "ASDFGHJK"@,
        LAMPS[2]@ == "PYXCVBNML"@,
{
}

/// In every session the lamp that is lit, if any, is that of the last letter of the
/// ciphertext.
pub proof fn the_lit_lamp_is_the_last_letter(events: Seq<Event>)
    ensures
        ({
            let s = AppView::initial().after_all(events);
            s.live_lamp() matches Some(v) ==> s.ciphertext.len() > 0 && s.ciphertext.last()
                == letter_of(v)
        }),
{
    every_session_replays_the_last_letter(events);
}

/// The tape shows what was typed in its first line and what came out in its second,
/// in groups of five.
pub proof fn the_tape_shows_both_texts(s: AppView, area: Rect)
    ensures
        ({
            let lines = lines_of(tape_view(s, area));
            &&& lines.len() == 2
            &&& lines[0].spans.len() == 2 && lines[1].spans.len() == 2
            &&& lines[0].spans[0].text == "  in   "@ && lines[0].spans[1].text == grouped(s.plaintext)
            &&& lines[1].spans[0].text == "  out  "@ && lines[1].spans[1].text == grouped(
                s.ciphertext,
            )
        }),
{
}

/// The top line names the rotors from left to right, the reflector, the ring settings
/// of the rotors, the letters in their windows and the number of cables, in this
/// order.
pub proof fn the_top_line(s: AppView, area: Rect)
    ensures
        lines_of(settings_view(s, area)).len() == 1,
        lines_of(settings_view(s, area))[0].spans.len() == 1,
        lines_of(settings_view(s, area))[0].spans[0].text == "  Rotors "@ + s.machine.left.spec.name@
            + "-"@ + s.machine.middle.spec.name@ + "-"@ + s.machine.right.spec.name@
            + "    Reflector "@ + REFLECTORS[s.config.reflector as int].0@ + "    Ring "@ + seq![
            letter_of(s.machine.left.ring),
            letter_of(s.machine.middle.ring),
            letter_of(s.machine.right.ring),
        ] + "    Window "@ + seq![
            letter_of(s.machine.left.position),
            letter_of(s.machine.middle.position),
            letter_of(s.machine.right.position),
        ] + "    Plugs "@ + decimal(s.config.plugs.len()),
{
}

/// A drum shows five letters that follow one another upwards, `A` above `Z`; the one
/// in the middle row is that of the anchor, and it is marked. Rows are the brighter
/// the nearer they are to the window, and the drum of a rotor that has just stepped
/// stands out.
pub proof fn a_drum_shows_five_letters(name: Seq<char>, drum: Drum, area: Rect, row: int)
    requires
        0 <= row < 5,
    ensures
        ({
            let w = drum_view(name, drum, area);
            let line = lines_of(w)[row];
            let hot = drum.stepping;
            &&& lines_of(w).len() == 5
            &&& line.centred && line.spans.len() == 1
            &&& line.spans[0].text.len() == 5
            &&& line.spans[0].text[2] as int == 65 + (drum.anchor + 2 - row) % 26
            &&& line.spans[0].text[1] == ' ' && line.spans[0].text[3] == ' '
            &&& row == 2 ==> line.spans[0].text[0] == '>' && line.spans[0].text[4] == '<'
            &&& row != 2 ==> line.spans[0].text[0] == ' ' && line.spans[0].text[4] == ' '
            &&& line.spans[0].style.bold == (drum.shades[row] == Shade::Centre)
            &&& line.spans[0].style.fg == Some(
                match drum.shades[row] {
                    Shade::Centre => if hot {
                        Color::Hot
                    } else {
                        Color::White
                    },
                    Shade::Near => Color::Near,
                    Shade::Far => Color::Dim,
                },
            )
            &&& w->Text_0.border matches Some(b) && {
                &&& b.color == if hot {
                    Color::Hot
                } else {
                    Color::Frame
                }
                &&& b.title == " "@ + name + " "@
            }
        }),
{
    reveal_strlit("> ");
    reveal_strlit(" <");
    reveal_strlit("  ");
}

/// The line of the setup screen in which a field stands.
pub open spec fn row_of(field: int) -> int {
    if field == 0 {
        0
    } else if field <= 3 {
        field + 1
    } else if field <= 6 {
        field + 2
    } else if field <= 9 {
        field + 3
    } else {
        14
    }
}

/// The fields of the setup screen show their settings: reflector, rotors, rings and
/// start positions, the latter three from left to right. The field that is selected,
/// and no other, is marked.
pub proof fn setup_fields_show_their_settings(s: AppView, i: int)
    requires
        0 <= i < 3,
    ensures
        ({
            let lines = setup_lines(s);
            let value = |field: int| lines[row_of(field)].spans[1].text;
            &&& lines.len() == 16
            &&& value(0) == REFLECTORS[s.config.reflector as int].0@
            &&& value(1 + i) == ROTORS[s.config.rotors[i] as int].0@
            &&& value(4 + i) == seq![letter_of(s.config.rings[i])]
            &&& value(7 + i) == seq![letter_of(s.config.positions[i])]
        }),
{
}

/// The names of the setup fields, and the mark before the one that is selected.
pub proof fn setup_fields_are_named(s: AppView, field: int)
    requires
        0 <= field < 11,
    ensures
        ({
            let names = seq![
                "Reflector"@,
                "Rotor left"@,
                "Rotor middle"@,
                "Rotor right"@,
                "Ring left"@,
                "Ring middle"@,
                "Ring right"@,
                "Start left"@,
                "Start middle"@,
                "Start right"@,
                "Plugboard"@,
            ];
            let name = setup_lines(s)[row_of(field)].spans[0];
            &&& setup_lines(s)[row_of(field)].spans.len() == 2
            &&& name.text == (if s.sel == field {
                "> "@
            } else {
                "  "@
            }) + left_aligned(names[field], 14)
            &&& name.style.bold == (s.sel == field)
            &&& name.style.fg == Some(
                if s.sel == field {
                    Color::Hot
                } else {
                    Color::Ink
                },
            )
        }),
{
}

/// A step of a field changes the line of that field on the setup screen, and no other
/// line.
pub proof fn a_step_changes_its_own_line(s: AppView, dir: int, row: int)
    requires
        s.config.wf(),
        s.sel < 11,
        0 <= row < 16,
        row != row_of(s.sel as int),
    ensures
        setup_lines(AppView { config: s.config.adjusted(s.sel as int, dir), ..s })[row]
            == setup_lines(s)[row],
{
}

/// The plugboard field lists the cables in order, two letters and a space for each,
/// then the letter that waits for its partner; without any of them it says so.
pub proof fn the_plugboard_field(s: AppView, i: int)
    ensures
        ({
            let text = setup_lines(s)[14].spans[1].text;
            let n = s.config.plugs.len();
            &&& n == 0 && s.pending is None ==> text == "(none)"@
            &&& n > 0 && s.pending is None ==> text.len() == 3 * n
            &&& s.pending matches Some(p) ==> text.len() == 3 * n + 4 && text.skip(3 * n as int)
                == seq!['[', letter_of(p), '_', ']']
            &&& 0 <= i < n ==> {
                &&& text[3 * i] == letter_of(s.config.plugs[i].0)
                &&& text[3 * i + 1] == letter_of(s.config.plugs[i].1)
                &&& text[3 * i + 2] == ' '
            }
        }),
{
    reveal_strlit("[");
    reveal_strlit("_]");
    lemma_cables_listed(s.config.plugs, i);
    let n = s.config.plugs.len();
    let text = setup_lines(s)[14].spans[1].text;
    assert(text == plug_field(s.config.plugs, s.pending));
    if let Some(p) = s.pending {
        assert(text.skip(3 * n as int) =~= seq!['[', letter_of(p), '_', ']']);
    }
}

proof fn lemma_cables_listed(plugs: Seq<(u8, u8)>, i: int)
    ensures
        cables_listed(plugs).len() == 3 * plugs.len(),
        0 <= i < plugs.len() ==> {
            &&& cables_listed(plugs)[3 * i] == letter_of(plugs[i].0)
            &&& cables_listed(plugs)[3 * i + 1] == letter_of(plugs[i].1)
            &&& cables_listed(plugs)[3 * i + 2] == ' '
        },
    decreases plugs.len(),
{
    if plugs.len() > 0 {
        lemma_cables_listed(plugs.drop_last(), i);
    }
}

/// Which screen is shown: the run screen, with the setup screen over it while that is
/// open, or the help screen by itself.
pub proof fn the_screens(
    s: AppView,
    drums: Seq<Drum>,
    area: Rect,
    rows: Seq<Rect>,
    cols: Seq<Rect>,
)
    ensures
        ({
            let shown = screen_view(s, drums, area, rows, cols);
            &&& s.screen == Screen::Run ==> shown == run_view(s, drums, rows, cols)
            &&& s.screen == Screen::Setup ==> shown.len() == 11 && shown.take(8) == run_view(
                s,
                drums,
                rows,
                cols,
            ) && shown.skip(8) == setup_view(s, area)
            &&& s.screen == Screen::Help ==> shown == help_view(area, s.help_scroll)
        }),
{
    let run = run_view(s, drums, rows, cols);
    if s.screen == Screen::Setup {
        let shown = screen_view(s, drums, area, rows, cols);
        assert(shown.take(8) =~= run);
        assert(shown.skip(8) =~= setup_view(s, area));
    }
}

/// The panels of the run screen from top to bottom: settings, three drums side by
/// side, signal path, lamps, tape and footer. Each drum bears the name of the rotor
/// of its slot.
pub proof fn the_panels_of_the_run_screen(
    s: AppView,
    drums: Seq<Drum>,
    rows: Seq<Rect>,
    cols: Seq<Rect>,
)
    ensures
        ({
            let run = run_view(s, drums, rows, cols);
            &&& run.len() == 8
            &&& run[0] == settings_view(s, rows[0])
            &&& run[1] == drum_view(s.machine.left.spec.name@, drums[0], cols[0])
            &&& run[2] == drum_view(s.machine.middle.spec.name@, drums[1], cols[1])
            &&& run[3] == drum_view(s.machine.right.spec.name@, drums[2], cols[2])
            &&& run[4] == signal_view(s, rows[2])
            &&& run[5] == lampboard_view(s, rows[3])
            &&& run[6] == tape_view(s, rows[4])
            &&& place(run[0]) == rows[0]
            &&& place(run[1]) == cols[0] && place(run[2]) == cols[1] && place(run[3]) == cols[2]
            &&& place(run[4]) == rows[2] && place(run[5]) == rows[3] && place(run[6]) == rows[4]
            &&& place(run[7]) == rows[5]
        }),
{
}

/// The footer shows the message of the session, or else the keys that can be used.
pub proof fn the_footer(s: AppView, area: Rect)
    ensures
        ({
            let lines = lines_of(bottom_view(s, area));
            &&& lines.len() == 1 && lines[0].spans.len() == 1
            &&& s.status matches Some(m) ==> lines[0].spans[0].text == "  "@ + m.0
                && lines[0].spans[0].style.fg == Some(Color::Lit)
            &&& s.status is None ==> lines[0].spans[0].text == "  "@
                + "A-Z encipher   Tab setup   ? help   Ctrl+S save   Ctrl+R reset   Esc quit"@
                && lines[0].spans[0].style.fg == Some(Color::Dim)
        }),
{
}

/// The rows of the run screen want one line for the settings, nine for the drums, four
/// for the signal path, five for the lamps, three or more for the tape, and one for
/// the footer; the drums share their row by thirds.
pub proof fn the_rows_of_the_run_screen()
    ensures
        row_extents() == seq![
            Extent::Length(1),
            Extent::Length(9),
            Extent::Length(4),
            Extent::Length(5),
            Extent::Min(3),
            Extent::Length(1),
        ],
        column_extents() == seq![Extent::Ratio(1, 3), Extent::Ratio(1, 3), Extent::Ratio(1, 3)],
{
}

/// A rectangle is centred if it has as much room before it as behind it, or one cell
/// less, and is no larger than asked for nor than there is room.
pub proof fn the_middle_is_the_middle(w: u16, h: u16, area: Rect)
    requires
        area.x + (if w <= area.width {
            (area.width - w) / 2
        } else {
            0
        }) <= 65535,
        area.y + (if h <= area.height {
            (area.height - h) / 2
        } else {
            0
        }) <= 65535,
    ensures
        ({
            let r = middle_of(w, h, area);
            let before = r.x - area.x;
            let behind = area.x + area.width - (r.x + r.width);
            let above = r.y - area.y;
            let below = area.y + area.height - (r.y + r.height);
            &&& before == behind || before + 1 == behind
            &&& above == below || above + 1 == below
            &&& r.width == if w <= area.width {
                w
            } else {
                area.width
            }
            &&& r.height == if h <= area.height {
                h
            } else {
                area.height
            }
        }),
{
}

/// What is inside a border is one cell in from each side, and empty where there is no
/// room.
pub proof fn inside_is_one_cell_in(area: Rect)
    ensures
        area.x < 65535 && area.width > 0 ==> inside(area).x == area.x + 1,
        area.y < 65535 && area.height > 0 ==> inside(area).y == area.y + 1,
        area.x == 65535 || area.width == 0 ==> inside(area).x == area.x,
        area.y == 65535 || area.height == 0 ==> inside(area).y == area.y,
        area.width >= 2 ==> inside(area).width == area.width - 2,
        area.height >= 2 ==> inside(area).height == area.height - 2,
        area.width < 2 ==> inside(area).width == 0,
        area.height < 2 ==> inside(area).height == 0,
{
}

/// The setup screen wipes the middle of the terminal, draws a border there, and writes
/// its lines inside it.
pub proof fn the_setup_screen_lies_in_the_middle(s: AppView, area: Rect)
    ensures
        ({
            let shown = setup_view(s, area);
            let middle = middle_of(64, 20, area);
            &&& shown.len() == 3
            &&& shown[0] == WidgetView::Clear(middle)
            &&& shown[1] is Border && place(shown[1]) == middle
            &&& place(shown[2]) == inside(middle) && lines_of(shown[2]) == setup_lines(s)
        }),
{
}

/// The help screen shows its text line by line, headings in bold, scrolled as far as
/// asked for, inside a border around the whole terminal.
pub proof fn the_help_screen_shows_its_text(area: Rect, scroll: u16, i: int)
    requires
        0 <= i < 43,
    ensures
        ({
            let shown = help_view(area, scroll);
            let line = lines_of(shown[1])[i];
            &&& shown.len() == 2
            &&& shown[0] is Border && place(shown[0]) == area
            &&& place(shown[1]) == inside(area)
            &&& shown[1]->Text_0.scroll == scroll && shown[1]->Text_0.wrap
            &&& lines_of(shown[1]).len() == 43
            &&& HELP[i].0 == HEADING || HELP[i].0 == BODY ==> line.spans.len() == 1
                && line.spans[0].text == HELP[i].1@ && line.spans[0].style.bold == (HELP[i].0
                == HEADING) && line.spans[0].style.fg == Some(
                if HELP[i].0 == HEADING {
                    Color::Hot
                } else {
                    Color::Ink
                },
            )
            &&& HELP[i].0 == BLANK ==> line.spans.len() == 0
        }),
{
}

/// The tints of the program.
pub proof fn the_tints()
    ensures
        Color::Dim.rgb_of() == Some((90u8, 92u8, 100u8)),
        Color::Frame.rgb_of() == Some((70u8, 72u8, 80u8)),
        Color::Wire.rgb_of() == Some((120u8, 170u8, 255u8)),
        Color::Hot.rgb_of() == Some((255u8, 196u8, 60u8)),
        Color::Lit.rgb_of() == Some((120u8, 255u8, 140u8)),
        Color::Ink.rgb_of() == Some((180u8, 184u8, 200u8)),
        Color::Near.rgb_of() == Some((150u8, 152u8, 160u8)),
        Color::Unlit.rgb_of() == Some((110u8, 112u8, 120u8)),
        Color::White.rgb_of() is None,
        Color::Black.rgb_of() is None,
{
}

/// Text in a colour, bold text in a colour, and text as the terminal shows it: none of
/// them has a background of its own.
pub proof fn the_styles(color: Color)
    ensures
        inked(color).fg == Some(color) && inked(color).bg is None && !inked(color).bold,
        bold(color).fg == Some(color) && bold(color).bg is None && bold(color).bold,
        plain().fg is None && plain().bg is None && !plain().bold,
{
}

/// The panels bear their titles on the left of a plain border; only the tape goes on
/// in the next row where a line is too long, and nothing is scrolled. The top line
/// and the footer have no border.
pub proof fn the_frames_of_the_panels(s: AppView, area: Rect, name: Seq<char>, drum: Drum)
    ensures
        ({
            let signal = signal_view(s, area)->Text_0;
            let lamps = lampboard_view(s, area)->Text_0;
            let tape = tape_view(s, area)->Text_0;
            let top = settings_view(s, area)->Text_0;
            let foot = bottom_view(s, area)->Text_0;
            let one = drum_view(name, drum, area)->Text_0;
            let frame = |title: Seq<char>|
                Some(BorderView { color: Color::Frame, title, centred: false });
            &&& signal.border == frame(
                " signal path  (keyboard > plugboard > rotors > reflector > back > lamp) "@,
            )
            &&& lamps.border == frame(" lampboard "@)
            &&& tape.border == frame(" tape "@)
            &&& top.border is None && foot.border is None
            &&& one.border is Some && one.border.unwrap().centred
            &&& tape.wrap && !signal.wrap && !lamps.wrap && !top.wrap && !foot.wrap && !one.wrap
            &&& tape.scroll == 0 && signal.scroll == 0 && lamps.scroll == 0 && top.scroll == 0
            &&& foot.scroll == 0 && one.scroll == 0
            &&& tape.area == area && signal.area == area && lamps.area == area
            &&& top.area == area && foot.area == area && one.area == area
        }),
{
}

/// The inks of the tape and of the top line, and the lines that stand on the left.
pub proof fn the_inks_of_the_panels(s: AppView, area: Rect, row: int)
    requires
        0 <= row < 3,
    ensures
        ({
            let tape = lines_of(tape_view(s, area));
            let top = lines_of(settings_view(s, area));
            let signal = lines_of(signal_view(s, area));
            let lamps = lines_of(lampboard_view(s, area));
            &&& tape[0].spans[0].style == inked(Color::Dim)
            &&& tape[0].spans[1].style == inked(Color::Ink)
            &&& tape[1].spans[0].style == inked(Color::Dim)
            &&& tape[1].spans[1].style == bold(Color::Lit)
            &&& top[0].spans[0].style == inked(Color::Ink)
            &&& !tape[0].centred && !tape[1].centred && !top[0].centred
            &&& !signal[0].centred && !signal[1].centred && !lamps[row].centred
        }),
{
}

/// The rest of the setup screen: values are white, free lines part the kinds of
/// fields, and the last line says how to use the plugboard. Title and borders of the
/// setup and help screens.
pub proof fn the_rest_of_the_setup_screen(s: AppView, area: Rect, field: int, scroll: u16)
    requires
        0 <= field < 11,
    ensures
        ({
            let lines = setup_lines(s);
            &&& lines[row_of(field)].spans[1].style == inked(Color::White)
            &&& !lines[row_of(field)].centred
            &&& lines[1].spans.len() == 0 && lines[5].spans.len() == 0
            &&& lines[9].spans.len() == 0 && lines[13].spans.len() == 0
            &&& lines[15].spans == seq![
                span_of(
                    "                 type two letters to pair (again to remove); Bksp undo, Del clear"@,
                    inked(Color::Dim),
                ),
            ]
            &&& setup_view(s, area)[1]->Border_1 == BorderView {
                color: Color::Hot,
                title: " setup  (up/down move, left/right change, Enter apply, Esc cancel) "@,
                centred: false,
            }
            &&& setup_view(s, area)[2]->Text_0.border is None
            &&& !setup_view(s, area)[2]->Text_0.wrap && setup_view(s, area)[2]->Text_0.scroll == 0
            &&& help_view(area, scroll)[0]->Border_1 == BorderView {
                color: Color::Wire,
                title: " how the Enigma works   (up/down scroll, Esc back) "@,
                centred: false,
            }
            &&& help_view(area, scroll)[1]->Text_0.border is None
        }),
{
}

/// The grid of the run screen: six rows as wide as the terminal, cut from it as the
/// rows want it, and three columns as high as the second row, cut from that row by
/// thirds.
pub proof fn the_grid_of_the_run_screen(area: Rect, rows: Seq<Rect>, cols: Seq<Rect>, i: int)
    requires
        is_grid(area, rows, cols),
    ensures
        rows.len() == 6 && cols.len() == 3,
        can_split_into(Axis::Down, row_extents(), area, rows),
        can_split_into(Axis::Across, column_extents(), rows[1], cols),
        0 <= i < 6 ==> rows[i].x == area.x && rows[i].width == area.width && area.y <= rows[i].y
            && rows[i].y + rows[i].height <= area.y + area.height,
        0 <= i < 3 ==> cols[i].y == rows[1].y && cols[i].height == rows[1].height && rows[1].x
            <= cols[i].x && cols[i].x + cols[i].width <= rows[1].x + rows[1].width,
{
    if 0 <= i < 6 {
        assert(spans(rows[i], Axis::Down, area) && lies_within(rows[i], area));
    }
    if 0 <= i < 3 {
        assert(spans(cols[i], Axis::Across, rows[1]) && lies_within(cols[i], rows[1]));
    }
}

} // verus!
