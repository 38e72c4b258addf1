use vstd::prelude::*;
use vstd::string::{StrSliceExecFns, StringExecFns};

use crate::config::{lemma_sorted_by_display, texts, ProgramEntry, ProgramEntryView};
use crate::dashboard::{menu, Dashboard, DashboardView, Mode};
use crate::text::{clip_line, clipped, from_text, join3, join_text, pad_to, padded, push_char};
use crate::wizard::{field_label, field_value, AddProgramForm, WizardView};

verus! {

/// The colours the screens use.
#[derive(Clone, Copy, Debug, PartialEq, Eq, Structural)]
pub enum Color {
    Black,
    White,
    Blue,
    Green,
    Yellow,
    Magenta,
    Cyan,
    DarkGrey,
}

/// One piece of text to print at a position, with optional colours; the
/// colours are reset after it.
#[derive(Debug)]
pub struct Span {
    pub x: u16,
    pub y: u16,
    pub fg: Option<Color>,
    pub bg: Option<Color>,
    pub text: String,
}

pub struct SpanView {
    pub x: int,
    pub y: int,
    pub fg: Option<Color>,
    pub bg: Option<Color>,
    pub text: Seq<char>,
}

impl View for Span {
    type V = SpanView;

    open spec fn view(&self) -> SpanView {
        SpanView { x: self.x as int, y: self.y as int, fg: self.fg, bg: self.bg, text: self.text@ }
    }
}

pub open spec fn spans(v: Seq<Span>) -> Seq<SpanView> {
    v.map_values(|s: Span| s@)
}

/// `a - b`, or 0 when `b` is larger.
pub open spec fn sat_sub(a: int, b: int) -> int {
    if a >= b {
        a - b
    } else {
        0
    }
}

/// The column where content `n` wide starts when centred in `w` columns.
pub open spec fn center_x(w: int, n: int) -> int {
    if w > n {
        (w - n) / 2
    } else {
        2
    }
}

/// The width of the widest text.
pub open spec fn widest(s: Seq<Seq<char>>) -> nat
    decreases s.len(),
{
    if s.len() == 0 {
        0
    } else {
        let a = widest(s.drop_last());
        let b = s.last().len();
        if a >= b {
            a
        } else {
            b
        }
    }
}

pub open spec fn at(x: int, y: int, text: Seq<char>) -> SpanView {
    SpanView { x, y, fg: None, bg: None, text }
}

pub open spec fn colored(x: int, y: int, fg: Color, text: Seq<char>) -> SpanView {
    SpanView { x, y, fg: Some(fg), bg: None, text }
}

/// A full-width bar: the text padded to the screen's width.
pub open spec fn bar(y: int, w: int, bg: Color, fg: Color, text: Seq<char>) -> SpanView {
    SpanView { x: 0, y, fg: Some(fg), bg: Some(bg), text: padded(text, w as nat) }
}

/// How a program is listed in the menu.
pub open spec fn row_text(e: ProgramEntryView) -> Seq<char> {
    "[ "@ + e.display_name + (if e.run_with_sudo {
        " [SUDO]"@
    } else {
        Seq::empty()
    }) + (if e.show_output {
        " [OUT]"@
    } else {
        Seq::empty()
    }) + (match e.description {
        Some(d) => " - "@ + d,
        None => Seq::empty(),
    }) + " ]"@
}

pub open spec fn row_texts(m: Seq<ProgramEntryView>) -> Seq<Seq<char>> {
    m.map_values(|e: ProgramEntryView| row_text(e))
}

/// Row `i` of the menu; the selected row is highlighted.
pub open spec fn row_span(v: DashboardView, w: int, i: int) -> SpanView {
    let m = menu(v);
    let selected = i == v.selected;
    SpanView {
        x: center_x(w, widest(row_texts(m)) as int),
        y: 4 + i,
        fg: if selected {
            Some(Color::Black)
        } else {
            None
        },
        bg: if selected {
            Some(Color::Yellow)
        } else {
            None
        },
        text: row_text(m[i]),
    }
}

pub open spec fn min(a: int, b: int) -> int {
    if a <= b {
        a
    } else {
        b
    }
}

/// The menu's body: a hint when there is no program, else the rows that fit.
pub open spec fn menu_body(v: DashboardView, w: int, h: int) -> Seq<SpanView> {
    let m = menu(v);
    if m.len() == 0 {
        let hint = "No programs configured. Press 'a' to add a program."@;
        seq![at(center_x(w, hint.len() as int), 6, hint)]
    } else {
        Seq::new(min(m.len() as int, sat_sub(h, 4)) as nat, |i: int| row_span(v, w, i))
    }
}

pub open spec fn status_spans(v: DashboardView, h: int) -> Seq<SpanView> {
    match v.status {
        Some(s) => seq![colored(2, sat_sub(h, 3), Color::Green, s)],
        None => Seq::empty(),
    }
}

/// The menu screen.
pub open spec fn main_screen(v: DashboardView, w: int, h: int) -> Seq<SpanView> {
    let quote = "\"L'homme est condamné à être libre.\" - Sartre"@;
    seq![
        bar(0, w, Color::Blue, Color::White, " RDash - Server Dashboard"@),
        colored(center_x(w, quote.len() as int), 2, Color::DarkGrey, quote),
    ] + menu_body(v, w, h) + status_spans(v, h) + seq![
        bar(
            sat_sub(h, 1),
            w,
            Color::DarkGrey,
            Color::White,
            "q:quit | j/k:↕ | Enter:launch | a:add | d:delete | h:help | r:reload"@,
        ),
    ]
}

pub open spec fn yes_no(b: bool) -> Seq<char> {
    if b {
        "Yes"@
    } else {
        "No"@
    }
}

/// The step number shown to the user, counting from 1.
pub open spec fn step_number(step: int) -> Seq<char> {
    if step == 0 {
        "1"@
    } else if step == 1 {
        "2"@
    } else if step == 2 {
        "3"@
    } else if step == 3 {
        "4"@
    } else if step == 4 {
        "5"@
    } else if step == 5 {
        "6"@
    } else if step == 6 {
        "7"@
    } else {
        "8"@
    }
}

/// The summary shown at the review step.
pub open spec fn review(f: WizardView) -> Seq<SpanView> {
    seq![
        at(2, 7, "Review:"@),
        at(4, 8, "Name: "@ + f.name),
        at(4, 9, "Display: "@ + f.display_name),
        at(4, 10, "Command: "@ + f.command),
    ] + (if f.args.len() > 0 {
        seq![at(4, 11, "Args: "@ + f.args)]
    } else {
        Seq::empty()
    }) + (if f.description.len() > 0 {
        seq![at(4, 12, "Description: "@ + f.description)]
    } else {
        Seq::empty()
    }) + seq![
        at(4, 13, "Run with sudo: "@ + yes_no(f.run_with_sudo)),
        at(4, 14, "Show output: "@ + yes_no(f.show_output)),
        at(2, 16, "Press Enter to save, Esc to cancel"@),
    ]
}

/// The wizard screen.
pub open spec fn wizard_screen(f: WizardView, w: int, h: int) -> Seq<SpanView> {
    seq![
        bar(0, w, Color::Green, Color::White, " Add New Program"@),
        at(2, 3, "Step "@ + step_number(f.step) + " of 7: "@ + field_label(f.step)),
        at(2, 5, "> "@ + field_value(f)),
    ] + (if f.step == 7 {
        review(f)
    } else {
        Seq::empty()
    }) + seq![
        bar(sat_sub(h, 1), w, Color::DarkGrey, Color::White, "Enter:next | Esc:cancel | Type to input"@),
    ]
}

/// The text of the help screen.
pub open spec fn help_lines() -> Seq<Seq<char>> {
    seq![
        ""@,
        "RDash - Vim-like Server Dashboard"@,
        ""@,
        "NAVIGATION:"@,
        "  [ j ] [ ↓ ]        Move down"@,
        "  [ k ] [ ↑ ]        Move up"@,
        "  [ Enter ]          Launch selected program"@,
        ""@,
        "PROGRAM MANAGEMENT:"@,
        "  [ a ]              Add new program"@,
        "  [ d ]              Delete selected program"@,
        "  [ r ]              Reload configuration"@,
        ""@,
        "OTHER:"@,
        "  [ h ]              Show this help"@,
        "  [ q ] [ Esc ]      Quit"@,
        ""@,
        "CONFIGURATION:"@,
        "  Config file: ~/.config/rdash/config.json"@,
        "  You can edit this file manually to modify programs"@,
        ""@,
        "Press any key to return..."@,
    ]
}

/// The help screen: the help text centred as a block, as many lines as fit.
pub open spec fn help_screen(w: int, h: int) -> Seq<SpanView> {
    let lines = help_lines();
    seq![bar(0, w, Color::Magenta, Color::White, " Help - RDash"@)] + Seq::new(
        min(lines.len() as int, sat_sub(h, 2)) as nat,
        |i: int| at(center_x(w, widest(lines) as int), 2 + i, lines[i]),
    )
}

/// The pieces of a text between line feeds; there is always at least one,
/// the last one after the final line feed.
pub open spec fn pieces(s: Seq<char>) -> Seq<Seq<char>>
    decreases s.len(),
{
    if s.len() == 0 {
        seq![Seq::empty()]
    } else {
        let rest = pieces(s.drop_first());
        if s[0] == '\n' {
            seq![Seq::<char>::empty()] + rest
        } else {
            rest.update(0, seq![s[0]] + rest[0])
        }
    }
}

/// A line without the carriage return that ended it, if any.
pub open spec fn without_cr(l: Seq<char>) -> Seq<char> {
    if l.len() > 0 && l.last() == '\r' {
        l.drop_last()
    } else {
        l
    }
}

/// The lines of a text: the pieces between line feeds, each without a
/// carriage return just before its line feed, and without the empty piece
/// after a final line feed.
pub open spec fn text_lines(s: Seq<char>) -> Seq<Seq<char>> {
    let p = pieces(s);
    let n = p.len() as int;
    Seq::new(
        (if n > 0 && p[n - 1].len() == 0 {
            n - 1
        } else {
            n
        }) as nat,
        |i: int|
            if i < n - 1 {
                without_cr(p[i])
            } else {
                p[i]
            },
    )
}

/// Relies on str::lines: the text split at each `\n` or `\r\n`, the final
/// line ending being optional.
#[verifier::external_body]
fn split_lines(s: &str) -> (r: Vec<String>)
    ensures
        texts(r@) == text_lines(s@),
{
    s.lines().map(|l| l.to_string()).collect()
}

/// The output viewer: a box of `w - 4` columns whose interior shows the
/// first lines of the output, each clipped to the box's inner width.
pub open spec fn output_screen(name: Seq<char>, out: Seq<char>, w: int, h: int) -> Seq<SpanView> {
    let bw = sat_sub(w, 4);
    let rows = sat_sub(sat_sub(h, 4), 2);
    let lines = text_lines(out);
    let edge = Seq::new(sat_sub(bw, 2) as nat, |i: int| '─');
    seq![
        bar(0, w, Color::Cyan, Color::Black, " Output: "@ + name),
        at(1, 1, "┌"@ + edge + "┐"@),
        at(1, sat_sub(h, 2), "└"@ + edge + "┘"@),
    ] + Seq::new(rows as nat, |i: int| at(1, 2 + i, "│"@)) + Seq::new(
        rows as nat,
        |i: int| at(sat_sub(bw, 1), 2 + i, "│"@),
    ) + Seq::new(
        min(rows, lines.len() as int) as nat,
        |i: int| at(3, 2 + i, clipped(lines[i], sat_sub(bw, 4) as nat)),
    ) + seq![bar(sat_sub(h, 1), w, Color::DarkGrey, Color::White, " Press SPACE or ESC to close"@)]
}

/// The whole frame for the current mode.
pub open spec fn frame(v: DashboardView, w: int, h: int) -> Seq<SpanView> {
    match v.mode {
        Mode::Normal => main_screen(v, w, h),
        Mode::AddProgram => wizard_screen(v.form, w, h),
        Mode::Help => help_screen(w, h),
        Mode::ShowOutput => match v.output {
            Some((name, out)) => output_screen(name, out, w, h),
            None => Seq::empty(),
        },
    }
}

fn sub_or_zero(a: u16, b: u16) -> (r: u16)
    ensures
        r as int == sat_sub(a as int, b as int),
{
    if a >= b {
        a - b
    } else {
        0
    }
}

/// The column where content `n` wide starts when centred in `w` columns.
pub fn centered(w: u16, n: usize) -> (r: u16)
    ensures
        r as int == center_x(w as int, n as int),
{
    if (w as usize) > n {
        ((w as usize - n) / 2) as u16
    } else {
        2
    }
}

fn text_at(x: u16, y: u16, text: String) -> (r: Span)
    ensures
        r@ == at(x as int, y as int, text@),
{
    Span { x, y, fg: None, bg: None, text }
}

fn bar_at(y: u16, w: u16, bg: Color, fg: Color, text: &str) -> (r: Span)
    ensures
        r@ == bar(y as int, w as int, bg, fg, text@),
{
    Span { x: 0, y, fg: Some(fg), bg: Some(bg), text: pad_to(text, w as usize) }
}

/// How `e` is listed in the menu.
pub fn program_row(e: &ProgramEntry) -> (r: String)
    ensures
        r@ == row_text(e@),
{
    let mut r = join_text("[ ", e.display_name.as_str());
    let ghost base = r@;
    if e.run_with_sudo {
        r.append(" [SUDO]");
    }
    let ghost with_sudo = r@;
    if e.show_output {
        r.append(" [OUT]");
    }
    let ghost with_out = r@;
    match &e.description {
        Some(d) => {
            r.append(" - ");
            r.append(d.as_str());
        },
        None => {},
    }
    let ghost with_desc = r@;
    r.append(" ]");
    proof {
        let s = if e.run_with_sudo {
            " [SUDO]"@
        } else {
            Seq::<char>::empty()
        };
        let o = if e.show_output {
            " [OUT]"@
        } else {
            Seq::<char>::empty()
        };
        let d = match e@.description {
            Some(d) => " - "@ + d,
            None => Seq::<char>::empty(),
        };
        assert(with_sudo =~= base + s);
        assert(with_out =~= base + s + o);
        assert(with_desc =~= base + s + o + d);
    }
    r
}

/// The widest of some texts, in characters.
fn widest_of(lines: &Vec<String>) -> (r: usize)
    ensures
        r == widest(texts(lines@)),
{
    let ghost all = texts(lines@);
    let mut r: usize = 0;
    let mut i: usize = 0;
    while i < lines.len()
        invariant
            i <= lines@.len(),
            all == texts(lines@),
            r == widest(all.take(i as int)),
        decreases lines@.len() - i,
    {
        let n = lines[i].unicode_len();
        proof {
            assert(all.take(i + 1).drop_last() =~= all.take(i as int));
            assert(all.take(i + 1).last() == lines@[i as int]@);
        }
        if n > r {
            r = n;
        }
        i += 1;
    }
    assert(all.take(lines@.len() as int) =~= all);
    r
}

/// The menu's rows, in menu order.
fn menu_rows(programs: &Vec<&ProgramEntry>) -> (r: Vec<String>)
    ensures
        texts(r@) == row_texts(programs@.map_values(|p: &ProgramEntry| p@)),
{
    let ghost m = programs@.map_values(|p: &ProgramEntry| p@);
    let mut rows: Vec<String> = Vec::new();
    let mut i: usize = 0;
    while i < programs.len()
        invariant
            i <= programs@.len(),
            m == programs@.map_values(|p: &ProgramEntry| p@),
            rows@.len() == i,
            texts(rows@) == row_texts(m).take(i as int),
        decreases programs@.len() - i,
    {
        let t = program_row(programs[i]);
        let ghost before = rows@;
        rows.push(t);
        proof {
            assert(m[i as int] == programs@[i as int]@);
            assert(rows@ == before.push(t));
            assert forall|k: int| 0 <= k < i + 1 implies #[trigger] texts(rows@)[k] == row_texts(m).take(i + 1)[k] by {
                if k < i {
                    assert(texts(before)[k] == row_texts(m).take(i as int)[k]);
                }
            }
            assert(texts(rows@) =~= row_texts(m).take(i + 1));
        }
        i += 1;
    }
    assert(row_texts(m).take(m.len() as int) =~= row_texts(m));
    rows
}

impl Dashboard {
    /// The menu's body for a terminal `width` by `height`.
    fn draw_menu_body(&self, width: u16, height: u16) -> (r: Vec<Span>)
        requires
            self.wf(),
        ensures
            spans(r@) == menu_body(self@, width as int, height as int),
    {
        proof {
            lemma_sorted_by_display(self.config@);
        }
        let ghost v = self@;
        let ghost w = width as int;
        let ghost h = height as int;
        let mut r: Vec<Span> = Vec::new();
        let programs = self.config.get_programs();
        if programs.len() == 0 {
            let hint = "No programs configured. Press 'a' to add a program.";
            r.push(text_at(centered(width, hint.unicode_len()), 6, from_text(hint)));
            assert(spans(r@) =~= menu_body(v, w, h));
            return r;
        }
        let ghost m = menu(v);
        let rows = menu_rows(&programs);
        let start_x = centered(width, widest_of(&rows));
        let content_height = sub_or_zero(height, 4);
        let mut i: usize = 0;
        while i < programs.len() && i < content_height as usize
            invariant
                i <= programs@.len(),
                i <= content_height,
                content_height as int == sat_sub(h, 4),
                h == height as int,
                start_x as int == center_x(w, widest(row_texts(m)) as int),
                texts(rows@) == row_texts(m),
                programs@.len() == m.len(),
                r@.len() == i,
                spans(r@) == Seq::new(i as nat, |k: int| row_span(v, w, k)),
                v == self@,
                m == menu(v),
            decreases programs@.len() - i,
        {
            let selected = i == self.selected_index;
            let y: u16 = 4 + (i as u16);
            let span = Span {
                x: start_x,
                y,
                fg: if selected {
                    Some(Color::Black)
                } else {
                    None
                },
                bg: if selected {
                    Some(Color::Yellow)
                } else {
                    None
                },
                text: rows[i].clone(),
            };
            let ghost before = r@;
            proof {
                assert(rows@[i as int]@ == row_texts(m)[i as int]);
                assert(span@ == row_span(v, w, i as int));
            }
            r.push(span);
            proof {
                assert(r@ == before.push(span));
                assert forall|k: int| 0 <= k < i + 1 implies #[trigger] spans(r@)[k] == row_span(
                    v,
                    w,
                    k,
                ) by {
                    if k < i {
                        assert(spans(before)[k] == row_span(v, w, k));
                    }
                }
                assert(spans(r@) =~= Seq::new((i + 1) as nat, |k: int| row_span(v, w, k)));
            }
            i += 1;
        }
        assert(spans(r@) =~= menu_body(v, w, h));
        r
    }

    /// The menu screen for a terminal `width` by `height`.
    pub fn draw_main_screen(&self, width: u16, height: u16) -> (r: Vec<Span>)
        requires
            self.wf(),
        ensures
            spans(r@) == main_screen(self@, width as int, height as int),
    {
        let ghost v = self@;
        let ghost w = width as int;
        let ghost h = height as int;
        let mut r: Vec<Span> = Vec::new();
        r.push(bar_at(0, width, Color::Blue, Color::White, " RDash - Server Dashboard"));
        let quote = "\"L'homme est condamné à être libre.\" - Sartre";
        r.push(
            Span {
                x: centered(width, quote.unicode_len()),
                y: 2,
                fg: Some(Color::DarkGrey),
                bg: None,
                text: from_text(quote),
            },
        );
        let ghost head = r@;
        let mut body = self.draw_menu_body(width, height);
        let ghost body0 = body@;
        r.append(&mut body);
        assert(spans(r@) =~= spans(head) + spans(body0));
        let ghost with_body = r@;
        match &self.status_message {
            Some(m) => {
                r.push(
                    Span {
                        x: 2,
                        y: sub_or_zero(height, 3),
                        fg: Some(Color::Green),
                        bg: None,
                        text: m.clone(),
                    },
                );
            },
            None => {},
        }
        assert(spans(r@) =~= spans(with_body) + status_spans(v, h));
        let ghost with_status = r@;
        r.push(
            bar_at(
                sub_or_zero(height, 1),
                width,
                Color::DarkGrey,
                Color::White,
                "q:quit | j/k:↕ | Enter:launch | a:add | d:delete | h:help | r:reload",
            ),
        );
        assert(spans(r@) =~= main_screen(v, w, h));
        r
    }
}

fn step_number_text(step: usize) -> (r: &'static str)
    ensures
        r@ == step_number(step as int),
{
    match step {
        0 => "1",
        1 => "2",
        2 => "3",
        3 => "4",
        4 => "5",
        5 => "6",
        6 => "7",
        _ => "8",
    }
}

fn yes_no_text(b: bool) -> (r: &'static str)
    ensures
        r@ == yes_no(b),
{
    if b {
        "Yes"
    } else {
        "No"
    }
}

/// The summary shown at the review step.
fn draw_review(f: &AddProgramForm) -> (r: Vec<Span>)
    ensures
        spans(r@) == review(f@),
{
    let mut r: Vec<Span> = Vec::new();
    r.push(text_at(2, 7, from_text("Review:")));
    r.push(text_at(4, 8, join_text("Name: ", f.name.as_str())));
    r.push(text_at(4, 9, join_text("Display: ", f.display_name.as_str())));
    r.push(text_at(4, 10, join_text("Command: ", f.command.as_str())));
    let ghost first = spans(r@);
    if f.args.unicode_len() > 0 {
        r.push(text_at(4, 11, join_text("Args: ", f.args.as_str())));
    }
    let ghost second = spans(r@);
    if f.description.unicode_len() > 0 {
        r.push(text_at(4, 12, join_text("Description: ", f.description.as_str())));
    }
    let ghost third = spans(r@);
    r.push(text_at(4, 13, join_text("Run with sudo: ", yes_no_text(f.run_with_sudo))));
    r.push(text_at(4, 14, join_text("Show output: ", yes_no_text(f.show_output))));
    r.push(text_at(2, 16, from_text("Press Enter to save, Esc to cancel")));
    proof {
        let v = f@;
        let a = if v.args.len() > 0 {
            seq![at(4, 11, "Args: "@ + v.args)]
        } else {
            Seq::<SpanView>::empty()
        };
        let d = if v.description.len() > 0 {
            seq![at(4, 12, "Description: "@ + v.description)]
        } else {
            Seq::<SpanView>::empty()
        };
        assert(second =~= first + a);
        assert(third =~= first + a + d);
    }
    assert(spans(r@) =~= review(f@));
    r
}

/// The lines of the help screen.
fn help_text() -> (r: Vec<String>)
    ensures
        texts(r@) == help_lines(),
{
    let lines: Vec<&str> = vec![
        "",
        "RDash - Vim-like Server Dashboard",
        "",
        "NAVIGATION:",
        "  [ j ] [ ↓ ]        Move down",
        "  [ k ] [ ↑ ]        Move up",
        "  [ Enter ]          Launch selected program",
        "",
        "PROGRAM MANAGEMENT:",
        "  [ a ]              Add new program",
        "  [ d ]              Delete selected program",
        "  [ r ]              Reload configuration",
        "",
        "OTHER:",
        "  [ h ]              Show this help",
        "  [ q ] [ Esc ]      Quit",
        "",
        "CONFIGURATION:",
        "  Config file: ~/.config/rdash/config.json",
        "  You can edit this file manually to modify programs",
        "",
        "Press any key to return...",
    ];
    let ghost want = lines@.map_values(|l: &str| l@);
    assert(want =~= help_lines());
    let mut r: Vec<String> = Vec::new();
    let mut i: usize = 0;
    while i < lines.len()
        invariant
            i <= lines@.len(),
            want == lines@.map_values(|l: &str| l@),
            r@.len() == i,
            texts(r@) == want.take(i as int),
        decreases lines@.len() - i,
    {
        let ghost before = r@;
        let t = from_text(lines[i]);
        r.push(t);
        proof {
            assert(r@ == before.push(t));
            assert forall|k: int| 0 <= k < i + 1 implies #[trigger] texts(r@)[k] == want.take(
                i + 1,
            )[k] by {
                if k < i {
                    assert(texts(before)[k] == want.take(i as int)[k]);
                }
            }
            assert(texts(r@) =~= want.take(i + 1));
        }
        i += 1;
    }
    assert(want.take(want.len() as int) =~= want);
    r
}

/// The same text at column `x` on `rows` lines from line 2 down.
fn column(x: u16, rows: u16, text: &str) -> (r: Vec<Span>)
    requires
        rows as int + 2 <= u16::MAX,
    ensures
        spans(r@) == Seq::new(rows as nat, |i: int| at(x as int, 2 + i, text@)),
{
    let mut r: Vec<Span> = Vec::new();
    let mut i: u16 = 0;
    while i < rows
        invariant
            i <= rows,
            rows as int + 2 <= u16::MAX,
            r@.len() == i,
            spans(r@) == Seq::new(i as nat, |k: int| at(x as int, 2 + k, text@)),
        decreases rows - i,
    {
        let ghost before = r@;
        let s = text_at(x, 2 + i, from_text(text));
        r.push(s);
        proof {
            assert(r@ == before.push(s));
            assert forall|k: int| 0 <= k < i + 1 implies #[trigger] spans(r@)[k] == at(
                x as int,
                2 + k,
                text@,
            ) by {
                if k < i {
                    assert(spans(before)[k] == at(x as int, 2 + k, text@));
                }
            }
            assert(spans(r@) =~= Seq::new((i + 1) as nat, |k: int| at(x as int, 2 + k, text@)));
        }
        i += 1;
    }
    r
}

/// `n` copies of the box's horizontal edge.
fn edge_text(n: u16) -> (r: String)
    ensures
        r@ == Seq::new(n as nat, |i: int| '─'),
{
    let mut r = String::new();
    let mut i: u16 = 0;
    while i < n
        invariant
            i <= n,
            r@ == Seq::new(i as nat, |k: int| '─'),
        decreases n - i,
    {
        push_char(&mut r, '─');
        assert(r@ =~= Seq::new((i + 1) as nat, |k: int| '─'));
        i += 1;
    }
    r
}

/// The first `rows` lines of some output, each clipped to `width`, from
/// line 2 down at column 3.
pub fn output_lines(lines: &Vec<String>, rows: u16, width: u16) -> (r: Vec<Span>)
    requires
        rows as int + 2 <= u16::MAX,
    ensures
        spans(r@) == Seq::new(
            min(rows as int, lines@.len() as int) as nat,
            |i: int| at(3, 2 + i, clipped(texts(lines@)[i], width as nat)),
        ),
{
    let ghost all = texts(lines@);
    let mut r: Vec<Span> = Vec::new();
    let mut i: u16 = 0;
    while i < rows && (i as usize) < lines.len()
        invariant
            i <= rows,
            rows as int + 2 <= u16::MAX,
            i <= lines@.len(),
            all == texts(lines@),
            r@.len() == i,
            spans(r@) == Seq::new(i as nat, |k: int| at(3, 2 + k, clipped(all[k], width as nat))),
        decreases rows - i,
    {
        let ghost before = r@;
        assert(lines@[i as int]@ == all[i as int]);
        let s = text_at(3, 2 + i, clip_line(lines[i as usize].as_str(), width as usize));
        r.push(s);
        proof {
            assert(r@ == before.push(s));
            assert forall|k: int| 0 <= k < i + 1 implies #[trigger] spans(r@)[k] == at(
                3,
                2 + k,
                clipped(all[k], width as nat),
            ) by {
                if k < i {
                    assert(spans(before)[k] == at(3, 2 + k, clipped(all[k], width as nat)));
                }
            }
            assert(spans(r@) =~= Seq::new(
                (i + 1) as nat,
                |k: int| at(3, 2 + k, clipped(all[k], width as nat)),
            ));
        }
        i += 1;
    }
    r
}

impl Dashboard {
    /// The wizard screen for a terminal `width` by `height`.
    pub fn draw_add_program_screen(&self, width: u16, height: u16) -> (r: Vec<Span>)
        requires
            self.wf(),
        ensures
            spans(r@) == wizard_screen(self@.form, width as int, height as int),
    {
        let f = &self.add_form;
        let mut r: Vec<Span> = Vec::new();
        r.push(bar_at(0, width, Color::Green, Color::White, " Add New Program"));
        let mut step_line = join3("Step ", step_number_text(f.step), " of 7: ");
        step_line.append(f.current_field());
        r.push(text_at(2, 3, step_line));
        r.push(text_at(2, 5, join_text("> ", f.current_value())));
        let ghost head = spans(r@);
        if f.step == 7 {
            let mut more = draw_review(f);
            let ghost m = more@;
            r.append(&mut more);
            assert(spans(r@) =~= head + spans(m));
        }
        let ghost body = spans(r@);
        r.push(
            bar_at(
                sub_or_zero(height, 1),
                width,
                Color::DarkGrey,
                Color::White,
                "Enter:next | Esc:cancel | Type to input",
            ),
        );
        proof {
            if f.step != 7 {
                assert(body =~= head);
            }
        }
        assert(spans(r@) =~= wizard_screen(self@.form, width as int, height as int));
        r
    }

    /// The help screen for a terminal `width` by `height`.
    pub fn draw_help_screen(&self, width: u16, height: u16) -> (r: Vec<Span>)
        ensures
            spans(r@) == help_screen(width as int, height as int),
    {
        let ghost w = width as int;
        let ghost h = height as int;
        let lines = help_text();
        let start_x = centered(width, widest_of(&lines));
        let mut r: Vec<Span> = Vec::new();
        r.push(bar_at(0, width, Color::Magenta, Color::White, " Help - RDash"));
        let ghost head = spans(r@);
        let ghost all = help_lines();
        let mut body: Vec<Span> = Vec::new();
        let mut i: usize = 0;
        while i < lines.len() && i + 2 < height as usize
            invariant
                i <= lines@.len(),
                lines@.len() == all.len(),
                texts(lines@) == all,
                all == help_lines(),
                h == height as int,
                start_x as int == center_x(w, widest(all) as int),
                body@.len() == i,
                i as int <= sat_sub(h, 2),
                spans(body@) == Seq::new(i as nat, |k: int| at(start_x as int, 2 + k, all[k])),
            decreases lines@.len() - i,
        {
            let ghost before = body@;
            assert(lines@[i as int]@ == all[i as int]);
            let s = text_at(start_x, 2 + i as u16, lines[i].clone());
            assert(s@ == at(start_x as int, 2 + i, all[i as int]));
            body.push(s);
            proof {
                assert(body@ == before.push(s));
                assert forall|k: int| 0 <= k < i + 1 implies #[trigger] spans(body@)[k] == at(
                    start_x as int,
                    2 + k,
                    all[k],
                ) by {
                    if k < i {
                        assert(spans(before)[k] == at(start_x as int, 2 + k, all[k]));
                    }
                }
                assert(spans(body@) =~= Seq::new(
                    (i + 1) as nat,
                    |k: int| at(start_x as int, 2 + k, all[k]),
                ));
            }
            i += 1;
        }
        let ghost b = spans(body@);
        r.append(&mut body);
        assert(spans(r@) =~= head + b);
        assert(i as int == min(all.len() as int, sat_sub(h, 2)));
        assert(spans(r@) =~= help_screen(w, h));
        r
    }

    /// The output viewer for a terminal `width` by `height`; nothing when
    /// there is no output to show.
    pub fn draw_output_screen(&self, width: u16, height: u16) -> (r: Vec<Span>)
        ensures
            match self@.output {
                Some((name, out)) => spans(r@) == output_screen(
                    name,
                    out,
                    width as int,
                    height as int,
                ),
                None => r@.len() == 0,
            },
    {
        let ghost w = width as int;
        let ghost h = height as int;
        let mut r: Vec<Span> = Vec::new();
        match &self.output_data {
            Some((name, output)) => {
                let box_width = sub_or_zero(width, 4);
                let rows = sub_or_zero(sub_or_zero(height, 4), 2);
                let edge = edge_text(sub_or_zero(box_width, 2));
                r.push(
                    bar_at(0, width, Color::Cyan, Color::Black, join_text(" Output: ", name.as_str()).as_str()),
                );
                r.push(text_at(1, 1, join3("┌", edge.as_str(), "┐")));
                r.push(text_at(1, sub_or_zero(height, 2), join3("└", edge.as_str(), "┘")));
                let ghost head = spans(r@);
                let mut left = column(1, rows, "│");
                let ghost l = spans(left@);
                r.append(&mut left);
                let mut right = column(sub_or_zero(box_width, 1), rows, "│");
                let ghost rt = spans(right@);
                r.append(&mut right);
                let lines = split_lines(output.as_str());
                let mut shown = output_lines(&lines, rows, sub_or_zero(box_width, 4));
                let ghost sh = spans(shown@);
                r.append(&mut shown);
                let ghost mid = spans(r@);
                assert(mid =~= head + l + rt + sh);
                r.push(
                    bar_at(
                        sub_or_zero(height, 1),
                        width,
                        Color::DarkGrey,
                        Color::White,
                        " Press SPACE or ESC to close",
                    ),
                );
                assert(spans(r@) =~= output_screen(name@, output@, w, h));
            },
            None => {},
        }
        r
    }

    /// The frame for the current mode, for a terminal `width` by `height`.
    pub fn draw(&self, width: u16, height: u16) -> (r: Vec<Span>)
        requires
            self.wf(),
        ensures
            spans(r@) == frame(self@, width as int, height as int),
    {
        match self.mode {
            Mode::Normal => self.draw_main_screen(width, height),
            Mode::AddProgram => self.draw_add_program_screen(width, height),
            Mode::Help => self.draw_help_screen(width, height),
            Mode::ShowOutput => {
                let r = self.draw_output_screen(width, height);
                proof {
                    if self@.output is None {
                        assert(spans(r@) =~= Seq::<SpanView>::empty());
                    }
                }
                r
            },
        }
    }
}

} // verus!
