use vstd::prelude::*;
use crate::graphics::color::ColorCode;

verus! {

/// A control sequence that the escape-sequence reader recognised.
#[derive(Debug, Clone, Copy, PartialEq, Eq, Structural)]
pub enum CsiSequence {
    CursorUp(u16),
    CursorDown(u16),
    CursorRight(u16),
    CursorLeft(u16),
    CursorNextLineHead(u16),
    CursorPrevLineHead(u16),
    CursorColumn(u16),
    CursorPosition { row: u16, col: u16 },
    ScrollUp(u16),
    ScrollDown(u16),
    ClearScreenAfterCursor,
    ClearScreenBeforeCursor,
    ClearScreenAll,
    ClearRowAfterCursor,
    ClearRowBeforeCursor,
    ClearRowAll,
    CharReset,
    CharBold,
    CharDim,
    CharItalic,
    CharUnderline,
    CharBlink,
    CharBlinkFast,
    CharReverseColor,
    CharHidden,
    CharCancel,
    ForeColorBlack,
    ForeColorRed,
    ForeColorGreen,
    ForeColorYellow,
    ForeColorBlue,
    ForeColorMagenta,
    ForeColorCyan,
    ForeColorWhite,
    BackColorBlack,
    BackColorRed,
    BackColorGreen,
    BackColorYellow,
    BackColorBlue,
    BackColorMagenta,
    BackColorCyan,
    BackColorWhite,
}

/// What the escape-sequence reader made of a character.
#[derive(Debug, Clone, Copy, PartialEq, Eq, Structural)]
pub enum AnsiEvent {
    AnsiControlChar(char),
    CsiSequence(CsiSequence),
}

/// The reader's answer to a character: an event, nothing yet (the
/// character is printable or part of an unfinished sequence), or a broken
/// sequence, after which the reader starts over.
#[derive(Debug, Clone, Copy, PartialEq, Eq, Structural)]
pub enum StreamOutput {
    Event(AnsiEvent),
    Nothing,
    Invalid,
}

/// Drawing that the console asks for, in order.
#[derive(Debug, Clone, Copy, PartialEq, Eq, Structural)]
pub enum ConsoleAction {
    Fill(ColorCode),
    DrawRect { x: usize, y: usize, w: usize, h: usize, color: ColorCode },
    CopyRect { src_x: usize, src_y: usize, dst_x: usize, dst_y: usize, w: usize, h: usize },
    DrawFont { x: usize, y: usize, c: char, fore: ColorCode, back: ColorCode },
    /// write four spaces, one character at a time
    WriteTab,
    /// start the escape-sequence reader over
    ResetReader,
}

/// The cursor, the colors and whether printing is hidden.
#[derive(Debug, Clone, Copy, PartialEq, Eq, Structural)]
pub struct ConsoleState {
    pub default_back_color: ColorCode,
    pub back_color: ColorCode,
    pub default_fore_color: ColorCode,
    pub fore_color: ColorCode,
    pub cursor_x: usize,
    pub cursor_y: usize,
    pub is_hidden: bool,
}

/// The screen and font sizes in pixels that the console draws with.
#[derive(Debug, Clone, Copy, PartialEq, Eq, Structural)]
pub struct Geometry {
    pub screen_w: usize,
    pub screen_h: usize,
    pub font_w: usize,
    pub font_h: usize,
}

/// Glyphs of positive size, with room for one on the screen; the offset
/// `row * screen_h` that clearing the rest of a row starts at fits in
/// `usize` for every row.
pub open spec fn geometry_ok(g: Geometry) -> bool {
    &&& 0 < g.font_w <= g.screen_w
    &&& 0 < g.font_h <= g.screen_h
    &&& (g.screen_h / g.font_h) * g.screen_h <= usize::MAX
}

pub open spec fn max_x(g: Geometry) -> int {
    g.screen_w / g.font_w - 1
}

pub open spec fn max_y(g: Geometry) -> int {
    g.screen_h / g.font_h - 1
}

/// The cursor is on the screen.
pub open spec fn console_wf(s: ConsoleState, g: Geometry) -> bool {
    &&& geometry_ok(g)
    &&& s.cursor_x <= max_x(g)
    &&& s.cursor_y <= max_y(g)
}

/// The control sequences the console does not implement.
pub open spec fn unsupported(seq: CsiSequence) -> bool {
    seq is ScrollDown || seq is CharBold || seq is CharDim || seq is CharItalic || seq is CharUnderline
        || seq is CharBlink || seq is CharBlinkFast || seq is CharCancel
}

pub open spec fn rgb(r: u8, g: u8, b: u8) -> ColorCode {
    ColorCode { r, g, b, a: 0 }
}

pub open spec fn min(a: int, b: int) -> int {
    if a < b {
        a
    } else {
        b
    }
}

pub open spec fn sat_sub(a: int, b: int) -> int {
    if a > b {
        a - b
    } else {
        0
    }
}

/// Moving the screen contents up by one row and clearing the last row.
pub open spec fn scroll_actions(s: ConsoleState, g: Geometry) -> Seq<ConsoleAction> {
    seq![
        ConsoleAction::CopyRect {
            src_x: 0,
            src_y: g.font_h,
            dst_x: 0,
            dst_y: 0,
            w: g.screen_w,
            h: (g.screen_h - g.font_h) as usize,
        },
        ConsoleAction::DrawRect {
            x: 0,
            y: (g.screen_h - g.font_h) as usize,
            w: g.screen_w,
            h: g.font_h,
            color: s.back_color,
        },
    ]
}

pub open spec fn repeat_scroll(s: ConsoleState, g: Geometry, n: nat) -> Seq<ConsoleAction>
    decreases n,
{
    if n == 0 {
        Seq::empty()
    } else {
        repeat_scroll(s, g, (n - 1) as nat) + scroll_actions(s, g)
    }
}

pub open spec fn with_cursor(s: ConsoleState, x: int, y: int) -> ConsoleState {
    ConsoleState { cursor_x: x as usize, cursor_y: y as usize, ..s }
}

/// What a control sequence does to the console.
pub open spec fn csi_step(s: ConsoleState, g: Geometry, seq: CsiSequence) -> (ConsoleState, Seq<ConsoleAction>) {
    let x = s.cursor_x as int;
    let y = s.cursor_y as int;
    let fw = g.font_w as int;
    let fh = g.font_h as int;
    let none = Seq::<ConsoleAction>::empty();
    match seq {
        CsiSequence::CursorUp(n) => (with_cursor(s, x, sat_sub(y, n as int)), none),
        CsiSequence::CursorDown(n) => (with_cursor(s, x, min(y + n, max_y(g))), none),
        CsiSequence::CursorRight(n) => (with_cursor(s, min(x + n, max_x(g)), y), none),
        CsiSequence::CursorLeft(n) => (with_cursor(s, sat_sub(x, n as int), y), none),
        CsiSequence::CursorNextLineHead(n) => (with_cursor(s, 0, min(y + n, max_y(g))), none),
        CsiSequence::CursorPrevLineHead(n) => (with_cursor(s, 0, sat_sub(y, n as int)), none),
        CsiSequence::CursorColumn(n) => if n > 0 {
            (with_cursor(s, min(n - 1, max_x(g)), y), none)
        } else {
            (s, none)
        },
        CsiSequence::CursorPosition { row, col } => if row > 0 && col > 0 {
            (with_cursor(s, min(col - 1, max_x(g)), min(row - 1, max_y(g))), none)
        } else {
            (s, none)
        },
        CsiSequence::ScrollUp(n) => (s, repeat_scroll(s, g, n as nat)),
        CsiSequence::ClearScreenAfterCursor => (
            s,
            seq![
                ConsoleAction::DrawRect {
                    x: (x * fw) as usize,
                    y: (y * fh) as usize,
                    w: (g.screen_w - x * fw) as usize,
                    h: (g.screen_h - y * fh) as usize,
                    color: s.back_color,
                },
            ],
        ),
        CsiSequence::ClearScreenBeforeCursor => (
            s,
            seq![
                ConsoleAction::DrawRect {
                    x: 0,
                    y: 0,
                    w: (x * fw) as usize,
                    h: (y * fh) as usize,
                    color: s.back_color,
                },
            ],
        ),
        CsiSequence::ClearScreenAll => (s, seq![ConsoleAction::Fill(s.back_color)]),
        // the row height used here is the screen height
        CsiSequence::ClearRowAfterCursor => (
            s,
            seq![
                ConsoleAction::DrawRect {
                    x: (x * fw) as usize,
                    y: (y * g.screen_h) as usize,
                    w: (g.screen_w - x * fw) as usize,
                    h: g.screen_h,
                    color: s.back_color,
                },
            ],
        ),
        CsiSequence::ClearRowBeforeCursor => (
            s,
            seq![
                ConsoleAction::DrawRect {
                    x: 0,
                    y: (y * fh) as usize,
                    w: (x * fw) as usize,
                    h: g.font_h,
                    color: s.back_color,
                },
            ],
        ),
        CsiSequence::ClearRowAll => (
            s,
            seq![
                ConsoleAction::DrawRect {
                    x: 0,
                    y: (y * fh) as usize,
                    w: g.screen_w,
                    h: g.font_h,
                    color: s.back_color,
                },
            ],
        ),
        CsiSequence::CharReset => (
            ConsoleState {
                back_color: s.default_back_color,
                fore_color: s.default_fore_color,
                is_hidden: false,
                ..s
            },
            none,
        ),
        CsiSequence::CharReverseColor => (
            ConsoleState { fore_color: s.back_color, back_color: s.fore_color, ..s },
            none,
        ),
        CsiSequence::CharHidden => (ConsoleState { is_hidden: true, ..s }, none),
        CsiSequence::ForeColorBlack => (ConsoleState { fore_color: rgb(0, 0, 0), ..s }, none),
        CsiSequence::ForeColorRed => (ConsoleState { fore_color: rgb(255, 0, 0), ..s }, none),
        CsiSequence::ForeColorGreen => (ConsoleState { fore_color: rgb(0, 255, 0), ..s }, none),
        CsiSequence::ForeColorYellow => (ConsoleState { fore_color: rgb(255, 255, 0), ..s }, none),
        CsiSequence::ForeColorBlue => (ConsoleState { fore_color: rgb(0, 0, 255), ..s }, none),
        CsiSequence::ForeColorMagenta => (ConsoleState { fore_color: rgb(255, 0, 255), ..s }, none),
        CsiSequence::ForeColorCyan => (ConsoleState { fore_color: rgb(0, 255, 255), ..s }, none),
        CsiSequence::ForeColorWhite => (ConsoleState { fore_color: rgb(255, 255, 255), ..s }, none),
        CsiSequence::BackColorBlack => (ConsoleState { back_color: rgb(0, 0, 0), ..s }, none),
        CsiSequence::BackColorRed => (ConsoleState { back_color: rgb(255, 0, 0), ..s }, none),
        CsiSequence::BackColorGreen => (ConsoleState { back_color: rgb(0, 255, 0), ..s }, none),
        CsiSequence::BackColorYellow => (ConsoleState { back_color: rgb(255, 255, 0), ..s }, none),
        CsiSequence::BackColorBlue => (ConsoleState { back_color: rgb(0, 0, 255), ..s }, none),
        CsiSequence::BackColorMagenta => (ConsoleState { back_color: rgb(255, 0, 255), ..s }, none),
        CsiSequence::BackColorCyan => (ConsoleState { back_color: rgb(0, 255, 255), ..s }, none),
        CsiSequence::BackColorWhite => (ConsoleState { back_color: rgb(255, 255, 255), ..s }, none),
        _ => (s, none),
    }
}

/// A new row: the cursor goes to the start of the next row, scrolling at the
/// bottom.
pub open spec fn new_line_step(s: ConsoleState, g: Geometry) -> (ConsoleState, Seq<ConsoleAction>) {
    if s.cursor_y + 1 > max_y(g) {
        (with_cursor(s, 0, max_y(g)), scroll_actions(s, g))
    } else {
        (with_cursor(s, 0, s.cursor_y + 1), Seq::empty())
    }
}

/// The cursor moves one cell on, wrapping at the end of a row and scrolling
/// at the bottom.
pub open spec fn inc_step(s: ConsoleState, g: Geometry) -> (ConsoleState, Seq<ConsoleAction>) {
    let x1 = s.cursor_x + 1;
    let wrapped = x1 > max_x(g);
    let x2 = if wrapped { 0 } else { x1 };
    let y2 = if wrapped { s.cursor_y + 1 } else { s.cursor_y as int };
    if y2 > max_y(g) {
        (with_cursor(s, 0, max_y(g)), scroll_actions(s, g))
    } else {
        (with_cursor(s, x2, y2), Seq::empty())
    }
}

/// A backspace: the cursor moves one cell back (to the end of the previous
/// row from the start of a row) and that cell is cleared.
pub open spec fn backspace_step(s: ConsoleState, g: Geometry) -> (ConsoleState, Seq<ConsoleAction>) {
    let s1 = if s.cursor_x == 0 {
        if s.cursor_y > 0 {
            with_cursor(s, max_x(g), s.cursor_y - 1)
        } else {
            s
        }
    } else {
        with_cursor(s, s.cursor_x - 1, s.cursor_y as int)
    };
    (
        s1,
        seq![
            ConsoleAction::DrawRect {
                x: (s1.cursor_x * g.font_w) as usize,
                y: (s1.cursor_y * g.font_h) as usize,
                w: g.font_w,
                h: g.font_h,
                color: s.back_color,
            },
        ],
    )
}

/// What writing one character does, given the reader's answer to it (which
/// the caller obtains only for characters other than line feed, tab,
/// backspace and delete).
pub open spec fn console_step(s: ConsoleState, g: Geometry, c: char, out: StreamOutput) -> (ConsoleState, Seq<ConsoleAction>) {
    if c == '\n' {
        new_line_step(s, g)
    } else if c == '\t' {
        (s, seq![ConsoleAction::WriteTab])
    } else if c == '\x08' || c == '\x7f' {
        backspace_step(s, g)
    } else {
        match out {
            StreamOutput::Event(AnsiEvent::AnsiControlChar(_)) => (s, Seq::empty()),
            StreamOutput::Event(AnsiEvent::CsiSequence(seq)) => csi_step(s, g, seq),
            _ => {
                let reset = if out is Invalid {
                    seq![ConsoleAction::ResetReader]
                } else {
                    Seq::empty()
                };
                if s.is_hidden {
                    (s, reset)
                } else {
                    let (s1, a1) = inc_step(s, g);
                    (
                        s1,
                        reset + seq![
                            ConsoleAction::DrawFont {
                                x: (s.cursor_x * g.font_w) as usize,
                                y: (s.cursor_y * g.font_h) as usize,
                                c: c,
                                fore: s.fore_color,
                                back: s.back_color,
                            },
                        ] + a1,
                    )
                }
            },
        }
    }
}

proof fn lemma_geometry(g: Geometry)
    requires
        geometry_ok(g),
    ensures
        max_x(g) >= 0,
        max_y(g) >= 0,
        (max_x(g) + 1) * g.font_w <= g.screen_w,
        (max_y(g) + 1) * g.font_h <= g.screen_h,
{
    let fw = g.font_w as int;
    let fh = g.font_h as int;
    let sw = g.screen_w as int;
    let sh = g.screen_h as int;
    assert((sw / fw) * fw <= sw && sw / fw >= 1) by (nonlinear_arith)
        requires
            fw > 0,
            sw >= fw,
    {
        assert(sw == fw * (sw / fw) + sw % fw);
    }
    assert((sh / fh) * fh <= sh && sh / fh >= 1) by (nonlinear_arith)
        requires
            fh > 0,
            sh >= fh,
    {
        assert(sh == fh * (sh / fh) + sh % fh);
    }
}

proof fn lemma_cell_bounds(s: ConsoleState, g: Geometry)
    requires
        console_wf(s, g),
    ensures
        s.cursor_x * g.font_w + g.font_w <= g.screen_w,
        s.cursor_y * g.font_h + g.font_h <= g.screen_h,
        s.cursor_y * g.screen_h <= usize::MAX,
        max_x(g) >= 0,
        max_y(g) >= 0,
{
    lemma_geometry(g);
    let fw = g.font_w as int;
    let fh = g.font_h as int;
    assert(s.cursor_x * fw + fw <= g.screen_w) by (nonlinear_arith)
        requires
            s.cursor_x <= max_x(g),
            (max_x(g) + 1) * fw <= g.screen_w,
            fw > 0,
    ;
    assert(s.cursor_y * fh + fh <= g.screen_h) by (nonlinear_arith)
        requires
            s.cursor_y <= max_y(g),
            (max_y(g) + 1) * fh <= g.screen_h,
            fh > 0,
    ;
    assert(s.cursor_y * g.screen_h <= usize::MAX) by (nonlinear_arith)
        requires
            0 <= s.cursor_y <= max_y(g),
            max_y(g) == g.screen_h / g.font_h - 1,
            (g.screen_h / g.font_h) * g.screen_h <= usize::MAX,
            g.screen_h >= 0,
    ;
}

/// The text console: its state, drawing through the caller.
pub struct FrameBufferConsole {
    pub state: ConsoleState,
}

impl FrameBufferConsole {
    pub fn new() -> (res: Self)
        ensures
            res.state.cursor_x == 0 && res.state.cursor_y == 0 && !res.state.is_hidden,
            res.state.back_color == (ColorCode { r: 0, g: 0, b: 0, a: 0 }),
            res.state.fore_color == (ColorCode { r: 0, g: 0, b: 0, a: 0 }),
            res.state.default_back_color == (ColorCode { r: 0, g: 0, b: 0, a: 0 }),
            res.state.default_fore_color == (ColorCode { r: 0, g: 0, b: 0, a: 0 }),
    {
        let d = ColorCode::default();
        FrameBufferConsole {
            state: ConsoleState {
                default_back_color: d,
                back_color: d,
                default_fore_color: d,
                fore_color: d,
                cursor_x: 0,
                cursor_y: 0,
                is_hidden: false,
            },
        }
    }

    /// Sets the colors, puts the cursor at row 2, fills the screen and draws
    /// one 20-pixel square per sample color along the top.
    pub fn init(&mut self, g: Geometry, back_color: ColorCode, fore_color: ColorCode, sample_colors: &[ColorCode]) -> (res: Vec<ConsoleAction>)
        requires
            geometry_ok(g),
            sample_colors@.len() * 20 <= usize::MAX,
        ensures
            final(self).state == (ConsoleState {
                default_back_color: back_color,
                back_color,
                default_fore_color: fore_color,
                fore_color,
                cursor_x: 0,
                cursor_y: 2,
                is_hidden: old(self).state.is_hidden,
            }),
            max_y(g) >= 2 ==> console_wf(final(self).state, g),
            res@.len() == sample_colors@.len() + 1,
            res@[0] == ConsoleAction::Fill(back_color),
            forall|i: int|
                0 <= i < sample_colors@.len() ==> #[trigger] res@[i + 1] == (ConsoleAction::DrawRect {
                    x: (i * 20) as usize,
                    y: 0,
                    w: 20,
                    h: 20,
                    color: sample_colors@[i],
                }),
    {
        self.state.default_back_color = back_color;
        self.state.back_color = back_color;
        self.state.default_fore_color = fore_color;
        self.state.fore_color = fore_color;
        self.state.cursor_x = 0;
        self.state.cursor_y = 2;
        proof {
            lemma_geometry(g);
        }
        let mut actions: Vec<ConsoleAction> = Vec::new();
        actions.push(ConsoleAction::Fill(back_color));
        let mut i: usize = 0;
        while i < sample_colors.len()
            invariant
                i <= sample_colors@.len(),
                sample_colors@.len() * 20 <= usize::MAX,
                actions@.len() == i + 1,
                actions@[0] == ConsoleAction::Fill(back_color),
                forall|j: int|
                    0 <= j < i ==> #[trigger] actions@[j + 1] == (ConsoleAction::DrawRect {
                        x: (j * 20) as usize,
                        y: 0,
                        w: 20,
                        h: 20,
                        color: sample_colors@[j],
                    }),
            decreases sample_colors.len() - i,
        {
            actions.push(ConsoleAction::DrawRect { x: i * 20, y: 0, w: 20, h: 20, color: sample_colors[i] });
            i = i + 1;
        }
        actions
    }

    pub fn set_fore_color(&mut self, fore_color: ColorCode)
        ensures
            final(self).state == (ConsoleState { fore_color, ..old(self).state }),
    {
        self.state.fore_color = fore_color;
    }

    pub fn reset_fore_color(&mut self)
        ensures
            final(self).state == (ConsoleState {
                fore_color: old(self).state.default_fore_color,
                ..old(self).state
            }),
    {
        self.state.fore_color = self.state.default_fore_color;
    }

    pub fn set_back_color(&mut self, back_color: ColorCode)
        ensures
            final(self).state == (ConsoleState { back_color, ..old(self).state }),
    {
        self.state.back_color = back_color;
    }

    pub fn reset_back_color(&mut self)
        ensures
            final(self).state == (ConsoleState {
                back_color: old(self).state.default_back_color,
                ..old(self).state
            }),
    {
        self.state.back_color = self.state.default_back_color;
    }

    fn scroll(&self, g: Geometry, actions: &mut Vec<ConsoleAction>)
        requires
            geometry_ok(g),
        ensures
            final(actions)@ == old(actions)@ + scroll_actions(self.state, g),
    {
        actions.push(
            ConsoleAction::CopyRect {
                src_x: 0,
                src_y: g.font_h,
                dst_x: 0,
                dst_y: 0,
                w: g.screen_w,
                h: g.screen_h - g.font_h,
            },
        );
        actions.push(
            ConsoleAction::DrawRect {
                x: 0,
                y: g.screen_h - g.font_h,
                w: g.screen_w,
                h: g.font_h,
                color: self.state.back_color,
            },
        );
        assert(actions@ =~= old(actions)@ + scroll_actions(self.state, g));
    }

    fn set_cursor(&mut self, x: usize, y: usize)
        ensures
            final(self).state == with_cursor(old(self).state, x as int, y as int),
    {
        self.state.cursor_x = x;
        self.state.cursor_y = y;
    }

    fn csi(&mut self, g: Geometry, seq: CsiSequence, actions: &mut Vec<ConsoleAction>)
        requires
            console_wf(old(self).state, g),
            !unsupported(seq),
        ensures
            final(self).state == csi_step(old(self).state, g, seq).0,
            final(actions)@ == old(actions)@ + csi_step(old(self).state, g, seq).1,
    {
        proof {
            lemma_cell_bounds(self.state, g);
        }
        let mx = g.screen_w / g.font_w - 1;
        let my = g.screen_h / g.font_h - 1;
        let x = self.state.cursor_x;
        let y = self.state.cursor_y;
        let fw = g.font_w;
        let fh = g.font_h;
        let back = self.state.back_color;
        match seq {
            CsiSequence::CursorUp(n) => {
                let ny = if y > n as usize { y - n as usize } else { 0 };
                self.set_cursor(x, ny);
            },
            CsiSequence::CursorDown(n) => {
                let ny = if (n as usize) < my - y { y + n as usize } else { my };
                self.set_cursor(x, ny);
            },
            CsiSequence::CursorRight(n) => {
                let nx = if (n as usize) < mx - x { x + n as usize } else { mx };
                self.set_cursor(nx, y);
            },
            CsiSequence::CursorLeft(n) => {
                let nx = if x > n as usize { x - n as usize } else { 0 };
                self.set_cursor(nx, y);
            },
            CsiSequence::CursorNextLineHead(n) => {
                let ny = if (n as usize) < my - y { y + n as usize } else { my };
                self.set_cursor(0, ny);
            },
            CsiSequence::CursorPrevLineHead(n) => {
                let ny = if y > n as usize { y - n as usize } else { 0 };
                self.set_cursor(0, ny);
            },
            CsiSequence::CursorColumn(n) => {
                if n > 0 {
                    let nx = if ((n - 1) as usize) < mx { (n - 1) as usize } else { mx };
                    self.set_cursor(nx, y);
                }
            },
            CsiSequence::CursorPosition { row, col } => {
                if row > 0 && col > 0 {
                    let nx = if ((col - 1) as usize) < mx { (col - 1) as usize } else { mx };
                    let ny = if ((row - 1) as usize) < my { (row - 1) as usize } else { my };
                    self.set_cursor(nx, ny);
                }
            },
            CsiSequence::ScrollUp(n) => {
                let mut k: u16 = 0;
                while k < n
                    invariant
                        k <= n,
                        geometry_ok(g),
                        actions@ == old(actions)@ + repeat_scroll(self.state, g, k as nat),
                        self.state == old(self).state,
                    decreases n - k,
                {
                    self.scroll(g, actions);
                    k = k + 1;
                }
            },
            CsiSequence::ClearScreenAfterCursor => {
                actions.push(
                    ConsoleAction::DrawRect {
                        x: x * fw,
                        y: y * fh,
                        w: g.screen_w - x * fw,
                        h: g.screen_h - y * fh,
                        color: back,
                    },
                );
            },
            CsiSequence::ClearScreenBeforeCursor => {
                actions.push(ConsoleAction::DrawRect { x: 0, y: 0, w: x * fw, h: y * fh, color: back });
            },
            CsiSequence::ClearScreenAll => {
                actions.push(ConsoleAction::Fill(back));
            },
            CsiSequence::ClearRowAfterCursor => {
                actions.push(
                    ConsoleAction::DrawRect {
                        x: x * fw,
                        y: y * g.screen_h,
                        w: g.screen_w - x * fw,
                        h: g.screen_h,
                        color: back,
                    },
                );
            },
            CsiSequence::ClearRowBeforeCursor => {
                actions.push(ConsoleAction::DrawRect { x: 0, y: y * fh, w: x * fw, h: fh, color: back });
            },
            CsiSequence::ClearRowAll => {
                actions.push(ConsoleAction::DrawRect { x: 0, y: y * fh, w: g.screen_w, h: fh, color: back });
            },
            CsiSequence::CharReset => {
                self.state.back_color = self.state.default_back_color;
                self.state.fore_color = self.state.default_fore_color;
                self.state.is_hidden = false;
            },
            CsiSequence::CharReverseColor => {
                let tmp = self.state.fore_color;
                self.state.fore_color = self.state.back_color;
                self.state.back_color = tmp;
            },
            CsiSequence::CharHidden => {
                self.state.is_hidden = true;
            },
            CsiSequence::ForeColorBlack => {
                self.state.fore_color = ColorCode::new_rgb(0, 0, 0);
            },
            CsiSequence::ForeColorRed => {
                self.state.fore_color = ColorCode::new_rgb(255, 0, 0);
            },
            CsiSequence::ForeColorGreen => {
                self.state.fore_color = ColorCode::new_rgb(0, 255, 0);
            },
            CsiSequence::ForeColorYellow => {
                self.state.fore_color = ColorCode::new_rgb(255, 255, 0);
            },
            CsiSequence::ForeColorBlue => {
                self.state.fore_color = ColorCode::new_rgb(0, 0, 255);
            },
            CsiSequence::ForeColorMagenta => {
                self.state.fore_color = ColorCode::new_rgb(255, 0, 255);
            },
            CsiSequence::ForeColorCyan => {
                self.state.fore_color = ColorCode::new_rgb(0, 255, 255);
            },
            CsiSequence::ForeColorWhite => {
                self.state.fore_color = ColorCode::new_rgb(255, 255, 255);
            },
            CsiSequence::BackColorBlack => {
                self.state.back_color = ColorCode::new_rgb(0, 0, 0);
            },
            CsiSequence::BackColorRed => {
                self.state.back_color = ColorCode::new_rgb(255, 0, 0);
            },
            CsiSequence::BackColorGreen => {
                self.state.back_color = ColorCode::new_rgb(0, 255, 0);
            },
            CsiSequence::BackColorYellow => {
                self.state.back_color = ColorCode::new_rgb(255, 255, 0);
            },
            CsiSequence::BackColorBlue => {
                self.state.back_color = ColorCode::new_rgb(0, 0, 255);
            },
            CsiSequence::BackColorMagenta => {
                self.state.back_color = ColorCode::new_rgb(255, 0, 255);
            },
            CsiSequence::BackColorCyan => {
                self.state.back_color = ColorCode::new_rgb(0, 255, 255);
            },
            CsiSequence::BackColorWhite => {
                self.state.back_color = ColorCode::new_rgb(255, 255, 255);
            },
            _ => {},
        }
        assert(actions@ =~= old(actions)@ + csi_step(old(self).state, g, seq).1);
    }

    /// Writes one character: a line feed, tab, backspace or delete acts on
    /// the cursor; for any other character `out` is what the
    /// escape-sequence reader made of it: a control sequence acts on the
    /// cursor, colors or screen, and a printable character is drawn unless
    /// printing is hidden. Gives the drawing to do, in order.
    pub fn write_char(&mut self, g: Geometry, c: char, out: StreamOutput) -> (res: Vec<ConsoleAction>)
        requires
            console_wf(old(self).state, g),
            out matches StreamOutput::Event(AnsiEvent::CsiSequence(seq)) ==> !unsupported(seq),
        ensures
            console_wf(final(self).state, g),
            final(self).state == console_step(old(self).state, g, c, out).0,
            res@ == console_step(old(self).state, g, c, out).1,
    {
        proof {
            lemma_cell_bounds(self.state, g);
        }
        let mut actions: Vec<ConsoleAction> = Vec::new();
        let mx = g.screen_w / g.font_w - 1;
        let my = g.screen_h / g.font_h - 1;
        if c == '\n' {
            if self.state.cursor_y >= my {
                self.scroll(g, &mut actions);
                self.set_cursor(0, my);
            } else {
                let ny = self.state.cursor_y + 1;
                self.set_cursor(0, ny);
            }
            assert(actions@ =~= console_step(old(self).state, g, c, out).1);
            return actions;
        }
        if c == '\t' {
            actions.push(ConsoleAction::WriteTab);
            assert(actions@ =~= console_step(old(self).state, g, c, out).1);
            return actions;
        }
        if c == '\x08' || c == '\x7f' {
            let back = self.state.back_color;
            if self.state.cursor_x == 0 {
                if self.state.cursor_y > 0 {
                    let ny = self.state.cursor_y - 1;
                    self.set_cursor(mx, ny);
                }
            } else {
                let nx = self.state.cursor_x - 1;
                let ny = self.state.cursor_y;
                self.set_cursor(nx, ny);
            }
            proof {
                lemma_cell_bounds(self.state, g);
            }
            actions.push(
                ConsoleAction::DrawRect {
                    x: self.state.cursor_x * g.font_w,
                    y: self.state.cursor_y * g.font_h,
                    w: g.font_w,
                    h: g.font_h,
                    color: back,
                },
            );
            assert(actions@ =~= console_step(old(self).state, g, c, out).1);
            return actions;
        }
        match out {
            StreamOutput::Event(AnsiEvent::AnsiControlChar(_)) => {
                return actions;
            },
            StreamOutput::Event(AnsiEvent::CsiSequence(seq)) => {
                self.csi(g, seq, &mut actions);
                proof {
                    lemma_csi_step_wf(old(self).state, g, seq);
                }
                assert(actions@ =~= console_step(old(self).state, g, c, out).1);
                return actions;
            },
            StreamOutput::Invalid => {
                actions.push(ConsoleAction::ResetReader);
            },
            StreamOutput::Nothing => {},
        }
        if !self.state.is_hidden {
            let s = self.state;
            actions.push(
                ConsoleAction::DrawFont {
                    x: s.cursor_x * g.font_w,
                    y: s.cursor_y * g.font_h,
                    c,
                    fore: s.fore_color,
                    back: s.back_color,
                },
            );
            let nx = s.cursor_x + 1;
            let (wx, wy) = if nx > mx {
                (0, s.cursor_y + 1)
            } else {
                (nx, s.cursor_y)
            };
            if wy > my {
                self.scroll(g, &mut actions);
                self.set_cursor(0, my);
            } else {
                self.set_cursor(wx, wy);
            }
        }
        assert(actions@ =~= console_step(old(self).state, g, c, out).1);
        actions
    }
}

proof fn lemma_csi_step_wf(s: ConsoleState, g: Geometry, seq: CsiSequence)
    requires
        console_wf(s, g),
    ensures
        console_wf(csi_step(s, g, seq).0, g),
{
    lemma_geometry(g);
}

/// The state after writing `c` when the reader made the control sequence
/// `q` of it.
pub open spec fn after_csi(s: ConsoleState, g: Geometry, c: char, q: CsiSequence) -> ConsoleState {
    console_step(s, g, c, StreamOutput::Event(AnsiEvent::CsiSequence(q))).0
}

/// The four cursor moves: up and left go toward 0 by `n` cells and stop at
/// 0; down and right go away from 0 by `n` cells and stop at the last row
/// or column; each moves along one axis only, draws nothing, and keeps the
/// colors. Moving up `n` rows and then down `n` rows comes back to the row
/// one started on when it is at least `n`; likewise left then right.
pub proof fn lemma_cursor_moves(s: ConsoleState, g: Geometry, c: char, n: u16)
    requires
        console_wf(s, g),
        c != '\n' && c != '\t' && c != '\x08' && c != '\x7f',
    ensures
        ({
            let up = after_csi(s, g, c, CsiSequence::CursorUp(n));
            let down = after_csi(s, g, c, CsiSequence::CursorDown(n));
            let left = after_csi(s, g, c, CsiSequence::CursorLeft(n));
            let right = after_csi(s, g, c, CsiSequence::CursorRight(n));
            &&& up.cursor_x == s.cursor_x && up.cursor_y <= s.cursor_y
            &&& up.cursor_y == (if s.cursor_y >= n { s.cursor_y - n } else { 0 })
            &&& down.cursor_x == s.cursor_x && down.cursor_y >= s.cursor_y
            &&& down.cursor_y == (if s.cursor_y + n <= max_y(g) { s.cursor_y + n } else { max_y(g) })
            &&& left.cursor_y == s.cursor_y && left.cursor_x <= s.cursor_x
            &&& left.cursor_x == (if s.cursor_x >= n { s.cursor_x - n } else { 0 })
            &&& right.cursor_y == s.cursor_y && right.cursor_x >= s.cursor_x
            &&& right.cursor_x == (if s.cursor_x + n <= max_x(g) { s.cursor_x + n } else { max_x(g) })
            &&& up.fore_color == s.fore_color && up.back_color == s.back_color && up.is_hidden == s.is_hidden
            &&& down.fore_color == s.fore_color && down.back_color == s.back_color
            &&& console_step(s, g, c, StreamOutput::Event(AnsiEvent::CsiSequence(CsiSequence::CursorUp(n)))).1.len() == 0
            &&& console_step(s, g, c, StreamOutput::Event(AnsiEvent::CsiSequence(CsiSequence::CursorDown(n)))).1.len() == 0
            &&& s.cursor_y >= n ==> after_csi(up, g, c, CsiSequence::CursorDown(n)).cursor_y == s.cursor_y
            &&& s.cursor_x >= n ==> after_csi(left, g, c, CsiSequence::CursorRight(n)).cursor_x == s.cursor_x
        }),
{
    lemma_geometry(g);
}

/// Writing text: a printable character is drawn in the cursor's cell in
/// the current colors and the cursor moves one cell on (to the start of the
/// next row at the end of a row, scrolling at the end of the last row);
/// with printing hidden nothing moves or is drawn; a line feed goes to the
/// start of the next row (scrolling on the last); a backspace right after a
/// printed character that did not wrap goes back to that character's cell.
pub proof fn lemma_console_text(s: ConsoleState, g: Geometry, c: char, out: StreamOutput)
    requires
        console_wf(s, g),
        c != '\n' && c != '\t' && c != '\x08' && c != '\x7f',
    ensures
        ({
            let (p, a) = console_step(s, g, c, StreamOutput::Nothing);
            let x = s.cursor_x as int;
            let y = s.cursor_y as int;
            &&& !s.is_hidden ==> {
                &&& a.len() > 0 && a[0] == ConsoleAction::DrawFont {
                    x: (x * g.font_w) as usize,
                    y: (y * g.font_h) as usize,
                    c,
                    fore: s.fore_color,
                    back: s.back_color,
                }
                &&& x < max_x(g) ==> p.cursor_x == x + 1 && p.cursor_y == y && a.len() == 1
                &&& x == max_x(g) && y < max_y(g) ==> p.cursor_x == 0 && p.cursor_y == y + 1 && a.len() == 1
                &&& x == max_x(g) && y == max_y(g) ==> p.cursor_x == 0 && p.cursor_y == y && a.len() == 3
                &&& p.fore_color == s.fore_color && p.back_color == s.back_color
                &&& x < max_x(g) ==> console_step(p, g, '\x08', out).0.cursor_x == x && console_step(
                    p,
                    g,
                    '\x08',
                    out,
                ).0.cursor_y == y
            }
            &&& s.is_hidden ==> p == s && a.len() == 0
        }),
        ({
            let (n, a) = console_step(s, g, '\n', out);
            &&& n.cursor_x == 0
            &&& s.cursor_y < max_y(g) ==> n.cursor_y == s.cursor_y + 1 && a.len() == 0
            &&& s.cursor_y == max_y(g) ==> n.cursor_y == s.cursor_y && a == scroll_actions(s, g)
            &&& n.fore_color == s.fore_color && n.back_color == s.back_color
        }),
{
    lemma_geometry(g);
}

/// Placing the cursor: a column (counted from 1) or a row and column are
/// taken as given, stopping at the last column and row; 0 leaves the cursor
/// where it is.
pub proof fn lemma_cursor_placement(s: ConsoleState, g: Geometry, c: char, row: u16, col: u16)
    requires
        console_wf(s, g),
        c != '\n' && c != '\t' && c != '\x08' && c != '\x7f',
    ensures
        ({
            let a = after_csi(s, g, c, CsiSequence::CursorColumn(col));
            &&& a.cursor_y == s.cursor_y
            &&& col > 0 ==> a.cursor_x == (if col - 1 <= max_x(g) { col - 1 } else { max_x(g) })
            &&& col == 0 ==> a == s
        }),
        ({
            let a = after_csi(s, g, c, CsiSequence::CursorPosition { row, col });
            &&& row > 0 && col > 0 ==> a.cursor_x == (if col - 1 <= max_x(g) { col - 1 } else { max_x(g) })
                && a.cursor_y == (if row - 1 <= max_y(g) { row - 1 } else { max_y(g) })
            &&& !(row > 0 && col > 0) ==> a == s
        }),
        console_wf(after_csi(s, g, c, CsiSequence::CursorPosition { row, col }), g),
{
    lemma_geometry(g);
}

} // verus!
