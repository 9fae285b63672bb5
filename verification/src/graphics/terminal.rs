use vstd::prelude::*;
use crate::graphics::color::ColorCode;

verus! {

/// How many cells a tab advances by.
pub const TAB_INDENT_SIZE: usize = 4;

/// The height in pixels of a glyph of the terminal font.
pub const GLYPH_HEIGHT: usize = 16;

/// Errors of the frame buffer.
#[derive(Debug, Clone, Copy, PartialEq, Eq, Structural)]
pub enum FrameBufferError {
    NotInitialized,
    /// x, y
    OutsideFrameBufferAreaError(usize, usize),
    FontGlyphError,
}

/// Errors of the serial port.
#[derive(Debug, Clone, Copy, PartialEq, Eq, Structural)]
pub enum SerialPortError {
    NotInitialized,
}

/// Errors of the text terminal.
#[derive(Debug, Clone, Copy, PartialEq, Eq, Structural)]
pub enum TerminalError {
    NotInitialized,
    FrameBufferError(FrameBufferError),
    SerialPortError(SerialPortError),
}

/// What the terminal asks of the frame buffer and the serial port, in order.
#[derive(Debug, Clone, Copy, PartialEq, Eq, Structural)]
pub enum TerminalAction {
    /// fill the screen
    Clear(ColorCode),
    DrawRect { x: usize, y: usize, w: usize, h: usize, color: ColorCode },
    DrawFont { x: usize, y: usize, c: char, color: ColorCode },
    SendSerial(u8),
    /// move every line up by one glyph height and clear the last line
    Scroll { line_height: usize, width: usize, height: usize, back_color: ColorCode },
}

/// A text terminal drawn on the frame buffer and echoed to the serial port:
/// it keeps the cursor and the colors, and tells the caller what to draw.
#[derive(Debug, Clone, Copy)]
pub struct Terminal {
    pub is_init: bool,
    pub back_color: ColorCode,
    pub default_fore_color: ColorCode,
    pub fore_color: ColorCode,
    pub font_glyph_size: (usize, usize),
    pub max_x_res: usize,
    pub max_y_res: usize,
    pub char_max_x_len: usize,
    pub char_max_y_len: usize,
    pub cursor_x: usize,
    pub cursor_y: usize,
}

/// The cursor stays on the screen, apart from the start row 2 on a screen of
/// fewer rows; every cell's pixel position fits.
pub open spec fn terminal_wf(t: Terminal) -> bool {
    t.is_init ==> {
        &&& t.font_glyph_size.0 > 0
        &&& t.font_glyph_size.1 == GLYPH_HEIGHT
        &&& (t.char_max_x_len + 1) * t.font_glyph_size.0 <= t.max_x_res
        &&& (t.char_max_y_len + 1) * GLYPH_HEIGHT <= t.max_y_res
        &&& t.cursor_x <= t.char_max_x_len
        &&& t.cursor_y <= t.char_max_y_len || t.cursor_y == 2
        &&& 3 * GLYPH_HEIGHT <= usize::MAX
    }
}

pub open spec fn scroll_action(t: Terminal) -> TerminalAction {
    TerminalAction::Scroll {
        line_height: GLYPH_HEIGHT,
        width: t.max_x_res,
        height: t.max_y_res,
        back_color: t.back_color,
    }
}

/// The terminal after the cursor moved one cell on, and whether the screen
/// scrolled.
pub open spec fn after_inc(t: Terminal) -> (Terminal, bool) {
    let x1 = t.cursor_x + 1;
    let wrapped = x1 > t.char_max_x_len;
    let x2: usize = if wrapped { 0 } else { x1 as usize };
    let y2: int = if wrapped { t.cursor_y + 1 } else { t.cursor_y as int };
    if y2 > t.char_max_y_len {
        (Terminal { cursor_x: 0, cursor_y: t.char_max_y_len, ..t }, true)
    } else {
        (Terminal { cursor_x: x2, cursor_y: y2 as usize, ..t }, false)
    }
}

pub open spec fn inc_actions(t: Terminal) -> Seq<TerminalAction> {
    if after_inc(t).1 {
        seq![scroll_action(t)]
    } else {
        Seq::empty()
    }
}

/// Drawing a printable character: the glyph at the cursor, the byte to the
/// serial port, then the cursor moves on.
pub open spec fn put_char(t: Terminal, c: char) -> (Terminal, Seq<TerminalAction>) {
    (
        after_inc(t).0,
        seq![
            TerminalAction::DrawFont {
                x: (t.cursor_x * t.font_glyph_size.0) as usize,
                y: (t.cursor_y * GLYPH_HEIGHT) as usize,
                c: c,
                color: t.fore_color,
            },
            TerminalAction::SendSerial(c as u8),
        ] + inc_actions(t),
    )
}

/// A new line: the cursor goes to the start of the next row, scrolling at
/// the bottom, and a line feed goes to the serial port.
pub open spec fn new_line(t: Terminal) -> (Terminal, Seq<TerminalAction>) {
    let y1 = t.cursor_y + 1;
    if y1 > t.char_max_y_len {
        (
            Terminal { cursor_x: 0, cursor_y: t.char_max_y_len, ..t },
            seq![scroll_action(t), TerminalAction::SendSerial(10u8)],
        )
    } else {
        (Terminal { cursor_x: 0, cursor_y: y1 as usize, ..t }, seq![TerminalAction::SendSerial(10u8)])
    }
}

/// `k` more steps of a tab: each writes a space and moves the cursor on once
/// more.
pub open spec fn tab_steps(t: Terminal, k: nat) -> (Terminal, Seq<TerminalAction>)
    decreases k,
{
    if k == 0 {
        (t, Seq::empty())
    } else {
        let (t1, a1) = put_char(t, ' ');
        let (t2, a2) = (after_inc(t1).0, inc_actions(t1));
        let (t3, a3) = tab_steps(t2, (k - 1) as nat);
        (t3, a1 + a2 + a3)
    }
}

/// What writing one character does on an initialized terminal.
pub open spec fn write_char_step(t: Terminal, c: char) -> (Terminal, Seq<TerminalAction>) {
    if c == '\n' {
        new_line(t)
    } else if c == '\t' {
        let (t1, a1) = tab_steps(t, TAB_INDENT_SIZE as nat);
        (t1, a1.push(TerminalAction::SendSerial(9u8)))
    } else {
        put_char(t, c)
    }
}

/// What writing a string does on an initialized terminal.
pub open spec fn write_chars(t: Terminal, cs: Seq<char>) -> (Terminal, Seq<TerminalAction>)
    decreases cs.len(),
{
    if cs.len() == 0 {
        (t, Seq::empty())
    } else {
        let (t1, a1) = write_chars(t, cs.drop_last());
        let (t2, a2) = write_char_step(t1, cs.last());
        (t2, a1 + a2)
    }
}

proof fn lemma_after_inc_wf(t: Terminal)
    requires
        terminal_wf(t),
        t.is_init,
    ensures
        terminal_wf(after_inc(t).0),
        after_inc(t).0.is_init,
{
}

proof fn lemma_tab_steps_wf(t: Terminal, k: nat)
    requires
        terminal_wf(t),
        t.is_init,
    ensures
        terminal_wf(tab_steps(t, k).0),
        tab_steps(t, k).0.is_init,
    decreases k,
{
    if k > 0 {
        let t1 = put_char(t, ' ').0;
        lemma_after_inc_wf(t);
        lemma_after_inc_wf(t1);
        lemma_tab_steps_wf(after_inc(t1).0, (k - 1) as nat);
    }
}

proof fn lemma_write_char_step_wf(t: Terminal, c: char)
    requires
        terminal_wf(t),
        t.is_init,
    ensures
        terminal_wf(write_char_step(t, c).0),
        write_char_step(t, c).0.is_init,
{
    lemma_after_inc_wf(t);
    lemma_tab_steps_wf(t, TAB_INDENT_SIZE as nat);
}

impl Terminal {
    pub fn new(back_color: ColorCode, fore_color: ColorCode) -> (res: Self)
        ensures
            res == (Terminal {
                is_init: false,
                back_color,
                default_fore_color: fore_color,
                fore_color,
                font_glyph_size: (0, 0),
                max_x_res: 0,
                max_y_res: 0,
                char_max_x_len: 0,
                char_max_y_len: 0,
                cursor_x: 0,
                cursor_y: 0,
            }),
            terminal_wf(res),
    {
        Terminal {
            is_init: false,
            back_color,
            default_fore_color: fore_color,
            fore_color,
            font_glyph_size: (0, 0),
            max_x_res: 0,
            max_y_res: 0,
            char_max_x_len: 0,
            char_max_y_len: 0,
            cursor_x: 0,
            cursor_y: 0,
        }
    }

    /// Sets up the terminal for a frame buffer whose state the caller reads:
    /// the glyph width, the stride and the vertical resolution. The cursor
    /// starts at row 2; the screen is cleared and one 20-pixel square per
    /// sample color is drawn along the top.
    pub fn init(&mut self, frame_buf_is_init: bool, glyph_width: usize, stride: usize, res_y: usize, sample_colors: &[ColorCode]) -> (res: Result<Vec<TerminalAction>, TerminalError>)
        requires
            terminal_wf(*old(self)),
            frame_buf_is_init ==> glyph_width > 0 && stride >= glyph_width && res_y >= GLYPH_HEIGHT,
            sample_colors@.len() * 20 <= usize::MAX,
        ensures
            terminal_wf(*final(self)),
            !frame_buf_is_init ==> res == Err::<Vec<TerminalAction>, TerminalError>(
                TerminalError::FrameBufferError(FrameBufferError::NotInitialized),
            ) && *final(self) == *old(self),
            frame_buf_is_init ==> (res matches Ok(actions) && *final(self) == (Terminal {
                is_init: true,
                font_glyph_size: (glyph_width, GLYPH_HEIGHT),
                max_x_res: stride,
                max_y_res: res_y,
                char_max_x_len: (stride / glyph_width - 1) as usize,
                char_max_y_len: (res_y / GLYPH_HEIGHT - 1) as usize,
                cursor_x: 0,
                cursor_y: 2,
                ..*old(self)
            }) && actions@.len() == sample_colors@.len() + 1 && actions@[0] == TerminalAction::Clear(
                old(self).back_color,
            ) && forall|i: int|
                0 <= i < sample_colors@.len() ==> #[trigger] actions@[i + 1] == (TerminalAction::DrawRect {
                    x: (i * 20) as usize,
                    y: 0,
                    w: 20,
                    h: 20,
                    color: sample_colors@[i],
                })),
    {
        if !frame_buf_is_init {
            return Err(TerminalError::FrameBufferError(FrameBufferError::NotInitialized));
        }
        proof {
            assert(stride / glyph_width >= 1) by (nonlinear_arith)
                requires
                    stride >= glyph_width,
                    glyph_width > 0,
            ;
        }
        self.font_glyph_size = (glyph_width, GLYPH_HEIGHT);
        self.max_x_res = stride;
        self.max_y_res = res_y;
        self.char_max_x_len = self.max_x_res / glyph_width - 1;
        self.char_max_y_len = self.max_y_res / GLYPH_HEIGHT - 1;
        self.cursor_x = 0;
        self.cursor_y = 2;
        proof {
            assert((stride / glyph_width) * glyph_width <= stride) by (nonlinear_arith)
                requires
                    glyph_width > 0,
            ;
            assert((res_y / 16) * 16 <= res_y);
        }
        let mut actions: Vec<TerminalAction> = Vec::new();
        actions.push(TerminalAction::Clear(self.back_color));
        let mut i: usize = 0;
        while i < sample_colors.len()
            invariant
                i <= sample_colors@.len(),
                sample_colors@.len() * 20 <= usize::MAX,
                actions@.len() == i + 1,
                actions@[0] == TerminalAction::Clear(old(self).back_color),
                forall|j: int|
                    0 <= j < i ==> #[trigger] actions@[j + 1] == (TerminalAction::DrawRect {
                        x: (j * 20) as usize,
                        y: 0,
                        w: 20,
                        h: 20,
                        color: sample_colors@[j],
                    }),
            decreases sample_colors.len() - i,
        {
            actions.push(TerminalAction::DrawRect { x: i * 20, y: 0, w: 20, h: 20, color: sample_colors[i] });
            i = i + 1;
        }
        self.is_init = true;
        Ok(actions)
    }

    pub fn set_fore_color(&mut self, fore_color: ColorCode)
        ensures
            *final(self) == (Terminal { fore_color, ..*old(self) }),
    {
        self.fore_color = fore_color;
    }

    pub fn reset_fore_color(&mut self)
        ensures
            *final(self) == (Terminal { fore_color: old(self).default_fore_color, ..*old(self) }),
    {
        self.fore_color = self.default_fore_color;
    }

    fn inc_cursor(&mut self, actions: &mut Vec<TerminalAction>)
        requires
            old(self).is_init,
            terminal_wf(*old(self)),
        ensures
            *final(self) == after_inc(*old(self)).0,
            final(actions)@ == old(actions)@ + inc_actions(*old(self)),
    {
        let ghost t = *self;
        proof {
            assert(self.char_max_x_len + 1 <= self.max_x_res) by (nonlinear_arith)
                requires
                    (self.char_max_x_len + 1) * self.font_glyph_size.0 <= self.max_x_res,
                    self.font_glyph_size.0 > 0,
            ;
        }
        self.cursor_x = self.cursor_x + 1;
        if self.cursor_x > self.char_max_x_len {
            self.cursor_x = 0;
            self.cursor_y = self.cursor_y + 1;
        }
        if self.cursor_y > self.char_max_y_len {
            actions.push(self.scroll_action());
            self.cursor_x = 0;
            self.cursor_y = self.char_max_y_len;
        }
        assert(actions@ =~= old(actions)@ + inc_actions(t));
    }

    fn scroll_action(&self) -> (res: TerminalAction)
        ensures
            res == scroll_action(*self),
    {
        TerminalAction::Scroll {
            line_height: GLYPH_HEIGHT,
            width: self.max_x_res,
            height: self.max_y_res,
            back_color: self.back_color,
        }
    }

    fn put_char(&mut self, c: char, actions: &mut Vec<TerminalAction>)
        requires
            old(self).is_init,
            terminal_wf(*old(self)),
        ensures
            *final(self) == put_char(*old(self), c).0,
            final(actions)@ == old(actions)@ + put_char(*old(self), c).1,
    {
        let ghost t = *self;
        proof {
            assert(self.cursor_x * self.font_glyph_size.0 <= self.max_x_res) by (nonlinear_arith)
                requires
                    self.cursor_x <= self.char_max_x_len,
                    (self.char_max_x_len + 1) * self.font_glyph_size.0 <= self.max_x_res,
            ;
            assert(self.cursor_y * 16 <= usize::MAX) by (nonlinear_arith)
                requires
                    self.cursor_y <= self.char_max_y_len || self.cursor_y == 2,
                    (self.char_max_y_len + 1) * 16 <= self.max_y_res,
                    self.max_y_res <= usize::MAX,
            ;
        }
        actions.push(
            TerminalAction::DrawFont {
                x: self.cursor_x * self.font_glyph_size.0,
                y: self.cursor_y * GLYPH_HEIGHT,
                c,
                color: self.fore_color,
            },
        );
        actions.push(TerminalAction::SendSerial(c as u8));
        let ghost mid = actions@;
        self.inc_cursor(actions);
        assert(actions@ =~= old(actions)@ + put_char(t, c).1);
    }

    /// Writes one character: a line feed starts a new row, a tab writes
    /// four spaces, anything else is drawn at the cursor and echoed to the
    /// serial port. Gives the drawing to do, in order.
    pub fn write_char(&mut self, c: char) -> (res: Result<Vec<TerminalAction>, TerminalError>)
        requires
            terminal_wf(*old(self)),
        ensures
            terminal_wf(*final(self)),
            !old(self).is_init ==> res == Err::<Vec<TerminalAction>, TerminalError>(
                TerminalError::NotInitialized,
            ) && *final(self) == *old(self),
            old(self).is_init ==> (res matches Ok(actions) && *final(self) == write_char_step(
                *old(self),
                c,
            ).0 && actions@ == write_char_step(*old(self), c).1),
    {
        if !self.is_init {
            return Err(TerminalError::NotInitialized);
        }
        let mut actions: Vec<TerminalAction> = Vec::new();
        proof {
            lemma_write_char_step_wf(*self, c);
        }
        self.write_char_into(c, &mut actions);
        assert(actions@ =~= write_char_step(*old(self), c).1);
        Ok(actions)
    }

    fn write_char_into(&mut self, c: char, actions: &mut Vec<TerminalAction>)
        requires
            old(self).is_init,
            terminal_wf(*old(self)),
        ensures
            *final(self) == write_char_step(*old(self), c).0,
            final(actions)@ == old(actions)@ + write_char_step(*old(self), c).1,
    {
        proof {
            lemma_write_char_step_wf(*self, c);
        }
        if c == '\n' {
            let ghost t = *self;
            self.cursor_x = 0;
            if self.cursor_y >= self.char_max_y_len {
                actions.push(self.scroll_action());
                self.cursor_y = self.char_max_y_len;
            } else {
                self.cursor_y = self.cursor_y + 1;
            }
            actions.push(TerminalAction::SendSerial(10u8));
            assert(actions@ =~= old(actions)@ + new_line(t).1);
        } else if c == '\t' {
            let ghost t = *self;
            let mut k: usize = 0;
            while k < TAB_INDENT_SIZE
                invariant
                    k <= TAB_INDENT_SIZE,
                    self.is_init,
                    terminal_wf(*self),
                    tab_steps(t, TAB_INDENT_SIZE as nat).0 == tab_steps(*self, (TAB_INDENT_SIZE - k) as nat).0,
                    actions@ + tab_steps(*self, (TAB_INDENT_SIZE - k) as nat).1 == old(actions)@ + tab_steps(
                        t,
                        TAB_INDENT_SIZE as nat,
                    ).1,
                decreases TAB_INDENT_SIZE - k,
            {
                let ghost s0 = *self;
                let ghost a0 = actions@;
                proof {
                    lemma_after_inc_wf(s0);
                    lemma_after_inc_wf(put_char(s0, ' ').0);
                }
                self.put_char(' ', actions);
                self.inc_cursor(actions);
                k = k + 1;
                assert(tab_steps(s0, (TAB_INDENT_SIZE - k + 1) as nat) == ({
                    let t1 = put_char(s0, ' ');
                    let t3 = tab_steps(after_inc(t1.0).0, (TAB_INDENT_SIZE - k) as nat);
                    (t3.0, t1.1 + inc_actions(t1.0) + t3.1)
                }));
                assert(actions@ + tab_steps(*self, (TAB_INDENT_SIZE - k) as nat).1 =~= a0 + tab_steps(
                    s0,
                    (TAB_INDENT_SIZE - k + 1) as nat,
                ).1);
            }
            actions.push(TerminalAction::SendSerial(9u8));
            assert(actions@ =~= old(actions)@ + write_char_step(t, c).1);
        } else {
            self.put_char(c, actions);
        }
    }

    /// Writes the characters of a string in order.
    pub fn write_string(&mut self, string: &str) -> (res: Result<Vec<TerminalAction>, TerminalError>)
        requires
            terminal_wf(*old(self)),
        ensures
            terminal_wf(*final(self)),
            !old(self).is_init ==> res == Err::<Vec<TerminalAction>, TerminalError>(
                TerminalError::NotInitialized,
            ) && *final(self) == *old(self),
            old(self).is_init ==> (res matches Ok(actions) && *final(self) == write_chars(
                *old(self),
                string@,
            ).0 && actions@ == write_chars(*old(self), string@).1),
    {
        if !self.is_init {
            return Err(TerminalError::NotInitialized);
        }
        let mut actions: Vec<TerminalAction> = Vec::new();
        let n = vstd::string::StrSliceExecFns::unicode_len(string);
        let mut i: usize = 0;
        while i < n
            invariant
                i <= n,
                n == string@.len(),
                self.is_init,
                terminal_wf(*self),
                *self == write_chars(*old(self), string@.take(i as int)).0,
                actions@ == write_chars(*old(self), string@.take(i as int)).1,
            decreases n - i,
        {
            let c = vstd::string::StrSliceExecFns::get_char(string, i);
            assert(string@.take(i + 1).drop_last() =~= string@.take(i as int));
            proof {
                lemma_write_char_step_wf(*self, c);
            }
            self.write_char_into(c, &mut actions);
            i = i + 1;
        }
        assert(string@.take(n as int) =~= string@);
        Ok(actions)
    }
}

} // verus!
