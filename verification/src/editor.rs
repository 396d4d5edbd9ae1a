//! The editor: one buffer, one cursor, one viewport offset, and the rules
//! that turn input events into edits, cursor motion and scrolling. The
//! embedding application reads key events and renders; everything it does
//! in between goes through the functions here.

use crate::document::{spec_doc_delete, spec_doc_insert, Document};
use crate::graphemes::{graphemes_of, push_char};
use crate::row::spec_render_range;
use crate::terminal::Size;
use vstd::prelude::*;
use vstd::string::*;

verus! {

/// A buffer coordinate: `x` is a grapheme column, `y` a line index, both
/// zero-based. The same shape serves as the viewport offset, where it names
/// the top-left visible buffer coordinate.
#[derive(Clone, Copy, PartialEq, Eq, Structural, Default, Debug)]
pub struct Position {
    pub x: usize,
    pub y: usize,
}

/// A cursor movement request.
#[derive(Clone, Copy, PartialEq, Eq, Structural, Debug)]
pub enum Direction {
    Up,
    Down,
    Left,
    Right,
    PageUp,
    PageDown,
    Home,
    End,
}

/// An abstract input event, as the terminal collaborator decodes it.
#[derive(Clone, Copy, PartialEq, Eq, Structural, Debug)]
pub enum Key {
    Quit,
    Save,
    Move(Direction),
    Insert(char),
    DeleteForward,
    DeleteBackward,
    Other,
}

/// What the embedding application must do after an event: nothing more, or
/// persist the buffer (the one effect the core cannot perform itself).
#[derive(Clone, Copy, PartialEq, Eq, Structural, Debug)]
pub enum EditorAction {
    Continue,
    Save,
}

/// How many seconds a status message stays visible after its creation.
pub const STATUS_VISIBLE_SECS: u64 = 5;

/// A transient status line: text plus the time it was set, in whole seconds
/// of some monotonic clock the application supplies.
pub struct StatusMessage {
    pub text: String,
    pub time: u64,
}

impl StatusMessage {
    pub fn from(message: String, now: u64) -> (m: StatusMessage)
        ensures
            m.text == message,
            m.time == now,
    {
        StatusMessage { text: message, time: now }
    }
}

/// A status message set at `time` is visible at `now`.
pub open spec fn status_visible(time: u64, now: u64) -> bool {
    time <= now < time + STATUS_VISIBLE_SECS
}

/// The grapheme length of line `y` of the buffer, and zero where no such
/// line exists (in particular on the line one past the end, where the
/// cursor may rest).
pub open spec fn row_len(doc: Seq<Seq<char>>, y: int) -> nat {
    if 0 <= y < doc.len() {
        graphemes_of(doc[y]).len()
    } else {
        0
    }
}

/// A column clamped to the length of line `y`.
pub open spec fn clamp_x(doc: Seq<Seq<char>>, x: int, y: int) -> int {
    if x > row_len(doc, y) {
        row_len(doc, y) as int
    } else {
        x
    }
}

/// Where the cursor lands when moved from `(x, y)` in direction `d`, with
/// `th` visible text rows. Left at column zero wraps to the end of the
/// previous line; right at the end of a line wraps to the start of the next
/// line where one exists, and at the end of the last line stays put;
/// vertical motion keeps the column but clamps it to the destination line;
/// paging moves by one screen of lines; the column is always clamped to the
/// destination line at the end.
pub open spec fn spec_move_cursor(
    doc: Seq<Seq<char>>,
    th: int,
    x: int,
    y: int,
    d: Direction,
) -> (int, int) {
    let h = doc.len() as int;
    let w = row_len(doc, y) as int;
    let moved: (int, int) = match d {
        Direction::Up => (x, if y > 0 { y - 1 } else { 0 }),
        Direction::Down => (x, if y < h { y + 1 } else { y }),
        Direction::Left => if x > 0 {
            (x - 1, y)
        } else if y > 0 {
            (row_len(doc, y - 1) as int, y - 1)
        } else {
            (x, y)
        },
        Direction::Right => if x < w {
            (x + 1, y)
        } else if y + 1 < h {
            (0int, y + 1)
        } else {
            (x, y)
        },
        Direction::PageUp => (x, if y > th { y - th } else { 0 }),
        Direction::PageDown => (x, if y + th < h { y + th } else { h }),
        Direction::Home => (0int, y),
        Direction::End => (w, y),
    };
    (clamp_x(doc, moved.0, moved.1), moved.1)
}

/// One axis of the viewport offset after following the cursor: a cursor
/// above or left of the window pulls the offset exactly to itself; one
/// below or right pushes it by exactly the overshoot; a visible cursor
/// leaves the offset alone. Saturation at the ends of `usize` mirrors the
/// executable arithmetic.
pub open spec fn spec_scrolled(pos: int, off: int, extent: int) -> int {
    let lim = if off + extent > usize::MAX {
        usize::MAX as int
    } else {
        off + extent
    };
    if pos < off {
        pos
    } else if pos >= lim {
        if pos - extent + 1 > usize::MAX {
            usize::MAX as int
        } else {
            pos - extent + 1
        }
    } else {
        off
    }
}

/// The editor's whole state: the buffer, the cursor, the viewport offset,
/// the terminal size it was told, the status line, and whether a quit was
/// requested.
pub struct Editor {
    pub should_quit: bool,
    pub document: Document,
    pub cursor_position: Position,
    pub offset: Position,
    pub status_message: StatusMessage,
    pub size: Size,
}

impl Editor {
    /// The buffer's cached counts are accurate and the cursor line is at
    /// most one past the last line.
    pub open spec fn wf(&self) -> bool {
        &&& self.document.wf()
        &&& self.cursor_position.y <= self.document@.len()
    }

    pub fn new(document: Document, size: Size, initial_status: String, now: u64) -> (e: Editor)
        requires
            document.wf(),
        ensures
            e.wf(),
            e.document == document,
            e.size == size,
            e.cursor_position == (Position { x: 0usize, y: 0usize }),
            e.offset == (Position { x: 0usize, y: 0usize }),
            !e.should_quit,
            e.status_message.text == initial_status,
            e.status_message.time == now,
    {
        Editor {
            should_quit: false,
            document,
            cursor_position: Position { x: 0, y: 0 },
            offset: Position { x: 0, y: 0 },
            status_message: StatusMessage::from(initial_status, now),
            size,
        }
    }

    /// Moves the cursor one step. The destination is exactly
    /// `spec_move_cursor`; in particular the cursor never leaves the
    /// buffer: its line is at most one past the last line and its column at
    /// most the destination line's length.
    pub fn move_cursor(&mut self, d: Direction)
        requires
            old(self).wf(),
        ensures
            final(self).wf(),
            final(self).document == old(self).document,
            final(self).offset == old(self).offset,
            final(self).status_message == old(self).status_message,
            final(self).should_quit == old(self).should_quit,
            final(self).size == old(self).size,
            ({
                let (nx, ny) = spec_move_cursor(
                    old(self).document@,
                    old(self).size.height as int,
                    old(self).cursor_position.x as int,
                    old(self).cursor_position.y as int,
                    d,
                );
                final(self).cursor_position.x == nx && final(self).cursor_position.y == ny
            }),
            final(self).cursor_position.y <= final(self).document@.len(),
            final(self).cursor_position.x <= row_len(
                final(self).document@,
                final(self).cursor_position.y as int,
            ),
    {
        let terminal_height = self.size.height as usize;
        let mut x = self.cursor_position.x;
        let mut y = self.cursor_position.y;
        let height = self.document.len();
        let width = match self.document.row(y) {
            Some(row) => row.len(),
            None => 0,
        };
        match d {
            Direction::Up => {
                if y > 0 {
                    y = y - 1;
                }
            },
            Direction::Down => {
                if y < height {
                    y = y + 1;
                }
            },
            Direction::Left => {
                if x > 0 {
                    x = x - 1;
                } else if y > 0 {
                    y = y - 1;
                    x = match self.document.row(y) {
                        Some(row) => row.len(),
                        None => 0,
                    };
                }
            },
            Direction::Right => {
                if x < width {
                    x = x + 1;
                } else if height - y > 1 {
                    y = y + 1;
                    x = 0;
                }
            },
            Direction::PageUp => {
                y = if y > terminal_height {
                    y - terminal_height
                } else {
                    0
                };
            },
            Direction::PageDown => {
                y = if y < height && height - y > terminal_height {
                    y + terminal_height
                } else {
                    height
                };
            },
            Direction::Home => {
                x = 0;
            },
            Direction::End => {
                x = width;
            },
        }
        let new_width = match self.document.row(y) {
            Some(row) => row.len(),
            None => 0,
        };
        if x > new_width {
            x = new_width;
        }
        self.cursor_position = Position { x, y };
    }

    /// Recomputes the viewport offset so the cursor is visible, adjusting
    /// each axis minimally: when the text area is at least one cell wide
    /// and one tall, the cursor's screen-relative position afterwards lies
    /// within it, and an axis on which the cursor was already visible keeps
    /// its offset.
    pub fn scroll(&mut self)
        ensures
            final(self).document == old(self).document,
            final(self).cursor_position == old(self).cursor_position,
            final(self).status_message == old(self).status_message,
            final(self).should_quit == old(self).should_quit,
            final(self).size == old(self).size,
            final(self).offset.x as int == spec_scrolled(
                old(self).cursor_position.x as int,
                old(self).offset.x as int,
                old(self).size.width as int,
            ),
            final(self).offset.y as int == spec_scrolled(
                old(self).cursor_position.y as int,
                old(self).offset.y as int,
                old(self).size.height as int,
            ),
            old(self).size.width > 0 ==> final(self).offset.x <= final(self).cursor_position.x
                < final(self).offset.x + old(self).size.width,
            old(self).size.height > 0 ==> final(self).offset.y <= final(self).cursor_position.y
                < final(self).offset.y + old(self).size.height,
            old(self).offset.x <= old(self).cursor_position.x && old(self).cursor_position.x < old(
                self,
            ).offset.x + old(self).size.width <= usize::MAX ==> final(self).offset.x == old(
                self,
            ).offset.x,
            old(self).offset.y <= old(self).cursor_position.y && old(self).cursor_position.y < old(
                self,
            ).offset.y + old(self).size.height <= usize::MAX ==> final(self).offset.y == old(
                self,
            ).offset.y,
    {
        let x = self.cursor_position.x;
        let y = self.cursor_position.y;
        let width = self.size.width as usize;
        let height = self.size.height as usize;
        self.offset.y = scrolled_axis(y, self.offset.y, height);
        self.offset.x = scrolled_axis(x, self.offset.x, width);
    }

    /// The cursor's position on the screen: its buffer position less the
    /// viewport offset, pinned to the origin when the offset is beyond it.
    pub fn screen_cursor_position(&self) -> (p: Position)
        ensures
            p.x == if self.cursor_position.x >= self.offset.x {
                self.cursor_position.x - self.offset.x
            } else {
                0int
            },
            p.y == if self.cursor_position.y >= self.offset.y {
                self.cursor_position.y - self.offset.y
            } else {
                0int
            },
    {
        let x = if self.cursor_position.x >= self.offset.x {
            self.cursor_position.x - self.offset.x
        } else {
            0
        };
        let y = if self.cursor_position.y >= self.offset.y {
            self.cursor_position.y - self.offset.y
        } else {
            0
        };
        Position { x, y }
    }

    /// Dispatches one input event: quit raises the quit flag; save asks the
    /// application to persist; a character is inserted at the cursor, which
    /// then moves right; delete removes at the cursor; backspace moves left
    /// and then deletes, which at column zero joins the line onto the one
    /// above; movement keys move. Every event ends by scrolling the
    /// viewport after the cursor. The status line never changes here.
    pub fn process_event(&mut self, key: Key) -> (a: EditorAction)
        requires
            old(self).wf(),
        ensures
            final(self).wf(),
            final(self).size == old(self).size,
            final(self).status_message == old(self).status_message,
            final(self).document.spec_file_name() == old(self).document.spec_file_name(),
            a == (if key == Key::Save {
                EditorAction::Save
            } else {
                EditorAction::Continue
            }),
            final(self).should_quit == (old(self).should_quit || key == Key::Quit),
            ({
                let doc = old(self).document@;
                let th = old(self).size.height as int;
                let ox = old(self).cursor_position.x as int;
                let oy = old(self).cursor_position.y as int;
                let fx = final(self).cursor_position.x as int;
                let fy = final(self).cursor_position.y as int;
                match key {
                    Key::Quit => final(self).document@ == doc && fx == ox && fy == oy,
                    Key::Save => final(self).document@ == doc && fx == ox && fy == oy,
                    Key::Other => final(self).document@ == doc && fx == ox && fy == oy,
                    Key::Move(d) => final(self).document@ == doc && (fx, fy)
                        == spec_move_cursor(doc, th, ox, oy, d),
                    Key::Insert(c) => {
                        let doc1 = spec_doc_insert(doc, ox, oy, c);
                        final(self).document@ == doc1 && (fx, fy) == spec_move_cursor(
                            doc1,
                            th,
                            ox,
                            oy,
                            Direction::Right,
                        )
                    },
                    Key::DeleteForward => final(self).document@ == spec_doc_delete(doc, ox, oy)
                        && fx == ox && fy == oy,
                    Key::DeleteBackward => if ox > 0 || oy > 0 {
                        let moved = spec_move_cursor(doc, th, ox, oy, Direction::Left);
                        final(self).document@ == spec_doc_delete(doc, moved.0, moved.1) && (fx, fy)
                            == moved
                    } else {
                        final(self).document@ == doc && fx == ox && fy == oy
                    },
                }
            }),
            final(self).offset.x as int == spec_scrolled(
                final(self).cursor_position.x as int,
                old(self).offset.x as int,
                old(self).size.width as int,
            ),
            final(self).offset.y as int == spec_scrolled(
                final(self).cursor_position.y as int,
                old(self).offset.y as int,
                old(self).size.height as int,
            ),
    {
        let mut action = EditorAction::Continue;
        match key {
            Key::Quit => {
                self.should_quit = true;
            },
            Key::Save => {
                action = EditorAction::Save;
            },
            Key::Insert(c) => {
                let pos = self.cursor_position;
                self.document.insert(&pos, c);
                proof {
                    lemma_doc_insert_len(
                        old(self).document@,
                        pos.x as int,
                        pos.y as int,
                        c,
                    );
                }
                self.move_cursor(Direction::Right);
            },
            Key::DeleteForward => {
                let pos = self.cursor_position;
                self.document.delete(&pos);
                proof {
                    lemma_doc_delete_len(old(self).document@, pos.x as int, pos.y as int);
                }
            },
            Key::DeleteBackward => {
                if self.cursor_position.x > 0 || self.cursor_position.y > 0 {
                    self.move_cursor(Direction::Left);
                    let pos = self.cursor_position;
                    self.document.delete(&pos);
                    proof {
                        lemma_doc_delete_len(old(self).document@, pos.x as int, pos.y as int);
                    }
                }
            },
            Key::Move(d) => {
                self.move_cursor(d);
            },
            Key::Other => {},
        }
        self.scroll();
        action
    }

    /// Records the outcome of a save the application performed, as the
    /// status line: a confirmation on success, an error on failure.
    pub fn record_save_result(&mut self, ok: bool, now: u64)
        ensures
            final(self).document == old(self).document,
            final(self).cursor_position == old(self).cursor_position,
            final(self).offset == old(self).offset,
            final(self).should_quit == old(self).should_quit,
            final(self).size == old(self).size,
            ok ==> final(self).status_message.text@ == "File saved successfully."@,
            !ok ==> final(self).status_message.text@ == "Error writing file!"@,
            final(self).status_message.time == now,
    {
        if ok {
            self.status_message = StatusMessage::from("File saved successfully.".to_owned(), now);
        } else {
            self.status_message = StatusMessage::from("Error writing file!".to_owned(), now);
        }
    }

    /// Re-clamps the cursor to the buffer after a structural change made
    /// from outside: the line to at most one past the last, the column to
    /// the destination line's length.
    pub fn clamp_to_buffer(&mut self)
        requires
            old(self).document.wf(),
        ensures
            final(self).wf(),
            final(self).document == old(self).document,
            final(self).offset == old(self).offset,
            final(self).status_message == old(self).status_message,
            final(self).should_quit == old(self).should_quit,
            final(self).size == old(self).size,
            final(self).cursor_position.y == if old(self).cursor_position.y > old(
                self,
            ).document@.len() {
                old(self).document@.len() as int
            } else {
                old(self).cursor_position.y as int
            },
            final(self).cursor_position.x == clamp_x(
                old(self).document@,
                old(self).cursor_position.x as int,
                final(self).cursor_position.y as int,
            ),
    {
        let len = self.document.len();
        let mut y = self.cursor_position.y;
        if y > len {
            y = len;
        }
        let width = match self.document.row(y) {
            Some(row) => row.len(),
            None => 0,
        };
        let mut x = self.cursor_position.x;
        if x > width {
            x = width;
        }
        self.cursor_position = Position { x, y };
    }

    /// The text shown on screen row `terminal_row` of the text area: the
    /// visible slice of the buffer line there; on an empty buffer, the
    /// welcome banner a third of the way down; otherwise a tilde.
    pub fn text_row(&self, terminal_row: usize) -> (s: String)
        ensures
            ({
                let idx = self.offset.y as int + terminal_row as int;
                let endx = if self.offset.x + self.size.width > usize::MAX {
                    usize::MAX as int
                } else {
                    self.offset.x as int + self.size.width as int
                };
                if idx < self.document@.len() {
                    s@ == spec_render_range(self.document@[idx], self.offset.x as int, endx)
                } else if self.document@.len() == 0 && terminal_row as int == self.size.height
                    as int / 3 {
                    s@ == spec_welcome_line(self.size.width as int)
                } else {
                    s@ == seq!['~']
                }
            }),
    {
        let width = self.size.width as usize;
        let end = if self.offset.x <= usize::MAX - width {
            self.offset.x + width
        } else {
            usize::MAX
        };
        if terminal_row <= usize::MAX - self.offset.y {
            let idx = self.offset.y + terminal_row;
            match self.document.row(idx) {
                Some(row) => {
                    return row.render(self.offset.x, end);
                },
                None => {},
            }
        } else {
            proof {
                self.document.lemma_len_bound();
            }
        }
        if self.document.is_empty() && terminal_row == self.size.height as usize / 3 {
            welcome_row(width)
        } else {
            let mut s = String::new();
            push_char(&mut s, '~');
            proof {
                assert(s@ =~= seq!['~']);
            }
            s
        }
    }

    /// The status bar row: file name and cursor position, padded and
    /// truncated to the width.
    pub fn status_bar_text(&self) -> (s: String)
        ensures
            s@ == spec_status_bar(
                match self.document.spec_file_name() {
                    Some(n) => n@,
                    None => "[No name]"@,
                },
                self.cursor_position.x as int,
                self.cursor_position.y as int,
                self.size.width as int,
            ),
    {
        let width = self.size.width as usize;
        let mut s = match self.document.file_name() {
            Some(name) => {
                let l = name.as_str().unicode_len();
                let e = if l > 20 {
                    20
                } else {
                    l
                };
                name.as_str().substring_char(0, e).to_owned()
            },
            None => {
                let n = "[No name]";
                proof {
                    reveal_strlit("[No name]");
                }
                n.to_owned()
            },
        };
        let ghost name_view = match self.document.spec_file_name() {
            Some(n) => n@,
            None => "[No name]"@,
        };
        proof {
            assert(s@ == truncate_chars(name_view, 20));
        }
        push_char(&mut s, ' ');
        push_char(&mut s, '(');
        let dx = decimal_string(self.cursor_position.x);
        s.append(dx.as_str());
        push_char(&mut s, ',');
        let dy = decimal_string(self.cursor_position.y);
        s.append(dy.as_str());
        push_char(&mut s, ')');
        let ghost body = truncate_chars(name_view, 20) + seq![' ', '('] + spec_decimal(
            self.cursor_position.x as int,
        ) + seq![','] + spec_decimal(self.cursor_position.y as int) + seq![')'];
        proof {
            assert(s@ =~= body);
        }
        let mut l = s.as_str().unicode_len();
        while l < width
            invariant
                l == s@.len(),
                body.len() <= s@.len(),
                s@.len() == body.len() || s@.len() <= width,
                s@ == body + repeat_spaces(s@.len() - body.len()),
            decreases width - l,
        {
            push_char(&mut s, ' ');
            proof {
                assert(s@ =~= body + repeat_spaces(s@.len() - body.len()));
            }
            l = l + 1;
        }
        let e = if l > width {
            width
        } else {
            l
        };
        let out = s.as_str().substring_char(0, e).to_owned();
        proof {
            let padded = body + repeat_spaces(width - body.len());
            assert(s@ =~= padded);
            if s@.len() > width {
                assert(out@ == s@.take(width as int));
            } else {
                assert(out@ =~= s@);
            }
            assert(out@ == truncate_chars(padded, width as int));
        }
        out
    }

    /// The message bar row: the status message truncated to the width
    /// while it is visible, and blank from five seconds after it was set.
    pub fn message_bar_text(&self, now: u64) -> (s: String)
        ensures
            status_visible(self.status_message.time, now) ==> s@ == truncate_chars(
                self.status_message.text@,
                self.size.width as int,
            ),
            !status_visible(self.status_message.time, now) ==> s@ == Seq::<char>::empty(),
    {
        if self.status_message.time <= now && now - self.status_message.time
            < STATUS_VISIBLE_SECS {
            let text = &self.status_message.text;
            let l = text.as_str().unicode_len();
            let width = self.size.width as usize;
            let e = if l > width {
                width
            } else {
                l
            };
            let out = text.as_str().substring_char(0, e).to_owned();
            proof {
                if l <= width {
                    assert(out@ =~= text@);
                }
            }
            out
        } else {
            String::new()
        }
    }
}

fn digit(d: usize) -> (c: char)
    requires
        d < 10,
    ensures
        c == digit_char(d as int),
{
    match d {
        0 => '0',
        1 => '1',
        2 => '2',
        3 => '3',
        4 => '4',
        5 => '5',
        6 => '6',
        7 => '7',
        8 => '8',
        _ => '9',
    }
}

/// The decimal form of `n`.
fn decimal_string(n: usize) -> (s: String)
    ensures
        s@ == spec_decimal(n as int),
    decreases n,
{
    if n < 10 {
        let mut s = String::new();
        push_char(&mut s, digit(n));
        proof {
            assert(s@ =~= seq![digit_char(n as int)]);
        }
        s
    } else {
        let mut s = decimal_string(n / 10);
        push_char(&mut s, digit(n % 10));
        s
    }
}

/// The welcome banner row for a text area `width` columns wide.
fn welcome_row(width: usize) -> (s: String)
    ensures
        s@ == spec_welcome_line(width as int),
{
    let msg = "tedit -- version 0.1.0";
    let msg_len = msg.unicode_len();
    let padding = if width > msg_len {
        (width - msg_len) / 2
    } else {
        0
    };
    let spaces = if padding > 0 {
        padding - 1
    } else {
        0
    };
    let mut s = "~".to_owned();
    proof {
        reveal_strlit("~");
        assert(s@ =~= seq!['~'] + repeat_spaces(0));
    }
    let mut i: usize = 0;
    while i < spaces
        invariant
            i <= spaces,
            s@ == seq!['~'] + repeat_spaces(i as int),
        decreases spaces - i,
    {
        push_char(&mut s, ' ');
        proof {
            assert(s@ =~= seq!['~'] + repeat_spaces(i + 1));
        }
        i += 1;
    }
    s.append(msg);
    let ghost full = seq!['~'] + repeat_spaces(spaces as int) + msg@;
    proof {
        assert(s@ =~= full);
    }
    let total = s.as_str().unicode_len();
    let e = if total > width {
        width
    } else {
        total
    };
    let out = s.as_str().substring_char(0, e).to_owned();
    proof {
        if total <= width {
            assert(out@ =~= s@);
        }
    }
    out
}

/// Backspace at column zero of a line below the top joins that line onto
/// the one above: the cursor lands at the former end of the line above, the
/// two lines become one there, the buffer loses exactly one line, and every
/// other line is untouched.
pub proof fn lemma_delete_backward_joins(doc: Seq<Seq<char>>, th: int, y: int)
    requires
        0 < y < doc.len(),
    ensures
        ({
            let moved = spec_move_cursor(doc, th, 0, y, Direction::Left);
            let joined = spec_doc_delete(doc, moved.0, moved.1);
            moved.1 == y - 1 && moved.0 == row_len(doc, y - 1) && joined.len() == doc.len() - 1
                && joined[y - 1] == doc[y - 1] + doc[y] && (forall|j: int|
                0 <= j < y - 1 ==> joined[j] == doc[j]) && (forall|j: int|
                y <= j < joined.len() ==> joined[j] == doc[j + 1])
        }),
{
    let moved = spec_move_cursor(doc, th, 0, y, Direction::Left);
    let d1 = doc.update(y - 1, doc[y - 1] + doc[y]);
    d1.remove_ensures(y);
    let joined = spec_doc_delete(doc, moved.0, moved.1);
    assert(joined == d1.remove(y));
    assert forall|j: int| 0 <= j < y - 1 implies joined[j] == doc[j] by {
        assert(joined[j] == d1[j]);
    }
    assert forall|j: int| y <= j < joined.len() implies joined[j] == doc[j + 1] by {
        assert(joined[j] == d1[j + 1]);
    }
}

/// Moving right at the end of a line: where a following line exists the
/// cursor advances to its start; at the end of the last line (and anywhere
/// beyond) it stays put.
pub proof fn lemma_move_right_at_line_end(doc: Seq<Seq<char>>, th: int, x: int, y: int)
    requires
        0 <= y,
        x == row_len(doc, y),
    ensures
        y + 1 < doc.len() ==> spec_move_cursor(doc, th, x, y, Direction::Right) == (0int, y + 1),
        y + 1 >= doc.len() ==> spec_move_cursor(doc, th, x, y, Direction::Right) == (x, y),
{
}

/// A sequence of `n` spaces (none when `n` is negative).
pub open spec fn repeat_spaces(n: int) -> Seq<char> {
    Seq::new(
        if n < 0 {
            0
        } else {
            n as nat
        },
        |i: int| ' ',
    )
}

/// The first `w` characters of `s`, or all of `s` when it is shorter.
pub open spec fn truncate_chars(s: Seq<char>, w: int) -> Seq<char> {
    if w <= 0 {
        Seq::empty()
    } else if s.len() > w {
        s.take(w)
    } else {
        s
    }
}

/// The decimal digit `d` as a character.
pub open spec fn digit_char(d: int) -> char {
    if d == 0 {
        '0'
    } else if d == 1 {
        '1'
    } else if d == 2 {
        '2'
    } else if d == 3 {
        '3'
    } else if d == 4 {
        '4'
    } else if d == 5 {
        '5'
    } else if d == 6 {
        '6'
    } else if d == 7 {
        '7'
    } else if d == 8 {
        '8'
    } else {
        '9'
    }
}

/// The decimal digits of `n`, most significant first.
pub open spec fn spec_decimal(n: int) -> Seq<char>
    decreases n,
{
    if n < 10 {
        seq![digit_char(n)]
    } else {
        spec_decimal(n / 10).push(digit_char(n % 10))
    }
}

/// The welcome banner row: a tilde, then spaces centering the banner text
/// within the width, truncated to the width.
pub open spec fn spec_welcome_line(width: int) -> Seq<char> {
    let msg = "tedit -- version 0.1.0"@;
    let padding = if width > msg.len() {
        (width - msg.len()) / 2
    } else {
        0
    };
    let spaces = if padding > 0 {
        padding - 1
    } else {
        0
    };
    truncate_chars(seq!['~'] + repeat_spaces(spaces) + msg, width)
}

/// The status bar row: the file name (at most twenty characters), a space,
/// the cursor position in parentheses, padded with spaces to the width and
/// truncated to it.
pub open spec fn spec_status_bar(name: Seq<char>, x: int, y: int, width: int) -> Seq<char> {
    let body = truncate_chars(name, 20) + seq![' ', '('] + spec_decimal(x) + seq![',']
        + spec_decimal(y) + seq![')'];
    truncate_chars(body + repeat_spaces(width - body.len()), width)
}

/// One axis of the scroll computation, saturating at the ends of `usize`
/// exactly as `spec_scrolled` says.
fn scrolled_axis(pos: usize, off: usize, extent: usize) -> (r: usize)
    ensures
        r as int == spec_scrolled(pos as int, off as int, extent as int),
{
    if pos < off {
        pos
    } else {
        let lim_ok = off <= usize::MAX - extent;
        let lim = if lim_ok {
            off + extent
        } else {
            usize::MAX
        };
        if pos >= lim {
            let base = pos - extent;
            if base == usize::MAX {
                usize::MAX
            } else {
                base + 1
            }
        } else {
            off
        }
    }
}

/// Inserting never removes lines: the buffer afterwards has at least as
/// many lines as before, so a cursor that was within the buffer still is.
proof fn lemma_doc_insert_len(doc: Seq<Seq<char>>, x: int, y: int, c: char)
    requires
        0 <= y,
    ensures
        spec_doc_insert(doc, x, y, c).len() >= doc.len(),
{
    if c == '\n' && y < doc.len() {
        let g = graphemes_of(doc[y]);
        let a = crate::row::clamp_at(doc[y], x);
        let d1 = doc.update(y, g.take(a).flatten());
        d1.insert_ensures(y + 1, g.skip(a).flatten());
    }
}

/// Deleting keeps every line at or before the deletion line: the buffer
/// afterwards has more lines than the deletion line's index, or is
/// unchanged.
proof fn lemma_doc_delete_len(doc: Seq<Seq<char>>, x: int, y: int)
    ensures
        y >= doc.len() ==> spec_doc_delete(doc, x, y) == doc,
        y < doc.len() ==> spec_doc_delete(doc, x, y).len() > y,
{
}

} // verus!
