//! The widgets of the terminal front end.

use crate::tui::buffer::{lemma_with_str_keeps_size, Bound, Buffer, BufferView, Color, Grid};
use crate::tui::event::{Event, KeyCode};
use vstd::prelude::*;

verus! {

/// The number of bytes that write a text.
pub open spec fn byte_len(text: Seq<char>) -> nat {
    vstd::utf8::encode_utf8(text).len()
}

/// As many spaces as asked for.
pub open spec fn spaces(count: nat) -> Seq<char>
    decreases count,
{
    if count == 0 {
        Seq::empty()
    } else {
        spaces((count - 1) as nat) + " "@
    }
}

/// A title, shown centred on the first line.
pub struct Title(pub String);

impl Title {
    /// The column in which a title starts: as far left of the middle of the
    /// rectangle as half of its bytes.
    pub open spec fn column(title: Seq<char>, bound: Bound) -> int {
        bound.w / 2 - byte_len(title) / 2
    }

    /// Whether a title can be shown: it is not longer than the rectangle is
    /// wide, and it can be put on the first line.
    pub open spec fn can_display(title: Seq<char>, grid: Grid, bound: Bound) -> bool {
        Self::column(title, bound) >= 0 && grid.can_put_str_in(
            bound,
            title,
            Self::column(title, bound),
            0,
        )
    }

    /// The grid with a title shown, white on black.
    pub open spec fn displayed(title: Seq<char>, grid: Grid, bound: Bound) -> Grid {
        grid.with_str_in(bound, title, Self::column(title, bound), 0, Color::Black, Color::White)
    }

    /// Whether the title can be shown.
    pub fn fits(&self, buf: &Buffer, bound: Bound) -> (yes: bool)
        ensures
            yes == Self::can_display(self.0@, buf@, bound),
    {
        let bytes = self.0.as_str().as_bytes().len();
        let half = bound.w / 2;
        if bytes / 2 > half {
            return false;
        }
        buf.takes_str_in(bound, self.0.as_str(), half - bytes / 2, 0)
    }

    /// Shows the title, centred on the first line of the rectangle.
    pub fn display(&self, view: &mut BufferView<'_>)
        requires
            old(view).buf.wf(),
            Self::can_display(self.0@, old(view).buf@, old(view).bound),
        ensures
            final(view).bound == old(view).bound,
            *final(final(view).buf) == *final(old(view).buf),
            final(view).buf.wf(),
            final(view).buf@ == Self::displayed(self.0@, old(view).buf@, old(view).bound),
    {
        let bytes = self.0.as_str().as_bytes().len();
        let column = view.width() / 2 - bytes / 2;
        let _ = view.put_str(self.0.as_str(), column, 0, Color::Black, Color::White);
    }
}

/// A text of several lines.
pub struct Paragraph(pub String);

impl Paragraph {
    /// The grid with lines put one under the other from the fourth line of
    /// the rectangle on, white on black.
    pub open spec fn with_lines(grid: Grid, bound: Bound, lines: Seq<Seq<char>>) -> Grid
        decreases lines.len(),
    {
        if lines.len() == 0 {
            grid
        } else {
            Self::with_lines(grid, bound, lines.drop_last()).with_str_in(
                bound,
                lines.last(),
                0,
                lines.len() - 1 + 3,
                Color::Black,
                Color::White,
            )
        }
    }

    /// Whether lines can be shown: each can be put on its line.
    pub open spec fn can_show(lines: Seq<Seq<char>>, grid: Grid, bound: Bound) -> bool {
        forall|i: int|
            0 <= i < lines.len() ==> grid.can_put_str_in(bound, #[trigger] lines[i], 0, i + 3)
    }

    /// Whether a text can be shown.
    pub open spec fn can_display(text: Seq<char>, grid: Grid, bound: Bound) -> bool {
        Self::can_show(crate::text::lines_of(text), grid, bound)
    }

    /// The grid with a text shown.
    pub open spec fn displayed(text: Seq<char>, grid: Grid, bound: Bound) -> Grid {
        Self::with_lines(grid, bound, crate::text::lines_of(text))
    }

    /// Whether lines can be shown depends on the size of the grid alone.
    pub proof fn lemma_can_show_by_size(
        lines: Seq<Seq<char>>,
        grid: Grid,
        other: Grid,
        bound: Bound,
    )
        requires
            Self::can_show(lines, grid, bound),
            other.width == grid.width,
            other.height == grid.height,
        ensures
            Self::can_show(lines, other, bound),
    {
        assert forall|i: int| 0 <= i < lines.len() implies other.can_put_str_in(
            bound,
            #[trigger] lines[i],
            0,
            i + 3,
        ) by {
            assert(grid.can_put_str_in(bound, lines[i], 0, i + 3));
        }
    }

    /// Showing lines leaves the size of the grid and its cursor as they are.
    pub proof fn lemma_with_lines_keeps_size(grid: Grid, bound: Bound, lines: Seq<Seq<char>>)
        requires
            grid.wf(),
            Self::can_show(lines, grid, bound),
        ensures
            Self::with_lines(grid, bound, lines).wf(),
            Self::with_lines(grid, bound, lines).width == grid.width,
            Self::with_lines(grid, bound, lines).height == grid.height,
            Self::with_lines(grid, bound, lines).cursor == grid.cursor,
        decreases lines.len(),
    {
        if lines.len() > 0 {
            let front = lines.drop_last();
            assert(Self::can_show(front, grid, bound)) by {
                assert forall|i: int| 0 <= i < front.len() implies grid.can_put_str_in(
                    bound,
                    #[trigger] front[i],
                    0,
                    i + 3,
                ) by {
                    assert(front[i] == lines[i]);
                }
            }
            Self::lemma_with_lines_keeps_size(grid, bound, front);
            assert(grid.can_put_str_in(bound, lines[lines.len() - 1], 0, lines.len() - 1 + 3));
            lemma_with_str_keeps_size(
                Self::with_lines(grid, bound, front),
                lines.last(),
                bound.x + 0,
                bound.y + (lines.len() - 1 + 3),
                Color::Black,
                Color::White,
            );
        }
    }

    /// Whether the text can be shown.
    pub fn fits(&self, buf: &Buffer, bound: Bound) -> (yes: bool)
        ensures
            yes == Self::can_display(self.0@, buf@, bound),
    {
        let lines = crate::text::split_lines(self.0.as_str());
        let ghost all = crate::text::lines_of(self.0@);
        let mut i: usize = 0;
        while i < lines.len()
            invariant
                i <= lines@.len(),
                crate::text::texts(lines@) == all,
                all == crate::text::lines_of(self.0@),
                forall|k: int|
                    0 <= k < i ==> buf@.can_put_str_in(bound, #[trigger] all[k], 0, k + 3),
            decreases lines@.len() - i,
        {
            assert(all[i as int] == lines@[i as int]@);
            if i > usize::MAX - 3 || !buf.takes_str_in(bound, lines[i].as_str(), 0, i + 3) {
                assert(!buf@.can_put_str_in(bound, all[i as int], 0, i + 3));
                return false;
            }
            i += 1;
        }
        true
    }

    /// Shows the text, line under line, from the fourth line of the
    /// rectangle on.
    pub fn display(&self, view: &mut BufferView<'_>)
        requires
            old(view).buf.wf(),
            Self::can_display(self.0@, old(view).buf@, old(view).bound),
        ensures
            final(view).bound == old(view).bound,
            *final(final(view).buf) == *final(old(view).buf),
            final(view).buf.wf(),
            final(view).buf@ == Self::displayed(self.0@, old(view).buf@, old(view).bound),
    {
        let lines = crate::text::split_lines(self.0.as_str());
        let ghost all = crate::text::lines_of(self.0@);
        let ghost start = view.buf@;
        let ghost bound = view.bound;
        let mut i: usize = 0;
        while i < lines.len()
            invariant
                i <= lines@.len(),
                crate::text::texts(lines@) == all,
                start.wf(),
                Self::can_show(all, start, bound),
                view.bound == bound,
                *final(view.buf) == *final(old(view).buf),
                view.buf.wf(),
                view.buf@ == Self::with_lines(start, bound, all.take(i as int)),
            decreases lines@.len() - i,
        {
            proof {
                assert(all[i as int] == lines@[i as int]@);
                assert(all.take(i + 1).drop_last() =~= all.take(i as int));
                assert(all.take(i + 1).last() == all[i as int]);
                assert(Self::can_show(all.take(i as int), start, bound)) by {
                    assert forall|k: int| 0 <= k < all.take(i as int).len() implies start.can_put_str_in(
                        bound,
                        #[trigger] all.take(i as int)[k],
                        0,
                        k + 3,
                    ) by {
                        assert(all.take(i as int)[k] == all[k]);
                    }
                }
                Self::lemma_with_lines_keeps_size(start, bound, all.take(i as int));
                assert(start.can_put_str_in(bound, all[i as int], 0, i + 3));
            }
            let _ = view.put_str(lines[i].as_str(), 0, i + 3, Color::Black, Color::White);
            i += 1;
        }
        assert(all.take(i as int) =~= all);
    }
}

/// The line that reports what happened last.
pub struct StatusBar {
    pub text: String,
}

impl Default for StatusBar {
    fn default() -> (bar: StatusBar)
        ensures
            bar.text@ == Seq::<char>::empty(),
    {
        StatusBar { text: String::new() }
    }
}

impl StatusBar {
    /// The line of the status bar: the text, and spaces up to the width of
    /// the rectangle.
    pub open spec fn line(text: Seq<char>, bound: Bound) -> Seq<char> {
        text + spaces((bound.w - byte_len(text)) as nat)
    }

    /// Whether the status bar can be shown: the text is not longer than the
    /// rectangle is wide, and the line can be put on the first line.
    pub open spec fn can_display(text: Seq<char>, grid: Grid, bound: Bound) -> bool {
        byte_len(text) <= bound.w && grid.can_put_str_in(bound, Self::line(text, bound), 0, 0)
    }

    /// The grid with the status bar shown, black on white.
    pub open spec fn displayed(text: Seq<char>, grid: Grid, bound: Bound) -> Grid {
        grid.with_str_in(bound, Self::line(text, bound), 0, 0, Color::White, Color::Black)
    }

    /// The text, and spaces up to a width.
    fn padded(&self, width: usize) -> (line: String)
        requires
            byte_len(self.text@) <= width,
        ensures
            line@ == self.text@ + spaces((width - byte_len(self.text@)) as nat),
    {
        let bytes = self.text.as_str().as_bytes().len();
        let missing = width - bytes;
        let mut line = self.text.clone();
        let mut added: usize = 0;
        assert(line@ =~= self.text@ + spaces(0));
        while added < missing
            invariant
                added <= missing,
                line@ == self.text@ + spaces(added as nat),
            decreases missing - added,
        {
            line.append(" ");
            added += 1;
            assert(line@ =~= self.text@ + spaces(added as nat));
        }
        line
    }

    /// Whether the status bar can be shown.
    pub fn fits(&self, buf: &Buffer, bound: Bound) -> (yes: bool)
        ensures
            yes == Self::can_display(self.text@, buf@, bound),
    {
        let bytes = self.text.as_str().as_bytes().len();
        if bytes > bound.w {
            return false;
        }
        let line = self.padded(bound.w);
        buf.takes_str_in(bound, line.as_str(), 0, 0)
    }

    /// Shows the status bar on the first line of the rectangle.
    pub fn display(&self, view: &mut BufferView<'_>)
        requires
            old(view).buf.wf(),
            Self::can_display(self.text@, old(view).buf@, old(view).bound),
        ensures
            final(view).bound == old(view).bound,
            *final(final(view).buf) == *final(old(view).buf),
            final(view).buf.wf(),
            final(view).buf@ == Self::displayed(self.text@, old(view).buf@, old(view).bound),
    {
        let line = self.padded(view.width());
        let _ = view.put_str(line.as_str(), 0, 0, Color::White, Color::Black);
    }
}

/// Appends a character to a string. The body calls `String::push` of the
/// standard library.
#[verifier::external_body]
fn push_char(text: &mut String, c: char)
    ensures
        final(text)@ == old(text)@.push(c),
{
    text.push(c)
}

/// Removes the last character of a string and hands it back; `None` where the
/// string is empty. The body calls `String::pop` of the standard library.
#[verifier::external_body]
fn pop_char(text: &mut String) -> (last: Option<char>)
    ensures
        match last {
            Some(c) => old(text)@.len() > 0 && c == old(text)@.last() && final(text)@ == old(
                text,
            )@.drop_last(),
            None => old(text)@.len() == 0 && final(text)@ == old(text)@,
        },
{
    text.pop()
}

/// The line on which the user types.
pub struct Prompt {
    label: String,
    input: String,
}

/// What a prompt holds, as plain values.
pub ghost struct PromptView {
    pub label: Seq<char>,
    pub input: Seq<char>,
}

/// What the prompt reports of the typing.
pub enum PromptEvent {
    /// The text changed: the text as it stands.
    Updated(String),
    /// The text was entered: the text that was typed.
    Entered(String),
}

/// What the prompt reports of the typing, as plain values.
pub ghost enum PromptEventView {
    Updated(Seq<char>),
    Entered(Seq<char>),
}

impl View for PromptEvent {
    type V = PromptEventView;

    open spec fn view(&self) -> PromptEventView {
        match self {
            PromptEvent::Updated(text) => PromptEventView::Updated(text@),
            PromptEvent::Entered(text) => PromptEventView::Entered(text@),
        }
    }
}

/// Whether the prompt reads an event: a key that is pressed while neither
/// the control key nor the alt key is held.
pub open spec fn typed(event: Event) -> bool {
    event matches Event::Key(key) && !key.control && !key.alt && key.pressed
}

impl PromptView {
    /// The text typed once the prompt has read an event.
    pub open spec fn input_after(self, event: Event) -> Seq<char> {
        match event {
            Event::Key(key) => if typed(event) {
                match key.code {
                    KeyCode::Char(c) => self.input.push(c),
                    KeyCode::Backspace => if self.input.len() > 0 {
                        self.input.drop_last()
                    } else {
                        self.input
                    },
                    KeyCode::Enter => Seq::empty(),
                    _ => self.input,
                }
            } else {
                self.input
            },
            Event::Other => self.input,
        }
    }

    /// What the prompt reports of an event.
    pub open spec fn report_of(self, event: Event) -> Option<PromptEventView> {
        match event {
            Event::Key(key) => if typed(event) {
                match key.code {
                    KeyCode::Char(c) => Some(PromptEventView::Updated(self.input_after(event))),
                    KeyCode::Backspace => Some(PromptEventView::Updated(self.input_after(event))),
                    KeyCode::Enter => Some(PromptEventView::Entered(self.input)),
                    _ => None,
                }
            } else {
                None
            },
            Event::Other => None,
        }
    }
}

/// What an optional report of the prompt is, as plain values.
pub open spec fn report_view(report: Option<PromptEvent>) -> Option<PromptEventView> {
    match report {
        Some(report) => Some(report@),
        None => None,
    }
}

impl View for Prompt {
    type V = PromptView;

    closed spec fn view(&self) -> PromptView {
        PromptView { label: self.label@, input: self.input@ }
    }
}

impl Default for Prompt {
    fn default() -> (prompt: Prompt)
        ensures
            prompt@ == (PromptView { label: Seq::empty(), input: Seq::empty() }),
    {
        Prompt { label: String::new(), input: String::new() }
    }
}

impl Prompt {
    /// Gives the prompt another label.
    pub fn set_label(&mut self, label: &str)
        ensures
            final(self)@ == (PromptView { label: label@, ..old(self)@ }),
    {
        self.label = label.to_owned();
    }

    /// Whether the prompt can be shown: the rectangle has a line, the label
    /// and the text typed can be put on its last line, and the cursor can be
    /// put behind them.
    pub open spec fn can_display(prompt: PromptView, grid: Grid, bound: Bound) -> bool {
        &&& bound.h >= 1
        &&& grid.can_put_str_in(bound, prompt.label + prompt.input, 0, bound.h - 1)
        &&& bound.x + grid.str_end(prompt.label + prompt.input, bound.x as int) <= usize::MAX
    }

    /// The grid with the prompt shown on the last line of the rectangle,
    /// white on black, and the cursor behind it: as many columns right of the
    /// rectangle's corner as the buffer has columns up to the end of the text.
    pub open spec fn displayed(prompt: PromptView, grid: Grid, bound: Bound) -> Grid {
        let line = prompt.label + prompt.input;
        grid.with_str_in(bound, line, 0, bound.h - 1, Color::Black, Color::White).with_cursor(
            bound.x + grid.str_end(line, bound.x as int),
            bound.y + bound.h - 1,
        )
    }

    /// Whether the prompt can be shown.
    pub fn fits(&self, buf: &Buffer, bound: Bound) -> (yes: bool)
        ensures
            yes == Self::can_display(self@, buf@, bound),
    {
        if bound.h < 1 {
            return false;
        }
        let line = self.line();
        if !buf.takes_str_in(bound, line.as_str(), 0, bound.h - 1) {
            return false;
        }
        let bytes = line.as_str().as_bytes().len();
        let room = buf.width() - bound.x;
        let end = if bytes <= room {
            bound.x + bytes
        } else {
            buf.width()
        };
        end <= usize::MAX - bound.x
    }

    /// Shows the prompt on the last line of the rectangle and puts the cursor
    /// behind it.
    pub fn display(&self, view: &mut BufferView<'_>)
        requires
            old(view).buf.wf(),
            Self::can_display(self@, old(view).buf@, old(view).bound),
        ensures
            final(view).bound == old(view).bound,
            *final(final(view).buf) == *final(old(view).buf),
            final(view).buf.wf(),
            final(view).buf@ == Self::displayed(self@, old(view).buf@, old(view).bound),
    {
        let line = self.line();
        let y = view.height() - 1;
        proof {
            lemma_with_str_keeps_size(
                view.buf@,
                line@,
                view.bound.x + 0,
                view.bound.y + y,
                Color::Black,
                Color::White,
            );
        }
        let next_x = view.put_str(line.as_str(), 0, y, Color::Black, Color::White);
        view.set_cursor(next_x, y)
    }

    /// The label and the text typed, one after the other.
    pub fn line(&self) -> (line: String)
        ensures
            line@ == self@.label + self@.input,
    {
        let mut line = self.label.clone();
        line.append(self.input.as_str());
        line
    }

    /// Reads an event: a character is added to the text, the backspace key
    /// takes the last one away, and the enter key hands the text over and
    /// starts an empty one.
    pub fn handle_event(&mut self, event: &Event) -> (report: Option<PromptEvent>)
        ensures
            final(self)@ == (PromptView { input: old(self)@.input_after(*event), ..old(self)@ }),
            report_view(report) == old(self)@.report_of(*event),
    {
        match event {
            Event::Key(key) => {
                if !key.control && !key.alt && key.pressed {
                    match key.code {
                        KeyCode::Char(c) => {
                            push_char(&mut self.input, c);
                            return Some(PromptEvent::Updated(self.input.clone()));
                        },
                        KeyCode::Backspace => {
                            let _ = pop_char(&mut self.input);
                            return Some(PromptEvent::Updated(self.input.clone()));
                        },
                        KeyCode::Enter => {
                            let input = self.input.clone();
                            self.input = String::new();
                            return Some(PromptEvent::Entered(input));
                        },
                        _ => {},
                    }
                }
            },
            Event::Other => {},
        }
        None
    }
}

} // verus!
