//! The screen of the front end: the drawing that is being made and the one
//! that the terminal shows, and the commands that bring the terminal from
//! the one to the other.

use crate::tui::buffer::{Buffer, Cell, Color, Grid, Patch};
use crate::tui::main_wnd::MainWindow;
use vstd::prelude::*;

verus! {

/// What the terminal is told to do.
#[derive(Clone, Copy, Debug, PartialEq, Eq, Structural)]
pub enum Command {
    /// Take this colour as the background.
    SetBackground(Color),
    /// Write a character at a place.
    Print { x: usize, y: usize, c: char },
    /// Move the cursor to a place.
    MoveTo { x: usize, y: usize },
}

/// A cell that no drawing holds, so that every cell of a first drawing
/// differs from it.
pub open spec fn spec_invalid_cell() -> Cell {
    Cell { c: 'x', bg_color: Color::Yellow, fg_color: Color::Yellow }
}

fn invalid_cell() -> (cell: Cell)
    ensures
        cell == spec_invalid_cell(),
{
    Cell { c: 'x', bg_color: Color::Yellow, fg_color: Color::Yellow }
}

/// The commands that draw patches on a terminal whose colours are known:
/// for each patch, the background of its cell where the background differs
/// from the one in use, the same again where the foreground differs, and the
/// character of the cell at its place.
pub open spec fn commands_for(patches: Seq<Patch>, bg: Color, fg: Color) -> Seq<Command>
    decreases patches.len(),
{
    if patches.len() == 0 {
        Seq::empty()
    } else {
        let patch = patches[0];
        let cell = patch.cell;
        (if cell.bg_color != bg {
            seq![Command::SetBackground(cell.bg_color)]
        } else {
            Seq::empty()
        }) + (if cell.fg_color != fg {
            seq![Command::SetBackground(cell.bg_color)]
        } else {
            Seq::empty()
        }) + seq![Command::Print { x: patch.x, y: patch.y, c: cell.c }] + commands_for(
            patches.drop_first(),
            cell.bg_color,
            cell.fg_color,
        )
    }
}

/// The commands that bring a terminal that shows `previous` to `current`:
/// the patches drawn from unknown colours, and the cursor moved where the
/// two drawings have it in different places.
pub open spec fn frame(current: Grid, previous: Grid) -> Seq<Command> {
    commands_for(current.patches(previous), Color::Reset, Color::Reset) + if previous.cursor
        != current.cursor {
        seq![Command::MoveTo { x: current.cursor.0 as usize, y: current.cursor.1 as usize }]
    } else {
        Seq::empty()
    }
}

/// The two drawings of the front end.
pub struct Screen {
    previous_buffer: Buffer,
    current_buffer: Buffer,
}

impl Screen {
    /// The drawing that the terminal shows.
    pub closed spec fn previous(&self) -> Grid {
        self.previous_buffer@
    }

    /// The drawing that is being made.
    pub closed spec fn current(&self) -> Grid {
        self.current_buffer@
    }

    /// Whether the two drawings are well formed and of one size.
    pub open spec fn wf(&self) -> bool {
        &&& self.previous().wf()
        &&& self.current().wf()
        &&& self.previous().width == self.current().width
        &&& self.previous().height == self.current().height
    }

    /// A screen of the given size: a blank drawing in the making, and a
    /// terminal of which no cell is known.
    pub fn new(width: usize, height: usize) -> (screen: Screen)
        requires
            width * height <= usize::MAX,
        ensures
            screen.wf(),
            screen.current() == Grid::filled(width as nat, height as nat, Cell::blank(), (0, 0)),
            screen.previous() == Grid::filled(
                width as nat,
                height as nat,
                spec_invalid_cell(),
                (0, 0),
            ),
    {
        let current_buffer = Buffer::new(width, height);
        let mut previous_buffer = Buffer::new(width, height);
        previous_buffer.reset_with(invalid_cell());
        Screen { previous_buffer, current_buffer }
    }

    /// Gives the screen another size: a blank drawing in the making, and a
    /// terminal of which no cell is known.
    pub fn resize(&mut self, w: usize, h: usize)
        requires
            w * h <= usize::MAX,
        ensures
            final(self).wf(),
            final(self).current() == Grid::filled(
                w as nat,
                h as nat,
                Cell::blank(),
                old(self).current().cursor,
            ),
            final(self).previous() == Grid::filled(
                w as nat,
                h as nat,
                spec_invalid_cell(),
                old(self).previous().cursor,
            ),
    {
        self.current_buffer.resize_with(w, h, Cell::default());
        self.previous_buffer.resize_with(w, h, invalid_cell());
    }

    /// The commands that bring the terminal to the drawing made. The drawing
    /// then counts as shown, and a blank one is started.
    pub fn render(&mut self) -> (commands: Vec<Command>)
        requires
            old(self).wf(),
        ensures
            final(self).wf(),
            commands@ == frame(old(self).current(), old(self).previous()),
            final(self).previous() == old(self).current(),
            final(self).current() == Grid::filled(
                old(self).current().width,
                old(self).current().height,
                Cell::blank(),
                old(self).current().cursor,
            ),
    {
        let diff = self.current_buffer.diff(&self.previous_buffer);
        let mut commands: Vec<Command> = Vec::new();
        let mut curr_bg_color = Color::Reset;
        let mut curr_fg_color = Color::Reset;
        let mut i: usize = 0;
        assert(diff@.skip(0) =~= diff@);
        while i < diff.len()
            invariant
                i <= diff@.len(),
                commands@ + commands_for(diff@.skip(i as int), curr_bg_color, curr_fg_color)
                    == commands_for(diff@, Color::Reset, Color::Reset),
            decreases diff@.len() - i,
        {
            let patch = diff[i];
            let cell = patch.cell;
            let ghost before = commands@;
            let ghost rest = diff@.skip(i as int);
            let ghost bg = curr_bg_color;
            let ghost fg = curr_fg_color;
            proof {
                assert(rest[0] == patch);
                assert(rest.drop_first() =~= diff@.skip(i + 1));
            }
            if cell.bg_color != curr_bg_color {
                commands.push(Command::SetBackground(cell.bg_color));
                curr_bg_color = cell.bg_color;
            }
            if cell.fg_color != curr_fg_color {
                commands.push(Command::SetBackground(cell.bg_color));
                curr_fg_color = cell.fg_color;
            }
            commands.push(Command::Print { x: patch.x, y: patch.y, c: cell.c });
            proof {
                assert(commands@ + commands_for(diff@.skip(i + 1), curr_bg_color, curr_fg_color)
                    =~= before + commands_for(rest, bg, fg));
            }
            i += 1;
        }
        let previous_cursor = self.previous_buffer.cursor();
        let current_cursor = self.current_buffer.cursor();
        if previous_cursor.0 != current_cursor.0 || previous_cursor.1 != current_cursor.1 {
            commands.push(Command::MoveTo { x: current_cursor.0, y: current_cursor.1 });
        }
        self.previous_buffer = self.current_buffer.clone();
        self.current_buffer.reset();
        commands
    }

    /// Whether the main window can be shown on the drawing in the making.
    pub fn takes(&self, window: &MainWindow) -> (yes: bool)
        ensures
            yes == window@.can_display(self.current()),
    {
        window.fits(&self.current_buffer)
    }

    /// Shows the main window on the drawing in the making.
    pub fn add(&mut self, window: &MainWindow)
        requires
            old(self).wf(),
            window@.can_display(old(self).current()),
        ensures
            final(self).wf(),
            final(self).previous() == old(self).previous(),
            final(self).current() == window@.displayed(old(self).current()),
    {
        proof {
            window@.lemma_displayed_keeps_size(self.current());
        }
        window.display(&mut self.current_buffer);
    }
}

} // verus!
