use pbs::tui::buffer::{Bound, Buffer, BufferView, Cell, Color, Patch};
use pbs::tui::event::{Event, KeyCode, KeyEvent};
use pbs::tui::main_wnd::MainWindow;
use pbs::tui::page::{PageHelp, PageSearch};
use pbs::tui::screen::{Command, Screen};
use pbs::tui::widget::{Paragraph, StatusBar, Title};
use pbs::tui::PbsResponse;
use pbs::{Item, ItemMaturity, Strategy};

fn row(buffer: &Buffer, y: usize) -> String {
    (0..buffer.width()).map(|x| buffer.cell(x, y).c).collect()
}

#[test]
fn test() {
    let mut buf = Buffer::new(1, 100);
    let view = BufferView::from_buffer(&mut buf, Bound::new(0, 0, 1, 2));
    assert_eq!(1, view.width());
    assert_eq!(2, view.height());
}

#[test]
fn buffer_starts_blank() {
    let buffer = Buffer::new(3, 2);
    assert_eq!(3, buffer.width());
    assert_eq!(2, buffer.height());
    assert_eq!((0, 0), buffer.cursor());
    assert_eq!(Cell::default(), buffer.cell(2, 1));
    assert_eq!(
        Cell { c: ' ', bg_color: Color::Black, fg_color: Color::White },
        Cell::default()
    );
    let empty = Buffer::new(0, 5);
    assert!(empty.diff(&Buffer::new(0, 5)).is_empty());
}

#[test]
fn put_char_and_diff() {
    let mut buffer = Buffer::new(3, 2);
    let before = buffer.clone();
    buffer.put_char('a', 2, 1, Color::White, Color::Black);
    buffer.put_char('b', 0, 0, Color::Black, Color::White);
    assert_eq!("b  ", row(&buffer, 0));
    assert_eq!("  a", row(&buffer, 1));
    let patches = buffer.diff(&before);
    assert_eq!(
        vec![
            Patch { x: 0, y: 0, cell: Cell { c: 'b', bg_color: Color::Black, fg_color: Color::White } },
            Patch { x: 2, y: 1, cell: Cell { c: 'a', bg_color: Color::White, fg_color: Color::Black } },
        ],
        patches
    );
    assert!(buffer.diff(&buffer.clone()).is_empty());
    buffer.reset();
    assert_eq!("   ", row(&buffer, 1));
    buffer.reset_with(Cell { c: '#', bg_color: Color::Yellow, fg_color: Color::Yellow });
    assert_eq!("###", row(&buffer, 0));
    buffer.resize_with(2, 1, Cell::default());
    assert_eq!(2, buffer.width());
    assert_eq!(1, buffer.height());
    assert_eq!("  ", row(&buffer, 0));
    buffer.set_cursor(1, 0);
    assert_eq!((1, 0), buffer.cursor());
}

#[test]
fn put_str_shortens_what_does_not_fit() {
    let mut buffer = Buffer::new(8, 2);
    assert_eq!(5, buffer.put_str("abc", 2, 0, Color::Black, Color::White));
    assert_eq!("  abc   ", row(&buffer, 0));
    // exactly as long as the room
    assert_eq!(8, buffer.put_str("defgh", 3, 0, Color::Black, Color::White));
    assert_eq!("  adefgh", row(&buffer, 0));
    // too long: the end is left out
    assert_eq!(8, buffer.put_str("0123456789", 1, 1, Color::Black, Color::White));
    assert_eq!(" 012345\u{2026}", row(&buffer, 1));
    // the room counts in bytes, the places in characters
    let mut buffer = Buffer::new(6, 1);
    assert_eq!(5, buffer.put_str("\u{e9}t\u{e9}", 0, 0, Color::Black, Color::White));
    assert_eq!("\u{e9}t\u{e9}   ", row(&buffer, 0));
    let mut buffer = Buffer::new(4, 1);
    assert_eq!(4, buffer.put_str("a\u{e9}bcd", 0, 0, Color::Black, Color::White));
    assert_eq!("a\u{e9} \u{2026}", row(&buffer, 0));
}

#[test]
fn views_draw_from_their_corner() {
    let mut buffer = Buffer::new(6, 3);
    {
        let mut view = BufferView::from_buffer(&mut buffer, Bound::new(1, 1, 4, 2));
        view.put_char('a', 0, 0, Color::Black, Color::White);
        view.put_char('b', 2, 1, Color::Black, Color::White);
        // the column 1 + 3 does not lie left of the width 4
        view.put_char('c', 3, 0, Color::Black, Color::White);
        assert_eq!(5, view.put_str("xy", 2, 0, Color::Black, Color::White));
        view.set_cursor(1, 1);
    }
    assert_eq!("      ", row(&buffer, 0));
    assert_eq!(" a xy ", row(&buffer, 1));
    assert_eq!("   b  ", row(&buffer, 2));
    assert_eq!((2, 2), buffer.cursor());
}

#[test]
fn a_view_of_a_view_draws_on_the_same_buffer() {
    let mut buffer = Buffer::new(6, 3);
    {
        let mut outer = BufferView::from_buffer(&mut buffer, Bound::new(1, 1, 5, 2));
        {
            let mut inner = BufferView::from_view(&mut outer, Bound::new(2, 0, 6, 1));
            inner.put_char('i', 0, 0, Color::Black, Color::White);
        }
        outer.put_char('o', 0, 0, Color::Black, Color::White);
    }
    assert_eq!("  i   ", row(&buffer, 0));
    assert_eq!(" o    ", row(&buffer, 1));
}

#[test]
fn too_small_a_buffer_does_not_take_the_window() {
    let window = MainWindow::new();
    assert!(!window.fits(&Buffer::new(40, 1)));
    assert!(!window.fits(&Buffer::new(3, 10)));
    // the help text needs its five lines from the fourth line of the buffer on
    assert!(!window.fits(&Buffer::new(40, 7)));
    assert!(window.fits(&Buffer::new(40, 8)));
    let mut screen = Screen::new(40, 10);
    assert!(screen.takes(&window));
    screen.resize(3, 10);
    assert!(!screen.takes(&window));
    let buffer = Buffer::new(4, 2);
    assert!(buffer.takes_str("abcd", 0, 1));
    assert!(buffer.takes_str("abcdefg", 0, 1));
    assert!(!buffer.takes_str("a", 4, 1));
    assert!(!buffer.takes_str("a", 0, 2));
    // the part that is written would end inside the second character
    assert!(!buffer.takes_str("ab\u{e9}cd", 0, 0));
    assert!(buffer.takes_str("a\u{e9}bcd", 0, 0));
}

#[test]
fn widgets() {
    let mut buffer = Buffer::new(10, 7);
    {
        let mut view = BufferView::from_buffer(&mut buffer, Bound::new(0, 0, 10, 7));
        Title("HELP".to_string()).display(&mut view);
        Paragraph("one\r\ntwo\n\nfour\n".to_string()).display(&mut view);
    }
    assert_eq!("   HELP   ", row(&buffer, 0));
    assert_eq!("          ", row(&buffer, 1));
    assert_eq!("one       ", row(&buffer, 3));
    assert_eq!("two       ", row(&buffer, 4));
    assert_eq!("          ", row(&buffer, 5));
    assert_eq!("four      ", row(&buffer, 6));
    let mut buffer = Buffer::new(10, 8);
    {
        let mut view = BufferView::from_buffer(&mut buffer, Bound::new(0, 0, 10, 8));
        Paragraph("a\n\nb\r".to_string()).display(&mut view);
        StatusBar { text: "ok".to_string() }.display(&mut view);
    }
    assert_eq!("ok        ", row(&buffer, 0));
    assert_eq!(Color::White, buffer.cell(9, 0).bg_color);
    assert_eq!(Color::Black, buffer.cell(9, 0).fg_color);
    assert_eq!("a         ", row(&buffer, 3));
    assert_eq!("          ", row(&buffer, 4));
    assert_eq!("b\r        ", row(&buffer, 5));
}

#[test]
fn search_page_marks_the_selection() {
    let item = |id: i64, name: &str| Item::new(id, "PN", name, 1, ItemMaturity::InProgress, Strategy::Make);
    let mut page = PageSearch::default();
    page.set_items(vec![item(1, "A"), item(2, "B"), item(3, "C"), item(4, "D")]);
    page.handle_event(&Event::Key(KeyEvent { code: KeyCode::Down, control: false, alt: false, pressed: true }));
    let mut buffer = Buffer::new(12, 5);
    {
        let mut view = BufferView::from_buffer(&mut buffer, Bound::new(0, 0, 12, 5));
        page.display(&mut view);
    }
    assert_eq!("   SEARCH   ", row(&buffer, 0));
    assert_eq!("    A       ", row(&buffer, 1));
    assert_eq!("  \u{25ba} B       ", row(&buffer, 2));
    assert_eq!("    C       ", row(&buffer, 3));
    // the last line stays free
    assert_eq!("            ", row(&buffer, 4));
}

#[test]
fn help_page() {
    let mut buffer = Buffer::new(40, 10);
    {
        let mut view = BufferView::from_buffer(&mut buffer, Bound::new(0, 0, 40, 10));
        PageHelp {}.display(&mut view);
    }
    assert_eq!("CTRL-h : this help page", row(&buffer, 3).trim_end());
    assert_eq!("CTRL-x : Exit application", row(&buffer, 7).trim_end());
}

#[test]
fn window_and_screen() {
    let mut window = MainWindow::new();
    window.handle_event(&Event::Key(KeyEvent { code: KeyCode::Char('n'), control: true, alt: false, pressed: true }));
    window.handle_event(&Event::Key(KeyEvent { code: KeyCode::Char('Z'), control: false, alt: false, pressed: true }));
    window.handle_response(PbsResponse::Error("no".to_string()));

    let mut buffer = Buffer::new(24, 5);
    window.display(&mut buffer);
    assert_eq!("   Create a MAKE item   ", row(&buffer, 0));
    assert_eq!("no                      ", row(&buffer, 3));
    assert_eq!("item name> Z            ", row(&buffer, 4));
    assert_eq!((12, 4), buffer.cursor());

    let mut screen = Screen::new(24, 5);
    screen.add(&window);
    let commands = screen.render();
    // every cell differs from what the terminal is taken to show
    let prints = commands.iter().filter(|c| matches!(c, Command::Print { .. })).count();
    assert_eq!(24 * 5, prints);
    assert_eq!(Command::SetBackground(Color::Black), commands[0]);
    assert_eq!(Command::SetBackground(Color::Black), commands[1]);
    assert_eq!(Command::Print { x: 0, y: 0, c: ' ' }, commands[2]);
    assert_eq!(Some(&Command::MoveTo { x: 12, y: 4 }), commands.last());
    // the next frame draws what changed: the window is gone from the blank drawing
    let commands = screen.render();
    let prints = commands.iter().filter(|c| matches!(c, Command::Print { .. })).count();
    // the letters of the title and of the prompt, and the whole status bar
    assert_eq!(15 + 24 + 10, prints);
    assert!(!commands.iter().any(|c| matches!(c, Command::MoveTo { .. })));
    screen.resize(2, 1);
    let commands = screen.render();
    assert_eq!(
        vec![
            Command::SetBackground(Color::Black),
            Command::SetBackground(Color::Black),
            Command::Print { x: 0, y: 0, c: ' ' },
            Command::Print { x: 1, y: 0, c: ' ' },
        ],
        commands
    );
}
