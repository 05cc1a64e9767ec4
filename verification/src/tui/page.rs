//! The pages of the terminal front end.

use crate::database::{item_views, Item, ItemView};
use crate::tui::buffer::{lemma_with_str_keeps_size, Bound, Buffer, BufferView, Color, Grid};
use crate::tui::event::{Event, KeyCode};
use crate::tui::widget::{Paragraph, Title};
use crate::tui::{action_view, ActionView, PbsAction};
use vstd::prelude::*;

verus! {

/// The page that lists the shortcuts.
pub struct PageHelp {}

/// The shortcuts, as the help page lists them.
pub const HELP_TEXT: &'static str = "CTRL-h : this help page
CTRL-s : Search page
CTRL-n : Create a new MAKE item
CTRL-b : Create a new BUY item
CTRL-x : Exit application";

impl PageHelp {
    /// Whether the help page can be shown: its title can, and then its
    /// text.
    pub open spec fn can_display(grid: Grid, bound: Bound) -> bool {
        Title::can_display("HELP"@, grid, bound) && Paragraph::can_display(HELP_TEXT@, grid, bound)
    }

    /// The grid with the help page shown: the title `HELP` and the
    /// shortcuts.
    pub open spec fn displayed(grid: Grid, bound: Bound) -> Grid {
        Paragraph::displayed(HELP_TEXT@, Title::displayed("HELP"@, grid, bound), bound)
    }

    /// Whether the page can be shown.
    pub fn fits(&self, buf: &Buffer, bound: Bound) -> (yes: bool)
        ensures
            yes == Self::can_display(buf@, bound),
    {
        let title = Title("HELP".to_owned());
        let text = Paragraph(HELP_TEXT.to_owned());
        title.fits(buf, bound) && text.fits(buf, bound)
    }

    /// Shows the page.
    pub fn display(&self, view: &mut BufferView<'_>)
        requires
            old(view).buf.wf(),
            Self::can_display(old(view).buf@, old(view).bound),
        ensures
            final(view).bound == old(view).bound,
            *final(final(view).buf) == *final(old(view).buf),
            final(view).buf.wf(),
            final(view).buf@ == Self::displayed(old(view).buf@, old(view).bound),
    {
        proof {
            lemma_with_str_keeps_size(
                view.buf@,
                "HELP"@,
                view.bound.x + Title::column("HELP"@, view.bound),
                view.bound.y + 0,
                Color::Black,
                Color::White,
            );
            Paragraph::lemma_can_show_by_size(
                crate::text::lines_of(HELP_TEXT@),
                view.buf@,
                Title::displayed("HELP"@, view.buf@, view.bound),
                view.bound,
            );
        }
        let title = Title("HELP".to_owned());
        title.display(view);
        let text = Paragraph(HELP_TEXT.to_owned());
        text.display(view);
    }
}

/// The page that creates an item designed in house.
pub struct PageMakeItem {}

impl PageMakeItem {
    /// Whether the page can be shown: its title can.
    pub open spec fn can_display(grid: Grid, bound: Bound) -> bool {
        Title::can_display("Create a MAKE item"@, grid, bound)
    }

    /// The grid with the page shown: the title `Create a MAKE item`.
    pub open spec fn displayed(grid: Grid, bound: Bound) -> Grid {
        Title::displayed("Create a MAKE item"@, grid, bound)
    }

    /// Whether the page can be shown.
    pub fn fits(&self, buf: &Buffer, bound: Bound) -> (yes: bool)
        ensures
            yes == Self::can_display(buf@, bound),
    {
        let title = Title("Create a MAKE item".to_owned());
        title.fits(buf, bound)
    }

    /// Shows the page.
    pub fn display(&self, view: &mut BufferView<'_>)
        requires
            old(view).buf.wf(),
            Self::can_display(old(view).buf@, old(view).bound),
        ensures
            final(view).bound == old(view).bound,
            *final(final(view).buf) == *final(old(view).buf),
            final(view).buf.wf(),
            final(view).buf@ == Self::displayed(old(view).buf@, old(view).bound),
    {
        let title = Title("Create a MAKE item".to_owned());
        title.display(view);
    }
}

/// The page that lists what a search found, with one line selected.
pub struct PageSearch {
    sel: usize,
    items: Vec<Item>,
}

/// What the search page holds, as plain values.
pub ghost struct SearchView {
    pub sel: nat,
    pub items: Seq<ItemView>,
}

impl SearchView {
    /// The selected line once the page has read an event: the up key moves
    /// it up unless it is the first, the down key moves it down unless it is
    /// the last.
    pub open spec fn sel_after(self, event: Event) -> nat {
        match event {
            Event::Key(key) => if key.pressed {
                match key.code {
                    KeyCode::Up => if self.sel > 0 {
                        (self.sel - 1) as nat
                    } else {
                        self.sel
                    },
                    KeyCode::Down => if self.sel + 1 < self.items.len() {
                        self.sel + 1
                    } else {
                        self.sel
                    },
                    _ => self.sel,
                }
            } else {
                self.sel
            },
            Event::Other => self.sel,
        }
    }

    /// What the page asks for when it reads an event: the enter key asks to
    /// view the item numbered one.
    pub open spec fn action_of(self, event: Event) -> Option<ActionView> {
        match event {
            Event::Key(key) => if key.pressed && key.code == KeyCode::Enter {
                Some(ActionView::ViewItem(1))
            } else {
                None
            },
            Event::Other => None,
        }
    }
}

/// The line of an item on the search page: a mark where the item is
/// selected, and the name of the item.
pub open spec fn marked_line(name: Seq<char>, selected: bool) -> Seq<char> {
    if selected {
        " \u{25ba} "@ + name
    } else {
        "   "@ + name
    }
}

impl SearchView {
    /// The line of the item at a position.
    pub open spec fn line(self, i: int) -> Seq<char> {
        marked_line(self.items[i].name, self.sel == i)
    }

    /// How many items a rectangle shows: those for which a line is left
    /// under the title and above the last line.
    pub open spec fn shown(self, bound: Bound) -> nat {
        if bound.h <= 2 {
            0
        } else if self.items.len() <= bound.h - 2 {
            self.items.len()
        } else {
            (bound.h - 2) as nat
        }
    }

    /// The grid with the first `count` items put on the lines under the
    /// title, white on black.
    pub open spec fn with_rows(self, grid: Grid, bound: Bound, count: nat) -> Grid
        decreases count,
    {
        if count == 0 {
            grid
        } else {
            self.with_rows(grid, bound, (count - 1) as nat).with_str_in(
                bound,
                self.line(count - 1),
                1,
                count as int,
                Color::Black,
                Color::White,
            )
        }
    }

    /// Whether the first `count` items can be put on their lines.
    pub open spec fn can_show(self, grid: Grid, bound: Bound, count: nat) -> bool {
        forall|i: int|
            0 <= i < count ==> grid.can_put_str_in(bound, #[trigger] self.line(i), 1, i + 1)
    }

    /// Whether the search page can be shown: the rectangle has a line, the
    /// title can be shown, and each item that gets a line can be put on
    /// it.
    pub open spec fn can_display(self, grid: Grid, bound: Bound) -> bool {
        &&& bound.h >= 1
        &&& Title::can_display("SEARCH"@, grid, bound)
        &&& self.can_show(grid, bound, self.shown(bound))
    }

    /// The grid with the search page shown: the title `SEARCH` and the
    /// items that get a line.
    pub open spec fn displayed(self, grid: Grid, bound: Bound) -> Grid {
        self.with_rows(Title::displayed("SEARCH"@, grid, bound), bound, self.shown(bound))
    }

    /// Showing items leaves the size of the grid and its cursor as they are.
    pub proof fn lemma_with_rows_keeps_size(self, grid: Grid, bound: Bound, count: nat)
        requires
            grid.wf(),
            self.can_show(grid, bound, count),
        ensures
            self.with_rows(grid, bound, count).wf(),
            self.with_rows(grid, bound, count).width == grid.width,
            self.with_rows(grid, bound, count).height == grid.height,
            self.with_rows(grid, bound, count).cursor == grid.cursor,
        decreases count,
    {
        if count > 0 {
            self.lemma_with_rows_keeps_size(grid, bound, (count - 1) as nat);
            assert(grid.can_put_str_in(bound, self.line(count - 1), 1, count - 1 + 1));
            lemma_with_str_keeps_size(
                self.with_rows(grid, bound, (count - 1) as nat),
                self.line(count - 1),
                bound.x + 1,
                bound.y + count,
                Color::Black,
                Color::White,
            );
        }
    }
}

impl View for PageSearch {
    type V = SearchView;

    closed spec fn view(&self) -> SearchView {
        SearchView { sel: self.sel as nat, items: item_views(self.items@) }
    }
}

impl Default for PageSearch {
    fn default() -> (page: PageSearch)
        ensures
            page@ == (SearchView { sel: 0, items: Seq::empty() }),
    {
        let page = PageSearch { sel: 0, items: Vec::new() };
        assert(page@.items =~= Seq::empty());
        page
    }
}

impl PageSearch {
    /// Lists other items, the first one selected.
    pub fn set_items(&mut self, items: Vec<Item>)
        ensures
            final(self)@ == (SearchView { sel: 0, items: item_views(items@) }),
    {
        self.items = items;
        self.sel = 0;
    }

    /// The line of the item at a position.
    fn line(&self, i: usize) -> (line: String)
        requires
            i < self@.items.len(),
        ensures
            line@ == self@.line(i as int),
    {
        let mut line = String::new();
        if self.sel == i {
            line.append(" \u{25ba} ");
        } else {
            line.append("   ");
        }
        assert(self.items@[i as int]@ == self@.items[i as int]);
        line.append(self.items[i].name());
        assert(line@ =~= self@.line(i as int));
        line
    }

    /// How many items a rectangle of the given height shows.
    fn shown(&self, height: usize) -> (count: usize)
        ensures
            count == self@.shown(Bound { x: 0, y: 0, w: 0, h: height }),
            count <= self@.items.len(),
    {
        let listed = self.items.len();
        assert(listed == self@.items.len());
        if height <= 2 {
            0
        } else if listed <= height - 2 {
            listed
        } else {
            height - 2
        }
    }

    /// Whether the page can be shown.
    pub fn fits(&self, buf: &Buffer, bound: Bound) -> (yes: bool)
        ensures
            yes == self@.can_display(buf@, bound),
    {
        if bound.h < 1 {
            return false;
        }
        let title = Title("SEARCH".to_owned());
        if !title.fits(buf, bound) {
            return false;
        }
        let count = self.shown(bound.h);
        let mut i: usize = 0;
        while i < count
            invariant
                i <= count,
                count <= self@.items.len(),
                count == self@.shown(bound),
                forall|k: int|
                    0 <= k < i ==> buf@.can_put_str_in(
                        bound,
                        #[trigger] self@.line(k),
                        1,
                        k + 1,
                    ),
            decreases count - i,
        {
            let line = self.line(i);
            if !buf.takes_str_in(bound, line.as_str(), 1, i + 1) {
                return false;
            }
            i += 1;
        }
        true
    }

    /// Shows the page: the title, and under it the items, the selected one
    /// marked.
    pub fn display(&self, view: &mut BufferView<'_>)
        requires
            old(view).buf.wf(),
            self@.can_display(old(view).buf@, old(view).bound),
        ensures
            final(view).bound == old(view).bound,
            *final(final(view).buf) == *final(old(view).buf),
            final(view).buf.wf(),
            final(view).buf@ == self@.displayed(old(view).buf@, old(view).bound),
    {
        let ghost page = self@;
        let ghost bound = view.bound;
        let ghost first = view.buf@;
        proof {
            lemma_with_str_keeps_size(
                first,
                "SEARCH"@,
                bound.x + Title::column("SEARCH"@, bound),
                bound.y + 0,
                Color::Black,
                Color::White,
            );
        }
        let title = Title("SEARCH".to_owned());
        title.display(view);
        let ghost start = view.buf@;
        let count = self.shown(view.height());
        assert(count == page.shown(bound));
        assert(page.can_show(start, bound, count as nat)) by {
            assert forall|k: int| 0 <= k < count implies start.can_put_str_in(
                bound,
                #[trigger] page.line(k),
                1,
                k + 1,
            ) by {
                assert(first.can_put_str_in(bound, page.line(k), 1, k + 1));
            }
        }
        let mut i: usize = 0;
        while i < count
            invariant
                i <= count,
                count <= self.items@.len(),
                page == self@,
                start.wf(),
                page.can_show(start, bound, count as nat),
                view.bound == bound,
                *final(view.buf) == *final(old(view).buf),
                view.buf.wf(),
                view.buf@ == page.with_rows(start, bound, i as nat),
            decreases count - i,
        {
            let line = self.line(i);
            proof {
                assert(page.can_show(start, bound, i as nat));
                page.lemma_with_rows_keeps_size(start, bound, i as nat);
                assert(start.can_put_str_in(bound, page.line(i as int), 1, i + 1));
            }
            let _ = view.put_str(line.as_str(), 1, i + 1, Color::Black, Color::White);
            i += 1;
        }
    }

    /// The number of the selected line.
    pub fn selected(&self) -> (sel: usize)
        ensures
            sel == self@.sel,
    {
        self.sel
    }

    /// The items listed.
    pub fn items(&self) -> (items: &Vec<Item>)
        ensures
            item_views(items@) == self@.items,
    {
        &self.items
    }

    /// Reads an event of the terminal, and hands back what to ask of the
    /// catalog, if anything.
    pub fn handle_event(&mut self, event: &Event) -> (action: Option<PbsAction>)
        ensures
            final(self)@ == (SearchView { sel: old(self)@.sel_after(*event), ..old(self)@ }),
            action_view(action) == old(self)@.action_of(*event),
    {
        match event {
            Event::Key(key) => {
                if key.pressed {
                    match key.code {
                        KeyCode::Up => {
                            if self.sel > 0 {
                                self.sel -= 1;
                            }
                        },
                        KeyCode::Down => {
                            let count = self.items.len();
                            assert(count == self@.items.len());
                            if count > 0 && self.sel < count - 1 {
                                self.sel += 1;
                            }
                        },
                        KeyCode::Enter => {
                            return Some(PbsAction::ViewItem(1));
                        },
                        _ => {},
                    }
                }
            },
            Event::Other => {},
        }
        None
    }
}

/// The page that the front end shows.
pub enum Page {
    Help(PageHelp),
    Search(PageSearch),
    MakeItem(PageMakeItem),
}

/// The page that the front end shows, as plain values.
pub ghost enum PageView {
    Help,
    Search(SearchView),
    MakeItem,
}

/// The page that a shortcut leads to: the control key with `s` leads to an
/// empty search page, with `h` to the help page, with `n` to the page that
/// creates an item.
pub open spec fn shortcut(event: Event) -> Option<PageView> {
    match event {
        Event::Key(key) => if key.control {
            match key.code {
                KeyCode::Char(c) => if c == 's' {
                    Some(PageView::Search(SearchView { sel: 0, items: Seq::empty() }))
                } else if c == 'h' {
                    Some(PageView::Help)
                } else if c == 'n' {
                    Some(PageView::MakeItem)
                } else {
                    None
                },
                _ => None,
            }
        } else {
            None
        },
        Event::Other => None,
    }
}

impl PageView {
    /// The page once it has read an event: the page of a shortcut, or else
    /// the same page, a search page with its selection moved.
    pub open spec fn after(self, event: Event) -> PageView {
        match shortcut(event) {
            Some(page) => page,
            None => match self {
                PageView::Search(search) => PageView::Search(
                    SearchView { sel: search.sel_after(event), ..search },
                ),
                _ => self,
            },
        }
    }

    /// What the page asks for when it reads an event: nothing on a shortcut,
    /// and else what a search page asks for.
    pub open spec fn action_of(self, event: Event) -> Option<ActionView> {
        match shortcut(event) {
            Some(_) => None,
            None => match self {
                PageView::Search(search) => search.action_of(event),
                _ => None,
            },
        }
    }
}

impl View for Page {
    type V = PageView;

    open spec fn view(&self) -> PageView {
        match self {
            Page::Help(_) => PageView::Help,
            Page::Search(page) => PageView::Search(page@),
            Page::MakeItem(_) => PageView::MakeItem,
        }
    }
}

impl PageView {
    /// Whether the page can be shown.
    pub open spec fn can_display(self, grid: Grid, bound: Bound) -> bool {
        match self {
            PageView::Help => PageHelp::can_display(grid, bound),
            PageView::Search(search) => search.can_display(grid, bound),
            PageView::MakeItem => PageMakeItem::can_display(grid, bound),
        }
    }

    /// The grid with the page shown.
    pub open spec fn displayed(self, grid: Grid, bound: Bound) -> Grid {
        match self {
            PageView::Help => PageHelp::displayed(grid, bound),
            PageView::Search(search) => search.displayed(grid, bound),
            PageView::MakeItem => PageMakeItem::displayed(grid, bound),
        }
    }

    /// Showing a page leaves the size of the grid and its cursor as they
    /// are.
    pub proof fn lemma_displayed_keeps_size(self, grid: Grid, bound: Bound)
        requires
            grid.wf(),
            self.can_display(grid, bound),
        ensures
            self.displayed(grid, bound).wf(),
            self.displayed(grid, bound).width == grid.width,
            self.displayed(grid, bound).height == grid.height,
            self.displayed(grid, bound).cursor == grid.cursor,
    {
        match self {
            PageView::Help => {
                lemma_with_str_keeps_size(
                    grid,
                    "HELP"@,
                    bound.x + Title::column("HELP"@, bound),
                    bound.y + 0,
                    Color::Black,
                    Color::White,
                );
                let titled = Title::displayed("HELP"@, grid, bound);
                let lines = crate::text::lines_of(HELP_TEXT@);
                Paragraph::lemma_can_show_by_size(lines, grid, titled, bound);
                Paragraph::lemma_with_lines_keeps_size(titled, bound, lines);
            },
            PageView::Search(search) => {
                lemma_with_str_keeps_size(
                    grid,
                    "SEARCH"@,
                    bound.x + Title::column("SEARCH"@, bound),
                    bound.y + 0,
                    Color::Black,
                    Color::White,
                );
                let titled = Title::displayed("SEARCH"@, grid, bound);
                let count = search.shown(bound);
                assert(search.can_show(titled, bound, count)) by {
                    assert forall|k: int| 0 <= k < count implies titled.can_put_str_in(
                        bound,
                        #[trigger] search.line(k),
                        1,
                        k + 1,
                    ) by {
                        assert(grid.can_put_str_in(bound, search.line(k), 1, k + 1));
                    }
                }
                search.lemma_with_rows_keeps_size(titled, bound, count);
            },
            PageView::MakeItem => {
                lemma_with_str_keeps_size(
                    grid,
                    "Create a MAKE item"@,
                    bound.x + Title::column("Create a MAKE item"@, bound),
                    bound.y + 0,
                    Color::Black,
                    Color::White,
                );
            },
        }
    }
}

impl Page {
    /// Whether the page can be shown.
    pub fn fits(&self, buf: &Buffer, bound: Bound) -> (yes: bool)
        ensures
            yes == self@.can_display(buf@, bound),
    {
        match self {
            Page::Help(page) => page.fits(buf, bound),
            Page::Search(page) => page.fits(buf, bound),
            Page::MakeItem(page) => page.fits(buf, bound),
        }
    }

    /// Shows the page.
    pub fn display(&self, view: &mut BufferView<'_>)
        requires
            old(view).buf.wf(),
            self@.can_display(old(view).buf@, old(view).bound),
        ensures
            final(view).bound == old(view).bound,
            *final(final(view).buf) == *final(old(view).buf),
            final(view).buf.wf(),
            final(view).buf@ == self@.displayed(old(view).buf@, old(view).bound),
    {
        match self {
            Page::Help(page) => page.display(view),
            Page::Search(page) => page.display(view),
            Page::MakeItem(page) => page.display(view),
        }
    }

    /// The page that the front end starts on.
    pub fn home() -> (page: Page)
        ensures
            page@ == PageView::Help,
    {
        Page::Help(PageHelp {  })
    }

    /// Reads an event of the terminal, and hands back what to ask of the
    /// catalog, if anything.
    pub fn handle_event(&mut self, event: &Event) -> (action: Option<PbsAction>)
        ensures
            final(self)@ == old(self)@.after(*event),
            action_view(action) == old(self)@.action_of(*event),
    {
        match event {
            Event::Key(key) => {
                if key.control {
                    match key.code {
                        KeyCode::Char(c) => {
                            if c == 's' {
                                *self = Page::Search(PageSearch::default());
                                return None;
                            } else if c == 'h' {
                                *self = Page::Help(PageHelp {  });
                                return None;
                            } else if c == 'n' {
                                *self = Page::MakeItem(PageMakeItem {  });
                                return None;
                            }
                        },
                        _ => {},
                    }
                }
            },
            Event::Other => {},
        }
        match self {
            Page::Help(_) => None,
            Page::Search(page) => page.handle_event(event),
            Page::MakeItem(_) => None,
        }
    }
}

} // verus!
