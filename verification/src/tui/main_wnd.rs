//! The main window of the terminal front end: a page, a status bar and a
//! prompt.

use crate::database::Item;
use crate::tui::buffer::{lemma_with_str_keeps_size, Bound, Buffer, BufferView, Color, Grid};
use crate::tui::event::Event;
use crate::tui::page::{Page, PageView, SearchView};
use crate::tui::widget::{Prompt, PromptEvent, PromptEventView, PromptView, StatusBar};
use crate::tui::{action_view, ActionView, PbsAction, PbsResponse, ResponseView};
use vstd::prelude::*;

verus! {

/// The main window.
pub struct MainWindow {
    page: Page,
    status: StatusBar,
    prompt: Prompt,
}

/// What the main window holds, as plain values.
pub ghost struct WindowView {
    pub page: PageView,
    pub status: Seq<char>,
    pub prompt: PromptView,
}

/// The label of the prompt on a page.
pub open spec fn label_on(page: PageView) -> Seq<char> {
    match page {
        PageView::Help => "> "@,
        PageView::Search(_) => "search> "@,
        PageView::MakeItem => "item name> "@,
    }
}

/// The number of bytes that write a text, as the machine counts them.
pub open spec fn byte_count(text: Seq<char>) -> usize {
    vstd::utf8::encode_utf8(text).len() as usize
}

impl WindowView {
    /// The window once it has read an event: the prompt takes the label of
    /// the page shown so far, then the page and the prompt read the event.
    pub open spec fn after_event(self, event: Event) -> WindowView {
        WindowView {
            page: self.page.after(event),
            status: self.status,
            prompt: PromptView {
                label: label_on(self.page),
                input: self.prompt.input_after(event),
            },
        }
    }

    /// What the window asks of the catalog when it reads an event: on the
    /// search page, a search for the text typed once it is longer than two
    /// bytes; on the page that creates an item, an item named as the text
    /// entered. The page is the one that the event leads to.
    pub open spec fn action_of(self, event: Event) -> Option<ActionView> {
        match (self.page.after(event), self.prompt.report_of(event)) {
            (PageView::Search(_), Some(PromptEventView::Updated(text))) => if byte_count(text) > 2 {
                Some(ActionView::Search(text))
            } else {
                None
            },
            (PageView::MakeItem, Some(PromptEventView::Entered(text))) => Some(
                ActionView::CreateItem(text),
            ),
            _ => None,
        }
    }

    /// The window once it has read an answer of the catalog: an error goes
    /// to the status bar, found items go to the search page where it is shown,
    /// and a created item is reported on the status bar where the page that
    /// creates items is shown.
    pub open spec fn after_response(self, response: ResponseView) -> WindowView {
        match (response, self.page) {
            (ResponseView::Error(err), _) => WindowView { status: err, ..self },
            (ResponseView::Items(items), PageView::Search(_)) => WindowView {
                page: PageView::Search(SearchView { sel: 0, items }),
                ..self
            },
            (ResponseView::Item(item), PageView::MakeItem) => WindowView {
                status: Item::spec_to_string(item) + " created"@,
                ..self
            },
            _ => self,
        }
    }
}

/// The rectangle of the page on a grid: all but the last two lines.
pub open spec fn page_bound(grid: Grid) -> Bound {
    Bound { x: 0, y: 0, w: grid.width as usize, h: (grid.height - 2) as usize }
}

/// The rectangle of the status bar on a grid: the line before the last.
pub open spec fn status_bound(grid: Grid) -> Bound {
    Bound { x: 0, y: (grid.height - 2) as usize, w: grid.width as usize, h: 1 }
}

/// The rectangle of the prompt on a grid: the last line.
pub open spec fn prompt_bound(grid: Grid) -> Bound {
    Bound { x: 0, y: (grid.height - 1) as usize, w: grid.width as usize, h: 1 }
}

impl WindowView {
    /// Whether the window can be shown: the grid has two lines at least, and
    /// the page, the status bar and the prompt can each be shown in its
    /// rectangle.
    pub open spec fn can_display(self, grid: Grid) -> bool {
        &&& 2 <= grid.height <= usize::MAX
        &&& grid.width <= usize::MAX
        &&& self.page.can_display(grid, page_bound(grid))
        &&& StatusBar::can_display(self.status, grid, status_bound(grid))
        &&& Prompt::can_display(self.prompt, grid, prompt_bound(grid))
    }

    /// The grid with the window shown: the page, then the status bar, then
    /// the prompt, each in its rectangle.
    pub open spec fn displayed(self, grid: Grid) -> Grid {
        Prompt::displayed(
            self.prompt,
            StatusBar::displayed(
                self.status,
                self.page.displayed(grid, page_bound(grid)),
                status_bound(grid),
            ),
            prompt_bound(grid),
        )
    }

    /// Showing the window leaves the size of the grid as it is.
    pub proof fn lemma_displayed_keeps_size(self, grid: Grid)
        requires
            grid.wf(),
            self.can_display(grid),
        ensures
            self.displayed(grid).wf(),
            self.displayed(grid).width == grid.width,
            self.displayed(grid).height == grid.height,
    {
        self.page.lemma_displayed_keeps_size(grid, page_bound(grid));
        let paged = self.page.displayed(grid, page_bound(grid));
        let sb = status_bound(grid);
        lemma_with_str_keeps_size(
            paged,
            StatusBar::line(self.status, sb),
            sb.x + 0,
            sb.y + 0,
            Color::White,
            Color::Black,
        );
        let barred = StatusBar::displayed(self.status, paged, sb);
        let pb = prompt_bound(grid);
        lemma_with_str_keeps_size(
            barred,
            self.prompt.label + self.prompt.input,
            pb.x + 0,
            pb.y + (pb.h - 1),
            Color::Black,
            Color::White,
        );
    }
}

impl View for MainWindow {
    type V = WindowView;

    closed spec fn view(&self) -> WindowView {
        WindowView { page: self.page@, status: self.status.text@, prompt: self.prompt@ }
    }
}

impl MainWindow {
    /// The window as the front end starts: the help page, nothing reported
    /// and nothing typed.
    pub fn new() -> (window: MainWindow)
        ensures
            window@ == (WindowView {
                page: PageView::Help,
                status: Seq::empty(),
                prompt: PromptView { label: Seq::empty(), input: Seq::empty() },
            }),
    {
        MainWindow { page: Page::home(), status: StatusBar::default(), prompt: Prompt::default() }
    }

    /// Whether the window can be shown on a buffer.
    pub fn fits(&self, buf: &Buffer) -> (yes: bool)
        ensures
            yes == self@.can_display(buf@),
    {
        let width = buf.width();
        let height = buf.height();
        if height < 2 {
            return false;
        }
        self.page.fits(buf, Bound::new(0, 0, width, height - 2)) && self.status.fits(
            buf,
            Bound::new(0, height - 2, width, 1),
        ) && self.prompt.fits(buf, Bound::new(0, height - 1, width, 1))
    }

    /// Shows the window: the page on all but the last two lines, the status
    /// bar on the line before the last, and the prompt on the last line.
    pub fn display(&self, buf: &mut Buffer)
        requires
            old(buf).wf(),
            self@.can_display(old(buf)@),
        ensures
            final(buf).wf(),
            final(buf)@ == self@.displayed(old(buf)@),
    {
        let ghost start = buf@;
        let width = buf.width();
        let height = buf.height();
        proof {
            self@.page.lemma_displayed_keeps_size(start, page_bound(start));
        }
        {
            let mut page_buf = BufferView::from_buffer(buf, Bound::new(0, 0, width, height - 2));
            self.page.display(&mut page_buf);
        }
        let ghost paged = buf@;
        proof {
            let sb = status_bound(start);
            lemma_with_str_keeps_size(
                paged,
                StatusBar::line(self@.status, sb),
                sb.x + 0,
                sb.y + 0,
                Color::White,
                Color::Black,
            );
        }
        {
            let mut status_buf = BufferView::from_buffer(
                buf,
                Bound::new(0, height - 2, width, 1),
            );
            self.status.display(&mut status_buf);
        }
        {
            let mut prompt_buf = BufferView::from_buffer(
                buf,
                Bound::new(0, height - 1, width, 1),
            );
            self.prompt.display(&mut prompt_buf);
        }
    }

    /// The page shown.
    pub fn page(&self) -> (page: &Page)
        ensures
            page@ == self@.page,
    {
        &self.page
    }

    /// The status bar.
    pub fn status(&self) -> (status: &StatusBar)
        ensures
            status.text@ == self@.status,
    {
        &self.status
    }

    /// The prompt.
    pub fn prompt(&self) -> (prompt: &Prompt)
        ensures
            prompt@ == self@.prompt,
    {
        &self.prompt
    }

    /// Reads an event of the terminal, and hands back what to ask of the
    /// catalog, if anything.
    pub fn handle_event(&mut self, event: &Event) -> (action: Option<PbsAction>)
        ensures
            final(self)@ == old(self)@.after_event(*event),
            action_view(action) == old(self)@.action_of(*event),
    {
        match self.page {
            Page::Help(_) => self.prompt.set_label("> "),
            Page::Search(_) => self.prompt.set_label("search> "),
            Page::MakeItem(_) => self.prompt.set_label("item name> "),
        }
        let _ = self.page.handle_event(event);
        match self.prompt.handle_event(event) {
            Some(PromptEvent::Updated(text)) => {
                match self.page {
                    Page::Search(_) => {
                        if text.as_str().len() > 2 {
                            return Some(PbsAction::Search(text));
                        }
                    },
                    _ => {},
                }
            },
            Some(PromptEvent::Entered(text)) => {
                match self.page {
                    Page::MakeItem(_) => {
                        return Some(PbsAction::CreateItem(text));
                    },
                    _ => {},
                }
            },
            None => {},
        }
        None
    }

    /// Reads an answer of the catalog.
    pub fn handle_response(&mut self, response: PbsResponse)
        ensures
            final(self)@ == old(self)@.after_response(response@),
    {
        match response {
            PbsResponse::Error(err) => {
                self.status.text = err;
            },
            PbsResponse::Items(items) => {
                match &mut self.page {
                    Page::Search(page) => {
                        page.set_items(items);
                    },
                    _ => {},
                }
            },
            PbsResponse::Item(item) => {
                match self.page {
                    Page::MakeItem(_) => {
                        let mut text = item.to_string();
                        text.append(" created");
                        self.status.text = text;
                    },
                    _ => {},
                }
            },
        }
    }
}

} // verus!
