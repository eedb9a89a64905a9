use vstd::prelude::*;

use crate::book::Book;
use crate::config::CliConfig;
use crate::reader::ReaderCommand;
use crate::stock::Stock;

verus! {

/// The tabs of the terminal UI.
#[derive(Debug, Clone, Copy, PartialEq, Eq, Structural)]
pub enum Tab {
    Books,
    Stocks,
    Settings,
}

/// The tab that the Tab key moves to.
pub open spec fn next_tab_spec(t: Tab) -> Tab {
    match t {
        Tab::Books => Tab::Stocks,
        Tab::Stocks => Tab::Settings,
        Tab::Settings => Tab::Books,
    }
}

impl Tab {
    /// The tab's title.
    pub fn title(&self) -> (s: &'static str)
        ensures
            s@ == match *self {
                Tab::Books => "📚 Books"@,
                Tab::Stocks => "📈 Stocks"@,
                Tab::Settings => "⚙️ Settings"@,
            },
    {
        match self {
            Tab::Books => "📚 Books",
            Tab::Stocks => "📈 Stocks",
            Tab::Settings => "⚙️ Settings",
        }
    }

    /// The tab that follows: Books, then Stocks, then Settings, then Books.
    pub fn next(&self) -> (t: Tab)
        ensures
            t == next_tab_spec(*self),
    {
        match self {
            Tab::Books => Tab::Stocks,
            Tab::Stocks => Tab::Settings,
            Tab::Settings => Tab::Books,
        }
    }

    /// The tab's position in the tab bar, from 0.
    pub fn index(&self) -> (i: usize)
        ensures
            i == match *self {
                Tab::Books => 0usize,
                Tab::Stocks => 1usize,
                Tab::Settings => 2usize,
            },
    {
        match self {
            Tab::Books => 0,
            Tab::Stocks => 1,
            Tab::Settings => 2,
        }
    }
}

/// Pressing Tab three times comes back to the same tab.
pub proof fn lemma_tab_cycle(t: Tab)
    ensures
        next_tab_spec(next_tab_spec(next_tab_spec(t))) == t,
        next_tab_spec(t) != t,
{
}

// ---------------------------------------------------------------------------
// A list with a selected item
// ---------------------------------------------------------------------------

/// A list's items and the index of its selected item.
pub struct SelectableView<T> {
    pub items: Seq<T>,
    pub selected: Option<usize>,
}

/// A non-empty list has a selected item within it.
pub open spec fn selection_wf<T>(v: SelectableView<T>) -> bool {
    v.items.len() > 0 ==> (v.selected matches Some(i) && i < v.items.len())
}

/// The selection after "next item": one further, wrapping from the last
/// item to the first; unchanged for an empty list or no selection.
pub open spec fn next_selection<T>(v: SelectableView<T>) -> Option<usize> {
    match v.selected {
        Some(i) => if v.items.len() > 0 {
            Some(((i + 1) % (v.items.len() as int)) as usize)
        } else {
            Some(i)
        },
        None => None,
    }
}

/// The selection after "previous item": one back, wrapping from the first
/// item to the last; unchanged for an empty list or no selection.
pub open spec fn prev_selection<T>(v: SelectableView<T>) -> Option<usize> {
    match v.selected {
        Some(i) => if v.items.len() > 0 {
            Some(((i + v.items.len() - 1) % (v.items.len() as int)) as usize)
        } else {
            Some(i)
        },
        None => None,
    }
}

/// The selection after the list is replaced by `items`: the first item when
/// there is one, otherwise the selection stays as it was.
pub open spec fn refreshed_selection<T>(old_selected: Option<usize>, items: Seq<T>) -> Option<
    usize,
> {
    if items.len() > 0 {
        Some(0usize)
    } else {
        old_selected
    }
}

/// A list with a selected item, as the terminal UI shows it.
pub struct Selectable<T> {
    items: Vec<T>,
    selected: Option<usize>,
}

impl<T> View for Selectable<T> {
    type V = SelectableView<T>;

    closed spec fn view(&self) -> SelectableView<T> {
        SelectableView { items: self.items@, selected: self.selected }
    }
}

impl<T> Selectable<T> {
    #[verifier::type_invariant]
    closed spec fn inv(&self) -> bool {
        selection_wf(self@)
    }

    /// A list of `items`, its first item selected when it has one.
    pub fn new(items: Vec<T>) -> (s: Self)
        ensures
            s@.items == items@,
            s@.selected == refreshed_selection(None, items@),
            selection_wf(s@),
    {
        let selected = if items.len() > 0 {
            Some(0)
        } else {
            None
        };
        Selectable { items, selected }
    }

    /// Replaces the items; the first is then selected, if there is one.
    pub fn refresh(&mut self, items: Vec<T>)
        ensures
            final(self)@.items == items@,
            final(self)@.selected == refreshed_selection(old(self)@.selected, items@),
            selection_wf(final(self)@),
    {
        let selected = if items.len() > 0 {
            Some(0)
        } else {
            self.selected
        };
        *self = Selectable { items, selected };
    }

    /// Selects the next item, wrapping around.
    pub fn select_next(&mut self)
        ensures
            final(self)@.items == old(self)@.items,
            final(self)@.selected == next_selection(old(self)@),
            selection_wf(final(self)@),
    {
        proof {
            use_type_invariant(&*self);
        }
        if let Some(i) = self.selected {
            let len = self.items.len();
            if len > 0 {
                self.selected = Some((i + 1) % len);
            }
        }
    }

    /// Selects the previous item, wrapping around.
    pub fn select_prev(&mut self)
        ensures
            final(self)@.items == old(self)@.items,
            final(self)@.selected == prev_selection(old(self)@),
            selection_wf(final(self)@),
    {
        proof {
            use_type_invariant(&*self);
        }
        if let Some(i) = self.selected {
            let len = self.items.len();
            if len > 0 {
                let p = if i == 0 {
                    len - 1
                } else {
                    i - 1
                };
                assert(p as int == (i + len - 1) % (len as int)) by (nonlinear_arith)
                    requires
                        i < len,
                        p == if i == 0 {
                            len - 1
                        } else {
                            i - 1
                        },
                ;
                self.selected = Some(p);
            }
        }
    }

    /// The items.
    pub fn items(&self) -> (v: &Vec<T>)
        ensures
            v@ == self@.items,
    {
        &self.items
    }

    /// The number of items.
    pub fn len(&self) -> (n: usize)
        ensures
            n == self@.items.len(),
    {
        self.items.len()
    }

    /// The index of the selected item, if any.
    pub fn selected(&self) -> (s: Option<usize>)
        ensures
            s == self@.selected,
            selection_wf(self@),
    {
        proof {
            use_type_invariant(self);
        }
        self.selected
    }
}

/// "Previous item" undoes "next item", and "next item" undoes "previous
/// item", on a list whose selection lies within it.
pub proof fn lemma_prev_undoes_next_item<T>(items: Seq<T>, i: usize)
    requires
        i < items.len() <= usize::MAX,
    ensures
        prev_selection(
            SelectableView { items, selected: next_selection(SelectableView { items, selected: Some(i) }) },
        ) == Some(i),
        next_selection(
            SelectableView { items, selected: prev_selection(SelectableView { items, selected: Some(i) }) },
        ) == Some(i),
{
    let len = items.len() as int;
    let n = (i + 1) % len;
    let p = (i + len - 1) % len;
    assert(n == if i + 1 == len { 0 } else { i + 1 }) by (nonlinear_arith)
        requires
            0 <= i < len,
            n == (i + 1) % len,
    ;
    assert(p == if i == 0 { len - 1 } else { i - 1 }) by (nonlinear_arith)
        requires
            0 <= i < len,
            p == (i + len - 1) % len,
    ;
    assert((n + len - 1) % len == i) by (nonlinear_arith)
        requires
            0 <= i < len,
            n == if i + 1 == len { 0 } else { i + 1 },
    ;
    assert((p + 1) % len == i) by (nonlinear_arith)
        requires
            0 <= i < len,
            p == if i == 0 { len - 1 } else { i - 1 },
    ;
    assert(n as usize as int == n);
    assert(p as usize as int == p);
    assert(next_selection(SelectableView { items, selected: Some(i) }) == Some(n as usize));
    assert(prev_selection(SelectableView { items, selected: Some(i) }) == Some(p as usize));
}

/// Moving the selection keeps it within a non-empty list.
pub proof fn lemma_selection_moves_stay_in_list<T>(v: SelectableView<T>)
    requires
        selection_wf(v),
    ensures
        selection_wf(SelectableView { items: v.items, selected: next_selection(v) }),
        selection_wf(SelectableView { items: v.items, selected: prev_selection(v) }),
{
    if v.items.len() > 0 {
        let len = v.items.len() as int;
        let i = v.selected->0 as int;
        assert(0 <= (i + 1) % len < len) by (nonlinear_arith)
            requires
                len > 0,
        ;
        assert(0 <= (i + len - 1) % len < len) by (nonlinear_arith)
            requires
                len > 0,
        ;
    }
}

// ---------------------------------------------------------------------------
// The application
// ---------------------------------------------------------------------------

/// A key press, as the terminal UI distinguishes them.
#[derive(Debug, Clone, Copy, PartialEq, Eq, Structural)]
pub enum Key {
    Char(char),
    Up,
    Down,
    Enter,
    Tab,
    Esc,
    Other,
}

/// What the terminal UI asks of its surroundings after a key press.
#[derive(Debug, Clone, Copy, PartialEq, Eq, Structural)]
pub enum TuiAction {
    /// Nothing.
    Nothing,
    /// Reload the books and stocks.
    Refresh,
    /// Read the book at this index of the list, then reload the books and
    /// stocks, and reload them once more.
    OpenBook(usize),
}

/// The terminal UI's state as values.
pub struct AppView {
    pub current_tab: Tab,
    pub books: SelectableView<Book>,
    pub stocks: SelectableView<Stock>,
    pub config: CliConfig,
    pub should_quit: bool,
}

/// The terminal UI's state.
pub struct App {
    pub current_tab: Tab,
    pub books: Selectable<Book>,
    pub stocks: Selectable<Stock>,
    pub config: CliConfig,
    pub should_quit: bool,
}

impl View for App {
    type V = AppView;

    open spec fn view(&self) -> AppView {
        AppView {
            current_tab: self.current_tab,
            books: self.books@,
            stocks: self.stocks@,
            config: self.config,
            should_quit: self.should_quit,
        }
    }
}

/// The state after "next item": the selection of the current tab's list
/// moves on; the Settings tab has no list.
pub open spec fn app_next_item(v: AppView) -> AppView {
    match v.current_tab {
        Tab::Books => AppView {
            books: SelectableView { items: v.books.items, selected: next_selection(v.books) },
            ..v
        },
        Tab::Stocks => AppView {
            stocks: SelectableView { items: v.stocks.items, selected: next_selection(v.stocks) },
            ..v
        },
        Tab::Settings => v,
    }
}

/// The state after "previous item".
pub open spec fn app_prev_item(v: AppView) -> AppView {
    match v.current_tab {
        Tab::Books => AppView {
            books: SelectableView { items: v.books.items, selected: prev_selection(v.books) },
            ..v
        },
        Tab::Stocks => AppView {
            stocks: SelectableView { items: v.stocks.items, selected: prev_selection(v.stocks) },
            ..v
        },
        Tab::Settings => v,
    }
}

/// The book that Enter opens: the selected book, on the Books tab, when the
/// selection lies within the list.
pub open spec fn book_to_open(v: AppView) -> Option<usize> {
    match v.current_tab {
        Tab::Books => match v.books.selected {
            Some(i) => if i < v.books.items.len() {
                Some(i)
            } else {
                None
            },
            None => None,
        },
        _ => None,
    }
}

/// The state and the action after a key press: Tab moves to the next tab;
/// `j` or Down and `k` or Up move the selection; Enter opens the selected
/// book, if any, and reloads; `1`, `2`, `3` pick a tab; `r` or `R` reload;
/// `q` or Esc ask to quit; any other key does nothing.
pub open spec fn key_step(v: AppView, key: Key) -> (AppView, TuiAction) {
    match key {
        Key::Tab => (AppView { current_tab: next_tab_spec(v.current_tab), ..v }, TuiAction::Nothing),
        Key::Down => (app_next_item(v), TuiAction::Nothing),
        Key::Up => (app_prev_item(v), TuiAction::Nothing),
        Key::Enter => (
            v,
            match book_to_open(v) {
                Some(i) => TuiAction::OpenBook(i),
                None => TuiAction::Refresh,
            },
        ),
        Key::Esc => (AppView { should_quit: true, ..v }, TuiAction::Nothing),
        Key::Char(c) => if c == 'j' {
            (app_next_item(v), TuiAction::Nothing)
        } else if c == 'k' {
            (app_prev_item(v), TuiAction::Nothing)
        } else if c == '1' {
            (AppView { current_tab: Tab::Books, ..v }, TuiAction::Nothing)
        } else if c == '2' {
            (AppView { current_tab: Tab::Stocks, ..v }, TuiAction::Nothing)
        } else if c == '3' {
            (AppView { current_tab: Tab::Settings, ..v }, TuiAction::Nothing)
        } else if c == 'r' || c == 'R' {
            (v, TuiAction::Refresh)
        } else if c == 'q' {
            (AppView { should_quit: true, ..v }, TuiAction::Nothing)
        } else {
            (v, TuiAction::Nothing)
        },
        Key::Other => (v, TuiAction::Nothing),
    }
}

impl App {
    /// The terminal UI on the Books tab, with the given books, stocks and
    /// configuration; the first book and the first stock are selected.
    pub fn new(books: Vec<Book>, stocks: Vec<Stock>, config: CliConfig) -> (app: App)
        ensures
            app@.current_tab == Tab::Books,
            app@.books.items == books@,
            app@.books.selected == refreshed_selection(None, books@),
            app@.stocks.items == stocks@,
            app@.stocks.selected == refreshed_selection(None, stocks@),
            app@.config == config,
            !app@.should_quit,
    {
        App {
            current_tab: Tab::Books,
            books: Selectable::new(books),
            stocks: Selectable::new(stocks),
            config,
            should_quit: false,
        }
    }

    /// Replaces the books and stocks with freshly loaded ones.
    pub fn refresh_data(&mut self, books: Vec<Book>, stocks: Vec<Stock>)
        ensures
            final(self)@ == (AppView {
                books: SelectableView {
                    items: books@,
                    selected: refreshed_selection(old(self)@.books.selected, books@),
                },
                stocks: SelectableView {
                    items: stocks@,
                    selected: refreshed_selection(old(self)@.stocks.selected, stocks@),
                },
                ..old(self)@
            }),
    {
        self.books.refresh(books);
        self.stocks.refresh(stocks);
    }

    /// Moves the selection of the current tab's list to the next item.
    pub fn next_item(&mut self)
        ensures
            final(self)@ == app_next_item(old(self)@),
    {
        match self.current_tab {
            Tab::Books => self.books.select_next(),
            Tab::Stocks => self.stocks.select_next(),
            Tab::Settings => {},
        }
    }

    /// Moves the selection of the current tab's list to the previous item.
    pub fn prev_item(&mut self)
        ensures
            final(self)@ == app_prev_item(old(self)@),
    {
        match self.current_tab {
            Tab::Books => self.books.select_prev(),
            Tab::Stocks => self.stocks.select_prev(),
            Tab::Settings => {},
        }
    }

    /// The index of the book that Enter opens, if any (see `book_to_open`).
    pub fn select_item(&self) -> (r: Option<usize>)
        ensures
            r == book_to_open(self@),
    {
        match self.current_tab {
            Tab::Books => match self.books.selected() {
                Some(i) => if i < self.books.len() {
                    Some(i)
                } else {
                    None
                },
                None => None,
            },
            _ => None,
        }
    }

    /// The number of items that the status line counts: books on the Books
    /// tab, stocks on the Stocks tab, none on Settings.
    pub fn item_count(&self) -> (n: usize)
        ensures
            n == match self@.current_tab {
                Tab::Books => self@.books.items.len(),
                Tab::Stocks => self@.stocks.items.len(),
                Tab::Settings => 0,
            },
    {
        match self.current_tab {
            Tab::Books => self.books.len(),
            Tab::Stocks => self.stocks.len(),
            Tab::Settings => 0,
        }
    }

    /// Answers a key press (see `key_step`).
    pub fn handle_key(&mut self, key: Key) -> (action: TuiAction)
        ensures
            (final(self)@, action) == key_step(old(self)@, key),
            final(self)@.should_quit == (old(self)@.should_quit || key == Key::Esc || key
                == Key::Char('q')),
            key == Key::Esc || key == Key::Char('q') ==> final(self)@ == (AppView {
                should_quit: true,
                ..old(self)@
            }) && action == TuiAction::Nothing,
    {
        match key {
            Key::Tab => {
                self.current_tab = self.current_tab.next();
                TuiAction::Nothing
            },
            Key::Down => {
                self.next_item();
                TuiAction::Nothing
            },
            Key::Up => {
                self.prev_item();
                TuiAction::Nothing
            },
            Key::Enter => match self.select_item() {
                Some(i) => TuiAction::OpenBook(i),
                None => TuiAction::Refresh,
            },
            Key::Esc => {
                self.should_quit = true;
                TuiAction::Nothing
            },
            Key::Char(c) => {
                if c == 'j' {
                    self.next_item();
                } else if c == 'k' {
                    self.prev_item();
                } else if c == '1' {
                    self.current_tab = Tab::Books;
                } else if c == '2' {
                    self.current_tab = Tab::Stocks;
                } else if c == '3' {
                    self.current_tab = Tab::Settings;
                } else if c == 'r' || c == 'R' {
                    return TuiAction::Refresh;
                } else if c == 'q' {
                    self.should_quit = true;
                }
                TuiAction::Nothing
            },
            Key::Other => TuiAction::Nothing,
        }
    }
}

/// Moving down and then up in the current tab's list comes back to the
/// selected item, when it lies within the list.
pub proof fn lemma_down_then_up_restores_selection(v: AppView)
    requires
        selection_wf(v.books),
        selection_wf(v.stocks),
        v.books.items.len() <= usize::MAX,
        v.stocks.items.len() <= usize::MAX,
    ensures
        key_step(key_step(v, Key::Down).0, Key::Up).0 == v,
{
    match v.current_tab {
        Tab::Books => {
            if v.books.items.len() > 0 {
                lemma_prev_undoes_next_item(v.books.items, v.books.selected->0);
            }
        },
        Tab::Stocks => {
            if v.stocks.items.len() > 0 {
                lemma_prev_undoes_next_item(v.stocks.items, v.stocks.selected->0);
            }
        },
        Tab::Settings => {},
    }
}

/// What the keys of the terminal UI do, whatever the state: `q` does what
/// Esc does, asking to quit and changing nothing else; only those two keys
/// set the quit flag, and none clears it; `j` does what Down does and `k`
/// what Up does; `1`, `2` and `3` pick the Books, Stocks and Settings tabs;
/// `r` and `R` reload and change nothing; Enter changes nothing and opens
/// the selected book or reloads; no key changes the lists' contents or the
/// configuration.
pub proof fn lemma_key_effects(v: AppView, key: Key)
    ensures
        key_step(v, Key::Char('q')) == key_step(v, Key::Esc),
        key_step(v, Key::Esc) == (AppView { should_quit: true, ..v }, TuiAction::Nothing),
        key_step(v, key).0.should_quit == (v.should_quit || key == Key::Esc || key == Key::Char(
            'q',
        )),
        key_step(v, Key::Char('j')) == key_step(v, Key::Down),
        key_step(v, Key::Char('k')) == key_step(v, Key::Up),
        key_step(v, Key::Char('1')) == (AppView { current_tab: Tab::Books, ..v }, TuiAction::Nothing),
        key_step(v, Key::Char('2')) == (AppView { current_tab: Tab::Stocks, ..v }, TuiAction::Nothing),
        key_step(v, Key::Char('3')) == (AppView { current_tab: Tab::Settings, ..v }, TuiAction::Nothing),
        key_step(v, Key::Char('r')) == (v, TuiAction::Refresh),
        key_step(v, Key::Char('R')) == (v, TuiAction::Refresh),
        key_step(v, Key::Enter).0 == v,
        key_step(v, Key::Enter).1 == TuiAction::Refresh || key_step(v, Key::Enter).1
            == TuiAction::OpenBook(v.books.selected->0),
        key_step(v, Key::Other) == (v, TuiAction::Nothing),
        key_step(v, key).0.books.items == v.books.items,
        key_step(v, key).0.stocks.items == v.stocks.items,
        key_step(v, key).0.config == v.config,
{
}

/// The command that a key press asks of the terminal-UI reader: `j`, Down or
/// space turn forward; `k` or Up turn back; `h` and `l` shrink and grow the
/// page; `q` or Esc quit; anything else does nothing.
pub open spec fn reader_command_for_key_spec(key: Key) -> ReaderCommand {
    match key {
        Key::Down => ReaderCommand::NextPage,
        Key::Up => ReaderCommand::PrevPage,
        Key::Esc => ReaderCommand::Quit,
        Key::Char(c) => if c == 'j' || c == ' ' {
            ReaderCommand::NextPage
        } else if c == 'k' {
            ReaderCommand::PrevPage
        } else if c == 'h' {
            ReaderCommand::FewerLines
        } else if c == 'l' {
            ReaderCommand::MoreLines
        } else if c == 'q' {
            ReaderCommand::Quit
        } else {
            ReaderCommand::Ignore
        },
        _ => ReaderCommand::Ignore,
    }
}

/// The command that a key press asks of the terminal-UI reader.
pub fn reader_command_for_key(key: Key) -> (cmd: ReaderCommand)
    ensures
        cmd == reader_command_for_key_spec(key),
{
    match key {
        Key::Down => ReaderCommand::NextPage,
        Key::Up => ReaderCommand::PrevPage,
        Key::Esc => ReaderCommand::Quit,
        Key::Char(c) => {
            if c == 'j' || c == ' ' {
                ReaderCommand::NextPage
            } else if c == 'k' {
                ReaderCommand::PrevPage
            } else if c == 'h' {
                ReaderCommand::FewerLines
            } else if c == 'l' {
                ReaderCommand::MoreLines
            } else if c == 'q' {
                ReaderCommand::Quit
            } else {
                ReaderCommand::Ignore
            }
        },
        _ => ReaderCommand::Ignore,
    }
}

} // verus!
