use mofish::book::Book;
use mofish::config::CliConfig;
use mofish::reader::ReaderCommand;
use mofish::stock::Stock;
use mofish::tui::{reader_command_for_key, App, Key, Tab, TuiAction};

fn book(title: &str) -> Book {
    Book {
        id: format!("id-{}", title),
        title: title.to_string(),
        path: format!("/books/{}.txt", title),
        format: "txt".to_string(),
        added_at: 0,
        last_read_at: None,
        last_position: 0,
        tags: "[]".to_string(),
    }
}

fn stock(code: &str) -> Stock {
    Stock { id: format!("s-{}", code), code: code.to_string(), name: format!("Stock {}", code) }
}

#[test]
fn tab_titles_and_cycle() {
    assert_eq!(Tab::Books.title(), "📚 Books");
    assert_eq!(Tab::Stocks.title(), "📈 Stocks");
    assert_eq!(Tab::Settings.title(), "⚙️ Settings");
    assert_eq!(Tab::Books.next(), Tab::Stocks);
    assert_eq!(Tab::Stocks.next(), Tab::Settings);
    assert_eq!(Tab::Settings.next(), Tab::Books);
    assert_eq!(Tab::Settings.index(), 2);
}

#[test]
fn new_app_selects_first_items() {
    let app = App::new(vec![book("a"), book("b")], vec![], CliConfig::default());
    assert_eq!(app.current_tab, Tab::Books);
    assert_eq!(app.books.selected(), Some(0));
    assert_eq!(app.stocks.selected(), None);
    assert_eq!(app.item_count(), 2);
    assert!(!app.should_quit);
}

#[test]
fn selection_wraps_both_ways() {
    let mut app = App::new(vec![book("a"), book("b"), book("c")], vec![stock("1")], CliConfig::default());
    assert_eq!(app.handle_key(Key::Up), TuiAction::Nothing);
    assert_eq!(app.books.selected(), Some(2));
    app.handle_key(Key::Char('j'));
    assert_eq!(app.books.selected(), Some(0));
    app.handle_key(Key::Down);
    app.handle_key(Key::Char('k'));
    assert_eq!(app.books.selected(), Some(0));
    app.handle_key(Key::Tab);
    assert_eq!(app.current_tab, Tab::Stocks);
    app.handle_key(Key::Down);
    assert_eq!(app.stocks.selected(), Some(0));
}

#[test]
fn enter_opens_selected_book_or_refreshes() {
    let mut app = App::new(vec![book("a"), book("b")], vec![], CliConfig::default());
    app.handle_key(Key::Down);
    assert_eq!(app.handle_key(Key::Enter), TuiAction::OpenBook(1));
    app.handle_key(Key::Char('2'));
    assert_eq!(app.handle_key(Key::Enter), TuiAction::Refresh);
    assert_eq!(app.handle_key(Key::Char('R')), TuiAction::Refresh);
    app.handle_key(Key::Char('3'));
    assert_eq!(app.item_count(), 0);
    assert_eq!(app.handle_key(Key::Esc), TuiAction::Nothing);
    assert!(app.should_quit);
}

#[test]
fn refresh_keeps_stale_selection_for_empty_lists() {
    let mut app = App::new(vec![book("a"), book("b")], vec![], CliConfig::default());
    app.handle_key(Key::Down);
    app.refresh_data(vec![], vec![stock("9")]);
    assert_eq!(app.books.selected(), Some(1));
    assert_eq!(app.stocks.selected(), Some(0));
    assert_eq!(app.handle_key(Key::Enter), TuiAction::Refresh);
    app.refresh_data(vec![book("z")], vec![]);
    assert_eq!(app.books.selected(), Some(0));
    assert_eq!(app.books.items()[0].title, "z");
}

#[test]
fn reader_keys_in_the_terminal_ui() {
    assert_eq!(reader_command_for_key(Key::Char(' ')), ReaderCommand::NextPage);
    assert_eq!(reader_command_for_key(Key::Down), ReaderCommand::NextPage);
    assert_eq!(reader_command_for_key(Key::Enter), ReaderCommand::Ignore);
    assert_eq!(reader_command_for_key(Key::Up), ReaderCommand::PrevPage);
    assert_eq!(reader_command_for_key(Key::Char('h')), ReaderCommand::FewerLines);
    assert_eq!(reader_command_for_key(Key::Char('l')), ReaderCommand::MoreLines);
    assert_eq!(reader_command_for_key(Key::Esc), ReaderCommand::Quit);
    assert_eq!(reader_command_for_key(Key::Char('Q')), ReaderCommand::Ignore);
}
