use mofish::reader::{
    calculate_start_page, line_command, trim_text, scan_key_byte, input_command, KeyScan, KeyStep, Reader,
    ReaderCommand, ReaderOutcome, CLI_MAX_PAGE_SIZE, TUI_MAX_PAGE_SIZE,
};

#[test]
fn test_calculate_start_page_basic() {
    // position 0, page_size 10, total_lines 100 -> page 0
    assert_eq!(calculate_start_page(0, 10, 100), 0);
}

#[test]
fn test_calculate_start_page_mid_book() {
    // position 50, page_size 10, total_lines 100 -> page 5
    assert_eq!(calculate_start_page(50, 10, 100), 5);
}

#[test]
fn test_calculate_start_page_exceeds_total() {
    // position 150, page_size 10, total_lines 100 -> page 10 (capped at total_lines/page_size)
    assert_eq!(calculate_start_page(150, 10, 100), 10);
}

#[test]
fn test_calculate_start_page_zero_total_lines() {
    // total_lines 0 should return 0 regardless of position
    assert_eq!(calculate_start_page(0, 10, 0), 0);
    assert_eq!(calculate_start_page(100, 10, 0), 0);
}

#[test]
fn test_calculate_start_page_exact_page_boundary() {
    // position 90, page_size 10, total_lines 100 -> page 9
    assert_eq!(calculate_start_page(90, 10, 100), 9);
}

#[test]
fn test_calculate_start_page_small_page_size() {
    // position 5, page_size 2, total_lines 20 -> page 2
    assert_eq!(calculate_start_page(5, 2, 20), 2);
}

#[test]
fn test_calculate_start_page_large_page_size() {
    // position 50, page_size 50, total_lines 200 -> page 1
    assert_eq!(calculate_start_page(50, 50, 200), 1);
}

#[test]
fn start_page_of_negative_position_is_capped_at_last_page() {
    // A negative position, taken as an unsigned number, is huge.
    assert_eq!(calculate_start_page(-1, 10, 100), 10);
}

#[test]
fn reader_opens_at_saved_page() {
    let r = Reader::open(95, 30, 100, CLI_MAX_PAGE_SIZE);
    assert_eq!(r.page(), 3);
    assert_eq!(r.page_size(), 30);
    assert_eq!(r.total_lines(), 100);
    assert!(r.can_display());
    assert_eq!(r.page_window(), (90, 100));
    assert_eq!(r.cli_page_count(), 4);
    assert_eq!(r.tui_page_count(), 4);
}

#[test]
fn reader_turns_pages_within_book() {
    let mut r = Reader::open(0, 30, 100, CLI_MAX_PAGE_SIZE);
    assert_eq!(r.step(ReaderCommand::PrevPage), ReaderOutcome::Continue);
    assert_eq!(r.page(), 0);
    for _ in 0..10 {
        assert_eq!(r.step(ReaderCommand::NextPage), ReaderOutcome::Continue);
    }
    assert_eq!(r.page(), 3);
    assert_eq!(r.step(ReaderCommand::PrevPage), ReaderOutcome::Continue);
    assert_eq!(r.page(), 2);
    assert_eq!(r.page_window(), (60, 90));
}

#[test]
fn reader_resizes_between_twenty_and_maximum() {
    let mut r = Reader::open(0, 30, 1000, CLI_MAX_PAGE_SIZE);
    assert_eq!(r.step(ReaderCommand::FewerLines), ReaderOutcome::PageSizeChanged(25));
    assert_eq!(r.step(ReaderCommand::FewerLines), ReaderOutcome::PageSizeChanged(20));
    assert_eq!(r.step(ReaderCommand::FewerLines), ReaderOutcome::Continue);
    assert_eq!(r.page_size(), 20);
    for _ in 0..8 {
        r.step(ReaderCommand::MoreLines);
    }
    assert_eq!(r.page_size(), 60);
    let mut t = Reader::open_tui(0, 75, 1000, TUI_MAX_PAGE_SIZE);
    assert_eq!(t.step(ReaderCommand::MoreLines), ReaderOutcome::PageSizeChanged(80));
    assert_eq!(t.step(ReaderCommand::MoreLines), ReaderOutcome::Continue);
}

#[test]
fn reader_resizes_only_within_bounds() {
    let mut r = Reader::open(0, 22, 1000, CLI_MAX_PAGE_SIZE);
    assert_eq!(r.step(ReaderCommand::FewerLines), ReaderOutcome::Continue);
    assert_eq!(r.page_size(), 22);
    let mut g = Reader::open(0, 58, 1000, CLI_MAX_PAGE_SIZE);
    assert_eq!(g.step(ReaderCommand::MoreLines), ReaderOutcome::Continue);
    assert_eq!(g.page_size(), 58);
    assert_eq!(g.step(ReaderCommand::FewerLines), ReaderOutcome::PageSizeChanged(53));
    let mut small = Reader::open(0, 10, 1000, CLI_MAX_PAGE_SIZE);
    assert_eq!(small.step(ReaderCommand::FewerLines), ReaderOutcome::Continue);
    assert_eq!(small.step(ReaderCommand::MoreLines), ReaderOutcome::PageSizeChanged(15));
}

#[test]
fn terminal_ui_reader_resizes_while_between_bounds() {
    let mut r = Reader::open_tui(0, 22, 1000, TUI_MAX_PAGE_SIZE);
    assert_eq!(r.step(ReaderCommand::FewerLines), ReaderOutcome::PageSizeChanged(17));
    assert_eq!(r.step(ReaderCommand::FewerLines), ReaderOutcome::Continue);
    let mut g = Reader::open_tui(0, 78, 1000, TUI_MAX_PAGE_SIZE);
    assert_eq!(g.step(ReaderCommand::MoreLines), ReaderOutcome::PageSizeChanged(83));
    assert_eq!(g.step(ReaderCommand::MoreLines), ReaderOutcome::Continue);
}

#[test]
fn reader_quit_saves_position_that_resumes() {
    let mut r = Reader::open(0, 30, 100, CLI_MAX_PAGE_SIZE);
    r.step(ReaderCommand::NextPage);
    r.step(ReaderCommand::NextPage);
    let out = r.step(ReaderCommand::Quit);
    assert_eq!(out, ReaderOutcome::Exit(60));
    assert_eq!(r.page(), 2);
    assert_eq!(calculate_start_page(60, 30, 100), 2);
}

#[test]
fn growing_on_last_page_can_leave_the_book() {
    let mut r = Reader::open(100, 30, 100, CLI_MAX_PAGE_SIZE);
    assert_eq!(r.page(), 3);
    r.step(ReaderCommand::MoreLines);
    assert!(!r.can_display());
}

#[test]
fn empty_book_reader_stays_on_first_page() {
    let mut r = Reader::open(500, 30, 0, CLI_MAX_PAGE_SIZE);
    assert_eq!(r.page(), 0);
    r.step(ReaderCommand::NextPage);
    assert_eq!(r.page(), 0);
    assert_eq!(r.page_window(), (0, 0));
    assert_eq!(r.cli_page_count(), 1);
    assert_eq!(r.tui_page_count(), 0);
}

fn decode(bytes: &[Option<u8>]) -> ReaderCommand {
    let mut state = KeyScan::Start;
    for b in bytes {
        match scan_key_byte(state, *b) {
            KeyStep::Done(c) => return c,
            KeyStep::More(s) => state = s,
        }
    }
    panic!("key not finished");
}

#[test]
fn raw_keys_decode_to_commands() {
    assert_eq!(decode(&[Some(b'j')]), ReaderCommand::NextPage);
    assert_eq!(decode(&[Some(b'J')]), ReaderCommand::NextPage);
    assert_eq!(decode(&[Some(b' ')]), ReaderCommand::NextPage);
    assert_eq!(decode(&[Some(10)]), ReaderCommand::NextPage);
    assert_eq!(decode(&[Some(b'K')]), ReaderCommand::PrevPage);
    assert_eq!(decode(&[Some(b'h')]), ReaderCommand::FewerLines);
    assert_eq!(decode(&[Some(b'L')]), ReaderCommand::MoreLines);
    assert_eq!(decode(&[Some(b'q')]), ReaderCommand::Quit);
    assert_eq!(decode(&[Some(b'x')]), ReaderCommand::Ignore);
    assert_eq!(decode(&[None]), ReaderCommand::Ignore);
    assert_eq!(decode(&[Some(27), Some(91), Some(65)]), ReaderCommand::PrevPage);
    assert_eq!(decode(&[Some(27), Some(91), Some(66)]), ReaderCommand::NextPage);
    assert_eq!(decode(&[Some(27), Some(91), Some(67)]), ReaderCommand::Quit);
    assert_eq!(decode(&[Some(27), Some(0)]), ReaderCommand::Quit);
    assert_eq!(decode(&[Some(27), None]), ReaderCommand::Quit);
}

#[test]
fn enter_and_space_turn_the_page() {
    assert_eq!(line_command("\n"), ReaderCommand::NextPage);
    assert_eq!(line_command("   \n"), ReaderCommand::NextPage);
    assert_eq!(line_command(""), ReaderCommand::NextPage);
}

#[test]
fn trimming_matches_str_trim() {
    for s in ["  a b \t\n", "\u{3000}x\u{2009}", "\u{85}\u{a0}y\u{200b}", "", "  ", "\u{feff}z"] {
        assert_eq!(trim_text(s), s.trim());
    }
}

#[test]
fn typed_lines_decode_to_commands() {
    assert_eq!(line_command("  J \n"), ReaderCommand::NextPage);
    assert_eq!(line_command("ENTER\n"), ReaderCommand::NextPage);
    assert_eq!(line_command("↓"), ReaderCommand::NextPage);
    assert_eq!(line_command("k\n"), ReaderCommand::PrevPage);
    assert_eq!(line_command("H"), ReaderCommand::FewerLines);
    assert_eq!(line_command("l"), ReaderCommand::MoreLines);
    assert_eq!(line_command("Esc\n"), ReaderCommand::Quit);
    assert_eq!(line_command("q"), ReaderCommand::Quit);
    assert_eq!(line_command("jj"), ReaderCommand::Ignore);
    assert_eq!(line_command("x\n"), ReaderCommand::Ignore);
    assert_eq!(input_command(" "), ReaderCommand::NextPage);
    assert_eq!(input_command(""), ReaderCommand::NextPage);
    assert_eq!(input_command("J"), ReaderCommand::Ignore);
}
