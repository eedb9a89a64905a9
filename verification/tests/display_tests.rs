use mofish::display::{progress_bar, repeat_char, shorten_title};

// The bar cell count is rounded from the fraction as the list does it.
fn cells(progress: f64) -> usize {
    (progress * 10.0).round() as usize
}

#[test]
fn test_draw_progress_bar_empty() {
    let bar = progress_bar(cells(0.0), 10);
    assert_eq!(bar, "░░░░░░░░░░");
}

#[test]
fn test_draw_progress_bar_full() {
    let bar = progress_bar(cells(1.0), 10);
    assert_eq!(bar, "██████████");
}

#[test]
fn test_draw_progress_bar_half() {
    let bar = progress_bar(cells(0.5), 10);
    // 5 filled, 5 empty
    assert!(bar.contains("█████"));
    assert!(bar.contains("░░░░░"));
}

#[test]
fn test_draw_progress_bar_partial_filled() {
    let bar = progress_bar(cells(0.3), 10);
    // Should have 3 filled blocks (0.3 * 10 = 3)
    assert!(bar.starts_with("███"));
}

#[test]
fn wide_bar_has_forty_cells() {
    let bar = progress_bar(10, 40);
    assert_eq!(bar.chars().count(), 40);
    assert_eq!(bar.chars().filter(|c| *c == '█').count(), 10);
    assert_eq!(repeat_char('x', 3), "xxx");
    assert_eq!(repeat_char('x', 0), "");
}

#[test]
fn long_titles_are_cut_at_byte_count() {
    let short = "Short title";
    assert_eq!(shorten_title(short, 36, 33), "Short title");
    let long = "A very long title that does not fit the column";
    assert_eq!(shorten_title(long, 36, 33), "A very long title that does not f...");
    // Eleven three-byte characters make 33 bytes.
    let cjk = "一二三四五六七八九十百千万";
    assert_eq!(shorten_title(cjk, 36, 33), "一二三四五六七八九十百...");
    assert_eq!(shorten_title(long, 40, 37), "A very long title that does not fit t...");
}

#[test]
fn shortened_titles_fit_their_column() {
    for title in ["Short", "A very long title that does not fit the column", "一二三四五六七八九十百千万"] {
        assert!(shorten_title(title, 36, 33).len() <= 36);
        assert!(shorten_title(title, 40, 37).len() <= 40);
    }
}
