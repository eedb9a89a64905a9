use vstd::prelude::*;
use vstd::utf8::is_ascii_chars;

verus! {

/// The largest page size that the command-line reader grows to.
pub const CLI_MAX_PAGE_SIZE: usize = 60;

/// The largest page size that the terminal-UI reader grows to.
pub const TUI_MAX_PAGE_SIZE: usize = 80;

/// The smallest page size that the reader shrinks to.
pub const MIN_PAGE_SIZE: usize = 20;

/// How many lines one resize adds or removes.
pub const PAGE_SIZE_STEP: usize = 5;

/// The page on which reading starts, from a saved position.
pub open spec fn start_page_spec(position: i64, page_size: usize, total_lines: usize) -> usize {
    if total_lines == 0 {
        0
    } else {
        let saved = (position as usize) / page_size;
        let last = total_lines / page_size;
        if saved <= last {
            saved
        } else {
            last
        }
    }
}

/// The page on which reading starts: the page that holds the saved position
/// (taken as an unsigned line number), but no further than page
/// `total_lines / page_size`; page 0 for a book without lines.
pub fn calculate_start_page(position: i64, page_size: usize, total_lines: usize) -> (page: usize)
    requires
        total_lines == 0 || page_size > 0,
    ensures
        page == start_page_spec(position, page_size, total_lines),
        total_lines > 0 ==> page <= total_lines / page_size,
        total_lines > 0 ==> page * page_size <= position as usize,
        total_lines > 0 ==> page * page_size <= total_lines,
        total_lines > 0 ==> (position as usize) < (page + 1) * page_size || total_lines < (page
            + 1) * page_size,
        total_lines > 0 && (position as usize) / page_size <= total_lines / page_size ==> page
            == (position as usize) / page_size && (position as usize) < (page + 1) * page_size,
        total_lines > 0 && (position as usize) / page_size > total_lines / page_size ==> page
            == total_lines / page_size,
{
    if total_lines == 0 {
        return 0;
    }
    proof {
        lemma_start_page_holds_position(position, page_size, total_lines);
    }
    let saved = (position as usize) / page_size;
    let last = total_lines / page_size;
    if saved <= last {
        saved
    } else {
        last
    }
}

/// What a key press asks of the reader.
#[derive(Debug, Clone, Copy, PartialEq, Eq, Structural)]
pub enum ReaderCommand {
    /// Turn to the next page.
    NextPage,
    /// Turn to the previous page.
    PrevPage,
    /// Show five lines fewer per page, when at least 20 remain.
    FewerLines,
    /// Show five lines more per page, up to the reader's maximum.
    MoreLines,
    /// Leave the reader, saving the position.
    Quit,
    /// Do nothing.
    Ignore,
}

/// What the reader answers a command with.
#[derive(Debug, Clone, Copy, PartialEq, Eq, Structural)]
pub enum ReaderOutcome {
    /// Keep reading.
    Continue,
    /// Keep reading; the page size changed to the given number of lines.
    PageSizeChanged(usize),
    /// Leave the reader and save the given line position.
    Exit(usize),
}

/// How a reader resizes its pages.
#[derive(Debug, Clone, Copy, PartialEq, Eq, Structural)]
pub enum ResizeRule {
    /// Shrink by five only when at least 20 lines remain; grow by five only
    /// when the result is at most the maximum (the command-line reader).
    WithinBounds,
    /// Shrink by five while above 20 lines; grow by five while below the
    /// maximum (the terminal-UI reader).
    WhileBetween,
}

/// The reader's state as numbers.
pub struct ReaderState {
    pub page: nat,
    pub page_size: nat,
    pub total_lines: nat,
    pub max_page_size: nat,
    pub rule: ResizeRule,
}

/// A paged reader over a book of `total_lines` lines.
pub struct Reader {
    page: usize,
    page_size: usize,
    total_lines: usize,
    max_page_size: usize,
    rule: ResizeRule,
}

impl View for Reader {
    type V = ReaderState;

    closed spec fn view(&self) -> ReaderState {
        ReaderState {
            page: self.page as nat,
            page_size: self.page_size as nat,
            total_lines: self.total_lines as nat,
            max_page_size: self.max_page_size as nat,
            rule: self.rule,
        }
    }
}

/// The state a reader may be in: a positive page size, a line count that a
/// vector can hold, room to grow the page size, and a page no greater than
/// the line count.
pub open spec fn reader_state_wf(s: ReaderState) -> bool {
    &&& 1 <= s.page_size <= usize::MAX
    &&& s.total_lines <= isize::MAX
    &&& s.max_page_size + PAGE_SIZE_STEP <= usize::MAX
    &&& s.page <= s.total_lines
}

/// The first line of the current page lies within the book, so that the
/// page can be shown.
pub open spec fn can_display(s: ReaderState) -> bool {
    s.page * s.page_size <= s.total_lines
}

/// The number of the last page that "next page" turns to.
pub open spec fn last_page(s: ReaderState) -> nat {
    s.total_lines / s.page_size
}

/// Whether "fewer lines" shrinks the page in state `s`.
pub open spec fn can_shrink(s: ReaderState) -> bool {
    match s.rule {
        ResizeRule::WithinBounds => s.page_size >= MIN_PAGE_SIZE + PAGE_SIZE_STEP,
        ResizeRule::WhileBetween => s.page_size > MIN_PAGE_SIZE,
    }
}

/// Whether "more lines" grows the page in state `s`.
pub open spec fn can_grow(s: ReaderState) -> bool {
    match s.rule {
        ResizeRule::WithinBounds => s.page_size + PAGE_SIZE_STEP <= s.max_page_size,
        ResizeRule::WhileBetween => s.page_size < s.max_page_size,
    }
}

/// The state after `cmd`.
pub open spec fn step_state(s: ReaderState, cmd: ReaderCommand) -> ReaderState {
    match cmd {
        ReaderCommand::NextPage => if s.page < last_page(s) {
            ReaderState { page: s.page + 1, ..s }
        } else {
            s
        },
        ReaderCommand::PrevPage => if s.page > 0 {
            ReaderState { page: (s.page - 1) as nat, ..s }
        } else {
            s
        },
        ReaderCommand::FewerLines => if can_shrink(s) {
            ReaderState { page_size: (s.page_size - PAGE_SIZE_STEP) as nat, ..s }
        } else {
            s
        },
        ReaderCommand::MoreLines => if can_grow(s) {
            ReaderState { page_size: (s.page_size + PAGE_SIZE_STEP) as nat, ..s }
        } else {
            s
        },
        ReaderCommand::Quit => s,
        ReaderCommand::Ignore => s,
    }
}

/// The answer to `cmd` in state `s`.
pub open spec fn step_outcome(s: ReaderState, cmd: ReaderCommand) -> ReaderOutcome {
    match cmd {
        ReaderCommand::FewerLines => if can_shrink(s) {
            ReaderOutcome::PageSizeChanged((s.page_size - PAGE_SIZE_STEP) as usize)
        } else {
            ReaderOutcome::Continue
        },
        ReaderCommand::MoreLines => if can_grow(s) {
            ReaderOutcome::PageSizeChanged((s.page_size + PAGE_SIZE_STEP) as usize)
        } else {
            ReaderOutcome::Continue
        },
        ReaderCommand::Quit => ReaderOutcome::Exit((s.page * s.page_size) as usize),
        _ => ReaderOutcome::Continue,
    }
}

proof fn lemma_page_times_size_bound(page: nat, page_size: nat, total: nat)
    requires
        page_size >= 1,
        page <= total / page_size,
    ensures
        page * page_size <= total,
{
    assert(page * page_size <= (total / page_size) * page_size) by (nonlinear_arith)
        requires
            page <= total / page_size,
            page_size >= 1,
    ;
    assert((total / page_size) * page_size <= total) by (nonlinear_arith)
        requires
            page_size >= 1,
    ;
}

impl Reader {
    #[verifier::type_invariant]
    closed spec fn inv(&self) -> bool {
        reader_state_wf(self@)
    }

    /// Opens a book of `total_lines` lines at the page that holds the saved
    /// `position`, with pages of `page_size` lines resized by `rule` up to
    /// `max_page_size`.
    fn open_with(
        position: i64,
        page_size: usize,
        total_lines: usize,
        max_page_size: usize,
        rule: ResizeRule,
    ) -> (r: Reader)
        requires
            page_size > 0,
            total_lines <= isize::MAX,
            max_page_size <= usize::MAX - PAGE_SIZE_STEP,
        ensures
            r@ == (ReaderState {
                page: start_page_spec(position, page_size, total_lines) as nat,
                page_size: page_size as nat,
                total_lines: total_lines as nat,
                max_page_size: max_page_size as nat,
                rule,
            }),
            reader_state_wf(r@),
            can_display(r@),
    {
        let page = calculate_start_page(position, page_size, total_lines);
        proof {
            if total_lines > 0 {
                lemma_page_times_size_bound(page as nat, page_size as nat, total_lines as nat);
                assert(page <= total_lines) by (nonlinear_arith)
                    requires
                        page * page_size <= total_lines,
                        page_size >= 1,
                ;
            } else {
                assert(page == 0);
                assert(page * page_size == 0) by (nonlinear_arith)
                    requires
                        page == 0,
                ;
            }
        }
        Reader { page, page_size, total_lines, max_page_size, rule }
    }

    /// Opens a book for the command-line reader: at the page that holds the
    /// saved `position`, with pages of `page_size` lines that shrink to no
    /// fewer than 20 lines and grow to no more than `max_page_size`.
    pub fn open(position: i64, page_size: usize, total_lines: usize, max_page_size: usize) -> (r:
        Reader)
        requires
            page_size > 0,
            total_lines <= isize::MAX,
            max_page_size <= usize::MAX - PAGE_SIZE_STEP,
        ensures
            r@ == (ReaderState {
                page: start_page_spec(position, page_size, total_lines) as nat,
                page_size: page_size as nat,
                total_lines: total_lines as nat,
                max_page_size: max_page_size as nat,
                rule: ResizeRule::WithinBounds,
            }),
            reader_state_wf(r@),
            can_display(r@),
    {
        Reader::open_with(position, page_size, total_lines, max_page_size, ResizeRule::WithinBounds)
    }

    /// Opens a book for the terminal-UI reader: at the page that holds the
    /// saved `position`, with pages of `page_size` lines that shrink by five
    /// while above 20 lines and grow by five while below `max_page_size`.
    pub fn open_tui(position: i64, page_size: usize, total_lines: usize, max_page_size: usize) -> (r:
        Reader)
        requires
            page_size > 0,
            total_lines <= isize::MAX,
            max_page_size <= usize::MAX - PAGE_SIZE_STEP,
        ensures
            r@ == (ReaderState {
                page: start_page_spec(position, page_size, total_lines) as nat,
                page_size: page_size as nat,
                total_lines: total_lines as nat,
                max_page_size: max_page_size as nat,
                rule: ResizeRule::WhileBetween,
            }),
            reader_state_wf(r@),
            can_display(r@),
    {
        Reader::open_with(position, page_size, total_lines, max_page_size, ResizeRule::WhileBetween)
    }

    /// The current page, counted from 0.
    pub fn page(&self) -> (p: usize)
        ensures
            p == self@.page,
    {
        self.page
    }

    /// The number of lines per page.
    pub fn page_size(&self) -> (n: usize)
        ensures
            n == self@.page_size,
    {
        self.page_size
    }

    /// The number of lines of the book.
    pub fn total_lines(&self) -> (n: usize)
        ensures
            n == self@.total_lines,
    {
        self.total_lines
    }

    /// Whether the current page can be shown (see `can_display`).
    pub fn can_display(&self) -> (b: bool)
        ensures
            b == can_display(self@),
    {
        proof {
            use_type_invariant(self);
        }
        match self.page.checked_mul(self.page_size) {
            Some(start) => start <= self.total_lines,
            None => false,
        }
    }

    /// Answers one command: turns the page, resizes the page, or, on `Quit`,
    /// gives the line position to save (page times page size).
    pub fn step(&mut self, cmd: ReaderCommand) -> (out: ReaderOutcome)
        requires
            can_display(old(self)@),
        ensures
            final(self)@ == step_state(old(self)@, cmd),
            out == step_outcome(old(self)@, cmd),
            reader_state_wf(final(self)@),
            cmd == ReaderCommand::Ignore ==> final(self)@ == old(self)@ && out
                == ReaderOutcome::Continue,
            cmd == ReaderCommand::Quit ==> final(self)@ == old(self)@,
            cmd != ReaderCommand::NextPage && cmd != ReaderCommand::PrevPage ==> final(self)@.page
                == old(self)@.page,
    {
        proof {
            use_type_invariant(&*self);
        }
        match cmd {
            ReaderCommand::NextPage => {
                if self.page < self.total_lines / self.page_size {
                    proof {
                        assert(self.page + 1 <= self.total_lines) by (nonlinear_arith)
                            requires
                                self.page < self.total_lines / self.page_size,
                                self.page_size >= 1,
                        ;
                    }
                    self.page = self.page + 1;
                }
                ReaderOutcome::Continue
            },
            ReaderCommand::PrevPage => {
                if self.page > 0 {
                    self.page = self.page - 1;
                }
                ReaderOutcome::Continue
            },
            ReaderCommand::FewerLines => {
                let shrink = match self.rule {
                    ResizeRule::WithinBounds => self.page_size >= MIN_PAGE_SIZE + PAGE_SIZE_STEP,
                    ResizeRule::WhileBetween => self.page_size > MIN_PAGE_SIZE,
                };
                if shrink {
                    self.page_size = self.page_size - PAGE_SIZE_STEP;
                    ReaderOutcome::PageSizeChanged(self.page_size)
                } else {
                    ReaderOutcome::Continue
                }
            },
            ReaderCommand::MoreLines => {
                let grow = match self.rule {
                    ResizeRule::WithinBounds => self.max_page_size >= PAGE_SIZE_STEP
                        && self.page_size <= self.max_page_size - PAGE_SIZE_STEP,
                    ResizeRule::WhileBetween => self.page_size < self.max_page_size,
                };
                if grow {
                    self.page_size = self.page_size + PAGE_SIZE_STEP;
                    ReaderOutcome::PageSizeChanged(self.page_size)
                } else {
                    ReaderOutcome::Continue
                }
            },
            ReaderCommand::Quit => ReaderOutcome::Exit(self.page * self.page_size),
            ReaderCommand::Ignore => ReaderOutcome::Continue,
        }
    }

    /// The lines shown on the current page: from `page * page_size` up to
    /// `page_size` lines further, cut at the end of the book.
    pub fn page_window(&self) -> (w: (usize, usize))
        requires
            can_display(self@),
        ensures
            w.0 == self@.page * self@.page_size,
            w.1 == if w.0 + self@.page_size <= self@.total_lines {
                w.0 + self@.page_size
            } else {
                self@.total_lines as int
            },
    {
        proof {
            use_type_invariant(self);
        }
        let start = self.page * self.page_size;
        proof {
            if self.page > 0 {
                assert(self.page_size <= start) by (nonlinear_arith)
                    requires
                        self.page >= 1,
                        start == self.page * self.page_size,
                ;
            } else {
                assert(start == 0) by (nonlinear_arith)
                    requires
                        self.page == 0,
                        start == self.page * self.page_size,
                ;
            }
        }
        let end = if start + self.page_size <= self.total_lines {
            start + self.page_size
        } else {
            self.total_lines
        };
        (start, end)
    }

    /// The page count shown by the command-line reader:
    /// `total_lines / page_size + 1`.
    pub fn cli_page_count(&self) -> (n: usize)
        ensures
            n == self@.total_lines / self@.page_size + 1,
    {
        proof {
            use_type_invariant(self);
        }
        self.total_lines / self.page_size + 1
    }

    /// The page count shown by the terminal-UI reader: the number of pages
    /// needed to hold every line, `total_lines / page_size` rounded up.
    pub fn tui_page_count(&self) -> (n: usize)
        ensures
            n == self@.total_lines / self@.page_size + if self@.total_lines % self@.page_size > 0 {
                1int
            } else {
                0int
            },
    {
        proof {
            use_type_invariant(self);
        }
        let full = self.total_lines / self.page_size;
        if self.total_lines % self.page_size > 0 {
            full + 1
        } else {
            full
        }
    }
}

// ---------------------------------------------------------------------------
// Laws of the reader
// ---------------------------------------------------------------------------

/// Reading resumes where it stopped: the position saved on leaving a page
/// that can be shown leads back, with the same page size and book, to that
/// same page.
pub proof fn lemma_resume_at_saved_page(s: ReaderState)
    requires
        reader_state_wf(s),
        can_display(s),
    ensures
        step_outcome(s, ReaderCommand::Quit) == ReaderOutcome::Exit((s.page * s.page_size) as usize),
        start_page_spec(
            (s.page * s.page_size) as i64,
            s.page_size as usize,
            s.total_lines as usize,
        ) == s.page,
{
    let pos = s.page * s.page_size;
    assert(pos <= isize::MAX);
    assert((pos as i64) as usize == pos);
    assert(pos / s.page_size == s.page) by (nonlinear_arith)
        requires
            pos == s.page * s.page_size,
            s.page_size >= 1,
    ;
    if s.total_lines > 0 {
        assert(s.page <= s.total_lines / s.page_size) by (nonlinear_arith)
            requires
                s.page * s.page_size <= s.total_lines,
                s.page_size >= 1,
        ;
    } else {
        assert(s.page == 0) by (nonlinear_arith)
            requires
                s.page * s.page_size <= 0,
                s.page_size >= 1,
        ;
    }
}

/// Turning back undoes turning forward: when there is a next page, going to
/// it and then to the previous page returns to the same state.
pub proof fn lemma_prev_undoes_next(s: ReaderState)
    requires
        reader_state_wf(s),
        s.page < last_page(s),
    ensures
        step_state(step_state(s, ReaderCommand::NextPage), ReaderCommand::PrevPage) == s,
{
}

/// Turning pages, shrinking pages, quitting and ignored keys keep the current
/// page showable; only growing the page size can move its first line past
/// the end of the book.
pub proof fn lemma_commands_keep_page_showable(s: ReaderState, cmd: ReaderCommand)
    requires
        reader_state_wf(s),
        can_display(s),
        cmd != ReaderCommand::MoreLines,
    ensures
        can_display(step_state(s, cmd)),
{
    match cmd {
        ReaderCommand::NextPage => {
            if s.page < last_page(s) {
                lemma_page_times_size_bound(s.page + 1, s.page_size, s.total_lines);
            }
        },
        ReaderCommand::PrevPage => {
            if s.page > 0 {
                assert((s.page - 1) * s.page_size <= s.page * s.page_size) by (nonlinear_arith)
                    requires
                        s.page >= 1,
                ;
            }
        },
        ReaderCommand::FewerLines => {
            if can_shrink(s) {
                assert(s.page * (s.page_size - PAGE_SIZE_STEP) <= s.page * s.page_size)
                    by (nonlinear_arith)
                    requires
                        s.page_size >= PAGE_SIZE_STEP,
                ;
            }
        },
        _ => {},
    }
}

/// The command-line reader's page sizes stay between 20 lines and its
/// maximum: "fewer lines" shrinks by five only when the result is at least
/// 20, "more lines" grows by five only when the result is at most the
/// maximum, so a page size within those bounds stays within them, whatever
/// the command.
pub proof fn lemma_page_size_stays_in_bounds(s: ReaderState, cmd: ReaderCommand)
    requires
        s.rule == ResizeRule::WithinBounds,
        MIN_PAGE_SIZE <= s.page_size <= s.max_page_size,
    ensures
        MIN_PAGE_SIZE <= step_state(s, cmd).page_size <= s.max_page_size,
        step_state(s, cmd).max_page_size == s.max_page_size,
        step_state(s, cmd).rule == s.rule,
{
}

/// The state after a sequence of commands, taken in order.
pub open spec fn run_commands(s: ReaderState, cmds: Seq<ReaderCommand>) -> ReaderState
    decreases cmds.len(),
{
    if cmds.len() == 0 {
        s
    } else {
        step_state(run_commands(s, cmds.drop_last()), cmds.last())
    }
}

/// After any sequence of commands, the command-line reader's page size is
/// still between 20 lines and its maximum, when it started there.
pub proof fn lemma_page_size_stays_in_bounds_after_commands(
    s: ReaderState,
    cmds: Seq<ReaderCommand>,
)
    requires
        s.rule == ResizeRule::WithinBounds,
        MIN_PAGE_SIZE <= s.page_size <= s.max_page_size,
    ensures
        MIN_PAGE_SIZE <= run_commands(s, cmds).page_size <= s.max_page_size,
        run_commands(s, cmds).max_page_size == s.max_page_size,
        run_commands(s, cmds).rule == s.rule,
    decreases cmds.len(),
{
    if cmds.len() > 0 {
        lemma_page_size_stays_in_bounds_after_commands(s, cmds.drop_last());
        lemma_page_size_stays_in_bounds(run_commands(s, cmds.drop_last()), cmds.last());
    }
}

/// The terminal-UI reader's page sizes stay between 20 lines and its
/// maximum when they move in steps of five: a page size that is a multiple
/// of five within those bounds stays a multiple of five within them, when
/// the maximum is itself a multiple of five.
pub proof fn lemma_tui_page_size_stays_in_bounds(s: ReaderState, cmd: ReaderCommand)
    requires
        s.rule == ResizeRule::WhileBetween,
        s.max_page_size % 5 == 0,
        s.page_size % 5 == 0,
        MIN_PAGE_SIZE <= s.page_size <= s.max_page_size,
    ensures
        step_state(s, cmd).page_size % 5 == 0,
        MIN_PAGE_SIZE <= step_state(s, cmd).page_size <= s.max_page_size,
{
}

/// A resize changes the page size by exactly five lines, or not at all.
pub proof fn lemma_resize_moves_by_one_step(s: ReaderState, cmd: ReaderCommand)
    requires
        reader_state_wf(s),
    ensures
        step_state(s, cmd).page_size == s.page_size
            || step_state(s, cmd).page_size == s.page_size + PAGE_SIZE_STEP
            || step_state(s, cmd).page_size + PAGE_SIZE_STEP == s.page_size,
{
}

/// "Next page" never goes past the last page.
pub proof fn lemma_next_stays_within_book(s: ReaderState)
    requires
        reader_state_wf(s),
        s.page <= last_page(s),
    ensures
        step_state(s, ReaderCommand::NextPage).page <= last_page(step_state(s, ReaderCommand::NextPage)),
{
}

// ---------------------------------------------------------------------------
// Reading commands from the terminal
// ---------------------------------------------------------------------------

/// Where the decoding of a key press from raw terminal bytes stands.
#[derive(Debug, Clone, Copy, PartialEq, Eq, Structural)]
pub enum KeyScan {
    /// No byte read yet.
    Start,
    /// An escape byte (27) was read.
    Escape,
    /// An escape byte and `[` (91) were read.
    EscapeBracket,
}

/// The result of feeding one byte to the key decoder.
#[derive(Debug, Clone, Copy, PartialEq, Eq, Structural)]
pub enum KeyStep {
    /// The key press is decoded.
    Done(ReaderCommand),
    /// Another byte is needed.
    More(KeyScan),
}

/// The decoding of one byte, or of a failed read (`None`), in a given state.
pub open spec fn scan_key_spec(state: KeyScan, byte: Option<u8>) -> KeyStep {
    match state {
        KeyScan::Start => match byte {
            None => KeyStep::Done(ReaderCommand::Ignore),
            Some(b) => if b == 27 {
                KeyStep::More(KeyScan::Escape)
            } else if b == 0x6a || b == 0x4a || b == 0x20 || b == 10 {
                KeyStep::Done(ReaderCommand::NextPage)
            } else if b == 0x6b || b == 0x4b {
                KeyStep::Done(ReaderCommand::PrevPage)
            } else if b == 0x68 || b == 0x48 {
                KeyStep::Done(ReaderCommand::FewerLines)
            } else if b == 0x6c || b == 0x4c {
                KeyStep::Done(ReaderCommand::MoreLines)
            } else if b == 0x71 || b == 0x51 {
                KeyStep::Done(ReaderCommand::Quit)
            } else {
                KeyStep::Done(ReaderCommand::Ignore)
            },
        },
        KeyScan::Escape => if byte == Some(91u8) {
            KeyStep::More(KeyScan::EscapeBracket)
        } else {
            KeyStep::Done(ReaderCommand::Quit)
        },
        KeyScan::EscapeBracket => if byte == Some(65u8) {
            KeyStep::Done(ReaderCommand::PrevPage)
        } else if byte == Some(66u8) {
            KeyStep::Done(ReaderCommand::NextPage)
        } else {
            KeyStep::Done(ReaderCommand::Quit)
        },
    }
}

/// Decodes raw terminal input one byte at a time. `j`, `J`, space and line
/// feed turn forward; `k` and `K` turn back; `h`/`H` and `l`/`L` shrink and
/// grow the page; `q` and `Q` quit. An escape byte starts a sequence: `ESC [
/// A` (up arrow) turns back, `ESC [ B` (down arrow) turns forward, and any
/// other continuation, or a failed read within it, quits. A failed first
/// read, and any other byte, does nothing.
pub fn scan_key_byte(state: KeyScan, byte: Option<u8>) -> (step: KeyStep)
    ensures
        step == scan_key_spec(state, byte),
        state == KeyScan::Start ==> (byte == Some(0x6au8) || byte == Some(0x4au8) || byte == Some(
            0x20u8,
        ) || byte == Some(0x0au8) <==> step == KeyStep::Done(ReaderCommand::NextPage)),
        state == KeyScan::Start ==> (byte == Some(0x6bu8) || byte == Some(0x4bu8) <==> step
            == KeyStep::Done(ReaderCommand::PrevPage)),
        state == KeyScan::Start ==> (byte == Some(0x68u8) || byte == Some(0x48u8) <==> step
            == KeyStep::Done(ReaderCommand::FewerLines)),
        state == KeyScan::Start ==> (byte == Some(0x6cu8) || byte == Some(0x4cu8) <==> step
            == KeyStep::Done(ReaderCommand::MoreLines)),
        state == KeyScan::Start ==> (byte == Some(0x71u8) || byte == Some(0x51u8) <==> step
            == KeyStep::Done(ReaderCommand::Quit)),
        state == KeyScan::Start ==> (byte == Some(0x1bu8) <==> step == KeyStep::More(
            KeyScan::Escape,
        )),
        state == KeyScan::Escape ==> (byte == Some(0x5bu8) <==> step == KeyStep::More(
            KeyScan::EscapeBracket,
        )),
        state == KeyScan::Escape && byte != Some(0x5bu8) ==> step == KeyStep::Done(
            ReaderCommand::Quit,
        ),
        state == KeyScan::EscapeBracket && byte == Some(0x41u8) ==> step == KeyStep::Done(
            ReaderCommand::PrevPage,
        ),
        state == KeyScan::EscapeBracket && byte == Some(0x42u8) ==> step == KeyStep::Done(
            ReaderCommand::NextPage,
        ),
        state == KeyScan::EscapeBracket && byte != Some(0x41u8) && byte != Some(0x42u8) ==> step
            == KeyStep::Done(ReaderCommand::Quit),
{
    match state {
        KeyScan::Start => match byte {
            None => KeyStep::Done(ReaderCommand::Ignore),
            Some(b) => if b == 27 {
                KeyStep::More(KeyScan::Escape)
            } else if b == 0x6a || b == 0x4a || b == 0x20 || b == 10 {
                KeyStep::Done(ReaderCommand::NextPage)
            } else if b == 0x6b || b == 0x4b {
                KeyStep::Done(ReaderCommand::PrevPage)
            } else if b == 0x68 || b == 0x48 {
                KeyStep::Done(ReaderCommand::FewerLines)
            } else if b == 0x6c || b == 0x4c {
                KeyStep::Done(ReaderCommand::MoreLines)
            } else if b == 0x71 || b == 0x51 {
                KeyStep::Done(ReaderCommand::Quit)
            } else {
                KeyStep::Done(ReaderCommand::Ignore)
            },
        },
        KeyScan::Escape => match byte {
            Some(91u8) => KeyStep::More(KeyScan::EscapeBracket),
            _ => KeyStep::Done(ReaderCommand::Quit),
        },
        KeyScan::EscapeBracket => match byte {
            Some(65u8) => KeyStep::Done(ReaderCommand::PrevPage),
            Some(66u8) => KeyStep::Done(ReaderCommand::NextPage),
            _ => KeyStep::Done(ReaderCommand::Quit),
        },
    }
}

/// A key press is decoded within three bytes: the decoder asks for another
/// byte only after an escape byte, and after `ESC [` it always finishes.
pub proof fn lemma_key_decoding_ends(b1: Option<u8>, b2: Option<u8>, b3: Option<u8>)
    ensures
        scan_key_spec(KeyScan::EscapeBracket, b3) is Done,
        scan_key_spec(KeyScan::Start, b1) is More ==> b1 == Some(27u8),
        scan_key_spec(KeyScan::Escape, b2) is More ==> b2 == Some(91u8),
{
}

// ---------------------------------------------------------------------------
// Reading commands typed as lines
// ---------------------------------------------------------------------------

/// Whether `c` has the Unicode White_Space property, the whitespace that
/// `str::trim` removes: U+0009 to U+000D, U+0020, U+0085, U+00A0, U+1680,
/// U+2000 to U+200A, U+2028, U+2029, U+202F, U+205F and U+3000.
pub open spec fn is_white_space(c: char) -> bool {
    let u = c as u32;
    ||| (0x9 <= u && u <= 0xD)
    ||| u == 0x20
    ||| u == 0x85
    ||| u == 0xA0
    ||| u == 0x1680
    ||| (0x2000 <= u && u <= 0x200A)
    ||| u == 0x2028
    ||| u == 0x2029
    ||| u == 0x202F
    ||| u == 0x205F
    ||| u == 0x3000
}

/// `s` without its leading whitespace.
pub open spec fn trim_start_spec(s: Seq<char>) -> Seq<char>
    decreases s.len(),
{
    if s.len() > 0 && is_white_space(s[0]) {
        trim_start_spec(s.drop_first())
    } else {
        s
    }
}

/// `s` without its trailing whitespace.
pub open spec fn trim_end_spec(s: Seq<char>) -> Seq<char>
    decreases s.len(),
{
    if s.len() > 0 && is_white_space(s.last()) {
        trim_end_spec(s.drop_last())
    } else {
        s
    }
}

/// `s` without leading and trailing whitespace, as `str::trim` gives it.
pub open spec fn trim_spec(s: Seq<char>) -> Seq<char> {
    trim_end_spec(trim_start_spec(s))
}

/// Whether `c` is white space (see `is_white_space`).
fn white_space(c: char) -> (b: bool)
    ensures
        b == is_white_space(c),
{
    let u = c as u32;
    (0x9 <= u && u <= 0xD) || u == 0x20 || u == 0x85 || u == 0xA0 || u == 0x1680 || (0x2000 <= u
        && u <= 0x200A) || u == 0x2028 || u == 0x2029 || u == 0x202F || u == 0x205F || u == 0x3000
}

/// `s` without leading and trailing whitespace.
pub fn trim_text(s: &str) -> (r: String)
    ensures
        r@ == trim_spec(s@),
{
    let cs = crate::text::chars_of(s);
    let n = cs.len();
    let mut i: usize = 0;
    assert(cs@.skip(0) =~= cs@);
    while i < n && white_space(cs[i])
        invariant
            n == cs@.len(),
            cs@ == s@,
            i <= n,
            trim_start_spec(s@) == trim_start_spec(cs@.skip(i as int)),
        decreases n - i,
    {
        assert(cs@.skip(i as int).drop_first() =~= cs@.skip(i + 1));
        i = i + 1;
    }
    let ghost t = cs@.skip(i as int);
    assert(trim_start_spec(t) == t) by {
        if i < n {
            assert(t[0] == cs@[i as int]);
        }
    }
    let mut j: usize = n;
    assert(cs@.subrange(i as int, n as int) =~= t);
    while j > i && white_space(cs[j - 1])
        invariant
            n == cs@.len(),
            i <= j <= n,
            trim_end_spec(t) == trim_end_spec(cs@.subrange(i as int, j as int)),
        decreases j - i,
    {
        assert(cs@.subrange(i as int, j as int).drop_last() =~= cs@.subrange(i as int, j - 1));
        j = j - 1;
    }
    let ghost u = cs@.subrange(i as int, j as int);
    assert(trim_end_spec(u) == u) by {
        if j > i {
            assert(u.last() == cs@[j - 1]);
        }
    }
    crate::text::string_from_chars(cs.as_slice().split_at(j).0.split_at(i).1)
}

/// `c` with an ASCII capital letter turned into its small letter.
pub open spec fn ascii_lower(c: char) -> char {
    if 'A' <= c && c <= 'Z' {
        ((c as u32) + 32) as char
    } else {
        c
    }
}

/// What `str::to_lowercase` gives for a text.
pub uninterp spec fn lowercased_text(s: Seq<char>) -> Seq<char>;

/// The lowercase form of a text: for ASCII text, each capital letter turned
/// into its small letter; for any other text, as `str::to_lowercase` says.
pub open spec fn lowercase_spec(s: Seq<char>) -> Seq<char> {
    if is_ascii_chars(s) {
        Seq::new(s.len(), |i: int| ascii_lower(s[i]))
    } else {
        lowercased_text(s)
    }
}

/// Calls `str::to_lowercase`. Its result is named `lowercased_text`; beside
/// the name, the contract states only that an ASCII text has each capital
/// letter turned into its small letter and nothing else changed (ASCII
/// letters' lowercase mappings, which the Unicode Lowercase mapping keeps).
#[verifier::external_body]
fn lowercase_text(s: &str) -> (r: String)
    ensures
        r@ == lowercased_text(s@),
        r@ == lowercase_spec(s@),
{
    s.to_lowercase()
}

/// Whether two texts are equal.
fn same_text(a: &str, b: &str) -> (r: bool)
    ensures
        r == (a@ == b@),
{
    let x = crate::text::chars_of(a);
    let y = crate::text::chars_of(b);
    if x.len() != y.len() {
        return false;
    }
    let mut i: usize = 0;
    while i < x.len()
        invariant
            x@ == a@,
            y@ == b@,
            x@.len() == y@.len(),
            i <= x@.len(),
            forall|k: int| 0 <= k < i ==> x@[k] == y@[k],
        decreases x@.len() - i,
    {
        if x[i] != y[i] {
            return false;
        }
        i = i + 1;
    }
    assert(x@ =~= y@);
    true
}

/// The command that a typed line asks for, once trimmed and lowercased.
pub open spec fn input_command_spec(t: Seq<char>) -> ReaderCommand {
    if t.len() == 0 || t == "j"@ || t == "↓"@ || t == " "@ || t == "enter"@ {
        ReaderCommand::NextPage
    } else if t == "k"@ || t == "↑"@ {
        ReaderCommand::PrevPage
    } else if t == "h"@ {
        ReaderCommand::FewerLines
    } else if t == "l"@ {
        ReaderCommand::MoreLines
    } else if t == "q"@ || t == "esc"@ {
        ReaderCommand::Quit
    } else {
        ReaderCommand::Ignore
    }
}

/// The command that a typed line asks for, given the line already trimmed
/// and lowercased: nothing (a bare Enter or a line of spaces), `j`, `↓`,
/// a space or `enter` turn forward; `k` or `↑`
/// turn back; `h` and `l` shrink and grow the page; `q` or `esc` quit;
/// anything else does nothing.
pub fn input_command(t: &str) -> (cmd: ReaderCommand)
    ensures
        cmd == input_command_spec(t@),
{
    if t.is_empty() || same_text(t, "j") || same_text(t, "↓") || same_text(t, " ") || same_text(t, "enter") {
        ReaderCommand::NextPage
    } else if same_text(t, "k") || same_text(t, "↑") {
        ReaderCommand::PrevPage
    } else if same_text(t, "h") {
        ReaderCommand::FewerLines
    } else if same_text(t, "l") {
        ReaderCommand::MoreLines
    } else if same_text(t, "q") || same_text(t, "esc") {
        ReaderCommand::Quit
    } else {
        ReaderCommand::Ignore
    }
}

/// The command that a line typed at the reader asks for: the line is
/// trimmed, lowercased, and then read as `input_command` reads it.
pub fn line_command(line: &str) -> (cmd: ReaderCommand)
    ensures
        cmd == input_command_spec(lowercase_spec(trim_spec(line@))),
{
    let trimmed = trim_text(line);
    let lowered = lowercase_text(trimmed.as_str());
    input_command(lowered.as_str())
}

// ---------------------------------------------------------------------------
// Laws stating what each command does
// ---------------------------------------------------------------------------

/// The start page is the page that holds the saved line, unless that page
/// lies past the last page, in which case it is the last page: its first line
/// is at or before both the saved line and the end of the book, and the next
/// page starts after the saved line or after the end of the book.
pub proof fn lemma_start_page_holds_position(position: i64, page_size: usize, total_lines: usize)
    requires
        page_size > 0,
        total_lines > 0,
    ensures
        ({
            let r = start_page_spec(position, page_size, total_lines) as int;
            let p = (position as usize) as int;
            &&& r * page_size <= p
            &&& r * page_size <= total_lines
            &&& (p < (r + 1) * page_size || total_lines < (r + 1) * page_size)
            &&& (p < (r + 1) * page_size ==> r == p / (page_size as int))
            &&& (p / (page_size as int) <= total_lines / page_size ==> r == p / (page_size as int)
                && p < (r + 1) * page_size)
            &&& (p / (page_size as int) > total_lines / page_size ==> r == total_lines / page_size)
        }),
{
    let r = start_page_spec(position, page_size, total_lines) as int;
    let p = (position as usize) as int;
    let ps = page_size as int;
    let t = total_lines as int;
    assert(p / ps * ps <= p && p < (p / ps + 1) * ps) by (nonlinear_arith)
        requires
            ps > 0,
            p >= 0,
    ;
    assert(t / ps * ps <= t && t < (t / ps + 1) * ps) by (nonlinear_arith)
        requires
            ps > 0,
            t >= 0,
    ;
    if p / ps <= t / ps {
        assert(r == p / ps);
        assert(r * ps <= t) by (nonlinear_arith)
            requires
                r <= t / ps,
                t / ps * ps <= t,
                ps > 0,
        ;
    } else {
        assert(r == t / ps);
        assert(r * ps <= p) by (nonlinear_arith)
            requires
                r < p / ps,
                p / ps * ps <= p,
                ps > 0,
        ;
        assert(p >= (r + 1) * ps) by (nonlinear_arith)
            requires
                r + 1 <= p / ps,
                p / ps * ps <= p,
                ps > 0,
        ;
    }
}

/// What each command does to the reader: only "next page" and "previous
/// page" move the page, each by exactly one within the book; only "fewer
/// lines" and "more lines" change the page size, each by five or not at all;
/// quitting and ignored keys change nothing; the book, the maximum and the
/// resize rule never change.
pub proof fn lemma_step_effects(s: ReaderState, cmd: ReaderCommand)
    requires
        reader_state_wf(s),
    ensures
        step_state(s, cmd).total_lines == s.total_lines,
        step_state(s, cmd).max_page_size == s.max_page_size,
        step_state(s, cmd).rule == s.rule,
        step_state(s, ReaderCommand::Ignore) == s,
        step_state(s, ReaderCommand::Quit) == s,
        (cmd != ReaderCommand::NextPage && cmd != ReaderCommand::PrevPage) ==> step_state(s, cmd).page
            == s.page,
        (cmd != ReaderCommand::FewerLines && cmd != ReaderCommand::MoreLines) ==> step_state(
            s,
            cmd,
        ).page_size == s.page_size,
        step_state(s, ReaderCommand::NextPage).page == if s.page * s.page_size + s.page_size
            <= s.total_lines {
            s.page + 1int
        } else {
            s.page as int
        },
        step_state(s, ReaderCommand::PrevPage).page == if s.page > 0 {
            s.page - 1
        } else {
            0
        },
        step_state(s, ReaderCommand::FewerLines).page_size == s.page_size
            || step_state(s, ReaderCommand::FewerLines).page_size + 5 == s.page_size,
        step_state(s, ReaderCommand::MoreLines).page_size == s.page_size
            || step_state(s, ReaderCommand::MoreLines).page_size == s.page_size + 5,
        step_outcome(s, ReaderCommand::Quit) == ReaderOutcome::Exit((s.page * s.page_size) as usize),
        step_outcome(s, ReaderCommand::Ignore) == ReaderOutcome::Continue,
        step_outcome(s, ReaderCommand::NextPage) == ReaderOutcome::Continue,
        step_outcome(s, ReaderCommand::PrevPage) == ReaderOutcome::Continue,
        step_outcome(s, ReaderCommand::FewerLines) == (if step_state(
            s,
            ReaderCommand::FewerLines,
        ).page_size != s.page_size {
            ReaderOutcome::PageSizeChanged(step_state(s, ReaderCommand::FewerLines).page_size as usize)
        } else {
            ReaderOutcome::Continue
        }),
        step_outcome(s, ReaderCommand::MoreLines) == (if step_state(
            s,
            ReaderCommand::MoreLines,
        ).page_size != s.page_size {
            ReaderOutcome::PageSizeChanged(step_state(s, ReaderCommand::MoreLines).page_size as usize)
        } else {
            ReaderOutcome::Continue
        }),
{
    let ps = s.page_size as int;
    let t = s.total_lines as int;
    let pg = s.page as int;
    assert((pg < t / ps) <==> (pg * ps + ps <= t)) by (nonlinear_arith)
        requires
            ps > 0,
            t >= 0,
            pg >= 0,
    {
        assert(t / ps * ps <= t && t < (t / ps + 1) * ps);
        if pg < t / ps {
            assert(pg + 1 <= t / ps);
            assert((pg + 1) * ps <= (t / ps) * ps);
        } else {
            assert(pg >= t / ps);
            assert(pg * ps >= (t / ps) * ps);
            assert((pg + 1) * ps >= (t / ps + 1) * ps);
        }
    }
}

/// How the command-line reader's resize rule decides: "fewer lines" shrinks
/// exactly when at least 25 lines are shown, "more lines" grows exactly when
/// the page can take five lines more without passing the maximum.
pub proof fn lemma_within_bounds_resizing(s: ReaderState)
    requires
        reader_state_wf(s),
        s.rule == ResizeRule::WithinBounds,
    ensures
        step_state(s, ReaderCommand::FewerLines).page_size == if s.page_size >= 25 {
            s.page_size - 5
        } else {
            s.page_size as int
        },
        step_state(s, ReaderCommand::MoreLines).page_size == if s.page_size + 5 <= s.max_page_size {
            s.page_size + 5int
        } else {
            s.page_size as int
        },
{
}

/// How the terminal-UI reader's resize rule decides: "fewer lines" shrinks
/// exactly when more than 20 lines are shown, "more lines" grows exactly when
/// fewer lines than the maximum are shown.
pub proof fn lemma_while_between_resizing(s: ReaderState)
    requires
        reader_state_wf(s),
        s.rule == ResizeRule::WhileBetween,
    ensures
        step_state(s, ReaderCommand::FewerLines).page_size == if s.page_size > 20 {
            s.page_size - 5
        } else {
            s.page_size as int
        },
        step_state(s, ReaderCommand::MoreLines).page_size == if s.page_size < s.max_page_size {
            s.page_size + 5int
        } else {
            s.page_size as int
        },
{
}

/// The raw key bytes of the command-line reader: from the start, exactly
/// `j`, `J`, space and line feed turn forward; exactly `k` and `K` turn back;
/// exactly `h` and `H` shrink; exactly `l` and `L` grow; exactly `q` and `Q`
/// quit; only the escape byte asks for more; every other byte, and a failed
/// read, does nothing. After an escape byte, only `[` asks for more and
/// anything else quits; after `ESC [`, `A` turns back, `B` turns forward and
/// anything else quits.
pub proof fn lemma_key_bytes(b: u8, next: Option<u8>)
    ensures
        scan_key_spec(KeyScan::Start, Some(b)) == KeyStep::Done(ReaderCommand::NextPage) <==> (b
            == 0x6a || b == 0x4a || b == 0x20 || b == 0x0a),
        scan_key_spec(KeyScan::Start, Some(b)) == KeyStep::Done(ReaderCommand::PrevPage) <==> (b
            == 0x6b || b == 0x4b),
        scan_key_spec(KeyScan::Start, Some(b)) == KeyStep::Done(ReaderCommand::FewerLines) <==> (b
            == 0x68 || b == 0x48),
        scan_key_spec(KeyScan::Start, Some(b)) == KeyStep::Done(ReaderCommand::MoreLines) <==> (b
            == 0x6c || b == 0x4c),
        scan_key_spec(KeyScan::Start, Some(b)) == KeyStep::Done(ReaderCommand::Quit) <==> (b == 0x71
            || b == 0x51),
        scan_key_spec(KeyScan::Start, Some(b)) is More <==> b == 0x1b,
        scan_key_spec(KeyScan::Start, Some(b)) is More ==> scan_key_spec(KeyScan::Start, Some(b))
            == KeyStep::More(KeyScan::Escape),
        scan_key_spec(KeyScan::Start, None) == KeyStep::Done(ReaderCommand::Ignore),
        scan_key_spec(KeyScan::Escape, next) == if next == Some(0x5bu8) {
            KeyStep::More(KeyScan::EscapeBracket)
        } else {
            KeyStep::Done(ReaderCommand::Quit)
        },
        scan_key_spec(KeyScan::EscapeBracket, next) == if next == Some(0x41u8) {
            KeyStep::Done(ReaderCommand::PrevPage)
        } else if next == Some(0x42u8) {
            KeyStep::Done(ReaderCommand::NextPage)
        } else {
            KeyStep::Done(ReaderCommand::Quit)
        },
{
}

/// The typed commands of the line reader, once trimmed and lowercased:
/// nothing, `j`, `↓`, a space and `enter` turn forward; `k` and `↑` turn
/// back; `h` shrinks; `l` grows; `q` and `esc` quit.
pub proof fn lemma_typed_commands()
    ensures
        input_command_spec(Seq::<char>::empty()) == ReaderCommand::NextPage,
        input_command_spec(seq!['j']) == ReaderCommand::NextPage,
        input_command_spec(seq!['\u{2193}']) == ReaderCommand::NextPage,
        input_command_spec(seq![' ']) == ReaderCommand::NextPage,
        input_command_spec(seq!['e', 'n', 't', 'e', 'r']) == ReaderCommand::NextPage,
        input_command_spec(seq!['k']) == ReaderCommand::PrevPage,
        input_command_spec(seq!['\u{2191}']) == ReaderCommand::PrevPage,
        input_command_spec(seq!['h']) == ReaderCommand::FewerLines,
        input_command_spec(seq!['l']) == ReaderCommand::MoreLines,
        input_command_spec(seq!['q']) == ReaderCommand::Quit,
        input_command_spec(seq!['e', 's', 'c']) == ReaderCommand::Quit,
{
    reveal_strlit("j");
    reveal_strlit("↓");
    reveal_strlit(" ");
    reveal_strlit("enter");
    reveal_strlit("k");
    reveal_strlit("↑");
    reveal_strlit("h");
    reveal_strlit("l");
    reveal_strlit("q");
    reveal_strlit("esc");
    assert("j"@ =~= seq!['j']);
    assert("↓"@ =~= seq!['\u{2193}']);
    assert(" "@ =~= seq![' ']);
    assert("enter"@ =~= seq!['e', 'n', 't', 'e', 'r']);
    assert("k"@ =~= seq!['k']);
    assert("↑"@ =~= seq!['\u{2191}']);
    assert("h"@ =~= seq!['h']);
    assert("l"@ =~= seq!['l']);
    assert("q"@ =~= seq!['q']);
    assert("esc"@ =~= seq!['e', 's', 'c']);
    let fwd = seq!['j', '\u{2193}', ' '];
    let later = seq!['k', '\u{2191}', 'h', 'l', 'q'];
    assert forall|a: int, b: int| 0 <= a < later.len() && 0 <= b < fwd.len() implies seq![later[a]]
        != seq![fwd[b]] by {
        lemma_single_chars_differ(later[a], fwd[b]);
    }
    assert forall|a: int, b: int| 0 <= b < a < later.len() implies seq![later[a]] != seq![later[b]] by {
        lemma_single_chars_differ(later[a], later[b]);
    }
    assert(later[0] == 'k' && later[1] == '\u{2191}' && later[2] == 'h' && later[3] == 'l' && later[4]
        == 'q');
    assert(fwd[0] == 'j' && fwd[1] == '\u{2193}' && fwd[2] == ' ');
}


proof fn lemma_single_chars_differ(a: char, b: char)
    requires
        a != b,
    ensures
        seq![a] != seq![b],
{
    assert(seq![a][0] != seq![b][0]);
}

} // verus!
