use vstd::prelude::*;

verus! {

/// A book of the library, as stored in the library database.
#[derive(Debug, Clone)]
pub struct Book {
    pub id: String,
    pub title: String,
    pub path: String,
    pub format: String,
    pub added_at: i64,
    pub last_read_at: Option<i64>,
    pub last_position: i64,
    /// A JSON array, as text.
    pub tags: String,
}

/// Book management commands.
#[derive(Debug, Clone)]
pub enum BookAction {
    /// Add a book by file path.
    Add { path: String },
    /// Scan a directory for books.
    Scan { path: String },
    /// List all books.
    List,
    /// Search books by keyword.
    Search { keyword: String },
}

/// The file formats that books come in.
#[derive(Debug, Clone, Copy, PartialEq, Eq, Structural)]
pub enum BookFormat {
    Txt,
    Epub,
}

/// The name under which a format is recorded.
pub open spec fn format_name_spec(f: BookFormat) -> Seq<char> {
    match f {
        BookFormat::Txt => "txt"@,
        BookFormat::Epub => "epub"@,
    }
}

impl BookFormat {
    /// The name under which the format is recorded: `txt` or `epub`.
    pub fn name(&self) -> (s: &'static str)
        ensures
            s@ == format_name_spec(*self),
    {
        match self {
            BookFormat::Txt => "txt",
            BookFormat::Epub => "epub",
        }
    }
}

/// What a `book` command asks to be done, with what the command derives from
/// its arguments.
#[derive(Debug)]
pub enum BookTask {
    /// Add the file at `path` under `title`, in `format`, unless it is there.
    AddFile { path: String, title: String, format: BookFormat },
    /// Add every text or EPUB file of the directory at `path`.
    ScanDir { path: String },
    /// List all books.
    ListAll,
    /// List the books whose title holds `keyword`.
    Search { keyword: String },
}

// ---------------------------------------------------------------------------
// File names
// ---------------------------------------------------------------------------

/// What `Path::file_name` gives for a path, as text.
pub uninterp spec fn path_file_name(path: Seq<char>) -> Option<Seq<char>>;

/// Calls `std::path::Path::file_name` on `path` and takes the name as text.
/// The result is named `path_file_name`; the contract says nothing more of
/// it.
#[verifier::external_body]
fn file_name_of(path: &str) -> (r: Option<String>)
    ensures
        match r {
            Some(n) => path_file_name(path@) == Some(n@),
            None => path_file_name(path@) is None,
        },
{
    std::path::Path::new(path).file_name().and_then(|n| n.to_str()).map(|n| n.to_string())
}

/// The index of the last `.` among the first `n` characters of `name`.
pub open spec fn last_dot_before(name: Seq<char>, n: int) -> Option<int>
    decreases n,
{
    if n <= 0 {
        None
    } else if name[n - 1] == '.' {
        Some(n - 1)
    } else {
        last_dot_before(name, n - 1)
    }
}

/// The index of the last `.` of `name`, if it has one.
pub open spec fn last_dot(name: Seq<char>) -> Option<int> {
    last_dot_before(name, name.len() as int)
}

/// The stem of a file name: the part before the last `.`, or the whole name
/// when it has no `.` or its only `.` is its first character.
pub open spec fn stem_spec(name: Seq<char>) -> Seq<char> {
    match last_dot(name) {
        Some(i) => if i > 0 {
            name.take(i)
        } else {
            name
        },
        None => name,
    }
}

/// The extension of a file name: the part after the last `.`, and none when
/// the name has no `.` or its only `.` is its first character.
pub open spec fn extension_spec(name: Seq<char>) -> Option<Seq<char>> {
    match last_dot(name) {
        Some(i) => if i > 0 {
            Some(name.skip(i + 1))
        } else {
            None
        },
        None => None,
    }
}

proof fn lemma_last_dot_before(name: Seq<char>, n: int)
    requires
        0 <= n <= name.len(),
    ensures
        match last_dot_before(name, n) {
            Some(i) => 0 <= i < n && name[i] == '.' && forall|k: int| i < k < n ==> name[k] != '.',
            None => forall|k: int| 0 <= k < n ==> name[k] != '.',
        },
    decreases n,
{
    if n > 0 && name[n - 1] != '.' {
        lemma_last_dot_before(name, n - 1);
    }
}

/// The index of the last `.` of `name`.
fn find_last_dot(name: &Vec<char>) -> (r: Option<usize>)
    ensures
        match r {
            Some(i) => last_dot(name@) == Some(i as int),
            None => last_dot(name@) is None,
        },
{
    let mut n = name.len();
    while n > 0
        invariant
            n <= name@.len(),
            last_dot(name@) == last_dot_before(name@, n as int),
        decreases n,
    {
        if name[n - 1] == '.' {
            return Some(n - 1);
        }
        n = n - 1;
    }
    None
}

/// Splits a file name at its last `.` as `stem_spec` and `extension_spec` do.
fn split_file_name(name: &str) -> (r: (String, Option<String>))
    ensures
        r.0@ == stem_spec(name@),
        match r.1 {
            Some(e) => extension_spec(name@) == Some(e@),
            None => extension_spec(name@) is None,
        },
{
    let cs = crate::text::chars_of(name);
    proof {
        lemma_last_dot_before(cs@, cs@.len() as int);
    }
    match find_last_dot(&cs) {
        Some(i) => {
            if i > 0 {
                let stem = crate::text::string_from_chars(cs.as_slice().split_at(i).0);
                let ext = crate::text::string_from_chars(cs.as_slice().split_at(i + 1).1);
                assert(cs@.subrange(0, i as int) =~= name@.take(i as int));
                assert(cs@.subrange(i + 1, cs@.len() as int) =~= name@.skip(i + 1));
                (stem, Some(ext))
            } else {
                (crate::text::string_from_chars(cs.as_slice()), None)
            }
        },
        None => (crate::text::string_from_chars(cs.as_slice()), None),
    }
}

/// The title that a book file gets: the stem of its file name, or
/// `Unknown` when the path has no file name.
pub open spec fn title_spec(path: Seq<char>) -> Seq<char> {
    match path_file_name(path) {
        Some(n) => stem_spec(n),
        None => "Unknown"@,
    }
}

/// The title that the book file at `path` gets: the stem of its file name
/// (the name without its extension), or `Unknown` when the path has none.
pub fn title_for_path(path: &str) -> (title: String)
    ensures
        title@ == title_spec(path@),
{
    match file_name_of(path) {
        Some(n) => split_file_name(n.as_str()).0,
        None => String::from_str("Unknown"),
    }
}

/// The extension of the file at `path`, if its file name has one.
pub open spec fn path_extension_spec(path: Seq<char>) -> Option<Seq<char>> {
    match path_file_name(path) {
        Some(n) => extension_spec(n),
        None => None,
    }
}

/// The format under which a scanned file is added: by its extension, `txt`
/// or `epub`; any other file is not a book.
pub open spec fn scan_format_spec(path: Seq<char>) -> Option<BookFormat> {
    match path_extension_spec(path) {
        Some(e) => if e == "txt"@ {
            Some(BookFormat::Txt)
        } else if e == "epub"@ {
            Some(BookFormat::Epub)
        } else {
            None
        },
        None => None,
    }
}

/// Whether two character sequences are equal.
fn same_chars(a: &Vec<char>, b: &Vec<char>) -> (r: bool)
    ensures
        r == (a@ == b@),
{
    if a.len() != b.len() {
        return false;
    }
    let mut i: usize = 0;
    while i < a.len()
        invariant
            a@.len() == b@.len(),
            i <= a@.len(),
            forall|k: int| 0 <= k < i ==> a@[k] == b@[k],
        decreases a@.len() - i,
    {
        if a[i] != b[i] {
            return false;
        }
        i = i + 1;
    }
    assert(a@ =~= b@);
    true
}

/// The format under which the file at `path` is added by a directory scan:
/// `txt` for a `.txt` extension, `epub` for `.epub`, and none (not a book)
/// for any other extension or none.
pub fn scan_format(path: &str) -> (f: Option<BookFormat>)
    ensures
        f == scan_format_spec(path@),
{
    match file_name_of(path) {
        Some(n) => {
            let (_stem, ext) = split_file_name(n.as_str());
            match ext {
                Some(e) => {
                    let ec = crate::text::chars_of(e.as_str());
                    let txt = crate::text::chars_of("txt");
                    let epub = crate::text::chars_of("epub");
                    if same_chars(&ec, &txt) {
                        Some(BookFormat::Txt)
                    } else if same_chars(&ec, &epub) {
                        Some(BookFormat::Epub)
                    } else {
                        None
                    }
                },
                None => None,
            }
        },
        None => None,
    }
}

/// Whether `s` ends with `suffix`.
pub open spec fn ends_with_spec(s: Seq<char>, suffix: Seq<char>) -> bool {
    suffix.len() <= s.len() && s.skip(s.len() - suffix.len()) == suffix
}

/// Whether `s` ends with `suffix`.
fn ends_with(s: &str, suffix: &str) -> (r: bool)
    ensures
        r == ends_with_spec(s@, suffix@),
{
    let a = crate::text::chars_of(s);
    let b = crate::text::chars_of(suffix);
    if b.len() > a.len() {
        return false;
    }
    let alen = a.len();
    let off = alen - b.len();
    let mut i: usize = 0;
    while i < b.len()
        invariant
            alen == a@.len(),
            a@ == s@,
            b@ == suffix@,
            off + b@.len() == a@.len(),
            i <= b@.len(),
            forall|k: int| 0 <= k < i ==> a@[off + k] == b@[k],
        decreases b@.len() - i,
    {
        if a[off + i] != b[i] {
            assert(s@.skip(off as int)[i as int] != suffix@[i as int]);
            return false;
        }
        i = i + 1;
    }
    assert(s@.skip(off as int) =~= suffix@);
    true
}

/// The format of a book added by path: `txt` when the path ends with
/// `.txt`, `epub` when it ends with `.epub`, and `txt` otherwise.
pub open spec fn format_for_path_spec(path: Seq<char>) -> BookFormat {
    if ends_with_spec(path, ".txt"@) {
        BookFormat::Txt
    } else if ends_with_spec(path, ".epub"@) {
        BookFormat::Epub
    } else {
        BookFormat::Txt
    }
}

/// The format of a book added by path, by the end of the path: `epub` for
/// `.epub`, `txt` for `.txt` and for anything else.
pub fn format_for_path(path: &str) -> (f: BookFormat)
    ensures
        f == format_for_path_spec(path@),
{
    if ends_with(path, ".txt") {
        BookFormat::Txt
    } else if ends_with(path, ".epub") {
        BookFormat::Epub
    } else {
        BookFormat::Txt
    }
}

/// The pattern that a title search matches titles against: the keyword
/// between two `%` wildcards.
pub fn search_pattern(keyword: &str) -> (p: String)
    ensures
        p@ == "%"@ + keyword@ + "%"@,
{
    let mut p = String::from_str("%");
    p.append(keyword);
    p.append("%");
    p
}

/// Dispatches a `book` command: adding a file derives its title from the
/// file name and its format from the end of the path; the other commands
/// pass their argument on.
pub fn handle(action: BookAction) -> (task: BookTask)
    ensures
        match action {
            BookAction::Add { path } => task matches BookTask::AddFile { path: p, title, format } && p
                == path && title@ == title_spec(path@) && format == format_for_path_spec(path@),
            BookAction::Scan { path } => task matches BookTask::ScanDir { path: p } && p == path,
            BookAction::List => task is ListAll,
            BookAction::Search { keyword } => task matches BookTask::Search { keyword: k } && k
                == keyword,
        },
{
    match action {
        BookAction::Add { path } => {
            let title = title_for_path(path.as_str());
            let format = format_for_path(path.as_str());
            BookTask::AddFile { path, title, format }
        },
        BookAction::Scan { path } => BookTask::ScanDir { path },
        BookAction::List => BookTask::ListAll,
        BookAction::Search { keyword } => BookTask::Search { keyword },
    }
}

/// A file name is its stem, then `.` and its extension when it has one.
pub proof fn lemma_stem_and_extension_rebuild_name(name: Seq<char>)
    ensures
        match extension_spec(name) {
            Some(e) => stem_spec(name) + seq!['.'] + e == name,
            None => stem_spec(name) == name,
        },
{
    lemma_last_dot_before(name, name.len() as int);
    match last_dot(name) {
        Some(i) => {
            if i > 0 {
                assert(name.take(i) + seq!['.'] + name.skip(i + 1) =~= name);
            }
        },
        None => {},
    }
}

/// An extension holds no `.`.
pub proof fn lemma_extension_has_no_dot(name: Seq<char>)
    ensures
        extension_spec(name) matches Some(e) ==> forall|k: int| 0 <= k < e.len() ==> e[k] != '.',
{
    lemma_last_dot_before(name, name.len() as int);
    if let Some(e) = extension_spec(name) {
        let i = last_dot(name)->0;
        assert forall|k: int| 0 <= k < e.len() implies e[k] != '.' by {
            assert(e[k] == name[i + 1 + k]);
        }
    }
}

} // verus!
