use vstd::prelude::*;
use vstd::utf8::{decode_utf8, valid_utf8};

verus! {

// ---------------------------------------------------------------------------
// Decoding the bytes of a book file
// ---------------------------------------------------------------------------

/// What `encoding_rs::GBK.decode` gives for `bytes`: the decoded text and
/// whether malformed sequences were met.
pub uninterp spec fn gbk_decode_result(bytes: Seq<u8>) -> (Seq<char>, bool);

/// What `encoding_rs::WINDOWS_1252.decode` gives for `bytes` as text.
pub uninterp spec fn windows_1252_decode_result(bytes: Seq<u8>) -> Seq<char>;

/// Calls `std::str::from_utf8`: the bytes are taken as text exactly when they
/// are well-formed UTF-8, and the text is then their UTF-8 decoding.
#[verifier::external_body]
fn utf8_str(bytes: &[u8]) -> (r: Option<&str>)
    ensures
        r is Some <==> valid_utf8(bytes@),
        r matches Some(s) ==> s@ == decode_utf8(bytes@),
{
    std::str::from_utf8(bytes).ok()
}

/// Calls `encoding_rs::GBK.decode` (decoding with BOM sniffing and with
/// malformed sequences replaced) and keeps the text and the error flag; the
/// encoding that was used is dropped. The result is named
/// `gbk_decode_result`; the contract says nothing more of it. The bound on
/// the length keeps the crate's buffer-size computations, which panic on
/// overflow, far from overflowing.
#[verifier::external_body]
fn gbk_decode(bytes: &[u8]) -> (r: (String, bool))
    requires
        bytes@.len() <= usize::MAX / 8,
    ensures
        (r.0@, r.1) == gbk_decode_result(bytes@),
{
    let (text, _encoding, had_errors) = encoding_rs::GBK.decode(bytes);
    (text.into_owned(), had_errors)
}

/// Calls `encoding_rs::WINDOWS_1252.decode` and keeps the text; the encoding
/// used and the error flag are dropped. The result is named
/// `windows_1252_decode_result`; the contract says nothing more of it.
#[verifier::external_body]
fn windows_1252_decode(bytes: &[u8]) -> (r: String)
    requires
        bytes@.len() <= usize::MAX / 8,
    ensures
        r@ == windows_1252_decode_result(bytes@),
{
    let (text, _encoding, _had_errors) = encoding_rs::WINDOWS_1252.decode(bytes);
    text.into_owned()
}

/// Builds a `String` from characters, in order (`FromIterator<char>`).
#[verifier::external_body]
pub(crate) fn string_from_chars(chars: &[char]) -> (s: String)
    ensures
        s@ == chars@,
{
    chars.iter().collect()
}

/// The text of a book file: UTF-8 when the bytes are UTF-8; otherwise GBK,
/// unless GBK decoding met malformed sequences, in which case Windows-1252.
pub open spec fn book_text_spec(bytes: Seq<u8>) -> Seq<char> {
    if valid_utf8(bytes) {
        decode_utf8(bytes)
    } else if gbk_decode_result(bytes).1 {
        windows_1252_decode_result(bytes)
    } else {
        gbk_decode_result(bytes).0
    }
}

/// Decodes the bytes of a book file: UTF-8 first, then GBK, then Windows-1252.
/// Bytes that are not UTF-8 must be few enough for the decoders' buffer sizes.
pub fn decode_book_bytes(bytes: &[u8]) -> (text: String)
    requires
        !valid_utf8(bytes@) ==> bytes@.len() <= usize::MAX / 8,
    ensures
        text@ == book_text_spec(bytes@),
{
    match utf8_str(bytes) {
        Some(s) => s.to_owned(),
        None => {
            let (decoded, had_errors) = gbk_decode(bytes);
            if had_errors {
                windows_1252_decode(bytes)
            } else {
                decoded
            }
        },
    }
}

// ---------------------------------------------------------------------------
// Line endings, byte-order mark and lines
// ---------------------------------------------------------------------------

/// `s` with every `\r\n` turned into `\n`, and then every remaining `\r`
/// turned into `\n`.
pub open spec fn normalize_newlines_spec(s: Seq<char>) -> Seq<char>
    decreases s.len(),
{
    if s.len() == 0 {
        Seq::empty()
    } else if s[0] == '\r' && s.len() >= 2 && s[1] == '\n' {
        seq!['\n'] + normalize_newlines_spec(s.skip(2))
    } else if s[0] == '\r' {
        seq!['\n'] + normalize_newlines_spec(s.skip(1))
    } else {
        seq![s[0]] + normalize_newlines_spec(s.skip(1))
    }
}

/// `s` without a leading byte-order mark (U+FEFF), if it has one.
pub open spec fn strip_bom_spec(s: Seq<char>) -> Seq<char> {
    if s.len() > 0 && s[0] == '\u{feff}' {
        s.skip(1)
    } else {
        s
    }
}

/// The pieces of `s` between its `\n` characters: one more piece than
/// there are `\n` characters.
pub open spec fn line_pieces(s: Seq<char>) -> Seq<Seq<char>>
    decreases s.len(),
{
    if s.len() == 0 {
        seq![Seq::<char>::empty()]
    } else {
        let p = line_pieces(s.drop_last());
        if s.last() == '\n' {
            p.push(Seq::<char>::empty())
        } else {
            p.update(p.len() - 1, p.last().push(s.last()))
        }
    }
}

/// The lines of `s` as `str::lines` gives them for text without `\r`:
/// the pieces between `\n` characters, where a final `\n` ends the last line
/// instead of starting an empty one, and empty text has no line.
pub open spec fn lines_spec(s: Seq<char>) -> Seq<Seq<char>> {
    if s.len() == 0 {
        Seq::empty()
    } else if s.last() == '\n' {
        line_pieces(s).drop_last()
    } else {
        line_pieces(s)
    }
}

/// The lines of a book's text: line endings normalized to `\n`, a leading
/// byte-order mark removed, then split into lines.
pub open spec fn book_lines_spec(text: Seq<char>) -> Seq<Seq<char>> {
    lines_spec(strip_bom_spec(normalize_newlines_spec(text)))
}

/// `ls` joined with `\n` between consecutive lines.
pub open spec fn join_lines(ls: Seq<Seq<char>>) -> Seq<char>
    decreases ls.len(),
{
    if ls.len() == 0 {
        Seq::empty()
    } else if ls.len() == 1 {
        ls[0]
    } else {
        join_lines(ls.drop_last()) + seq!['\n'] + ls.last()
    }
}

/// The views of a sequence of strings.
pub open spec fn string_views(v: Seq<String>) -> Seq<Seq<char>> {
    v.map_values(|l: String| l@)
}

proof fn lemma_line_pieces_len(s: Seq<char>)
    ensures
        line_pieces(s).len() >= 1,
        s.len() > 0 && s.last() == '\n' ==> line_pieces(s).len() >= 2,
    decreases s.len(),
{
    if s.len() > 0 {
        lemma_line_pieces_len(s.drop_last());
    }
}

/// Joining the pieces of a text between its `\n` characters with `\n` gives
/// the text back.
pub proof fn lemma_join_line_pieces(s: Seq<char>)
    ensures
        join_lines(line_pieces(s)) == s,
    decreases s.len(),
{
    if s.len() > 0 {
        let d = s.drop_last();
        lemma_join_line_pieces(d);
        lemma_line_pieces_len(d);
        let p = line_pieces(d);
        let c = s.last();
        if c == '\n' {
            let q = p.push(Seq::<char>::empty());
            assert(q.drop_last() =~= p);
            assert(join_lines(q) =~= join_lines(p) + seq!['\n']);
            assert(d.push(c) =~= s);
        } else {
            let q = p.update(p.len() - 1, p.last().push(c));
            if p.len() == 1 {
                assert(join_lines(q) =~= p[0].push(c));
            } else {
                assert(q.drop_last() =~= p.drop_last());
                assert(join_lines(q) =~= join_lines(p.drop_last()) + seq!['\n'] + p.last().push(c));
                assert(join_lines(p) =~= join_lines(p.drop_last()) + seq!['\n'] + p.last());
            }
            assert(d.push(c) =~= s);
        }
    }
}

/// No piece of a text holds a `\n`, and a piece holds no character that the
/// text lacks.
proof fn lemma_line_pieces_chars(s: Seq<char>, avoided: char)
    ensures
        forall|i: int, k: int|
            0 <= i < line_pieces(s).len() && 0 <= k < line_pieces(s)[i].len() ==> {
                &&& #[trigger] line_pieces(s)[i][k] != '\n'
                &&& (forall|m: int| 0 <= m < s.len() ==> s[m] != avoided) ==> line_pieces(s)[i][k] != avoided
            },
    decreases s.len(),
{
    if s.len() > 0 {
        let d = s.drop_last();
        lemma_line_pieces_chars(d, avoided);
        lemma_line_pieces_len(d);
        let p = line_pieces(d);
        assert((forall|m: int| 0 <= m < s.len() ==> s[m] != avoided) ==> (forall|m: int|
            0 <= m < d.len() ==> d[m] != avoided)) by {
            if forall|m: int| 0 <= m < s.len() ==> s[m] != avoided {
                assert forall|m: int| 0 <= m < d.len() implies d[m] != avoided by {
                    assert(d[m] == s[m]);
                }
            }
        }
        if (forall|m: int| 0 <= m < s.len() ==> s[m] != avoided) {
            assert(s[s.len() - 1] != avoided);
        }
    }
}

/// A text without `\r` is left as it is by line-ending normalization.
proof fn lemma_normalize_without_cr(s: Seq<char>)
    requires
        forall|m: int| 0 <= m < s.len() ==> s[m] != '\r',
    ensures
        normalize_newlines_spec(s) == s,
    decreases s.len(),
{
    if s.len() > 0 {
        assert forall|m: int| 0 <= m < s.skip(1).len() implies s.skip(1)[m] != '\r' by {
            assert(s.skip(1)[m] == s[m + 1]);
        }
        lemma_normalize_without_cr(s.skip(1));
        assert(seq![s[0]] + s.skip(1) =~= s);
    }
}

/// Line-ending normalization leaves no `\r`.
proof fn lemma_normalize_no_cr(s: Seq<char>)
    ensures
        forall|m: int|
            0 <= m < normalize_newlines_spec(s).len() ==> #[trigger] normalize_newlines_spec(s)[m]
                != '\r',
    decreases s.len(),
{
    if s.len() > 0 {
        if s[0] == '\r' && s.len() >= 2 && s[1] == '\n' {
            lemma_normalize_no_cr(s.skip(2));
            let r = normalize_newlines_spec(s.skip(2));
            assert forall|m: int| 0 <= m < (seq!['\n'] + r).len() implies (seq!['\n'] + r)[m]
                != '\r' by {
                if m > 0 {
                    assert((seq!['\n'] + r)[m] == r[m - 1]);
                }
            }
        } else {
            lemma_normalize_no_cr(s.skip(1));
            let r = normalize_newlines_spec(s.skip(1));
            let h = if s[0] == '\r' { '\n' } else { s[0] };
            assert(normalize_newlines_spec(s) == seq![h] + r);
            assert forall|m: int| 0 <= m < (seq![h] + r).len() implies (seq![h] + r)[m]
                != '\r' by {
                if m > 0 {
                    assert((seq![h] + r)[m] == r[m - 1]);
                }
            }
        }
    }
}

/// Normalizing line endings twice gives what normalizing once gives.
pub proof fn lemma_normalize_newlines_idempotent(s: Seq<char>)
    ensures
        normalize_newlines_spec(normalize_newlines_spec(s)) == normalize_newlines_spec(s),
{
    lemma_normalize_no_cr(s);
    lemma_normalize_without_cr(normalize_newlines_spec(s));
}

/// No line of a book holds a line-ending character (`\n` or `\r`).
pub proof fn lemma_book_lines_have_no_line_endings(text: Seq<char>)
    ensures
        forall|i: int, k: int|
            0 <= i < book_lines_spec(text).len() && 0 <= k < book_lines_spec(text)[i].len()
                ==> #[trigger] book_lines_spec(text)[i][k] != '\n' && book_lines_spec(text)[i][k]
                != '\r',
{
    let n = normalize_newlines_spec(text);
    let t = strip_bom_spec(n);
    lemma_normalize_no_cr(text);
    assert forall|m: int| 0 <= m < t.len() implies t[m] != '\r' by {
        if n.len() > 0 && n[0] == '\u{feff}' {
            assert(t[m] == n[m + 1]);
        }
    }
    lemma_line_pieces_chars(t, '\r');
    lemma_line_pieces_len(t);
    let ls = book_lines_spec(text);
    assert forall|i: int, k: int| 0 <= i < ls.len() && 0 <= k < ls[i].len() implies #[trigger] ls[i][k]
        != '\n' && ls[i][k] != '\r' by {
        assert(ls[i] == line_pieces(t)[i]);
    }
}

/// Splitting a non-empty text into lines loses only the line endings:
/// joining the lines with `\n`, and adding back a final `\n` where the text
/// ended with one, gives the text.
pub proof fn lemma_lines_rejoin(s: Seq<char>)
    requires
        s.len() > 0,
    ensures
        join_lines(lines_spec(s)) + (if s.last() == '\n' {
            seq!['\n']
        } else {
            Seq::<char>::empty()
        }) == s,
{
    lemma_join_line_pieces(s);
    lemma_line_pieces_len(s);
    let p = line_pieces(s);
    if s.last() == '\n' {
        // The last piece is the empty one that the final `\n` starts.
        let d = s.drop_last();
        lemma_line_pieces_len(d);
        assert(p == line_pieces(d).push(Seq::<char>::empty()));
        assert(p.drop_last() =~= line_pieces(d));
        assert(join_lines(p) =~= join_lines(p.drop_last()) + seq!['\n'] + p.last());
        assert(p.last() =~= Seq::<char>::empty());
        assert(join_lines(p.drop_last()) + seq!['\n'] =~= s);
    } else {
        assert(join_lines(p) + Seq::<char>::empty() =~= s);
    }
}

// ---------------------------------------------------------------------------
// Executable splitting
// ---------------------------------------------------------------------------

/// The characters of `text`, in order.
pub(crate) fn chars_of(text: &str) -> (v: Vec<char>)
    ensures
        v@ == text@,
{
    let mut v: Vec<char> = Vec::new();
    for c in it: text.chars()
        invariant
            it.seq() == text@,
            v@ == text@.take(it.index() as int),
    {
        v.push(c);
        assert(v@ =~= text@.take(it.index() as int + 1));
    }
    assert(v@ =~= text@);
    v
}

/// Normalizes line endings: `\r\n` and lone `\r` become `\n`.
fn normalize_newlines(cs: &Vec<char>) -> (out: Vec<char>)
    ensures
        out@ == normalize_newlines_spec(cs@),
{
    let n = cs.len();
    let mut out: Vec<char> = Vec::new();
    let mut i: usize = 0;
    assert(cs@.skip(0) =~= cs@);
    while i < n
        invariant
            n == cs@.len(),
            i <= n,
            normalize_newlines_spec(cs@) == out@ + normalize_newlines_spec(cs@.skip(i as int)),
        decreases n - i,
    {
        let ghost rest = cs@.skip(i as int);
        if cs[i] == '\r' && i + 1 < n && cs[i + 1] == '\n' {
            assert(rest[0] == '\r' && rest[1] == '\n');
            assert(rest.skip(2) =~= cs@.skip(i + 2));
            out.push('\n');
            i = i + 2;
        } else if cs[i] == '\r' {
            assert(rest.skip(1) =~= cs@.skip(i + 1));
            out.push('\n');
            i = i + 1;
        } else {
            assert(rest[0] == cs@[i as int]);
            assert(rest.skip(1) =~= cs@.skip(i + 1));
            out.push(cs[i]);
            i = i + 1;
        }
        assert(normalize_newlines_spec(cs@) == out@ + normalize_newlines_spec(cs@.skip(i as int)));
    }
    assert(cs@.skip(n as int) =~= Seq::<char>::empty());
    assert(out@ + Seq::<char>::empty() =~= out@);
    out
}

/// Splits `cs[start..]` into lines (see `lines_spec`).
fn split_lines_from(cs: &Vec<char>, start: usize) -> (lines: Vec<String>)
    requires
        start <= cs@.len(),
    ensures
        string_views(lines@) == lines_spec(cs@.skip(start as int)),
{
    let ghost s = cs@.skip(start as int);
    let n = cs.len();
    let mut lines: Vec<String> = Vec::new();
    let mut cur: Vec<char> = Vec::new();
    let mut j: usize = start;
    assert(s.take(0) =~= Seq::<char>::empty());
    assert(string_views(lines@) + seq![cur@] =~= line_pieces(s.take(0)));
    while j < n
        invariant
            n == cs@.len(),
            start <= j <= n,
            s == cs@.skip(start as int),
            line_pieces(s.take(j - start)) == string_views(lines@) + seq![cur@],
        decreases n - j,
    {
        let ghost k = j - start;
        let ghost before = string_views(lines@);
        assert(s.take(k + 1).drop_last() =~= s.take(k));
        assert(s.take(k + 1).last() == cs@[j as int]);
        if cs[j] == '\n' {
            let line = string_from_chars(cur.as_slice());
            lines.push(line);
            cur = Vec::new();
            assert(string_views(lines@) =~= before.push(line@));
            assert(line_pieces(s.take(k + 1)) =~= string_views(lines@) + seq![cur@]);
        } else {
            cur.push(cs[j]);
            assert(line_pieces(s.take(k + 1)) =~= string_views(lines@) + seq![cur@]);
        }
        j = j + 1;
    }
    assert(s.take(n - start) =~= s);
    if n == start {
        let empty: Vec<String> = Vec::new();
        assert(string_views(empty@) =~= Seq::<Seq<char>>::empty());
        empty
    } else if cs[n - 1] == '\n' {
        assert(s.last() == cs@[n - 1]);
        proof {
            lemma_line_pieces_len(s);
        }
        assert(line_pieces(s).drop_last() =~= string_views(lines@));
        lines
    } else {
        assert(s.last() == cs@[n - 1]);
        let last = string_from_chars(cur.as_slice());
        let ghost before = string_views(lines@);
        lines.push(last);
        assert(string_views(lines@) =~= before.push(last@));
        assert(line_pieces(s) =~= string_views(lines@));
        lines
    }
}

/// The lines of a book's text: line endings are normalized to `\n`, a
/// leading byte-order mark is dropped, and the text is split into lines as
/// `str::lines` splits it.
pub fn book_lines(text: &str) -> (lines: Vec<String>)
    ensures
        string_views(lines@) == book_lines_spec(text@),
{
    let cs = chars_of(text);
    let norm = normalize_newlines(&cs);
    let start: usize = if norm.len() > 0 && norm[0] == '\u{feff}' {
        1
    } else {
        0
    };
    assert(norm@.skip(0) =~= norm@);
    split_lines_from(&norm, start)
}

/// The lines of a book file, from its bytes: decoded (UTF-8, else GBK, else
/// Windows-1252), then split as `book_lines` splits text.
pub fn book_lines_from_bytes(bytes: &[u8]) -> (lines: Vec<String>)
    requires
        !valid_utf8(bytes@) ==> bytes@.len() <= usize::MAX / 8,
    ensures
        string_views(lines@) == book_lines_spec(book_text_spec(bytes@)),
{
    let text = decode_book_bytes(bytes);
    book_lines(text.as_str())
}

} // verus!
