use vstd::prelude::*;
use vstd::string::StringSliceAdditionalSpecFns;
use vstd::utf8::{
    decode_utf8, decode_utf8_encode_utf8, encode_utf8, encode_utf8_decode_utf8,
    encode_utf8_valid_utf8, is_char_boundary, valid_utf8_split,
};

verus! {

/// The character that fills the done part of a progress bar.
pub const BAR_FILLED: char = '\u{2588}';

/// The character that fills the rest of a progress bar.
pub const BAR_EMPTY: char = '\u{2591}';

/// `n` copies of `c`.
pub open spec fn repeat_spec(c: char, n: nat) -> Seq<char> {
    Seq::new(n, |_i: int| c)
}

/// `n` copies of `c`, as text.
pub fn repeat_char(c: char, n: usize) -> (s: String)
    ensures
        s@ == repeat_spec(c, n as nat),
{
    let mut v: Vec<char> = Vec::new();
    let mut i: usize = 0;
    while i < n
        invariant
            i <= n,
            v@ == repeat_spec(c, i as nat),
        decreases n - i,
    {
        v.push(c);
        i = i + 1;
        assert(v@ =~= repeat_spec(c, i as nat));
    }
    crate::text::string_from_chars(v.as_slice())
}

/// A progress bar of `width` cells, the first `filled` of them filled.
pub open spec fn progress_bar_spec(filled: nat, width: nat) -> Seq<char> {
    repeat_spec(BAR_FILLED, filled) + repeat_spec(BAR_EMPTY, (width - filled) as nat)
}

/// A progress bar of `width` cells: `filled` filled cells, then empty ones.
pub fn progress_bar(filled: usize, width: usize) -> (bar: String)
    requires
        filled <= width,
    ensures
        bar@ == progress_bar_spec(filled as nat, width as nat),
{
    let mut bar = repeat_char(BAR_FILLED, filled);
    let rest = repeat_char(BAR_EMPTY, width - filled);
    bar.append(rest.as_str());
    bar
}

/// A progress bar has as many cells as it is wide.
pub proof fn lemma_progress_bar_width(filled: nat, width: nat)
    requires
        filled <= width,
    ensures
        progress_bar_spec(filled, width).len() == width,
        forall|i: int| 0 <= i < width ==> #[trigger] progress_bar_spec(filled, width)[i] == if i
            < filled {
            BAR_FILLED
        } else {
            BAR_EMPTY
        },
{
}

/// A title as a list shows it: kept whole when its UTF-8 encoding is at most
/// `max_bytes` long, otherwise cut to its first `keep_bytes` bytes and
/// followed by `...`.
pub open spec fn shortened_title_spec(title: &str, max_bytes: usize, keep_bytes: usize) -> Seq<
    char,
> {
    if title.len() <= max_bytes {
        title@
    } else {
        decode_utf8(title.spec_bytes().subrange(0, keep_bytes as int)) + "..."@
    }
}

/// Shortens a title for a list: a title of more than `max_bytes` bytes is
/// cut to its first `keep_bytes` bytes and followed by `...`; the cut must
/// fall between two characters.
pub fn shorten_title(title: &str, max_bytes: usize, keep_bytes: usize) -> (s: String)
    requires
        title.len() > max_bytes ==> is_char_boundary(title.spec_bytes(), keep_bytes as int),
    ensures
        s@ == shortened_title_spec(title, max_bytes, keep_bytes),
{
    if title.len() <= max_bytes {
        title.to_owned()
    } else {
        let (head, _tail) = title.split_at(keep_bytes);
        proof {
            encode_utf8_decode_utf8(head@);
            assert(head.spec_bytes() == title.spec_bytes().subrange(0, keep_bytes as int));
        }
        let mut s = head.to_owned();
        s.append("...");
        s
    }
}

/// Encoding two texts one after the other gives the two encodings one after
/// the other.
proof fn lemma_encode_utf8_concat(a: Seq<char>, b: Seq<char>)
    ensures
        encode_utf8(a + b) == encode_utf8(a) + encode_utf8(b),
    decreases a.len(),
{
    if a.len() > 0 {
        lemma_encode_utf8_concat(a.drop_first(), b);
        assert((a + b).drop_first() =~= a.drop_first() + b);
        assert((a + b)[0] == a[0]);
    } else {
        assert(a + b =~= b);
    }
}

/// A shortened title fits its column: when the cut keeps at most three bytes
/// fewer than the column holds, the title as shown takes at most
/// `max_bytes` bytes of UTF-8.
pub proof fn lemma_shortened_title_fits(title: &str, max_bytes: usize, keep_bytes: usize)
    requires
        title.len() > max_bytes ==> is_char_boundary(title.spec_bytes(), keep_bytes as int),
        keep_bytes + 3 <= max_bytes,
        title.spec_bytes().len() <= usize::MAX,
    ensures
        encode_utf8(shortened_title_spec(title, max_bytes, keep_bytes)).len() <= max_bytes,
{
    let bytes = title.spec_bytes();
    if title.len() <= max_bytes {
        encode_utf8_decode_utf8(title@);
    } else {
        encode_utf8_valid_utf8(title@);
        valid_utf8_split(bytes, keep_bytes as int);
        let sub = bytes.subrange(0, keep_bytes as int);
        decode_utf8_encode_utf8(sub);
        let dots = "..."@;
        reveal_strlit("...");
        assert(encode_utf8(dots).len() == 3) by {
            reveal_with_fuel(encode_utf8, 4);
            assert(dots.drop_first().drop_first().drop_first() =~= Seq::<char>::empty());
        }
        lemma_encode_utf8_concat(decode_utf8(sub), dots);
    }
}

} // verus!
