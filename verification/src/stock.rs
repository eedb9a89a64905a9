use vstd::prelude::*;

verus! {

/// A tracked stock, as stored in the library database.
#[derive(Debug, Clone)]
pub struct Stock {
    pub id: String,
    pub code: String,
    pub name: String,
}

/// Stock management commands.
#[derive(Debug, Clone)]
pub enum StockAction {
    /// Add a stock to the tracking list.
    Add { code: String },
    /// List all tracked stocks.
    List,
    /// Delete a stock from the tracking list.
    Delete { id: String },
}

/// Whether `c` is alphanumeric in the sense of `char::is_alphanumeric`.
pub uninterp spec fn is_alphanumeric_char(c: char) -> bool;

/// ASCII letters and digits.
pub open spec fn is_ascii_alphanumeric_char(c: char) -> bool {
    ||| ('0' <= c && c <= '9')
    ||| ('a' <= c && c <= 'z')
    ||| ('A' <= c && c <= 'Z')
}

/// Whether `c` is alphanumeric: for an ASCII character, whether it is an
/// ASCII letter or digit; for any other, as `char::is_alphanumeric` says.
pub open spec fn alphanumeric_spec(c: char) -> bool {
    if (c as u32) < 128 {
        is_ascii_alphanumeric_char(c)
    } else {
        is_alphanumeric_char(c)
    }
}

/// Calls `char::is_alphanumeric`. Its result is named `is_alphanumeric_char`;
/// beside the name, the contract states only that on ASCII characters the
/// answer is "ASCII letter or digit" (the Unicode Alphabetic and Numeric
/// properties restricted to ASCII). What it answers on other characters is
/// left to the name.
#[verifier::external_body]
fn char_is_alphanumeric(c: char) -> (r: bool)
    ensures
        r == is_alphanumeric_char(c),
        r == alphanumeric_spec(c),
{
    c.is_alphanumeric()
}

/// The error that stock-code validation reports for `code`, if any.
pub open spec fn stock_code_error(code: &str) -> Option<Seq<char>> {
    if code@.len() == 0 {
        Some("Stock code cannot be empty"@)
    } else if code@.len() > 10 {
        Some("Stock code cannot exceed 10 characters"@)
    } else if exists|i: int| 0 <= i < code@.len() && !alphanumeric_spec(#[trigger] code@[i]) {
        Some("Stock code must be alphanumeric"@)
    } else {
        None
    }
}

/// Checks that every character of `code` is alphanumeric.
fn all_alphanumeric(code: &str) -> (r: bool)
    ensures
        r <==> forall|i: int| 0 <= i < code@.len() ==> alphanumeric_spec(#[trigger] code@[i]),
{
    for c in it: code.chars()
        invariant
            it.seq() == code@,
            forall|i: int| 0 <= i < it.index() ==> alphanumeric_spec(#[trigger] code@[i]),
    {
        if !char_is_alphanumeric(c) {
            return false;
        }
    }
    true
}

/// Validates a stock code: it must be non-empty, at most ten characters long and
/// made of alphanumeric characters only. The checks are made in that order,
/// and the first one that fails gives the error message.
pub fn validate_stock_code(code: &str) -> (r: Result<(), String>)
    ensures
        match r {
            Ok(()) => stock_code_error(code) is None,
            Err(msg) => stock_code_error(code) == Some(msg@),
        },
        r is Ok <==> (0 < code@.len() <= 10 && forall|i: int|
            0 <= i < code@.len() ==> alphanumeric_spec(#[trigger] code@[i])),
{
    if code.is_empty() {
        return Err(String::from_str("Stock code cannot be empty"));
    }
    if crate::text::chars_of(code).len() > 10 {
        return Err(String::from_str("Stock code cannot exceed 10 characters"));
    }
    if !all_alphanumeric(code) {
        return Err(String::from_str("Stock code must be alphanumeric"));
    }
    Ok(())
}

/// Which codes are accepted: exactly those of one to ten characters that
/// are all alphanumeric. An empty code is refused as empty, a longer one as
/// too long, and one with another character as not alphanumeric.
pub proof fn lemma_stock_code_acceptance(code: &str)
    ensures
        stock_code_error(code) is None <==> (0 < code@.len() <= 10 && forall|i: int|
            0 <= i < code@.len() ==> alphanumeric_spec(#[trigger] code@[i])),
        code@.len() == 0 ==> stock_code_error(code) == Some("Stock code cannot be empty"@),
        code@.len() > 10 ==> stock_code_error(code) == Some(
            "Stock code cannot exceed 10 characters"@,
        ),
        (0 < code@.len() <= 10 && exists|i: int|
            0 <= i < code@.len() && !alphanumeric_spec(#[trigger] code@[i])) ==> stock_code_error(
            code,
        ) == Some("Stock code must be alphanumeric"@),
{
}

/// On ASCII characters, "alphanumeric" means an ASCII digit or letter of
/// either case: every such character counts, and no other ASCII character.
pub proof fn lemma_ascii_alphanumeric(c: char)
    requires
        (c as u32) < 128,
    ensures
        alphanumeric_spec(c) <==> (('0' <= c && c <= '9') || ('a' <= c && c <= 'z') || ('A' <= c
            && c <= 'Z')),
{
}

/// The placeholder name under which a stock is recorded.
pub open spec fn stock_name_spec(code: Seq<char>) -> Seq<char> {
    "Stock "@ + code
}

/// The placeholder name under which the stock `code` is recorded: `Stock <code>`.
pub fn stock_display_name(code: &str) -> (name: String)
    ensures
        name@ == stock_name_spec(code@),
{
    let mut name = String::from_str("Stock ");
    name.append(code);
    name
}

/// Prepares a stock for the tracking list: validates `code` and, when it is
/// valid, gives the name under which it is to be recorded. An invalid code
/// gives the validation error, and nothing is to be recorded.
pub fn add_stock(code: &str) -> (r: Result<String, String>)
    ensures
        match r {
            Ok(name) => stock_code_error(code) is None && name@ == stock_name_spec(code@),
            Err(msg) => stock_code_error(code) == Some(msg@),
        },
        r is Ok <==> (0 < code@.len() <= 10 && forall|i: int|
            0 <= i < code@.len() ==> alphanumeric_spec(#[trigger] code@[i])),
        r is Ok ==> r->Ok_0@ == "Stock "@ + code@,
{
    validate_stock_code(code)?;
    Ok(stock_display_name(code))
}

} // verus!
