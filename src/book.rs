use vstd::prelude::*;

verus! {

/// Whether `pattern` is a regular expression that the regex crate accepts.
pub uninterp spec fn regex_valid(pattern: Seq<char>) -> bool;

/// `text` with every match of `pattern` replaced by `replacement` (where `$1` and the
/// like stand for capture groups), as the regex crate does it.
pub uninterp spec fn regex_replaced(
    pattern: Seq<char>,
    text: Seq<char>,
    replacement: Seq<char>,
) -> Seq<char>;

/// Relies on `regex::Regex::new`, which fails exactly on patterns it does not accept,
/// and `Regex::replace_all`, whose result depends on the pattern, the text and the
/// replacement alone.
#[verifier::external_body]
fn replace_all_matches(pattern: &str, text: &str, replacement: &str) -> (r: Option<String>)
    ensures
        r is Some <==> regex_valid(pattern@),
        r matches Some(s) ==> s@ == regex_replaced(pattern@, text@, replacement@),
{
    match regex::Regex::new(pattern) {
        Ok(re) => Some(re.replace_all(text, replacement).into_owned()),
        Err(_) => None,
    }
}

/// One rewriting rule: the text with `pattern` replaced, or as it was if the pattern
/// is not accepted.
pub open spec fn rule_applied(pattern: Seq<char>, text: Seq<char>, replacement: Seq<char>) -> Seq<
    char,
> {
    if regex_valid(pattern) {
        regex_replaced(pattern, text, replacement)
    } else {
        text
    }
}

/// A book as typed: carriage returns removed, the final line break removed, single
/// line breaks inside paragraphs turned into spaces, and double spaces halved.
pub open spec fn cleaned_book(raw: Seq<char>) -> Seq<char> {
    let no_cr = rule_applied("\\r"@, raw, ""@);
    let no_final = rule_applied("\\r?\\n$"@, no_cr, ""@);
    let joined = rule_applied("([^\\n])\\n([^\\n])"@, no_final, "$1 $2"@);
    rule_applied("  "@, joined, " "@)
}

fn apply_rule(pattern: &str, text: String, replacement: &str) -> (r: String)
    ensures
        r@ == rule_applied(pattern@, text@, replacement@),
{
    match replace_all_matches(pattern, text.as_str(), replacement) {
        Some(s) => s,
        None => text,
    }
}

/// Prepares the text of a book file for practice; see [`cleaned_book`].
pub fn clean_book_text(raw: String) -> (r: String)
    ensures
        r@ == cleaned_book(raw@),
{
    let text = apply_rule("\\r", raw, "");
    let text = apply_rule("\\r?\\n$", text, "");
    let text = apply_rule("([^\\n])\\n([^\\n])", text, "$1 $2");
    apply_rule("  ", text, " ")
}

} // verus!
