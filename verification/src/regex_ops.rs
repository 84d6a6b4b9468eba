//! Calls into the `regex` crate.
//!
//! Each wrapper compiles its pattern with `regex::Regex::new` and runs one search
//! method. What the search returns depends on the pattern and the text alone, so
//! each result is given a name below; `None` stands for a pattern that does not
//! compile. Nothing else is claimed of the regex engine.
use vstd::prelude::*;

verus! {

/// `Regex::new(pattern)` then `Regex::is_match(text)`.
pub uninterp spec fn regex_is_match(pattern: Seq<char>, text: Seq<char>) -> Option<bool>;

/// `Regex::new(pattern)` then the pieces of `Regex::split(text)`.
pub uninterp spec fn regex_split(pattern: Seq<char>, text: Seq<char>) -> Option<Seq<Seq<char>>>;

/// `Regex::new(pattern)` then `Regex::find(text)`, the match given as the text
/// before it, the matched text and the text after it.
pub uninterp spec fn regex_find(pattern: Seq<char>, text: Seq<char>) -> Option<
    Option<(Seq<char>, Seq<char>, Seq<char>)>,
>;

/// `Regex::new(pattern)` then, for every match of `Regex::captures_iter(text)` in
/// order, the text of capture group `group` (`Captures::get`).
pub uninterp spec fn regex_captures(pattern: Seq<char>, text: Seq<char>, group: usize) -> Option<
    Seq<Option<Seq<char>>>,
>;

/// Compiles `pattern` with `regex::Regex::new` and calls `Regex::is_match` on
/// `text`. Claims only that the result is the named one.
#[verifier::external_body]
pub(crate) fn regex_test(pattern: &str, text: &str) -> (r: Option<bool>)
    ensures
        r == regex_is_match(pattern@, text@),
{
    match regex::Regex::new(pattern) {
        Ok(re) => Some(re.is_match(text)),
        Err(_) => None,
    }
}

/// Compiles `pattern` with `regex::Regex::new` and collects the pieces of
/// `Regex::split` on `text`. Claims only that the result is the named one.
#[verifier::external_body]
pub(crate) fn regex_split_text(pattern: &str, text: &str) -> (r: Option<Vec<String>>)
    ensures
        match r {
            Some(v) => regex_split(pattern@, text@) == Some(v.deep_view()),
            None => regex_split(pattern@, text@).is_none(),
        },
{
    match regex::Regex::new(pattern) {
        Ok(re) => {
            let mut out = Vec::new();
            for piece in re.split(text) {
                out.push(piece.to_string());
            }
            Some(out)
        },
        Err(_) => None,
    }
}

/// Compiles `pattern` with `regex::Regex::new` and calls `Regex::find` on
/// `text`. Claims the result is the named one, and, as the `Match` documentation
/// states (`as_str` is `&haystack[start..end]`), that the three parts of a
/// match make up `text`.
#[verifier::external_body]
pub(crate) fn regex_find_text(pattern: &str, text: &str) -> (r: Option<Option<(String, String, String)>>)
    ensures
        match r {
            Some(Some((pre, m, post))) => regex_find(pattern@, text@) == Some(
                Some((pre@, m@, post@)),
            ) && pre@ + m@ + post@ == text@,
            Some(None) => regex_find(pattern@, text@) == Some(
                None::<(Seq<char>, Seq<char>, Seq<char>)>,
            ),
            None => regex_find(pattern@, text@).is_none(),
        },
{
    match regex::Regex::new(pattern) {
        Ok(re) => match re.find(text) {
            Some(m) => Some(
                Some((text[..m.start()].to_string(), m.as_str().to_string(), text[m.end()..].to_string())),
            ),
            None => Some(None),
        },
        Err(_) => None,
    }
}

/// Compiles `pattern` with `regex::Regex::new` and collects, for each item of
/// `Regex::captures_iter` on `text`, `Captures::get(group)` as text. Claims only
/// that the result is the named one.
#[verifier::external_body]
pub(crate) fn regex_captures_text(pattern: &str, text: &str, group: usize) -> (r: Option<
    Vec<Option<String>>,
>)
    ensures
        match r {
            Some(v) => regex_captures(pattern@, text@, group) == Some(opt_texts(v@)),
            None => regex_captures(pattern@, text@, group).is_none(),
        },
{
    match regex::Regex::new(pattern) {
        Ok(re) => {
            let mut out = Vec::new();
            for caps in re.captures_iter(text) {
                match caps.get(group) {
                    Some(m) => out.push(Some(m.as_str().to_string())),
                    None => out.push(None),
                }
            }
            Some(out)
        },
        Err(_) => None,
    }
}

/// The texts of optional strings.
pub open spec fn opt_texts(v: Seq<Option<String>>) -> Seq<Option<Seq<char>>> {
    v.map_values(|o: Option<String>| opt_text(o))
}

/// The text of an optional string.
pub open spec fn opt_text(o: Option<String>) -> Option<Seq<char>> {
    match o {
        Some(s) => Some(s@),
        None => None,
    }
}

} // verus!
