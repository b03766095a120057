use vstd::prelude::*;

use crate::page::extra_document;

verus! {

// The JSON documents of the library are held as their text. These are the calls into
// `serde_json` that read and change them. What `serde_json` parses and prints takes pages to
// state, so each result is given a name; the names hold of the text of the documents.

/// The error of `serde_json`, carried through unread.
#[verifier::external_type_specification]
#[verifier::external_body]
pub struct ExJsonError(serde_json::Error);

/// The deepest nesting of arrays and objects in the JSON text `text` from index `i` on, where
/// `open` arrays and objects are open before `i`, and `in_string` and `escaped` say whether
/// `i` stands inside a string, just after a backslash there. Brackets inside strings do not
/// count.
pub open spec fn nesting_from(text: Seq<char>, i: int, open: int, in_string: bool, escaped: bool) -> int
    decreases text.len() - i,
{
    if i < 0 || i >= text.len() {
        open
    } else {
        let c = text[i];
        if in_string {
            if escaped {
                nesting_from(text, i + 1, open, true, false)
            } else if c == '\\' {
                nesting_from(text, i + 1, open, true, true)
            } else if c == '"' {
                nesting_from(text, i + 1, open, false, false)
            } else {
                nesting_from(text, i + 1, open, true, false)
            }
        } else if c == '"' {
            nesting_from(text, i + 1, open, true, false)
        } else if c == '[' || c == '{' {
            let deeper = nesting_from(text, i + 1, open + 1, false, false);
            if deeper > open { deeper } else { open }
        } else if c == ']' || c == '}' {
            let rest = nesting_from(text, i + 1, open - 1, false, false);
            if rest > open { rest } else { open }
        } else {
            nesting_from(text, i + 1, open, false, false)
        }
    }
}

/// The deepest nesting of arrays and objects in the JSON text `text`: the most `[` and `{`
/// open at once outside strings. `serde_json` parses a document only up to 127 levels deep.
pub open spec fn json_nesting(text: Seq<char>) -> int {
    nesting_from(text, 0, 0, false, false)
}

/// What `take_field` yields for `doc` and `key`: `None` when `doc` is not a JSON document;
/// otherwise `Some(f)`, where `f` is the compact JSON text of the member `key` when `doc` is
/// an object holding that member, and `None` when it is not.
pub uninterp spec fn json_field(doc: Seq<char>, key: Seq<char>) -> Option<Option<Seq<char>>>;

/// What `pointer_str` yields for `doc` and `pointer`: `None` when `doc` is not a JSON
/// document; otherwise `Some(s)`, where `s` is the string that the JSON pointer `pointer`
/// (RFC 6901) addresses in `doc`, and `None` when it addresses nothing or no string.
pub uninterp spec fn json_pointer_str(doc: Seq<char>, pointer: Seq<char>) -> Option<
    Option<Seq<char>>,
>;

/// What `assign_at_pointer` yields for `doc`, `pointer` and `text`: `None` when `doc` is not
/// a JSON document; otherwise `Some(d)`, where `d` is the compact JSON text of `doc` with the
/// value that `pointer` addresses replaced by the string `text`, and `None` when `pointer`
/// addresses nothing.
pub uninterp spec fn json_pointer_assign(doc: Seq<char>, pointer: Seq<char>, text: Seq<char>) -> Option<
    Option<Seq<char>>,
>;

/// What `is_null` yields for `doc`: `None` when `doc` is not a JSON document; otherwise
/// whether it is `null`.
pub uninterp spec fn json_null(doc: Seq<char>) -> Option<bool>;

/// Parses `doc` with `serde_json::from_str`, removes the member `key` with
/// `Value::as_object_mut` and `Map::remove`, and prints that member compactly (`Display`).
/// The contract claims that the result is `json_field` of the arguments, that a parse error
/// is what `None` there stands for, and one fact of serde_json's parser: it refuses a document
/// nested deeper than 127 levels, so a member of an object it parsed is at most 126 deep.
#[verifier::external_body]
pub(crate) fn take_field(doc: &str, key: &str) -> (r: Result<Option<String>, serde_json::Error>)
    ensures
        match r {
            Err(_) => json_field(doc@, key@) is None,
            Ok(f) => json_field(doc@, key@) == Some(f.deep_view()),
        },
        r matches Ok(Some(f)) ==> json_nesting(f@) <= 126,
{
    let mut value: serde_json::Value = match serde_json::from_str(doc) {
        Ok(v) => v,
        Err(e) => return Err(e),
    };
    let field = match value.as_object_mut() {
        Some(object) => object.remove(key),
        None => None,
    };
    match field {
        Some(f) => Ok(Some(f.to_string())),
        None => Ok(None),
    }
}

/// Parses `doc` with `serde_json::from_str`, follows `pointer` with `Value::pointer`, and
/// reads the string there with `Value::as_str`. The contract claims only that the result is
/// `json_pointer_str` of the arguments.
#[verifier::external_body]
pub(crate) fn pointer_str(doc: &str, pointer: &str) -> (r: Result<Option<String>, serde_json::Error>)
    ensures
        match r {
            Err(_) => json_pointer_str(doc@, pointer@) is None,
            Ok(s) => json_pointer_str(doc@, pointer@) == Some(s.deep_view()),
        },
{
    let value: serde_json::Value = match serde_json::from_str(doc) {
        Ok(v) => v,
        Err(e) => return Err(e),
    };
    match value.pointer(pointer) {
        Some(target) => match target.as_str() {
            Some(s) => Ok(Some(s.to_string())),
            None => Ok(None),
        },
        None => Ok(None),
    }
}

/// Parses `doc` with `serde_json::from_str`, follows `pointer` with `Value::pointer_mut`,
/// puts the string `text` there, and prints the document compactly (`Display`).
/// Besides naming the result, the contract claims five facts of serde_json's source:
/// both calls parse `doc` alike, so this fails exactly when `pointer_str` does;
/// `pointer_mut` follows a pointer exactly as `pointer` does, so where `pointer_str` finds a
/// string this finds a place; what is printed parses back to the same document (with the
/// `float_roundtrip` feature, floats too), so the pointer then addresses the string `text`;
/// putting a string in place of a value nests the document no deeper; and, as long as the
/// printed document is at most 126 deep (so that wrapping it stays within the parser's limit
/// of 127 levels), the member `extra` of the object `{"extra":<printed>}` prints again as the
/// same text.
#[verifier::external_body]
pub(crate) fn assign_at_pointer(doc: &str, pointer: &str, text: &str) -> (r: Result<
    Option<String>,
    serde_json::Error,
>)
    ensures
        match r {
            Err(_) => json_pointer_assign(doc@, pointer@, text@) is None,
            Ok(d) => json_pointer_assign(doc@, pointer@, text@) == Some(d.deep_view()),
        },
        r is Err <==> json_pointer_str(doc@, pointer@) is None,
        json_pointer_str(doc@, pointer@) matches Some(Some(_)) ==> r matches Ok(Some(_)),
        r matches Ok(Some(d)) ==> json_pointer_str(d@, pointer@) == Some(Some(text@)),
        r matches Ok(Some(d)) ==> json_nesting(d@) <= json_nesting(doc@),
        r matches Ok(Some(d)) ==> (json_nesting(d@) <= 126 ==> json_field(
            extra_document(d@),
            "extra"@,
        ) == Some(Some(d@))),
{
    let mut value: serde_json::Value = match serde_json::from_str(doc) {
        Ok(v) => v,
        Err(e) => return Err(e),
    };
    match value.pointer_mut(pointer) {
        Some(slot) => *slot = serde_json::Value::String(text.to_string()),
        None => return Ok(None),
    }
    Ok(Some(value.to_string()))
}

/// Whether a character is JSON whitespace.
pub open spec fn is_json_whitespace(c: char) -> bool {
    c == ' ' || c == '\t' || c == '\n' || c == '\r'
}

/// Whether `doc` reads `null`, with nothing but JSON whitespace around it.
pub open spec fn is_null_text(doc: Seq<char>) -> bool {
    exists|i: int|
        #![trigger doc.subrange(i, i + 4)]
        0 <= i && i + 4 <= doc.len() && doc.subrange(i, i + 4) == "null"@ && (forall|k: int|
            0 <= k < i ==> is_json_whitespace(#[trigger] doc[k])) && (forall|k: int|
            i + 4 <= k < doc.len() ==> is_json_whitespace(#[trigger] doc[k]))
}

/// Parses `doc` with `serde_json::from_str` and asks `Value::is_null`. Besides naming the
/// result, the contract claims what the parser's source shows: the document is `null` exactly
/// when its text reads `null` with only whitespace around it, and such a text always parses.
#[verifier::external_body]
pub(crate) fn is_null(doc: &str) -> (r: Result<bool, serde_json::Error>)
    ensures
        match r {
            Err(_) => json_null(doc@) is None,
            Ok(b) => json_null(doc@) == Some(b),
        },
        r matches Ok(b) ==> (b <==> is_null_text(doc@)),
        is_null_text(doc@) ==> r matches Ok(true),
{
    match serde_json::from_str::<serde_json::Value>(doc) {
        Ok(v) => Ok(v.is_null()),
        Err(e) => Err(e),
    }
}

} // verus!
