//! Recovers the one structured action from free-form text, for models that
//! describe their action in prose instead of a structured call.
//!
//! Braces are matched by counting depth alone; a brace inside a quoted value
//! counts like any other.

use vstd::prelude::*;
use vstd::string::*;
use crate::json::{parsed, Json, JsonView};
use crate::text::{slice_string, to_chars};

verus! {

/// What a character adds to the brace depth.
pub open spec fn brace_step(c: char) -> int {
    if c == '{' {
        1
    } else if c == '}' {
        -1
    } else {
        0
    }
}

/// Opening braces minus closing braces among `s[from..to]`.
pub open spec fn balance(s: Seq<char>, from: int, to: int) -> int
    decreases to - from,
{
    if to <= from {
        0
    } else {
        balance(s, from, to - 1) + brace_step(s[to - 1])
    }
}

/// First position at or after `at` where the depth counted from `open`
/// returns to zero.
pub open spec fn close_from(s: Seq<char>, open: int, at: int) -> Option<int>
    decreases s.len() - at,
{
    if at < open || at >= s.len() {
        None
    } else if balance(s, open, at + 1) == 0 {
        Some(at)
    } else {
        close_from(s, open, at + 1)
    }
}

/// Position of the brace that closes the one at `open`.
pub open spec fn matching_close(s: Seq<char>, open: int) -> Option<int> {
    close_from(s, open, open)
}

/// The balanced text that begins with the brace at `open`.
pub open spec fn candidate(s: Seq<char>, open: int) -> Option<Seq<char>> {
    if 0 <= open < s.len() && s[open] == '{' {
        match matching_close(s, open) {
            Some(close) => Some(s.subrange(open, close + 1)),
            None => None,
        }
    } else {
        None
    }
}

/// An object is an action when it has at least one of the keys by which an
/// action is recognised.
pub open spec fn is_action(value: JsonView) -> bool {
    value is Object && (value.has_key("command"@) || value.has_key("tool"@) || value.has_key(
        "name"@,
    ) || value.has_key("function"@))
}

/// The action that begins at `open`: the candidate there parses and is an
/// action.
pub open spec fn action_at(s: Seq<char>, open: int) -> Option<JsonView> {
    match candidate(s, open) {
        Some(text) => match parsed(text) {
            Some(value) => if is_action(value) {
                Some(value)
            } else {
                None
            },
            None => None,
        },
        None => None,
    }
}

/// The action that begins at the rightmost position at or before `open`
/// where one begins.
pub open spec fn action_before(s: Seq<char>, open: int) -> Option<JsonView>
    decreases open + 1,
{
    if open < 0 {
        None
    } else if action_at(s, open) is Some {
        action_at(s, open)
    } else {
        action_before(s, open - 1)
    }
}

/// The action that `text` describes: of all balanced brace spans that parse
/// as an action, the one that begins last.
pub open spec fn extract(text: Seq<char>) -> Option<JsonView> {
    action_before(text, text.len() - 1)
}

/// Without an action at any position up to `open`, none is found.
proof fn lemma_action_before_none(s: Seq<char>, open: int)
    requires
        forall|i: int| 0 <= i <= open ==> action_at(s, i) is None,
    ensures
        action_before(s, open) is None,
    decreases open + 1,
{
    if open >= 0 {
        lemma_action_before_none(s, open - 1);
    }
}

/// Text without any balanced brace span describes no action.
pub proof fn lemma_no_balanced_braces(text: Seq<char>)
    requires
        forall|open: int| candidate(text, open) is None,
    ensures
        extract(text) is None,
{
    lemma_action_before_none(text, text.len() - 1);
}

/// The action found is the one that begins last: it begins at some brace,
/// and no action begins at any later position.
pub proof fn lemma_extract_rightmost(text: Seq<char>)
    ensures
        match extract(text) {
            Some(value) => exists|open: int|
                0 <= open < text.len() && #[trigger] action_at(text, open) == Some(value)
                    && forall|later: int|
                    open < later < text.len() ==> action_at(text, later) is None,
            None => forall|open: int| 0 <= open < text.len() ==> action_at(text, open) is None,
        },
{
    lemma_action_before_rightmost(text, text.len() - 1);
}

/// `action_before` returns the action at the last position, at or before
/// `open`, where one begins.
proof fn lemma_action_before_rightmost(s: Seq<char>, open: int)
    requires
        open < s.len(),
    ensures
        match action_before(s, open) {
            Some(value) => exists|at: int|
                0 <= at <= open && #[trigger] action_at(s, at) == Some(value) && forall|later: int|
                    at < later <= open ==> action_at(s, later) is None,
            None => forall|at: int| 0 <= at <= open ==> action_at(s, at) is None,
        },
    decreases open + 1,
{
    if open >= 0 {
        if action_at(s, open) is Some {
            assert(action_at(s, open) == Some(action_before(s, open)->0));
        } else {
            lemma_action_before_rightmost(s, open - 1);
            match action_before(s, open - 1) {
                Some(value) => {
                    let at = choose|at: int|
                        0 <= at <= open - 1 && #[trigger] action_at(s, at) == Some(value)
                            && forall|later: int|
                            at < later <= open - 1 ==> action_at(s, later) is None;
                    assert(action_at(s, at) == Some(value));
                },
                None => {},
            }
        }
    }
}

/// The depth moves by one character at a time.
proof fn lemma_balance_step(s: Seq<char>, from: int, to: int)
    requires
        from <= to,
    ensures
        balance(s, from, to + 1) == balance(s, from, to) + brace_step(s[to]),
{
}

/// Whether `value` is an object with at least one key by which an action is
/// recognised.
pub fn is_action_value(value: &Json) -> (action: bool)
    ensures
        action == is_action(value@),
{
    match value {
        Json::Object(_) => value.has_key("command") || value.has_key("tool") || value.has_key(
            "name",
        ) || value.has_key("function"),
        _ => false,
    }
}

/// Position of the brace that closes the one at `open`, by counting depth.
pub fn find_close(chars: &Vec<char>, open: usize) -> (close: Option<usize>)
    requires
        open < chars.len(),
        chars[open as int] == '{',
    ensures
        match close {
            Some(j) => matching_close(chars@, open as int) == Some(j as int) && open < j
                < chars.len(),
            None => matching_close(chars@, open as int) is None,
        },
{
    let mut depth: usize = 1;
    let mut at: usize = open + 1;
    proof {
        lemma_balance_step(chars@, open as int, open as int);
        assert(balance(chars@, open as int, open as int) == 0);
    }
    while at < chars.len()
        invariant
            open < at <= chars.len(),
            depth >= 1,
            depth == balance(chars@, open as int, at as int),
            depth <= at - open,
            close_from(chars@, open as int, open as int) == close_from(
                chars@,
                open as int,
                at as int,
            ),
        decreases chars.len() - at,
    {
        let c = chars[at];
        proof {
            lemma_balance_step(chars@, open as int, at as int);
        }
        if c == '{' {
            depth += 1;
        } else if c == '}' {
            depth -= 1;
            if depth == 0 {
                return Some(at);
            }
        }
        at += 1;
    }
    None
}

/// The one structured action that `text` describes, if any: the rightmost
/// balanced brace span that parses as an object with a recognised action key.
pub fn extract_action(text: &str) -> (action: Option<Json>)
    ensures
        match action {
            Some(value) => extract(text@) == Some(value@),
            None => extract(text@) is None,
        },
{
    let chars = to_chars(text);
    let mut open: usize = chars.len();
    while open > 0
        invariant
            open <= chars.len(),
            chars@ == text@,
            extract(text@) == action_before(text@, open - 1),
        decreases open,
    {
        open -= 1;
        if chars[open] == '{' {
            match find_close(&chars, open) {
                Some(close) => {
                    let piece = slice_string(&chars, open, close + 1);
                    match Json::parse(piece.as_str()) {
                        Some(value) => {
                            if is_action_value(&value) {
                                return Some(value);
                            }
                        },
                        None => {},
                    }
                },
                None => {},
            }
        }
    }
    None
}

} // verus!
