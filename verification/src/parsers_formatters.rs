//! Parsers and formatters for property values and for comma-separated lists
//! of them.
//!
//! A list is written as its elements' texts with a comma between each two. In
//! a list that is read, a backslash makes the character after it part of the
//! element, so that an element can hold a comma.

use crate::text::text_eq;
use std::fmt::Display;
use std::str::FromStr;
use vstd::prelude::*;
use vstd::std_specs::iter::IteratorSpec;
use vstd::string::to_string_from_display_ensures;
use vstd::string::StringExecFns;

verus! {

// Texts and messages.
/// The message for a `text` that is no value of the type called `target`.
pub open spec fn cannot_convert(text: Seq<char>, target: Seq<char>) -> Seq<char> {
    "Can't convert '"@ + text + "' to '"@ + target + "'."@
}

/// The boolean that `text` stands for where only `1`, `true`, `0` and `false`
/// are read.
pub open spec fn strict_bool(text: Seq<char>) -> Option<bool> {
    if text == "1"@ || text == "true"@ {
        Some(true)
    } else if text == "0"@ || text == "false"@ {
        Some(false)
    } else {
        None
    }
}

/// The text `true` or `false`.
pub open spec fn bool_text(v: bool) -> Seq<char> {
    if v {
        "true"@
    } else {
        "false"@
    }
}

/// The text `1` or `0`.
pub open spec fn bool_digit(v: bool) -> Seq<char> {
    if v {
        "1"@
    } else {
        "0"@
    }
}

// Lists as text.
/// Where the element that starts at `i` ends: the index of the first comma at
/// or after `i` that no backslash stands before, or the length of `s`.
pub open spec fn token_end(s: Seq<char>, i: int) -> int
    decreases s.len() - i,
{
    if i < 0 || i >= s.len() {
        s.len() as int
    } else if s[i] == ',' {
        i
    } else if s[i] == '\\' {
        if i + 1 < s.len() {
            token_end(s, i + 2)
        } else {
            s.len() as int
        }
    } else {
        token_end(s, i + 1)
    }
}

/// The element that starts at `i`, with each backslash dropped and the
/// character after it kept.
pub open spec fn token_text(s: Seq<char>, i: int) -> Seq<char>
    decreases s.len() - i,
{
    if i < 0 || i >= s.len() {
        Seq::empty()
    } else if s[i] == ',' {
        Seq::empty()
    } else if s[i] == '\\' {
        if i + 1 < s.len() {
            seq![s[i + 1]] + token_text(s, i + 2)
        } else {
            Seq::empty()
        }
    } else {
        seq![s[i]] + token_text(s, i + 1)
    }
}

/// An element ends at or after the index where it starts, and within the
/// text.
pub proof fn lemma_token_end_bounds(s: Seq<char>, i: int)
    requires
        0 <= i <= s.len(),
    ensures
        i <= token_end(s, i) <= s.len(),
    decreases s.len() - i,
{
    if i < s.len() && s[i] != ',' {
        if s[i] == '\\' {
            if i + 1 < s.len() {
                lemma_token_end_bounds(s, i + 2);
            }
        } else {
            lemma_token_end_bounds(s, i + 1);
        }
    }
}

/// The elements of `s` from index `i` on.
pub open spec fn split_from(s: Seq<char>, i: int) -> Seq<Seq<char>>
    decreases s.len() - i + 1,
{
    if i < 0 || i >= s.len() {
        Seq::empty()
    } else {
        proof {
            lemma_token_end_bounds(s, i);
        }
        seq![token_text(s, i)] + split_from(s, token_end(s, i) + 1)
    }
}

/// The elements of the list `s`. The empty text is the empty list, and a comma
/// at the very end starts no further element.
pub open spec fn split_list(s: Seq<char>) -> Seq<Seq<char>> {
    split_from(s, 0)
}

/// The texts with a comma between each two.
pub open spec fn join_list(texts: Seq<Seq<char>>) -> Seq<char>
    decreases texts.len(),
{
    if texts.len() == 0 {
        Seq::empty()
    } else if texts.len() == 1 {
        texts[0]
    } else {
        join_list(texts.drop_last()) + seq![','] + texts.last()
    }
}

/// Whether `f`, called on a string that reads `token`, may return `out`.
pub open spec fn token_gives<T, F: Fn(&str) -> Result<T, String>>(
    f: F,
    token: Seq<char>,
    out: Result<T, String>,
) -> bool {
    exists|t: &str| t@ == token && call_ensures(f, (t,), out)
}

/// Whether `f`, called on a string that reads `token`, may return a value.
pub open spec fn token_accepted<T, F: Fn(&str) -> Result<T, String>>(f: F, token: Seq<char>) -> bool {
    exists|v: T| token_gives(f, token, Ok(v))
}

/// Whether `r` is what parsing the elements `tokens` with `f` comes to: all
/// the values in order, or the error of the first element that `f` refuses.
pub open spec fn list_parsed_by<T, F: Fn(&str) -> Result<T, String>>(
    f: F,
    tokens: Seq<Seq<char>>,
    r: Result<Vec<T>, String>,
) -> bool {
    match r {
        Ok(items) => {
            &&& items@.len() == tokens.len()
            &&& forall|i: int|
                0 <= i < tokens.len() ==> #[trigger] token_gives(f, tokens[i], Ok(items@[i]))
        },
        Err(msg) => exists|i: int|
            {
                &&& 0 <= i < tokens.len()
                &&& #[trigger] token_gives(f, tokens[i], Err(msg))
                &&& forall|j: int| 0 <= j < i ==> #[trigger] token_accepted(f, tokens[j])
            },
    }
}

/// Whether `f`, called on `item`, may return a string that reads `text`.
pub open spec fn item_gives<T, F: Fn(&T) -> String>(f: F, item: T, text: Seq<char>) -> bool {
    exists|s: String| s@ == text && call_ensures(f, (&item,), s)
}

/// Whether `r` is the list of what `f` makes of each of `items`.
pub open spec fn list_formatted_by<T, F: Fn(&T) -> String>(
    f: F,
    items: Seq<T>,
    r: Seq<char>,
) -> bool {
    exists|texts: Seq<Seq<char>>|
        {
            &&& texts.len() == items.len()
            &&& forall|i: int|
                0 <= i < items.len() ==> #[trigger] item_gives(f, items[i], texts[i])
            &&& r == join_list(texts)
        }
}

// Parsers.
/// `std::str::parse`, with the error dropped. Which texts a type reads, and as
/// what, is up to the type: nothing is claimed of the result.
#[verifier::external_body]
fn from_text<T: FromStr>(s: &str) -> (r: Option<T>) {
    s.parse::<T>().ok()
}

/// Builds the message for a `text` that is no value of the type `target`.
fn conversion_error(text: &str, target: &str) -> (msg: String)
    ensures
        msg@ == cannot_convert(text@, target@),
{
    let mut msg = "Can't convert '".to_owned();
    msg.append(text);
    msg.append("' to '");
    msg.append(target);
    msg.append("'.");
    msg
}

/// What parsing `s` comes to once its type has read it: the value that the
/// type made of `s`, or, where it made none, an error that names `s` and the
/// type.
pub fn parse_outcome<T>(s: &str, parsed: Option<T>, target: &str) -> (r: Result<T, String>)
    ensures
        match parsed {
            Some(v) => r == Ok::<T, String>(v),
            None => r matches Err(msg) && msg@ == cannot_convert(s@, target@),
        },
{
    match parsed {
        Some(v) => Ok(v),
        None => Err(conversion_error(s, target)),
    }
}

/// Parses the given string as a `T`, or returns an error including the string
/// value and `target`, the name by which the caller knows `T`.
pub fn parse<T: FromStr>(s: &str, target: &str) -> (r: Result<T, String>)
    ensures
        r matches Err(msg) ==> msg@ == cannot_convert(s@, target@),
{
    let parsed = from_text::<T>(s);
    parse_outcome(s, parsed, target)
}

/// Parses the given string as a boolean or returns an error message including
/// the string.
///
/// `true` and `1` are both considered true, `false` and `0` are false. Any
/// other value is invalid.
pub fn parse_bool(s: &str) -> (r: Result<bool, String>)
    ensures
        match strict_bool(s@) {
            Some(b) => r == Ok::<bool, String>(b),
            None => r matches Err(msg) && msg@ == cannot_convert(s@, "bool"@),
        },
{
    if text_eq(s, "1") || text_eq(s, "true") {
        Ok(true)
    } else if text_eq(s, "0") || text_eq(s, "false") {
        Ok(false)
    } else {
        Err(conversion_error(s, "bool"))
    }
}

/// A list whose element `at` is refused by `f` with `msg`, and whose elements
/// before that `f` accepts, parses to that error.
proof fn lemma_refused_at<T, F: Fn(&str) -> Result<T, String>>(
    f: F,
    tokens: Seq<Seq<char>>,
    at: int,
    msg: String,
)
    requires
        0 <= at < tokens.len(),
        token_gives(f, tokens[at], Err::<T, String>(msg)),
        forall|j: int| 0 <= j < at ==> #[trigger] token_accepted(f, tokens[j]),
    ensures
        list_parsed_by(f, tokens, Err::<Vec<T>, String>(msg)),
{
    // The message that the list's error holds is `msg` itself.
    assert(Err::<Vec<T>, String>(msg)->Err_0 == msg);
}

/// Parses the given string as a comma-separated list, each element by `f`.
///
/// The result holds what `f` made of each element, in order. Where `f`
/// refuses an element, its error is returned and the elements after it are
/// not looked at.
pub fn parse_list_with<T, F>(s: &str, f: F) -> (r: Result<Vec<T>, String>) where
    F: Fn(&str) -> Result<T, String>,

    requires
        forall|t: &str| split_list(s@).contains(t@) ==> call_requires(f, (t,)),
    ensures
        list_parsed_by(f, split_list(s@), r),
{
    let mut result: Vec<T> = Vec::new();
    if s.is_empty() {
        return Ok(result);
    }
    let ghost text = s@;
    let ghost mut done: Seq<Seq<char>> = Seq::empty();
    // `taken` counts the characters that `chars` has handed out; `current` is
    // the last of them, or `None` once the text is used up.
    let ghost mut taken: int = 1;
    let mut chars = s.chars();
    let mut current = chars.next();
    while current.is_some()
        invariant
            text == s@,
            chars.obeys_prophetic_iter_laws(),
            0 <= taken <= text.len(),
            chars.remaining() == text.subrange(taken, text.len() as int),
            current matches Some(c) ==> taken >= 1 && c == text[taken - 1],
            current is None ==> taken == text.len(),
            forall|t: &str| split_list(text).contains(t@) ==> call_requires(f, (t,)),
            split_list(text) == done + split_from(
                text,
                if current is Some {
                    taken - 1
                } else {
                    text.len() as int
                },
            ),
            result@.len() == done.len(),
            forall|i: int|
                0 <= i < done.len() ==> #[trigger] token_gives(f, done[i], Ok(result@[i])),
        decreases
                text.len() - taken + (if current is Some {
                    1int
                } else {
                    0int
                }),
    {
        // Extract token.
        let ghost start = taken - 1;
        let mut token = String::new();
        loop
            invariant
                text == s@,
                chars.obeys_prophetic_iter_laws(),
                0 <= start < text.len(),
                start < taken <= text.len(),
                chars.remaining() == text.subrange(taken, text.len() as int),
                current matches Some(c) ==> c == text[taken - 1],
                current is None ==> taken == text.len(),
                token@ + token_text(
                    text,
                    if current is Some {
                        taken - 1
                    } else {
                        text.len() as int
                    },
                ) == token_text(text, start),
                token_end(
                    text,
                    if current is Some {
                        taken - 1
                    } else {
                        text.len() as int
                    },
                ) == token_end(text, start),
            ensures
                current matches Some(c) ==> c == ',',
                token@ == token_text(text, start),
                (if current is Some {
                    taken - 1
                } else {
                    text.len() as int
                }) == token_end(text, start),
            decreases
                    text.len() - taken + (if current is Some {
                        1int
                    } else {
                        0int
                    }),
        {
            let ghost here = taken - 1;
            match current {
                None => {
                    break ;
                },
                Some(value) => {
                    if value == ',' {
                        break ;
                    }
                    let mut literal = current;
                    if value == '\\' {
                        literal = chars.next();
                        proof {
                            if literal is Some {
                                taken = taken + 1;
                            }
                        }
                    }
                    if let Some(kept) = literal {
                        token.push(kept);
                    }
                    current = chars.next();
                    proof {
                        if current is Some {
                            taken = taken + 1;
                        }
                        assert(token@ + token_text(
                            text,
                            if current is Some {
                                taken - 1
                            } else {
                                text.len() as int
                            },
                        ) =~= token_text(text, start));
                    }
                },
            }
        }
        // Parse token.
        let ghost end = token_end(text, start);
        let ghost tokens = split_list(text);
        let ghost at = done.len() as int;
        let word = token.as_str();
        proof {
            assert(tokens =~= done + (seq![token@] + split_from(text, end + 1)));
            assert(tokens[at] == token@);
        }
        let parsed = f(word);
        proof {
            assert(word@ == token@ && call_ensures(f, (word,), parsed));
            assert(token_gives(f, tokens[at], parsed));
        }
        match parsed {
            Ok(item) => {
                result.push(item);
            },
            Err(msg) => {
                proof {
                    assert forall|j: int| 0 <= j < at implies #[trigger] token_accepted(
                        f,
                        tokens[j],
                    ) by {
                        assert(tokens[j] == done[j]);
                        assert(token_gives(f, done[j], Ok(result@[j])));
                    }
                    lemma_refused_at(f, tokens, at, msg);
                }
                return Err(msg);
            },
        }
        current = chars.next();
        proof {
            if current is Some {
                taken = taken + 1;
            }
            assert(tokens =~= done.push(token@) + split_from(text, end + 1));
            done = done.push(token@);
        }
    }
    proof {
        assert(split_list(text) =~= done);
    }
    Ok(result)
}

/// Parses the given string as a comma-separated list of `T`s; `target` is the
/// name by which the caller knows `T`.
///
/// Literal commas can be escaped with `\`. Each element is parsed by `parse`;
/// the first that it refuses ends the parsing with its error.
pub fn parse_list<T: FromStr>(s: &str, target: &str) -> (r: Result<Vec<T>, String>)
    ensures
        r matches Ok(items) ==> items@.len() == split_list(s@).len(),
        r matches Err(msg) ==> exists|i: int|
            0 <= i < split_list(s@).len() && msg@ == cannot_convert(
                #[trigger] split_list(s@)[i],
                target@,
            ),
{
    let one = |token: &str| -> (out: Result<T, String>)
        ensures
            out matches Err(msg) ==> msg@ == cannot_convert(token@, target@),
        { parse::<T>(token, target) };
    let r = parse_list_with(s, one);
    proof {
        if r is Err {
            let msg = r->Err_0;
            let tokens = split_list(s@);
            let i = choose|i: int|
                0 <= i < tokens.len() && #[trigger] token_gives(
                    one,
                    tokens[i],
                    Err::<T, String>(msg),
                );
            assert(msg@ == cannot_convert(tokens[i], target@));
        }
    }
    r
}

/// Whether `r` is what reading each of `tokens` as a boolean comes to: the
/// booleans in order, or the message for the first element that is none.
pub open spec fn strict_bools_parsed(
    tokens: Seq<Seq<char>>,
    r: Result<Seq<bool>, Seq<char>>,
) -> bool {
    match r {
        Ok(items) => {
            &&& items.len() == tokens.len()
            &&& forall|i: int|
                0 <= i < tokens.len() ==> strict_bool(#[trigger] tokens[i]) == Some(items[i])
        },
        Err(msg) => exists|i: int|
            {
                &&& 0 <= i < tokens.len()
                &&& strict_bool(#[trigger] tokens[i]) is None
                &&& msg == cannot_convert(tokens[i], "bool"@)
                &&& forall|j: int| 0 <= j < i ==> strict_bool(#[trigger] tokens[j]) is Some
            },
    }
}

/// Parses the given string as a comma-separated list of booleans.
///
/// Literal commas can be escaped with `\`.
pub fn parse_bool_list(s: &str) -> (r: Result<Vec<bool>, String>)
    ensures
        strict_bools_parsed(
            split_list(s@),
            match r {
                Ok(items) => Ok(items@),
                Err(msg) => Err(msg@),
            },
        ),
{
    let r = parse_list_with(s, parse_bool);
    proof {
        let tokens = split_list(s@);
        if r is Ok {
            let items = r->Ok_0;
            assert forall|i: int| 0 <= i < items@.len() implies strict_bool(
                #[trigger] tokens[i],
            ) == Some(items@[i]) by {
                assert(token_gives(parse_bool, tokens[i], Ok::<bool, String>(items@[i])));
            }
        } else {
            let msg = r->Err_0;
            {
                let i = choose|i: int|
                    {
                        &&& 0 <= i < tokens.len()
                        &&& #[trigger] token_gives(parse_bool, tokens[i], Err::<bool, String>(msg))
                        &&& forall|j: int|
                            0 <= j < i ==> #[trigger] token_accepted(parse_bool, tokens[j])
                    };
                assert forall|j: int| 0 <= j < i implies strict_bool(#[trigger] tokens[j])
                    is Some by {
                    assert(token_accepted(parse_bool, tokens[j]));
                    let v = choose|v: bool|
                        token_gives(parse_bool, tokens[j], Ok::<bool, String>(v));
                    assert(token_gives(parse_bool, tokens[j], Ok::<bool, String>(v)));
                }
                assert(strict_bool(tokens[i]) is None);
                assert(strict_bools_parsed(tokens, Err(msg@)));
            }
        }
    }
    r
}

// Formatters.
/// Converts the given value to a string.
pub fn format<T: Display>(v: &T) -> (r: String)
    ensures
        to_string_from_display_ensures::<T>(v, r),
{
    v.to_string()
}

/// Converts the given value to a string `true` or `false`.
pub fn format_bool(v: &bool) -> (r: String)
    ensures
        r@ == bool_text(*v),
{
    if *v {
        return "true".to_owned();
    }
    "false".to_owned()
}

/// Converts the given value to a string `1` or `0`.
pub fn format_bool_as_int(v: &bool) -> (r: String)
    ensures
        r@ == bool_digit(*v),
{
    if *v {
        return "1".to_owned();
    }
    "0".to_owned()
}

/// Joining one more text to a list that is not empty puts a comma and the
/// text behind what was joined before.
proof fn lemma_join_push(texts: Seq<Seq<char>>, text: Seq<char>)
    ensures
        join_list(texts.push(text)) == if texts.len() == 0 {
            text
        } else {
            join_list(texts) + seq![','] + text
        },
{
    assert(texts.push(text).drop_last() =~= texts);
}

/// Converts the given list of values to a string, each value by `f`, separated
/// by commas.
pub fn format_list_with<T, F>(v: &[T], f: F) -> (r: String) where F: Fn(&T) -> String
    requires
        forall|i: int| 0 <= i < v@.len() ==> call_requires(f, (&#[trigger] v@[i],)),
    ensures
        list_formatted_by(f, v@, r@),
{
    let mut result = String::new();
    let ghost mut texts: Seq<Seq<char>> = Seq::empty();
    let mut i: usize = 0;
    while i < v.len()
        invariant
            i <= v@.len(),
            forall|k: int| 0 <= k < v@.len() ==> call_requires(f, (&#[trigger] v@[k],)),
            texts.len() == i,
            forall|k: int| 0 <= k < i ==> #[trigger] item_gives(f, v@[k], texts[k]),
            result@ == join_list(texts),
        decreases v.len() - i,
    {
        let formatted = f(&v[i]);
        if i > 0 {
            result.append(",");
        }
        result.append(formatted.as_str());
        proof {
            reveal_strlit(",");
            lemma_join_push(texts, formatted@);
            assert(","@ =~= seq![',']);
            assert(item_gives(f, v@[i as int], formatted@));
            texts = texts.push(formatted@);
        }
        i += 1;
    }
    result
}

/// Converts the given list of values to a string, separated by commas.
pub fn format_list<T: Display>(v: &[T]) -> (r: String)
    ensures
        list_formatted_by(format::<T>, v@, r@),
{
    format_list_with(v, format::<T>)
}

/// Converts the given list of booleans to a string, separated by commas.
pub fn format_bool_list(v: &[bool]) -> (r: String)
    ensures
        r@ == join_list(v@.map_values(|b: bool| bool_text(b))),
{
    let r = format_list_with(v, format_bool);
    proof {
        let texts = choose|texts: Seq<Seq<char>>|
            {
                &&& texts.len() == v@.len()
                &&& forall|i: int|
                    0 <= i < v@.len() ==> #[trigger] item_gives(format_bool, v@[i], texts[i])
                &&& r@ == join_list(texts)
            };
        assert forall|i: int| 0 <= i < v@.len() implies texts[i] == bool_text(v@[i]) by {
            assert(item_gives(format_bool, v@[i], texts[i]));
        }
        assert(texts =~= v@.map_values(|b: bool| bool_text(b)));
    }
    r
}

/// Converts the given list of booleans to a string of `0`s and `1`s separated
/// by commas.
pub fn format_bool_list_as_int(v: &[bool]) -> (r: String)
    ensures
        r@ == join_list(v@.map_values(|b: bool| bool_digit(b))),
{
    let r = format_list_with(v, format_bool_as_int);
    proof {
        let texts = choose|texts: Seq<Seq<char>>|
            {
                &&& texts.len() == v@.len()
                &&& forall|i: int|
                    0 <= i < v@.len() ==> #[trigger] item_gives(
                        format_bool_as_int,
                        v@[i],
                        texts[i],
                    )
                &&& r@ == join_list(texts)
            };
        assert forall|i: int| 0 <= i < v@.len() implies texts[i] == bool_digit(v@[i]) by {
            assert(item_gives(format_bool_as_int, v@[i], texts[i]));
        }
        assert(texts =~= v@.map_values(|b: bool| bool_digit(b)));
    }
    r
}

// What formatting and parsing have to do with each other.
/// Whether `text` holds neither a comma nor a backslash.
pub open spec fn is_plain(text: Seq<char>) -> bool {
    forall|k: int| 0 <= k < text.len() ==> text[k] != ',' && text[k] != '\\'
}

/// Reading an element takes no notice of the text before the index where the
/// reading starts.
proof fn lemma_scan_shift(a: Seq<char>, b: Seq<char>, i: int)
    requires
        0 <= i <= b.len(),
    ensures
        token_end(a + b, a.len() + i) == a.len() + token_end(b, i),
        token_text(a + b, a.len() + i) == token_text(b, i),
    decreases b.len() - i,
{
    let s = a + b;
    if i < b.len() {
        assert(s[a.len() + i] == b[i]);
        if b[i] == ',' {
        } else if b[i] == '\\' {
            if i + 1 < b.len() {
                assert(s[a.len() + i + 1] == b[i + 1]);
                lemma_scan_shift(a, b, i + 2);
            }
        } else {
            lemma_scan_shift(a, b, i + 1);
        }
    }
}

/// The elements from an index on are those of the text that starts there.
proof fn lemma_split_shift(a: Seq<char>, b: Seq<char>, i: int)
    requires
        0 <= i <= b.len() + 1,
    ensures
        split_from(a + b, a.len() + i) == split_from(b, i),
    decreases b.len() - i + 1,
{
    if i < b.len() {
        lemma_scan_shift(a, b, i);
        lemma_token_end_bounds(b, i);
        lemma_split_shift(a, b, token_end(b, i) + 1);
    }
}

/// A plain text that the end of the list or a comma follows is read as one
/// element, whole and unchanged.
proof fn lemma_plain_token(t: Seq<char>, rest: Seq<char>, i: int)
    requires
        is_plain(t),
        rest.len() == 0 || rest[0] == ',',
        0 <= i <= t.len(),
    ensures
        token_end(t + rest, i) == t.len(),
        token_text(t + rest, i) == t.subrange(i, t.len() as int),
    decreases t.len() - i,
{
    let s = t + rest;
    if i < t.len() {
        assert(s[i] == t[i]);
        lemma_plain_token(t, rest, i + 1);
        assert(seq![t[i]] + t.subrange(i + 1, t.len() as int) =~= t.subrange(i, t.len() as int));
    } else {
        if rest.len() > 0 {
            assert(s[i] == rest[0]);
        }
        assert(t.subrange(i, t.len() as int) =~= Seq::<char>::empty());
    }
}

/// A list of two texts or more is its first text, a comma, and the list of
/// the others.
proof fn lemma_join_front(texts: Seq<Seq<char>>)
    requires
        texts.len() >= 2,
    ensures
        join_list(texts) == texts[0] + seq![','] + join_list(texts.drop_first()),
    decreases texts.len(),
{
    let front = texts.drop_last();
    let back = texts.drop_first();
    if texts.len() == 2 {
        assert(join_list(front) == texts[0]);
        assert(join_list(back) == texts[1]);
    } else {
        lemma_join_front(front);
        assert(front.drop_first() =~= back.drop_last());
        assert(join_list(back) == join_list(back.drop_last()) + seq![','] + back.last());
        assert(join_list(texts) =~= texts[0] + seq![','] + join_list(back));
    }
}

/// Splitting undoes joining: the elements of a list that was joined from
/// plain texts, the last of them not empty, are those texts.
///
/// A text that holds a comma or a backslash does not come back as it was, and
/// an empty text at the end of the list does not come back at all.
pub proof fn lemma_split_join(texts: Seq<Seq<char>>)
    requires
        forall|i: int| 0 <= i < texts.len() ==> is_plain(#[trigger] texts[i]),
        texts.len() > 0 ==> texts.last().len() > 0,
    ensures
        split_list(join_list(texts)) == texts,
    decreases texts.len(),
{
    let s = join_list(texts);
    if texts.len() == 0 {
    } else if texts.len() == 1 {
        let t = texts[0];
        lemma_plain_token(t, Seq::empty(), 0);
        assert(t + Seq::<char>::empty() =~= t);
        assert(t.subrange(0, t.len() as int) =~= t);
        assert(split_from(t, t.len() as int + 1) =~= Seq::<Seq<char>>::empty());
        assert(split_from(t, 0) =~= seq![t]);
        assert(seq![t] =~= texts);
    } else {
        let t = texts[0];
        let others = texts.drop_first();
        let j = join_list(others);
        lemma_join_front(texts);
        assert(others.last() == texts.last());
        assert forall|i: int| 0 <= i < others.len() implies is_plain(#[trigger] others[i]) by {
            assert(others[i] == texts[i + 1]);
        }
        lemma_split_join(others);
        let rest = seq![','] + j;
        assert(s =~= t + rest);
        lemma_plain_token(t, rest, 0);
        assert(t.subrange(0, t.len() as int) =~= t);
        let head = t + seq![','];
        assert(s =~= head + j);
        lemma_split_shift(head, j, 0);
        assert(split_from(s, 0) =~= seq![t] + split_from(s, t.len() as int + 1));
        assert(seq![t] + others =~= texts);
    }
}

/// Parsing undoes formatting: where the parser `p` reads each text that the
/// formatter `f` may write for an element as that element, and each such text
/// is plain and not empty, parsing a list that was formatted from `items`
/// gives `items`.
pub proof fn lemma_parse_format<T, P, F>(p: P, f: F, items: Seq<T>, s: Seq<char>, r: Result<Vec<T>, String>) where
    P: Fn(&str) -> Result<T, String>,
    F: Fn(&T) -> String,

    requires
        forall|x: T, text: Seq<char>| #[trigger]
            item_gives(f, x, text) ==> is_plain(text) && text.len() > 0,
        forall|x: T, text: Seq<char>, out: Result<T, String>|
            #[trigger] item_gives(f, x, text) && #[trigger] token_gives(p, text, out) ==> out
                == Ok::<T, String>(x),
        list_formatted_by(f, items, s),
        list_parsed_by(p, split_list(s), r),
    ensures
        r matches Ok(parsed) && parsed@ == items,
{
    let texts = choose|texts: Seq<Seq<char>>|
        {
            &&& texts.len() == items.len()
            &&& forall|i: int|
                0 <= i < items.len() ==> #[trigger] item_gives(f, items[i], texts[i])
            &&& s == join_list(texts)
        };
    assert forall|i: int| 0 <= i < texts.len() implies is_plain(#[trigger] texts[i]) by {
        assert(item_gives(f, items[i], texts[i]));
    }
    if texts.len() > 0 {
        assert(item_gives(f, items[texts.len() - 1], texts[texts.len() - 1]));
    }
    lemma_split_join(texts);
    if r is Err {
        let msg = r->Err_0;
        let i = choose|i: int|
            0 <= i < texts.len() && #[trigger] token_gives(p, texts[i], Err::<T, String>(msg));
        assert(item_gives(f, items[i], texts[i]));
        assert(false);
    } else {
        let parsed = r->Ok_0;
        assert forall|i: int| 0 <= i < items.len() implies parsed@[i] == items[i] by {
            assert(item_gives(f, items[i], texts[i]));
            assert(token_gives(p, texts[i], Ok::<T, String>(parsed@[i])));
        }
        assert(parsed@ =~= items);
    }
}

/// Parsing undoes formatting for lists of booleans, written as `true` and
/// `false` or as `1` and `0`.
pub proof fn lemma_bool_list_round_trip(v: Seq<bool>, r: Result<Seq<bool>, Seq<char>>)
    ensures
        strict_bools_parsed(split_list(join_list(v.map_values(|b: bool| bool_text(b)))), r) ==> r
            == Ok::<Seq<bool>, Seq<char>>(v),
        strict_bools_parsed(split_list(join_list(v.map_values(|b: bool| bool_digit(b)))), r)
            ==> r == Ok::<Seq<bool>, Seq<char>>(v),
{
    reveal_strlit("true");
    reveal_strlit("false");
    reveal_strlit("1");
    reveal_strlit("0");
    let words = v.map_values(|b: bool| bool_text(b));
    let digits = v.map_values(|b: bool| bool_digit(b));
    assert("0"@[0] != "1"@[0]);
    assert("true"@.len() == 4 && "false"@.len() == 5 && "1"@.len() == 1 && "0"@.len() == 1);
    assert(strict_bool(bool_text(true)) == Some(true));
    assert(strict_bool(bool_text(false)) == Some(false));
    assert(strict_bool(bool_digit(true)) == Some(true));
    assert(strict_bool(bool_digit(false)) == Some(false));
    assert forall|i: int| 0 <= i < v.len() implies is_plain(#[trigger] words[i]) && is_plain(
        #[trigger] digits[i],
    ) by {}
    lemma_split_join(words);
    lemma_split_join(digits);
    if strict_bools_parsed(words, r) {
        if r is Err {
            let i = choose|i: int| 0 <= i < words.len() && strict_bool(#[trigger] words[i]) is None;
            assert(words[i] == bool_text(v[i]));
            assert(false);
        } else {
            assert forall|i: int| 0 <= i < v.len() implies (r->Ok_0)[i] == v[i] by {
                assert(strict_bool(words[i]) == Some((r->Ok_0)[i]));
            }
            assert(r->Ok_0 =~= v);
        }
    }
    if strict_bools_parsed(digits, r) {
        if r is Err {
            let i = choose|i: int|
                0 <= i < digits.len() && strict_bool(#[trigger] digits[i]) is None;
            assert(digits[i] == bool_digit(v[i]));
            assert(false);
        } else {
            assert forall|i: int| 0 <= i < v.len() implies (r->Ok_0)[i] == v[i] by {
                assert(strict_bool(digits[i]) == Some((r->Ok_0)[i]));
            }
            assert(r->Ok_0 =~= v);
        }
    }
}

} // verus!
