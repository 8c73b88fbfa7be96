//! Strings as sequences of characters: the conversions and the joins that the
//! rules are built from.

use vstd::prelude::*;

verus! {

/// `String::push` of std: the string grows by the one character `ch`, at its end.
pub assume_specification[ String::push ](text: &mut String, ch: char)
    ensures
        final(text)@ == old(text)@.push(ch),
;

/// The view of an optional string.
pub open spec fn option_view(text: Option<String>) -> Option<Seq<char>> {
    match text {
        Some(t) => Some(t@),
        None => None,
    }
}

/// The view of an optional string slice; a missing one counts as empty.
pub open spec fn view_or_empty(text: Option<&str>) -> Seq<char> {
    match text {
        Some(t) => t@,
        None => Seq::empty(),
    }
}

/// The characters of `text`, in order.
pub fn to_chars(text: &str) -> (chars: Vec<char>)
    ensures
        chars@ == text@,
{
    let mut chars: Vec<char> = Vec::new();
    for c in it: text.chars()
        invariant
            it.seq() == text@,
            chars@ == it.seq().take(it.index() as int),
    {
        chars.push(c);
    }
    chars
}

/// Appends the characters `chars[from..to]` to `text`.
pub fn push_chars(text: &mut String, chars: &Vec<char>, from: usize, to: usize)
    requires
        from <= to <= chars@.len(),
    ensures
        final(text)@ == old(text)@ + chars@.subrange(from as int, to as int),
{
    let mut i: usize = from;
    while i < to
        invariant
            from <= i <= to <= chars@.len(),
            text@ == old(text)@ + chars@.subrange(from as int, i as int),
        decreases to - i,
    {
        text.push(chars[i]);
        i += 1;
    }
}

/// The string made of `chars`.
pub fn from_chars(chars: &Vec<char>) -> (text: String)
    ensures
        text@ == chars@,
{
    let mut text = String::new();
    push_chars(&mut text, chars, 0, chars.len());
    text
}

/// `before`, `text` and `after` joined in this order. A missing part adds nothing.
pub fn splice(before: Option<&str>, text: &str, after: Option<&str>) -> (joined: String)
    ensures
        joined@ == view_or_empty(before) + text@ + view_or_empty(after),
{
    let mut joined = match before {
        Some(b) => String::from_str(b),
        None => String::new(),
    };
    joined.append(text);
    match after {
        Some(a) => joined.append(a),
        None => {},
    }
    joined
}

} // verus!
