//! Character classes and the scanning steps that both lexers are built from.
//!
//! Every step is stated twice: as a function on a sequence of characters, which
//! says what the step finds, and as code on a vector, which finds it.

use vstd::prelude::*;

verus! {

/// `String::push` puts `c` at the end of the text and leaves what stood
/// before it as it was.
pub assume_specification[ std::string::String::push ](s: &mut std::string::String, c: char)
    ensures
        final(s)@ == old(s)@.push(c),
;

/// The sets of characters that a lexer reads in one run.
#[derive(Debug, Clone, Copy, PartialEq, Eq, Structural)]
pub enum CharClass {
    /// Blank, tab, line feed and carriage return: they separate tokens.
    Whitespace,
    /// Blank and tab.
    Indent,
    /// What a comment holds: all but the characters that end a line.
    CommentBody,
    /// What stands between `<` and `>`.
    UriBody,
    /// ASCII letters and digits, `_`, `-`, and every character beyond ASCII.
    Name,
    /// What the path of a qualified name holds: name characters and `:`.
    LocalName,
    /// What a language tag holds: ASCII letters and digits, and `-`.
    Language,
}

pub open spec fn is_whitespace(c: char) -> bool {
    c == ' ' || c == '\t' || c == '\n' || c == '\r'
}

pub open spec fn is_ascii_alphanumeric(c: char) -> bool {
    ('a' <= c && c <= 'z') || ('A' <= c && c <= 'Z') || ('0' <= c && c <= '9')
}

pub open spec fn is_name_char(c: char) -> bool {
    is_ascii_alphanumeric(c) || c == '_' || c == '-' || c as u32 >= 0x80
}

/// Whether `c` belongs to `class`.
pub open spec fn in_class(class: CharClass, c: char) -> bool {
    match class {
        CharClass::Whitespace => is_whitespace(c),
        CharClass::Indent => c == ' ' || c == '\t',
        CharClass::CommentBody => c != '\n' && c != '\r',
        CharClass::UriBody => c != '>' && c != '<' && c != '"' && !is_whitespace(c),
        CharClass::Name => is_name_char(c),
        CharClass::LocalName => is_name_char(c) || c == ':',
        CharClass::Language => is_ascii_alphanumeric(c) || c == '-',
    }
}

/// Where the longest run of characters of `class` that starts at `from` ends:
/// the first index at or behind `from` that holds no character of `class`.
pub open spec fn run_end(s: Seq<char>, from: int, class: CharClass) -> int
    decreases s.len() - from,
{
    if 0 <= from < s.len() && in_class(class, s[from]) {
        run_end(s, from + 1, class)
    } else {
        from
    }
}

/// A run ends inside the input, holds only characters of its class, and
/// cannot be made longer.
pub proof fn lemma_run_end(s: Seq<char>, from: int, class: CharClass)
    requires
        0 <= from <= s.len(),
    ensures
        from <= run_end(s, from, class) <= s.len(),
        forall|i: int| from <= i < run_end(s, from, class) ==> in_class(class, #[trigger] s[i]),
        run_end(s, from, class) < s.len() ==> !in_class(class, s[run_end(s, from, class)]),
    decreases s.len() - from,
{
    if from < s.len() && in_class(class, s[from]) {
        lemma_run_end(s, from + 1, class);
    }
}

/// The end of a run is the only index that a run of the class reaches and
/// cannot pass: whoever finds such an index has found the end.
pub proof fn lemma_run_end_unique(s: Seq<char>, from: int, class: CharClass, end: int)
    requires
        0 <= from <= end <= s.len(),
        forall|i: int| from <= i < end ==> in_class(class, #[trigger] s[i]),
        end < s.len() ==> !in_class(class, s[end]),
    ensures
        run_end(s, from, class) == end,
    decreases end - from,
{
    if from < end {
        lemma_run_end_unique(s, from + 1, class, end);
    }
}

/// Tells whether `c` belongs to `class`.
pub fn belongs(class: CharClass, c: char) -> (b: bool)
    ensures
        b == in_class(class, c),
{
    let blank = c == ' ' || c == '\t' || c == '\n' || c == '\r';
    let alphanumeric = ('a' <= c && c <= 'z') || ('A' <= c && c <= 'Z') || ('0' <= c && c
        <= '9');
    let name = alphanumeric || c == '_' || c == '-' || c as u32 >= 0x80;
    match class {
        CharClass::Whitespace => blank,
        CharClass::Indent => c == ' ' || c == '\t',
        CharClass::CommentBody => c != '\n' && c != '\r',
        CharClass::UriBody => c != '>' && c != '<' && c != '"' && !blank,
        CharClass::Name => name,
        CharClass::LocalName => name || c == ':',
        CharClass::Language => alphanumeric || c == '-',
    }
}

/// Reads the longest run of characters of `class` from index `from` on and
/// returns the index behind it.
pub fn scan_run(chars: &Vec<char>, from: usize, class: CharClass) -> (end: usize)
    requires
        from <= chars.len(),
    ensures
        end == run_end(chars@, from as int, class),
        from <= end <= chars.len(),
{
    let mut i: usize = from;
    while i < chars.len() && belongs(class, chars[i])
        invariant
            from <= i <= chars.len(),
            run_end(chars@, from as int, class) == run_end(chars@, i as int, class),
        decreases chars.len() - i,
    {
        i += 1;
    }
    i
}

/// Copies the characters from index `from` up to index `to` into a string.
pub fn copy_range(chars: &Vec<char>, from: usize, to: usize) -> (text: String)
    requires
        from <= to <= chars.len(),
    ensures
        text@ == chars@.subrange(from as int, to as int),
{
    let mut text = String::new();
    let mut i: usize = from;
    while i < to
        invariant
            from <= i <= to <= chars.len(),
            text@ == chars@.subrange(from as int, i as int),
        decreases to - i,
    {
        text.push(chars[i]);
        i += 1;
    }
    text
}

/// Spells the characters of a text out, one element each.
pub fn to_chars(text: &str) -> (chars: Vec<char>)
    ensures
        chars@ == text@,
{
    let mut chars: Vec<char> = Vec::new();
    for c in it: text.chars()
        invariant
            chars@ == it.seq().take(it.index() as int),
            it.seq() == text@,
    {
        chars.push(c);
    }
    chars
}

/// The character that a backslash and `c` stand for inside a literal, if any.
pub open spec fn unescape(c: char) -> Option<char> {
    if c == 't' {
        Some('\t')
    } else if c == 'n' {
        Some('\n')
    } else if c == 'r' {
        Some('\r')
    } else if c == 'b' {
        Some('\u{8}')
    } else if c == 'f' {
        Some('\u{c}')
    } else if c == '"' || c == '\'' || c == '\\' {
        Some(c)
    } else {
        None
    }
}

/// `rest` with `c` in front of its text.
pub open spec fn with_first(c: char, rest: Option<(Seq<char>, int)>) -> Option<(Seq<char>, int)> {
    match rest {
        Some((text, end)) => Some((seq![c] + text, end)),
        None => None,
    }
}

/// The body of a quoted literal, read from index `from`, which is the one
/// behind the opening quote: the text up to the closing quote, with every
/// escape replaced by the character it stands for, and the index behind the
/// closing quote. There is none where the line or the input ends before the
/// closing quote, or where a backslash stands before a character that it
/// cannot escape.
pub open spec fn literal_body(s: Seq<char>, from: int) -> Option<(Seq<char>, int)>
    decreases s.len() - from,
{
    if from < 0 || from >= s.len() {
        None
    } else if s[from] == '"' {
        Some((Seq::empty(), from + 1))
    } else if s[from] == '\n' || s[from] == '\r' {
        None
    } else if s[from] == '\\' {
        if from + 1 < s.len() && unescape(s[from + 1]) is Some {
            with_first(unescape(s[from + 1])->0, literal_body(s, from + 2))
        } else {
            None
        }
    } else {
        with_first(s[from], literal_body(s, from + 1))
    }
}

/// A literal ends with its closing quote, behind the opening quote and inside
/// the input, and its text is no longer than what stands between the two.
pub proof fn lemma_literal_body(s: Seq<char>, from: int)
    requires
        0 <= from <= s.len(),
    ensures
        literal_body(s, from) matches Some((text, end)) ==> {
            &&& from < end <= s.len()
            &&& s[end - 1] == '"'
            &&& text.len() <= end - 1 - from
        },
    decreases s.len() - from,
{
    if from < s.len() && s[from] != '"' && s[from] != '\n' && s[from] != '\r' {
        if s[from] == '\\' {
            if from + 1 < s.len() {
                lemma_literal_body(s, from + 2);
            }
        } else {
            lemma_literal_body(s, from + 1);
        }
    }
}

/// `rest` with `read` in front of its text.
pub open spec fn with_read(read: Seq<char>, rest: Option<(Seq<char>, int)>) -> Option<
    (Seq<char>, int),
> {
    match rest {
        Some((text, end)) => Some((read + text, end)),
        None => None,
    }
}

proof fn lemma_with_read_step(read: Seq<char>, c: char, rest: Option<(Seq<char>, int)>)
    ensures
        with_read(read, with_first(c, rest)) == with_read(read.push(c), rest),
{
    if let Some((text, end)) = rest {
        assert(read + (seq![c] + text) =~= read.push(c) + text);
    }
}

/// Tells which character a backslash and `c` stand for.
pub fn unescaped(c: char) -> (r: Option<char>)
    ensures
        r == unescape(c),
{
    if c == 't' {
        Some('\t')
    } else if c == 'n' {
        Some('\n')
    } else if c == 'r' {
        Some('\r')
    } else if c == 'b' {
        Some('\u{8}')
    } else if c == 'f' {
        Some('\u{c}')
    } else if c == '"' || c == '\'' || c == '\\' {
        Some(c)
    } else {
        None
    }
}

/// Reads the body of a quoted literal from index `from` on, which is the one
/// behind the opening quote.
pub fn read_literal_body(chars: &Vec<char>, from: usize) -> (r: Option<(String, usize)>)
    requires
        from <= chars.len(),
    ensures
        match literal_body(chars@, from as int) {
            Some((text, end)) => r matches Some((t, e)) && t@ == text && e == end,
            None => r is None,
        },
{
    let mut text = String::new();
    let mut i: usize = from;
    assert(with_read(text@, literal_body(chars@, i as int)) == literal_body(chars@, from as int))
        by {
        if let Some((t, e)) = literal_body(chars@, from as int) {
            assert(Seq::<char>::empty() + t =~= t);
        }
    }
    loop
        invariant
            from <= i <= chars.len(),
            with_read(text@, literal_body(chars@, i as int)) == literal_body(chars@, from as int),
        decreases chars.len() - i,
    {
        if i >= chars.len() {
            return None;
        }
        let c = chars[i];
        if c == '"' {
            assert(text@ + Seq::<char>::empty() =~= text@);
            return Some((text, i + 1));
        }
        if c == '\n' || c == '\r' {
            return None;
        }
        if c == '\\' {
            if i + 1 >= chars.len() {
                return None;
            }
            match unescaped(chars[i + 1]) {
                Some(plain) => {
                    proof {
                        lemma_with_read_step(text@, plain, literal_body(chars@, i + 2));
                    }
                    text.push(plain);
                    i += 2;
                },
                None => {
                    return None;
                },
            }
        } else {
            proof {
                lemma_with_read_step(text@, c, literal_body(chars@, i + 1));
            }
            text.push(c);
            i += 1;
        }
    }
}

} // verus!
