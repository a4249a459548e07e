//! Parsing one pattern of the list: its negation mark and the glob it holds.
use vstd::prelude::*;
use vstd::string::*;

verus! {

/// A pattern excludes when its first character is `!`.
pub open spec fn is_negated(raw: Seq<char>) -> bool {
    raw.len() > 0 && raw[0] == '!'
}

/// A glob starting with `!` or `#` would be read by the compiler as a
/// negation or a comment; a leading backslash makes the character literal.
pub open spec fn needs_escape(body: Seq<char>) -> bool {
    body.len() > 0 && (body[0] == '!' || body[0] == '#')
}

/// The line handed to the glob compiler for a pattern. A plain pattern goes
/// as written (so one starting with `#` is a comment and matches nothing);
/// a negated one goes without its mark, its own first character read
/// literally.
pub open spec fn rule_line(raw: Seq<char>) -> Seq<char> {
    if is_negated(raw) {
        let body = raw.drop_first();
        if needs_escape(body) {
            seq!['\\'] + body
        } else {
            body
        }
    } else {
        raw
    }
}

/// The white-space characters (Unicode's `White_Space`), which trimming
/// removes.
pub open spec fn is_space(c: char) -> bool {
    ||| ('\u{9}' <= c && c <= '\u{d}')
    ||| c == ' '
    ||| c == '\u{85}'
    ||| c == '\u{a0}'
    ||| c == '\u{1680}'
    ||| ('\u{2000}' <= c && c <= '\u{200a}')
    ||| c == '\u{2028}'
    ||| c == '\u{2029}'
    ||| c == '\u{202f}'
    ||| c == '\u{205f}'
    ||| c == '\u{3000}'
}

/// A pattern is blank when nothing is left of it after trimming.
pub open spec fn is_blank(raw: Seq<char>) -> bool {
    forall|i: int| 0 <= i < raw.len() ==> is_space(#[trigger] raw[i])
}

fn char_is_space(c: char) -> (b: bool)
    ensures
        b == is_space(c),
{
    ('\u{9}' <= c && c <= '\u{d}') || c == ' ' || c == '\u{85}' || c == '\u{a0}' || c == '\u{1680}'
        || ('\u{2000}' <= c && c <= '\u{200a}') || c == '\u{2028}' || c == '\u{2029}' || c
        == '\u{202f}' || c == '\u{205f}' || c == '\u{3000}'
}

/// Whether a pattern is blank.
pub fn pattern_is_blank(raw: &str) -> (b: bool)
    ensures
        b == is_blank(raw@),
{
    let n = raw.unicode_len();
    let mut i: usize = 0;
    while i < n
        invariant
            n == raw@.len(),
            0 <= i <= n,
            forall|j: int| 0 <= j < i ==> is_space(#[trigger] raw@[j]),
        decreases n - i,
    {
        if !char_is_space(raw.get_char(i)) {
            return false;
        }
        i = i + 1;
    }
    true
}

/// One pattern of the list, as written and as parsed.
pub struct Pattern {
    /// The pattern as the caller wrote it.
    pub text: String,
    /// Whether the pattern excludes what it matches.
    pub negated: bool,
    /// The line the glob compiler reads.
    pub line: String,
}

impl Pattern {
    pub open spec fn is_parse_of(&self, raw: Seq<char>) -> bool {
        &&& self.text@ == raw
        &&& self.negated == is_negated(raw)
        &&& self.line@ == rule_line(raw)
    }
}

/// Splits a pattern into its negation mark and its glob.
pub fn parse_pattern(raw: &str) -> (p: Pattern)
    ensures
        p.is_parse_of(raw@),
{
    let n = raw.unicode_len();
    let negated = n > 0 && raw.get_char(0) == '!';
    if !negated {
        return Pattern { text: String::from_str(raw), negated, line: String::from_str(raw) };
    }
    let body = raw.substring_char(1, n);
    let m = body.unicode_len();
    let escape = m > 0 && (body.get_char(0) == '!' || body.get_char(0) == '#');
    let line = if escape {
        let prefix = String::from_str("\\");
        proof {
            reveal_strlit("\\");
        }
        prefix.concat(body)
    } else {
        String::from_str(body)
    };
    proof {
        assert(body@ =~= raw@.drop_first());
        if escape {
            assert(line@ =~= seq!['\\'] + body@);
        }
    }
    Pattern { text: String::from_str(raw), negated, line }
}

} // verus!
