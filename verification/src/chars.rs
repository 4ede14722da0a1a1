//! Byte classes of the query grammar, runs of one class, and the comparison
//! of the input with a keyword.

use vstd::prelude::*;
use vstd::string::*;

verus! {

pub const DOUBLE_QUOTE: u8 = 0x22;

pub const SINGLE_QUOTE: u8 = 0x27;

pub const COLON: u8 = 0x3a;

pub const UNDERSCORE: u8 = 0x5f;

pub const LESS: u8 = 0x3c;

pub const GREATER: u8 = 0x3e;

/// An ASCII letter or digit, or an underscore.
pub open spec fn is_word_byte(b: u8) -> bool {
    ||| 0x30 <= b <= 0x39
    ||| 0x41 <= b <= 0x5a
    ||| 0x61 <= b <= 0x7a
    ||| b == UNDERSCORE
}

/// A space, a tab, a carriage return or a line feed.
pub open spec fn is_space_byte(b: u8) -> bool {
    b == 0x20 || b == 0x09 || b == 0x0d || b == 0x0a
}

/// A double or a single quote.
pub open spec fn is_quote(b: u8) -> bool {
    b == DOUBLE_QUOTE || b == SINGLE_QUOTE
}

/// A byte that no token begins with: neither a word byte, nor white space,
/// nor a quote, nor a colon, nor one of `<` and `>`.
pub open spec fn is_stray_byte(b: u8) -> bool {
    !is_word_byte(b) && !is_space_byte(b) && !is_quote(b) && b != COLON && b != LESS && b
        != GREATER
}

#[verifier::when_used_as_spec(is_word_byte)]
pub fn word_byte(b: u8) -> (r: bool)
    ensures
        r == is_word_byte(b),
{
    (0x30 <= b && b <= 0x39) || (0x41 <= b && b <= 0x5a) || (0x61 <= b && b <= 0x7a) || b
        == UNDERSCORE
}

#[verifier::when_used_as_spec(is_space_byte)]
pub fn space_byte(b: u8) -> (r: bool)
    ensures
        r == is_space_byte(b),
{
    b == 0x20 || b == 0x09 || b == 0x0d || b == 0x0a
}

#[verifier::when_used_as_spec(is_quote)]
pub fn quote_byte(b: u8) -> (r: bool)
    ensures
        r == is_quote(b),
{
    b == DOUBLE_QUOTE || b == SINGLE_QUOTE
}

#[verifier::when_used_as_spec(is_stray_byte)]
pub fn stray_byte(b: u8) -> (r: bool)
    ensures
        r == is_stray_byte(b),
{
    !word_byte(b) && !space_byte(b) && !quote_byte(b) && b != COLON && b != LESS && b != GREATER
}

/// A set of bytes that a run is made of.
#[derive(Clone, Copy, Debug, PartialEq, Eq, Structural)]
pub enum ByteClass {
    /// Letters, digits and the underscore.
    Word,
    /// White space.
    Space,
    /// What a word or white space is made of.
    WordOrSpace,
    /// Every byte but the given one.
    Not(u8),
}

impl ByteClass {
    pub open spec fn holds(self, b: u8) -> bool {
        match self {
            ByteClass::Word => is_word_byte(b),
            ByteClass::Space => is_space_byte(b),
            ByteClass::WordOrSpace => is_word_byte(b) || is_space_byte(b),
            ByteClass::Not(other) => b != other,
        }
    }

    #[verifier::when_used_as_spec(holds)]
    pub fn has(self, b: u8) -> (r: bool)
        ensures
            r == self.holds(b),
    {
        match self {
            ByteClass::Word => word_byte(b),
            ByteClass::Space => space_byte(b),
            ByteClass::WordOrSpace => word_byte(b) || space_byte(b),
            ByteClass::Not(other) => b != other,
        }
    }
}

/// Where the longest run of bytes of `class` that begins at `from` ends: the
/// offset of the first byte at or after `from` that is not of the class, or
/// the length of `s` where there is none.
pub open spec fn run_end(s: Seq<u8>, from: int, class: ByteClass) -> int
    decreases s.len() - from,
{
    if 0 <= from < s.len() && class.holds(s[from]) {
        run_end(s, from + 1, class)
    } else {
        from
    }
}

/// A run ends within the text, holds bytes of its class only, and is
/// followed by no further byte of the class.
pub proof fn lemma_run_end(s: Seq<u8>, from: int, class: ByteClass)
    requires
        0 <= from <= s.len(),
    ensures
        from <= run_end(s, from, class) <= s.len(),
        forall|i: int| from <= i < run_end(s, from, class) ==> class.holds(#[trigger] s[i]),
        run_end(s, from, class) < s.len() ==> !class.holds(s[run_end(s, from, class)]),
    decreases s.len() - from,
{
    if from < s.len() && class.holds(s[from]) {
        lemma_run_end(s, from + 1, class);
    }
}

/// The end of a run is the only offset of which `lemma_run_end` holds.
pub proof fn lemma_run_end_is(s: Seq<u8>, from: int, class: ByteClass, end: int)
    requires
        0 <= from <= end <= s.len(),
        forall|i: int| from <= i < end ==> class.holds(#[trigger] s[i]),
        end < s.len() ==> !class.holds(s[end]),
    ensures
        run_end(s, from, class) == end,
    decreases end - from,
{
    if from < end {
        lemma_run_end_is(s, from + 1, class, end);
    }
}

/// Finds where the run of bytes of `class` that begins at `from` ends.
pub fn scan(input: &[u8], from: usize, class: ByteClass) -> (end: usize)
    requires
        from <= input@.len(),
    ensures
        end == run_end(input@, from as int, class),
        from <= end <= input@.len(),
{
    let mut end: usize = from;
    while end < input.len() && class.has(input[end])
        invariant
            from <= end <= input@.len(),
            run_end(input@, from as int, class) == run_end(input@, end as int, class),
        decreases input@.len() - end,
    {
        end = end + 1;
    }
    end
}

/// The lower-case form of an ASCII capital letter; any other byte itself.
pub open spec fn lower(b: u8) -> u8 {
    if 0x41 <= b <= 0x5a {
        (b + 0x20) as u8
    } else {
        b
    }
}

#[verifier::when_used_as_spec(lower)]
pub fn to_lower(b: u8) -> (r: u8)
    ensures
        r == lower(b),
{
    if 0x41 <= b && b <= 0x5a {
        b + 0x20
    } else {
        b
    }
}

/// Whether `a` and `b` are the same byte: where `fold` is set, whether they
/// are the same but for the case of an ASCII letter.
pub open spec fn same_byte(a: u8, b: u8, fold: bool) -> bool {
    if fold {
        lower(a) == lower(b)
    } else {
        a == b
    }
}

/// Whether the first `n` bytes of `s` from `at` on are those of `word`.
pub open spec fn agree(s: Seq<u8>, at: int, word: Seq<u8>, n: int, fold: bool) -> bool {
    forall|i: int| 0 <= i < n ==> same_byte(#[trigger] s[at + i], word[i], fold)
}

/// Whether `s` goes on with `word` from `at` on.
pub open spec fn begins(s: Seq<u8>, at: int, word: Seq<u8>, fold: bool) -> bool {
    s.len() - at >= word.len() && agree(s, at, word, word.len() as int, fold)
}

/// Tells whether the input goes on with `word` from `at` on.
pub fn begins_at(input: &[u8], at: usize, word: &[u8], fold: bool) -> (yes: bool)
    requires
        at <= input@.len(),
    ensures
        yes == begins(input@, at as int, word@, fold),
{
    let n: usize = word.len();
    if input.len() - at < n {
        return false;
    }
    let mut i: usize = 0;
    while i < n
        invariant
            i <= n == word@.len(),
            at + n <= input@.len() <= usize::MAX,
            agree(input@, at as int, word@, i as int, fold),
        decreases n - i,
    {
        let a: u8 = input[at + i];
        let b: u8 = word[i];
        let same = if fold {
            to_lower(a) == to_lower(b)
        } else {
            a == b
        };
        if !same {
            return false;
        }
        i = i + 1;
    }
    true
}

/// The bytes of a text of ASCII characters.
pub open spec fn ascii(text: Seq<char>) -> Seq<u8> {
    Seq::new(text.len(), |i: int| text[i] as u8)
}

/// The bytes of an ASCII string.
pub fn ascii_bytes<'a>(text: &'a str) -> (bytes: &'a [u8])
    requires
        is_ascii(text),
    ensures
        bytes@ == ascii(text@),
{
    proof {
        is_ascii_spec_bytes(text);
    }
    text.as_bytes()
}

} // verus!
