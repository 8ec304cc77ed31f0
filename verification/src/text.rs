//! Message texts: prefixes, white space, and the words of a command.

use vstd::prelude::*;

verus! {

/// `String::push` of std: the character is appended to the string.
pub assume_specification[ String::push ](s: &mut String, c: char)
    ensures
        final(s)@ == old(s)@.push(c),
;

/// The texts that a vector of strings holds.
pub open spec fn texts(v: Seq<String>) -> Seq<Seq<char>> {
    v.map_values(|s: String| s@)
}

/// The White_Space property of Unicode.
pub open spec fn white_space(c: char) -> bool {
    ||| 0x09 <= c as u32 <= 0x0d
    ||| c as u32 == 0x20
    ||| c as u32 == 0x85
    ||| c as u32 == 0xa0
    ||| c as u32 == 0x1680
    ||| 0x2000 <= c as u32 <= 0x200a
    ||| c as u32 == 0x2028
    ||| c as u32 == 0x2029
    ||| c as u32 == 0x202f
    ||| c as u32 == 0x205f
    ||| c as u32 == 0x3000
}

/// The words of a text: its longest runs without white space, in order.
pub open spec fn words(s: Seq<char>) -> Seq<Seq<char>>
    decreases s.len(),
{
    if s.len() == 0 {
        Seq::empty()
    } else {
        let before = s.drop_last();
        if white_space(s.last()) {
            words(before)
        } else if before.len() == 0 || white_space(before.last()) {
            words(before).push(seq![s.last()])
        } else {
            words(before).drop_last().push(words(before).last().push(s.last()))
        }
    }
}

/// Whether a character is white space.
pub fn is_white_space(c: char) -> (b: bool)
    ensures
        b == white_space(c),
{
    let code: u32 = c as u32;
    (0x09 <= code && code <= 0x0d) || code == 0x20 || code == 0x85 || code == 0xa0 || code == 0x1680
        || (0x2000 <= code && code <= 0x200a) || code == 0x2028 || code == 0x2029 || code == 0x202f
        || code == 0x205f || code == 0x3000
}

/// Whether two texts are the same.
pub fn same_text(a: &str, b: &str) -> (same: bool)
    ensures
        same == (a@ == b@),
{
    a.to_owned() == b.to_owned()
}

/// Whether a text begins with a prefix.
pub fn starts_with(text: &str, prefix: &str) -> (b: bool)
    ensures
        b == prefix@.is_prefix_of(text@),
{
    let n: usize = prefix.unicode_len();
    if n > text.unicode_len() {
        return false;
    }
    same_text(text.substring_char(0, n), prefix)
}

/// The characters of a text.
fn characters(s: &str) -> (v: Vec<char>)
    ensures
        v@ == s@,
{
    let mut v: Vec<char> = Vec::new();
    for c in it: s.chars()
        invariant
            v@ == it.seq().take(it.index() as int),
            it.seq() == s@,
    {
        v.push(c);
    }
    v
}

/// Splits a text into its words.
pub fn split_words(s: &str) -> (out: Vec<String>)
    ensures
        texts(out@) == words(s@),
{
    let chars: Vec<char> = characters(s);
    let mut out: Vec<String> = Vec::new();
    let mut current: String = String::new();
    let mut i: usize = 0;
    while i < chars.len()
        invariant
            i <= chars.len(),
            chars@ == s@,
            current@.len() > 0 <==> i > 0 && !white_space(s@[i - 1]),
            words(s@.take(i as int)) == if current@.len() > 0 {
                texts(out@).push(current@)
            } else {
                texts(out@)
            },
        decreases chars.len() - i,
    {
        let c: char = chars[i];
        proof {
            assert(s@.take(i + 1).drop_last() == s@.take(i as int));
            assert(s@.take(i + 1).last() == c);
        }
        if is_white_space(c) {
            if !current.as_str().is_empty() {
                let ghost done = texts(out@).push(current@);
                out.push(current);
                assert(texts(out@) == done);
                current = String::new();
            }
        } else {
            let ghost so_far = texts(out@);
            let ghost word = current@;
            current.push(c);
            proof {
                if word.len() > 0 {
                    assert(so_far.push(word).drop_last() == so_far);
                } else {
                    assert(word.push(c) == seq![c]);
                }
            }
        }
        i = i + 1;
    }
    assert(s@.take(i as int) == s@);
    if !current.as_str().is_empty() {
        let ghost done = texts(out@).push(current@);
        out.push(current);
        assert(texts(out@) == done);
    }
    out
}

/// Converts a string into a vector of strings.
pub trait ParseArguments {
    /// The text that is converted.
    spec fn source(&self) -> Seq<char>;

    /// The words of the text where it holds a space, `None` where it holds none.
    ///
    /// Only a space makes a text one with arguments; the words are then taken
    /// apart at white space of any kind. The first word is the command itself.
    fn args(&self) -> (r: Option<Vec<String>>)
        ensures
            r is Some <==> self.source().contains(' '),
            r matches Some(v) ==> texts(v@) == words(self.source()),
    ;
}

impl ParseArguments for String {
    open spec fn source(&self) -> Seq<char> {
        self@
    }

    fn args(&self) -> (r: Option<Vec<String>>) {
        let chars: Vec<char> = characters(self.as_str());
        let mut i: usize = 0;
        while i < chars.len()
            invariant
                i <= chars.len(),
                chars@ == self@,
                forall|j: int| 0 <= j < i ==> self@[j] != ' ',
            decreases chars.len() - i,
        {
            if chars[i] == ' ' {
                assert(self@[i as int] == ' ');
                return Some(split_words(self.as_str()));
            }
            i = i + 1;
        }
        None
    }
}

/// Every word is a non-empty text without white space.
pub proof fn law_words_are_solid(s: Seq<char>)
    ensures
        forall|i: int, j: int|
            0 <= i < words(s).len() && 0 <= j < words(s)[i].len() ==> !white_space(
                #[trigger] words(s)[i][j],
            ),
        forall|i: int| 0 <= i < words(s).len() ==> (#[trigger] words(s)[i]).len() > 0,
        s.len() > 0 && !white_space(s.last()) ==> words(s).len() > 0,
    decreases s.len(),
{
    if s.len() > 0 {
        let before = s.drop_last();
        law_words_are_solid(before);
        let w = words(before);
        assert forall|i: int| 0 <= i < words(s).len() implies (#[trigger] words(s)[i]).len() > 0 && (
        forall|j: int| 0 <= j < words(s)[i].len() ==> !white_space(#[trigger] words(s)[i][j])) by {
            if i < words(s).len() - 1 || white_space(s.last()) {
                assert(words(s)[i] == w[i]);
            } else if before.len() > 0 && !white_space(before.last()) {
                assert(words(s)[i] == w[w.len() - 1].push(s.last()));
            } else {
                assert(words(s)[i] == seq![s.last()]);
            }
        }
    }
}

/// The words, put together, are the text with its white space left out: no
/// character is lost, none is added, and none changes its place.
pub proof fn law_words_keep_the_characters(s: Seq<char>)
    ensures
        words(s).flatten() == s.filter(|c: char| !white_space(c)),
    decreases s.len(),
{
    reveal(Seq::filter);
    let keep = |c: char| !white_space(c);
    if s.len() == 0 {
        assert(words(s).flatten() =~= Seq::<char>::empty());
    } else {
        let before = s.drop_last();
        law_words_keep_the_characters(before);
        law_words_are_solid(before);
        let w = words(before);
        if !white_space(s.last()) {
            if before.len() == 0 || white_space(before.last()) {
                w.lemma_flatten_push(seq![s.last()]);
                assert(w.flatten() + seq![s.last()] =~= w.flatten().push(s.last()));
            } else {
                let grown = w.last().push(s.last());
                w.drop_last().lemma_flatten_push(w.last());
                assert(w.drop_last().push(w.last()) =~= w);
                w.drop_last().lemma_flatten_push(grown);
                assert(w.drop_last().flatten() + grown =~= w.flatten().push(s.last()));
            }
        }
    }
}

/// White space between two texts keeps their words apart.
pub proof fn law_white_space_separates(a: Seq<char>, gap: char, b: Seq<char>)
    requires
        white_space(gap),
    ensures
        words(a.push(gap) + b) == words(a) + words(b),
    decreases b.len(),
{
    let s = a.push(gap) + b;
    if b.len() == 0 {
        assert(s =~= a.push(gap));
        assert(s.drop_last() =~= a);
        assert(words(b) =~= Seq::<Seq<char>>::empty());
        assert(words(a) + words(b) =~= words(a));
    } else {
        let before = b.drop_last();
        law_white_space_separates(a, gap, before);
        law_words_are_solid(before);
        assert(s.drop_last() =~= a.push(gap) + before);
        if before.len() == 0 {
            assert(s.drop_last().last() == gap);
        } else {
            assert(s.drop_last().last() == before.last());
        }
        assert(words(s) =~= words(a) + words(b));
    }
}

/// White space is the tab, the line feed, the vertical tab, the form feed, the
/// carriage return, the space, and nineteen more beyond ASCII; and no other
/// character is.
pub proof fn law_white_space_characters(c: char)
    ensures
        white_space(c) <==> {
            ||| c == '\t' || c == '\n' || c == '\u{b}' || c == '\u{c}' || c == '\r' || c == ' '
            ||| c == '\u{85}' || c == '\u{a0}' || c == '\u{1680}'
            ||| c == '\u{2000}' || c == '\u{2001}' || c == '\u{2002}' || c == '\u{2003}'
            ||| c == '\u{2004}' || c == '\u{2005}' || c == '\u{2006}' || c == '\u{2007}'
            ||| c == '\u{2008}' || c == '\u{2009}' || c == '\u{200a}'
            ||| c == '\u{2028}' || c == '\u{2029}' || c == '\u{202f}' || c == '\u{205f}'
            ||| c == '\u{3000}'
        },
{
}

/// A text without white space is one word, whatever its characters.
pub proof fn law_solid_text_is_one_word(s: Seq<char>)
    requires
        s.len() > 0,
        forall|i: int| 0 <= i < s.len() ==> !white_space(#[trigger] s[i]),
    ensures
        words(s) == seq![s],
    decreases s.len(),
{
    let before = s.drop_last();
    assert(s.last() == s[s.len() - 1]);
    if before.len() == 0 {
        assert(words(before) == Seq::<Seq<char>>::empty());
        assert(words(s) =~= seq![seq![s.last()]]);
        assert(seq![s.last()] =~= s);
    } else {
        assert forall|i: int| 0 <= i < before.len() implies !white_space(#[trigger] before[i]) by {
            assert(before[i] == s[i]);
        }
        assert(before.last() == s[s.len() - 2]);
        law_solid_text_is_one_word(before);
        assert(before.push(s.last()) =~= s);
        assert(words(s) =~= seq![s]);
    }
}

/// A text of white space alone has no word.
pub proof fn law_white_space_has_no_words(s: Seq<char>)
    requires
        forall|i: int| 0 <= i < s.len() ==> white_space(#[trigger] s[i]),
    ensures
        words(s) == Seq::<Seq<char>>::empty(),
    decreases s.len(),
{
    if s.len() > 0 {
        let before = s.drop_last();
        assert(s.last() == s[s.len() - 1]);
        assert forall|i: int| 0 <= i < before.len() implies white_space(#[trigger] before[i]) by {
            assert(before[i] == s[i]);
        }
        law_white_space_has_no_words(before);
    }
}

/// A word that stands at the end of a text behind white space is the last of
/// its words, and what stands before has the others.
pub proof fn law_the_last_word_is_the_last(a: Seq<char>, gap: char, word: Seq<char>)
    requires
        white_space(gap),
        word.len() > 0,
        forall|i: int| 0 <= i < word.len() ==> !white_space(#[trigger] word[i]),
    ensures
        words(a.push(gap) + word) == words(a).push(word),
{
    law_white_space_separates(a, gap, word);
    law_solid_text_is_one_word(word);
    assert(words(a) + seq![word] =~= words(a).push(word));
}

/// The texts of some strings are theirs, each at its place.
pub proof fn law_texts_are_those_of_the_strings(v: Seq<String>, i: int)
    requires
        0 <= i < v.len(),
    ensures
        texts(v).len() == v.len(),
        texts(v)[i] == v[i]@,
{
}

/// What is converted is the string itself.
pub proof fn law_the_source_is_the_string(s: String)
    ensures
        s.source() == s@,
{
}

} // verus!
