//! Text shown by a display module.
//!
//! Lengths are counted in bytes of the text's UTF-8 form. A text that is longer
//! than the display allows is cut three bytes short of the limit and ends in
//! three dots.

use vstd::prelude::*;
use vstd::string::*;
use vstd::utf8::*;

verus! {

/// The text of a display, the length it is cut to, and whether it is shown.
#[derive(Debug)]
pub struct DisplayComponent {
    pub display_text: String,
    pub max_length: usize,
    pub is_visible: bool,
}

/// The length of a text in bytes.
pub open spec fn byte_len(text: Seq<char>) -> nat {
    encode_utf8(text).len()
}

/// Whether a text can be brought under `max_length`: it is short enough as it
/// stands, or the place of the cut falls between two characters.
pub open spec fn can_fit(text: Seq<char>, max_length: usize) -> bool {
    byte_len(text) <= max_length || (max_length >= 3 && is_char_boundary(
        encode_utf8(text),
        max_length - 3,
    ))
}

/// The text as a display of `max_length` holds it.
pub open spec fn fitted(text: Seq<char>, max_length: usize) -> Seq<char> {
    if byte_len(text) <= max_length {
        text
    } else {
        decode_utf8(encode_utf8(text).subrange(0, max_length - 3)) + "..."@
    }
}

/// The length of `text` in bytes.
fn byte_length(text: &str) -> (n: usize)
    ensures
        n == byte_len(text@),
{
    text.as_bytes().len()
}

/// Brings `text` under `max_length`.
fn fit(text: String, max_length: usize) -> (r: String)
    requires
        can_fit(text@, max_length),
    ensures
        r@ == fitted(text@, max_length),
{
    let whole: &str = text.as_str();
    if byte_length(whole) > max_length {
        let (head, _rest) = whole.split_at(max_length - 3);
        proof {
            encode_utf8_decode_utf8(head@);
        }
        let mut cut: String = head.to_owned();
        cut.append("...");
        cut
    } else {
        text
    }
}

/// Whether `text` can be brought under `max_length`.
fn fits_or_cuts(text: &str, max_length: usize) -> (r: bool)
    ensures
        r == can_fit(text@, max_length),
{
    byte_length(text) <= max_length || (max_length >= 3 && text.is_char_boundary(max_length - 3))
}

/// Whether a character is white space: a character with the Unicode property
/// White_Space.
pub open spec fn is_white_space(c: char) -> bool {
    let v = c as u32;
    (9 <= v <= 13) || v == 0x20 || v == 0x85 || v == 0xA0 || v == 0x1680 || (0x2000 <= v
        <= 0x200A) || v == 0x2028 || v == 0x2029 || v == 0x202F || v == 0x205F || v == 0x3000
}

fn is_space(c: char) -> (r: bool)
    ensures
        r == is_white_space(c),
{
    let v: u32 = c as u32;
    (9 <= v && v <= 13) || v == 0x20 || v == 0x85 || v == 0xA0 || v == 0x1680 || (0x2000 <= v
        && v <= 0x200A) || v == 0x2028 || v == 0x2029 || v == 0x202F || v == 0x205F || v == 0x3000
}

/// The word in hand as a list: nothing where no character has been read for it.
pub open spec fn word_if_any(word: Seq<char>) -> Seq<Seq<char>> {
    if word.len() == 0 {
        Seq::empty()
    } else {
        seq![word]
    }
}

/// The words of `text` that follow the characters of `word`, which have been
/// read already: the runs of characters between white space.
pub open spec fn words_from(text: Seq<char>, word: Seq<char>) -> Seq<Seq<char>>
    decreases text.len(),
{
    if text.len() == 0 {
        word_if_any(word)
    } else if is_white_space(text.first()) {
        word_if_any(word) + words_from(text.drop_first(), Seq::empty())
    } else {
        words_from(text.drop_first(), word.push(text.first()))
    }
}

/// The words of `text`: its runs of characters between white space.
pub open spec fn words_of(text: Seq<char>) -> Seq<Seq<char>> {
    words_from(text, Seq::empty())
}

/// Whether `word` no longer fits on the line `current` of `width` bytes: the
/// line holds something, and with a blank and the word it would be too long.
pub open spec fn overflows(current: Seq<char>, word: Seq<char>, width: usize) -> bool {
    byte_len(current) + byte_len(word) + 1 > width && current.len() > 0
}

/// The lines that `words` make after the line `current`, which has been begun:
/// words are set one after the other with a blank between them, and a word
/// that no longer fits begins the next line.
pub open spec fn lines_from(words: Seq<Seq<char>>, current: Seq<char>, width: usize) -> Seq<
    Seq<char>,
>
    decreases words.len(),
{
    if words.len() == 0 {
        word_if_any(current)
    } else if overflows(current, words.first(), width) {
        seq![current] + lines_from(words.drop_first(), words.first(), width)
    } else if current.len() == 0 {
        lines_from(words.drop_first(), words.first(), width)
    } else {
        lines_from(words.drop_first(), current + seq![' '] + words.first(), width)
    }
}

/// The texts that a list of strings holds.
pub open spec fn texts(strings: Seq<String>) -> Seq<Seq<char>> {
    Seq::new(strings.len(), |i: int| strings[i]@)
}

/// Cuts `text` into its words.
fn split_words(text: &str) -> (words: Vec<String>)
    ensures
        texts(words@) == words_of(text@),
{
    let total: usize = text.unicode_len();
    let mut words: Vec<String> = Vec::new();
    let mut start: usize = 0;
    let mut in_word = false;
    let mut i: usize = 0;
    proof {
        assert(text@.skip(0) =~= text@);
    }
    for c in it: text.chars()
        invariant
            it.seq() == text@,
            i == it.index(),
            total == text@.len(),
            in_word ==> start < i,
            words_of(text@) == texts(words@) + words_from(
                text@.skip(i as int),
                if in_word {
                    text@.subrange(start as int, i as int)
                } else {
                    Seq::empty()
                },
            ),
    {
        let ghost rest = text@.skip(i as int);
        proof {
            assert(rest.drop_first() =~= text@.skip(i as int + 1));
        }
        if is_space(c) {
            if in_word {
                let word: String = text.substring_char(start, i).to_owned();
                words.push(word);
                in_word = false;
            }
        } else {
            if !in_word {
                start = i;
                in_word = true;
                proof {
                    assert(Seq::<char>::empty().push(c) =~= text@.subrange(
                        i as int,
                        i as int + 1,
                    ));
                }
            } else {
                proof {
                    assert(text@.subrange(start as int, i as int).push(c) =~= text@.subrange(
                        start as int,
                        i as int + 1,
                    ));
                }
            }
        }
        i = i + 1;
    }
    if in_word {
        let word: String = text.substring_char(start, total).to_owned();
        words.push(word);
    }
    words
}

/// Whether `word` no longer fits on the line `current` of `width` bytes.
fn word_overflows(current: &str, word: &str, width: usize) -> (r: bool)
    ensures
        r == overflows(current@, word@, width),
{
    (byte_length(current) as u128) + (byte_length(word) as u128) + 1 > width as u128
        && !current.is_empty()
}

/// Sets `words` in lines of at most `width` bytes, as far as single words allow.
fn wrap_words(words: &Vec<String>, width: usize) -> (lines: Vec<String>)
    ensures
        texts(lines@) == lines_from(texts(words@), Seq::empty(), width),
{
    let ghost all = texts(words@);
    let n = words.len();
    let mut lines: Vec<String> = Vec::new();
    let mut current: String = String::new();
    let mut k: usize = 0;
    proof {
        assert(all.skip(0) =~= all);
    }
    while k < n
        invariant
            k <= n,
            n == words@.len(),
            all == texts(words@),
            lines_from(all, Seq::empty(), width) == texts(lines@) + lines_from(
                all.skip(k as int),
                current@,
                width,
            ),
        decreases n - k,
    {
        let word: &str = words[k].as_str();
        proof {
            assert(all.skip(k as int).drop_first() =~= all.skip(k as int + 1));
            reveal_strlit(" ");
            assert(" "@ =~= seq![' ']);
        }
        if word_overflows(current.as_str(), word, width) {
            lines.push(current);
            current = String::new();
        }
        if !current.as_str().is_empty() {
            current.append(" ");
        }
        current.append(word);
        k += 1;
    }
    if !current.as_str().is_empty() {
        lines.push(current);
    }
    lines
}

impl DisplayComponent {
    /// The text set in lines of at most `line_width` bytes: its words one after
    /// the other with one blank between them, a new line begun before each word
    /// that no longer fits. A word that is longer than a line stands on a line
    /// of its own. A hidden display has no lines.
    pub fn format_for_display(&self, line_width: usize) -> (lines: Vec<String>)
        ensures
            texts(lines@) == if self.is_visible {
                lines_from(words_of(self.display_text@), Seq::empty(), line_width)
            } else {
                Seq::<Seq<char>>::empty()
            },
    {
        if !self.is_visible {
            let lines: Vec<String> = Vec::new();
            return lines;
        }
        let words = split_words(self.display_text.as_str());
        wrap_words(&words, line_width)
    }

    /// A visible display of at most 256 bytes that holds `text` as it is.
    pub fn new(text: String) -> (d: Self)
        ensures
            d.display_text == text,
            d.max_length == 256,
            d.is_visible,
    {
        DisplayComponent { display_text: text, max_length: 256, is_visible: true }
    }

    /// The same display with another limit, its text cut to it.
    pub fn with_max_length(self, max_length: usize) -> (d: Self)
        requires
            can_fit(self.display_text@, max_length),
        ensures
            d.display_text@ == fitted(self.display_text@, max_length),
            d.max_length == max_length,
            d.is_visible == self.is_visible,
    {
        DisplayComponent {
            display_text: fit(self.display_text, max_length),
            max_length,
            is_visible: self.is_visible,
        }
    }

    /// Shows `text`, cut to the limit of the display.
    pub fn set_text(&mut self, text: String)
        requires
            can_fit(text@, old(self).max_length),
        ensures
            final(self).display_text@ == fitted(text@, old(self).max_length),
            final(self).max_length == old(self).max_length,
            final(self).is_visible == old(self).is_visible,
    {
        self.display_text = fit(text, self.max_length);
    }

    /// Shows `text`, cut to the limit of the display, where the cut falls between
    /// two characters. Returns whether it did; where it did not, the display
    /// stays as it was.
    pub fn try_set_text(&mut self, text: String) -> (done: bool)
        ensures
            done == can_fit(text@, old(self).max_length),
            done ==> final(self).display_text@ == fitted(text@, old(self).max_length),
            !done ==> final(self).display_text == old(self).display_text,
            final(self).max_length == old(self).max_length,
            final(self).is_visible == old(self).is_visible,
    {
        if fits_or_cuts(text.as_str(), self.max_length) {
            self.display_text = fit(text, self.max_length);
            true
        } else {
            false
        }
    }

    /// Adds `text` to what is shown, and cuts the whole to the limit of the display.
    pub fn append_text(&mut self, text: &str)
        requires
            can_fit(old(self).display_text@ + text@, old(self).max_length),
        ensures
            final(self).display_text@ == fitted(
                old(self).display_text@ + text@,
                old(self).max_length,
            ),
            final(self).max_length == old(self).max_length,
            final(self).is_visible == old(self).is_visible,
    {
        let mut joined: String = self.display_text.clone();
        joined.append(text);
        self.display_text = fit(joined, self.max_length);
    }

    /// Shows nothing.
    pub fn clear(&mut self)
        ensures
            final(self).display_text@ == Seq::<char>::empty(),
            final(self).max_length == old(self).max_length,
            final(self).is_visible == old(self).is_visible,
    {
        self.display_text = String::new();
    }

    /// Shows or hides the display.
    pub fn set_visible(&mut self, visible: bool)
        ensures
            final(self).is_visible == visible,
            final(self).display_text == old(self).display_text,
            final(self).max_length == old(self).max_length,
    {
        self.is_visible = visible;
    }

    /// The text as a viewer sees it: nothing while the display is hidden.
    pub fn get_display_text(&self) -> (text: &str)
        ensures
            text@ == if self.is_visible {
                self.display_text@
            } else {
                Seq::<char>::empty()
            },
    {
        if self.is_visible {
            self.display_text.as_str()
        } else {
            proof {
                reveal_strlit("");
            }
            ""
        }
    }

    /// Whether the display holds any text.
    pub fn has_content(&self) -> (r: bool)
        ensures
            r == (self.display_text@.len() > 0),
    {
        !self.display_text.as_str().is_empty()
    }

    /// The length of the text in bytes.
    pub fn text_length(&self) -> (n: usize)
        ensures
            n == byte_len(self.display_text@),
    {
        byte_length(self.display_text.as_str())
    }
}

impl Default for DisplayComponent {
    /// A visible, empty display.
    fn default() -> (d: Self)
        ensures
            d.display_text@ == Seq::<char>::empty(),
            d.max_length == 256,
            d.is_visible,
    {
        DisplayComponent::new(String::new())
    }
}

/// A text that is cut ends in three dots and is exactly as long as the display allows.
pub proof fn lemma_fitted_length(text: Seq<char>, max_length: usize)
    requires
        can_fit(text, max_length),
    ensures
        byte_len(fitted(text, max_length)) <= max_length,
        byte_len(text) > max_length ==> byte_len(fitted(text, max_length)) == max_length,
{
    if byte_len(text) > max_length {
        let bytes = encode_utf8(text);
        let cut = max_length - 3;
        encode_utf8_valid_utf8(text);
        valid_utf8_split(bytes, cut);
        let head = decode_utf8(bytes.subrange(0, cut));
        decode_utf8_encode_utf8(bytes.subrange(0, cut));
        lemma_dots_are_three_bytes();
        lemma_encode_concat(head, "..."@);
    }
}

proof fn lemma_dots_are_three_bytes()
    ensures
        byte_len("..."@) == 3,
{
    reveal_strlit("...");
    reveal_with_fuel(encode_utf8, 4);
}

proof fn lemma_encode_concat(a: Seq<char>, b: Seq<char>)
    ensures
        encode_utf8(a + b) == encode_utf8(a) + encode_utf8(b),
    decreases a.len(),
{
    if a.len() > 0 {
        assert((a + b).drop_first() =~= a.drop_first() + b);
        lemma_encode_concat(a.drop_first(), b);
    }
}

} // verus!
