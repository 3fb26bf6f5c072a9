//! Text as the cluster tools print it: lines, words, trimming and padding.
//!
//! Every function here works on the characters of its input; the spec functions
//! say what the standard library's `str::lines`, `str::trim` and
//! `str::split_whitespace` give, so that the parsers above them can be stated
//! over those notions.
use vstd::prelude::*;
use vstd::utf8::{valid_utf8, decode_utf8};

verus! {

broadcast use vstd::seq_lib::group_seq_properties;

/// Whether a character has Unicode's `White_Space` property, the set that
/// `char::is_whitespace` tests for.
pub open spec fn is_white_space(c: char) -> bool {
    ||| ('\u{9}' <= c && c <= '\u{d}')
    ||| c == ' '
    ||| c == '\u{85}'
    ||| c == '\u{a0}'
    ||| c == '\u{1680}'
    ||| ('\u{2000}' <= c && c <= '\u{200a}')
    ||| c == '\u{2028}'
    ||| c == '\u{2029}'
    ||| c == '\u{202f}'
    ||| c == '\u{205f}'
    ||| c == '\u{3000}'
}

/// Tests a character for white space.
pub fn char_is_white_space(c: char) -> (b: bool)
    ensures
        b == is_white_space(c),
{
    ('\u{9}' <= c && c <= '\u{d}') || c == ' ' || c == '\u{85}' || c == '\u{a0}' || c
        == '\u{1680}' || ('\u{2000}' <= c && c <= '\u{200a}') || c == '\u{2028}' || c
        == '\u{2029}' || c == '\u{202f}' || c == '\u{205f}' || c == '\u{3000}'
}

/// The characters at which a text is cut into pieces.
#[derive(Clone, Copy, Debug, PartialEq, Eq, Structural)]
pub enum Separator {
    /// A line feed, `'\n'`.
    LineFeed,
    /// Any white space character.
    WhiteSpace,
}

impl Separator {
    pub open spec fn spec_matches(self, c: char) -> bool {
        match self {
            Separator::LineFeed => c == '\n',
            Separator::WhiteSpace => is_white_space(c),
        }
    }

    /// Whether `c` is one of the characters this separator cuts at.
    pub fn matches(&self, c: char) -> (b: bool)
        ensures
            b == self.spec_matches(c),
    {
        match self {
            Separator::LineFeed => c == '\n',
            Separator::WhiteSpace => char_is_white_space(c),
        }
    }
}

/// The pieces of `s` between separator characters, in order, empty pieces
/// included: what `str::split` yields with `sep` as the pattern. There is one
/// piece more than there are separators in `s`.
pub open spec fn split_by(s: Seq<char>, sep: Separator) -> Seq<Seq<char>>
    decreases s.len(),
{
    if s.len() == 0 {
        seq![Seq::<char>::empty()]
    } else {
        let before = split_by(s.drop_last(), sep);
        if sep.spec_matches(s.last()) {
            before.push(Seq::<char>::empty())
        } else {
            before.update(before.len() - 1, before.last().push(s.last()))
        }
    }
}

/// `split_by` always yields at least one piece.
pub proof fn lemma_split_by_nonempty(s: Seq<char>, sep: Separator)
    ensures
        split_by(s, sep).len() >= 1,
    decreases s.len(),
{
    if s.len() > 0 {
        lemma_split_by_nonempty(s.drop_last(), sep);
    }
}

/// A line with one carriage return taken off its end, where it has one.
pub open spec fn without_carriage_return(l: Seq<char>) -> Seq<char> {
    if l.len() > 0 && l.last() == '\r' {
        l.drop_last()
    } else {
        l
    }
}

/// The lines of `s` as `str::lines` yields them: the text is cut at each line
/// feed, a carriage return just before a line feed is dropped, and a final line
/// feed does not start another, empty, line.
pub open spec fn lines(s: Seq<char>) -> Seq<Seq<char>> {
    let pieces = split_by(s, Separator::LineFeed);
    let ended = pieces.drop_last().map_values(|l: Seq<char>| without_carriage_return(l));
    if pieces.last().len() == 0 {
        ended
    } else {
        ended.push(pieces.last())
    }
}

/// `s` without its leading white space.
pub open spec fn trim_start(s: Seq<char>) -> Seq<char>
    decreases s.len(),
{
    if s.len() > 0 && is_white_space(s[0]) {
        trim_start(s.drop_first())
    } else {
        s
    }
}

/// `s` without its trailing white space.
pub open spec fn trim_end(s: Seq<char>) -> Seq<char>
    decreases s.len(),
{
    if s.len() > 0 && is_white_space(s.last()) {
        trim_end(s.drop_last())
    } else {
        s
    }
}

/// `s` without leading and trailing white space, as `str::trim` gives it.
pub open spec fn trim(s: Seq<char>) -> Seq<char> {
    trim_end(trim_start(s))
}

/// The function that trims a text, as a value.
pub open spec fn trimming() -> spec_fn(Seq<char>) -> Seq<char> {
    |l: Seq<char>| trim(l)
}

/// The test that a text is not empty, as a value.
pub open spec fn non_empty() -> spec_fn(Seq<char>) -> bool {
    |l: Seq<char>| l.len() > 0
}

/// The words of `s`: its maximal runs of characters that are not white space,
/// in order, as `str::split_whitespace` yields them.
pub open spec fn words(s: Seq<char>) -> Seq<Seq<char>> {
    split_by(s, Separator::WhiteSpace).filter(non_empty())
}

/// The characters of a list of strings.
pub open spec fn views(v: Seq<String>) -> Seq<Seq<char>> {
    v.map_values(|s: String| s@)
}

/// `s` followed by spaces up to `width` characters; `s` itself where it is at
/// least that long. This is what the format `{:<width}` prints.
pub open spec fn pad_right(s: Seq<char>, width: nat) -> Seq<char> {
    if s.len() >= width {
        s
    } else {
        s + Seq::new((width - s.len()) as nat, |i: int| ' ')
    }
}

/// `n` copies of `c`.
pub open spec fn repeated(c: char, n: nat) -> Seq<char> {
    Seq::new(n, |i: int| c)
}

// ----- trusted calls into the standard library -----

/// Appends one character: calls `String::push`, which the standard library
/// documents as appending the character to the end of the string.
#[verifier::external_body]
fn push_char(s: &mut String, c: char)
    ensures
        final(s)@ == old(s)@.push(c),
{
    s.push(c);
}

/// Decodes bytes as UTF-8: calls `std::str::from_utf8`, which returns the text
/// exactly when the bytes are well-formed UTF-8 and fails otherwise.
#[verifier::external_body]
fn utf8_text(bytes: &[u8]) -> (res: Option<&str>)
    ensures
        res is Some <==> valid_utf8(bytes@),
        res matches Some(t) ==> t@ == decode_utf8(bytes@),
{
    match std::str::from_utf8(bytes) {
        Ok(t) => Some(t),
        Err(_) => None,
    }
}

/// The text that `String::from_utf8_lossy` makes of a byte string.
pub uninterp spec fn utf8_lossy(bytes: Seq<u8>) -> Seq<char>;

/// Decodes bytes as UTF-8, replacing ill-formed parts: calls
/// `String::from_utf8_lossy`. Its result is named `utf8_lossy`; as the
/// standard library documents, well-formed UTF-8 comes out unchanged. How
/// ill-formed bytes are replaced is not stated.
#[verifier::external_body]
pub(crate) fn lossy_text(bytes: &[u8]) -> (res: String)
    ensures
        res@ == utf8_lossy(bytes@),
        valid_utf8(bytes@) ==> res@ == decode_utf8(bytes@),
{
    String::from_utf8_lossy(bytes).into_owned()
}

/// The text that `str::to_lowercase` makes of a text.
pub uninterp spec fn lowercase(s: Seq<char>) -> Seq<char>;

/// A character with an ASCII capital letter made lower case.
pub open spec fn ascii_lowercase_char(c: char) -> char {
    if 'A' <= c && c <= 'Z' {
        ((c as u32) + 32) as char
    } else {
        c
    }
}

/// A text with its ASCII capital letters made lower case.
pub open spec fn ascii_lowercase(s: Seq<char>) -> Seq<char> {
    s.map_values(|c: char| ascii_lowercase_char(c))
}

/// The lower case form of a text: calls `str::to_lowercase`, whose result is
/// named `lowercase`. That function maps each character by Unicode's lower
/// case mapping, under which the ASCII capitals map to their small letters
/// and every other ASCII character to itself; so an ASCII text comes out with
/// its capitals lowered. The case tables for other characters are not stated.
#[verifier::external_body]
pub(crate) fn to_lowercase(s: &str) -> (res: String)
    ensures
        res@ == lowercase(s@),
        vstd::utf8::is_ascii_chars(s@) ==> res@ == ascii_lowercase(s@),
{
    s.to_lowercase()
}

/// The text that the `Debug` format `{:?}` prints for a text: the text in
/// double quotes, with special characters escaped.
pub uninterp spec fn debug_quoted(s: Seq<char>) -> Seq<char>;

/// The `Debug` form of a text: formats it with `{:?}`, which the standard
/// library implements for `str`. Its result is named `debug_quoted`; the
/// escaping rules are not stated.
#[verifier::external_body]
pub(crate) fn debug_text(s: &str) -> (d: String)
    ensures
        d@ == debug_quoted(s@),
{
    format!("{:?}", s)
}

// ----- verified text handling -----

/// The characters of a text, one by one.
pub fn chars_of(s: &str) -> (v: Vec<char>)
    ensures
        v@ == s@,
{
    let mut v: Vec<char> = Vec::new();
    for c in it: s.chars()
        invariant
            v@ == it.seq().take(it.index() as int),
    {
        v.push(c);
    }
    v
}

/// A string of the characters `text[lo..hi]`.
pub fn string_of(text: &Vec<char>, lo: usize, hi: usize) -> (s: String)
    requires
        lo <= hi <= text.len(),
    ensures
        s@ == text@.subrange(lo as int, hi as int),
{
    let mut s = String::new();
    let mut i = lo;
    while i < hi
        invariant
            lo <= i <= hi <= text.len(),
            s@ == text@.subrange(lo as int, i as int),
        decreases hi - i,
    {
        push_char(&mut s, text[i]);
        assert(text@.subrange(lo as int, i + 1) == text@.subrange(lo as int, i as int).push(
            text@[i as int],
        ));
        i = i + 1;
    }
    s
}

/// Whether two texts are the same, character for character.
pub fn same_text(a: &str, b: &str) -> (r: bool)
    ensures
        r == (a@ == b@),
{
    let x = chars_of(a);
    let y = chars_of(b);
    if x.len() != y.len() {
        return false;
    }
    let mut i: usize = 0;
    while i < x.len()
        invariant
            x@ == a@,
            y@ == b@,
            x.len() == y.len(),
            i <= x.len(),
            forall|j: int| 0 <= j < i ==> x@[j] == y@[j],
        decreases x.len() - i,
    {
        if x[i] != y[i] {
            return false;
        }
        i = i + 1;
    }
    assert(x@ =~= y@);
    true
}

/// The bounds of the trimmed part of `text[start..end]`.
pub fn trim_bounds(text: &Vec<char>, start: usize, end: usize) -> (r: (usize, usize))
    requires
        start <= end <= text.len(),
    ensures
        start <= r.0 <= r.1 <= end,
        text@.subrange(r.0 as int, r.1 as int) == trim(text@.subrange(start as int, end as int)),
        r.0 < r.1 ==> !is_white_space(text@[r.0 as int]) && !is_white_space(text@[r.1 - 1]),
{
    let ghost whole = text@.subrange(start as int, end as int);
    let mut lo = start;
    while lo < end && char_is_white_space(text[lo])
        invariant
            start <= lo <= end <= text.len(),
            trim_start(whole) == trim_start(text@.subrange(lo as int, end as int)),
        decreases end - lo,
    {
        assert(text@.subrange(lo as int, end as int).drop_first() == text@.subrange(
            lo + 1,
            end as int,
        ));
        lo = lo + 1;
    }
    let mut hi = end;
    assert(trim_start(whole) == text@.subrange(lo as int, hi as int));
    while hi > lo && char_is_white_space(text[hi - 1])
        invariant
            start <= lo <= hi <= end <= text.len(),
            lo < end ==> !is_white_space(text@[lo as int]),
            trim(whole) == trim_end(text@.subrange(lo as int, hi as int)),
        decreases hi - lo,
    {
        assert(text@.subrange(lo as int, hi as int).drop_last() == text@.subrange(
            lo as int,
            hi - 1,
        ));
        hi = hi - 1;
    }
    (lo, hi)
}

/// A text without leading and trailing white space.
pub fn trim_text(s: &str) -> (t: String)
    ensures
        t@ == trim(s@),
{
    let chars = chars_of(s);
    let (lo, hi) = trim_bounds(&chars, 0, chars.len());
    assert(chars@.subrange(0, chars.len() as int) == chars@);
    string_of(&chars, lo, hi)
}

/// The bounds of the pieces of `text[start..end]` between separators.
pub fn piece_bounds(text: &Vec<char>, start: usize, end: usize, sep: Separator) -> (b: Vec<
    (usize, usize),
>)
    requires
        start <= end <= text.len(),
    ensures
        b.len() == split_by(text@.subrange(start as int, end as int), sep).len(),
        forall|j: int|
            0 <= j < b.len() ==> start <= (#[trigger] b@[j]).0 <= b@[j].1 <= end
                && text@.subrange(b@[j].0 as int, b@[j].1 as int) == split_by(
                text@.subrange(start as int, end as int),
                sep,
            )[j],
{
    let mut b: Vec<(usize, usize)> = Vec::new();
    let mut piece_start = start;
    let mut i = start;
    assert(text@.subrange(start as int, start as int) =~= Seq::<char>::empty());
    while i < end
        invariant
            start <= piece_start <= i <= end <= text.len(),
            b.len() + 1 == split_by(text@.subrange(start as int, i as int), sep).len(),
            split_by(text@.subrange(start as int, i as int), sep).last() == text@.subrange(
                piece_start as int,
                i as int,
            ),
            forall|j: int|
                0 <= j < b.len() ==> start <= (#[trigger] b@[j]).0 <= b@[j].1 <= piece_start
                    && text@.subrange(b@[j].0 as int, b@[j].1 as int) == split_by(
                    text@.subrange(start as int, i as int),
                    sep,
                )[j],
        decreases end - i,
    {
        let ghost before = split_by(text@.subrange(start as int, i as int), sep);
        let ghost now = text@.subrange(start as int, i + 1);
        assert(now.drop_last() == text@.subrange(start as int, i as int));
        assert(now.last() == text@[i as int]);
        if sep.matches(text[i]) {
            b.push((piece_start, i));
            piece_start = i + 1;
            assert(text@.subrange(piece_start as int, i + 1) =~= Seq::<char>::empty());
        } else {
            assert(text@.subrange(piece_start as int, i + 1) == text@.subrange(
                piece_start as int,
                i as int,
            ).push(text@[i as int]));
        }
        i = i + 1;
    }
    proof {
        lemma_split_by_nonempty(text@.subrange(start as int, end as int), sep);
    }
    b.push((piece_start, end));
    b
}


/// The bounds of the lines of `text`, in the sense of `lines`.
pub fn line_bounds(text: &Vec<char>) -> (b: Vec<(usize, usize)>)
    ensures
        b.len() == lines(text@).len(),
        forall|j: int|
            0 <= j < b.len() ==> (#[trigger] b@[j]).0 <= b@[j].1 <= text.len() && text@.subrange(
                b@[j].0 as int,
                b@[j].1 as int,
            ) == lines(text@)[j],
{
    let pieces = piece_bounds(text, 0, text.len(), Separator::LineFeed);
    let ghost all = split_by(text@, Separator::LineFeed);
    assert(text@.subrange(0, text.len() as int) == text@);
    proof {
        lemma_split_by_nonempty(text@, Separator::LineFeed);
    }
    let n = pieces.len();
    let ghost ended = all.drop_last().map_values(|l: Seq<char>| without_carriage_return(l));
    let mut b: Vec<(usize, usize)> = Vec::new();
    let mut j: usize = 0;
    while j + 1 < n
        invariant
            n == pieces.len() == all.len() >= 1,
            j + 1 <= n,
            b.len() == j,
            ended == all.drop_last().map_values(|l: Seq<char>| without_carriage_return(l)),
            forall|k: int|
                0 <= k < n ==> (#[trigger] pieces@[k]).0 <= pieces@[k].1 <= text.len()
                    && text@.subrange(pieces@[k].0 as int, pieces@[k].1 as int) == all[k],
            forall|k: int|
                0 <= k < j ==> (#[trigger] b@[k]).0 <= b@[k].1 <= text.len() && text@.subrange(
                    b@[k].0 as int,
                    b@[k].1 as int,
                ) == ended[k],
        decreases n - j,
    {
        let (a, e) = pieces[j];
        let ghost piece = text@.subrange(a as int, e as int);
        assert(piece == all[j as int]);
        assert(ended[j as int] == without_carriage_return(piece));
        if e > a && text[e - 1] == '\r' {
            assert(piece.drop_last() == text@.subrange(a as int, e - 1));
            b.push((a, e - 1));
        } else {
            b.push((a, e));
        }
        j = j + 1;
    }
    let (a, e) = pieces[n - 1];
    assert(text@.subrange(a as int, e as int) == all.last());
    if a < e {
        b.push((a, e));
    }
    b
}

/// The words of `text[start..end]`.
pub fn words_in(text: &Vec<char>, start: usize, end: usize) -> (w: Vec<String>)
    requires
        start <= end <= text.len(),
    ensures
        views(w@) == words(text@.subrange(start as int, end as int)),
{
    let pieces = piece_bounds(text, start, end, Separator::WhiteSpace);
    let ghost all = split_by(text@.subrange(start as int, end as int), Separator::WhiteSpace);
    let mut w: Vec<String> = Vec::new();
    let mut j: usize = 0;
    while j < pieces.len()
        invariant
            start <= end <= text.len(),
            pieces.len() == all.len(),
            j <= pieces.len(),
            forall|k: int|
                0 <= k < pieces.len() ==> start <= (#[trigger] pieces@[k]).0 <= pieces@[k].1
                    <= end && text@.subrange(pieces@[k].0 as int, pieces@[k].1 as int) == all[k],
            views(w@) == all.take(j as int).filter(non_empty()),
        decreases pieces.len() - j,
    {
        let (a, e) = pieces[j];
        assert(all.take(j + 1) == all.take(j as int).push(all[j as int]));
        proof {
            all.take(j as int).lemma_filter_push(all[j as int], non_empty());
        }
        if a < e {
            let word = string_of(text, a, e);
            let ghost old_w = w@;
            w.push(word);
            assert(views(w@) == views(old_w).push(word@));
        }
        j = j + 1;
    }
    assert(all.take(pieces.len() as int) == all);
    w
}


/// The text that well-formed UTF-8 bytes encode, or `fallback` where they are
/// not well-formed: what `str::from_utf8(bytes).unwrap_or(fallback)` gives.
pub open spec fn decoded_or(bytes: Seq<u8>, fallback: Seq<char>) -> Seq<char> {
    if valid_utf8(bytes) {
        decode_utf8(bytes)
    } else {
        fallback
    }
}

/// Decodes UTF-8 bytes, falling back to `fallback` where they are ill-formed.
pub fn decode_or(bytes: &[u8], fallback: &str) -> (t: String)
    ensures
        t@ == decoded_or(bytes@, fallback@),
{
    match utf8_text(bytes) {
        Some(t) => t.to_owned(),
        None => fallback.to_owned(),
    }
}

/// `a` followed by `b`.
pub fn joined(a: &str, b: &str) -> (s: String)
    ensures
        s@ == a@ + b@,
{
    let mut s = a.to_owned();
    s.append(b);
    s
}

/// `s` followed by spaces up to `width` characters.
pub fn padded(s: &str, width: usize) -> (p: String)
    ensures
        p@ == pad_right(s@, width as nat),
{
    let n = chars_of(s).len();
    let mut p = s.to_owned();
    let mut k = n;
    while k < width
        invariant
            n == s@.len(),
            n <= k,
            n < width ==> k <= width,
            n >= width ==> k == n,
            p@ == s@ + repeated(' ', (k - n) as nat),
        decreases width - k,
    {
        let ghost before = p@;
        push_char(&mut p, ' ');
        assert(repeated(' ', (k + 1 - n) as nat) =~= repeated(' ', (k - n) as nat).push(' '));
        assert(p@ =~= s@ + repeated(' ', (k + 1 - n) as nat));
        k = k + 1;
    }
    if n >= width {
        assert(p@ =~= s@);
    } else {
        assert(repeated(' ', (width - n) as nat) =~= Seq::new((width - n) as nat, |i: int| ' '));
    }
    p
}

/// `n` copies of `c`.
pub fn repeat_char(c: char, n: usize) -> (s: String)
    ensures
        s@ == repeated(c, n as nat),
{
    let mut s = String::new();
    let mut k: usize = 0;
    while k < n
        invariant
            k <= n,
            s@ == repeated(c, k as nat),
        decreases n - k,
    {
        push_char(&mut s, c);
        assert(repeated(c, (k + 1) as nat) =~= repeated(c, k as nat).push(c));
        k = k + 1;
    }
    s
}


/// No piece that `split_by` yields holds a separator character.
pub proof fn lemma_split_by_pieces_hold_no_separator(s: Seq<char>, sep: Separator)
    ensures
        forall|i: int, k: int|
            0 <= i < split_by(s, sep).len() && 0 <= k < split_by(s, sep)[i].len()
                ==> !sep.spec_matches(#[trigger] split_by(s, sep)[i][k]),
    decreases s.len(),
{
    if s.len() > 0 {
        lemma_split_by_pieces_hold_no_separator(s.drop_last(), sep);
        lemma_split_by_nonempty(s.drop_last(), sep);
    }
}

/// Whether a text is a word: not empty, and without white space.
pub open spec fn is_word(w: Seq<char>) -> bool {
    w.len() > 0 && forall|k: int| 0 <= k < w.len() ==> !is_white_space(#[trigger] w[k])
}

/// Every word of a text is a word: not empty, and without white space.
pub proof fn lemma_words_are_words(s: Seq<char>)
    ensures
        forall|i: int| 0 <= i < words(s).len() ==> is_word(#[trigger] words(s)[i]),
{
    let pieces = split_by(s, Separator::WhiteSpace);
    lemma_split_by_pieces_hold_no_separator(s, Separator::WhiteSpace);
    assert forall|i: int| 0 <= i < words(s).len() implies is_word(#[trigger] words(s)[i]) by {
        let w = words(s)[i];
        pieces.lemma_filter_pred(non_empty(), i);
        assert(pieces.filter(non_empty()).contains(w));
        pieces.lemma_filter_contains_rev(non_empty(), w);
        let j = choose|j: int| 0 <= j < pieces.len() && pieces[j] == w;
        assert forall|k: int| 0 <= k < w.len() implies !is_white_space(#[trigger] w[k]) by {
            assert(!Separator::WhiteSpace.spec_matches(pieces[j][k]));
        }
    }
}

/// A carriage return at the end of a line makes no difference once the line
/// is trimmed.
pub proof fn lemma_trim_ignores_carriage_return(l: Seq<char>)
    ensures
        trim(without_carriage_return(l)) == trim(l),
{
    if l.len() > 0 && l.last() == '\r' {
        lemma_trim_drops_white_space_at_end(l);
    }
}

/// Trimming a text that ends in white space gives what trimming it without
/// that last character gives.
pub proof fn lemma_trim_drops_white_space_at_end(l: Seq<char>)
    requires
        l.len() > 0,
        is_white_space(l.last()),
    ensures
        trim(l.drop_last()) == trim(l),
    decreases l.len(),
{
    if is_white_space(l[0]) {
        if l.len() == 1 {
            assert(l.drop_first() =~= Seq::<char>::empty());
            assert(l.drop_last() =~= Seq::<char>::empty());
        } else {
            let rest = l.drop_first();
            lemma_trim_drops_white_space_at_end(rest);
            assert(l.drop_last().drop_first() =~= rest.drop_last());
        }
    } else {
        assert(l.len() >= 2);
        assert(l.drop_last()[0] == l[0]);
    }
}

/// A final line feed starts no further line: a text has the same non-blank
/// trimmed lines with or without one more line feed at its end.
pub proof fn lemma_final_line_feed_adds_no_line(s: Seq<char>)
    ensures
        lines(s.push('\n')).map_values(trimming()).filter(non_empty()) == lines(s).map_values(
            trimming(),
        ).filter(non_empty()),
{
    let p = split_by(s, Separator::LineFeed);
    lemma_split_by_nonempty(s, Separator::LineFeed);
    assert(s.push('\n').drop_last() == s);
    assert(split_by(s.push('\n'), Separator::LineFeed) == p.push(Seq::<char>::empty()));
    let cr = |l: Seq<char>| without_carriage_return(l);
    let body = p.drop_last().map_values(cr);
    let with_feed = lines(s.push('\n'));
    assert(p.push(Seq::<char>::empty()).drop_last() == p);
    assert(with_feed == p.map_values(cr));
    assert(p.map_values(cr) == body.push(without_carriage_return(p.last())));
    lemma_trim_ignores_carriage_return(p.last());
    assert(with_feed.map_values(trimming()) == body.map_values(trimming()).push(trim(p.last())));
    body.map_values(trimming()).lemma_filter_push(trim(p.last()), non_empty());
    if p.last().len() == 0 {
        assert(trim_start(p.last()) == p.last());
        assert(lines(s) == body);
    } else {
        assert(lines(s) == body.push(p.last()));
        assert(lines(s).map_values(trimming()) == body.map_values(trimming()).push(trim(p.last())));
    }
}


/// Padding gives at least the width asked for, and keeps the text at its start.
pub proof fn lemma_pad_right(s: Seq<char>, width: nat)
    ensures
        pad_right(s, width).len() >= width,
        pad_right(s, width).len() >= s.len(),
        pad_right(s, width).take(s.len() as int) == s,
        pad_right(s, width).len() == if s.len() >= width {
            s.len()
        } else {
            width
        },
        forall|k: int| s.len() <= k < pad_right(s, width).len() ==> #[trigger] pad_right(s, width)[k] == ' ',
{
    assert(pad_right(s, width).take(s.len() as int) =~= s);
}


/// A text that is empty or ends with a separator leaves an empty last piece.
pub proof fn lemma_split_by_last_piece_empty(a: Seq<char>, sep: Separator)
    requires
        a.len() == 0 || sep.spec_matches(a.last()),
    ensures
        split_by(a, sep).len() >= 1,
        split_by(a, sep).last().len() == 0,
{
    lemma_split_by_nonempty(a, sep);
}

/// Text that follows a separator is cut into its own pieces: the pieces of
/// `a + b` are those of `a` before its last, empty, piece, then those of `b`.
pub proof fn lemma_split_by_after_separator(a: Seq<char>, b: Seq<char>, sep: Separator)
    requires
        a.len() == 0 || sep.spec_matches(a.last()),
    ensures
        split_by(a + b, sep) == split_by(a, sep).drop_last() + split_by(b, sep),
    decreases b.len(),
{
    lemma_split_by_last_piece_empty(a, sep);
    let d = split_by(a, sep).drop_last();
    if b.len() == 0 {
        assert(a + b =~= a);
        assert(split_by(a, sep) =~= d + seq![Seq::<char>::empty()]);
    } else {
        let b2 = b.drop_last();
        lemma_split_by_after_separator(a, b2, sep);
        lemma_split_by_nonempty(b2, sep);
        assert((a + b).drop_last() =~= a + b2);
        assert((a + b).last() == b.last());
        let s2 = split_by(b2, sep);
        let before = d + s2;
        assert(split_by(a + b2, sep) == before);
        if sep.spec_matches(b.last()) {
            assert(before.push(Seq::<char>::empty()) =~= d + s2.push(Seq::<char>::empty()));
        } else {
            let grown = s2.last().push(b.last());
            assert(before.last() == s2.last());
            assert(before.update(before.len() - 1, grown) =~= d + s2.update(s2.len() - 1, grown));
        }
    }
}

/// The lines of a text that follows a line feed are lines of their own: the
/// lines of `a + b` are those of `a`, then those of `b`.
pub proof fn lemma_lines_after_line_feed(a: Seq<char>, b: Seq<char>)
    requires
        a.len() == 0 || a.last() == '\n',
    ensures
        lines(a + b) == lines(a) + lines(b),
{
    let sep = Separator::LineFeed;
    lemma_split_by_after_separator(a, b, sep);
    lemma_split_by_last_piece_empty(a, sep);
    lemma_split_by_nonempty(b, sep);
    let p = split_by(a, sep);
    let q = split_by(b, sep);
    let pieces = p.drop_last() + q;
    let cr = |l: Seq<char>| without_carriage_return(l);
    assert(pieces.last() == q.last());
    assert(pieces.drop_last() =~= p.drop_last() + q.drop_last());
    assert(pieces.drop_last().map_values(cr) =~= p.drop_last().map_values(cr) + q.drop_last().map_values(
        cr,
    ));
    assert(lines(a) == p.drop_last().map_values(cr));
    if q.last().len() == 0 {
        assert(lines(a + b) == lines(a) + lines(b));
    } else {
        assert(lines(a + b) =~= lines(a) + lines(b));
    }
}

/// Decoding two well-formed UTF-8 byte strings one after the other gives the
/// two texts one after the other.
pub proof fn lemma_decode_concatenation(a: Seq<u8>, b: Seq<u8>)
    requires
        valid_utf8(a),
        valid_utf8(b),
    ensures
        valid_utf8(a + b),
        decode_utf8(a + b) == decode_utf8(a) + decode_utf8(b),
{
    vstd::utf8::valid_utf8_concat(a, b);
    let x = decode_utf8(a);
    let y = decode_utf8(b);
    vstd::utf8::decode_utf8_encode_utf8(a);
    vstd::utf8::decode_utf8_encode_utf8(b);
    lemma_encode_concatenation(x, y);
    vstd::utf8::encode_utf8_decode_utf8(x + y);
}

/// Encoding two texts one after the other gives the two encodings one after
/// the other.
pub proof fn lemma_encode_concatenation(x: Seq<char>, y: Seq<char>)
    ensures
        vstd::utf8::encode_utf8(x + y) == vstd::utf8::encode_utf8(x) + vstd::utf8::encode_utf8(y),
    decreases x.len(),
{
    if x.len() > 0 {
        lemma_encode_concatenation(x.drop_first(), y);
        assert((x + y).drop_first() =~= x.drop_first() + y);
        assert((x + y)[0] == x[0]);
        let e = vstd::utf8::encode_scalar(x[0] as u32);
        assert(e + (vstd::utf8::encode_utf8(x.drop_first()) + vstd::utf8::encode_utf8(y)) =~= (e
            + vstd::utf8::encode_utf8(x.drop_first())) + vstd::utf8::encode_utf8(y));
    }
}

/// Well-formed UTF-8 that ends with the byte of a line feed decodes to a text
/// that ends with a line feed.
pub proof fn lemma_decode_final_line_feed(a: Seq<u8>)
    requires
        valid_utf8(a),
        a.len() > 0,
        a.last() == 10,
    ensures
        decode_utf8(a).len() > 0,
        decode_utf8(a).last() == '\n',
{
    let x = decode_utf8(a);
    vstd::utf8::decode_utf8_encode_utf8(a);
    if x.len() == 0 {
        assert(vstd::utf8::encode_utf8(x) =~= Seq::<u8>::empty());
    } else {
        let front = x.drop_last();
        let c = x.last();
        assert(x =~= front + seq![c]);
        lemma_encode_concatenation(front, seq![c]);
        assert(seq![c].drop_first() =~= Seq::<char>::empty());
        assert(seq![c][0] == c);
        let e = vstd::utf8::encode_scalar(c as u32);
        assert(vstd::utf8::encode_utf8(Seq::<char>::empty()) =~= Seq::<u8>::empty());
        assert(vstd::utf8::encode_utf8(seq![c]) =~= e);
        assert(a == vstd::utf8::encode_utf8(front) + e);
        assert(e.len() > 0);
        assert(a.last() == e.last());
        let v = c as u32;
        vstd::utf8::char_is_scalar(c);
        if vstd::utf8::has_width_1_encoding(v) {
            assert(e.last() == vstd::utf8::leading_byte_width_1(v));
            assert(((v & 0x7F) as u8) == 10 && v <= 0x7F ==> v == 10) by (bit_vector);
            assert(v == 10);
            vstd::utf8::char_u32_cast(c, v);
            assert((10u32 as char) == '\n');
        } else {
            assert(e.last() == vstd::utf8::last_continuation_byte(v));
            assert((0x80 | (v & 0x3F) as u8) != 10u8) by (bit_vector);
        }
    }
}

} // verus!
