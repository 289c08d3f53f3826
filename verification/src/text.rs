//! Text: what the rest of the library says of strings, and the few operations on them that it needs.

use vstd::prelude::*;
use vstd::utf8::encode_utf8;

verus! {

/// `String::push` appends the character to the end of the string.
pub assume_specification[ String::push ](string: &mut String, ch: char)
    ensures
        final(string)@ == old(string)@.push(ch),
;

/// The Unicode property `White_Space`: the 25 characters that have it.
pub open spec fn white_space(c: char) -> bool {
    let code = c as u32;
    ||| 0x9 <= code <= 0xD
    ||| code == 0x20 || code == 0x85 || code == 0xA0 || code == 0x1680
    ||| 0x2000 <= code <= 0x200A
    ||| code == 0x2028 || code == 0x2029 || code == 0x202F || code == 0x205F || code == 0x3000
}

/// Whether the character has the property `White_Space`.
pub fn is_white_space(c: char) -> (r: bool)
    ensures
        r == white_space(c),
{
    let code: u32 = c as u32;
    (0x9 <= code && code <= 0xD) || code == 0x20 || code == 0x85 || code == 0xA0 || code == 0x1680
        || (0x2000 <= code && code <= 0x200A) || code == 0x2028 || code == 0x2029 || code == 0x202F
        || code == 0x205F || code == 0x3000
}

/// Where `c` first stands in `s`, or the length of `s` where it does not.
pub open spec fn position<A>(s: Seq<A>, c: A) -> int
    decreases s.len(),
{
    if s.len() == 0 || s[0] == c {
        0
    } else {
        1 + position(s.drop_first(), c)
    }
}

pub proof fn lemma_position<A>(s: Seq<A>, c: A)
    ensures
        0 <= position(s, c) <= s.len(),
        position(s, c) < s.len() ==> s[position(s, c)] == c,
        forall|j: int| 0 <= j < position(s, c) ==> s[j] != c,
    decreases s.len(),
{
    if s.len() > 0 && s[0] != c {
        lemma_position(s.drop_first(), c);
        assert forall|j: int| 0 <= j < position(s, c) implies s[j] != c by {
            if j > 0 {
                assert(s.drop_first()[j - 1] == s[j]);
            }
        }
    }
}

/// An index is the position as soon as no earlier one holds the character.
pub proof fn lemma_position_unique<A>(s: Seq<A>, c: A, i: int)
    requires
        0 <= i <= s.len(),
        i < s.len() ==> s[i] == c,
        forall|j: int| 0 <= j < i ==> s[j] != c,
    ensures
        position(s, c) == i,
{
    lemma_position(s, c);
}

/// What stands before and after the first `c`.
pub open spec fn split_once_at<A>(s: Seq<A>, c: A) -> Option<(Seq<A>, Seq<A>)> {
    let p = position(s, c);
    if p < s.len() {
        Some((s.take(p), s.skip(p + 1)))
    } else {
        None
    }
}

/// The pieces of `s` between the occurrences of `c`.
pub open spec fn split_at_each<A>(s: Seq<A>, c: A) -> Seq<Seq<A>>
    decreases s.len(),
{
    let p = position(s, c);
    if 0 <= p < s.len() {
        seq![s.take(p)] + split_at_each(s.skip(p + 1), c)
    } else {
        seq![s]
    }
}

/// `s` without the white space at its start.
pub open spec fn trim_front(s: Seq<char>) -> Seq<char>
    decreases s.len(),
{
    if s.len() > 0 && white_space(s[0]) {
        trim_front(s.drop_first())
    } else {
        s
    }
}

/// `s` without the white space at its end.
pub open spec fn trim_back(s: Seq<char>) -> Seq<char>
    decreases s.len(),
{
    if s.len() > 0 && white_space(s.last()) {
        trim_back(s.drop_last())
    } else {
        s
    }
}

/// `s` without the white space at both ends.
pub open spec fn trimmed(s: Seq<char>) -> Seq<char> {
    trim_back(trim_front(s))
}

/// Whether `s` holds nothing but white space.
pub open spec fn is_blank(s: Seq<char>) -> bool {
    forall|i: int| 0 <= i < s.len() ==> white_space(#[trigger] s[i])
}

/// `s` without the characters `c` at its end.
pub open spec fn without_trailing(s: Seq<char>, c: char) -> Seq<char>
    decreases s.len(),
{
    if s.len() > 0 && s.last() == c {
        without_trailing(s.drop_last(), c)
    } else {
        s
    }
}

/// How many runs of characters other than white space `s` holds.
pub open spec fn word_count(s: Seq<char>) -> nat
    decreases s.len(),
{
    if s.len() == 0 {
        0
    } else {
        let before = word_count(s.drop_last());
        if !white_space(s.last()) && (s.len() == 1 || white_space(s[s.len() - 2])) {
            before + 1
        } else {
            before
        }
    }
}

/// Whether `needle` stands in `s` from index `i` on.
pub open spec fn occurs_at(s: Seq<char>, needle: Seq<char>, i: int) -> bool {
    0 <= i && i + needle.len() <= s.len() && s.subrange(i, i + needle.len()) == needle
}

/// Whether `needle` stands somewhere in `s`.
pub open spec fn occurs_in(s: Seq<char>, needle: Seq<char>) -> bool {
    exists|i: int| #[trigger] occurs_at(s, needle, i)
}

/// The bytes that `text` takes in UTF-8.
pub fn byte_len(text: &str) -> (n: usize)
    ensures
        n == encode_utf8(text@).len(),
{
    text.as_bytes().len()
}

/// Strings are equal where their bytes are.
pub proof fn lemma_utf8_injective(a: Seq<char>, b: Seq<char>)
    requires
        encode_utf8(a) == encode_utf8(b),
    ensures
        a == b,
{
    vstd::utf8::encode_utf8_decode_utf8(a);
    vstd::utf8::encode_utf8_decode_utf8(b);
}

/// Whether two slices of bytes are equal.
pub fn same_bytes(a: &[u8], b: &[u8]) -> (r: bool)
    ensures
        r == (a@ == b@),
{
    if a.len() != b.len() {
        return false;
    }
    let mut i: usize = 0;
    while i < a.len()
        invariant
            a@.len() == b@.len(),
            i <= a@.len(),
            forall|j: int| 0 <= j < i ==> a@[j] == b@[j],
        decreases a@.len() - i,
    {
        if a[i] != b[i] {
            return false;
        }
        i += 1;
    }
    assert(a@ =~= b@);
    true
}

/// Whether two strings are equal.
pub fn same(a: &str, b: &str) -> (r: bool)
    ensures
        r == (a@ == b@),
{
    let r = same_bytes(a.as_bytes(), b.as_bytes());
    proof {
        if r {
            lemma_utf8_injective(a@, b@);
        }
    }
    r
}

/// The characters of `text`.
pub fn chars_of(text: &str) -> (chars: Vec<char>)
    ensures
        chars@ == text@,
{
    let mut chars: Vec<char> = Vec::new();
    for c in iter: text.chars()
        invariant
            iter.seq() == text@,
            chars@ == text@.take(iter.index()),
    {
        chars.push(c);
    }
    chars
}

/// The string of the characters from `from` up to `to`.
pub fn text_of(chars: &[char], from: usize, to: usize) -> (text: String)
    requires
        from <= to <= chars@.len(),
    ensures
        text@ == chars@.subrange(from as int, to as int),
{
    let mut text = String::new();
    let mut i: usize = from;
    while i < to
        invariant
            from <= i <= to <= chars@.len(),
            text@ == chars@.subrange(from as int, i as int),
        decreases to - i,
    {
        text.push(chars[i]);
        i += 1;
    }
    text
}

/// Whether `text` begins with `prefix`.
pub fn starts_with(text: &str, prefix: &str) -> (r: bool)
    ensures
        r == prefix@.is_prefix_of(text@),
{
    let n: usize = prefix.unicode_len();
    if text.unicode_len() < n {
        return false;
    }
    same(text.substring_char(0, n), prefix)
}

/// Whether `text` ends with `suffix`.
pub fn ends_with(text: &str, suffix: &str) -> (r: bool)
    ensures
        r == suffix@.is_suffix_of(text@),
{
    let n: usize = suffix.unicode_len();
    let len: usize = text.unicode_len();
    if len < n {
        return false;
    }
    same(text.substring_char(len - n, len), suffix)
}

/// What follows `prefix` in `text`, where `text` begins with it.
pub fn strip_prefix<'a>(text: &'a str, prefix: &str) -> (r: Option<&'a str>)
    ensures
        r is Some == prefix@.is_prefix_of(text@),
        r matches Some(rest) ==> rest@ == text@.skip(prefix@.len() as int),
{
    if !starts_with(text, prefix) {
        return None;
    }
    let n: usize = prefix.unicode_len();
    let len: usize = text.unicode_len();
    Some(text.substring_char(n, len))
}

/// Where `c` first stands in `text`, or the length of `text`.
pub fn find_char(text: &str, c: char) -> (i: usize)
    ensures
        i == position(text@, c),
{
    let mut i: usize = 0;
    let len: usize = text.unicode_len();
    for x in iter: text.chars()
        invariant
            iter.seq() == text@,
            len == text@.len(),
            i == iter.index(),
            forall|j: int| 0 <= j < i ==> text@[j] != c,
    {
        if x == c {
            proof {
                lemma_position_unique(text@, c, i as int);
            }
            return i;
        }
        i += 1;
    }
    proof {
        lemma_position_unique(text@, c, i as int);
    }
    i
}

/// What stands before and after the first `c` in `text`.
pub fn split_once<'a>(text: &'a str, c: char) -> (r: Option<(&'a str, &'a str)>)
    ensures
        match r {
            Some((before, after)) => split_once_at(text@, c) == Some((before@, after@)),
            None => split_once_at(text@, c) is None,
        },
{
    let p: usize = find_char(text, c);
    let len: usize = text.unicode_len();
    proof {
        lemma_position(text@, c);
    }
    if p < len {
        let before = text.substring_char(0, p);
        let after = text.substring_char(p + 1, len);
        assert(before@ == text@.take(p as int));
        assert(after@ == text@.skip(p + 1));
        Some((before, after))
    } else {
        None
    }
}

/// Whether `needle` stands somewhere in `text`.
pub fn contains(text: &str, needle: &str) -> (r: bool)
    ensures
        r == occurs_in(text@, needle@),
{
    let n: usize = needle.unicode_len();
    let len: usize = text.unicode_len();
    if len < n {
        assert(forall|i: int| !#[trigger] occurs_at(text@, needle@, i));
        return false;
    }
    let mut i: usize = 0;
    loop
        invariant
            n == needle@.len(),
            len == text@.len(),
            i <= len - n,
            forall|j: int| 0 <= j < i ==> !#[trigger] occurs_at(text@, needle@, j),
        decreases len - n - i,
    {
        if same(text.substring_char(i, i + n), needle) {
            assert(occurs_at(text@, needle@, i as int));
            return true;
        }
        if i == len - n {
            assert(forall|j: int| !#[trigger] occurs_at(text@, needle@, j));
            return false;
        }
        i += 1;
    }
}

/// `text` without the white space at both ends.
pub fn trim<'a>(text: &'a str) -> (r: &'a str)
    ensures
        r@ == trimmed(text@),
{
    let chars = chars_of(text);
    let len: usize = chars.len();
    let mut from: usize = 0;
    assert(text@.skip(0) == text@);
    while from < len && is_white_space(chars[from])
        invariant
            chars@ == text@,
            len == text@.len(),
            from <= len,
            trim_front(text@) == trim_front(text@.skip(from as int)),
        decreases len - from,
    {
        assert(text@.skip(from as int).drop_first() == text@.skip(from + 1));
        from += 1;
    }
    let ghost front = text@.skip(from as int);
    assert(trim_front(text@) == front);
    let mut to: usize = len;
    assert(front.take(len - from) == front);
    while to > from && is_white_space(chars[to - 1])
        invariant
            chars@ == text@,
            len == text@.len(),
            from <= to <= len,
            front == text@.skip(from as int),
            trim_back(front) == trim_back(front.take(to - from)),
        decreases to,
    {
        assert(front.take(to - from).drop_last() == front.take(to - 1 - from));
        to -= 1;
    }
    let r = text.substring_char(from, to);
    assert(r@ == front.take(to - from));
    r
}

/// Whether `text` holds nothing but white space.
pub fn blank(text: &str) -> (r: bool)
    ensures
        r == is_blank(text@),
        r == (trimmed(text@).len() == 0),
{
    let chars = chars_of(text);
    let len: usize = chars.len();
    let mut i: usize = 0;
    while i < len && is_white_space(chars[i])
        invariant
            chars@ == text@,
            len == text@.len(),
            i <= len,
            forall|j: int| 0 <= j < i ==> white_space(#[trigger] text@[j]),
        decreases len - i,
    {
        i += 1;
    }
    proof {
        lemma_trimmed_empty(text@);
    }
    i == len
}

/// A string trims to nothing exactly where it is blank.
pub proof fn lemma_trimmed_empty(s: Seq<char>)
    ensures
        is_blank(s) == (trimmed(s).len() == 0),
{
    lemma_trim_front(s);
    let front = trim_front(s);
    lemma_trim_back(front);
    if is_blank(s) {
        if front.len() > 0 {
            assert(front[0] == s[s.len() - front.len()]);
        }
    } else {
        let i = choose|i: int| 0 <= i < s.len() && !white_space(#[trigger] s[i]);
        assert(i >= s.len() - front.len());
        let j = i - (s.len() - front.len());
        assert(front[j] == s[i]);
    }
}

proof fn lemma_trim_front(s: Seq<char>)
    ensures
        trim_front(s).len() <= s.len(),
        trim_front(s) == s.skip(s.len() - trim_front(s).len()),
        forall|i: int| 0 <= i < s.len() - trim_front(s).len() ==> white_space(#[trigger] s[i]),
        trim_front(s).len() > 0 ==> !white_space(trim_front(s)[0]),
    decreases s.len(),
{
    if s.len() > 0 && white_space(s[0]) {
        lemma_trim_front(s.drop_first());
        let rest = s.drop_first();
        assert(trim_front(s) == s.skip(s.len() - trim_front(s).len()));
        assert forall|i: int| 0 <= i < s.len() - trim_front(s).len() implies white_space(
            #[trigger] s[i],
        ) by {
            if i > 0 {
                assert(rest[i - 1] == s[i]);
            }
        }
    } else {
        assert(s.skip(0) == s);
    }
}

proof fn lemma_trim_back(s: Seq<char>)
    ensures
        trim_back(s).len() <= s.len(),
        trim_back(s) == s.take(trim_back(s).len() as int),
        forall|i: int| trim_back(s).len() <= i < s.len() ==> white_space(#[trigger] s[i]),
    decreases s.len(),
{
    if s.len() > 0 && white_space(s.last()) {
        lemma_trim_back(s.drop_last());
        let rest = s.drop_last();
        assert forall|i: int| trim_back(s).len() <= i < s.len() implies white_space(
            #[trigger] s[i],
        ) by {
            if i < s.len() - 1 {
                assert(rest[i] == s[i]);
            }
        }
        assert(trim_back(s) == s.take(trim_back(s).len() as int));
    } else {
        assert(s.take(s.len() as int) == s);
    }
}

/// `text` without the characters `c` at its end.
pub fn trim_end_matches<'a>(text: &'a str, c: char) -> (r: &'a str)
    ensures
        r@ == without_trailing(text@, c),
{
    let chars = chars_of(text);
    let mut to: usize = chars.len();
    assert(text@.take(to as int) == text@);
    while to > 0 && chars[to - 1] == c
        invariant
            chars@ == text@,
            to <= text@.len(),
            without_trailing(text@, c) == without_trailing(text@.take(to as int), c),
        decreases to,
    {
        assert(text@.take(to as int).drop_last() == text@.take(to - 1));
        to -= 1;
    }
    let r = text.substring_char(0, to);
    assert(r@ == text@.take(to as int));
    r
}

/// How many words `text` holds.
pub fn count_words(text: &str) -> (n: usize)
    ensures
        n == word_count(text@),
        n <= text@.len(),
{
    let chars = chars_of(text);
    let mut n: usize = 0;
    let mut i: usize = 0;
    while i < chars.len()
        invariant
            chars@ == text@,
            i <= text@.len(),
            n <= i,
            n == word_count(text@.take(i as int)),
        decreases text@.len() - i,
    {
        assert(text@.take(i + 1).drop_last() == text@.take(i as int));
        if !is_white_space(chars[i]) && (i == 0 || is_white_space(chars[i - 1])) {
            n += 1;
        }
        i += 1;
    }
    assert(text@.take(i as int) == text@);
    n
}

/// The pieces of `text` between the occurrences of `c`.
pub fn split<'a>(text: &'a str, c: char) -> (pieces: Vec<&'a str>)
    ensures
        pieces@.map_values(|piece: &str| piece@) == split_at_each(text@, c),
{
    let mut pieces: Vec<&'a str> = Vec::new();
    let mut rest = text;
    let ghost view = |piece: &str| piece@;
    assert(pieces@.map_values(view) + split_at_each(rest@, c) == split_at_each(text@, c));
    loop
        invariant
            pieces@.map_values(view) + split_at_each(rest@, c) == split_at_each(text@, c),
            view == (|piece: &str| piece@),
        decreases rest@.len(),
    {
        proof {
            lemma_position(rest@, c);
        }
        let ghost done = pieces@;
        match split_once(rest, c) {
            Some((before, after)) => {
                pieces.push(before);
                assert(pieces@.map_values(view) == done.map_values(view).push(before@));
                assert(pieces@.map_values(view) + split_at_each(after@, c) == done.map_values(view)
                    + split_at_each(rest@, c));
                rest = after;
            },
            None => {
                assert(split_at_each(rest@, c) == seq![rest@]);
                pieces.push(rest);
                assert(pieces@.map_values(view) == done.map_values(view).push(rest@));
                return pieces;
            },
        }
    }
}

/// A copy of `text`.
pub fn owned(text: &str) -> (r: String)
    ensures
        r@ == text@,
{
    text.to_owned()
}

/// `a` followed by `b`.
pub fn join2(a: &str, b: &str) -> (r: String)
    ensures
        r@ == a@ + b@,
{
    let mut r = a.to_owned();
    r.append(b);
    r
}

/// `a`, `b` and `c` in a row.
pub fn join3(a: &str, b: &str, c: &str) -> (r: String)
    ensures
        r@ == a@ + b@ + c@,
{
    let mut r = a.to_owned();
    r.append(b);
    r.append(c);
    r
}

/// The decimal digits of a number.
pub open spec fn decimal(n: nat) -> Seq<char>
    decreases n,
{
    let digit = (48 + n % 10) as char;
    if n < 10 {
        seq![digit]
    } else {
        decimal(n / 10).push(digit)
    }
}

/// The decimal digits of a number.
pub fn decimal_of(n: u64) -> (digits: String)
    ensures
        digits@ == decimal(n as nat),
    decreases n,
{
    let digit = (48 + (n % 10) as u8) as char;
    let mut digits = if n < 10 {
        String::new()
    } else {
        decimal_of(n / 10)
    };
    digits.push(digit);
    digits
}

/// The words of `s`: its runs of characters other than white space.
pub open spec fn words(s: Seq<char>) -> Seq<Seq<char>>
    decreases s.len(),
{
    if s.len() == 0 {
        Seq::empty()
    } else {
        let before = words(s.drop_last());
        let c = s.last();
        if white_space(c) {
            before
        } else if s.len() == 1 || white_space(s[s.len() - 2]) {
            before.push(seq![c])
        } else {
            before.update(before.len() - 1, before.last().push(c))
        }
    }
}

/// There are as many words as are counted, and where the text ends in a word there is one.
pub proof fn lemma_words(s: Seq<char>)
    ensures
        words(s).len() == word_count(s),
        s.len() > 0 && !white_space(s.last()) ==> words(s).len() > 0,
    decreases s.len(),
{
    if s.len() > 0 {
        lemma_words(s.drop_last());
        if s.len() > 1 {
            assert(s.drop_last().last() == s[s.len() - 2]);
        }
    }
}

/// Texts, with a separator between each two.
pub open spec fn joined(parts: Seq<Seq<char>>, separator: Seq<char>) -> Seq<char>
    decreases parts.len(),
{
    if parts.len() == 0 {
        Seq::empty()
    } else if parts.len() == 1 {
        parts[0]
    } else {
        joined(parts.drop_last(), separator) + separator + parts.last()
    }
}

/// The words of `text` with a single space between each two.
pub fn normalized_words(text: &str) -> (r: String)
    ensures
        r@ == joined(words(text@), " "@),
{
    let chars = chars_of(text);
    let mut r = String::new();
    let mut any = false;
    let mut i: usize = 0;
    proof {
        reveal_strlit(" ");
        assert(text@.take(0) =~= Seq::empty());
    }
    while i < chars.len()
        invariant
            chars@ == text@,
            i <= text@.len(),
            any == (words(text@.take(i as int)).len() > 0),
            r@ == joined(words(text@.take(i as int)), " "@),
            " "@ == seq![' '],
        decreases text@.len() - i,
    {
        let ghost few = text@.take(i as int);
        let ghost more = text@.take(i + 1);
        proof {
            assert(more.drop_last() =~= few);
            lemma_words(few);
            if i > 0 {
                assert(few.last() == more[more.len() - 2]);
            }
        }
        if !is_white_space(chars[i]) {
            if i == 0 || is_white_space(chars[i - 1]) {
                let ghost before = words(few);
                if any {
                    r.push(' ');
                }
                r.push(chars[i]);
                proof {
                    let after = before.push(seq![chars@[i as int]]);
                    assert(words(more) == after);
                    assert(after.drop_last() =~= before);
                    assert(r@ =~= joined(after, " "@));
                }
                any = true;
            } else {
                let ghost before = words(few);
                r.push(chars[i]);
                proof {
                    let after = before.update(
                        before.len() - 1,
                        before.last().push(chars@[i as int]),
                    );
                    assert(words(more) == after);
                    assert(after.drop_last() =~= before.drop_last());
                    assert(r@ =~= joined(after, " "@));
                }
            }
        }
        i += 1;
    }
    assert(text@.take(i as int) =~= text@);
    r
}

/// The pieces of `s`, each up to and with the next `c`.
pub open spec fn split_after_each(s: Seq<char>, c: char) -> Seq<Seq<char>>
    decreases s.len(),
{
    let p = position(s, c);
    if s.len() == 0 {
        Seq::empty()
    } else if 0 <= p < s.len() {
        seq![s.take(p + 1)] + split_after_each(s.skip(p + 1), c)
    } else {
        seq![s]
    }
}

/// The pieces of `text`, each up to and with the next `c`.
pub fn split_inclusive(text: &str, c: char) -> (pieces: Vec<String>)
    ensures
        pieces@.map_values(|piece: String| piece@) == split_after_each(text@, c),
{
    let chars = chars_of(text);
    let ghost view = |piece: String| piece@;
    let mut pieces: Vec<String> = Vec::new();
    let mut start: usize = 0;
    let mut i: usize = 0;
    assert(text@.skip(0) =~= text@);
    assert(pieces@.map_values(view) + split_after_each(text@.skip(0), c) =~= split_after_each(
        text@,
        c,
    ));
    while i < chars.len()
        invariant
            chars@ == text@,
            view == (|piece: String| piece@),
            start <= i <= text@.len(),
            forall|j: int| start <= j < i ==> text@[j] != c,
            pieces@.map_values(view) + split_after_each(text@.skip(start as int), c)
                == split_after_each(text@, c),
        decreases text@.len() - i,
    {
        if chars[i] == c {
            let ghost done = pieces@;
            let ghost rest = text@.skip(start as int);
            let piece = text_of(chars.as_slice(), start, i + 1);
            proof {
                lemma_position_unique(rest, c, i - start);
                assert(rest.take(i - start + 1) =~= text@.subrange(start as int, i + 1));
                assert(rest.skip(i - start + 1) =~= text@.skip(i + 1));
            }
            pieces.push(piece);
            assert(pieces@.map_values(view) =~= done.map_values(view).push(piece@));
            assert(pieces@.map_values(view) + split_after_each(text@.skip(i + 1), c)
                =~= done.map_values(view) + split_after_each(rest, c));
            start = i + 1;
        }
        i += 1;
    }
    let ghost rest = text@.skip(start as int);
    if start < chars.len() {
        let ghost done = pieces@;
        let piece = text_of(chars.as_slice(), start, chars.len());
        proof {
            lemma_position_unique(rest, c, rest.len() as int);
            assert(piece@ =~= rest);
        }
        pieces.push(piece);
        assert(pieces@.map_values(view) =~= done.map_values(view).push(piece@));
    } else {
        assert(rest.len() == 0);
        assert(pieces@.map_values(view) + Seq::<Seq<char>>::empty() =~= pieces@.map_values(view));
    }
    pieces
}

/// `s` with every occurrence of `needle` replaced, from left to right; occurrences do not overlap.
pub open spec fn replaced(s: Seq<char>, needle: Seq<char>, with: Seq<char>) -> Seq<char>
    decreases s.len(),
{
    if s.len() == 0 || needle.len() == 0 {
        s
    } else if needle.is_prefix_of(s) {
        with + replaced(s.skip(needle.len() as int), needle, with)
    } else {
        seq![s[0]] + replaced(s.skip(1), needle, with)
    }
}

/// `text` with every occurrence of `needle`, which is not empty, replaced.
pub fn replace(text: &str, needle: &str, with: &str) -> (r: String)
    requires
        needle@.len() > 0,
    ensures
        r@ == replaced(text@, needle@, with@),
{
    let n: usize = needle.unicode_len();
    let len: usize = text.unicode_len();
    let mut r = String::new();
    let mut i: usize = 0;
    assert(text@.skip(0) =~= text@);
    while i < len
        invariant
            n == needle@.len() > 0,
            i <= len == text@.len(),
            r@ + replaced(text@.skip(i as int), needle@, with@) == replaced(
                text@,
                needle@,
                with@,
            ),
        decreases len - i,
    {
        let ghost done = r@;
        let ghost rest = text@.skip(i as int);
        if n <= len - i && same(text.substring_char(i, i + n), needle) {
            assert(rest.take(n as int) =~= text@.subrange(i as int, i + n));
            assert(needle@.is_prefix_of(rest));
            r.append(with);
            assert(rest.skip(n as int) =~= text@.skip(i + n));
            assert(done + replaced(rest, needle@, with@) =~= r@ + replaced(
                rest.skip(n as int),
                needle@,
                with@,
            ));
            i += n;
        } else {
            assert(!needle@.is_prefix_of(rest)) by {
                if needle@.is_prefix_of(rest) {
                    assert(text@.subrange(i as int, i + n) =~= needle@);
                }
            }
            r.push(text.get_char(i));
            assert(rest.skip(1) =~= text@.skip(i + 1));
            assert(done + replaced(rest, needle@, with@) =~= r@ + replaced(
                rest.skip(1),
                needle@,
                with@,
            ));
            i += 1;
        }
    }
    assert(r@ + replaced(text@.skip(len as int), needle@, with@) =~= r@);
    r
}

/// Where `needle` does not stand, nothing is replaced.
pub proof fn lemma_nothing_replaced(s: Seq<char>, needle: Seq<char>, with: Seq<char>)
    requires
        !occurs_in(s, needle),
    ensures
        replaced(s, needle, with) == s,
    decreases s.len(),
{
    if s.len() > 0 && needle.len() > 0 {
        if needle.is_prefix_of(s) {
            assert(s.subrange(0, needle.len() as int) =~= needle);
            assert(occurs_at(s, needle, 0));
        }
        let rest = s.skip(1);
        assert forall|i: int| !#[trigger] occurs_at(rest, needle, i) by {
            if occurs_at(rest, needle, i) {
                assert(s.subrange(i + 1, i + 1 + needle.len()) =~= rest.subrange(
                    i,
                    i + needle.len(),
                ));
                assert(occurs_at(s, needle, i + 1));
            }
        }
        lemma_nothing_replaced(rest, needle, with);
        assert(seq![s[0]] + rest =~= s);
    }
}

/// `s` without the characters `c` at its start.
pub open spec fn without_leading(s: Seq<char>, c: char) -> Seq<char>
    decreases s.len(),
{
    if s.len() > 0 && s[0] == c {
        without_leading(s.skip(1), c)
    } else {
        s
    }
}

/// `text` without the characters `c` at its start.
pub fn trim_start_matches<'a>(text: &'a str, c: char) -> (r: &'a str)
    ensures
        r@ == without_leading(text@, c),
{
    let len: usize = text.unicode_len();
    let mut from: usize = 0;
    assert(text@.skip(0) =~= text@);
    while from < len && text.get_char(from) == c
        invariant
            from <= len == text@.len(),
            without_leading(text@, c) == without_leading(text@.skip(from as int), c),
        decreases len - from,
    {
        assert(text@.skip(from as int).skip(1) =~= text@.skip(from + 1));
        from += 1;
    }
    let r = text.substring_char(from, len);
    assert(r@ =~= text@.skip(from as int));
    r
}

/// A line without the carriage return at its end.
pub open spec fn without_return(s: Seq<char>) -> Seq<char> {
    if s.len() > 0 && s.last() == '\r' {
        s.drop_last()
    } else {
        s
    }
}

/// The lines of `s`: each ends with a line feed or with a carriage return and a line feed, which are
/// not part of it; the last need not end so.
pub open spec fn line_list(s: Seq<char>) -> Seq<Seq<char>>
    decreases s.len(),
{
    let p = position(s, '\n');
    if s.len() == 0 {
        Seq::empty()
    } else if 0 <= p < s.len() {
        seq![without_return(s.take(p))] + line_list(s.skip(p + 1))
    } else {
        seq![s]
    }
}

/// What texts say.
pub open spec fn str_views(texts: Seq<&str>) -> Seq<Seq<char>> {
    texts.map_values(|text: &str| text@)
}

/// The lines of `text`.
pub fn lines<'a>(text: &'a str) -> (found: Vec<&'a str>)
    ensures
        str_views(found@) == line_list(text@),
{
    let mut found: Vec<&'a str> = Vec::new();
    let mut rest = text;
    assert(str_views(found@) + line_list(rest@) =~= line_list(text@));
    loop
        invariant
            str_views(found@) + line_list(rest@) == line_list(text@),
        decreases rest@.len(),
    {
        let ghost done = str_views(found@);
        if rest.unicode_len() == 0 {
            assert(done + line_list(rest@) =~= done);
            return found;
        }
        proof {
            lemma_position(rest@, '\n');
        }
        match split_once(rest, '\n') {
            Some((line, after)) => {
                let n: usize = line.unicode_len();
                let line = if n > 0 && line.get_char(n - 1) == '\r' {
                    line.substring_char(0, n - 1)
                } else {
                    line
                };
                assert(line@ =~= without_return(rest@.take(position(rest@, '\n'))));
                found.push(line);
                assert(str_views(found@) =~= done.push(line@));
                assert(str_views(found@) + line_list(after@) =~= done + line_list(rest@));
                rest = after;
            },
            None => {
                found.push(rest);
                assert(str_views(found@) =~= done.push(rest@));
                assert(done.push(rest@) =~= done + line_list(rest@));
                return found;
            },
        }
    }
}

/// `s` with its ASCII capitals made small.
pub open spec fn ascii_lowercase(s: Seq<char>) -> Seq<char> {
    s.map_values(|c: char| lowercase_letter(c))
}

/// A character, made small where it is an ASCII capital.
pub open spec fn lowercase_letter(c: char) -> char {
    if 'A' <= c && c <= 'Z' {
        (c as u32 + 32) as char
    } else {
        c
    }
}

/// `text` with its ASCII capitals made small.
pub fn to_ascii_lowercase(text: &str) -> (r: String)
    ensures
        r@ == ascii_lowercase(text@),
{
    let mut r = String::new();
    for c in iter: text.chars()
        invariant
            iter.seq() == text@,
            r@ == ascii_lowercase(text@.take(iter.index())),
    {
        let small: char = if 'A' <= c && c <= 'Z' {
            (c as u8 + 32) as char
        } else {
            c
        };
        assert(small == lowercase_letter(c));
        r.push(small);
        assert(r@ =~= ascii_lowercase(text@.take(iter.index() + 1)));
    }
    assert(text@.take(text@.len() as int) =~= text@);
    r
}

/// Whether a text holds nothing but decimal figures.
pub open spec fn all_figures(s: Seq<char>) -> bool {
    forall|i: int| 0 <= i < s.len() ==> '0' <= #[trigger] s[i] <= '9'
}

/// The number that decimal figures write.
pub open spec fn figures_value(s: Seq<char>) -> nat
    decreases s.len(),
{
    if s.len() == 0 {
        0
    } else {
        (10 * figures_value(s.drop_last()) + (s.last() as int - 48)) as nat
    }
}

/// The whole number that a text writes: figures, before which a plus sign may stand.
pub open spec fn whole_number(s: Seq<char>) -> Option<nat> {
    let figures = if s.len() > 0 && s[0] == '+' {
        s.skip(1)
    } else {
        s
    };
    if figures.len() > 0 && all_figures(figures) {
        Some(figures_value(figures))
    } else {
        None
    }
}

/// More figures never make a smaller number.
proof fn lemma_figures_grow(s: Seq<char>, n: int)
    requires
        all_figures(s),
        0 <= n <= s.len(),
    ensures
        figures_value(s.take(n)) <= figures_value(s),
    decreases s.len() - n,
{
    if n == s.len() {
        assert(s.take(n) =~= s);
    } else {
        lemma_figures_grow(s, n + 1);
        let more = s.take(n + 1);
        assert(more.drop_last() =~= s.take(n));
        assert(more.last() == s[n]);
    }
}

/// The whole number that `text` writes, where a `u64` can hold it.
pub fn parse_u64(text: &str) -> (r: Option<u64>)
    ensures
        r is Some == (whole_number(text@) is Some && whole_number(text@)->0 <= u64::MAX),
        r matches Some(n) ==> whole_number(text@) == Some(n as nat),
{
    let len: usize = text.unicode_len();
    let from: usize = if len > 0 && text.get_char(0) == '+' {
        1
    } else {
        0
    };
    let ghost figures = if from == 1 {
        text@.skip(1)
    } else {
        text@
    };
    if from == len {
        return None;
    }
    let mut n: u64 = 0;
    let mut i: usize = from;
    assert(figures.take(0) =~= Seq::<char>::empty());
    while i < len
        invariant
            from <= i <= len == text@.len(),
            from <= 1,
            figures == (if from == 1 {
                text@.skip(1)
            } else {
                text@
            }),
            whole_number(text@) == (if figures.len() > 0 && all_figures(figures) {
                Some(figures_value(figures))
            } else {
                None
            }),
            figures.len() == len - from > 0,
            all_figures(figures.take(i - from)),
            n == figures_value(figures.take(i - from)),
        decreases len - i,
    {
        let c: char = text.get_char(i);
        let ghost k = i - from;
        assert(c == figures[k]);
        if !('0' <= c && c <= '9') {
            assert(!all_figures(figures));
            return None;
        }
        let figure: u64 = c as u64 - 48;
        proof {
            let more = figures.take(k + 1);
            assert(more.drop_last() =~= figures.take(k));
            assert(more.last() == c);
            assert(all_figures(more)) by {
                assert forall|j: int| 0 <= j < more.len() implies '0' <= #[trigger] more[j] <= '9' by {
                    if j < k {
                        assert(figures.take(k)[j] == more[j]);
                    }
                }
            }
            assert(figures_value(more) == 10 * n + figure);
            if 10 * n + figure > u64::MAX && all_figures(figures) {
                lemma_figures_grow(figures, k + 1);
            }
        }
        if n > (u64::MAX - figure) / 10 {
            assert(10 * n + figure > u64::MAX);
            return None;
        }
        n = 10 * n + figure;
        i += 1;
    }
    assert(figures.take(figures.len() as int) =~= figures);
    Some(n)
}

// ------------------------------------------------------------------------------------------------
// Laws

/// A number that was written in decimal reads back as that number.
pub proof fn law_a_written_number_reads_back(n: nat)
    ensures
        whole_number(decimal(n)) == Some(n),
{
    lemma_decimal(n);
}

proof fn lemma_decimal(n: nat)
    ensures
        decimal(n).len() > 0,
        all_figures(decimal(n)),
        figures_value(decimal(n)) == n,
    decreases n,
{
    let digit = (48 + n % 10) as char;
    assert('0' <= digit <= '9' && digit as int == 48 + n % 10);
    if n >= 10 {
        lemma_decimal(n / 10);
        assert(decimal(n).drop_last() =~= decimal(n / 10));
        assert forall|i: int| 0 <= i < decimal(n).len() implies '0' <= #[trigger] decimal(n)[i]
            <= '9' by {
            if i < decimal(n).len() - 1 {
                assert(decimal(n)[i] == decimal(n / 10)[i]);
            }
        }
    } else {
        let figures = decimal(n);
        assert(figures =~= seq![digit]);
        assert(figures.drop_last() =~= Seq::<char>::empty());
        assert(figures_value(figures.drop_last()) == 0);
        assert(figures.last() == digit);
    }
}

/// All the pieces in a row.
pub open spec fn in_a_row(pieces: Seq<Seq<char>>) -> Seq<char>
    decreases pieces.len(),
{
    if pieces.len() == 0 {
        Seq::empty()
    } else {
        pieces[0] + in_a_row(pieces.drop_first())
    }
}

/// A text that is split after each `c` is its pieces in a row: nothing is lost or added. Only the last
/// piece may lack the `c` at its end, and none holds one before.
pub proof fn law_pieces_make_the_text(s: Seq<char>, c: char)
    ensures
        in_a_row(split_after_each(s, c)) == s,
        forall|i: int|
            0 <= i < split_after_each(s, c).len() ==> {
                let piece = #[trigger] split_after_each(s, c)[i];
                &&& piece.len() > 0
                &&& !piece.drop_last().contains(c)
                &&& i < split_after_each(s, c).len() - 1 ==> piece.last() == c
            },
    decreases s.len(),
{
    lemma_position(s, c);
    let p = position(s, c);
    let pieces = split_after_each(s, c);
    if s.len() == 0 {
    } else if p < s.len() {
        let rest = s.skip(p + 1);
        law_pieces_make_the_text(rest, c);
        let later = split_after_each(rest, c);
        assert(pieces.drop_first() =~= later);
        assert(s.take(p + 1) + rest =~= s);
        assert forall|i: int| 0 <= i < pieces.len() implies {
            let piece = #[trigger] pieces[i];
            &&& piece.len() > 0
            &&& !piece.drop_last().contains(c)
            &&& i < pieces.len() - 1 ==> piece.last() == c
        } by {
            if i > 0 {
                assert(pieces[i] == later[i - 1]);
            } else {
                assert(pieces[0] == s.take(p + 1));
                assert(pieces[0].drop_last() =~= s.take(p));
            }
        }
    } else {
        assert(pieces.drop_first() =~= Seq::<Seq<char>>::empty());
        assert(in_a_row(pieces.drop_first()) =~= Seq::<char>::empty());
        assert(s + Seq::<char>::empty() =~= s);
        assert(!s.drop_last().contains(c)) by {
            if s.drop_last().contains(c) {
                let j = choose|j: int| 0 <= j < s.drop_last().len() && s.drop_last()[j] == c;
                assert(s[j] == c);
            }
        }
    }
}

/// Pieces, with one `c` between each two.
pub open spec fn with_between<A>(pieces: Seq<Seq<A>>, c: A) -> Seq<A>
    decreases pieces.len(),
{
    if pieces.len() == 0 {
        Seq::empty()
    } else if pieces.len() == 1 {
        pieces[0]
    } else {
        pieces[0] + seq![c] + with_between(pieces.drop_first(), c)
    }
}

/// What is split at each `c` is its pieces with one `c` between each two, and no piece holds a `c`.
pub proof fn law_split_pieces_join<A>(s: Seq<A>, c: A)
    ensures
        split_at_each(s, c).len() > 0,
        with_between(split_at_each(s, c), c) == s,
        forall|i: int|
            0 <= i < split_at_each(s, c).len() ==> !(#[trigger] split_at_each(s, c)[i]).contains(c),
    decreases s.len(),
{
    lemma_position(s, c);
    let p = position(s, c);
    let pieces = split_at_each(s, c);
    if p < s.len() {
        let rest = s.skip(p + 1);
        law_split_pieces_join(rest, c);
        let later = split_at_each(rest, c);
        assert(pieces.drop_first() =~= later);
        assert(s.take(p) + seq![c] + rest =~= s);
        assert forall|i: int| 0 <= i < pieces.len() implies !(#[trigger] pieces[i]).contains(c) by {
            if i > 0 {
                assert(pieces[i] == later[i - 1]);
            } else {
                assert(pieces[0] == s.take(p));
            }
        }
    }
}

/// A trimmed text is the text without blanks around it: it neither begins nor ends with white space, and
/// all that was taken away is white space.
pub proof fn law_trimming_takes_blanks_away(s: Seq<char>) -> (around: (Seq<char>, Seq<char>))
    ensures
        s == around.0 + trimmed(s) + around.1,
        is_blank(around.0) && is_blank(around.1),
        trimmed(s).len() > 0 ==> !white_space(trimmed(s)[0]) && !white_space(trimmed(s).last()),
{
    let front = trim_front(s);
    lemma_trim_front(s);
    lemma_trim_back(front);
    lemma_trim_back_ends(front);
    let before = s.take(s.len() - front.len());
    let after = front.skip(trimmed(s).len() as int);
    assert(s =~= before + trimmed(s) + after);
    assert forall|i: int| 0 <= i < before.len() implies white_space(#[trigger] before[i]) by {
        assert(before[i] == s[i]);
    }
    assert forall|i: int| 0 <= i < after.len() implies white_space(#[trigger] after[i]) by {
        assert(after[i] == front[i + trimmed(s).len()]);
    }
    (before, after)
}

proof fn lemma_trim_back_ends(s: Seq<char>)
    ensures
        trim_back(s).len() > 0 ==> !white_space(trim_back(s).last()),
    decreases s.len(),
{
    if s.len() > 0 && white_space(s.last()) {
        lemma_trim_back_ends(s.drop_last());
    }
}

/// The words of two texts with white space between them are the words of both.
pub proof fn law_words_add_up(a: Seq<char>, space: char, b: Seq<char>)
    requires
        white_space(space),
    ensures
        word_count(a + seq![space] + b) == word_count(a) + word_count(b),
        words(a + seq![space] + b) == words(a) + words(b),
    decreases b.len(),
{
    let s = a + seq![space] + b;
    if b.len() == 0 {
        assert(s =~= a.push(space));
        assert(s.drop_last() =~= a);
        assert(words(a) + words(b) =~= words(a));
    } else {
        let fewer = b.drop_last();
        law_words_add_up(a, space, fewer);
        assert(s.drop_last() =~= a + seq![space] + fewer);
        assert(s.last() == b.last());
        if b.len() > 1 {
            assert(s[s.len() - 2] == b[b.len() - 2]);
            lemma_words(fewer);
            assert(fewer.last() == b[b.len() - 2]);
        } else {
            assert(s[s.len() - 2] == space);
        }
        assert(words(s) =~= words(a) + words(b));
    }
}

/// A word is one word: a text without white space counts for one, as it is; white space counts for none.
pub proof fn law_a_word_is_one_word(s: Seq<char>)
    ensures
        s.len() > 0 && (forall|i: int| 0 <= i < s.len() ==> !white_space(#[trigger] s[i])) ==> words(s)
            == seq![s] && word_count(s) == 1,
        is_blank(s) ==> words(s).len() == 0 && word_count(s) == 0,
    decreases s.len(),
{
    if s.len() > 0 {
        let before = s.drop_last();
        law_a_word_is_one_word(before);
        assert(forall|i: int| 0 <= i < before.len() ==> before[i] == #[trigger] s[i]);
        assert(s.last() == s[s.len() - 1]);
        if s.len() == 1 {
            assert(before =~= Seq::<char>::empty());
            assert(s =~= seq![s.last()]);
        } else if forall|i: int| 0 <= i < s.len() ==> !white_space(#[trigger] s[i]) {
            assert(!white_space(s[s.len() - 2]));
            assert(before.push(s.last()) =~= s);
            assert(words(s) =~= seq![s]);
        }
    }
}

/// Characters that were cut off the end are all `c`, and none is left there.
pub proof fn law_trailing_characters_go(s: Seq<char>, c: char)
    ensures
        without_trailing(s, c).len() <= s.len(),
        without_trailing(s, c) == s.take(without_trailing(s, c).len() as int),
        without_trailing(s, c).len() > 0 ==> without_trailing(s, c).last() != c,
        forall|i: int| without_trailing(s, c).len() <= i < s.len() ==> #[trigger] s[i] == c,
    decreases s.len(),
{
    if s.len() > 0 && s.last() == c {
        law_trailing_characters_go(s.drop_last(), c);
        let n = without_trailing(s, c).len() as int;
        assert(s.drop_last().take(n) =~= s.take(n));
        assert(forall|i: int| 0 <= i < s.len() - 1 ==> s.drop_last()[i] == #[trigger] s[i]);
    } else {
        assert(s.take(s.len() as int) =~= s);
    }
}

/// Characters that were cut off the start are all `c`, and none is left there.
pub proof fn law_leading_characters_go(s: Seq<char>, c: char)
    ensures
        without_leading(s, c).len() <= s.len(),
        without_leading(s, c) == s.skip(s.len() - without_leading(s, c).len()),
        without_leading(s, c).len() > 0 ==> without_leading(s, c)[0] != c,
        forall|i: int| 0 <= i < s.len() - without_leading(s, c).len() ==> #[trigger] s[i] == c,
    decreases s.len(),
{
    if s.len() > 0 && s[0] == c {
        let rest = s.skip(1);
        law_leading_characters_go(rest, c);
        let n = without_leading(s, c).len() as int;
        assert(rest.skip(rest.len() - n) =~= s.skip(s.len() - n));
        assert forall|i: int| 0 <= i < s.len() - n implies #[trigger] s[i] == c by {
            if i > 0 {
                assert(rest[i - 1] == s[i]);
            }
        }
    } else {
        assert(s.skip(0) =~= s);
    }
}

/// A text that was made small holds no ASCII capital, keeps every other character, and stays as it is when
/// it is made small again.
pub proof fn law_small_letters_stay_small(s: Seq<char>)
    ensures
        ascii_lowercase(s).len() == s.len(),
        forall|i: int|
            0 <= i < s.len() ==> {
                let small = #[trigger] ascii_lowercase(s)[i];
                &&& !('A' <= small && small <= 'Z')
                &&& !('A' <= s[i] && s[i] <= 'Z') ==> small == s[i]
                &&& 'A' <= s[i] && s[i] <= 'Z' ==> 'a' <= small && small <= 'z' && small as int
                    - 'a' as int == s[i] as int - 'A' as int
            },
        ascii_lowercase(ascii_lowercase(s)) == ascii_lowercase(s),
{
    assert(ascii_lowercase(ascii_lowercase(s)) =~= ascii_lowercase(s));
}

/// Text in lines reads back line by line: each line that ends with a line feed is found as it is, and so is
/// the last without one. (No line holds a line feed, or ends with a carriage return.)
pub proof fn law_lines_read_back(line: Seq<char>, rest: Seq<char>)
    requires
        !line.contains('\n'),
        line.len() > 0 ==> line.last() != '\r',
    ensures
        line_list(line + seq!['\n'] + rest) == seq![line] + line_list(rest),
        line_list(line + seq!['\r', '\n'] + rest) == seq![line] + line_list(rest),
        line.len() > 0 ==> line_list(line) == seq![line],
{
    let n = line.len() as int;
    let s = line + seq!['\n'] + rest;
    assert forall|j: int| 0 <= j < n implies line[j] != '\n' by {
        assert(line.contains(line[j]));
    }
    lemma_position_unique(s, '\n', n);
    assert(s.take(n) =~= line);
    assert(s.skip(n + 1) =~= rest);
    let r = line + seq!['\r', '\n'] + rest;
    lemma_position_unique(r, '\n', n + 1);
    assert(r.take(n + 1) =~= line.push('\r'));
    assert(line.push('\r').drop_last() =~= line);
    assert(r.skip(n + 2) =~= rest);
    if n > 0 {
        lemma_position_unique(line, '\n', n);
    }
}

} // verus!
