//! Text as sequences of characters: trimming, splitting, case folding, padding,
//! decimal numbers, quoting, and bytes as text.

use vstd::prelude::*;

verus! {

/// Is `c` Unicode white space? Exactly the code points with the `White_Space`
/// property, which is what `str::trim` strips.
pub open spec fn is_space(c: char) -> bool {
    ||| 0x9 <= c as u32 <= 0xd
    ||| c as u32 == 0x20
    ||| c as u32 == 0x85
    ||| c as u32 == 0xa0
    ||| c as u32 == 0x1680
    ||| 0x2000 <= c as u32 <= 0x200a
    ||| c as u32 == 0x2028
    ||| c as u32 == 0x2029
    ||| c as u32 == 0x202f
    ||| c as u32 == 0x205f
    ||| c as u32 == 0x3000
}

/// Does `s` hold nothing but white space?
pub open spec fn is_blank(s: Seq<char>) -> bool {
    forall|i: int| 0 <= i < s.len() ==> is_space(#[trigger] s[i])
}

/// `s` without its leading white space.
pub open spec fn trim_start(s: Seq<char>) -> Seq<char>
    decreases s.len(),
{
    if s.len() > 0 && is_space(s[0]) {
        trim_start(s.drop_first())
    } else {
        s
    }
}

/// `s` without its trailing white space.
pub open spec fn trim_end(s: Seq<char>) -> Seq<char>
    decreases s.len(),
{
    if s.len() > 0 && is_space(s.last()) {
        trim_end(s.drop_last())
    } else {
        s
    }
}

/// `s` without its leading and trailing white space.
pub open spec fn trim(s: Seq<char>) -> Seq<char> {
    trim_end(trim_start(s))
}

/// `c`, or its lower case form if it is an ASCII capital.
pub open spec fn lower_char(c: char) -> char {
    if 'A' <= c && c <= 'Z' {
        (c as u32 + 32) as char
    } else {
        c
    }
}

/// `s` with its ASCII capitals in lower case.
pub open spec fn lower(s: Seq<char>) -> Seq<char> {
    s.map_values(|c: char| lower_char(c))
}

/// Are `a` and `b` the same text, but for the case of ASCII letters?
pub open spec fn same_ignoring_case(a: Seq<char>, b: Seq<char>) -> bool {
    lower(a) == lower(b)
}

/// The pieces of `s` between occurrences of `separator`: always one more than
/// there are separators, so the pieces of an empty sequence are one empty piece.
pub open spec fn split<T>(s: Seq<T>, separator: T) -> Seq<Seq<T>>
    decreases s.len(),
{
    if s.len() == 0 {
        seq![Seq::empty()]
    } else {
        let before = split(s.drop_last(), separator);
        if s.last() == separator {
            before.push(Seq::empty())
        } else {
            before.update(before.len() - 1, before.last().push(s.last()))
        }
    }
}

/// The pieces with `separator` between each two of them.
pub open spec fn join<T>(pieces: Seq<Seq<T>>, separator: Seq<T>) -> Seq<T>
    decreases pieces.len(),
{
    if pieces.len() == 0 {
        Seq::empty()
    } else if pieces.len() == 1 {
        pieces[0]
    } else {
        join(pieces.drop_last(), separator) + separator + pieces.last()
    }
}

/// The decimal digit of value `d`.
pub open spec fn digit(d: nat) -> char {
    (0x30 + d) as char
}

/// `n` in decimal, without leading zeros.
pub open spec fn decimal(n: nat) -> Seq<char>
    decreases n,
{
    if n < 10 {
        seq![digit(n)]
    } else {
        decimal(n / 10).push(digit(n % 10))
    }
}

/// `s` followed by as many spaces as it takes to fill `width` characters.
pub open spec fn pad_right(s: Seq<char>, width: nat) -> Seq<char> {
    if s.len() >= width {
        s
    } else {
        s + Seq::new((width - s.len()) as nat, |i: int| ' ')
    }
}

/// `s` as Rust's `{:?}` prints it: between double quotes, with escapes.
pub uninterp spec fn quoted(s: Seq<char>) -> Seq<char>;

/// Formats `s` with `{:?}`, the `Debug` impl of `str`.
///
/// Trusted to return the text named [`quoted`], which depends on `s` alone.
#[verifier::external_body]
pub(crate) fn quote(s: &str) -> (text: String)
    ensures
        text@ == quoted(s@),
{
    format!("{:?}", s)
}

/// `bytes` as text, with what is not UTF-8 replaced, as `String::from_utf8_lossy` has it.
pub uninterp spec fn lossy(bytes: Seq<u8>) -> Seq<char>;

/// Calls `String::from_utf8_lossy`.
///
/// Trusted to return the text named [`lossy`], which depends on `bytes` alone, and to
/// return the very text that `bytes` encode where they are valid UTF-8.
#[verifier::external_body]
pub(crate) fn lossy_text(bytes: &Vec<u8>) -> (text: String)
    ensures
        text@ == lossy(bytes@),
        vstd::utf8::valid_utf8(bytes@) ==> text@ == vstd::utf8::decode_utf8(bytes@),
{
    String::from_utf8_lossy(bytes).into_owned()
}

/// `String::push` appends one character, as its documentation says.
pub assume_specification[ String::push ](s: &mut String, c: char)
    ensures
        final(s)@ == old(s)@.push(c),
;

/// The characters of `s`.
pub fn characters(s: &str) -> (chars: Vec<char>)
    ensures
        chars@ == s@,
{
    let mut chars: Vec<char> = Vec::new();
    for c in it: s.chars()
        invariant
            chars@ == it.seq().take(it.index() as int),
            it.seq() == s@,
    {
        chars.push(c);
    }
    chars
}

/// The text made of `chars`.
pub fn text_of(chars: &Vec<char>) -> (text: String)
    ensures
        text@ == chars@,
{
    let mut text = String::new();
    for i in 0..chars.len()
        invariant
            text@ == chars@.take(i as int),
    {
        text.push(chars[i]);
        assert(chars@.take(i + 1) == chars@.take(i as int).push(chars[i as int]));
    }
    assert(chars@.take(chars.len() as int) == chars@);
    text
}

/// Is `chars` the text `literal`?
pub fn spells(chars: &Vec<char>, literal: &str) -> (same: bool)
    ensures
        same == (chars@ == literal@),
{
    let other = characters(literal);
    if chars.len() != other.len() {
        return false;
    }
    for i in 0..chars.len()
        invariant
            chars.len() == other.len(),
            other@ == literal@,
            forall|j: int| 0 <= j < i ==> chars[j] == other[j],
    {
        if chars[i] != other[i] {
            assert(chars@[i as int] != literal@[i as int]);
            return false;
        }
    }
    assert(chars@ == other@);
    true
}

/// Is `c` white space?
pub fn space(c: char) -> (yes: bool)
    ensures
        yes == is_space(c),
{
    let n: u32 = c as u32;
    (0x9 <= n && n <= 0xd) || n == 0x20 || n == 0x85 || n == 0xa0 || n == 0x1680 || (0x2000 <= n
        && n <= 0x200a) || n == 0x2028 || n == 0x2029 || n == 0x202f || n == 0x205f || n == 0x3000
}

/// Is `s` empty or nothing but white space?
pub fn blank(s: &str) -> (yes: bool)
    ensures
        yes == is_blank(s@),
{
    let chars = characters(s);
    for i in 0..chars.len()
        invariant
            chars@ == s@,
            forall|j: int| 0 <= j < i ==> is_space(#[trigger] s@[j]),
    {
        if !space(chars[i]) {
            assert(!is_space(s@[i as int]));
            return false;
        }
    }
    true
}

/// Trimming leaves nothing exactly of blank text.
pub proof fn law_trim_empties_blank_text(s: Seq<char>)
    ensures
        trim(s).len() == 0 <==> is_blank(s),
    decreases s.len(),
{
    if s.len() == 0 {
    } else if is_space(s[0]) {
        law_trim_empties_blank_text(s.drop_first());
        assert(trim(s) == trim(s.drop_first()));
        if is_blank(s.drop_first()) {
            assert forall|i: int| 0 <= i < s.len() implies is_space(#[trigger] s[i]) by {
                if i > 0 {
                    assert(s.drop_first()[i - 1] == s[i]);
                }
            }
        }
        if is_blank(s) {
            assert forall|i: int| 0 <= i < s.drop_first().len() implies is_space(
                #[trigger] s.drop_first()[i],
            ) by {
                assert(s.drop_first()[i] == s[i + 1]);
            }
        }
    } else {
        lemma_trim_end_keeps_first(s);
    }
}

proof fn lemma_trim_end_keeps_first(s: Seq<char>)
    requires
        s.len() > 0,
        !is_space(s[0]),
    ensures
        trim_end(s).len() > 0,
    decreases s.len(),
{
    if is_space(s.last()) {
        lemma_trim_end_keeps_first(s.drop_last());
    }
}

proof fn lemma_trim_start_is_suffix(s: Seq<char>, n: int)
    requires
        0 <= n <= s.len(),
        forall|i: int| 0 <= i < n ==> is_space(#[trigger] s[i]),
    ensures
        trim_start(s) == trim_start(s.skip(n)),
    decreases n,
{
    if n == 0 {
        assert(s.skip(0) == s);
    } else {
        let rest = s.drop_first();
        assert forall|i: int| 0 <= i < n - 1 implies is_space(#[trigger] rest[i]) by {
            assert(rest[i] == s[i + 1]);
        }
        lemma_trim_start_is_suffix(rest, n - 1);
        assert(rest.skip(n - 1) == s.skip(n));
        assert(is_space(s[0]));
    }
}

proof fn lemma_trim_end_is_prefix(s: Seq<char>, n: int)
    requires
        0 <= n <= s.len(),
        forall|i: int| n <= i < s.len() ==> is_space(#[trigger] s[i]),
    ensures
        trim_end(s) == trim_end(s.take(n)),
    decreases s.len() - n,
{
    if n == s.len() {
        assert(s.take(n) == s);
    } else {
        lemma_trim_end_is_prefix(s.drop_last(), n);
        assert(s.drop_last().take(n) == s.take(n));
        assert(is_space(s[s.len() - 1]));
    }
}

/// `chars` without its leading and trailing white space.
pub fn trimmed(chars: &Vec<char>) -> (kept: Vec<char>)
    ensures
        kept@ == trim(chars@),
{
    let mut start: usize = 0;
    while start < chars.len() && space(chars[start])
        invariant
            start <= chars.len(),
            forall|i: int| 0 <= i < start ==> is_space(#[trigger] chars@[i]),
        decreases chars.len() - start,
    {
        start = start + 1;
    }
    let mut end: usize = chars.len();
    while end > start && space(chars[end - 1])
        invariant
            start <= end <= chars.len(),
            forall|i: int| end <= i < chars.len() ==> is_space(#[trigger] chars@[i]),
        decreases end,
    {
        end = end - 1;
    }
    let mut kept: Vec<char> = Vec::new();
    for i in start..end
        invariant
            start <= end <= chars.len(),
            kept@ == chars@.subrange(start as int, i as int),
    {
        kept.push(chars[i]);
        assert(chars@.subrange(start as int, i + 1) == chars@.subrange(start as int, i as int).push(
            chars[i as int],
        ));
    }
    proof {
        let tail = chars@.skip(start as int);
        lemma_trim_start_is_suffix(chars@, start as int);
        assert(trim_start(tail) == tail) by {
            assert(tail.len() > 0 ==> tail[0] == chars@[start as int]);
        }
        assert forall|i: int| end - start <= i < tail.len() implies is_space(#[trigger] tail[i]) by {
            assert(tail[i] == chars@[i + start]);
        }
        lemma_trim_end_is_prefix(tail, end - start);
        assert(tail.take(end - start) == kept@);
        assert(trim_end(kept@) == kept@) by {
            assert(kept@.len() > 0 ==> kept@.last() == chars@[end - 1]);
        }
    }
    kept
}

/// `chars` with its ASCII capitals in lower case.
pub fn lowered(chars: &Vec<char>) -> (folded: Vec<char>)
    ensures
        folded@ == lower(chars@),
{
    let mut folded: Vec<char> = Vec::new();
    for i in 0..chars.len()
        invariant
            folded@ == lower(chars@.take(i as int)),
    {
        let c = chars[i];
        if 'A' <= c && c <= 'Z' {
            folded.push(((c as u8) + 32) as char);
        } else {
            folded.push(c);
        }
        assert(lower(chars@.take(i + 1)) == lower(chars@.take(i as int)).push(lower_char(c)));
    }
    assert(chars@.take(chars.len() as int) == chars@);
    folded
}

/// Are `a` and `b` the same text, but for the case of ASCII letters?
pub fn equal_ignoring_case(a: &str, b: &str) -> (same: bool)
    ensures
        same == same_ignoring_case(a@, b@),
{
    let x = lowered(&characters(a));
    let y = lowered(&characters(b));
    if x.len() != y.len() {
        return false;
    }
    for i in 0..x.len()
        invariant
            x@ == lower(a@),
            y@ == lower(b@),
            x.len() == y.len(),
            forall|j: int| 0 <= j < i ==> x[j] == y[j],
    {
        if x[i] != y[i] {
            assert(lower(a@)[i as int] != lower(b@)[i as int]);
            return false;
        }
    }
    assert(x@ == y@);
    true
}

/// There is always at least one piece.
pub proof fn lemma_split_is_not_empty<T>(s: Seq<T>, separator: T)
    ensures
        split(s, separator).len() > 0,
    decreases s.len(),
{
    if s.len() > 0 {
        lemma_split_is_not_empty(s.drop_last(), separator);
    }
}

/// The pieces of `items` between occurrences of `separator`, which `is_separator` tells
/// apart from other items.
pub(crate) fn pieces_between<T: Copy, F: Fn(T) -> bool>(
    items: &Vec<T>,
    is_separator: F,
    Ghost(separator): Ghost<T>,
) -> (parts: Vec<Vec<T>>)
    requires
        forall|item: T| #[trigger] call_requires(is_separator, (item,)),
        forall|item: T, yes: bool| #[trigger]
            call_ensures(is_separator, (item,), yes) ==> yes == (item == separator),
    ensures
        parts@.map_values(|p: Vec<T>| p@) == split(items@, separator),
{
    let mut parts: Vec<Vec<T>> = Vec::new();
    let mut current: Vec<T> = Vec::new();
    assert(parts@.map_values(|p: Vec<T>| p@) == Seq::<Seq<T>>::empty());
    for i in 0..items.len()
        invariant
            forall|item: T| #[trigger] call_requires(is_separator, (item,)),
            forall|item: T, yes: bool| #[trigger]
                call_ensures(is_separator, (item,), yes) ==> yes == (item == separator),
            split(items@.take(i as int), separator).len() > 0,
            parts@.map_values(|p: Vec<T>| p@) == split(
                items@.take(i as int),
                separator,
            ).drop_last(),
            current@ == split(items@.take(i as int), separator).last(),
    {
        let item = items[i];
        let ghost before = items@.take(i as int);
        let ghost after = items@.take(i + 1);
        assert(after.drop_last() == before);
        assert(after.last() == item);
        if is_separator(item) {
            let ghost earlier = parts@;
            let piece = current;
            parts.push(piece);
            current = Vec::new();
            proof {
                assert(parts@.map_values(|p: Vec<T>| p@) == earlier.map_values(
                    |p: Vec<T>| p@,
                ).push(piece@));
                assert(split(after, separator).drop_last() == split(before, separator));
                assert(split(before, separator).drop_last().push(
                    split(before, separator).last(),
                ) == split(before, separator));
            }
        } else {
            current.push(item);
            proof {
                assert(split(after, separator).drop_last() == split(before, separator).drop_last());
            }
        }
    }
    assert(items@.take(items.len() as int) == items@);
    let ghost earlier = parts@;
    let piece = current;
    parts.push(piece);
    proof {
        assert(parts@.map_values(|p: Vec<T>| p@) == earlier.map_values(|p: Vec<T>| p@).push(
            piece@,
        ));
        assert(split(items@, separator).drop_last().push(split(items@, separator).last()) == split(
            items@,
            separator,
        ));
    }
    parts
}

/// The pieces of `chars` between occurrences of `separator`.
pub fn pieces(chars: &Vec<char>, separator: char) -> (parts: Vec<Vec<char>>)
    ensures
        parts@.map_values(|p: Vec<char>| p@) == split(chars@, separator),
{
    let is_separator = |c: char| -> (yes: bool)
        ensures
            yes == (c == separator),
        { c == separator };
    pieces_between(chars, is_separator, Ghost(separator))
}

/// `n` in decimal.
pub fn number(n: u64) -> (text: String)
    ensures
        text@ == decimal(n as nat),
    decreases n,
{
    if n < 10 {
        let mut text = String::new();
        text.push((0x30u8 + n as u8) as char);
        assert(text@ == decimal(n as nat));
        text
    } else {
        let mut text = number(n / 10);
        text.push((0x30u8 + (n % 10) as u8) as char);
        text
    }
}

/// `s`, padded with spaces on the right to `width` characters.
pub fn padded(s: &str, width: usize) -> (text: String)
    ensures
        text@ == pad_right(s@, width as nat),
{
    let mut text = s.to_owned();
    let mut filled: usize = s.unicode_len();
    if filled < width {
        let start: usize = filled;
        while filled < width
            invariant
                start == s@.len(),
                start <= filled <= width,
                text@ == s@ + Seq::new((filled - start) as nat, |i: int| ' '),
            decreases width - filled,
        {
            text.push(' ');
            filled = filled + 1;
        }
    }
    text
}

} // verus!
