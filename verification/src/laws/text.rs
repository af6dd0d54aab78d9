//! Text and paths: splitting, trimming, case, numbers, padding, and the order of paths.

use vstd::prelude::*;

use crate::order::{is_total_order, lexicographic, Order};
use crate::paths::{
    byte_order, compare_paths, component_of, component_order, components, components_of_pieces,
    is_absolute, parts_of, path_order, Component, PathPart,
};
use crate::text::{
    blank, characters, decimal, digit, equal_ignoring_case, is_blank, is_space, join, lower,
    lower_char, lowered, number, pad_right, padded, pieces, same_ignoring_case, space, spells,
    split, text_of, trim, trim_end, trim_start, trimmed,
};

verus! {

/// Splitting loses nothing and leaves no separator: the pieces joined again are what was
/// split, and none of them holds the separator.
pub proof fn law_split_and_join<T>(s: Seq<T>, separator: T)
    ensures
        join(split(s, separator), seq![separator]) == s,
        forall|i: int|
            0 <= i < split(s, separator).len() ==> !(#[trigger] split(s, separator)[i]).contains(
                separator,
            ),
        split(s, separator).len() > 0,
    decreases s.len(),
{
    let between = seq![separator];
    let parts = split(s, separator);
    if s.len() == 0 {
        assert(parts[0] == Seq::<T>::empty());
    } else {
        let before = split(s.drop_last(), separator);
        law_split_and_join(s.drop_last(), separator);
        let n = before.len() - 1;
        if s.last() == separator {
            assert(parts.drop_last() == before);
            assert(join(parts, between) == join(before, between) + between + parts.last());
            assert(s == s.drop_last() + between);
            assert forall|i: int| 0 <= i < parts.len() implies !(#[trigger] parts[i]).contains(
                separator,
            ) by {
                if i < before.len() {
                    assert(parts[i] == before[i]);
                }
            }
        } else {
            let grown = before[n].push(s.last());
            assert(parts == before.update(n, grown));
            assert(parts.drop_last() == before.drop_last());
            assert(join(parts, between) == join(before, between).push(s.last()));
            assert(s == s.drop_last().push(s.last()));
            assert forall|i: int| 0 <= i < parts.len() implies !(#[trigger] parts[i]).contains(
                separator,
            ) by {
                if i < n {
                    assert(parts[i] == before[i]);
                } else {
                    assert(!before[n].contains(separator));
                    if grown.contains(separator) {
                        let k = grown.index_of(separator);
                        assert(before[n][k] == separator);
                    }
                }
            }
        }
    }
}

/// A separator splits what is before it from what is after it.
pub proof fn law_a_separator_splits<T>(a: Seq<T>, b: Seq<T>, separator: T)
    ensures
        split(a.push(separator) + b, separator) == split(a, separator) + split(b, separator),
    decreases b.len(),
{
    let all = a.push(separator) + b;
    if b.len() == 0 {
        assert(all == a.push(separator));
        assert(all.drop_last() == a);
        assert(split(all, separator) == split(a, separator).push(Seq::empty()));
        assert(split(b, separator) == seq![Seq::<T>::empty()]);
    } else {
        law_a_separator_splits(a, b.drop_last(), separator);
        crate::text::lemma_split_is_not_empty(b.drop_last(), separator);
        assert(all.drop_last() == a.push(separator) + b.drop_last());
        assert(all.last() == b.last());
        let front = split(a, separator);
        let back = split(b.drop_last(), separator);
        if b.last() == separator {
            assert((front + back).push(Seq::empty()) == front + back.push(Seq::empty()));
        } else {
            let grown = back.last().push(b.last());
            assert((front + back).last() == back.last());
            assert((front + back).update((front + back).len() - 1, grown) == front + back.update(
                back.len() - 1,
                grown,
            ));
        }
    }
}

/// What holds no separator is one piece.
pub proof fn law_one_piece_without_a_separator<T>(s: Seq<T>, separator: T)
    requires
        !s.contains(separator),
    ensures
        split(s, separator) == seq![s],
    decreases s.len(),
{
    if s.len() > 0 {
        assert(s[s.len() - 1] != separator);
        assert forall|i: int| 0 <= i < s.drop_last().len() implies s.drop_last()[i]
            != separator by {
            assert(s[i] != separator);
        }
        law_one_piece_without_a_separator(s.drop_last(), separator);
        assert(s.drop_last().push(s.last()) == s);
        assert(split(s, separator) == seq![s]);
    } else {
        assert(s == Seq::<T>::empty());
    }
}

/// The pieces of a text are those it is split into.
pub proof fn law_pieces_are_the_split(chars: &Vec<char>, separator: char, parts: Vec<Vec<char>>)
    requires
        call_ensures(pieces, (chars, separator), parts),
    ensures
        parts@.len() == split(chars@, separator).len(),
        forall|i: int|
            0 <= i < parts@.len() ==> (#[trigger] parts@[i])@ == split(chars@, separator)[i],
{
    let said = parts@.map_values(|p: Vec<char>| p@);
    assert(said.len() == parts@.len());
    assert forall|i: int| 0 <= i < parts@.len() implies (#[trigger] parts@[i])@ == said[i] by {}
}

/// White space is the tab, the line breaks and the space of ASCII, the next line, and the
/// separators of Unicode from the no-break space to the ideographic one: twenty-five
/// characters, and no others.
pub proof fn law_which_characters_are_white_space(c: char, yes: bool)
    requires
        call_ensures(space, (c,), yes),
    ensures
        yes == is_space(c),
        yes <==> {
            ||| c == '\t' || c == '\n' || c == '\u{b}' || c == '\u{c}' || c == '\r' || c == ' '
            ||| c == '\u{85}' || c == '\u{a0}' || c == '\u{1680}'
            ||| c == '\u{2000}' || c == '\u{2001}' || c == '\u{2002}' || c == '\u{2003}'
            ||| c == '\u{2004}' || c == '\u{2005}' || c == '\u{2006}' || c == '\u{2007}'
            ||| c == '\u{2008}' || c == '\u{2009}' || c == '\u{200a}'
            ||| c == '\u{2028}' || c == '\u{2029}' || c == '\u{202f}' || c == '\u{205f}'
            ||| c == '\u{3000}'
        },
{
}

proof fn lemma_trim_start(s: Seq<char>) -> (i: int)
    ensures
        0 <= i <= s.len(),
        trim_start(s) == s.skip(i),
        forall|k: int| 0 <= k < i ==> is_space(#[trigger] s[k]),
        i < s.len() ==> !is_space(s[i]),
    decreases s.len(),
{
    if s.len() > 0 && is_space(s[0]) {
        let rest = s.drop_first();
        let j = lemma_trim_start(rest);
        assert(rest.skip(j) == s.skip(j + 1));
        assert forall|k: int| 0 <= k < j + 1 implies is_space(#[trigger] s[k]) by {
            if k > 0 {
                assert(rest[k - 1] == s[k]);
            }
        }
        if j < rest.len() {
            assert(rest[j] == s[j + 1]);
        }
        j + 1
    } else {
        assert(s.skip(0) == s);
        0
    }
}

proof fn lemma_trim_end(s: Seq<char>) -> (n: int)
    ensures
        0 <= n <= s.len(),
        trim_end(s) == s.take(n),
        forall|k: int| n <= k < s.len() ==> is_space(#[trigger] s[k]),
        n > 0 ==> !is_space(s[n - 1]),
    decreases s.len(),
{
    if s.len() > 0 && is_space(s.last()) {
        let rest = s.drop_last();
        let n = lemma_trim_end(rest);
        assert(rest.take(n) == s.take(n));
        assert forall|k: int| n <= k < s.len() implies is_space(#[trigger] s[k]) by {
            if k < rest.len() {
                assert(rest[k] == s[k]);
            }
        }
        if n > 0 {
            assert(rest[n - 1] == s[n - 1]);
        }
        n
    } else {
        assert(s.take(s.len() as int) == s);
        s.len() as int
    }
}

/// Trimming cuts white space off both ends and nothing else, and leaves none there.
pub proof fn law_trimming_cuts_white_space_off(s: Seq<char>)
    ensures
        exists|i: int, j: int|
            {
                &&& 0 <= i <= j <= s.len()
                &&& trim(s) == #[trigger] s.subrange(i, j)
                &&& forall|k: int| 0 <= k < i ==> is_space(#[trigger] s[k])
                &&& forall|k: int| j <= k < s.len() ==> is_space(#[trigger] s[k])
            },
        trim(s).len() > 0 ==> !is_space(trim(s)[0]) && !is_space(trim(s).last()),
{
    let i = lemma_trim_start(s);
    let rest = s.skip(i);
    let n = lemma_trim_end(rest);
    assert(rest.take(n) == s.subrange(i, i + n));
    assert forall|k: int| i + n <= k < s.len() implies is_space(#[trigger] s[k]) by {
        assert(rest[k - i] == s[k]);
    }
    if n > 0 {
        assert(rest[0] == s[i]);
    }
}

/// What is trimmed, folded and called blank is what the words say.
pub proof fn law_trimmed_lowered_blank(chars: &Vec<char>, result: Vec<char>, s: &str, yes: bool)
    ensures
        call_ensures(trimmed, (chars,), result) ==> result@ == trim(chars@),
        call_ensures(lowered, (chars,), result) ==> result@.len() == chars@.len() && forall|i: int|
            0 <= i < chars@.len() ==> #[trigger] result@[i] == lower_char(chars@[i]),
        call_ensures(blank, (s,), yes) ==> (yes <==> forall|i: int|
            0 <= i < s@.len() ==> is_space(#[trigger] s@[i])),
        call_ensures(spells, (chars, s), yes) ==> (yes <==> chars@ == s@),
        call_ensures(characters, (s,), result) ==> result@ == s@,
        is_blank(s@) <==> trim(s@).len() == 0,
{
    crate::text::law_trim_empties_blank_text(s@);
}

/// Texts are put back together from their characters.
pub proof fn law_text_is_its_characters(chars: &Vec<char>, text: String)
    requires
        call_ensures(text_of, (chars,), text),
    ensures
        text@ == chars@,
{
}

/// Folding puts the 26 ASCII capitals into lower case and leaves every other character.
pub proof fn law_what_folding_does(c: char)
    ensures
        'A' <= c && c <= 'Z' ==> lower_char(c) as u32 == c as u32 + 32,
        !('A' <= c && c <= 'Z') ==> lower_char(c) == c,
{
}

/// Do two characters differ in the case of an ASCII letter at most?
pub open spec fn same_letter(c: char, d: char) -> bool {
    ||| c == d
    ||| 'A' <= c && c <= 'Z' && d as u32 == c as u32 + 32
    ||| 'A' <= d && d <= 'Z' && c as u32 == d as u32 + 32
}

/// Two texts are the same but for case exactly if they are as long as each other and each
/// two of their characters differ in the case of an ASCII letter at most.
pub proof fn law_what_ignoring_case_means(a: &str, b: &str, same: bool)
    requires
        call_ensures(equal_ignoring_case, (a, b), same),
    ensures
        same == same_ignoring_case(a@, b@),
        same <==> a@.len() == b@.len() && forall|i: int|
            0 <= i < a@.len() ==> same_letter(#[trigger] a@[i], b@[i]),
{
    let x = lower(a@);
    let y = lower(b@);
    assert(x.len() == a@.len() && y.len() == b@.len());
    assert forall|c: char, d: char|
        (#[trigger] lower_char(c) == #[trigger] lower_char(d)) == same_letter(c, d) by {
        law_what_folding_does(c);
        law_what_folding_does(d);
    }
    if same {
        assert forall|i: int| 0 <= i < a@.len() implies same_letter(#[trigger] a@[i], b@[i]) by {
            assert(x[i] == y[i]);
            assert(lower_char(a@[i]) == lower_char(b@[i]));
        }
    }
    if a@.len() == b@.len() && forall|i: int|
        0 <= i < a@.len() ==> same_letter(#[trigger] a@[i], b@[i]) {
        assert forall|i: int| 0 <= i < x.len() implies x[i] == y[i] by {
            assert(same_letter(a@[i], b@[i]));
            assert(lower_char(a@[i]) == lower_char(b@[i]));
        }
        assert(x == y);
    }
}

/// The number that digits stand for.
pub open spec fn value_of(digits: Seq<char>) -> int
    decreases digits.len(),
{
    if digits.len() == 0 {
        0
    } else {
        value_of(digits.drop_last()) * 10 + (digits.last() as int - '0' as int)
    }
}

/// A number in decimal is made of digits, stands for the number, and starts with a zero
/// only if it is zero.
pub proof fn law_what_a_decimal_stands_for(n: nat)
    ensures
        value_of(decimal(n)) == n,
        decimal(n).len() > 0,
        forall|i: int| 0 <= i < decimal(n).len() ==> '0' <= #[trigger] decimal(n)[i] <= '9',
        decimal(n)[0] == '0' ==> n == 0,
    decreases n,
{
    let digits = decimal(n);
    if n < 10 {
        assert(digits.drop_last() == Seq::<char>::empty());
        assert(value_of(digits.drop_last()) == 0);
        assert(digit(n) as int == 0x30 + n);
    } else {
        law_what_a_decimal_stands_for(n / 10);
        let head = decimal(n / 10);
        assert(digits.drop_last() == head);
        assert(digit(n % 10) as int == 0x30 + n % 10);
        assert(digits[0] == head[0]);
    }
}

/// A number is written in decimal.
pub proof fn law_numbers_are_decimal(n: u64, text: String)
    requires
        call_ensures(number, (n,), text),
    ensures
        value_of(text@) == n,
        text@ == decimal(n as nat),
{
    law_what_a_decimal_stands_for(n as nat);
}

/// Padding fills a text up with spaces on the right, and never cuts it.
pub proof fn law_padding_fills_up(s: &str, width: usize, text: String)
    requires
        call_ensures(padded, (s, width), text),
    ensures
        text@ == pad_right(s@, width as nat),
        text@.len() == (if s@.len() >= width {
            s@.len()
        } else {
            width as nat
        }),
        text@.take(s@.len() as int) == s@,
        forall|i: int| s@.len() <= i < text@.len() ==> #[trigger] text@[i] == ' ',
{
}

/// Sequences compare by the first place at which they differ, and a prefix comes first.
pub proof fn law_the_first_difference_decides<T>(
    a: Seq<T>,
    b: Seq<T>,
    order: spec_fn(T, T) -> Order,
    i: int,
)
    requires
        is_total_order(order),
        0 <= i <= a.len(),
        i <= b.len(),
        forall|j: int| 0 <= j < i ==> #[trigger] a[j] == b[j],
    ensures
        i < a.len() && i < b.len() && a[i] != b[i] ==> lexicographic(a, b, order) == order(
            a[i],
            b[i],
        ),
        i == a.len() && i < b.len() ==> lexicographic(a, b, order) == Order::Less,
        i < a.len() && i == b.len() ==> lexicographic(a, b, order) == Order::Greater,
        i == a.len() && i == b.len() ==> lexicographic(a, b, order) == Order::Equal,
    decreases i,
{
    if i > 0 {
        assert(a[0] == b[0]);
        assert(order(a[0], b[0]) == Order::Equal);
        let x = a.drop_first();
        let y = b.drop_first();
        assert forall|j: int| 0 <= j < i - 1 implies #[trigger] x[j] == y[j] by {
            assert(a[j + 1] == b[j + 1]);
        }
        law_the_first_difference_decides(x, y, order, i - 1);
        if i < a.len() {
            assert(x[i - 1] == a[i]);
        }
        if i < b.len() {
            assert(y[i - 1] == b[i]);
        }
    } else if a.len() > 0 && b.len() > 0 && a[0] != b[0] {
        assert(order(a[0], b[0]) != Order::Equal);
    }
}

/// Bytes compare as numbers; of components the root comes first, then `.`, then `..`,
/// then names, which compare by their bytes.
pub proof fn law_how_components_compare(a: u8, b: u8, x: Seq<u8>, y: Seq<u8>)
    ensures
        a < b ==> byte_order(a, b) == Order::Less,
        a == b ==> byte_order(a, b) == Order::Equal,
        a > b ==> byte_order(a, b) == Order::Greater,
        component_order(Component::Root, Component::Current) == Order::Less,
        component_order(Component::Current, Component::Parent) == Order::Less,
        component_order(Component::Parent, Component::Normal(x)) == Order::Less,
        component_order(Component::Root, Component::Normal(x)) == Order::Less,
        component_order(Component::Normal(x), Component::Normal(y)) == lexicographic(
            x,
            y,
            |c: u8, d: u8| byte_order(c, d),
        ),
{
}

/// Can `name` be the name of an entry of a directory?
pub open spec fn is_entry_name(name: Seq<u8>) -> bool {
    &&& name.len() > 0
    &&& !name.contains(0x2f)
    &&& name != seq![0x2eu8]
    &&& name != seq![0x2eu8, 0x2eu8]
}

proof fn lemma_components_of_a_prefix(
    pieces: Seq<Seq<u8>>,
    more: Seq<Seq<u8>>,
    absolute: bool,
    n: nat,
)
    requires
        n <= pieces.len() <= more.len(),
        forall|i: int| 0 <= i < pieces.len() ==> #[trigger] more[i] == pieces[i],
    ensures
        components_of_pieces(more, absolute, n) == components_of_pieces(pieces, absolute, n),
    decreases n,
{
    if n > 0 {
        lemma_components_of_a_prefix(pieces, more, absolute, (n - 1) as nat);
        assert(more[n - 1] == pieces[n - 1]);
    }
}

/// The path of an entry has one component more than that of its directory: its name.
pub proof fn law_an_entry_adds_its_name(dir: Seq<u8>, name: Seq<u8>)
    requires
        dir.len() > 0,
        is_entry_name(name),
    ensures
        components(dir.push(0x2f) + name) == components(dir).push(Component::Normal(name)),
        components(seq![0x2fu8]) == seq![Component::Root],
{
    let path = dir.push(0x2f) + name;
    law_a_separator_splits(dir, name, 0x2f);
    law_one_piece_without_a_separator(name, 0x2f);
    crate::text::lemma_split_is_not_empty(dir, 0x2fu8);
    let pieces = split(dir, 0x2fu8);
    let more = split(path, 0x2fu8);
    assert(more == pieces.push(name));
    assert(path[0] == dir[0]);
    let absolute = is_absolute(dir);
    assert(is_absolute(path) == absolute);
    let n = pieces.len();
    lemma_components_of_a_prefix(pieces, more, absolute, n);
    assert(more[n as int] == name);
    assert(component_of(name, false) == Some(Component::Normal(name)));
    let below = components_of_pieces(pieces, absolute, n);
    assert(components_of_pieces(more, absolute, (n + 1) as nat) == below.push(
        Component::Normal(name),
    ));
    if absolute {
        assert(seq![Component::Root] + below.push(Component::Normal(name)) == (
        seq![Component::Root] + below).push(Component::Normal(name)));
    }
    let root = seq![0x2fu8];
    assert(root.drop_last() == Seq::<u8>::empty());
    assert(split(root.drop_last(), 0x2fu8) == seq![Seq::<u8>::empty()]);
    assert(split(root, 0x2fu8) == seq![Seq::<u8>::empty(), Seq::<u8>::empty()]);
    reveal_with_fuel(components_of_pieces, 3);
    assert(components_of_pieces(split(root, 0x2fu8), true, 2) == Seq::<Component>::empty());
}

/// Two entries of one directory compare by their names, byte by byte, and a directory
/// comes before everything in it.
pub proof fn law_entries_compare_by_name(dir: Seq<u8>, a: Seq<u8>, b: Seq<u8>)
    requires
        dir.len() > 0,
        is_entry_name(a),
        is_entry_name(b),
    ensures
        path_order(dir.push(0x2f) + a, dir.push(0x2f) + b) == lexicographic(
            a,
            b,
            |c: u8, d: u8| byte_order(c, d),
        ),
        path_order(dir, dir.push(0x2f) + a) == Order::Less,
{
    law_an_entry_adds_its_name(dir, a);
    law_an_entry_adds_its_name(dir, b);
    let order = |x: Component, y: Component| component_order(x, y);
    crate::paths::lemma_component_order_is_total();
    let base = components(dir);
    let x = base.push(Component::Normal(a));
    let y = base.push(Component::Normal(b));
    let n = base.len() as int;
    law_the_first_difference_decides(base, x, order, n);
    if a == b {
        law_the_first_difference_decides(x, y, order, n + 1);
        let bytes = |c: u8, d: u8| byte_order(c, d);
        assert(is_total_order(bytes));
        law_the_first_difference_decides(a, b, bytes, a.len() as int);
    } else {
        assert(x[n] == Component::Normal(a) && y[n] == Component::Normal(b));
        law_the_first_difference_decides(x, y, order, n);
    }
}

/// Comparing two paths gives their order.
pub proof fn law_paths_are_compared_by_their_order(a: &Vec<u8>, b: &Vec<u8>, order: Order)
    requires
        call_ensures(compare_paths, (a, b), order),
    ensures
        order == path_order(a@, b@),
{
}

/// A slash at the end and a `.` add nothing to a path, and `..` adds the parent; at the
/// start of a relative path `.` is kept.
pub proof fn law_what_dots_add(dir: Seq<u8>)
    requires
        dir.len() > 0,
    ensures
        components(dir.push(0x2f)) == components(dir),
        components(dir.push(0x2f) + seq![0x2eu8]) == components(dir),
        components(dir.push(0x2f) + seq![0x2eu8, 0x2eu8]) == components(dir).push(
            Component::Parent,
        ),
        components(seq![0x2eu8]) == seq![Component::Current],
        components(seq![0x2eu8, 0x2eu8]) == seq![Component::Parent],
        components(Seq::empty()) == Seq::<Component>::empty(),
{
    let none = Seq::<u8>::empty();
    let dot = seq![0x2eu8];
    let dots = seq![0x2eu8, 0x2eu8];
    lemma_one_more_piece(dir, none);
    assert(dir.push(0x2f) + none == dir.push(0x2f));
    assert(dot[0] == 0x2e && dots[0] == 0x2e && dots[1] == 0x2e);
    lemma_one_more_piece(dir, dot);
    lemma_one_more_piece(dir, dots);
    law_one_piece_without_a_separator(dot, 0x2f);
    law_one_piece_without_a_separator(dots, 0x2f);
    assert(dots.len() == 2 && dot.len() == 1);
    reveal_with_fuel(components_of_pieces, 2);
    assert(components(dot) == seq![Component::Current]);
    assert(components(dots) == seq![Component::Parent]);
    assert(split(none, 0x2fu8) == seq![none]);
    assert(components(none) == Seq::<Component>::empty());
}

proof fn lemma_one_more_piece(dir: Seq<u8>, piece: Seq<u8>)
    requires
        dir.len() > 0,
        !piece.contains(0x2f),
    ensures
        components(dir.push(0x2f) + piece) == (match component_of(piece, false) {
            Some(component) => components(dir).push(component),
            None => components(dir),
        }),
{
    let path = dir.push(0x2f) + piece;
    law_a_separator_splits(dir, piece, 0x2f);
    law_one_piece_without_a_separator(piece, 0x2f);
    crate::text::lemma_split_is_not_empty(dir, 0x2fu8);
    let pieces = split(dir, 0x2fu8);
    let more = split(path, 0x2fu8);
    assert(more == pieces.push(piece));
    assert(path[0] == dir[0]);
    let absolute = is_absolute(dir);
    let n = pieces.len();
    lemma_components_of_a_prefix(pieces, more, absolute, n);
    assert(more[n as int] == piece);
    let below = components_of_pieces(pieces, absolute, n);
    if let Some(component) = component_of(piece, false) {
        assert(seq![Component::Root] + below.push(component) == (seq![Component::Root]
            + below).push(component));
    }
}

/// The parts of a path are its components.
pub proof fn law_parts_are_components(path: &Vec<u8>, parts: Vec<PathPart>)
    requires
        call_ensures(parts_of, (path,), parts),
    ensures
        parts@.len() == components(path@).len(),
        forall|i: int| 0 <= i < parts@.len() ==> (#[trigger] parts@[i])@ == components(path@)[i],
{
    let said = parts@.map_values(|p: PathPart| p@);
    assert(said.len() == parts@.len());
    assert forall|i: int| 0 <= i < parts@.len() implies (#[trigger] parts@[i])@ == said[i] by {}
}

} // verus!
