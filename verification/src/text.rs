//! Text as sequences of characters.
//!
//! Every rule of the library that reads or builds text is stated over `Seq<char>`. The
//! functions here move between strings and characters and answer the questions that more
//! than one module asks: what whitespace is, how a number is spelt, where a separator
//! stands.

use vstd::prelude::*;
use vstd::string::StringExecFns;

verus! {

broadcast use vstd::string::group_string_axioms;

/// `String::push` appends one character at the end and changes nothing else.
pub assume_specification[ String::push ](text: &mut String, c: char)
    ensures
        final(text)@ == old(text)@.push(c),
;

/// The characters of `text`, in order.
pub fn chars_of(text: &str) -> (chars: Vec<char>)
    ensures
        chars@ == text@,
{
    let mut chars: Vec<char> = Vec::new();
    for c in it: text.chars()
        invariant
            chars@ == text@.take(it.index() as int),
            it.seq() == text@,
    {
        proof {
            assert(text@.take(it.index() as int).push(c) =~= text@.take(it.index() as int + 1));
        }
        chars.push(c);
    }
    proof {
        assert(text@.take(text@.len() as int) =~= text@);
    }
    chars
}

/// The text made of `chars[from..to]`.
pub fn text_of(chars: &Vec<char>, from: usize, to: usize) -> (text: String)
    requires
        from <= to <= chars@.len(),
    ensures
        text@ == chars@.subrange(from as int, to as int),
{
    let mut text = String::new();
    let mut at: usize = from;
    while at < to
        invariant
            from <= at <= to <= chars@.len(),
            text@ == chars@.subrange(from as int, at as int),
        decreases to - at,
    {
        text.push(chars[at]);
        at = at + 1;
        proof {
            assert(chars@.subrange(from as int, at as int) =~= chars@.subrange(
                from as int,
                at - 1,
            ).push(chars@[at - 1]));
        }
    }
    text
}

/// Whether two texts are the same characters.
pub fn same(a: &str, b: &str) -> (answer: bool)
    ensures
        answer == (a@ == b@),
{
    a.to_owned() == b.to_owned()
}

/// `a` followed by `b`.
pub fn joined(a: &str, b: &str) -> (text: String)
    ensures
        text@ == a@ + b@,
{
    let mut text = a.to_owned();
    text.append(b);
    text
}

/// The first `count` characters of `text`, or all of them if it has fewer.
pub fn first_chars(text: &str, count: usize) -> (start: String)
    ensures
        start@ == text@.take(if count <= text@.len() {
            count as int
        } else {
            text@.len() as int
        }),
{
    let chars = chars_of(text);
    let end: usize = if count <= chars.len() {
        count
    } else {
        chars.len()
    };
    let start = text_of(&chars, 0, end);
    proof {
        assert(chars@.subrange(0, end as int) =~= text@.take(end as int));
    }
    start
}

// ----- whitespace ----------------------------------------------------------------------

/// The characters with the Unicode property `White_Space`.
pub open spec fn white(c: char) -> bool {
    ||| '\u{9}' <= c <= '\u{d}'
    ||| c == ' '
    ||| c == '\u{85}'
    ||| c == '\u{a0}'
    ||| c == '\u{1680}'
    ||| '\u{2000}' <= c <= '\u{200a}'
    ||| c == '\u{2028}'
    ||| c == '\u{2029}'
    ||| c == '\u{202f}'
    ||| c == '\u{205f}'
    ||| c == '\u{3000}'
}

/// Whether `c` is white space.
pub fn is_white(c: char) -> (answer: bool)
    ensures
        answer == white(c),
{
    ('\u{9}' <= c && c <= '\u{d}') || c == ' ' || c == '\u{85}' || c == '\u{a0}' || c
        == '\u{1680}' || ('\u{2000}' <= c && c <= '\u{200a}') || c == '\u{2028}' || c
        == '\u{2029}' || c == '\u{202f}' || c == '\u{205f}' || c == '\u{3000}'
}

/// `text` without the white space it starts with.
pub open spec fn trim_start(text: Seq<char>) -> Seq<char>
    decreases text.len(),
{
    if text.len() > 0 && white(text[0]) {
        trim_start(text.skip(1))
    } else {
        text
    }
}

/// `text` without the white space it ends with.
pub open spec fn trim_end(text: Seq<char>) -> Seq<char>
    decreases text.len(),
{
    if text.len() > 0 && white(text.last()) {
        trim_end(text.drop_last())
    } else {
        text
    }
}

/// `text` without white space at either end.
pub open spec fn trimmed(text: Seq<char>) -> Seq<char> {
    trim_end(trim_start(text))
}

/// `text` without white space at either end.
pub fn trim(text: &str) -> (answer: String)
    ensures
        answer@ == trimmed(text@),
{
    let chars = chars_of(text);
    let mut from: usize = 0;
    proof {
        assert(text@.skip(0) =~= text@);
    }
    while from < chars.len() && is_white(chars[from])
        invariant
            from <= chars@.len(),
            chars@ == text@,
            trim_start(text@) == trim_start(text@.skip(from as int)),
        decreases chars@.len() - from,
    {
        proof {
            assert(text@.skip(from as int).skip(1) =~= text@.skip(from as int + 1));
        }
        from = from + 1;
    }
    let ghost start = text@.skip(from as int);
    proof {
        assert(trim_start(text@) == start);
    }
    let mut to: usize = chars.len();
    while to > from && is_white(chars[to - 1])
        invariant
            from <= to <= chars@.len(),
            chars@ == text@,
            start == text@.skip(from as int),
            trim_end(start) == trim_end(text@.subrange(from as int, to as int)),
        decreases to,
    {
        proof {
            assert(text@.subrange(from as int, to as int).drop_last() =~= text@.subrange(
                from as int,
                to - 1,
            ));
        }
        to = to - 1;
    }
    text_of(&chars, from, to)
}

proof fn trim_start_bounds(text: Seq<char>)
    ensures
        trim_start(text).len() <= text.len(),
        trim_start(text).len() > 0 ==> !white(trim_start(text)[0]),
        trim_start(text) == text.skip(text.len() - trim_start(text).len()),
    decreases text.len(),
{
    if text.len() > 0 && white(text[0]) {
        trim_start_bounds(text.skip(1));
        let kept = trim_start(text);
        assert(text.skip(1).skip(text.len() - 1 - kept.len()) =~= text.skip(
            text.len() - kept.len(),
        ));
    } else {
        assert(text.skip(0) =~= text);
    }
}

proof fn trim_end_bounds(text: Seq<char>)
    ensures
        trim_end(text).len() <= text.len(),
        trim_end(text).len() > 0 ==> !white(trim_end(text).last()),
        trim_end(text) == text.take(trim_end(text).len() as int),
    decreases text.len(),
{
    if text.len() > 0 && white(text.last()) {
        trim_end_bounds(text.drop_last());
        let kept = trim_end(text);
        assert(text.drop_last().take(kept.len() as int) =~= text.take(kept.len() as int));
    } else {
        assert(text.take(text.len() as int) =~= text);
    }
}

/// A trimmed text is a piece of the text it came from, starts and ends with something that
/// is not white, and trimming it again changes nothing.
pub proof fn trimming_trims(text: Seq<char>)
    ensures
        trimmed(text).len() <= text.len(),
        trimmed(text).len() > 0 ==> !white(trimmed(text)[0]) && !white(trimmed(text).last()),
        exists|from: int|
            0 <= from <= from + trimmed(text).len() <= text.len() && trimmed(text)
                == #[trigger] text.subrange(from, from + trimmed(text).len()),
        trimmed(trimmed(text)) == trimmed(text),
{
    trim_start_bounds(text);
    let start = trim_start(text);
    trim_end_bounds(start);
    let kept = trim_end(start);
    let from = text.len() - start.len();
    assert(kept =~= text.subrange(from, from + kept.len()));
    assert(trim_start(kept) == kept);
    assert(trim_end(kept) == kept);
}

/// The characters that count as white space, one by one.
pub open spec fn blank(c: char) -> bool {
    ||| c == '\t' || c == '\n' || c == '\u{b}' || c == '\u{c}' || c == '\r'
    ||| c == '\u{20}' || c == '\u{85}' || c == '\u{a0}' || c == '\u{1680}'
    ||| c == '\u{2000}' || c == '\u{2001}' || c == '\u{2002}' || c == '\u{2003}'
    ||| c == '\u{2004}' || c == '\u{2005}' || c == '\u{2006}' || c == '\u{2007}'
    ||| c == '\u{2008}' || c == '\u{2009}' || c == '\u{200a}' || c == '\u{2028}'
    ||| c == '\u{2029}' || c == '\u{202f}' || c == '\u{205f}' || c == '\u{3000}'
}

proof fn blanks_go_in_front(front: Seq<char>, rest: Seq<char>)
    requires
        forall|k: int| 0 <= k < front.len() ==> blank(#[trigger] front[k]),
        rest.len() > 0 ==> !blank(rest[0]),
    ensures
        trim_start(front + rest) == rest,
    decreases front.len(),
{
    let all = front + rest;
    if front.len() == 0 {
        assert(all =~= rest);
    } else {
        assert(blank(front[0]));
        assert(all[0] == front[0]);
        let less = front.skip(1);
        assert forall|k: int| 0 <= k < less.len() implies blank(#[trigger] less[k]) by {
            assert(blank(front[k + 1]));
        }
        assert(all.skip(1) =~= less + rest);
        blanks_go_in_front(less, rest);
    }
}

proof fn blanks_go_behind(rest: Seq<char>, back: Seq<char>)
    requires
        forall|k: int| 0 <= k < back.len() ==> blank(#[trigger] back[k]),
        rest.len() > 0 ==> !blank(rest.last()),
    ensures
        trim_end(rest + back) == rest,
    decreases back.len(),
{
    let all = rest + back;
    if back.len() == 0 {
        assert(all =~= rest);
    } else {
        assert(blank(back[back.len() - 1]));
        assert(all.last() == back.last());
        let less = back.drop_last();
        assert forall|k: int| 0 <= k < less.len() implies blank(#[trigger] less[k]) by {
            assert(blank(back[k]));
        }
        assert(all.drop_last() =~= rest + less);
        blanks_go_behind(rest, less);
    }
}

/// Trimming takes the white space off both ends and nothing else: what stands between the
/// first and the last character that is no white space is left as it is, and a text of
/// nothing but white space is left empty.
pub proof fn trimming_leaves_what_stands_between(
    front: Seq<char>,
    core: Seq<char>,
    back: Seq<char>,
)
    requires
        forall|k: int| 0 <= k < front.len() ==> blank(#[trigger] front[k]),
        forall|k: int| 0 <= k < back.len() ==> blank(#[trigger] back[k]),
        core.len() > 0 ==> !blank(core[0]) && !blank(core.last()),
    ensures
        trimmed(front + core + back) == core,
{
    if core.len() == 0 {
        let all = front + core + back;
        assert forall|k: int| 0 <= k < all.len() implies blank(#[trigger] all[k]) by {
            if k < front.len() {
                assert(blank(front[k]));
            } else {
                assert(blank(back[k - front.len()]));
            }
        }
        assert(all + core =~= all);
        blanks_go_in_front(all, core);
        assert(core + Seq::<char>::empty() =~= core);
        blanks_go_behind(core, Seq::empty());
    } else {
        assert(front + core + back =~= front + (core + back));
        blanks_go_in_front(front, core + back);
        blanks_go_behind(core, back);
    }
}

// ----- numbers -------------------------------------------------------------------------

/// The decimal digit of `d`.
pub open spec fn digit(d: nat) -> char {
    (('0' as u32 + d) as u32) as char
}

/// `n` in decimal, without leading zeros.
pub open spec fn decimal(n: nat) -> Seq<char>
    decreases n,
{
    if n < 10 {
        seq![digit(n)]
    } else {
        decimal(n / 10).push(digit(n % 10))
    }
}

fn digit_of(d: u64) -> (c: char)
    requires
        d < 10,
    ensures
        c == digit(d as nat),
{
    match d {
        0 => '0',
        1 => '1',
        2 => '2',
        3 => '3',
        4 => '4',
        5 => '5',
        6 => '6',
        7 => '7',
        8 => '8',
        _ => '9',
    }
}

/// `n` in decimal.
pub fn decimal_of(n: u64) -> (text: String)
    ensures
        text@ == decimal(n as nat),
    decreases n,
{
    if n < 10 {
        let mut text = String::new();
        text.push(digit_of(n));
        proof {
            assert(text@ =~= decimal(n as nat));
        }
        text
    } else {
        let mut text = decimal_of(n / 10);
        text.push(digit_of(n % 10));
        text
    }
}

/// Two numbers that are spelt alike are the same number.
pub proof fn decimal_is_injective(a: nat, b: nat)
    requires
        decimal(a) == decimal(b),
    ensures
        a == b,
    decreases a,
{
    decimal_is_not_empty(a);
    decimal_is_not_empty(b);
    if a < 10 && b < 10 {
        assert(decimal(a)[0] == digit(a));
        assert(decimal(b)[0] == digit(b));
        assert(digit(a) as u32 == 48 + a && digit(b) as u32 == 48 + b);
    } else if a >= 10 && b >= 10 {
        assert(decimal(a).drop_last() =~= decimal(a / 10));
        assert(decimal(b).drop_last() =~= decimal(b / 10));
        assert(decimal(a).last() == digit(a % 10));
        assert(decimal(b).last() == digit(b % 10));
        assert(digit(a % 10) as u32 == 48 + a % 10 && digit(b % 10) as u32 == 48 + b % 10);
        decimal_is_injective(a / 10, b / 10);
    } else {
        decimal_is_not_empty(a / 10);
        decimal_is_not_empty(b / 10);
        assert(decimal(a).len() != decimal(b).len());
    }
}

/// A number has at least one digit.
pub proof fn decimal_is_not_empty(n: nat)
    ensures
        decimal(n).len() > 0,
    decreases n,
{
}

// ----- order ---------------------------------------------------------------------------

/// Whether `a` comes strictly before `b`, character by character.
pub open spec fn precedes(a: Seq<char>, b: Seq<char>) -> bool
    decreases b.len(),
{
    if b.len() == 0 {
        false
    } else if a.len() == 0 {
        true
    } else if a[0] != b[0] {
        a[0] < b[0]
    } else {
        precedes(a.skip(1), b.skip(1))
    }
}

/// Whether `a` comes strictly before `b`.
pub fn comes_before(a: &str, b: &str) -> (answer: bool)
    ensures
        answer == precedes(a@, b@),
{
    let first = chars_of(a);
    let second = chars_of(b);
    let mut at: usize = 0;
    proof {
        assert(a@.skip(0) =~= a@);
        assert(b@.skip(0) =~= b@);
    }
    while at < first.len() && at < second.len() && first[at] == second[at]
        invariant
            at <= first@.len(),
            at <= second@.len(),
            first@ == a@,
            second@ == b@,
            precedes(a@, b@) == precedes(a@.skip(at as int), b@.skip(at as int)),
        decreases first@.len() - at,
    {
        proof {
            assert(a@.skip(at as int).skip(1) =~= a@.skip(at as int + 1));
            assert(b@.skip(at as int).skip(1) =~= b@.skip(at as int + 1));
        }
        at = at + 1;
    }
    if at == second.len() {
        false
    } else if at == first.len() {
        true
    } else {
        first[at] < second[at]
    }
}

/// The order of texts is total: of two different texts, one comes first and not the other.
pub proof fn the_order_is_total(a: Seq<char>, b: Seq<char>)
    ensures
        a == b ==> !precedes(a, b),
        a != b ==> precedes(a, b) != precedes(b, a),
    decreases a.len(),
{
    if a.len() > 0 && b.len() > 0 && a[0] == b[0] {
        the_order_is_total(a.skip(1), b.skip(1));
        if a.skip(1) == b.skip(1) {
            assert(a =~= seq![a[0]] + a.skip(1));
            assert(b =~= seq![b[0]] + b.skip(1));
        }
    } else if a.len() == 0 && b.len() == 0 {
        assert(a =~= b);
    }
}

/// The order of texts is transitive.
pub proof fn the_order_is_transitive(a: Seq<char>, b: Seq<char>, c: Seq<char>)
    requires
        precedes(a, b),
        precedes(b, c),
    ensures
        precedes(a, c),
    decreases a.len(),
{
    if a.len() > 0 && a[0] == b[0] && b[0] == c[0] {
        the_order_is_transitive(a.skip(1), b.skip(1), c.skip(1));
    }
}

// ----- searching -----------------------------------------------------------------------

/// Whether `text` starts with `prefix`.
pub fn starts_with(text: &str, prefix: &str) -> (answer: bool)
    ensures
        answer == prefix@.is_prefix_of(text@),
{
    let chars = chars_of(text);
    let wanted = chars_of(prefix);
    if wanted.len() > chars.len() {
        return false;
    }
    let mut at: usize = 0;
    while at < wanted.len()
        invariant
            at <= wanted@.len() <= chars@.len(),
            chars@ == text@,
            wanted@ == prefix@,
            forall|k: int| 0 <= k < at ==> chars@[k] == wanted@[k],
        decreases wanted@.len() - at,
    {
        if chars[at] != wanted[at] {
            proof {
                assert(text@.subrange(0, prefix@.len() as int)[at as int] != prefix@[at as int]);
            }
            return false;
        }
        at = at + 1;
    }
    proof {
        assert(text@.subrange(0, prefix@.len() as int) =~= prefix@);
    }
    true
}

/// Where `c` first stands in `text`, or its length if it does not.
pub open spec fn first_at(text: Seq<char>, c: char) -> int
    decreases text.len(),
{
    if text.len() == 0 || text[0] == c {
        0
    } else {
        1 + first_at(text.skip(1), c)
    }
}

/// The place of the first `c` in `chars`, or their number.
pub fn find_char(chars: &Vec<char>, c: char) -> (at: usize)
    ensures
        at == first_at(chars@, c),
        at <= chars@.len(),
        at < chars@.len() ==> chars@[at as int] == c,
        forall|k: int| 0 <= k < at ==> chars@[k] != c,
{
    let mut at: usize = 0;
    proof {
        assert(chars@.skip(0) =~= chars@);
    }
    while at < chars.len() && chars[at] != c
        invariant
            at <= chars@.len(),
            first_at(chars@, c) == at + first_at(chars@.skip(at as int), c),
            forall|k: int| 0 <= k < at ==> chars@[k] != c,
        decreases chars@.len() - at,
    {
        proof {
            assert(chars@.skip(at as int).skip(1) =~= chars@.skip(at as int + 1));
        }
        at = at + 1;
    }
    at
}

/// What stands before the first `c`, or the whole text.
pub open spec fn before_first(text: Seq<char>, c: char) -> Seq<char> {
    text.take(first_at(text, c))
}

/// What stands before the first `c`, or the whole text.
pub fn until(text: &str, c: char) -> (head: String)
    ensures
        head@ == before_first(text@, c),
{
    let chars = chars_of(text);
    let at: usize = find_char(&chars, c);
    proof {
        assert(chars@.subrange(0, at as int) =~= text@.take(at as int));
    }
    text_of(&chars, 0, at)
}

/// What stands after the first `c`, if it stands anywhere.
pub open spec fn after_first(text: Seq<char>, c: char) -> Option<Seq<char>> {
    if first_at(text, c) < text.len() {
        Some(text.skip(first_at(text, c) + 1))
    } else {
        None
    }
}

/// What stands after the first `c`, if it stands anywhere.
pub fn past(text: &str, c: char) -> (tail: Option<String>)
    ensures
        tail is Some <==> after_first(text@, c) is Some,
        tail is Some ==> tail->0@ == after_first(text@, c)->0,
{
    let chars = chars_of(text);
    let at: usize = find_char(&chars, c);
    if at >= chars.len() {
        return None;
    }
    proof {
        assert(chars@.subrange(at + 1, chars@.len() as int) =~= text@.skip(at + 1));
    }
    Some(text_of(&chars, at + 1, chars.len()))
}

/// What stands after the last `c`, or the whole text.
pub open spec fn after_last(text: Seq<char>, c: char) -> Seq<char>
    decreases text.len(),
{
    if text.len() == 0 || text.last() == c {
        Seq::empty()
    } else {
        after_last(text.drop_last(), c).push(text.last())
    }
}

/// What stands after the last `c`, or the whole text.
pub fn past_last(text: &str, c: char) -> (tail: String)
    ensures
        tail@ == after_last(text@, c),
{
    let chars = chars_of(text);
    let mut from: usize = chars.len();
    proof {
        assert(text@.take(from as int) =~= text@);
        assert(after_last(text@, c) =~= after_last(text@.take(from as int), c) + text@.subrange(
            from as int,
            text@.len() as int,
        ));
    }
    while from > 0 && chars[from - 1] != c
        invariant
            from <= chars@.len(),
            chars@ == text@,
            after_last(text@, c) == after_last(text@.take(from as int), c) + text@.subrange(
                from as int,
                text@.len() as int,
            ),
        decreases from,
    {
        proof {
            let head = text@.take(from as int);
            assert(head.drop_last() =~= text@.take(from - 1));
            assert(after_last(text@.take(from - 1), c).push(text@[from - 1]) + text@.subrange(
                from as int,
                text@.len() as int,
            ) =~= after_last(text@.take(from - 1), c) + text@.subrange(
                from - 1,
                text@.len() as int,
            ));
        }
        from = from - 1;
    }
    proof {
        assert(after_last(text@.take(from as int), c) =~= Seq::<char>::empty());
        assert(after_last(text@, c) =~= chars@.subrange(from as int, chars@.len() as int));
    }
    text_of(&chars, from, chars.len())
}

/// Whether `text` ends with `suffix`.
pub open spec fn has_suffix(text: Seq<char>, suffix: Seq<char>) -> bool {
    suffix.len() <= text.len() && text.skip(text.len() - suffix.len()) == suffix
}

/// Whether `text` ends with `suffix`.
pub fn ends_with(text: &str, suffix: &str) -> (answer: bool)
    ensures
        answer == has_suffix(text@, suffix@),
{
    let chars = chars_of(text);
    let count: usize = chars_of(suffix).len();
    if count > chars.len() {
        return false;
    }
    let tail = text_of(&chars, chars.len() - count, chars.len());
    proof {
        assert(tail@ =~= text@.skip(text@.len() - suffix@.len()));
    }
    same(tail.as_str(), suffix)
}

/// What each of `list` reads.
pub open spec fn texts(list: Seq<String>) -> Seq<Seq<char>> {
    list.map_values(|text: String| text@)
}

/// `list` without the entries that read `dropped`, the others in their order.
pub open spec fn without(list: Seq<Seq<char>>, dropped: Seq<char>) -> Seq<Seq<char>>
    decreases list.len(),
{
    if list.len() == 0 {
        list
    } else if list.last() == dropped {
        without(list.drop_last(), dropped)
    } else {
        without(list.drop_last(), dropped).push(list.last())
    }
}

/// What is dropped is gone, and everything else is still there.
pub proof fn without_drops_exactly(list: Seq<Seq<char>>, dropped: Seq<char>, other: Seq<char>)
    ensures
        without(list, dropped).contains(other) == (list.contains(other) && other != dropped),
    decreases list.len(),
{
    if list.len() > 0 {
        let rest = list.drop_last();
        let kept = without(rest, dropped);
        without_drops_exactly(rest, dropped, other);
        let all = without(list, dropped);
        if list.contains(other) && other != dropped {
            let i = choose|i: int| 0 <= i < list.len() && list[i] == other;
            if i < rest.len() {
                assert(rest[i] == other);
                let k = choose|k: int| 0 <= k < kept.len() && kept[k] == other;
                assert(all[k] == other);
            } else {
                assert(all[all.len() - 1] == other);
            }
        }
        if all.contains(other) {
            let k = choose|k: int| 0 <= k < all.len() && all[k] == other;
            if k < kept.len() {
                assert(kept[k] == other);
                let i = choose|i: int| 0 <= i < rest.len() && rest[i] == other;
                assert(list[i] == other);
            } else {
                assert(list[list.len() - 1] == other);
            }
        }
    }
}

/// Dropping what is not there changes nothing.
pub proof fn without_absent(list: Seq<Seq<char>>, dropped: Seq<char>)
    requires
        !list.contains(dropped),
    ensures
        without(list, dropped) == list,
    decreases list.len(),
{
    if list.len() > 0 {
        let rest = list.drop_last();
        assert forall|i: int| 0 <= i < rest.len() implies rest[i] != dropped by {
            assert(list[i] != dropped);
        }
        without_absent(rest, dropped);
        assert(list[list.len() - 1] != dropped);
        assert(rest.push(list.last()) =~= list);
    }
}

// ----- lines ---------------------------------------------------------------------------

/// A line without the carriage return it may end with.
pub open spec fn without_return(line: Seq<char>) -> Seq<char> {
    if line.len() > 0 && line.last() == '\r' {
        line.drop_last()
    } else {
        line
    }
}

/// The lines of a text. A line ends with a newline, which a carriage return may precede;
/// after the last newline nothing more is a line only if nothing stands there.
pub open spec fn lines_of(text: Seq<char>) -> Seq<Seq<char>>
    decreases text.len(),
{
    if text.len() == 0 {
        Seq::empty()
    } else {
        let at = first_at(text, '\n');
        if at < 0 || at >= text.len() {
            seq![text]
        } else {
            seq![without_return(text.take(at))] + lines_of(text.skip(at + 1))
        }
    }
}

/// The lines of a text.
pub fn lines(text: &str) -> (list: Vec<String>)
    ensures
        texts(list@) == lines_of(text@),
{
    let chars = chars_of(text);
    let mut list: Vec<String> = Vec::new();
    let mut from: usize = 0;
    proof {
        assert(text@.skip(0) =~= text@);
        assert(texts(list@) + lines_of(text@) =~= lines_of(text@));
    }
    while from < chars.len()
        invariant
            from <= chars@.len(),
            chars@ == text@,
            lines_of(text@) == texts(list@) + lines_of(text@.skip(from as int)),
        decreases chars@.len() - from,
    {
        let ghost rest = text@.skip(from as int);
        let mut at: usize = from;
        proof {
            assert(rest.skip(0) =~= rest);
        }
        while at < chars.len() && chars[at] != '\n'
            invariant
                from <= at <= chars@.len(),
                chars@ == text@,
                rest == text@.skip(from as int),
                first_at(rest, '\n') == (at - from) + first_at(rest.skip(at - from), '\n'),
            decreases chars@.len() - at,
        {
            proof {
                assert(rest.skip(at - from)[0] == chars@[at as int]);
                assert(rest.skip(at - from).skip(1) =~= rest.skip(at - from + 1));
            }
            at = at + 1;
        }
        proof {
            if at < chars@.len() {
                assert(rest.skip(at - from)[0] == chars@[at as int]);
            }
            assert(first_at(rest, '\n') == at - from);
        }
        let ghost before = list@;
        if at == chars.len() {
            list.push(text_of(&chars, from, at));
            proof {
                assert(chars@.subrange(from as int, at as int) =~= rest);
                assert(texts(list@) =~= texts(before).push(rest));
                assert(texts(before) + seq![rest] =~= texts(list@));
                assert(text@.skip(at as int) =~= Seq::<char>::empty());
                assert(texts(list@) + lines_of(text@.skip(at as int)) =~= texts(list@));
            }
            from = at;
        } else {
            let end: usize = if at > from && chars[at - 1] == '\r' {
                at - 1
            } else {
                at
            };
            list.push(text_of(&chars, from, end));
            proof {
                let line = rest.take(at - from);
                assert(line =~= chars@.subrange(from as int, at as int));
                assert(chars@.subrange(from as int, end as int) =~= without_return(line));
                assert(texts(list@) =~= texts(before).push(without_return(line)));
                assert(rest.skip(at - from + 1) =~= text@.skip(at as int + 1));
                assert(texts(before) + (seq![without_return(line)] + lines_of(
                    rest.skip(at - from + 1),
                )) =~= texts(list@) + lines_of(text@.skip(at as int + 1)));
            }
            from = at + 1;
        }
    }
    proof {
        assert(text@.skip(from as int) =~= Seq::<char>::empty());
        assert(texts(list@) + lines_of(text@.skip(from as int)) =~= texts(list@));
    }
    list
}

// ----- fixed width ---------------------------------------------------------------------

/// The last `width` decimal digits of `n`, zeros in front where it has fewer.
pub open spec fn fixed(n: nat, width: nat) -> Seq<char>
    decreases width,
{
    if width == 0 {
        Seq::empty()
    } else {
        fixed(n / 10, (width - 1) as nat).push(digit(n % 10))
    }
}

/// `n` in decimal, with zeros in front up to `width` digits.
pub open spec fn padded(n: nat, width: nat) -> Seq<char> {
    if decimal(n).len() >= width {
        decimal(n)
    } else {
        fixed(n, width)
    }
}

fn push_fixed(text: &mut String, n: u64, width: usize)
    ensures
        final(text)@ == old(text)@ + fixed(n as nat, width as nat),
    decreases width,
{
    if width > 0 {
        push_fixed(text, n / 10, width - 1);
        text.push(digit_of(n % 10));
    }
    proof {
        assert(text@ =~= old(text)@ + fixed(n as nat, width as nat));
    }
}

/// `n` in decimal, with zeros in front up to `width` digits.
pub fn padded_of(n: u64, width: usize) -> (text: String)
    ensures
        text@ == padded(n as nat, width as nat),
{
    let plain = decimal_of(n);
    if chars_of(plain.as_str()).len() >= width {
        return plain;
    }
    let mut text = String::new();
    push_fixed(&mut text, n, width);
    proof {
        assert(text@ =~= fixed(n as nat, width as nat));
    }
    text
}

/// `10` to the power of `n`.
pub open spec fn pow10(n: nat) -> nat
    decreases n,
{
    if n == 0 {
        1
    } else {
        10 * pow10((n - 1) as nat)
    }
}

/// What stands behind two texts of one length does not change their order.
pub proof fn order_ignores_what_follows(a: Seq<char>, b: Seq<char>, c: char, d: char)
    requires
        a.len() == b.len(),
        precedes(a, b),
    ensures
        precedes(a.push(c), b.push(d)),
    decreases a.len(),
{
    let x = a.push(c);
    let y = b.push(d);
    assert(x[0] == a[0] && y[0] == b[0]);
    if a[0] == b[0] {
        assert(x.skip(1) =~= a.skip(1).push(c));
        assert(y.skip(1) =~= b.skip(1).push(d));
        order_ignores_what_follows(a.skip(1), b.skip(1), c, d);
    }
}

/// Two texts that differ in their last character stand in the order of it.
pub proof fn the_last_character_decides(a: Seq<char>, c: char, d: char)
    requires
        c < d,
    ensures
        precedes(a.push(c), a.push(d)),
    decreases a.len(),
{
    let x = a.push(c);
    let y = a.push(d);
    if a.len() > 0 {
        assert(x[0] == y[0]);
        assert(x.skip(1) =~= a.skip(1).push(c));
        assert(y.skip(1) =~= a.skip(1).push(d));
        the_last_character_decides(a.skip(1), c, d);
    }
}

proof fn fixed_has_its_width(n: nat, width: nat)
    ensures
        fixed(n, width).len() == width,
    decreases width,
{
    if width > 0 {
        fixed_has_its_width(n / 10, (width - 1) as nat);
    }
}

proof fn fixed_keeps_order(a: nat, b: nat, width: nat)
    requires
        a < b,
        b < pow10(width),
    ensures
        precedes(fixed(a, width), fixed(b, width)),
    decreases width,
{
    if width > 0 {
        let w = (width - 1) as nat;
        fixed_has_its_width(a / 10, w);
        fixed_has_its_width(b / 10, w);
        assert(digit(a % 10) as u32 == 48 + a % 10);
        assert(digit(b % 10) as u32 == 48 + b % 10);
        if a / 10 < b / 10 {
            fixed_keeps_order(a / 10, b / 10, w);
            order_ignores_what_follows(
                fixed(a / 10, w),
                fixed(b / 10, w),
                digit(a % 10),
                digit(b % 10),
            );
        } else {
            assert(a / 10 == b / 10);
            the_last_character_decides(fixed(a / 10, w), digit(a % 10), digit(b % 10));
        }
    }
}

proof fn a_full_number_is_fixed(n: nat, width: nat)
    requires
        n < pow10(width),
        0 < width,
    ensures
        decimal(n).len() <= width,
        decimal(n).len() == width ==> decimal(n) == fixed(n, width),
    decreases width,
{
    let w = (width - 1) as nat;
    if n < 10 {
        if width == 1 {
            assert(fixed(n / 10, 0) =~= Seq::<char>::empty());
            assert(decimal(n) =~= fixed(n, width));
        }
    } else {
        assert(width > 1) by {
            if width == 1 {
                assert(pow10(0) == 1);
                assert(pow10(1) == 10 * pow10(0));
            }
        }
        a_full_number_is_fixed(n / 10, w);
    }
}

/// Numbers padded to the same width sort as texts the way they sort as numbers, as long as
/// they fit.
pub proof fn padding_keeps_order(a: nat, b: nat, width: nat)
    requires
        a < b,
        b < pow10(width),
        0 < width,
    ensures
        padded(a, width).len() == width,
        padded(b, width).len() == width,
        precedes(padded(a, width), padded(b, width)),
{
    a_full_number_is_fixed(a, width);
    a_full_number_is_fixed(b, width);
    fixed_has_its_width(a, width);
    fixed_has_its_width(b, width);
    fixed_keeps_order(a, b, width);
}

/// The ten digits, one by one.
pub open spec fn is_written(d: nat, c: char) -> bool {
    &&& d == 0 ==> c == '0'
    &&& d == 1 ==> c == '1'
    &&& d == 2 ==> c == '2'
    &&& d == 3 ==> c == '3'
    &&& d == 4 ==> c == '4'
    &&& d == 5 ==> c == '5'
    &&& d == 6 ==> c == '6'
    &&& d == 7 ==> c == '7'
    &&& d == 8 ==> c == '8'
    &&& d == 9 ==> c == '9'
}

proof fn each_digit_is_written(d: nat)
    requires
        d < 10,
    ensures
        is_written(d, digit(d)),
{
    assert(digit(d) as u32 == 48 + d);
}

/// A number is written in tens: the digit of what is over stands behind the number of tens,
/// and a number under ten is its digit.
pub proof fn a_number_is_written_in_tens(tens: nat, over: nat)
    requires
        over < 10,
    ensures
        decimal(over).len() == 1,
        is_written(over, decimal(over)[0]),
        tens > 0 ==> decimal(10 * tens + over) == decimal(tens).push(decimal(over)[0]),
{
    each_digit_is_written(over);
    if tens > 0 {
        let n = 10 * tens + over;
        assert(n / 10 == tens && n % 10 == over);
    }
}

proof fn a_short_number_is_filled_up(n: nat, width: nat)
    requires
        0 < decimal(n).len() <= width,
    ensures
        fixed(n, width) == Seq::new((width - decimal(n).len()) as nat, |i: int| '0') + decimal(n),
    decreases width,
{
    let w = (width - 1) as nat;
    let zeros = Seq::new((width - decimal(n).len()) as nat, |i: int| '0');
    if n < 10 {
        assert(n / 10 == 0 && n % 10 == n);
        only_zeros(w);
        assert(fixed(n, width) =~= zeros + decimal(n));
    } else {
        decimal_is_not_empty(n / 10);
        a_short_number_is_filled_up(n / 10, w);
        assert(fixed(n, width) =~= zeros + decimal(n));
    }
}

proof fn only_zeros(width: nat)
    ensures
        fixed(0, width) == Seq::new(width, |i: int| '0'),
    decreases width,
{
    each_digit_is_written(0);
    if width > 0 {
        only_zeros((width - 1) as nat);
    }
    assert(fixed(0, width) =~= Seq::new(width, |i: int| '0'));
}

/// A padded number is its digits behind as many zeros as it takes to fill the width.
pub proof fn padding_is_zeros_in_front(n: nat, width: nat)
    ensures
        decimal(n).len() >= width ==> padded(n, width) == decimal(n),
        decimal(n).len() < width ==> padded(n, width) == Seq::new(
            (width - decimal(n).len()) as nat,
            |i: int| '0',
        ) + decimal(n),
{
    decimal_is_not_empty(n);
    if decimal(n).len() < width {
        a_short_number_is_filled_up(n, width);
    }
}

/// The first place where two texts differ decides which comes first, by the characters there;
/// a text comes before every longer one that starts with it.
pub proof fn the_first_difference_decides(
    start: Seq<char>,
    c: char,
    d: char,
    a: Seq<char>,
    b: Seq<char>,
)
    requires
        c < d,
    ensures
        precedes(start.push(c) + a, start.push(d) + b),
        !precedes(start.push(d) + b, start.push(c) + a),
        precedes(start, start.push(c) + a),
        !precedes(start.push(c) + a, start),
        !precedes(start, start),
    decreases start.len(),
{
    let x = start.push(c) + a;
    let y = start.push(d) + b;
    if start.len() > 0 {
        let rest = start.skip(1);
        the_first_difference_decides(rest, c, d, a, b);
        assert(x.skip(1) =~= rest.push(c) + a);
        assert(y.skip(1) =~= rest.push(d) + b);
        assert(x[0] == start[0] && y[0] == start[0]);
    }
}

/// Dropping a text from a list leaves the others as they stand.
pub proof fn without_is_all_but_one(list: Seq<Seq<char>>, dropped: Seq<char>)
    ensures
        without(list, dropped) == list.filter(|text: Seq<char>| text != dropped),
    decreases list.len(),
{
    reveal(Seq::filter);
    if list.len() > 0 {
        without_is_all_but_one(list.drop_last(), dropped);
    }
}

/// A text is parted at the first `c`: what stands in front of it, and what behind.
pub proof fn the_first_one_parts_the_text(front: Seq<char>, c: char, back: Seq<char>)
    requires
        !front.contains(c),
    ensures
        before_first(front.push(c) + back, c) == front,
        after_first(front.push(c) + back, c) == Some(back),
        before_first(front, c) == front,
        after_first(front, c) is None,
{
    first_is_behind(front, seq![c] + back, c);
    first_is_behind(front, Seq::empty(), c);
    assert(front.push(c) + back =~= front + (seq![c] + back));
    assert(front + Seq::<char>::empty() =~= front);
    let all = front.push(c) + back;
    assert(all.take(front.len() as int) =~= front);
    assert(all.skip(front.len() as int + 1) =~= back);
    assert(front.take(front.len() as int) =~= front);
}

proof fn first_is_behind(front: Seq<char>, rest: Seq<char>, c: char)
    requires
        !front.contains(c),
        rest.len() > 0 ==> rest[0] == c,
    ensures
        first_at(front + rest, c) == front.len(),
    decreases front.len(),
{
    let all = front + rest;
    if front.len() > 0 {
        assert(front.contains(front[0]));
        assert(all[0] != c);
        let less = front.skip(1);
        assert(all.skip(1) =~= less + rest);
        assert forall|k: int| 0 <= k < less.len() implies less[k] != c by {
            assert(front.contains(front[k + 1]));
        }
        first_is_behind(less, rest, c);
    } else {
        assert(all =~= rest);
    }
}

/// What stands behind the last `c`, or all of a text with none in it.
pub proof fn the_last_one_parts_the_text(front: Seq<char>, c: char, back: Seq<char>)
    requires
        !back.contains(c),
    ensures
        after_last(front.push(c) + back, c) == back,
        after_last(back, c) == back,
    decreases back.len(),
{
    let all = front.push(c) + back;
    if back.len() > 0 {
        let less = back.drop_last();
        assert(back.contains(back.last()));
        assert forall|k: int| 0 <= k < less.len() implies less[k] != c by {
            assert(back.contains(back[k]));
        }
        the_last_one_parts_the_text(front, c, less);
        assert(all.drop_last() =~= front.push(c) + less);
        assert(after_last(all, c) =~= back);
        assert(after_last(back, c) =~= back);
    } else {
        assert(all.last() == c);
        assert(back =~= Seq::<char>::empty());
    }
}

/// A text is read line by line: a line ends at its line feed, a carriage return in front of
/// that is part of the end, and what stands behind the last line feed is a line where there is
/// anything.
pub proof fn a_line_ends_at_its_line_feed(line: Seq<char>, rest: Seq<char>)
    requires
        !line.contains('\n'),
    ensures
        lines_of(Seq::empty()) == Seq::<Seq<char>>::empty(),
        line.len() > 0 ==> lines_of(line) == seq![line],
        lines_of(line + seq!['\r', '\n'] + rest) == seq![line] + lines_of(rest),
        !(line.len() > 0 && line.last() == '\r') ==> lines_of(line + seq!['\n'] + rest) == seq![
            line,
        ] + lines_of(rest),
{
    the_first_one_parts_the_text(line, '\n', rest);
    first_is_behind(line, Seq::empty(), '\n');
    assert(line + Seq::<char>::empty() =~= line);
    let plain = line + seq!['\n'] + rest;
    first_is_behind(line, seq!['\n'] + rest, '\n');
    assert(plain =~= line + (seq!['\n'] + rest));
    assert(plain.take(line.len() as int) =~= line);
    assert(plain.skip(line.len() as int + 1) =~= rest);
    let returned = line.push('\r');
    assert forall|k: int| 0 <= k < returned.len() implies returned[k] != '\n' by {
        if k < line.len() {
            assert(line.contains(line[k]));
        }
    }
    let both = line + seq!['\r', '\n'] + rest;
    first_is_behind(returned, seq!['\n'] + rest, '\n');
    assert(both =~= returned + (seq!['\n'] + rest));
    assert(both.take(returned.len() as int) =~= returned);
    assert(both.skip(returned.len() as int + 1) =~= rest);
    assert(returned.drop_last() =~= line);
}

/// A text ends with whatever was put behind it, and with nothing that differs.
pub proof fn a_text_ends_with_what_was_put_behind(front: Seq<char>, back: Seq<char>, other: Seq<char>)
    requires
        other.len() == back.len(),
    ensures
        has_suffix(front + back, back),
        has_suffix(front + back, other) ==> other == back,
{
    assert((front + back).skip(front.len() as int) =~= back);
}

/// A text is trimmed to nothing exactly where it is white space from end to end.
pub proof fn only_white_space_is_trimmed_to_nothing(text: Seq<char>)
    ensures
        trimmed(text).len() == 0 <==> forall|k: int|
            0 <= k < text.len() ==> blank(#[trigger] text[k]),
{
    let none = Seq::<char>::empty();
    if forall|k: int| 0 <= k < text.len() ==> blank(#[trigger] text[k]) {
        assert(text + none + none =~= text);
        trimming_leaves_what_stands_between(text, none, none);
    } else {
        let k = choose|k: int| 0 <= k < text.len() && !blank(#[trigger] text[k]);
        something_stays(text, k);
    }
}

proof fn something_stays(text: Seq<char>, k: int)
    requires
        0 <= k < text.len(),
        !blank(text[k]),
    ensures
        trimmed(text).len() > 0,
    decreases text.len(),
{
    assert(!white(text[k]));
    if white(text[0]) {
        something_stays(text.skip(1), k - 1);
    } else {
        an_end_stays(text, k);
    }
}

proof fn an_end_stays(text: Seq<char>, k: int)
    requires
        0 <= k < text.len(),
        !white(text[k]),
    ensures
        trim_end(text).len() > 0,
    decreases text.len(),
{
    if white(text.last()) {
        an_end_stays(text.drop_last(), k);
    }
}

/// A list of texts is read text by text.
pub proof fn a_list_is_read_text_by_text(list: Seq<String>, k: int)
    ensures
        texts(list).len() == list.len(),
        0 <= k < list.len() ==> texts(list)[k] == list[k]@,
{
}

} // verus!
