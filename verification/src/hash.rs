//! Content hashes: 256 bits, written as 64 hexadecimal digits.

use vstd::prelude::*;

use crate::item::{Item, ItemKind};
use crate::text::{
    chars_of, order_ignores_what_follows, precedes, text_of, the_last_character_decides,
    the_order_is_total,
};

verus! {

/// The hash of a stored asset. Ordered as its digits are.
#[derive(Clone, Copy, Debug, PartialEq, Eq, Structural)]
pub struct BlobHash {
    /// The first 32 digits.
    pub high: u128,
    /// The last 32 digits.
    pub low: u128,
}

/// Whether `c` is a hexadecimal digit.
pub open spec fn hex(c: char) -> bool {
    ('0' <= c <= '9') || ('a' <= c <= 'f') || ('A' <= c <= 'F')
}

/// What a hexadecimal digit is worth.
pub open spec fn hex_digit(c: char) -> nat {
    if '0' <= c <= '9' {
        (c as u32 - '0' as u32) as nat
    } else if 'a' <= c <= 'f' {
        (c as u32 - 'a' as u32 + 10) as nat
    } else {
        (c as u32 - 'A' as u32 + 10) as nat
    }
}

/// Whether a text is nothing but hexadecimal digits.
pub open spec fn all_hex(text: Seq<char>) -> bool {
    forall|k: int| 0 <= k < text.len() ==> hex(#[trigger] text[k])
}

/// The number that hexadecimal digits spell.
pub open spec fn hex_value(text: Seq<char>) -> nat
    decreases text.len(),
{
    if text.len() == 0 {
        0
    } else {
        16 * hex_value(text.drop_last()) + hex_digit(text.last())
    }
}

/// `16` to the power of `n`.
pub open spec fn pow16(n: nat) -> nat
    decreases n,
{
    if n == 0 {
        1
    } else {
        16 * pow16((n - 1) as nat)
    }
}

/// The hash a text names: 64 hexadecimal digits, and nothing else is one.
pub open spec fn hash_of(text: Seq<char>) -> Option<BlobHash> {
    if text.len() == 64 && all_hex(text) {
        Some(
            BlobHash {
                high: hex_value(text.take(32)) as u128,
                low: hex_value(text.skip(32)) as u128,
            },
        )
    } else {
        None
    }
}

proof fn hex_value_bound(text: Seq<char>)
    requires
        all_hex(text),
    ensures
        hex_value(text) < pow16(text.len()),
    decreases text.len(),
{
    if text.len() > 0 {
        assert forall|k: int| 0 <= k < text.drop_last().len() implies hex(
            #[trigger] text.drop_last()[k],
        ) by {
            assert(hex(text[k]));
        }
        hex_value_bound(text.drop_last());
        assert(hex(text[text.len() - 1]));
    }
}

proof fn pow16_of_32()
    ensures
        pow16(32) == u128::MAX + 1,
{
    reveal_with_fuel(pow16, 33);
}

proof fn pow16_grows(a: nat, b: nat)
    requires
        a <= b,
    ensures
        pow16(a) <= pow16(b),
        1 <= pow16(a),
    decreases b,
{
    if b > 0 {
        if a < b {
            pow16_grows(a, (b - 1) as nat);
        } else {
            pow16_grows((a - 1) as nat, (b - 1) as nat);
        }
    }
}

pub fn is_hex(c: char) -> (answer: bool)
    ensures
        answer == hex(c),
{
    ('0' <= c && c <= '9') || ('a' <= c && c <= 'f') || ('A' <= c && c <= 'F')
}

fn digit_value(c: char) -> (value: u128)
    requires
        hex(c),
    ensures
        value == hex_digit(c),
        value < 16,
{
    let code: u32 = c as u32;
    if '0' <= c && c <= '9' {
        (code - 48) as u128
    } else if 'a' <= c && c <= 'f' {
        (code - 97 + 10) as u128
    } else {
        (code - 65 + 10) as u128
    }
}

fn value_of(chars: &Vec<char>, from: usize) -> (value: u128)
    requires
        from + 32 <= chars@.len(),
        all_hex(chars@),
    ensures
        value == hex_value(chars@.subrange(from as int, from + 32)),
{
    let count: usize = chars.len();
    let mut value: u128 = 0;
    let mut at: usize = 0;
    while at < 32
        invariant
            at <= 32,
            from + 32 <= count == chars@.len(),
            all_hex(chars@),
            value == hex_value(chars@.subrange(from as int, from + at)),
        decreases 32 - at,
    {
        proof {
            let so_far = chars@.subrange(from as int, from + at);
            let next = chars@.subrange(from as int, from + at + 1);
            assert(next.drop_last() =~= so_far);
            assert(all_hex(next));
            hex_value_bound(next);
            pow16_grows((at + 1) as nat, 32);
            pow16_of_32();
            assert(hex(chars@[from + at]));
        }
        value = 16 * value + digit_value(chars[from + at]);
        at = at + 1;
    }
    value
}

/// The hexadecimal digit of `d`, in small letters.
pub open spec fn hex_char(d: nat) -> char {
    if d < 10 {
        (('0' as u32 + d) as u32) as char
    } else {
        (('a' as u32 + d - 10) as u32) as char
    }
}

/// `value` in `digits` hexadecimal digits.
pub open spec fn hex_text(value: nat, digits: nat) -> Seq<char>
    decreases digits,
{
    if digits == 0 {
        Seq::empty()
    } else {
        hex_text(value / 16, (digits - 1) as nat).push(hex_char(value % 16))
    }
}

fn char_of(d: u128) -> (c: char)
    requires
        d < 16,
    ensures
        c == hex_char(d as nat),
{
    match d {
        0 => '0',
        1 => '1',
        2 => '2',
        3 => '3',
        4 => '4',
        5 => '5',
        6 => '6',
        7 => '7',
        8 => '8',
        9 => '9',
        10 => 'a',
        11 => 'b',
        12 => 'c',
        13 => 'd',
        14 => 'e',
        _ => 'f',
    }
}

fn push_hex(text: &mut String, value: u128, digits: usize)
    ensures
        final(text)@ == old(text)@ + hex_text(value as nat, digits as nat),
    decreases digits,
{
    if digits > 0 {
        push_hex(text, value / 16, digits - 1);
        text.push(char_of(value % 16));
    }
    proof {
        assert(text@ =~= old(text)@ + hex_text(value as nat, digits as nat));
    }
}

impl BlobHash {
    /// Where the hash stands in the order of hashes.
    pub open spec fn rank(self) -> int {
        self.high * (u128::MAX + 1) + self.low
    }

    /// The 64 digits of the hash, in small letters.
    pub open spec fn digits(self) -> Seq<char> {
        hex_text(self.high as nat, 32) + hex_text(self.low as nat, 32)
    }

    /// The hash a text names, if it names one.
    pub fn parse(text: &str) -> (hash: Option<BlobHash>)
        ensures
            hash == hash_of(text@),
    {
        let chars = chars_of(text);
        if chars.len() != 64 {
            return None;
        }
        let mut at: usize = 0;
        while at < 64
            invariant
                at <= 64,
                chars@.len() == 64,
                chars@ == text@,
                forall|k: int| 0 <= k < at ==> hex(#[trigger] chars@[k]),
            decreases 64 - at,
        {
            if !is_hex(chars[at]) {
                return None;
            }
            at = at + 1;
        }
        proof {
            assert(text@.take(32) =~= text@.subrange(0, 32));
            assert(text@.skip(32) =~= text@.subrange(32, 64));
        }
        Some(BlobHash { high: value_of(&chars, 0), low: value_of(&chars, 32) })
    }

    /// The 64 digits of the hash.
    pub fn to_hex(&self) -> (text: String)
        ensures
            text@ == self.digits(),
    {
        let mut text = String::new();
        push_hex(&mut text, self.high, 32);
        push_hex(&mut text, self.low, 32);
        proof {
            assert(text@ =~= self.digits());
        }
        text
    }

    /// Whether `self` comes strictly before `other`.
    pub fn before(&self, other: &BlobHash) -> (answer: bool)
        ensures
            answer == (self.rank() < other.rank()),
    {
        proof {
            let base: int = u128::MAX + 1;
            let (a, b) = (self.high as int, other.high as int);
            if a < b {
                assert((a + 1) * base <= b * base) by (nonlinear_arith)
                    requires
                        a + 1 <= b,
                        base > 0,
                ;
                assert((a + 1) * base == a * base + base) by (nonlinear_arith);
            } else if b < a {
                assert((b + 1) * base <= a * base) by (nonlinear_arith)
                    requires
                        b + 1 <= a,
                        base > 0,
                ;
                assert((b + 1) * base == b * base + base) by (nonlinear_arith);
            }
        }
        self.high < other.high || (self.high == other.high && self.low < other.low)
    }
}

/// Two hashes of the same rank are the same hash.
pub proof fn rank_separates(a: BlobHash, b: BlobHash)
    requires
        a.rank() == b.rank(),
    ensures
        a == b,
{
    let base: int = u128::MAX + 1;
    let (x, y) = (a.high as int, b.high as int);
    if x < y {
        assert((x + 1) * base <= y * base) by (nonlinear_arith)
            requires
                x + 1 <= y,
                base > 0,
        ;
        assert((x + 1) * base == x * base + base) by (nonlinear_arith);
    } else if y < x {
        assert((y + 1) * base <= x * base) by (nonlinear_arith)
            requires
                y + 1 <= x,
                base > 0,
        ;
        assert((y + 1) * base == y * base + base) by (nonlinear_arith);
    }
}

proof fn hex_text_reads_back(value: nat, digits: nat)
    requires
        value < pow16(digits),
    ensures
        hex_text(value, digits).len() == digits,
        all_hex(hex_text(value, digits)),
        hex_value(hex_text(value, digits)) == value,
    decreases digits,
{
    if digits > 0 {
        hex_text_reads_back(value / 16, (digits - 1) as nat);
        let text = hex_text(value, digits);
        let head = hex_text(value / 16, (digits - 1) as nat);
        assert(text.drop_last() =~= head);
        let d = value % 16;
        assert(hex(hex_char(d)) && hex_digit(hex_char(d)) == d) by {
            if d < 10 {
                assert(hex_char(d) as u32 == 48 + d);
            } else {
                assert(hex_char(d) as u32 == 97 + d - 10);
            }
        }
        assert forall|k: int| 0 <= k < text.len() implies hex(#[trigger] text[k]) by {
            if k < head.len() {
                assert(hex(head[k]));
            }
        }
    }
}

/// A hash reads back from its own digits.
pub proof fn a_hash_reads_back(hash: BlobHash)
    ensures
        hash.digits().len() == 64,
        all_hex(hash.digits()),
        hash_of(hash.digits()) == Some(hash),
{
    pow16_of_32();
    hex_text_reads_back(hash.high as nat, 32);
    hex_text_reads_back(hash.low as nat, 32);
    let text = hash.digits();
    let (a, b) = (hex_text(hash.high as nat, 32), hex_text(hash.low as nat, 32));
    assert(text.take(32) =~= a);
    assert(text.skip(32) =~= b);
    assert forall|k: int| 0 <= k < text.len() implies hex(#[trigger] text[k]) by {
        if k < 32 {
            assert(hex(a[k]));
        } else {
            assert(hex(b[k - 32]));
        }
    }
}

// ----- sets of hashes ------------------------------------------------------------------

/// Whether hashes are listed in order and once each.
pub open spec fn ascending(list: Seq<BlobHash>) -> bool {
    forall|i: int, j: int|
        0 <= i < j < list.len() ==> (#[trigger] list[i]).rank() < (#[trigger] list[j]).rank()
}

/// Puts a hash into an ordered set.
pub fn insert_hash(list: &mut Vec<BlobHash>, hash: BlobHash)
    requires
        ascending(old(list)@),
    ensures
        ascending(final(list)@),
        forall|h: BlobHash|
            #[trigger] final(list)@.contains(h) <==> (old(list)@.contains(h) || h == hash),
{
    let mut at: usize = 0;
    while at < list.len() && list[at].before(&hash)
        invariant
            at <= list@.len(),
            *list == *old(list),
            forall|k: int| 0 <= k < at ==> (#[trigger] list@[k]).rank() < hash.rank(),
        decreases list@.len() - at,
    {
        at = at + 1;
    }
    if at < list.len() && list[at] == hash {
        return ;
    }
    let ghost was = list@;
    proof {
        if at < list@.len() {
            if was[at as int].rank() == hash.rank() {
                rank_separates(was[at as int], hash);
            }
        }
        assert forall|k: int| at <= k < was.len() implies hash.rank() < (
        #[trigger] was[k]).rank() by {
            if k > at {
                assert(was[at as int].rank() < was[k].rank());
            }
        }
    }
    list.insert(at, hash);
    proof {
        let now = list@;
        assert forall|i: int, j: int| 0 <= i < j < now.len() implies (#[trigger] now[i]).rank() < (
        #[trigger] now[j]).rank() by {
            let a = if i < at {
                was[i]
            } else {
                was[i - 1]
            };
            let b = if j < at {
                was[j]
            } else {
                was[j - 1]
            };
            if i != at {
                assert(now[i] == a);
            }
            if j != at {
                assert(now[j] == b);
            }
        }
        assert forall|h: BlobHash| #[trigger] now.contains(h) implies was.contains(h) || h == hash by {
            let i = choose|i: int| 0 <= i < now.len() && now[i] == h;
            if i < at {
                assert(was[i] == h);
            } else if i > at {
                assert(was[i - 1] == h);
            }
        }
        assert forall|h: BlobHash| was.contains(h) || h == hash implies #[trigger] now.contains(
            h,
        ) by {
            if h == hash {
                assert(now[at as int] == h);
            } else {
                let i = choose|i: int| 0 <= i < was.len() && was[i] == h;
                if i < at {
                    assert(now[i] == h);
                } else {
                    assert(now[i + 1] == h);
                }
            }
        }
    }
}

/// Whether a hash is in a list.
pub fn has_hash(list: &Vec<BlobHash>, hash: BlobHash) -> (answer: bool)
    ensures
        answer == list@.contains(hash),
{
    let mut at: usize = 0;
    while at < list.len()
        invariant
            at <= list@.len(),
            forall|k: int| 0 <= k < at ==> list@[k] != hash,
        decreases list@.len() - at,
    {
        if list[at] == hash {
            proof {
                assert(list@[at as int] == hash);
            }
            return true;
        }
        at = at + 1;
    }
    false
}

// ----- which assets a board references -------------------------------------------------

/// Whether a kind names an asset. Every kind is listed, so that a new one has to be decided
/// about. The kinds that carry an opaque model have nothing taken out of it.
pub open spec fn names_asset(kind: ItemKind, id: Seq<char>) -> bool {
    match kind {
        ItemKind::Image { asset_id } => asset_id@ == id,
        ItemKind::Document { asset_id, .. } => asset_id@ == id,
        ItemKind::LinkPreview { thumbnail, favicon, .. } => (thumbnail is Some && thumbnail->0@
            == id) || (favicon is Some && favicon->0@ == id),
        ItemKind::Embed { thumbnail, favicon, .. } => (thumbnail is Some && thumbnail->0@ == id)
            || (favicon is Some && favicon->0@ == id),
        ItemKind::Sticky { .. } => false,
        ItemKind::Text { .. } => false,
        ItemKind::Ink { .. } => false,
        ItemKind::Connector { .. } => false,
        ItemKind::Frame { .. } => false,
        ItemKind::Shape { .. } => false,
        ItemKind::Group => false,
        ItemKind::Table { .. } => false,
        ItemKind::Chart { .. } => false,
        ItemKind::MindMap { .. } => false,
        ItemKind::Kanban { .. } => false,
        ItemKind::Agent { .. } => false,
        ItemKind::FileTree { .. } => false,
        ItemKind::AgentNote { .. } => false,
        ItemKind::Browser { .. } => false,
    }
}

/// Whether any item names the asset with this hash.
pub open spec fn references(items: Seq<Item>, hash: BlobHash) -> bool {
    exists|i: int, id: Seq<char>|
        0 <= i < items.len() && #[trigger] names_asset(items[i].kind, id) && hash_of(id) == Some(
            hash,
        )
}

fn take_id(out: &mut Vec<BlobHash>, id: &Option<String>)
    requires
        ascending(old(out)@),
    ensures
        ascending(final(out)@),
        forall|h: BlobHash|
            #[trigger] final(out)@.contains(h) <==> (old(out)@.contains(h) || (id is Some
                && hash_of(id->0@) == Some(h))),
{
    if let Some(id) = id {
        if let Some(hash) = BlobHash::parse(id.as_str()) {
            insert_hash(out, hash);
        }
    }
}

fn take_text(out: &mut Vec<BlobHash>, id: &String)
    requires
        ascending(old(out)@),
    ensures
        ascending(final(out)@),
        forall|h: BlobHash|
            #[trigger] final(out)@.contains(h) <==> (old(out)@.contains(h) || hash_of(id@)
                == Some(h)),
{
    if let Some(hash) = BlobHash::parse(id.as_str()) {
        insert_hash(out, hash);
    }
}

/// Every asset that items name, in order and once each. An id that is no hash is dropped
/// before it can reach an address.
pub fn hashes_of(items: &Vec<Item>) -> (hashes: Vec<BlobHash>)
    ensures
        ascending(hashes@),
        forall|h: BlobHash| #[trigger] hashes@.contains(h) <==> references(items@, h),
{
    let mut out: Vec<BlobHash> = Vec::new();
    let mut at: usize = 0;
    while at < items.len()
        invariant
            at <= items@.len(),
            ascending(out@),
            forall|h: BlobHash|
                #[trigger] out@.contains(h) <==> references(items@.take(at as int), h),
        decreases items@.len() - at,
    {
        let ghost before = out@;
        match &items[at].kind {
            ItemKind::Image { asset_id } => take_text(&mut out, asset_id),
            ItemKind::Document { asset_id, .. } => take_text(&mut out, asset_id),
            ItemKind::LinkPreview { thumbnail, favicon, .. } => {
                take_id(&mut out, thumbnail);
                take_id(&mut out, favicon);
            },
            ItemKind::Embed { thumbnail, favicon, .. } => {
                take_id(&mut out, thumbnail);
                take_id(&mut out, favicon);
            },
            ItemKind::Sticky { .. }
            | ItemKind::Text { .. }
            | ItemKind::Ink { .. }
            | ItemKind::Connector { .. }
            | ItemKind::Frame { .. }
            | ItemKind::Shape { .. }
            | ItemKind::Group => {},
            ItemKind::Table { .. }
            | ItemKind::Chart { .. }
            | ItemKind::MindMap { .. }
            | ItemKind::Kanban { .. }
            | ItemKind::Agent { .. }
            | ItemKind::FileTree { .. }
            | ItemKind::AgentNote { .. }
            | ItemKind::Browser { .. } => {},
        }
        proof {
            let seen = items@.take(at as int);
            let next = items@.take(at as int + 1);
            let kind = items@[at as int].kind;
            assert forall|h: BlobHash| #[trigger] out@.contains(h) implies references(next, h) by {
                if before.contains(h) {
                    assert(references(seen, h));
                    let (i, id) = choose|i: int, id: Seq<char>|
                        0 <= i < seen.len() && #[trigger] names_asset(seen[i].kind, id) && hash_of(
                            id,
                        ) == Some(h);
                    assert(names_asset(next[i].kind, id));
                } else {
                    one_more_names(next, at as int, kind, h);
                }
            }
            assert forall|h: BlobHash| references(next, h) implies #[trigger] out@.contains(h) by {
                let (i, id) = choose|i: int, id: Seq<char>|
                    0 <= i < next.len() && #[trigger] names_asset(next[i].kind, id) && hash_of(id)
                        == Some(h);
                if i < at {
                    assert(names_asset(seen[i].kind, id));
                    assert(references(seen, h));
                    assert(before.contains(h));
                }
            }
        }
        at = at + 1;
    }
    proof {
        assert(items@.take(items@.len() as int) =~= items@);
    }
    out
}

proof fn one_more_names(items: Seq<Item>, at: int, kind: ItemKind, hash: BlobHash)
    requires
        0 <= at < items.len(),
        items[at].kind == kind,
        match kind {
            ItemKind::Image { asset_id } => hash_of(asset_id@) == Some(hash),
            ItemKind::Document { asset_id, .. } => hash_of(asset_id@) == Some(hash),
            ItemKind::LinkPreview { thumbnail, favicon, .. } => (thumbnail is Some && hash_of(
                thumbnail->0@,
            ) == Some(hash)) || (favicon is Some && hash_of(favicon->0@) == Some(hash)),
            ItemKind::Embed { thumbnail, favicon, .. } => (thumbnail is Some && hash_of(
                thumbnail->0@,
            ) == Some(hash)) || (favicon is Some && hash_of(favicon->0@) == Some(hash)),
            _ => false,
        },
    ensures
        references(items, hash),
{
    let id: Seq<char> = match kind {
        ItemKind::Image { asset_id } => asset_id@,
        ItemKind::Document { asset_id, .. } => asset_id@,
        ItemKind::LinkPreview { thumbnail, favicon, .. } => if thumbnail is Some && hash_of(
            thumbnail->0@,
        ) == Some(hash) {
            thumbnail->0@
        } else {
            favicon->0@
        },
        ItemKind::Embed { thumbnail, favicon, .. } => if thumbnail is Some && hash_of(
            thumbnail->0@,
        ) == Some(hash) {
            thumbnail->0@
        } else {
            favicon->0@
        },
        _ => Seq::empty(),
    };
    assert(names_asset(items[at].kind, id));
}

// ----- hashes in an answer -------------------------------------------------------------

/// The hexadecimal digits a text ends with.
pub open spec fn hex_tail(text: Seq<char>) -> Seq<char>
    decreases text.len(),
{
    if text.len() > 0 && hex(text.last()) {
        hex_tail(text.drop_last()).push(text.last())
    } else {
        Seq::empty()
    }
}

/// Every run of exactly 64 hexadecimal digits in a text, in order, as hashes. Whatever
/// stands between the runs does not matter.
pub open spec fn hashes_read(text: Seq<char>) -> Seq<BlobHash>
    decreases text.len(),
{
    if text.len() == 0 {
        Seq::empty()
    } else if !hex(text.last()) {
        hashes_read(text.drop_last())
    } else {
        let run = hex_tail(text);
        let before = if run.len() <= text.len() && run.len() > 0 {
            hashes_read(text.take(text.len() - run.len()))
        } else {
            Seq::empty()
        };
        match hash_of(run) {
            Some(hash) => before.push(hash),
            None => before,
        }
    }
}

proof fn hex_tail_is_the_run(text: Seq<char>, from: int)
    requires
        0 <= from <= text.len(),
        forall|k: int| from <= k < text.len() ==> hex(#[trigger] text[k]),
        from > 0 ==> !hex(text[from - 1]),
    ensures
        hex_tail(text) == text.skip(from),
    decreases text.len(),
{
    if from < text.len() {
        assert(hex(text[text.len() - 1]));
        hex_tail_is_the_run(text.drop_last(), from);
        assert(text.drop_last().skip(from).push(text.last()) =~= text.skip(from));
    } else {
        assert(text.skip(from) =~= Seq::<char>::empty());
    }
}

proof fn a_run_closes(text: Seq<char>, from: int)
    requires
        0 <= from <= text.len(),
        forall|k: int| from <= k < text.len() ==> hex(#[trigger] text[k]),
        from > 0 ==> !hex(text[from - 1]),
    ensures
        hashes_read(text) == (match hash_of(text.skip(from)) {
            Some(hash) => hashes_read(text.take(from)).push(hash),
            None => hashes_read(text.take(from)),
        }),
{
    if from < text.len() {
        hex_tail_is_the_run(text, from);
        assert(hex(text[text.len() - 1]));
    } else {
        assert(text.take(from) =~= text);
    }
}

/// Every hash in an answer, whatever its framing: a run of hexadecimal digits of any other
/// length is not one.
pub fn hashes_in(body: &str) -> (hashes: Vec<BlobHash>)
    ensures
        hashes@ == hashes_read(body@),
{
    let chars = chars_of(body);
    let mut out: Vec<BlobHash> = Vec::new();
    let mut from: usize = 0;
    let mut at: usize = 0;
    proof {
        assert(body@.take(0) =~= Seq::<char>::empty());
    }
    while at < chars.len()
        invariant
            from <= at <= chars@.len(),
            chars@ == body@,
            forall|k: int| from <= k < at ==> hex(#[trigger] body@[k]),
            from > 0 ==> !hex(body@[from - 1]),
            out@ == hashes_read(body@.take(from as int)),
        decreases chars@.len() - at,
    {
        if !is_hex(chars[at]) {
            let token = text_of(&chars, from, at);
            proof {
                let done = body@.take(at as int);
                a_run_closes(done, from as int);
                assert(done.take(from as int) =~= body@.take(from as int));
                assert(done.skip(from as int) =~= token@);
                assert(body@.take(at as int + 1).drop_last() =~= done);
            }
            if let Some(hash) = BlobHash::parse(token.as_str()) {
                out.push(hash);
            }
            from = at + 1;
        }
        at = at + 1;
    }
    let token = text_of(&chars, from, at);
    proof {
        assert(body@.take(at as int) =~= body@);
        a_run_closes(body@, from as int);
        assert(body@.skip(from as int) =~= token@);
    }
    if let Some(hash) = BlobHash::parse(token.as_str()) {
        out.push(hash);
    }
    out
}

// ----- what a hash is written as --------------------------------------------------------

/// A text names a hash exactly where it is 64 digits from `0` to `9` and `a` to `f`, the
/// letters of either case.
pub proof fn sixty_four_digits_name_a_hash(text: Seq<char>)
    ensures
        hash_of(text) is Some <==> text.len() == 64 && forall|k: int|
            0 <= k < text.len() ==> {
                let c = #[trigger] text[k];
                '0' <= c <= '9' || 'a' <= c <= 'f' || 'A' <= c <= 'F'
            },
{
    if text.len() == 64 && forall|k: int|
        0 <= k < text.len() ==> {
            let c = #[trigger] text[k];
            '0' <= c <= '9' || 'a' <= c <= 'f' || 'A' <= c <= 'F'
        } {
        assert(all_hex(text));
    }
    if all_hex(text) {
        assert forall|k: int| 0 <= k < text.len() implies {
            let c = #[trigger] text[k];
            '0' <= c <= '9' || 'a' <= c <= 'f' || 'A' <= c <= 'F'
        } by {
            assert(hex(text[k]));
        }
    }
}

/// What each digit is worth: sixteen values, in order, and a capital is worth what its small
/// letter is.
pub proof fn a_digit_is_worth_its_place()
    ensures
        hex_digit('0') == 0,
        hex_digit('1') == 1,
        hex_digit('2') == 2,
        hex_digit('3') == 3,
        hex_digit('4') == 4,
        hex_digit('5') == 5,
        hex_digit('6') == 6,
        hex_digit('7') == 7,
        hex_digit('8') == 8,
        hex_digit('9') == 9,
        hex_digit('a') == 10 && hex_digit('A') == 10,
        hex_digit('b') == 11 && hex_digit('B') == 11,
        hex_digit('c') == 12 && hex_digit('C') == 12,
        hex_digit('d') == 13 && hex_digit('D') == 13,
        hex_digit('e') == 14 && hex_digit('E') == 14,
        hex_digit('f') == 15 && hex_digit('F') == 15,
{
}

/// What an item refers to: a picture and a document by their asset, a card by its thumbnail
/// and its icon, and nothing else by anything. Whatever is not written as a hash is none.
pub proof fn an_item_refers_to_its_pictures(item: Item, h: BlobHash)
    ensures
        ({
            let refers = references(seq![item], h);
            let opt = |id: Option<String>| id is Some && hash_of(id->0@) == Some(h);
            match item.kind {
                ItemKind::Image { asset_id } => refers == (hash_of(asset_id@) == Some(h)),
                ItemKind::Document { asset_id, .. } => refers == (hash_of(asset_id@) == Some(h)),
                ItemKind::LinkPreview { thumbnail, favicon, .. } => refers == (opt(thumbnail)
                    || opt(favicon)),
                ItemKind::Embed { thumbnail, favicon, .. } => refers == (opt(thumbnail) || opt(
                    favicon,
                )),
                _ => !refers,
            }
        }),
{
    let items = seq![item];
    let one = |id: Seq<char>| names_asset(item.kind, id) && hash_of(id) == Some(h);
    if references(items, h) {
        let (i, id) = choose|i: int, id: Seq<char>|
            0 <= i < items.len() && #[trigger] names_asset(items[i].kind, id) && hash_of(id)
                == Some(h);
        assert(one(id));
    }
    assert forall|id: Seq<char>| #[trigger] one(id) implies references(items, h) by {
        assert(names_asset(items[0].kind, id));
    }
    match item.kind {
        ItemKind::Image { asset_id } => {
            if hash_of(asset_id@) == Some(h) {
                assert(one(asset_id@));
            }
        },
        ItemKind::Document { asset_id, .. } => {
            if hash_of(asset_id@) == Some(h) {
                assert(one(asset_id@));
            }
        },
        ItemKind::LinkPreview { thumbnail, favicon, .. } => {
            if thumbnail is Some && hash_of(thumbnail->0@) == Some(h) {
                assert(one(thumbnail->0@));
            }
            if favicon is Some && hash_of(favicon->0@) == Some(h) {
                assert(one(favicon->0@));
            }
        },
        ItemKind::Embed { thumbnail, favicon, .. } => {
            if thumbnail is Some && hash_of(thumbnail->0@) == Some(h) {
                assert(one(thumbnail->0@));
            }
            if favicon is Some && hash_of(favicon->0@) == Some(h) {
                assert(one(favicon->0@));
            }
        },
        _ => {},
    }
}

/// A board refers to what any of its items refers to.
pub proof fn a_board_refers_to_what_its_items_do(items: Seq<Item>, h: BlobHash)
    ensures
        references(items, h) <==> exists|i: int|
            0 <= i < items.len() && references(seq![#[trigger] items[i]], h),
{
    if references(items, h) {
        let (i, id) = choose|i: int, id: Seq<char>|
            0 <= i < items.len() && #[trigger] names_asset(items[i].kind, id) && hash_of(id)
                == Some(h);
        assert(names_asset(seq![items[i]][0].kind, id));
        assert(references(seq![items[i]], h));
    }
    if exists|i: int| 0 <= i < items.len() && references(seq![#[trigger] items[i]], h) {
        let i = choose|i: int| 0 <= i < items.len() && references(seq![#[trigger] items[i]], h);
        let one = seq![items[i]];
        let (k, id) = choose|k: int, id: Seq<char>|
            0 <= k < one.len() && #[trigger] names_asset(one[k].kind, id) && hash_of(id) == Some(
                h,
            );
        assert(names_asset(items[i].kind, id));
    }
}

proof fn a_tail_is_of_the_end(front: Seq<char>, end: Seq<char>)
    requires
        hex_tail(end).len() < end.len(),
    ensures
        hex_tail(front + end) == hex_tail(end),
    decreases end.len(),
{
    let all = front + end;
    assert(all.last() == end.last());
    if hex(end.last()) {
        assert(all.drop_last() =~= front + end.drop_last());
        a_tail_is_of_the_end(front, end.drop_last());
    }
}

proof fn a_tail_is_no_longer(text: Seq<char>)
    ensures
        hex_tail(text).len() <= text.len(),
        text.len() > 0 && !hex(text[0]) ==> hex_tail(text).len() < text.len(),
        text.len() > 0 && hex(text.last()) ==> hex_tail(text).len() > 0,
    decreases text.len(),
{
    if text.len() > 0 && hex(text.last()) {
        a_tail_is_no_longer(text.drop_last());
    }
}

proof fn a_run_is_its_tail(front: Seq<char>, run: Seq<char>)
    requires
        all_hex(run),
        front.len() > 0 ==> !hex(front.last()),
    ensures
        hex_tail(front + run) == run,
    decreases run.len(),
{
    let all = front + run;
    if run.len() == 0 {
        assert(all =~= front);
        assert(run =~= Seq::<char>::empty());
    } else {
        let less = run.drop_last();
        assert(hex(run[run.len() - 1]));
        assert forall|k: int| 0 <= k < less.len() implies hex(#[trigger] less[k]) by {
            assert(hex(run[k]));
        }
        assert(all.drop_last() =~= front + less);
        a_run_is_its_tail(front, less);
        assert(less.push(run.last()) =~= run);
    }
}

/// The hashes of an answer are the runs of 64 digits in it, in order: a run between two
/// other characters, or at an end, adds its hash to those before it and behind it, and a run
/// of any other length adds none.
pub proof fn a_run_of_digits_is_read_where_it_stands(
    front: Seq<char>,
    run: Seq<char>,
    back: Seq<char>,
)
    requires
        run.len() > 0,
        forall|k: int|
            0 <= k < run.len() ==> {
                let c = #[trigger] run[k];
                '0' <= c <= '9' || 'a' <= c <= 'f' || 'A' <= c <= 'F'
            },
        front.len() > 0 ==> !hex(front.last()),
        back.len() > 0 ==> !hex(back[0]),
    ensures
        run.len() == 64 ==> hash_of(run) is Some && hashes_read(front + run + back)
            == hashes_read(front).push(hash_of(run)->0) + hashes_read(back),
        run.len() != 64 ==> hashes_read(front + run + back) == hashes_read(front) + hashes_read(
            back,
        ),
    decreases back.len(),
{
    assert(all_hex(run));
    sixty_four_digits_name_a_hash(run);
    let all = front + run + back;
    if back.len() == 0 {
        assert(all =~= front + run);
        a_run_is_its_tail(front, run);
        assert(hex(run[run.len() - 1]));
        assert(all.last() == run.last());
        assert(all.take(all.len() - run.len()) =~= front);
        assert(hashes_read(back) =~= Seq::<BlobHash>::empty());
        assert(hashes_read(front) + hashes_read(back) =~= hashes_read(front));
        if run.len() == 64 {
            assert(hashes_read(front).push(hash_of(run)->0) + hashes_read(back) =~= hashes_read(
                front,
            ).push(hash_of(run)->0));
        }
    } else {
        let base = if run.len() == 64 {
            hashes_read(front).push(hash_of(run)->0)
        } else {
            hashes_read(front)
        };
        assert(all.last() == back.last());
        a_tail_is_no_longer(back);
        if !hex(back.last()) {
            let less = back.drop_last();
            assert(all.drop_last() =~= front + run + less);
            a_run_of_digits_is_read_where_it_stands(front, run, less);
        } else {
            let tail = hex_tail(back);
            a_tail_is_of_the_end(front + run, back);
            assert(front + run + back =~= (front + run) + back);
            let less = back.take(back.len() - tail.len());
            assert(all.take(all.len() - tail.len()) =~= front + run + less);
            a_run_of_digits_is_read_where_it_stands(front, run, less);
            match hash_of(tail) {
                Some(hash) => {
                    assert((base + hashes_read(less)).push(hash) =~= base + hashes_read(
                        less,
                    ).push(hash));
                },
                None => {},
            }
        }
    }
}

/// Whether a text is digits and small letters from `a` to `f` alone.
spec fn small(text: Seq<char>) -> bool {
    forall|k: int|
        0 <= k < text.len() ==> {
            let c = #[trigger] text[k];
            '0' <= c <= '9' || 'a' <= c <= 'f'
        }
}

proof fn small_text_reads_back(text: Seq<char>)
    requires
        small(text),
    ensures
        hex_text(hex_value(text), text.len()) == text,
    decreases text.len(),
{
    if text.len() > 0 {
        let rest = text.drop_last();
        let c = text[text.len() - 1];
        assert('0' <= c <= '9' || 'a' <= c <= 'f');
        assert(small(rest)) by {
            assert forall|k: int| 0 <= k < rest.len() implies {
                let c = #[trigger] rest[k];
                '0' <= c <= '9' || 'a' <= c <= 'f'
            } by {
                let d = text[k];
                assert('0' <= d <= '9' || 'a' <= d <= 'f');
            }
        }
        small_text_reads_back(rest);
        assert(hex_digit(c) < 16);
        assert(hex_value(text) / 16 == hex_value(rest));
        assert(hex_value(text) % 16 == hex_digit(c));
        assert(hex_char(hex_digit(c)) == c);
        assert(rest.push(c) =~= text);
    } else {
        assert(text =~= Seq::<char>::empty());
    }
}

/// A hash is written as it was read: 64 digits in small letters name one hash, and that hash
/// is written as those 64 digits.
pub proof fn a_hash_is_written_as_it_was_read(text: Seq<char>)
    requires
        text.len() == 64,
        forall|k: int|
            0 <= k < text.len() ==> {
                let c = #[trigger] text[k];
                '0' <= c <= '9' || 'a' <= c <= 'f'
            },
    ensures
        hash_of(text) is Some,
        hash_of(text)->0.digits() == text,
{
    assert(small(text));
    assert forall|k: int| 0 <= k < text.len() implies hex(#[trigger] text[k]) by {
        let c = text[k];
        assert('0' <= c <= '9' || 'a' <= c <= 'f');
    }
    let (a, b) = (text.take(32), text.skip(32));
    assert(small(a)) by {
        assert forall|k: int| 0 <= k < a.len() implies {
            let c = #[trigger] a[k];
            '0' <= c <= '9' || 'a' <= c <= 'f'
        } by {
            let d = text[k];
            assert('0' <= d <= '9' || 'a' <= d <= 'f');
        }
    }
    assert(small(b)) by {
        assert forall|k: int| 0 <= k < b.len() implies {
            let c = #[trigger] b[k];
            '0' <= c <= '9' || 'a' <= c <= 'f'
        } by {
            let d = text[k + 32];
            assert('0' <= d <= '9' || 'a' <= d <= 'f');
        }
    }
    assert(all_hex(a));
    assert(all_hex(b));
    hex_value_bound(a);
    hex_value_bound(b);
    pow16_of_32();
    small_text_reads_back(a);
    small_text_reads_back(b);
    assert(a + b =~= text);
}

proof fn a_small_digit_stands_where_it_counts(d: nat, e: nat)
    requires
        d < e < 16,
    ensures
        hex_char(d) < hex_char(e),
{
    if d < 10 {
        assert(hex_char(d) as u32 == 48 + d);
    } else {
        assert(hex_char(d) as u32 == 97 + d - 10);
    }
    if e < 10 {
        assert(hex_char(e) as u32 == 48 + e);
    } else {
        assert(hex_char(e) as u32 == 97 + e - 10);
    }
}

proof fn digits_keep_the_order(a: nat, b: nat, digits: nat)
    requires
        a < b,
        b < pow16(digits),
    ensures
        precedes(hex_text(a, digits), hex_text(b, digits)),
    decreases digits,
{
    if digits > 0 {
        let less = (digits - 1) as nat;
        let (x, y) = (hex_text(a / 16, less), hex_text(b / 16, less));
        hex_text_reads_back(a / 16, less);
        hex_text_reads_back(b / 16, less);
        if a / 16 < b / 16 {
            digits_keep_the_order(a / 16, b / 16, less);
            order_ignores_what_follows(x, y, hex_char(a % 16), hex_char(b % 16));
        } else {
            assert(a / 16 == b / 16);
            a_small_digit_stands_where_it_counts(a % 16, b % 16);
            the_last_character_decides(x, hex_char(a % 16), hex_char(b % 16));
        }
    }
}

proof fn the_head_decides(a: Seq<char>, b: Seq<char>, u: Seq<char>, v: Seq<char>)
    requires
        a.len() == b.len(),
    ensures
        precedes(a, b) ==> precedes(a + u, b + v),
        precedes(u, v) ==> precedes(a + u, a + v),
    decreases a.len(),
{
    if a.len() > 0 {
        assert((a + u)[0] == a[0] && (b + v)[0] == b[0] && (a + v)[0] == a[0]);
        assert((a + u).skip(1) =~= a.skip(1) + u);
        assert((b + v).skip(1) =~= b.skip(1) + v);
        assert((a + v).skip(1) =~= a.skip(1) + v);
        the_head_decides(a.skip(1), b.skip(1), u, v);
    } else {
        assert(a + u =~= u);
        assert(a + v =~= v);
    }
}

/// Hashes stand in the order of their digits, and of their two halves, the high one first.
pub proof fn hashes_stand_in_the_order_of_their_digits(a: BlobHash, b: BlobHash)
    ensures
        a.rank() < b.rank() <==> a.high < b.high || (a.high == b.high && a.low < b.low),
        a.rank() < b.rank() <==> precedes(a.digits(), b.digits()),
{
    by_halves(a, b);
    by_halves(b, a);
    if a.rank() < b.rank() {
        smaller_comes_first(a, b);
    } else if b.rank() < a.rank() {
        smaller_comes_first(b, a);
        the_order_is_total(a.digits(), b.digits());
    } else {
        rank_separates(a, b);
        the_order_is_total(a.digits(), a.digits());
    }
}

proof fn by_halves(a: BlobHash, b: BlobHash)
    ensures
        a.high < b.high ==> a.rank() < b.rank(),
        a.high == b.high ==> (a.rank() < b.rank() <==> a.low < b.low),
{
    let base: int = u128::MAX + 1;
    let (x, y) = (a.high as int, b.high as int);
    if x < y {
        assert((x + 1) * base <= y * base) by (nonlinear_arith)
            requires
                x + 1 <= y,
                base > 0,
        ;
        assert((x + 1) * base == x * base + base) by (nonlinear_arith);
    }
}

proof fn smaller_comes_first(a: BlobHash, b: BlobHash)
    requires
        a.rank() < b.rank(),
    ensures
        precedes(a.digits(), b.digits()),
{
    by_halves(a, b);
    by_halves(b, a);
    pow16_of_32();
    let (x, y) = (hex_text(a.high as nat, 32), hex_text(b.high as nat, 32));
    let (u, v) = (hex_text(a.low as nat, 32), hex_text(b.low as nat, 32));
    hex_text_reads_back(a.high as nat, 32);
    hex_text_reads_back(b.high as nat, 32);
    if a.high < b.high {
        digits_keep_the_order(a.high as nat, b.high as nat, 32);
    } else {
        digits_keep_the_order(a.low as nat, b.low as nat, 32);
    }
    the_head_decides(x, y, u, v);
}

} // verus!
