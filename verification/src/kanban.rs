//! Kanban boards on the board: what one holds, what a new one starts with, and its words.
//!
//! How a kanban is laid out is the layout engine's. What is decided here is what is in it.

use vstd::prelude::*;

use crate::text::{blank, only_white_space_is_trimmed_to_nothing, texts, trim, trimmed};

verus! {

/// A column: its title, how many cards it should hold at most, and its cards' labels.
#[derive(Clone, Debug)]
pub struct Column {
    pub title: String,
    pub wip_limit: Option<u32>,
    pub cards: Vec<String>,
}

/// A kanban board.
#[derive(Clone, Debug)]
pub struct Kanban {
    pub title: String,
    pub columns: Vec<Column>,
}

/// A column by what it reads.
pub struct Lane {
    pub title: Seq<char>,
    pub wip_limit: Option<u32>,
    pub cards: Seq<Seq<char>>,
}

impl View for Column {
    type V = Lane;

    open spec fn view(&self) -> Lane {
        Lane { title: self.title@, wip_limit: self.wip_limit, cards: texts(self.cards@) }
    }
}

/// The columns by what they read.
pub open spec fn lanes(columns: Seq<Column>) -> Seq<Lane> {
    columns.map_values(|column: Column| column@)
}

impl Column {
    /// Whether a column holds more than it should.
    pub open spec fn breached(self) -> bool {
        self.wip_limit is Some && self.cards@.len() > self.wip_limit->0
    }

    /// Whether a column holds more than it should.
    pub fn is_breached(&self) -> (answer: bool)
        ensures
            answer == self.breached(),
    {
        match self.wip_limit {
            Some(limit) => self.cards.len() > limit as usize,
            None => false,
        }
    }
}

/// How many cards the columns hold together.
pub open spec fn cards_in(lanes: Seq<Lane>) -> nat
    decreases lanes.len(),
{
    if lanes.len() == 0 {
        0
    } else {
        cards_in(lanes.drop_last()) + lanes.last().cards.len()
    }
}

fn new_column(title: &str, wip_limit: Option<u32>) -> (column: Column)
    ensures
        column@.title == title@,
        column@.wip_limit == wip_limit,
        column@.cards == Seq::<Seq<char>>::empty(),
{
    let column = Column { title: title.to_owned(), wip_limit, cards: Vec::new() };
    proof {
        assert(column@.cards =~= Seq::<Seq<char>>::empty());
    }
    column
}

fn add_card(column: &mut Column, label: &str)
    ensures
        final(column)@ == (Lane { cards: old(column)@.cards.push(label@), ..old(column)@ }),
{
    column.cards.push(label.to_owned());
    proof {
        assert(column@.cards =~= old(column)@.cards.push(label@));
    }
}

/// What a new kanban holds: three columns with a few cards. The middle one is full, and not
/// over its limit: a board that started in breach would read as an error.
pub open spec fn starting_lanes() -> Seq<Lane> {
    seq![
        Lane {
            title: "To do"@,
            wip_limit: None,
            cards: seq!["Measure the atlas"@, "Cull by band"@, "Fold the branches"@],
        },
        Lane {
            title: "Doing"@,
            wip_limit: Some(2),
            cards: seq!["Shape the labels"@, "Route the connectors"@],
        },
        Lane { title: "Done"@, wip_limit: None, cards: seq!["Pin the breakdown"@] },
    ]
}

/// What the kanban tool places.
pub fn default_kanban() -> (board: Kanban)
    ensures
        board.title@ == "Sprint"@,
        lanes(board.columns@) == starting_lanes(),
        forall|i: int| 0 <= i < board.columns@.len() ==> !(#[trigger] board.columns@[i]).breached(),
        cards_in(lanes(board.columns@)) == 6,
{
    let mut todo = new_column("To do", None);
    add_card(&mut todo, "Measure the atlas");
    add_card(&mut todo, "Cull by band");
    add_card(&mut todo, "Fold the branches");
    let mut doing = new_column("Doing", Some(2));
    add_card(&mut doing, "Shape the labels");
    add_card(&mut doing, "Route the connectors");
    let mut done = new_column("Done", None);
    add_card(&mut done, "Pin the breakdown");
    let mut columns: Vec<Column> = Vec::new();
    columns.push(todo);
    columns.push(doing);
    columns.push(done);
    proof {
        let want = starting_lanes();
        assert(todo@.cards =~= want[0].cards);
        assert(doing@.cards =~= want[1].cards);
        assert(done@.cards =~= want[2].cards);
        assert(lanes(columns@) =~= want);
        let three = lanes(columns@);
        assert(three.drop_last().drop_last().drop_last() =~= Seq::<Lane>::empty());
        assert(cards_in(three.drop_last().drop_last().drop_last()) == 0);
        assert(three.drop_last().last() == three[1]);
        assert(three.drop_last().drop_last().last() == three[0]);
        assert(cards_in(three.drop_last().drop_last()) == 3);
        assert(cards_in(three.drop_last()) == 5);
    }
    Kanban { title: "Sprint".to_owned(), columns }
}

/// The kanban a token names, given what it reads as: one that cannot be read is a new one.
pub fn decode(read: Option<Kanban>) -> (board: Kanban)
    ensures
        read is Some ==> board == read->0,
        read is None ==> board.title@ == "Sprint"@ && lanes(board.columns@) == starting_lanes(),
{
    match read {
        Some(board) => board,
        None => default_kanban(),
    }
}

/// `words` with `text` after them, unless it is blank.
pub open spec fn with_word(words: Seq<Seq<char>>, text: Seq<char>) -> Seq<Seq<char>> {
    if trimmed(text).len() == 0 {
        words
    } else {
        words.push(text)
    }
}

/// `words` with each of `texts` after them that is not blank.
pub open spec fn with_words(words: Seq<Seq<char>>, texts: Seq<Seq<char>>) -> Seq<Seq<char>>
    decreases texts.len(),
{
    if texts.len() == 0 {
        words
    } else {
        with_word(with_words(words, texts.drop_last()), texts.last())
    }
}

/// The words of columns: each title and then its cards' labels.
pub open spec fn lane_words(words: Seq<Seq<char>>, lanes: Seq<Lane>) -> Seq<Seq<char>>
    decreases lanes.len(),
{
    if lanes.len() == 0 {
        words
    } else {
        let before = lane_words(words, lanes.drop_last());
        with_words(with_word(before, lanes.last().title), lanes.last().cards)
    }
}

/// Adds a text to a list of words, unless it is blank.
pub fn push_word(words: &mut Vec<String>, text: &str)
    ensures
        texts(final(words)@) == with_word(texts(old(words)@), text@),
{
    if !trim(text).as_str().is_empty() {
        words.push(text.to_owned());
        proof {
            assert(texts(words@) =~= texts(old(words)@).push(text@));
        }
    }
}

/// Every word on a board, in reading order: the title, then each column's title and its
/// cards' labels. What is blank is no word.
pub fn words(board: &Kanban) -> (list: Vec<String>)
    ensures
        texts(list@) == lane_words(
            with_word(Seq::empty(), board.title@),
            lanes(board.columns@),
        ),
{
    let mut list: Vec<String> = Vec::new();
    proof {
        assert(texts(list@) =~= Seq::<Seq<char>>::empty());
    }
    push_word(&mut list, board.title.as_str());
    let ghost start = texts(list@);
    let ghost all = lanes(board.columns@);
    let mut at: usize = 0;
    proof {
        assert(all.take(0) =~= Seq::<Lane>::empty());
    }
    while at < board.columns.len()
        invariant
            at <= board.columns@.len(),
            all == lanes(board.columns@),
            texts(list@) == lane_words(start, all.take(at as int)),
        decreases board.columns@.len() - at,
    {
        let column = &board.columns[at];
        push_word(&mut list, column.title.as_str());
        let ghost titled = texts(list@);
        let ghost cards = texts(column.cards@);
        let mut card: usize = 0;
        proof {
            assert(cards.take(0) =~= Seq::<Seq<char>>::empty());
        }
        while card < column.cards.len()
            invariant
                card <= column.cards@.len(),
                cards == texts(column.cards@),
                texts(list@) == with_words(titled, cards.take(card as int)),
            decreases column.cards@.len() - card,
        {
            push_word(&mut list, column.cards[card].as_str());
            card = card + 1;
            proof {
                assert(cards.take(card as int).drop_last() =~= cards.take(card - 1));
            }
        }
        proof {
            assert(cards.take(cards.len() as int) =~= cards);
            assert(all.take(at as int + 1).drop_last() =~= all.take(at as int));
            assert(all.take(at as int + 1).last() == column@);
        }
        at = at + 1;
    }
    proof {
        assert(all.take(all.len() as int) =~= all);
    }
    list
}

/// Whether every text of a list says something.
pub open spec fn none_blank(words: Seq<Seq<char>>) -> bool {
    forall|i: int| 0 <= i < words.len() ==> trimmed(#[trigger] words[i]).len() > 0
}

proof fn with_words_grows(words: Seq<Seq<char>>, texts: Seq<Seq<char>>)
    ensures
        none_blank(words) ==> none_blank(with_words(words, texts)),
        forall|w: Seq<char>|
            words.contains(w) ==> #[trigger] with_words(words, texts).contains(w),
        forall|j: int|
            0 <= j < texts.len() && trimmed(#[trigger] texts[j]).len() > 0 ==> with_words(
                words,
                texts,
            ).contains(texts[j]),
    decreases texts.len(),
{
    if texts.len() > 0 {
        let rest = texts.drop_last();
        let before = with_words(words, rest);
        let all = with_words(words, texts);
        with_words_grows(words, rest);
        with_word_grows(before, texts.last());
        assert forall|w: Seq<char>| words.contains(w) implies #[trigger] all.contains(w) by {
            assert(before.contains(w));
        }
        assert forall|j: int| 0 <= j < texts.len() && trimmed(
            #[trigger] texts[j],
        ).len() > 0 implies all.contains(texts[j]) by {
            if j < rest.len() {
                assert(rest[j] == texts[j]);
                assert(before.contains(texts[j]));
            } else {
                assert(texts[j] == texts.last());
            }
        }
    }
}

proof fn with_word_grows(words: Seq<Seq<char>>, text: Seq<char>)
    ensures
        none_blank(words) ==> none_blank(with_word(words, text)),
        forall|w: Seq<char>| words.contains(w) ==> #[trigger] with_word(words, text).contains(w),
        trimmed(text).len() > 0 ==> with_word(words, text).contains(text),
{
    let all = with_word(words, text);
    assert forall|w: Seq<char>| words.contains(w) implies #[trigger] all.contains(w) by {
        let i = choose|i: int| 0 <= i < words.len() && words[i] == w;
        assert(all[i] == w);
    }
    if trimmed(text).len() > 0 {
        assert(all[words.len() as int] == text);
    }
}

proof fn lane_words_grow(words: Seq<Seq<char>>, lanes: Seq<Lane>)
    ensures
        none_blank(words) ==> none_blank(lane_words(words, lanes)),
        forall|w: Seq<char>|
            words.contains(w) ==> #[trigger] lane_words(words, lanes).contains(w),
    decreases lanes.len(),
{
    if lanes.len() > 0 {
        let before = lane_words(words, lanes.drop_last());
        let titled = with_word(before, lanes.last().title);
        lane_words_grow(words, lanes.drop_last());
        with_word_grows(before, lanes.last().title);
        with_words_grows(titled, lanes.last().cards);
        assert forall|w: Seq<char>| words.contains(w) implies #[trigger] lane_words(
            words,
            lanes,
        ).contains(w) by {
            assert(before.contains(w));
            assert(titled.contains(w));
        }
    }
}

/// A search finds every column and every card: whatever their place, a title or a label that
/// says something is among the words, and no word is blank.
pub proof fn every_label_can_be_found(title: Seq<char>, lanes: Seq<Lane>, i: int, j: int)
    requires
        0 <= i < lanes.len(),
        0 <= j < lanes[i].cards.len(),
    ensures
        ({
            let words = lane_words(with_word(Seq::empty(), title), lanes);
            &&& none_blank(words)
            &&& trimmed(title).len() > 0 ==> words.contains(title)
            &&& trimmed(lanes[i].title).len() > 0 ==> words.contains(lanes[i].title)
            &&& trimmed(lanes[i].cards[j]).len() > 0 ==> words.contains(lanes[i].cards[j])
        }),
    decreases lanes.len(),
{
    let start = with_word(Seq::empty(), title);
    with_word_grows(Seq::empty(), title);
    lane_words_grow(start, lanes);
    let before = lane_words(start, lanes.drop_last());
    let titled = with_word(before, lanes.last().title);
    let all = lane_words(start, lanes);
    with_word_grows(before, lanes.last().title);
    with_words_grows(titled, lanes.last().cards);
    if i < lanes.len() - 1 {
        every_label_can_be_found(title, lanes.drop_last(), i, j);
        assert(lanes.drop_last()[i] == lanes[i]);
        assert forall|w: Seq<char>| #[trigger] before.contains(w) implies all.contains(w) by {
            assert(titled.contains(w));
        }
    } else {
        assert(lanes[i] == lanes.last());
        let card = lanes[i].cards[j];
        if trimmed(lanes[i].title).len() > 0 {
            assert(titled.contains(lanes[i].title));
        }
    }
}

/// Whether a text says something: some character of it is no white space.
pub open spec fn says_something(text: Seq<char>) -> bool {
    exists|k: int| 0 <= k < text.len() && !blank(#[trigger] text[k])
}

proof fn saying_something_is_not_trimmed_away(text: Seq<char>)
    ensures
        says_something(text) <==> trimmed(text).len() > 0,
{
    only_white_space_is_trimmed_to_nothing(text);
}

/// Words are those texts of a list that say something, in its order.
pub proof fn words_are_what_says_something(words: Seq<Seq<char>>, list: Seq<Seq<char>>)
    ensures
        with_words(words, list) == words + list.filter(|text: Seq<char>| says_something(text)),
    decreases list.len(),
{
    reveal(Seq::filter);
    let kept = list.filter(|text: Seq<char>| says_something(text));
    if list.len() > 0 {
        words_are_what_says_something(words, list.drop_last());
        saying_something_is_not_trimmed_away(list.last());
        assert(with_words(words, list) =~= words + kept);
    } else {
        assert(words + kept =~= words);
    }
}

/// A board is read column by column, each from its title down, and one column more is read last.
pub proof fn a_board_is_read_column_by_column(words: Seq<Seq<char>>, lanes: Seq<Lane>, lane: Lane)
    ensures
        lane_words(words, Seq::empty()) == words,
        lane_words(words, lanes.push(lane)) == lane_words(words, lanes) + (seq![lane.title]
            + lane.cards).filter(|text: Seq<char>| says_something(text)),
        with_word(words, lane.title) == (if says_something(lane.title) {
            words.push(lane.title)
        } else {
            words
        }),
{
    let something = |text: Seq<char>| says_something(text);
    assert(lanes.push(lane).drop_last() =~= lanes);
    let before = lane_words(words, lanes);
    let titled = with_word(before, lane.title);
    let title = seq![lane.title];
    words_are_what_says_something(titled, lane.cards);
    saying_something_is_not_trimmed_away(lane.title);
    Seq::filter_distributes_over_add(title, lane.cards, something);
    reveal_with_fuel(Seq::filter, 2);
    assert(title.drop_last() =~= Seq::<Seq<char>>::empty());
    assert(title.last() == lane.title);
    assert(titled =~= before + title.filter(something));
    assert(lane_words(words, lanes.push(lane)) =~= before + (title + lane.cards).filter(something));
}

/// A column is over its limit where it has one and holds more cards than that.
pub proof fn a_column_is_over_its_limit_by_one_card(column: Column, limit: u32)
    ensures
        column.wip_limit is None ==> !column.breached(),
        column.wip_limit == Some(limit) && column.cards@.len() <= limit ==> !column.breached(),
        column.wip_limit == Some(limit) && column.cards@.len() >= limit + 1 ==> column.breached(),
{
}

/// What a new board starts with, column by column.
pub proof fn a_new_board_has_three_columns()
    ensures
        starting_lanes().len() == 3,
        starting_lanes()[0].title == "To do"@,
        starting_lanes()[0].wip_limit is None,
        starting_lanes()[0].cards == seq![
            "Measure the atlas"@,
            "Cull by band"@,
            "Fold the branches"@,
        ],
        starting_lanes()[1].title == "Doing"@,
        starting_lanes()[1].wip_limit == Some(2u32),
        starting_lanes()[1].cards == seq!["Shape the labels"@, "Route the connectors"@],
        starting_lanes()[2].title == "Done"@,
        starting_lanes()[2].wip_limit is None,
        starting_lanes()[2].cards == seq!["Pin the breakdown"@],
{
}

/// The cards of a board are those of its columns together.
pub proof fn cards_are_counted_column_by_column(lanes: Seq<Lane>, lane: Lane)
    ensures
        cards_in(Seq::empty()) == 0,
        cards_in(lanes.push(lane)) == cards_in(lanes) + lane.cards.len(),
{
    assert(lanes.push(lane).drop_last() =~= lanes);
}

/// A column is read by its title, its limit and its cards' labels.
pub proof fn a_column_is_read_by_its_labels(columns: Seq<Column>, k: int)
    ensures
        lanes(columns).len() == columns.len(),
        0 <= k < columns.len() ==> {
            &&& lanes(columns)[k].title == columns[k].title@
            &&& lanes(columns)[k].wip_limit == columns[k].wip_limit
            &&& lanes(columns)[k].cards == texts(columns[k].cards@)
        },
{
}

} // verus!
