//! The board library: every board on disk, listed without opening one, and the user's
//! filing of them.
//!
//! A board's content is its own file. Its filing (which space it is in, whether it is
//! starred, whether it is in Recently deleted) is about the collection, so it lives beside
//! the boards in one small sidecar, with the preferences that are also about the
//! collection. [`Library`] is that filing and the rows it is shown with. Whoever calls a
//! method that changes the filing writes the sidecar afterwards.
//!
//! Two paths are the same board when they name the same place, however they are spelt.

use vstd::prelude::*;

use crate::item::Color;
use crate::path::{
    a_slash_and_a_dot_change_no_place, components, components_of, drop_path, holds_path, normal,
    places, same_path, the_last_component_stands_behind_the_last_slash, the_root_has_no_components,
};
use crate::scalar::Scalar;
use crate::text::{
    blank, chars_of, comes_before, decimal, decimal_is_injective, decimal_of,
    joined, precedes, same, text_of, the_order_is_total, the_order_is_transitive, trim,
    trimmed, trimming_leaves_what_stands_between, without, without_absent, without_drops_exactly, without_is_all_but_one,
};

verus! {

/// The camera a board opens at, as `[x, y, zoom]`.
#[derive(Clone, Debug)]
pub struct StartView {
    pub board: String,
    pub camera: [Scalar; 3],
}

/// A space, which the interface calls a folder.
#[derive(Clone, Debug)]
pub struct SpaceRecord {
    pub name: String,
    pub boards: Vec<String>,
    pub pinned: bool,
}

/// A space by what it reads.
pub struct Folder {
    pub name: Seq<char>,
    pub boards: Seq<Seq<char>>,
    pub pinned: bool,
}

impl View for SpaceRecord {
    type V = Folder;

    open spec fn view(&self) -> Folder {
        Folder { name: self.name@, boards: places(self.boards@), pinned: self.pinned }
    }
}

/// Every space by what it reads, in order.
pub open spec fn folders(spaces: Seq<SpaceRecord>) -> Seq<Folder> {
    spaces.map_values(|space: SpaceRecord| space@)
}

/// One board in Recently deleted, and when it went in, in seconds since the epoch.
#[derive(Clone, Debug)]
pub struct TrashedBoard {
    pub path: String,
    pub at: u64,
}

impl TrashedBoard {
    /// When the board went in, in seconds since the epoch.
    pub fn when(&self) -> (at: u64)
        ensures
            at == self.at,
    {
        self.at
    }
}

/// Recently deleted by what it reads.
pub open spec fn bin(trashed: Seq<TrashedBoard>) -> Seq<(Seq<char>, u64)> {
    trashed.map_values(|board: TrashedBoard| (normal(board.path@), board.at))
}

/// The user's filing, and the preferences that belong to the collection rather than to any
/// one board.
///
/// `grid` and the six settings from `agent_display` to `speech` are carried and written
/// back unchanged; nothing reads them.
#[derive(Clone, Debug)]
pub struct Filing {
    pub spaces: Vec<SpaceRecord>,
    pub starred: Vec<String>,
    pub trashed: Vec<TrashedBoard>,
    /// `"light"`, `"dark"` or `"system"`.
    pub theme: Option<String>,
    pub grid: bool,
    pub minimap: bool,
    pub translucency: Option<bool>,
    pub link_previews: Option<bool>,
    pub align_objects: Option<bool>,
    pub agent_display: Option<String>,
    pub agent_provider: Option<String>,
    pub agent_chat_theme: Option<String>,
    pub browser_nodes: Option<bool>,
    pub worktrees: Option<bool>,
    pub speech: Option<String>,
    pub snap_to_grid: Option<bool>,
    /// `"plain"`, `"dots"`, `"crosses"` or `"lines"`.
    pub grid_pattern: Option<String>,
    /// Packed `0xRRGGBBAA`.
    pub grid_color: Option<i64>,
    pub glass_opacity: Option<u8>,
    /// `"teal"`, `"red"` or `"blue"`.
    pub accent: Option<String>,
    pub sync_server: Option<String>,
    pub sync_username: Option<String>,
    pub last_board: Option<String>,
    pub start_views: Vec<StartView>,
    pub attached_archives: Vec<String>,
}

impl Default for Filing {
    /// No spaces, nothing starred, nothing chosen.
    fn default() -> (filing: Filing)
        ensures
            filing.spaces@.len() == 0,
            filing.starred@.len() == 0,
            filing.trashed@.len() == 0,
            filing.start_views@.len() == 0,
            filing.attached_archives@.len() == 0,
            filing.theme is None,
            !filing.grid,
            !filing.minimap,
            filing.translucency is None,
            filing.link_previews is None,
            filing.align_objects is None,
            filing.agent_display is None,
            filing.agent_provider is None,
            filing.agent_chat_theme is None,
            filing.browser_nodes is None,
            filing.worktrees is None,
            filing.speech is None,
            filing.snap_to_grid is None,
            filing.grid_pattern is None,
            filing.grid_color is None,
            filing.glass_opacity is None,
            filing.accent is None,
            filing.sync_server is None,
            filing.sync_username is None,
            filing.last_board is None,
    {
        Filing {
            spaces: Vec::new(),
            starred: Vec::new(),
            trashed: Vec::new(),
            theme: None,
            grid: false,
            minimap: false,
            translucency: None,
            link_previews: None,
            align_objects: None,
            agent_display: None,
            agent_provider: None,
            agent_chat_theme: None,
            browser_nodes: None,
            worktrees: None,
            speech: None,
            snap_to_grid: None,
            grid_pattern: None,
            grid_color: None,
            glass_opacity: None,
            accent: None,
            sync_server: None,
            sync_username: None,
            last_board: None,
            start_views: Vec::new(),
            attached_archives: Vec::new(),
        }
    }
}

/// What a board file's own index says of it.
#[derive(Clone, Debug)]
pub struct BoardIndex {
    pub path: String,
    pub title: String,
    pub item_count: u64,
    pub modified: u64,
}

/// One row of the library.
#[derive(Clone, Debug)]
pub struct BoardCard {
    pub path: String,
    pub title: String,
    pub item_count: u64,
    pub modified: u64,
    pub starred: bool,
    /// When the board went into Recently deleted, if it is there.
    pub deleted: Option<u64>,
}

#[derive(Clone, Copy, Debug, PartialEq, Eq, Structural)]
pub enum ThemePreference {
    Light,
    Dark,
    System,
}

#[derive(Clone, Copy, Debug, PartialEq, Eq, Structural)]
pub enum Accent {
    Teal,
    Red,
    Blue,
}

/// What is drawn behind a board.
#[derive(Clone, Copy, Debug, PartialEq, Eq, Structural)]
pub enum Pattern {
    Plain,
    Dots,
    Crosses,
    Lines,
}

// ----- file names ----------------------------------------------------------------------

/// Whether `c` is an ASCII letter or digit.
pub open spec fn alphanumeric(c: char) -> bool {
    ('a' <= c <= 'z') || ('A' <= c <= 'Z') || ('0' <= c <= '9')
}

/// The small form of an ASCII letter, and every other character unchanged.
pub open spec fn lower(c: char) -> char {
    if 'A' <= c <= 'Z' {
        ((c as u32 + 32) as u32) as char
    } else {
        c
    }
}

fn is_alphanumeric(c: char) -> (answer: bool)
    ensures
        answer == alphanumeric(c),
{
    ('a' <= c && c <= 'z') || ('A' <= c && c <= 'Z') || ('0' <= c && c <= '9')
}

/// The small form of an ASCII letter, and every other character unchanged.
pub fn lower_of(c: char) -> (small: char)
    ensures
        small == lower(c),
{
    match c {
        'A' => 'a',
        'B' => 'b',
        'C' => 'c',
        'D' => 'd',
        'E' => 'e',
        'F' => 'f',
        'G' => 'g',
        'H' => 'h',
        'I' => 'i',
        'J' => 'j',
        'K' => 'k',
        'L' => 'l',
        'M' => 'm',
        'N' => 'n',
        'O' => 'o',
        'P' => 'p',
        'Q' => 'q',
        'R' => 'r',
        'S' => 's',
        'T' => 't',
        'U' => 'u',
        'V' => 'v',
        'W' => 'w',
        'X' => 'x',
        'Y' => 'y',
        'Z' => 'z',
        other => other,
    }
}

/// `title` in small letters, with one dash for every run of anything that is not an ASCII
/// letter or digit.
pub open spec fn dashed(title: Seq<char>) -> Seq<char>
    decreases title.len(),
{
    if title.len() == 0 {
        title
    } else {
        let before = dashed(title.drop_last());
        if alphanumeric(title.last()) {
            before.push(lower(title.last()))
        } else if before.len() > 0 && before.last() == '-' {
            before
        } else {
            before.push('-')
        }
    }
}

pub open spec fn trim_dashes_start(text: Seq<char>) -> Seq<char>
    decreases text.len(),
{
    if text.len() > 0 && text[0] == '-' {
        trim_dashes_start(text.skip(1))
    } else {
        text
    }
}

pub open spec fn trim_dashes_end(text: Seq<char>) -> Seq<char>
    decreases text.len(),
{
    if text.len() > 0 && text.last() == '-' {
        trim_dashes_end(text.drop_last())
    } else {
        text
    }
}

/// A file-name stem from a board title: letters and digits with single dashes between, no
/// dash at either end before the cut at 64 characters, and a fixed name where nothing is
/// left.
pub open spec fn slugged(title: Seq<char>) -> Seq<char> {
    let core = trim_dashes_end(trim_dashes_start(dashed(title)));
    if core.len() == 0 {
        "board"@
    } else if core.len() > 64 {
        core.take(64)
    } else {
        core
    }
}

/// A file-name stem from a board title. The result is a path on every system, and a title
/// with a separator in it does not become a directory.
pub fn slug(title: &str) -> (stem: String)
    ensures
        stem@ == slugged(title@),
{
    let chars = chars_of(title);
    let mut out: Vec<char> = Vec::new();
    let mut at: usize = 0;
    proof {
        assert(title@.take(0) =~= Seq::<char>::empty());
    }
    while at < chars.len()
        invariant
            at <= chars@.len(),
            chars@ == title@,
            out@ == dashed(title@.take(at as int)),
        decreases chars@.len() - at,
    {
        let c = chars[at];
        proof {
            assert(title@.take(at as int + 1).drop_last() =~= title@.take(at as int));
        }
        if is_alphanumeric(c) {
            out.push(lower_of(c));
        } else if out.len() == 0 || out[out.len() - 1] != '-' {
            out.push('-');
        }
        at = at + 1;
    }
    proof {
        assert(title@.take(title@.len() as int) =~= title@);
    }
    let ghost all = out@;
    let mut from: usize = 0;
    proof {
        assert(all.skip(0) =~= all);
    }
    while from < out.len() && out[from] == '-'
        invariant
            from <= out@.len(),
            out@ == all,
            trim_dashes_start(all) == trim_dashes_start(all.skip(from as int)),
        decreases out@.len() - from,
    {
        proof {
            assert(all.skip(from as int).skip(1) =~= all.skip(from as int + 1));
        }
        from = from + 1;
    }
    let ghost start = all.skip(from as int);
    let mut to: usize = out.len();
    proof {
        assert(all.subrange(from as int, to as int) =~= start);
    }
    while to > from && out[to - 1] == '-'
        invariant
            from <= to <= out@.len(),
            out@ == all,
            trim_dashes_end(start) == trim_dashes_end(all.subrange(from as int, to as int)),
        decreases to,
    {
        proof {
            assert(all.subrange(from as int, to as int).drop_last() =~= all.subrange(
                from as int,
                to - 1,
            ));
        }
        to = to - 1;
    }
    if from == to {
        return "board".to_owned();
    }
    if to - from > 64 {
        proof {
            assert(all.subrange(from as int, from + 64) =~= all.subrange(
                from as int,
                to as int,
            ).take(64));
        }
        to = from + 64;
    }
    text_of(&out, from, to)
}

/// A file name up to its last dot. A name with no dot, or with none but the one it starts
/// with, is all stem.
pub open spec fn before_last_dot(name: Seq<char>) -> Seq<char>
    recommends
        name.len() > 0,
{
    let dot = last_dot(name);
    if dot <= 0 {
        name
    } else {
        name.take(dot)
    }
}

/// Where the last dot of a name stands, or -1.
pub open spec fn last_dot(name: Seq<char>) -> int
    decreases name.len(),
{
    if name.len() == 0 {
        -1
    } else if name.last() == '.' {
        name.len() - 1
    } else {
        last_dot(name.drop_last())
    }
}

/// The stem of a path's file name: what its last component names, up to the last dot. A path
/// that ends in no name has none.
pub open spec fn stem(path: Seq<char>) -> Option<Seq<char>> {
    let list = components(path);
    if list.len() == 0 || list.last() == "."@ || list.last() == ".."@ {
        None
    } else {
        Some(before_last_dot(list.last()))
    }
}

/// The stem of a path's file name, if it names a file.
pub fn file_stem(path: &str) -> (answer: Option<String>)
    ensures
        answer is Some <==> stem(path@) is Some,
        answer is Some ==> answer->0@ == stem(path@)->0,
{
    let list = components_of(path);
    if list.len() == 0 {
        return None;
    }
    let name = list[list.len() - 1].as_str();
    proof {
        assert(components(path@).last() == name@);
    }
    if same(name, ".") || same(name, "..") {
        return None;
    }
    let chars = chars_of(name);
    let mut dot: usize = chars.len();
    proof {
        assert(name@.take(dot as int) =~= name@);
    }
    while dot > 0 && chars[dot - 1] != '.'
        invariant
            dot <= chars@.len(),
            chars@ == name@,
            last_dot(name@) == last_dot(name@.take(dot as int)),
        decreases dot,
    {
        proof {
            assert(name@.take(dot as int).drop_last() =~= name@.take(dot - 1));
        }
        dot = dot - 1;
    }
    if dot <= 1 {
        return Some(name.to_owned());
    }
    proof {
        assert(last_dot(name@) == dot - 1);
        assert(chars@.subrange(0, dot - 1) =~= name@.take(dot - 1));
    }
    Some(text_of(&chars, 0, dot - 1))
}

/// The stem of a path's file name, or a fixed name where it has none.
pub fn stem_of(path: &str) -> (answer: String)
    ensures
        answer@ == (match stem(path@) {
            Some(stem) => stem,
            None => "board"@,
        }),
{
    match file_stem(path) {
        Some(stem) => stem,
        None => "board".to_owned(),
    }
}

/// The `n`th name to try for a new board's file: the title's slug, then the slug with `-2`,
/// `-3` and so on.
pub open spec fn candidate(title: Seq<char>, n: nat) -> Seq<char> {
    if n <= 1 {
        slugged(title) + ".vellum"@
    } else {
        slugged(title) + "-"@ + decimal(n) + ".vellum"@
    }
}

/// The `n`th name to try for a new board's file. The first that is not taken is the one.
pub fn candidate_name(title: &str, n: u64) -> (name: String)
    ensures
        name@ == candidate(title@, n as nat),
{
    let stem = slug(title);
    if n <= 1 {
        joined(stem.as_str(), ".vellum")
    } else {
        let dashed = joined(stem.as_str(), "-");
        let counted = joined(dashed.as_str(), decimal_of(n).as_str());
        joined(counted.as_str(), ".vellum")
    }
}

/// The title that what was typed gives a new board.
pub open spec fn titled(typed: Seq<char>) -> Seq<char> {
    if trimmed(typed).len() == 0 {
        "Untitled board"@
    } else {
        trimmed(typed)
    }
}

/// The title that what was typed gives a board in place of its own, if it gives one.
pub open spec fn retitled(typed: Seq<char>) -> Option<Seq<char>> {
    if trimmed(typed).len() == 0 {
        None
    } else {
        Some(trimmed(typed))
    }
}

/// The title a new board gets: what was typed without the space around it, or a fixed name
/// where nothing was.
pub fn new_title(typed: &str) -> (title: String)
    ensures
        title@ == titled(typed@),
        title@ == (if trimmed(typed@).len() == 0 {
            "Untitled board"@
        } else {
            trimmed(typed@)
        }),
{
    let title = trim(typed);
    if title.as_str().is_empty() {
        "Untitled board".to_owned()
    } else {
        title
    }
}

/// The title a rename gives, or `None` where nothing but space was typed: a board needs a
/// name.
pub fn renamed_title(typed: &str) -> (title: Option<String>)
    ensures
        title is Some <==> retitled(typed@) is Some,
        title is Some ==> title->0@ == retitled(typed@)->0,
        title is Some <==> trimmed(typed@).len() > 0,
        title is Some ==> title->0@ == trimmed(typed@),
{
    let title = trim(typed);
    if title.as_str().is_empty() {
        None
    } else {
        Some(title)
    }
}

// ----- spaces --------------------------------------------------------------------------

/// What `str::to_lowercase` makes of a text: the Unicode lowercase mapping, the same in every
/// locale.
pub uninterp spec fn lowered(text: Seq<char>) -> Seq<char>;

/// `str::to_lowercase`. Its result depends on the text alone; what it is for a given text is
/// the Unicode tables' and is not stated.
#[verifier::external_body]
fn lowercase(text: &str) -> (small: String)
    ensures
        small@ == lowered(text@),
{
    text.to_lowercase()
}

/// Whether one space is listed strictly before another: pinned ones first, then by name,
/// capitals or not.
pub open spec fn listed_before(a: Folder, b: Folder) -> bool {
    if a.pinned != b.pinned {
        a.pinned
    } else {
        precedes(lowered(a.name), lowered(b.name))
    }
}

fn goes_before(a: &SpaceRecord, b: &SpaceRecord) -> (answer: bool)
    ensures
        answer == listed_before(a@, b@),
{
    if a.pinned != b.pinned {
        a.pinned
    } else {
        let first = lowercase(a.name.as_str());
        let second = lowercase(b.name.as_str());
        comes_before(first.as_str(), second.as_str())
    }
}

/// `list`, which is in order, with `one` put in after everything it does not come before.
pub open spec fn slotted(list: Seq<Folder>, one: Folder) -> Seq<Folder>
    decreases list.len(),
{
    if list.len() > 0 && listed_before(one, list.last()) {
        slotted(list.drop_last(), one).push(list.last())
    } else {
        list.push(one)
    }
}

/// The spaces in the order they are listed. Those that tie keep the order they had.
pub open spec fn in_order(list: Seq<Folder>) -> Seq<Folder>
    decreases list.len(),
{
    if list.len() == 0 {
        list
    } else {
        slotted(in_order(list.drop_last()), list.last())
    }
}

proof fn slotted_at(list: Seq<Folder>, one: Folder, at: int)
    requires
        0 <= at <= list.len(),
        forall|k: int| at <= k < list.len() ==> listed_before(one, #[trigger] list[k]),
        at > 0 ==> !listed_before(one, list[at - 1]),
    ensures
        slotted(list, one) == list.insert(at, one),
    decreases list.len(),
{
    if list.len() > 0 && listed_before(one, list.last()) {
        assert(at < list.len());
        slotted_at(list.drop_last(), one, at);
        assert(list.drop_last().insert(at, one).push(list.last()) =~= list.insert(at, one));
    } else {
        assert(at == list.len()) by {
            if at < list.len() {
                assert(listed_before(one, list[list.len() - 1]));
            }
        }
        assert(list.push(one) =~= list.insert(at, one));
    }
}

/// Puts the spaces in the order they are listed.
pub fn sort_spaces(spaces: &mut Vec<SpaceRecord>)
    ensures
        folders(final(spaces)@) == in_order(folders(old(spaces)@)),
{
    let ghost was = folders(spaces@);
    let mut done: usize = 0;
    proof {
        assert(folders(spaces@).take(0) =~= in_order(was.take(0)));
    }
    while done < spaces.len()
        invariant
            done <= spaces@.len(),
            spaces@.len() == was.len(),
            folders(spaces@).take(done as int) == in_order(was.take(done as int)),
            forall|k: int| done <= k < was.len() ==> folders(spaces@)[k] == was[k],
        decreases spaces@.len() - done,
    {
        let ghost list = folders(spaces@).take(done as int);
        let ghost one = was[done as int];
        let mut at: usize = done;
        while at > 0 && goes_before(&spaces[done], &spaces[at - 1])
            invariant
                at <= done < spaces@.len(),
                list == folders(spaces@).take(done as int),
                one == spaces@[done as int]@,
                forall|k: int| at <= k < done ==> listed_before(one, #[trigger] list[k]),
            decreases at,
        {
            proof {
                assert(list[at - 1] == spaces@[at - 1]@);
            }
            at = at - 1;
        }
        proof {
            if at > 0 {
                assert(list[at - 1] == spaces@[at - 1]@);
            }
            slotted_at(list, one, at as int);
            assert(was.take(done as int + 1).drop_last() =~= was.take(done as int));
        }
        let ghost before = spaces@;
        let moved = spaces.remove(done);
        spaces.insert(at, moved);
        proof {
            assert(folders(spaces@).take(done as int + 1) =~= list.insert(at as int, one));
        }
        done = done + 1;
    }
    proof {
        assert(folders(spaces@).take(was.len() as int) =~= folders(spaces@));
        assert(was.take(was.len() as int) =~= was);
    }
}

/// A space without a board.
pub open spec fn emptied_of(folder: Folder, path: Seq<char>) -> Folder {
    Folder { boards: without(folder.boards, path), ..folder }
}

/// Where the first space of that name stands, or how many spaces there are.
pub open spec fn named(list: Seq<Folder>, name: Seq<char>) -> int
    decreases list.len(),
{
    if list.len() == 0 || list[0].name == name {
        0
    } else {
        1 + named(list.skip(1), name)
    }
}

proof fn named_bounds(list: Seq<Folder>, name: Seq<char>)
    ensures
        0 <= named(list, name) <= list.len(),
        named(list, name) < list.len() ==> list[named(list, name)].name == name,
        forall|k: int| 0 <= k < named(list, name) ==> (#[trigger] list[k]).name != name,
    decreases list.len(),
{
    if list.len() > 0 && list[0].name != name {
        named_bounds(list.skip(1), name);
        assert forall|k: int| 0 <= k < named(list, name) implies (#[trigger] list[k]).name
            != name by {
            if k > 0 {
                assert(list[k] == list.skip(1)[k - 1]);
            }
        }
    }
}

/// Whether any space has that name.
pub open spec fn is_name(list: Seq<Folder>, name: Seq<char>) -> bool {
    named(list, name) < list.len()
}

fn find_space(spaces: &Vec<SpaceRecord>, name: &str) -> (at: usize)
    ensures
        at == named(folders(spaces@), name@),
        at <= spaces@.len(),
{
    let ghost list = folders(spaces@);
    let mut at: usize = 0;
    proof {
        assert(list.skip(0) =~= list);
    }
    while at < spaces.len() && !same(spaces[at].name.as_str(), name)
        invariant
            at <= spaces@.len(),
            list == folders(spaces@),
            named(list, name@) == at + named(list.skip(at as int), name@),
        decreases spaces@.len() - at,
    {
        proof {
            assert(list.skip(at as int)[0] == spaces@[at as int]@);
            assert(list.skip(at as int).skip(1) =~= list.skip(at as int + 1));
        }
        at = at + 1;
    }
    proof {
        if at < spaces@.len() {
            assert(list.skip(at as int)[0] == spaces@[at as int]@);
        }
    }
    at
}

/// The spaces after a board was filed under one of them, or under none: it leaves every
/// space it was in, and joins the first of that name, if there is one, at the end.
pub open spec fn filed(list: Seq<Folder>, path: Seq<char>, space: Option<Seq<char>>) -> Seq<
    Folder,
> {
    let out = list.map_values(|folder: Folder| emptied_of(folder, path));
    if space is Some && is_name(list, space->0) {
        let at = named(list, space->0);
        out.update(at, Folder { boards: out[at].boards.push(path), ..out[at] })
    } else {
        out
    }
}

fn leave_all(spaces: &mut Vec<SpaceRecord>, path: &str)
    ensures
        folders(final(spaces)@) == folders(old(spaces)@).map_values(
            |folder: Folder| emptied_of(folder, normal(path@)),
        ),
{
    let ghost was = folders(spaces@);
    let mut at: usize = 0;
    while at < spaces.len()
        invariant
            at <= spaces@.len(),
            spaces@.len() == was.len(),
            was == folders(old(spaces)@),
            forall|k: int| at <= k < was.len() ==> folders(spaces@)[k] == was[k],
            forall|k: int|
                0 <= k < at ==> #[trigger] folders(spaces@)[k] == emptied_of(was[k], normal(path@)),
        decreases spaces@.len() - at,
    {
        let ghost before = spaces@;
        drop_path(&mut spaces[at].boards, path);
        proof {
            assert(folders(spaces@)[at as int] == emptied_of(was[at as int], normal(path@)));
            assert forall|k: int| 0 <= k < was.len() && k != at implies #[trigger] folders(
                spaces@,
            )[k] == folders(before)[k] by {
                assert(spaces@[k] == before[k]);
            }
        }
        at = at + 1;
    }
    proof {
        assert(folders(spaces@) =~= was.map_values(|folder: Folder| emptied_of(folder, normal(path@))));
    }
}

fn file_board(spaces: &mut Vec<SpaceRecord>, path: &str, space: Option<&str>)
    ensures
        folders(final(spaces)@) == filed(
            folders(old(spaces)@),
            normal(path@),
            match space {
                Some(name) => Some(name@),
                None => None,
            },
        ),
{
    let ghost was = folders(spaces@);
    let at: usize = match space {
        Some(name) => find_space(spaces, name),
        None => spaces.len(),
    };
    leave_all(spaces, path);
    let ghost out = folders(spaces@);
    if at < spaces.len() {
        spaces[at].boards.push(path.to_owned());
        proof {
            assert(places(spaces@[at as int].boards@) =~= out[at as int].boards.push(normal(path@)));
            assert(folders(spaces@) =~= out.update(
                at as int,
                Folder { boards: out[at as int].boards.push(normal(path@)), ..out[at as int] },
            ));
        }
    }
}

// ----- the library ---------------------------------------------------------------------

/// Every board on disk, plus the user's filing of them.
#[derive(Clone, Debug)]
pub struct Library {
    pub root: String,
    pub filing: Filing,
    pub cards: Vec<BoardCard>,
}

/// When a path went into Recently deleted, if it is there. The last record of it counts.
pub open spec fn binned_at(bin: Seq<(Seq<char>, u64)>, path: Seq<char>) -> Option<u64>
    decreases bin.len(),
{
    if bin.len() == 0 {
        None
    } else if bin.last().0 == path {
        Some(bin.last().1)
    } else {
        binned_at(bin.drop_last(), path)
    }
}

/// `bin` without a path.
pub open spec fn unbinned(bin: Seq<(Seq<char>, u64)>, path: Seq<char>) -> Seq<(Seq<char>, u64)>
    decreases bin.len(),
{
    if bin.len() == 0 {
        bin
    } else if bin.last().0 == path {
        unbinned(bin.drop_last(), path)
    } else {
        unbinned(bin.drop_last(), path).push(bin.last())
    }
}

fn deleted_at(trashed: &Vec<TrashedBoard>, path: &str) -> (at: Option<u64>)
    ensures
        at == binned_at(bin(trashed@), normal(path@)),
{
    let ghost all = bin(trashed@);
    let mut left: usize = trashed.len();
    proof {
        assert(all.take(left as int) =~= all);
    }
    while left > 0
        invariant
            left <= trashed@.len(),
            all == bin(trashed@),
            binned_at(all, normal(path@)) == binned_at(all.take(left as int), normal(path@)),
        decreases left,
    {
        proof {
            assert(all.take(left as int).last() == (
                normal(trashed@[left - 1].path@),
                trashed@[left - 1].at,
            ));
            assert(all.take(left as int).drop_last() =~= all.take(left - 1));
        }
        if same_path(trashed[left - 1].path.as_str(), path) {
            return Some(trashed[left - 1].at);
        }
        left = left - 1;
    }
    None
}

fn take_out(trashed: &mut Vec<TrashedBoard>, path: &str)
    ensures
        bin(final(trashed)@) == unbinned(bin(old(trashed)@), normal(path@)),
{
    let ghost all = bin(trashed@);
    let mut kept: Vec<TrashedBoard> = Vec::new();
    let mut at: usize = 0;
    proof {
        assert(bin(kept@) =~= all.take(0));
    }
    while at < trashed.len()
        invariant
            at <= trashed@.len(),
            *trashed == *old(trashed),
            all == bin(trashed@),
            bin(kept@) == unbinned(all.take(at as int), normal(path@)),
        decreases trashed@.len() - at,
    {
        let ghost before = kept@;
        if !same_path(trashed[at].path.as_str(), path) {
            let copy = TrashedBoard { path: trashed[at].path.clone(), at: trashed[at].at };
            kept.push(copy);
            proof {
                assert(bin(kept@) =~= bin(before).push(all[at as int]));
            }
        }
        at = at + 1;
        proof {
            assert(all.take(at as int).drop_last() =~= all.take(at - 1));
        }
    }
    proof {
        assert(all.take(all.len() as int) =~= all);
    }
    *trashed = kept;
}

/// The row a board's index makes, given what is starred and what is in the bin.
pub open spec fn is_card_of(
    card: BoardCard,
    index: BoardIndex,
    starred: Seq<Seq<char>>,
    bin: Seq<(Seq<char>, u64)>,
) -> bool {
    &&& card.path == index.path
    &&& card.title == index.title
    &&& card.item_count == index.item_count
    &&& card.modified == index.modified
    &&& card.starred == starred.contains(normal(index.path@))
    &&& card.deleted == binned_at(bin, normal(index.path@))
}

fn card_of(index: BoardIndex, filing: &Filing) -> (card: BoardCard)
    ensures
        is_card_of(card, index, places(filing.starred@), bin(filing.trashed@)),
{
    let starred = holds_path(&filing.starred, index.path.as_str());
    let deleted = deleted_at(&filing.trashed, index.path.as_str());
    BoardCard {
        starred,
        deleted,
        path: index.path,
        title: index.title,
        item_count: index.item_count,
        modified: index.modified,
    }
}

/// The paths of the boards that were found.
pub open spec fn paths(indexes: Seq<BoardIndex>) -> Seq<Seq<char>> {
    indexes.map_values(|index: BoardIndex| normal(index.path@))
}

/// The entries of `list` that are among `live`, in their order.
pub open spec fn among(list: Seq<Seq<char>>, live: Seq<Seq<char>>) -> Seq<Seq<char>>
    decreases list.len(),
{
    if list.len() == 0 {
        list
    } else if live.contains(list.last()) {
        among(list.drop_last(), live).push(list.last())
    } else {
        among(list.drop_last(), live)
    }
}

fn keep_live(list: &mut Vec<String>, live: &Vec<String>)
    ensures
        places(final(list)@) == among(places(old(list)@), places(live@)),
{
    let mut kept: Vec<String> = Vec::new();
    let mut at: usize = 0;
    proof {
        assert(places(kept@) =~= places(list@).take(0));
    }
    while at < list.len()
        invariant
            at <= list@.len(),
            *list == *old(list),
            places(kept@) == among(places(list@).take(at as int), places(live@)),
        decreases list@.len() - at,
    {
        let ghost before = kept@;
        if holds_path(live, list[at].as_str()) {
            kept.push(list[at].clone());
            proof {
                assert(places(kept@) =~= places(before).push(normal(list@[at as int]@)));
            }
        }
        at = at + 1;
        proof {
            assert(places(list@).take(at as int).drop_last() =~= places(list@).take(at - 1));
        }
    }
    proof {
        assert(places(list@).take(list@.len() as int) =~= places(list@));
    }
    *list = kept;
}

/// A space with only the boards that are still there.
pub open spec fn pruned(folder: Folder, live: Seq<Seq<char>>) -> Folder {
    Folder { boards: among(folder.boards, live), ..folder }
}

fn prune_spaces(spaces: &mut Vec<SpaceRecord>, live: &Vec<String>)
    ensures
        folders(final(spaces)@) == folders(old(spaces)@).map_values(
            |folder: Folder| pruned(folder, places(live@)),
        ),
{
    let ghost was = folders(spaces@);
    let mut at: usize = 0;
    while at < spaces.len()
        invariant
            at <= spaces@.len(),
            spaces@.len() == was.len(),
            was == folders(old(spaces)@),
            forall|k: int| at <= k < was.len() ==> folders(spaces@)[k] == was[k],
            forall|k: int|
                0 <= k < at ==> #[trigger] folders(spaces@)[k] == pruned(was[k], places(live@)),
        decreases spaces@.len() - at,
    {
        let ghost before = spaces@;
        keep_live(&mut spaces[at].boards, live);
        proof {
            assert(folders(spaces@)[at as int] == pruned(was[at as int], places(live@)));
            assert forall|k: int| 0 <= k < was.len() && k != at implies #[trigger] folders(
                spaces@,
            )[k] == folders(before)[k] by {
                assert(spaces@[k] == before[k]);
            }
        }
        at = at + 1;
    }
    proof {
        assert(folders(spaces@) =~= was.map_values(
            |folder: Folder| pruned(folder, places(live@)),
        ));
    }
}

/// The theme a stored word names. Anything unknown follows the system.
pub open spec fn theme_of(word: Option<String>) -> ThemePreference {
    if word is Some && word->0@ == "light"@ {
        ThemePreference::Light
    } else if word is Some && word->0@ == "dark"@ {
        ThemePreference::Dark
    } else {
        ThemePreference::System
    }
}

/// The word a theme is stored as.
pub open spec fn theme_word(preference: ThemePreference) -> Seq<char> {
    match preference {
        ThemePreference::Light => "light"@,
        ThemePreference::Dark => "dark"@,
        ThemePreference::System => "system"@,
    }
}

/// The accent a stored word names. Anything unknown is teal.
pub open spec fn accent_of(word: Option<String>) -> Accent {
    if word is Some && word->0@ == "red"@ {
        Accent::Red
    } else if word is Some && word->0@ == "blue"@ {
        Accent::Blue
    } else {
        Accent::Teal
    }
}

/// The word an accent is stored as.
pub open spec fn accent_word(accent: Accent) -> Seq<char> {
    match accent {
        Accent::Teal => "teal"@,
        Accent::Red => "red"@,
        Accent::Blue => "blue"@,
    }
}

/// The pattern a stored word names, if it names one.
pub open spec fn pattern_of(word: Option<String>) -> Option<Pattern> {
    if word is None {
        None
    } else if word->0@ == "plain"@ {
        Some(Pattern::Plain)
    } else if word->0@ == "dots"@ {
        Some(Pattern::Dots)
    } else if word->0@ == "crosses"@ {
        Some(Pattern::Crosses)
    } else if word->0@ == "lines"@ {
        Some(Pattern::Lines)
    } else {
        None
    }
}

/// The word a pattern is stored as.
pub open spec fn pattern_word(pattern: Pattern) -> Seq<char> {
    match pattern {
        Pattern::Plain => "plain"@,
        Pattern::Dots => "dots"@,
        Pattern::Crosses => "crosses"@,
        Pattern::Lines => "lines"@,
    }
}

/// The starting cameras by what they read.
pub open spec fn cameras(views: Seq<StartView>) -> Seq<(Seq<char>, [Scalar; 3])> {
    views.map_values(|view: StartView| (normal(view.board@), view.camera))
}

/// The camera recorded first for a board, if there is one.
pub open spec fn camera_of(
    cameras: Seq<(Seq<char>, [Scalar; 3])>,
    path: Seq<char>,
) -> Option<[Scalar; 3]>
    decreases cameras.len(),
{
    if cameras.len() == 0 {
        None
    } else if cameras[0].0 == path {
        Some(cameras[0].1)
    } else {
        camera_of(cameras.skip(1), path)
    }
}

/// `cameras` without those of a board.
pub open spec fn cameras_without(
    cameras: Seq<(Seq<char>, [Scalar; 3])>,
    path: Seq<char>,
) -> Seq<(Seq<char>, [Scalar; 3])>
    decreases cameras.len(),
{
    if cameras.len() == 0 {
        cameras
    } else if cameras.last().0 == path {
        cameras_without(cameras.drop_last(), path)
    } else {
        cameras_without(cameras.drop_last(), path).push(cameras.last())
    }
}

/// The title of the row of a path, if the library lists it.
pub open spec fn title_of(cards: Seq<BoardCard>, path: Seq<char>) -> Option<Seq<char>>
    decreases cards.len(),
{
    if cards.len() == 0 {
        None
    } else if normal(cards[0].path@) == path {
        Some(cards[0].title@)
    } else {
        title_of(cards.skip(1), path)
    }
}

/// The name of the last space that holds a board, if any does.
pub open spec fn last_home(list: Seq<Folder>, path: Seq<char>) -> Option<Seq<char>>
    decreases list.len(),
{
    if list.len() == 0 {
        None
    } else if list.last().boards.contains(path) {
        Some(list.last().name)
    } else {
        last_home(list.drop_last(), path)
    }
}

/// Whether the glass is on: it is unless it was switched off.
pub open spec fn translucent(filing: Filing) -> bool {
    filing.translucency != Some(false)
}

/// Whether link previews are on: they are unless they were switched off.
pub open spec fn previews(filing: Filing) -> bool {
    filing.link_previews != Some(false)
}

/// Whether objects are aligned: they are unless that was switched off.
pub open spec fn aligns(filing: Filing) -> bool {
    filing.align_objects != Some(false)
}

/// Whether things snap to the grid: they do only where that was switched on.
pub open spec fn snaps(filing: Filing) -> bool {
    filing.snap_to_grid == Some(true)
}

/// The title of a copy of a board.
pub open spec fn copied(cards: Seq<BoardCard>, path: Seq<char>) -> Seq<char> {
    (match title_of(cards, normal(path)) {
        Some(title) => title,
        None => match stem(path) {
            Some(stem) => stem,
            None => "board"@,
        },
    }) + " copy"@
}

/// The stars after a board was starred or not.
pub open spec fn restarred(stars: Seq<Seq<char>>, path: Seq<char>, starred: bool) -> Seq<
    Seq<char>,
> {
    if starred {
        without(stars, path).push(path)
    } else {
        without(stars, path)
    }
}

/// Recently deleted after a board was deleted.
pub open spec fn deleted(bin: Seq<(Seq<char>, u64)>, path: Seq<char>, now: u64) -> Seq<
    (Seq<char>, u64),
> {
    if binned_at(bin, path) is None {
        bin.push((path, now))
    } else {
        bin
    }
}

/// The spaces after one of a name that was typed was asked for.
pub open spec fn founded(list: Seq<Folder>, typed: Seq<char>) -> Seq<Folder> {
    let name = trimmed(typed);
    if name.len() == 0 || is_name(list, name) {
        list
    } else {
        in_order(list.push(Folder { name, boards: Seq::empty(), pinned: false }))
    }
}

/// The spaces after one was to be called what was typed.
pub open spec fn renamed_in(list: Seq<Folder>, from: Seq<char>, typed: Seq<char>) -> Seq<Folder> {
    let name = trimmed(typed);
    if name.len() == 0 || is_name(list, name) || !is_name(list, from) {
        list
    } else {
        let at = named(list, from);
        in_order(list.update(at, Folder { name, ..list[at] }))
    }
}

/// The spaces after one was to be pinned or not.
pub open spec fn pinned_in(list: Seq<Folder>, name: Seq<char>, pinned: bool) -> Seq<Folder> {
    if is_name(list, name) {
        let at = named(list, name);
        in_order(list.update(at, Folder { pinned, ..list[at] }))
    } else {
        list
    }
}

impl SpaceRecord {
    /// Whether a board is filed here.
    pub fn contains(&self, path: &str) -> (answer: bool)
        ensures
            answer == self@.boards.contains(normal(path@)),
    {
        holds_path(&self.boards, path)
    }
}

impl Library {
    /// The library at `root`, from the filing its sidecar held and the boards that were
    /// found there.
    pub fn open(root: &str, filing: Filing, indexes: &Vec<BoardIndex>) -> (library: Library)
        ensures
            library.root@ == root@,
            library.cards@.len() == indexes@.len(),
            forall|i: int|
                0 <= i < indexes@.len() ==> is_card_of(
                    #[trigger] library.cards@[i],
                    indexes@[i],
                    places(filing.starred@),
                    bin(filing.trashed@),
                ),
            places(library.filing.starred@) == among(places(filing.starred@), paths(indexes@)),
            folders(library.filing.spaces@) == folders(filing.spaces@).map_values(
                |folder: Folder| pruned(folder, paths(indexes@)),
            ),
            library.filing == (Filing {
                starred: library.filing.starred,
                spaces: library.filing.spaces,
                ..filing
            }),
    {
        let mut library = Library { root: root.to_owned(), filing, cards: Vec::new() };
        library.rescan(indexes);
        library
    }

    pub fn root(&self) -> (root: &str)
        ensures
            root@ == self.root@,
    {
        self.root.as_str()
    }

    /// Takes in what was found on disk. Filing that points at a board which is no longer
    /// there is dropped: a space listing a deleted board would show a count that never
    /// matches its contents. Recently deleted is kept as it is.
    pub fn rescan(&mut self, indexes: &Vec<BoardIndex>)
        ensures
            final(self).cards@.len() == indexes@.len(),
            forall|i: int|
                0 <= i < indexes@.len() ==> is_card_of(
                    #[trigger] final(self).cards@[i],
                    indexes@[i],
                    places(old(self).filing.starred@),
                    bin(old(self).filing.trashed@),
                ),
            places(final(self).filing.starred@) == among(
                places(old(self).filing.starred@),
                paths(indexes@),
            ),
            folders(final(self).filing.spaces@) == folders(old(self).filing.spaces@).map_values(
                |folder: Folder| pruned(folder, paths(indexes@)),
            ),
            *final(self) == (Library {
                cards: final(self).cards,
                filing: Filing {
                    starred: final(self).filing.starred,
                    spaces: final(self).filing.spaces,
                    ..old(self).filing
                },
                ..*old(self)
            }),
    {
        let mut cards: Vec<BoardCard> = Vec::new();
        let mut live: Vec<String> = Vec::new();
        let mut at: usize = 0;
        proof {
            assert(places(live@) =~= paths(indexes@).take(0));
        }
        while at < indexes.len()
            invariant
                at <= indexes@.len(),
                *self == *old(self),
                cards@.len() == at,
                forall|i: int|
                    0 <= i < at ==> is_card_of(
                        #[trigger] cards@[i],
                        indexes@[i],
                        places(self.filing.starred@),
                        bin(self.filing.trashed@),
                    ),
                places(live@) == paths(indexes@).take(at as int),
            decreases indexes@.len() - at,
        {
            let index = BoardIndex {
                path: indexes[at].path.clone(),
                title: indexes[at].title.clone(),
                item_count: indexes[at].item_count,
                modified: indexes[at].modified,
            };
            let ghost before = live@;
            live.push(indexes[at].path.clone());
            cards.push(card_of(index, &self.filing));
            at = at + 1;
            proof {
                assert(places(live@) =~= places(before).push(normal(indexes@[at - 1].path@)));
                assert(places(live@) =~= paths(indexes@).take(at as int));
            }
        }
        proof {
            assert(paths(indexes@).take(indexes@.len() as int) =~= paths(indexes@));
        }
        self.cards = cards;
        keep_live(&mut self.filing.starred, &live);
        prune_spaces(&mut self.filing.spaces, &live);
    }

    pub fn cards(&self) -> (cards: &Vec<BoardCard>)
        ensures
            *cards == self.cards,
    {
        &self.cards
    }

    pub fn spaces(&self) -> (spaces: &Vec<SpaceRecord>)
        ensures
            *spaces == self.filing.spaces,
    {
        &self.filing.spaces
    }

    pub fn is_starred(&self, path: &str) -> (answer: bool)
        ensures
            answer == places(self.filing.starred@).contains(normal(path@)),
    {
        holds_path(&self.filing.starred, path)
    }

    // ----- preferences that belong to the collection -----------------------------------

    pub fn theme_preference(&self) -> (preference: ThemePreference)
        ensures
            preference == theme_of(self.filing.theme),
    {
        match &self.filing.theme {
            Some(word) => if same(word.as_str(), "light") {
                ThemePreference::Light
            } else if same(word.as_str(), "dark") {
                ThemePreference::Dark
            } else {
                ThemePreference::System
            },
            None => ThemePreference::System,
        }
    }

    pub fn set_theme_preference(&mut self, preference: ThemePreference)
        ensures
            *final(self) == (Library {
                filing: Filing { theme: final(self).filing.theme, ..old(self).filing },
                ..*old(self)
            }),
            final(self).filing.theme is Some,
            final(self).filing.theme->0@ == theme_word(preference),
            theme_of(final(self).filing.theme) == preference,
    {
        proof {
            reveal_strlit("light");
            reveal_strlit("dark");
            reveal_strlit("system");
            assert("light"@[0] != "dark"@[0]);
            assert("light"@.len() != "system"@.len());
            assert("dark"@.len() != "system"@.len());
        }
        let word = match preference {
            ThemePreference::Light => "light",
            ThemePreference::Dark => "dark",
            ThemePreference::System => "system",
        };
        self.filing.theme = Some(word.to_owned());
    }

    pub fn minimap(&self) -> (on: bool)
        ensures
            on == self.filing.minimap,
    {
        self.filing.minimap
    }

    pub fn set_view_toggles(&mut self, minimap: bool)
        ensures
            *final(self) == (Library {
                filing: Filing { minimap, ..old(self).filing },
                ..*old(self)
            }),
    {
        self.filing.minimap = minimap;
    }

    /// Whether the chrome is translucent. On unless it was turned off.
    pub fn translucency(&self) -> (on: bool)
        ensures
            on == translucent(self.filing),
            on == (match self.filing.translucency {
                Some(chosen) => chosen,
                None => true,
            }),
    {
        self.filing.translucency.unwrap_or(true)
    }

    pub fn set_translucency(&mut self, on: bool)
        ensures
            *final(self) == (Library {
                filing: Filing { translucency: Some(on), ..old(self).filing },
                ..*old(self)
            }),
    {
        self.filing.translucency = Some(on);
    }

    /// Whether link cards may fetch. On unless it was turned off.
    pub fn link_previews(&self) -> (on: bool)
        ensures
            on == previews(self.filing),
            on == (match self.filing.link_previews {
                Some(chosen) => chosen,
                None => true,
            }),
    {
        self.filing.link_previews.unwrap_or(true)
    }

    pub fn set_link_previews(&mut self, on: bool)
        ensures
            *final(self) == (Library {
                filing: Filing { link_previews: Some(on), ..old(self).filing },
                ..*old(self)
            }),
    {
        self.filing.link_previews = Some(on);
    }

    /// Whether relative snapping is on. On unless it was turned off.
    pub fn align_objects(&self) -> (on: bool)
        ensures
            on == aligns(self.filing),
            on == (match self.filing.align_objects {
                Some(chosen) => chosen,
                None => true,
            }),
    {
        self.filing.align_objects.unwrap_or(true)
    }

    pub fn set_align_objects(&mut self, on: bool)
        ensures
            *final(self) == (Library {
                filing: Filing { align_objects: Some(on), ..old(self).filing },
                ..*old(self)
            }),
    {
        self.filing.align_objects = Some(on);
    }

    /// Whether a move lands on the board's grid. Off unless it was turned on.
    pub fn snap_to_grid(&self) -> (on: bool)
        ensures
            on == snaps(self.filing),
            on == (match self.filing.snap_to_grid {
                Some(chosen) => chosen,
                None => false,
            }),
    {
        self.filing.snap_to_grid.unwrap_or(false)
    }

    pub fn set_snap_to_grid(&mut self, on: bool)
        ensures
            *final(self) == (Library {
                filing: Filing { snap_to_grid: Some(on), ..old(self).filing },
                ..*old(self)
            }),
    {
        self.filing.snap_to_grid = Some(on);
    }

    /// The grid every board wears, or `None` for "not chosen": then each board's own. An
    /// unrecognised word answers `None`.
    pub fn grid_pattern(&self) -> (pattern: Option<Pattern>)
        ensures
            pattern == pattern_of(self.filing.grid_pattern),
    {
        match &self.filing.grid_pattern {
            Some(word) => if same(word.as_str(), "plain") {
                Some(Pattern::Plain)
            } else if same(word.as_str(), "dots") {
                Some(Pattern::Dots)
            } else if same(word.as_str(), "crosses") {
                Some(Pattern::Crosses)
            } else if same(word.as_str(), "lines") {
                Some(Pattern::Lines)
            } else {
                None
            },
            None => None,
        }
    }

    pub fn set_grid_pattern(&mut self, pattern: Pattern)
        ensures
            *final(self) == (Library {
                filing: Filing {
                    grid_pattern: final(self).filing.grid_pattern,
                    ..old(self).filing
                },
                ..*old(self)
            }),
            final(self).filing.grid_pattern is Some,
            final(self).filing.grid_pattern->0@ == pattern_word(pattern),
            pattern_of(final(self).filing.grid_pattern) == Some(pattern),
    {
        proof {
            reveal_strlit("plain");
            reveal_strlit("dots");
            reveal_strlit("crosses");
            reveal_strlit("lines");
            assert("plain"@[0] != "lines"@[0]);
            assert("dots"@.len() == 4 && "crosses"@.len() == 7);
            assert("plain"@.len() == 5 && "lines"@.len() == 5);
        }
        let word = match pattern {
            Pattern::Plain => "plain",
            Pattern::Dots => "dots",
            Pattern::Crosses => "crosses",
            Pattern::Lines => "lines",
        };
        self.filing.grid_pattern = Some(word.to_owned());
    }

    /// What the grid is drawn in, colour and alpha together, or `None` for the theme's own.
    /// A number that is no colour reads as `None`.
    pub fn grid_color(&self) -> (color: Option<Color>)
        ensures
            color is Some <==> self.filing.grid_color is Some && 0 <= self.filing.grid_color->0
                <= 0xFFFF_FFFF,
            color is Some ==> color->0.packed() == self.filing.grid_color->0,
    {
        match self.filing.grid_color {
            Some(value) => Color::from_packed(value),
            None => None,
        }
    }

    pub fn set_grid_color(&mut self, color: Option<Color>)
        ensures
            *final(self) == (Library {
                filing: Filing { grid_color: final(self).filing.grid_color, ..old(self).filing },
                ..*old(self)
            }),
            final(self).filing.grid_color is Some <==> color is Some,
            color is Some ==> final(self).filing.grid_color->0 == color->0.packed(),
    {
        self.filing.grid_color = match color {
            Some(color) => Some(color.to_packed()),
            None => None,
        };
    }

    /// Every archive that was attached, whether or not it is there today.
    pub fn attached_archives(&self) -> (archives: &Vec<String>)
        ensures
            *archives == self.filing.attached_archives,
    {
        &self.filing.attached_archives
    }

    /// Remembers an attached archive. Attaching the same file again changes nothing.
    /// Returns whether the filing changed.
    pub fn attach_archive(&mut self, path: &str) -> (changed: bool)
        ensures
            changed == !places(old(self).filing.attached_archives@).contains(normal(path@)),
            places(final(self).filing.attached_archives@) == (if changed {
                places(old(self).filing.attached_archives@).push(normal(path@))
            } else {
                places(old(self).filing.attached_archives@)
            }),
            *final(self) == (Library {
                filing: Filing {
                    attached_archives: final(self).filing.attached_archives,
                    ..old(self).filing
                },
                ..*old(self)
            }),
    {
        if holds_path(&self.filing.attached_archives, path) {
            return false;
        }
        self.filing.attached_archives.push(path.to_owned());
        proof {
            assert(places(self.filing.attached_archives@) =~= places(
                old(self).filing.attached_archives@,
            ).push(normal(path@)));
        }
        true
    }

    /// `None` when the slider was never moved, which follows the palette.
    pub fn glass_opacity(&self) -> (opacity: Option<u8>)
        ensures
            opacity == self.filing.glass_opacity,
    {
        self.filing.glass_opacity
    }

    pub fn set_glass_opacity(&mut self, opacity: u8)
        ensures
            *final(self) == (Library {
                filing: Filing { glass_opacity: Some(opacity), ..old(self).filing },
                ..*old(self)
            }),
    {
        self.filing.glass_opacity = Some(opacity);
    }

    /// The accent that was picked, or teal.
    pub fn accent(&self) -> (accent: Accent)
        ensures
            accent == accent_of(self.filing.accent),
    {
        match &self.filing.accent {
            Some(word) => if same(word.as_str(), "red") {
                Accent::Red
            } else if same(word.as_str(), "blue") {
                Accent::Blue
            } else {
                Accent::Teal
            },
            None => Accent::Teal,
        }
    }

    pub fn set_accent(&mut self, accent: Accent)
        ensures
            *final(self) == (Library {
                filing: Filing { accent: final(self).filing.accent, ..old(self).filing },
                ..*old(self)
            }),
            final(self).filing.accent is Some,
            final(self).filing.accent->0@ == accent_word(accent),
            accent_of(final(self).filing.accent) == accent,
    {
        proof {
            reveal_strlit("teal");
            reveal_strlit("red");
            reveal_strlit("blue");
            assert("teal"@[0] != "blue"@[0]);
            assert("red"@.len() == 3 && "blue"@.len() == 4 && "teal"@.len() == 4);
        }
        let word = match accent {
            Accent::Teal => "teal",
            Accent::Red => "red",
            Accent::Blue => "blue",
        };
        self.filing.accent = Some(word.to_owned());
    }

    /// The address the last sign-in used.
    pub fn sync_server(&self) -> (server: Option<&str>)
        ensures
            server is Some <==> self.filing.sync_server is Some,
            server is Some ==> server->0@ == self.filing.sync_server->0@,
    {
        match &self.filing.sync_server {
            Some(server) => Some(server.as_str()),
            None => None,
        }
    }

    /// The name the last sign-in used.
    pub fn sync_username(&self) -> (username: Option<&str>)
        ensures
            username is Some <==> self.filing.sync_username is Some,
            username is Some ==> username->0@ == self.filing.sync_username->0@,
    {
        match &self.filing.sync_username {
            Some(username) => Some(username.as_str()),
            None => None,
        }
    }

    /// Records who signed in where. The two are only ever written together, and no password
    /// is written at all.
    pub fn set_sync_account(&mut self, server: &str, username: &str)
        ensures
            *final(self) == (Library {
                filing: Filing {
                    sync_server: final(self).filing.sync_server,
                    sync_username: final(self).filing.sync_username,
                    ..old(self).filing
                },
                ..*old(self)
            }),
            final(self).filing.sync_server is Some,
            final(self).filing.sync_server->0@ == server@,
            final(self).filing.sync_username is Some,
            final(self).filing.sync_username->0@ == username@,
    {
        self.filing.sync_server = Some(server.to_owned());
        self.filing.sync_username = Some(username.to_owned());
    }

    pub fn last_board(&self) -> (path: Option<&str>)
        ensures
            path is Some <==> self.filing.last_board is Some,
            path is Some ==> path->0@ == self.filing.last_board->0@,
    {
        match &self.filing.last_board {
            Some(path) => Some(path.as_str()),
            None => None,
        }
    }

    pub fn set_last_board(&mut self, path: Option<&str>)
        ensures
            *final(self) == (Library {
                filing: Filing { last_board: final(self).filing.last_board, ..old(self).filing },
                ..*old(self)
            }),
            final(self).filing.last_board is Some <==> path is Some,
            path is Some ==> final(self).filing.last_board->0@ == path->0@,
    {
        self.filing.last_board = match path {
            Some(path) => Some(path.to_owned()),
            None => None,
        };
    }

    /// The camera a board opens at, as `[x, y, zoom]`.
    pub fn start_view(&self, path: &str) -> (camera: Option<[Scalar; 3]>)
        ensures
            camera == camera_of(cameras(self.filing.start_views@), normal(path@)),
    {
        let ghost all = cameras(self.filing.start_views@);
        let mut at: usize = 0;
        proof {
            assert(all.skip(0) =~= all);
        }
        while at < self.filing.start_views.len()
            invariant
                at <= self.filing.start_views@.len(),
                all == cameras(self.filing.start_views@),
                camera_of(all, normal(path@)) == camera_of(all.skip(at as int), normal(path@)),
            decreases self.filing.start_views@.len() - at,
        {
            proof {
                assert(all.skip(at as int)[0] == all[at as int]);
                assert(all.skip(at as int).skip(1) =~= all.skip(at as int + 1));
            }
            if same_path(self.filing.start_views[at].board.as_str(), path) {
                return Some(self.filing.start_views[at].camera);
            }
            at = at + 1;
        }
        None
    }

    /// Records the camera a board opens at, in place of any it had.
    pub fn set_start_view(&mut self, path: &str, camera: [Scalar; 3])
        ensures
            cameras(final(self).filing.start_views@) == cameras_without(
                cameras(old(self).filing.start_views@),
                normal(path@),
            ).push((normal(path@), camera)),
            *final(self) == (Library {
                filing: Filing {
                    start_views: final(self).filing.start_views,
                    ..old(self).filing
                },
                ..*old(self)
            }),
    {
        let ghost all = cameras(self.filing.start_views@);
        let mut kept: Vec<StartView> = Vec::new();
        let mut at: usize = 0;
        proof {
            assert(cameras(kept@) =~= all.take(0));
        }
        while at < self.filing.start_views.len()
            invariant
                at <= self.filing.start_views@.len(),
                *self == *old(self),
                all == cameras(self.filing.start_views@),
                cameras(kept@) == cameras_without(all.take(at as int), normal(path@)),
            decreases self.filing.start_views@.len() - at,
        {
            let ghost before = kept@;
            if !same_path(self.filing.start_views[at].board.as_str(), path) {
                let copy = StartView {
                    board: self.filing.start_views[at].board.clone(),
                    camera: self.filing.start_views[at].camera,
                };
                kept.push(copy);
                proof {
                    assert(cameras(kept@) =~= cameras(before).push(all[at as int]));
                }
            }
            at = at + 1;
            proof {
                assert(all.take(at as int).drop_last() =~= all.take(at - 1));
            }
        }
        proof {
            assert(all.take(all.len() as int) =~= all);
        }
        let ghost before = kept@;
        kept.push(StartView { board: path.to_owned(), camera });
        proof {
            assert(cameras(kept@) =~= cameras(before).push((normal(path@), camera)));
        }
        self.filing.start_views = kept;
    }

    // ----- the verbs on a board --------------------------------------------------------

    /// The title a copy of a board gets: the original's, as listed or else from its file
    /// name, and `copy` after it.
    pub fn copy_title(&self, path: &str) -> (title: String)
        ensures
            title@ == copied(self.cards@, path@),
            title@ == (match title_of(self.cards@, normal(path@)) {
                Some(title) => title,
                None => match stem(path@) {
                    Some(stem) => stem,
                    None => "board"@,
                },
            }) + " copy"@,
    {
        let mut at: usize = 0;
        proof {
            assert(self.cards@.skip(0) =~= self.cards@);
        }
        while at < self.cards.len()
            invariant
                at <= self.cards@.len(),
                title_of(self.cards@, normal(path@)) == title_of(self.cards@.skip(at as int), normal(path@)),
            decreases self.cards@.len() - at,
        {
            proof {
                assert(self.cards@.skip(at as int)[0] == self.cards@[at as int]);
                assert(self.cards@.skip(at as int).skip(1) =~= self.cards@.skip(at as int + 1));
            }
            if same_path(self.cards[at].path.as_str(), path) {
                return joined(self.cards[at].title.as_str(), " copy");
            }
            at = at + 1;
        }
        joined(stem_of(path).as_str(), " copy")
    }

    /// Files a copy where its original is. A board that is in no space leaves its copy
    /// alone.
    pub fn file_copy(&mut self, original: &str, copy: &str)
        ensures
            folders(final(self).filing.spaces@) == (match last_home(
                folders(old(self).filing.spaces@),
                normal(original@),
            ) {
                Some(name) => filed(folders(old(self).filing.spaces@), normal(copy@), Some(name)),
                None => folders(old(self).filing.spaces@),
            }),
            *final(self) == (Library {
                filing: Filing { spaces: final(self).filing.spaces, ..old(self).filing },
                ..*old(self)
            }),
    {
        let ghost all = folders(self.filing.spaces@);
        let mut left: usize = self.filing.spaces.len();
        proof {
            assert(all.take(left as int) =~= all);
        }
        while left > 0
            invariant
                left <= self.filing.spaces@.len(),
                *self == *old(self),
                all == folders(self.filing.spaces@),
                last_home(all, normal(original@)) == last_home(all.take(left as int), normal(original@)),
            decreases left,
        {
            proof {
                assert(all.take(left as int).last() == self.filing.spaces@[left - 1]@);
                assert(all.take(left as int).drop_last() =~= all.take(left - 1));
            }
            if self.filing.spaces[left - 1].contains(original) {
                let name = self.filing.spaces[left - 1].name.clone();
                file_board(&mut self.filing.spaces, copy, Some(name.as_str()));
                return;
            }
            left = left - 1;
        }
    }

    /// Moves a board to Recently deleted. Nothing on disk is touched, and the board keeps
    /// its space and its star. Deleting it again keeps the time of the first. Returns
    /// whether the filing changed.
    pub fn trash(&mut self, path: &str, now: u64) -> (changed: bool)
        ensures
            bin(final(self).filing.trashed@) == deleted(
                bin(old(self).filing.trashed@),
                normal(path@),
                now,
            ),
            changed == (binned_at(bin(old(self).filing.trashed@), normal(path@)) is None),
            bin(final(self).filing.trashed@) == (if changed {
                bin(old(self).filing.trashed@).push((normal(path@), now))
            } else {
                bin(old(self).filing.trashed@)
            }),
            *final(self) == (Library {
                filing: Filing { trashed: final(self).filing.trashed, ..old(self).filing },
                ..*old(self)
            }),
    {
        if self.is_trashed(path) {
            return false;
        }
        self.filing.trashed.push(TrashedBoard { path: path.to_owned(), at: now });
        proof {
            assert(bin(self.filing.trashed@) =~= bin(old(self).filing.trashed@).push((normal(path@), now)));
        }
        true
    }

    /// Takes a board back out of Recently deleted.
    pub fn restore(&mut self, path: &str)
        ensures
            bin(final(self).filing.trashed@) == unbinned(bin(old(self).filing.trashed@), normal(path@)),
            *final(self) == (Library {
                filing: Filing { trashed: final(self).filing.trashed, ..old(self).filing },
                ..*old(self)
            }),
    {
        take_out(&mut self.filing.trashed, path);
    }

    /// Whether a board is in Recently deleted.
    pub fn is_trashed(&self, path: &str) -> (answer: bool)
        ensures
            answer == binned_at(bin(self.filing.trashed@), normal(path@)) is Some,
    {
        deleted_at(&self.filing.trashed, path).is_some()
    }

    /// Everything in Recently deleted, in the order it went in.
    pub fn trashed(&self) -> (paths: Vec<String>)
        ensures
            places(paths@) == bin(self.filing.trashed@).map_values(
                |entry: (Seq<char>, u64)| entry.0,
            ),
    {
        let ghost all = bin(self.filing.trashed@).map_values(|entry: (Seq<char>, u64)| entry.0);
        let mut paths: Vec<String> = Vec::new();
        let mut at: usize = 0;
        proof {
            assert(places(paths@) =~= all.take(0));
        }
        while at < self.filing.trashed.len()
            invariant
                at <= self.filing.trashed@.len(),
                all == bin(self.filing.trashed@).map_values(|entry: (Seq<char>, u64)| entry.0),
                places(paths@) == all.take(at as int),
            decreases self.filing.trashed@.len() - at,
        {
            let ghost before = paths@;
            paths.push(self.filing.trashed[at].path.clone());
            at = at + 1;
            proof {
                assert(places(paths@) =~= places(before).push(all[at - 1]));
                assert(all.take(at as int) =~= all.take(at - 1).push(all[at - 1]));
            }
        }
        proof {
            assert(all.take(all.len() as int) =~= all);
        }
        paths
    }

    /// Forgets everything about a board whose file was deleted: its star, its place in
    /// Recently deleted, and every space it was in.
    pub fn purge(&mut self, path: &str)
        ensures
            places(final(self).filing.starred@) == without(
                places(old(self).filing.starred@),
                normal(path@),
            ),
            bin(final(self).filing.trashed@) == unbinned(bin(old(self).filing.trashed@), normal(path@)),
            folders(final(self).filing.spaces@) == folders(old(self).filing.spaces@).map_values(
                |folder: Folder| emptied_of(folder, normal(path@)),
            ),
            *final(self) == (Library {
                filing: Filing {
                    starred: final(self).filing.starred,
                    trashed: final(self).filing.trashed,
                    spaces: final(self).filing.spaces,
                    ..old(self).filing
                },
                ..*old(self)
            }),
    {
        drop_path(&mut self.filing.starred, path);
        take_out(&mut self.filing.trashed, path);
        leave_all(&mut self.filing.spaces, path);
    }

    // ----- stars and spaces ------------------------------------------------------------

    /// Stars a board or takes its star, in the filing and on its row.
    pub fn set_starred(&mut self, path: &str, starred: bool)
        ensures
            places(final(self).filing.starred@) == restarred(
                places(old(self).filing.starred@),
                normal(path@),
                starred,
            ),
            places(final(self).filing.starred@) == (if starred {
                without(places(old(self).filing.starred@), normal(path@)).push(normal(path@))
            } else {
                without(places(old(self).filing.starred@), normal(path@))
            }),
            final(self).cards@.len() == old(self).cards@.len(),
            forall|i: int|
                0 <= i < old(self).cards@.len() ==> #[trigger] final(self).cards@[i] == (
                if normal(old(self).cards@[i].path@) == normal(path@) {
                    BoardCard { starred, ..old(self).cards@[i] }
                } else {
                    old(self).cards@[i]
                }),
            *final(self) == (Library {
                cards: final(self).cards,
                filing: Filing { starred: final(self).filing.starred, ..old(self).filing },
                ..*old(self)
            }),
    {
        drop_path(&mut self.filing.starred, path);
        if starred {
            let ghost before = self.filing.starred@;
            self.filing.starred.push(path.to_owned());
            proof {
                assert(places(self.filing.starred@) =~= places(before).push(normal(path@)));
            }
        }
        let ghost filing = self.filing;
        let mut at: usize = 0;
        while at < self.cards.len()
            invariant
                at <= self.cards@.len(),
                self.cards@.len() == old(self).cards@.len(),
                *self == (Library { cards: self.cards, filing, ..*old(self) }),
                forall|i: int| at <= i < self.cards@.len() ==> self.cards@[i] == old(self).cards@[i],
                forall|i: int|
                    0 <= i < at ==> #[trigger] self.cards@[i] == (if normal(old(self).cards@[i].path@)
                        == normal(path@) {
                        BoardCard { starred, ..old(self).cards@[i] }
                    } else {
                        old(self).cards@[i]
                    }),
            decreases self.cards@.len() - at,
        {
            if same_path(self.cards[at].path.as_str(), path) {
                self.cards[at].starred = starred;
            }
            at = at + 1;
        }
    }

    /// Files a board under a space, or takes it out of every space with `None`. A board is
    /// in at most one space: spaces are a filing scheme, not tags.
    pub fn move_to_space(&mut self, path: &str, space: Option<&str>)
        ensures
            folders(final(self).filing.spaces@) == filed(
                folders(old(self).filing.spaces@),
                normal(path@),
                match space {
                    Some(name) => Some(name@),
                    None => None,
                },
            ),
            *final(self) == (Library {
                filing: Filing { spaces: final(self).filing.spaces, ..old(self).filing },
                ..*old(self)
            }),
    {
        file_board(&mut self.filing.spaces, path, space);
    }

    /// Adds a space. Returns false when nothing but space was typed or one of that name
    /// already exists, and then nothing changes.
    pub fn create_space(&mut self, name: &str) -> (created: bool)
        ensures
            folders(final(self).filing.spaces@) == founded(
                folders(old(self).filing.spaces@),
                name@,
            ),
            created == (trimmed(name@).len() > 0 && !is_name(
                folders(old(self).filing.spaces@),
                trimmed(name@),
            )),
            folders(final(self).filing.spaces@) == (if created {
                in_order(
                    folders(old(self).filing.spaces@).push(
                        Folder { name: trimmed(name@), boards: Seq::empty(), pinned: false },
                    ),
                )
            } else {
                folders(old(self).filing.spaces@)
            }),
            *final(self) == (Library {
                filing: Filing { spaces: final(self).filing.spaces, ..old(self).filing },
                ..*old(self)
            }),
    {
        let name = trim(name);
        if name.as_str().is_empty() || find_space(&self.filing.spaces, name.as_str())
            < self.filing.spaces.len() {
            return false;
        }
        let ghost before = folders(self.filing.spaces@);
        let record = SpaceRecord { name, boards: Vec::new(), pinned: false };
        let ghost folder = record@;
        self.filing.spaces.push(record);
        proof {
            assert(folder.boards =~= Seq::<Seq<char>>::empty());
            assert(folders(self.filing.spaces@) =~= before.push(folder));
        }
        sort_spaces(&mut self.filing.spaces);
        true
    }

    /// Renames the first space called `from`. Returns false when nothing but space was
    /// typed, when the new name is taken, or when there is no such space, and then nothing
    /// changes.
    pub fn rename_space(&mut self, from: &str, to: &str) -> (renamed: bool)
        ensures
            folders(final(self).filing.spaces@) == renamed_in(
                folders(old(self).filing.spaces@),
                from@,
                to@,
            ),
            renamed == (trimmed(to@).len() > 0 && !is_name(
                folders(old(self).filing.spaces@),
                trimmed(to@),
            ) && is_name(folders(old(self).filing.spaces@), from@)),
            folders(final(self).filing.spaces@) == (if renamed {
                let list = folders(old(self).filing.spaces@);
                let at = named(list, from@);
                in_order(list.update(at, Folder { name: trimmed(to@), ..list[at] }))
            } else {
                folders(old(self).filing.spaces@)
            }),
            *final(self) == (Library {
                filing: Filing { spaces: final(self).filing.spaces, ..old(self).filing },
                ..*old(self)
            }),
    {
        let to = trim(to);
        if to.as_str().is_empty() || find_space(&self.filing.spaces, to.as_str())
            < self.filing.spaces.len() {
            return false;
        }
        let at: usize = find_space(&self.filing.spaces, from);
        if at >= self.filing.spaces.len() {
            return false;
        }
        let ghost list = folders(self.filing.spaces@);
        self.filing.spaces[at].name = to;
        proof {
            assert(folders(self.filing.spaces@) =~= list.update(
                at as int,
                Folder { name: to@, ..list[at as int] },
            ));
        }
        sort_spaces(&mut self.filing.spaces);
        true
    }

    /// Deletes every space of that name, and never the boards in it.
    pub fn delete_space(&mut self, name: &str)
        ensures
            folders(final(self).filing.spaces@) == without_name(
                folders(old(self).filing.spaces@),
                name@,
            ),
            *final(self) == (Library {
                filing: Filing { spaces: final(self).filing.spaces, ..old(self).filing },
                ..*old(self)
            }),
    {
        let ghost all = folders(self.filing.spaces@);
        let ghost was = self.filing;
        let mut at: usize = 0;
        let mut seen: Ghost<nat> = Ghost(0);
        proof {
            assert(all.skip(0) =~= all);
            assert(folders(self.filing.spaces@).take(0) =~= without_name(all.take(0), name@));
        }
        while at < self.filing.spaces.len()
            invariant
                at <= self.filing.spaces@.len(),
                seen@ <= all.len(),
                self.filing.spaces@.len() - at == all.len() - seen@,
                *self == (Library {
                    filing: Filing { spaces: self.filing.spaces, ..old(self).filing },
                    ..*old(self)
                }),
                folders(self.filing.spaces@).take(at as int) == without_name(
                    all.take(seen@ as int),
                    name@,
                ),
                folders(self.filing.spaces@).skip(at as int) == all.skip(seen@ as int),
            decreases self.filing.spaces@.len() - at,
        {
            let ghost list = folders(self.filing.spaces@);
            proof {
                assert(list[at as int] == list.skip(at as int)[0]);
                assert(all[seen@ as int] == all.skip(seen@ as int)[0]);
                assert(all.take(seen@ as int + 1).drop_last() =~= all.take(seen@ as int));
            }
            if same(self.filing.spaces[at].name.as_str(), name) {
                let gone = self.filing.spaces.remove(at);
                proof {
                    let next = folders(self.filing.spaces@);
                    assert(next.take(at as int) =~= list.take(at as int));
                    assert(next.skip(at as int) =~= list.skip(at as int).skip(1));
                }
            } else {
                proof {
                    assert(list.take(at as int + 1) =~= list.take(at as int).push(
                        list[at as int],
                    ));
                    assert(list.skip(at as int + 1) =~= list.skip(at as int).skip(1));
                }
                at = at + 1;
            }
            proof {
                assert(all.skip(seen@ as int + 1) =~= all.skip(seen@ as int).skip(1));
            }
            seen = Ghost(seen@ + 1);
        }
        proof {
            assert(all.take(all.len() as int) =~= all);
            assert(folders(self.filing.spaces@).take(at as int) =~= folders(self.filing.spaces@));
        }
    }

    /// Pins the first space of that name or takes its pin. Returns whether there is one.
    pub fn set_space_pinned(&mut self, name: &str, pinned: bool) -> (changed: bool)
        ensures
            folders(final(self).filing.spaces@) == pinned_in(
                folders(old(self).filing.spaces@),
                name@,
                pinned,
            ),
            changed == is_name(folders(old(self).filing.spaces@), name@),
            folders(final(self).filing.spaces@) == (if changed {
                let list = folders(old(self).filing.spaces@);
                let at = named(list, name@);
                in_order(list.update(at, Folder { pinned, ..list[at] }))
            } else {
                folders(old(self).filing.spaces@)
            }),
            *final(self) == (Library {
                filing: Filing { spaces: final(self).filing.spaces, ..old(self).filing },
                ..*old(self)
            }),
    {
        let at: usize = find_space(&self.filing.spaces, name);
        if at >= self.filing.spaces.len() {
            return false;
        }
        let ghost list = folders(self.filing.spaces@);
        self.filing.spaces[at].pinned = pinned;
        proof {
            assert(folders(self.filing.spaces@) =~= list.update(
                at as int,
                Folder { pinned, ..list[at as int] },
            ));
        }
        sort_spaces(&mut self.filing.spaces);
        true
    }
}

/// `list` without the spaces of a name, the others in their order.
pub open spec fn without_name(list: Seq<Folder>, name: Seq<char>) -> Seq<Folder>
    decreases list.len(),
{
    if list.len() == 0 {
        list
    } else if list.last().name == name {
        without_name(list.drop_last(), name)
    } else {
        without_name(list.drop_last(), name).push(list.last())
    }
}

// ----- laws ----------------------------------------------------------------------------

/// Whether `c` can stand in a file-name stem.
pub open spec fn in_a_stem(c: char) -> bool {
    ('a' <= c <= 'z') || ('0' <= c <= '9') || c == '-'
}

proof fn dashed_is_safe(title: Seq<char>, k: int)
    requires
        0 <= k < dashed(title).len(),
    ensures
        in_a_stem(dashed(title)[k]),
    decreases title.len(),
{
    if title.len() > 0 {
        let before = dashed(title.drop_last());
        if k < before.len() {
            dashed_is_safe(title.drop_last(), k);
        }
    }
}

proof fn trim_dashes_start_is_a_tail(text: Seq<char>)
    ensures
        trim_dashes_start(text).len() <= text.len(),
        trim_dashes_start(text) == text.skip(text.len() - trim_dashes_start(text).len()),
        trim_dashes_start(text).len() > 0 ==> trim_dashes_start(text)[0] != '-',
    decreases text.len(),
{
    if text.len() > 0 && text[0] == '-' {
        trim_dashes_start_is_a_tail(text.skip(1));
        let kept = trim_dashes_start(text);
        assert(text.skip(1).skip(text.len() - 1 - kept.len()) =~= text.skip(
            text.len() - kept.len(),
        ));
    } else {
        assert(text.skip(0) =~= text);
    }
}

proof fn trim_dashes_end_is_a_head(text: Seq<char>)
    ensures
        trim_dashes_end(text).len() <= text.len(),
        trim_dashes_end(text) == text.take(trim_dashes_end(text).len() as int),
        trim_dashes_end(text).len() > 0 ==> trim_dashes_end(text).last() != '-',
    decreases text.len(),
{
    if text.len() > 0 && text.last() == '-' {
        trim_dashes_end_is_a_head(text.drop_last());
        let kept = trim_dashes_end(text);
        assert(text.drop_last().take(kept.len() as int) =~= text.take(kept.len() as int));
    } else {
        assert(text.take(text.len() as int) =~= text);
    }
}

proof fn dashes_stand_alone(title: Seq<char>, k: int)
    requires
        0 < k < dashed(title).len(),
    ensures
        dashed(title)[k - 1] != '-' || dashed(title)[k] != '-',
    decreases title.len(),
{
    if title.len() > 0 {
        let before = dashed(title.drop_last());
        if k < before.len() {
            dashes_stand_alone(title.drop_last(), k);
        } else if alphanumeric(title.last()) {
            assert(dashed(title)[k] == lower(title.last()));
        } else {
            assert(before.last() == before[k - 1]);
        }
    }
}

proof fn nothing_to_keep_is_at_most_a_dash(title: Seq<char>)
    requires
        forall|k: int| 0 <= k < title.len() ==> !alphanumeric(#[trigger] title[k]),
    ensures
        dashed(title).len() == 0 || dashed(title) == seq!['-'],
    decreases title.len(),
{
    if title.len() > 0 {
        let rest = title.drop_last();
        assert forall|k: int| 0 <= k < rest.len() implies !alphanumeric(#[trigger] rest[k]) by {
            assert(!alphanumeric(title[k]));
        }
        nothing_to_keep_is_at_most_a_dash(rest);
        assert(!alphanumeric(title[title.len() - 1]));
        if dashed(rest).len() == 0 {
            assert(dashed(title) =~= seq!['-']);
        }
    }
}

/// A file-name stem is one on every system, whatever the title: one to 64 characters, all
/// of them small letters, digits and dashes, and the first not a dash. It reads well: no two
/// dashes stand side by side, it ends with one only where the cut at 64 characters fell there,
/// and a title with no letter or digit gives a fixed name.
pub proof fn a_slug_is_a_safe_stem(title: Seq<char>)
    ensures
        0 < slugged(title).len() <= 64,
        slugged(title)[0] != '-',
        forall|k: int| 0 <= k < slugged(title).len() ==> in_a_stem(#[trigger] slugged(title)[k]),
        forall|k: int|
            0 < k < slugged(title).len() && #[trigger] slugged(title)[k] == '-' ==> slugged(
                title,
            )[k - 1] != '-',
        slugged(title).last() == '-' ==> slugged(title).len() == 64 && trim_dashes_end(
            trim_dashes_start(dashed(title)),
        ).len() > 64,
        (forall|k: int| 0 <= k < title.len() ==> !alphanumeric(#[trigger] title[k])) ==> slugged(
            title,
        ) == "board"@,
{
    reveal_strlit("board");
    if forall|k: int| 0 <= k < title.len() ==> !alphanumeric(#[trigger] title[k]) {
        nothing_to_keep_is_at_most_a_dash(title);
        if dashed(title).len() > 0 {
            assert(dashed(title).skip(1) =~= Seq::<char>::empty());
            assert(trim_dashes_start(dashed(title)) == trim_dashes_start(dashed(title).skip(1)));
        }
    }
    let all = dashed(title);
    let start = trim_dashes_start(all);
    let core = trim_dashes_end(start);
    trim_dashes_start_is_a_tail(all);
    trim_dashes_end_is_a_head(start);
    let from = all.len() - start.len();
    assert forall|k: int| 0 <= k < core.len() implies in_a_stem(#[trigger] core[k]) by {
        assert(core[k] == start[k] && start[k] == all[from + k]);
        dashed_is_safe(title, from + k);
    }
    assert forall|k: int| 0 < k < core.len() && #[trigger] core[k] == '-' implies core[k - 1]
        != '-' by {
        assert(core[k] == start[k] && start[k] == all[from + k]);
        assert(core[k - 1] == start[k - 1] && start[k - 1] == all[from + k - 1]);
        dashes_stand_alone(title, from + k);
    }
}

/// What a letter is in small writing; anything else is itself.
pub open spec fn small_letter(c: char) -> char {
    match c {
        'A' => 'a',
        'B' => 'b',
        'C' => 'c',
        'D' => 'd',
        'E' => 'e',
        'F' => 'f',
        'G' => 'g',
        'H' => 'h',
        'I' => 'i',
        'J' => 'j',
        'K' => 'k',
        'L' => 'l',
        'M' => 'm',
        'N' => 'n',
        'O' => 'o',
        'P' => 'p',
        'Q' => 'q',
        'R' => 'r',
        'S' => 's',
        'T' => 't',
        'U' => 'u',
        'V' => 'v',
        'W' => 'w',
        'X' => 'x',
        'Y' => 'y',
        'Z' => 'z',
        other => other,
    }
}

/// `text` in small letters, character by character.
pub open spec fn small_letters(text: Seq<char>) -> Seq<char> {
    text.map_values(|c: char| small_letter(c))
}

/// The letters and digits of a title, in order and in small writing.
pub open spec fn spelled(title: Seq<char>) -> Seq<char> {
    small_letters(
        title.filter(|c: char| ('a' <= c <= 'z') || ('A' <= c <= 'Z') || ('0' <= c <= '9')),
    )
}

/// `text` with its dashes taken out.
pub open spec fn undashed(text: Seq<char>) -> Seq<char> {
    text.filter(|c: char| c != '-')
}

/// The small form of a character is its small letter.
pub proof fn lower_is_the_small_letter(c: char)
    ensures
        lower(c) == small_letter(c),
        alphanumeric(c) ==> small_letter(c) != '-',
        alphanumeric(c) <==> ('a' <= c <= 'z') || ('A' <= c <= 'Z') || ('0' <= c <= '9'),
{
}

proof fn dashes_aside_the_letters_stay(title: Seq<char>)
    ensures
        undashed(dashed(title)) == spelled(title),
    decreases title.len(),
{
    reveal(Seq::filter);
    if title.len() > 0 {
        let rest = title.drop_last();
        let before = dashed(rest);
        let after = dashed(title);
        dashes_aside_the_letters_stay(rest);
        lower_is_the_small_letter(title.last());
        if alphanumeric(title.last()) {
            assert(after.drop_last() =~= before);
            assert(spelled(title) =~= spelled(rest).push(small_letter(title.last())));
        } else {
            if !(before.len() > 0 && before.last() == '-') {
                assert(after.drop_last() =~= before);
            }
            assert(spelled(title) =~= spelled(rest));
        }
    } else {
        assert(undashed(dashed(title)) =~= spelled(title));
    }
}

proof fn a_trimmed_start_was_dashes(text: Seq<char>)
    ensures
        undashed(trim_dashes_start(text)) == undashed(text),
    decreases text.len(),
{
    if text.len() > 0 && text[0] == '-' {
        a_trimmed_start_was_dashes(text.skip(1));
        let first = text.take(1);
        let no_dash = |c: char| c != '-';
        assert(text =~= first + text.skip(1));
        Seq::filter_distributes_over_add(first, text.skip(1), no_dash);
        reveal_with_fuel(Seq::filter, 2);
        assert(first.drop_last() =~= Seq::<char>::empty());
        assert(first.last() == '-');
        assert(first.filter(no_dash) =~= Seq::<char>::empty());
        assert(undashed(text) =~= undashed(text.skip(1)));
    }
}

proof fn a_trimmed_end_was_dashes(text: Seq<char>)
    ensures
        undashed(trim_dashes_end(text)) == undashed(text),
    decreases text.len(),
{
    reveal(Seq::filter);
    if text.len() > 0 && text.last() == '-' {
        a_trimmed_end_was_dashes(text.drop_last());
    }
}

/// Every letter and digit of a title stands in its slug, in order and in small writing: up to
/// the cut at 64 characters the slug without its dashes is the title's letters and digits, and
/// where the cut fell it begins them. A title without any gives a fixed name.
pub proof fn a_slug_spells_its_title(title: Seq<char>)
    ensures
        spelled(title).len() == 0 ==> slugged(title) == "board"@,
        spelled(title).len() > 0 ==> undashed(slugged(title)).is_prefix_of(spelled(title)),
        spelled(title).len() > 0 && slugged(title).len() < 64 ==> undashed(slugged(title))
            == spelled(title),
{
    let all = dashed(title);
    let start = trim_dashes_start(all);
    let core = trim_dashes_end(start);
    dashes_aside_the_letters_stay(title);
    a_trimmed_start_was_dashes(all);
    a_trimmed_end_was_dashes(start);
    trim_dashes_end_is_a_head(start);
    let no_dash = |c: char| c != '-';
    reveal(Seq::filter);
    if core.len() > 0 {
        assert(core.last() != '-');
        assert(undashed(core).len() > 0);
        if core.len() > 64 {
            assert(core =~= core.take(64) + core.skip(64));
            Seq::filter_distributes_over_add(core.take(64), core.skip(64), no_dash);
        }
    } else {
        assert(undashed(core).len() == 0);
    }
}

/// Whether a text is letters and digits only.
pub open spec fn is_word(text: Seq<char>) -> bool {
    forall|k: int|
        0 <= k < text.len() ==> ('a' <= #[trigger] text[k] <= 'z') || ('A' <= text[k] <= 'Z') || (
        '0' <= text[k] <= '9')
}

/// Whether a text has neither a letter nor a digit in it.
pub open spec fn is_gap(text: Seq<char>) -> bool {
    forall|k: int|
        0 <= k < text.len() ==> !('a' <= #[trigger] text[k] <= 'z') && !('A' <= text[k] <= 'Z')
            && !('0' <= text[k] <= '9')
}

proof fn a_word_goes_behind(before: Seq<char>, word: Seq<char>)
    requires
        is_word(word),
    ensures
        dashed(before + word) == dashed(before) + small_letters(word),
    decreases word.len(),
{
    if word.len() == 0 {
        assert(before + word =~= before);
        assert(dashed(before) + small_letters(word) =~= dashed(before));
    } else {
        let rest = word.drop_last();
        assert forall|k: int| 0 <= k < rest.len() implies ('a' <= #[trigger] rest[k] <= 'z') || (
        'A' <= rest[k] <= 'Z') || ('0' <= rest[k] <= '9') by {
            assert(word[k] == rest[k]);
        }
        a_word_goes_behind(before, rest);
        assert((before + word).drop_last() =~= before + rest);
        assert((before + word).last() == word[word.len() - 1]);
        lower_is_the_small_letter(word[word.len() - 1]);
        assert(dashed(before + word) =~= dashed(before) + small_letters(word));
    }
}

proof fn a_gap_is_one_dash(before: Seq<char>, gap: Seq<char>)
    requires
        is_gap(gap),
        gap.len() > 0,
    ensures
        dashed(before + gap) == (if dashed(before).len() > 0 && dashed(before).last() == '-' {
            dashed(before)
        } else {
            dashed(before).push('-')
        }),
    decreases gap.len(),
{
    let rest = gap.drop_last();
    assert forall|k: int| 0 <= k < rest.len() implies !('a' <= #[trigger] rest[k] <= 'z') && !('A'
        <= rest[k] <= 'Z') && !('0' <= rest[k] <= '9') by {
        assert(gap[k] == rest[k]);
    }
    assert((before + gap).drop_last() =~= before + rest);
    assert((before + gap).last() == gap[gap.len() - 1]);
    lower_is_the_small_letter(gap[gap.len() - 1]);
    if rest.len() > 0 {
        a_gap_is_one_dash(before, rest);
    } else {
        assert(before + rest =~= before);
    }
}

/// A title of letters and digits alone is its own slug, in small writing and up to 64
/// characters; a title of small letters and digits is its own slug as it stands.
pub proof fn a_word_is_its_own_slug(word: Seq<char>)
    requires
        is_word(word),
        word.len() > 0,
    ensures
        word.len() <= 64 ==> slugged(word) == small_letters(word),
        word.len() > 64 ==> slugged(word) == small_letters(word).take(64),
        word.len() <= 64 && (forall|k: int|
            0 <= k < word.len() ==> !('A' <= #[trigger] word[k] <= 'Z')) ==> slugged(word) == word,
{
    let none = Seq::<char>::empty();
    a_word_goes_behind(none, word);
    assert(none + word =~= word);
    assert(dashed(none) + small_letters(word) =~= small_letters(word));
    lower_is_the_small_letter(word[0]);
    lower_is_the_small_letter(word[word.len() - 1]);
    if forall|k: int| 0 <= k < word.len() ==> !('A' <= #[trigger] word[k] <= 'Z') {
        assert(small_letters(word) =~= word);
    }
}

proof fn trimming_a_start_leaves_the_end(text: Seq<char>, behind: Seq<char>)
    requires
        behind.len() > 0,
        behind[0] != '-',
    ensures
        trim_dashes_start(text + behind) == trim_dashes_start(text) + behind,
    decreases text.len(),
{
    if text.len() > 0 && text[0] == '-' {
        assert((text + behind).skip(1) =~= text.skip(1) + behind);
        trimming_a_start_leaves_the_end(text.skip(1), behind);
    } else if text.len() == 0 {
        assert(text + behind =~= behind);
    }
}

proof fn a_word_has_no_dash_at_its_ends(word: Seq<char>)
    requires
        is_word(word),
        word.len() > 0,
    ensures
        small_letters(word).len() == word.len(),
        small_letters(word)[0] != '-',
        small_letters(word).last() != '-',
{
    lower_is_the_small_letter(word[0]);
    lower_is_the_small_letter(word[word.len() - 1]);
}

proof fn a_gap_in_front_goes(gap: Seq<char>, word: Seq<char>)
    requires
        is_word(word),
        word.len() > 0,
        is_gap(gap),
    ensures
        slugged(gap + word) == slugged(word),
{
    let none = Seq::<char>::empty();
    let small = small_letters(word);
    a_word_has_no_dash_at_its_ends(word);
    a_word_goes_behind(none, word);
    assert(none + word =~= word);
    assert(dashed(word) =~= small);
    a_word_goes_behind(gap, word);
    trimming_a_start_leaves_the_end(dashed(gap), small);
    if gap.len() > 0 {
        a_gap_is_one_dash(none, gap);
        assert(none + gap =~= gap);
        assert(dashed(gap) =~= seq!['-']);
        assert(dashed(gap).skip(1) =~= none);
        assert(trim_dashes_start(dashed(gap)) == trim_dashes_start(none));
    } else {
        assert(gap =~= none);
    }
    assert(trim_dashes_start(dashed(gap)) =~= none);
    assert(none + small =~= small);
}

proof fn a_gap_behind_goes(title: Seq<char>, gap: Seq<char>, word: Seq<char>)
    requires
        is_word(word),
        word.len() > 0,
        is_gap(gap),
    ensures
        slugged(title + word + gap) == slugged(title + word),
{
    let small = small_letters(word);
    a_word_has_no_dash_at_its_ends(word);
    let first = title + word;
    a_word_goes_behind(title, word);
    assert(dashed(first).last() == small.last());
    trimming_a_start_leaves_the_end(dashed(title), small);
    let start = trim_dashes_start(dashed(first));
    assert(start.last() == small.last());
    if gap.len() > 0 {
        a_gap_is_one_dash(first, gap);
        let after = trim_dashes_start(dashed(title)) + small.push('-');
        trimming_a_start_leaves_the_end(dashed(title), small.push('-'));
        assert(dashed(first + gap) =~= dashed(title) + small.push('-'));
        assert(after.drop_last() =~= start);
        assert(trim_dashes_end(after) == trim_dashes_end(start));
    } else {
        assert(first + gap =~= first);
    }
}

proof fn one_dash_stays_behind(title: Seq<char>)
    requires
        spelled(title).len() > 0,
    ensures
        ({
            let all = dashed(title);
            let core = trim_dashes_end(trim_dashes_start(all));
            &&& core.len() > 0
            &&& core[0] != '-'
            &&& all.len() > 0
            &&& all.last() == '-' ==> trim_dashes_start(all) == core.push('-')
            &&& all.last() != '-' ==> trim_dashes_start(all.push('-')) == core.push('-')
        }),
{
    let all = dashed(title);
    let kept = trim_dashes_start(all);
    let core = trim_dashes_end(kept);
    dashes_aside_the_letters_stay(title);
    a_trimmed_start_was_dashes(all);
    a_trimmed_end_was_dashes(kept);
    trim_dashes_start_is_a_tail(all);
    trim_dashes_end_is_a_head(kept);
    assert(core.len() > 0) by {
        reveal(Seq::filter);
    }
    assert(core[0] == kept[0]);
    let from = all.len() - kept.len();
    if all.last() == '-' {
        assert(kept.last() == '-');
        assert(kept.len() > 1) by {
            assert(kept[0] != '-');
        }
        assert(kept[kept.len() - 1] == all[all.len() - 1]);
        assert(kept[kept.len() - 2] == all[all.len() - 2]);
        dashes_stand_alone(title, all.len() - 1);
        assert(kept.drop_last().last() == kept[kept.len() - 2]);
        assert(core == trim_dashes_end(kept.drop_last()));
        assert(core == kept.drop_last());
        assert(kept =~= core.push('-'));
    } else {
        assert(kept.last() == all.last());
        assert(core == kept);
        assert(all.push('-') =~= all.take(from) + kept.push('-'));
        assert(all =~= all.take(from) + kept);
        trimming_a_start_leaves_the_end(all.take(from), kept);
        trimming_a_start_leaves_the_end(all.take(from), kept.push('-'));
        assert(trim_dashes_start(all.take(from)).len() == 0);
        assert(trim_dashes_start(all.push('-')) =~= kept.push('-'));
    }
}

proof fn a_gap_between_is_one_dash(title: Seq<char>, gap: Seq<char>, word: Seq<char>)
    requires
        is_word(word),
        word.len() > 0,
        is_gap(gap),
        gap.len() > 0,
        spelled(title).len() > 0,
        slugged(title).len() + 1 + word.len() <= 64,
    ensures
        slugged(title + gap + word) == slugged(title).push('-') + small_letters(word),
{
    let small = small_letters(word);
    let all = dashed(title);
    let core = trim_dashes_end(trim_dashes_start(all));
    a_word_has_no_dash_at_its_ends(word);
    one_dash_stays_behind(title);
    a_word_goes_behind(title + gap, word);
    a_gap_is_one_dash(title, gap);
    trimming_a_start_leaves_the_end(dashed(title + gap), small);
    let whole = core.push('-') + small;
    assert(trim_dashes_start(dashed(title + gap + word)) == whole);
    assert(whole.last() == small.last());
    assert(trim_dashes_end(whole) == whole);
    assert(slugged(title) == core);
}

/// One more word puts one dash and the word behind the slug, however the two are parted; what
/// is no letter and no digit in front of a title or behind it leaves the slug as it is.
pub proof fn a_gap_between_words_is_one_dash(title: Seq<char>, gap: Seq<char>, word: Seq<char>)
    requires
        is_word(word),
        word.len() > 0,
        is_gap(gap),
    ensures
        slugged(gap + word) == slugged(word),
        slugged(title + word + gap) == slugged(title + word),
        gap.len() > 0 && spelled(title).len() > 0 && slugged(title).len() + 1 + word.len() <= 64
            ==> slugged(title + gap + word) == slugged(title).push('-') + small_letters(word),
{
    a_gap_in_front_goes(gap, word);
    a_gap_behind_goes(title, gap, word);
    if gap.len() > 0 && spelled(title).len() > 0 && slugged(title).len() + 1 + word.len() <= 64 {
        a_gap_between_is_one_dash(title, gap, word);
    }
}

proof fn the_last_dot_is_the_only_one(name: Seq<char>, behind: Seq<char>)
    requires
        forall|i: int| 0 <= i < behind.len() ==> behind[i] != '.',
    ensures
        last_dot(name + seq!['.'] + behind) == name.len(),
    decreases behind.len(),
{
    let all = name + seq!['.'] + behind;
    if behind.len() == 0 {
        assert(all.last() == '.');
    } else {
        let less = behind.drop_last();
        assert(all.last() == behind.last());
        assert(all.drop_last() =~= name + seq!['.'] + less);
        the_last_dot_is_the_only_one(name, less);
    }
}

/// A board file's stem is its name without the ending, wherever the file lies.
pub proof fn a_board_file_is_named_by_its_stem(dir: Seq<char>, name: Seq<char>)
    requires
        name.len() > 0,
        forall|i: int| 0 <= i < name.len() ==> name[i] != '/',
    ensures
        stem(dir + seq!['/'] + name + ".vellum"@) == Some(name),
{
    reveal_strlit(".vellum");
    let file = name + ".vellum"@;
    let behind = seq!['v', 'e', 'l', 'l', 'u', 'm'];
    assert(file =~= name + seq!['.'] + behind);
    the_last_dot_is_the_only_one(name, behind);
    assert(dir + seq!['/'] + name + ".vellum"@ =~= dir + seq!['/'] + file);
    reveal_strlit(".");
    reveal_strlit("..");
    assert(file.len() > 2);
    the_last_component_stands_behind_the_last_slash(dir, file);
    assert(file.take(name.len() as int) =~= name);
}

/// The names tried for a new board never repeat, so the search for a free one ends as soon
/// as there are more tries than files.
pub proof fn candidate_names_never_repeat(title: Seq<char>, a: nat, b: nat)
    requires
        0 < a,
        0 < b,
        candidate(title, a) == candidate(title, b),
    ensures
        a == b,
{
    reveal_strlit("-");
    reveal_strlit(".vellum");
    let stem = slugged(title);
    let ext = ".vellum"@;
    crate::text::decimal_is_not_empty(a);
    crate::text::decimal_is_not_empty(b);
    if a > 1 && b > 1 {
        let x = candidate(title, a);
        let y = candidate(title, b);
        assert(x.len() == stem.len() + 1 + decimal(a).len() + 7);
        assert(y.len() == stem.len() + 1 + decimal(b).len() + 7);
        assert(x.subrange(stem.len() as int + 1, x.len() - 7) =~= decimal(a));
        assert(y.subrange(stem.len() as int + 1, y.len() - 7) =~= decimal(b));
        decimal_is_injective(a, b);
    } else {
        assert(candidate(title, 1).len() == stem.len() + 7);
    }
}

/// A board is in at most one space. Filing it puts it in the named space, if there is one,
/// and in no other, whatever it was in before.
pub proof fn a_board_is_in_at_most_one_space(
    list: Seq<Folder>,
    path: Seq<char>,
    space: Option<Seq<char>>,
    at: int,
)
    requires
        0 <= at < list.len(),
    ensures
        filed(list, path, space).len() == list.len(),
        filed(list, path, space)[at].boards.contains(path) <==> (space is Some && at == named(
            list,
            space->0,
        )),
{
    without_drops_exactly(list[at].boards, path, path);
    if space is Some {
        named_bounds(list, space->0);
        let target = named(list, space->0);
        if at == target {
            let boards = filed(list, path, space)[at].boards;
            assert(boards[boards.len() - 1] == path);
        }
    }
}

/// Filing one board leaves every other board, and every space's name and pin, as they were.
pub proof fn filing_a_board_moves_no_other(
    list: Seq<Folder>,
    path: Seq<char>,
    space: Option<Seq<char>>,
    other: Seq<char>,
    at: int,
)
    requires
        0 <= at < list.len(),
        other != path,
    ensures
        filed(list, path, space)[at].boards.contains(other) == list[at].boards.contains(other),
        filed(list, path, space)[at].name == list[at].name,
        filed(list, path, space)[at].pinned == list[at].pinned,
{
    without_drops_exactly(list[at].boards, path, other);
    let kept = without(list[at].boards, path);
    if space is Some {
        named_bounds(list, space->0);
        if at == named(list, space->0) {
            let boards = filed(list, path, space)[at].boards;
            assert(boards == kept.push(path));
            if kept.contains(other) {
                let k = choose|k: int| 0 <= k < kept.len() && kept[k] == other;
                assert(boards[k] == other);
            }
            if boards.contains(other) {
                let k = choose|k: int| 0 <= k < boards.len() && boards[k] == other;
                assert(kept[k] == other);
            }
        }
    }
}

proof fn naming_ignores_boards(list: Seq<Folder>, changed: Seq<Folder>, name: Seq<char>)
    requires
        list.len() == changed.len(),
        forall|k: int| 0 <= k < list.len() ==> (#[trigger] changed[k]).name == list[k].name,
    ensures
        named(list, name) == named(changed, name),
    decreases list.len(),
{
    if list.len() > 0 && list[0].name != name {
        assert(changed[0].name == list[0].name);
        assert forall|k: int| 0 <= k < list.skip(1).len() implies (#[trigger] changed.skip(
            1,
        )[k]).name == list.skip(1)[k].name by {
            assert(changed[k + 1].name == list[k + 1].name);
        }
        naming_ignores_boards(list.skip(1), changed.skip(1), name);
    } else if list.len() > 0 {
        assert(changed[0].name == list[0].name);
    }
}

/// Filing a board twice is filing it where it went last.
pub proof fn only_the_last_filing_counts(
    list: Seq<Folder>,
    path: Seq<char>,
    first: Option<Seq<char>>,
    last: Option<Seq<char>>,
)
    ensures
        filed(filed(list, path, first), path, last) == filed(list, path, last),
{
    let once = filed(list, path, first);
    if first is Some {
        named_bounds(list, first->0);
    }
    assert(once.len() == list.len());
    assert forall|k: int| 0 <= k < list.len() implies (#[trigger] once[k]).name == list[k].name
        && once[k].pinned == list[k].pinned && without(once[k].boards, path) == without(
        list[k].boards,
        path,
    ) by {
        let kept = without(list[k].boards, path);
        without_drops_exactly(list[k].boards, path, path);
        without_absent(kept, path);
        if first is Some {
            named_bounds(list, first->0);
            if k == named(list, first->0) {
                assert(once[k].boards == kept.push(path));
                assert(kept.push(path).drop_last() =~= kept);
            }
        }
    }
    if last is Some {
        naming_ignores_boards(list, once, last->0);
    }
    let a = once.map_values(|folder: Folder| emptied_of(folder, path));
    let b = list.map_values(|folder: Folder| emptied_of(folder, path));
    assert forall|k: int| 0 <= k < list.len() implies a[k] == b[k] by {
        assert(once[k].name == list[k].name);
    }
    assert(a =~= b);
}

/// Whether spaces stand in the order they are listed.
pub open spec fn listed_in_order(list: Seq<Folder>) -> bool {
    forall|i: int, j: int|
        0 <= i < j < list.len() ==> !listed_before(#[trigger] list[j], #[trigger] list[i])
}

/// Whether neither of two spaces is listed before the other.
pub open spec fn tied(a: Folder, b: Folder) -> bool {
    !listed_before(a, b) && !listed_before(b, a)
}

proof fn listing_order(a: Folder, b: Folder, c: Folder)
    ensures
        listed_before(a, b) ==> !listed_before(b, a),
        !listed_before(b, a) && !listed_before(c, b) ==> !listed_before(c, a),
{
    let (x, y, z) = (lowered(a.name), lowered(b.name), lowered(c.name));
    the_order_is_total(x, y);
    the_order_is_total(y, z);
    the_order_is_total(x, z);
    if precedes(x, y) && precedes(y, z) {
        the_order_is_transitive(x, y, z);
    }
    if precedes(z, x) && precedes(x, y) {
        the_order_is_transitive(z, x, y);
    }
    if precedes(y, z) && precedes(z, x) {
        the_order_is_transitive(y, z, x);
    }
}

proof fn slot_of(list: Seq<Folder>, one: Folder) -> (at: int)
    ensures
        0 <= at <= list.len(),
        forall|k: int| at <= k < list.len() ==> listed_before(one, #[trigger] list[k]),
        at > 0 ==> !listed_before(one, list[at - 1]),
        slotted(list, one) == list.insert(at, one),
    decreases list.len(),
{
    if list.len() > 0 && listed_before(one, list.last()) {
        let at = slot_of(list.drop_last(), one);
        assert forall|k: int| at <= k < list.len() implies listed_before(
            one,
            #[trigger] list[k],
        ) by {
            if k < list.len() - 1 {
                assert(list[k] == list.drop_last()[k]);
            }
        }
        slotted_at(list, one, at);
        at
    } else {
        slotted_at(list, one, list.len() as int);
        list.len() as int
    }
}

/// Sorting puts pinned spaces first and the rest by name, and loses none and adds none.
pub proof fn sorting_lists_every_space_in_order(list: Seq<Folder>)
    ensures
        listed_in_order(in_order(list)),
        in_order(list).to_multiset() == list.to_multiset(),
        in_order(list).len() == list.len(),
    decreases list.len(),
{
    broadcast use vstd::seq_lib::group_to_multiset_ensures;

    if list.len() > 0 {
        let rest = in_order(list.drop_last());
        let one = list.last();
        sorting_lists_every_space_in_order(list.drop_last());
        let at = slot_of(rest, one);
        let all = rest.insert(at, one);
        assert forall|i: int, j: int| 0 <= i < j < all.len() implies !listed_before(
            #[trigger] all[j],
            #[trigger] all[i],
        ) by {
            if j < at {
                assert(all[i] == rest[i] && all[j] == rest[j]);
            } else if j == at {
                assert(all[i] == rest[i] && all[j] == one);
                if i < at - 1 {
                    assert(!listed_before(rest[at - 1], rest[i]));
                }
                listing_order(rest[i], rest[at - 1], one);
            } else if i < at {
                assert(all[i] == rest[i] && all[j] == rest[j - 1]);
            } else if i == at {
                assert(all[j] == rest[j - 1]);
                listing_order(one, rest[j - 1], one);
            } else {
                assert(all[i] == rest[i - 1] && all[j] == rest[j - 1]);
            }
        }
        assert(list.drop_last().push(one) =~= list);
    }
}

/// Sorting is stable: spaces that tie with any one space keep the order they had.
pub proof fn sorting_is_stable(list: Seq<Folder>, like: Folder)
    ensures
        in_order(list).filter(|folder: Folder| tied(folder, like)) == list.filter(
            |folder: Folder| tied(folder, like),
        ),
    decreases list.len(),
{
    if list.len() > 0 {
        let pred = |folder: Folder| tied(folder, like);
        let rest = in_order(list.drop_last());
        let one = list.last();
        sorting_is_stable(list.drop_last(), like);
        let at = slot_of(rest, one);
        let head = rest.take(at);
        let tail = rest.skip(at);
        assert(rest =~= head + tail);
        Seq::filter_distributes_over_add(head, tail, pred);
        assert(rest.insert(at, one) =~= head.push(one) + tail);
        Seq::filter_distributes_over_add(head.push(one), tail, pred);
        assert(head.push(one) =~= head + seq![one]);
        Seq::filter_distributes_over_add(head, seq![one], pred);
        if tied(one, like) {
            assert forall|k: int| 0 <= k < tail.len() implies !pred(#[trigger] tail[k]) by {
                assert(tail[k] == rest[at + k]);
                assert(listed_before(one, rest[at + k]));
                listing_order(tail[k], like, one);
                listing_order(one, like, tail[k]);
            }
            nothing_passes(tail, pred);
            assert(head.filter(pred) + seq![one].filter(pred) + tail.filter(pred)
                =~= head.filter(pred) + tail.filter(pred) + seq![one].filter(pred));
        } else {
            one_fails(one, pred);
            assert(head.filter(pred) + seq![one].filter(pred) =~= head.filter(pred));
        }
        assert(list =~= list.drop_last() + seq![one]);
        Seq::filter_distributes_over_add(list.drop_last(), seq![one], pred);
    }
}

proof fn nothing_passes(list: Seq<Folder>, pred: spec_fn(Folder) -> bool)
    requires
        forall|k: int| 0 <= k < list.len() ==> !pred(#[trigger] list[k]),
    ensures
        list.filter(pred).len() == 0,
    decreases list.len(),
{
    reveal(Seq::filter);
    if list.len() > 0 {
        assert forall|k: int| 0 <= k < list.drop_last().len() implies !pred(
            #[trigger] list.drop_last()[k],
        ) by {
            assert(!pred(list[k]));
        }
        nothing_passes(list.drop_last(), pred);
        assert(!pred(list[list.len() - 1]));
    }
}

proof fn one_fails(one: Folder, pred: spec_fn(Folder) -> bool)
    requires
        !pred(one),
    ensures
        seq![one].filter(pred).len() == 0,
{
    nothing_passes(seq![one], pred);
}

/// Whether no two spaces have the same name.
pub open spec fn distinct_names(list: Seq<Folder>) -> bool {
    forall|i: int, j: int|
        0 <= i < j < list.len() ==> (#[trigger] list[i]).name != (#[trigger] list[j]).name
}

proof fn sorting_keeps_members(list: Seq<Folder>, one: Folder)
    ensures
        in_order(list).contains(one) == list.contains(one),
{
    broadcast use vstd::seq_lib::group_to_multiset_ensures;

    sorting_lists_every_space_in_order(list);
    assert(in_order(list).contains(one) <==> in_order(list).to_multiset().count(one) > 0);
    assert(list.contains(one) <==> list.to_multiset().count(one) > 0);
}

proof fn sorting_keeps_names_distinct(list: Seq<Folder>)
    requires
        distinct_names(list),
    ensures
        distinct_names(in_order(list)),
    decreases list.len(),
{
    if list.len() > 0 {
        let rest = in_order(list.drop_last());
        let one = list.last();
        assert(distinct_names(list.drop_last())) by {
            assert forall|i: int, j: int| 0 <= i < j < list.drop_last().len() implies (
            #[trigger] list.drop_last()[i]).name != (#[trigger] list.drop_last()[j]).name by {
                assert(list[i].name != list[j].name);
            }
        }
        sorting_keeps_names_distinct(list.drop_last());
        let at = slot_of(rest, one);
        let all = rest.insert(at, one);
        assert forall|k: int| 0 <= k < rest.len() implies (#[trigger] rest[k]).name
            != one.name by {
            sorting_keeps_members(list.drop_last(), rest[k]);
            assert(rest.contains(rest[k]));
            let i = choose|i: int|
                0 <= i < list.drop_last().len() && list.drop_last()[i] == rest[k];
            assert(list[i].name != list[list.len() - 1].name);
        }
        assert forall|i: int, j: int| 0 <= i < j < all.len() implies (#[trigger] all[i]).name
            != (#[trigger] all[j]).name by {
            if j < at {
                assert(all[i] == rest[i] && all[j] == rest[j]);
            } else if j == at {
                assert(all[i] == rest[i]);
            } else if i < at {
                assert(all[i] == rest[i] && all[j] == rest[j - 1]);
            } else if i == at {
                assert(all[j] == rest[j - 1]);
            } else {
                assert(all[i] == rest[i - 1] && all[j] == rest[j - 1]);
            }
        }
    }
}

/// A space's name is never reused: as long as no two spaces share a name, adding one under
/// a name that is not taken, renaming one to such a name, and pinning one keep it so.
pub proof fn space_names_stay_distinct(
    list: Seq<Folder>,
    at: int,
    fresh: Seq<char>,
    pinned: bool,
)
    requires
        distinct_names(list),
        !is_name(list, fresh),
    ensures
        distinct_names(
            in_order(list.push((Folder { name: fresh, boards: Seq::empty(), pinned: false }))),
        ),
        0 <= at < list.len() ==> distinct_names(
            in_order(list.update(at, (Folder { name: fresh, ..list[at] }))),
        ),
        0 <= at < list.len() ==> distinct_names(
            in_order(list.update(at, (Folder { pinned, ..list[at] }))),
        ),
{
    named_bounds(list, fresh);
    let added = list.push(Folder { name: fresh, boards: Seq::empty(), pinned: false });
    assert forall|i: int, j: int| 0 <= i < j < added.len() implies (#[trigger] added[i]).name
        != (#[trigger] added[j]).name by {
        assert(added[i] == list[i]);
        if j < list.len() {
            assert(added[j] == list[j]);
        }
    }
    sorting_keeps_names_distinct(added);
    if 0 <= at < list.len() {
        let renamed = list.update(at, Folder { name: fresh, ..list[at] });
        assert forall|i: int, j: int| 0 <= i < j < renamed.len() implies (
        #[trigger] renamed[i]).name != (#[trigger] renamed[j]).name by {
            if i != at {
                assert(renamed[i] == list[i]);
            }
            if j != at {
                assert(renamed[j] == list[j]);
            }
        }
        sorting_keeps_names_distinct(renamed);
        let repinned = list.update(at, Folder { pinned, ..list[at] });
        assert forall|i: int, j: int| 0 <= i < j < repinned.len() implies (
        #[trigger] repinned[i]).name != (#[trigger] repinned[j]).name by {
            assert(repinned[i].name == list[i].name);
            assert(repinned[j].name == list[j].name);
        }
        sorting_keeps_names_distinct(repinned);
    }
}

proof fn unbinned_absent(bin: Seq<(Seq<char>, u64)>, path: Seq<char>)
    requires
        binned_at(bin, path) is None,
    ensures
        unbinned(bin, path) == bin,
    decreases bin.len(),
{
    if bin.len() > 0 {
        unbinned_absent(bin.drop_last(), path);
        assert(bin.drop_last().push(bin.last()) =~= bin);
    }
}

/// A restored board is out of Recently deleted, and no other board's stay there changes.
pub proof fn restoring_takes_out_one_board(
    bin: Seq<(Seq<char>, u64)>,
    path: Seq<char>,
    other: Seq<char>,
)
    ensures
        binned_at(unbinned(bin, path), path) is None,
        other != path ==> binned_at(unbinned(bin, path), other) == binned_at(bin, other),
    decreases bin.len(),
{
    if bin.len() > 0 {
        restoring_takes_out_one_board(bin.drop_last(), path, other);
        let kept = unbinned(bin.drop_last(), path);
        assert(kept.push(bin.last()).drop_last() =~= kept);
    }
}

/// Restoring undoes deleting: a board that was not in Recently deleted, deleted and
/// restored, leaves it exactly as it was. While it is there it is there since that time.
pub proof fn restoring_undoes_deleting(bin: Seq<(Seq<char>, u64)>, path: Seq<char>, now: u64)
    requires
        binned_at(bin, path) is None,
    ensures
        binned_at(bin.push((path, now)), path) == Some(now),
        unbinned(bin.push((path, now)), path) == bin,
{
    assert(bin.push((path, now)).drop_last() =~= bin);
    unbinned_absent(bin, path);
}

/// After a purge nothing in the filing points at the board, and everything that pointed at
/// another still does.
pub proof fn a_purge_forgets_exactly_one_board(
    starred: Seq<Seq<char>>,
    list: Seq<Folder>,
    bin: Seq<(Seq<char>, u64)>,
    path: Seq<char>,
    other: Seq<char>,
    at: int,
)
    requires
        0 <= at < list.len(),
        other != path,
    ensures
        !without(starred, path).contains(path),
        without(starred, path).contains(other) == starred.contains(other),
        binned_at(unbinned(bin, path), path) is None,
        binned_at(unbinned(bin, path), other) == binned_at(bin, other),
        !emptied_of(list[at], path).boards.contains(path),
        emptied_of(list[at], path).boards.contains(other) == list[at].boards.contains(other),
{
    without_drops_exactly(starred, path, path);
    without_drops_exactly(starred, path, other);
    without_drops_exactly(list[at].boards, path, path);
    without_drops_exactly(list[at].boards, path, other);
    restoring_takes_out_one_board(bin, path, other);
}

/// After a rescan the filing points at nothing but boards that were found, and still at
/// every one of those it pointed at before.
pub proof fn filing_points_only_at_boards_that_are_there(
    list: Seq<Seq<char>>,
    live: Seq<Seq<char>>,
    path: Seq<char>,
)
    ensures
        among(list, live).contains(path) == (list.contains(path) && live.contains(path)),
    decreases list.len(),
{
    if list.len() > 0 {
        let rest = list.drop_last();
        let kept = among(rest, live);
        let all = among(list, live);
        filing_points_only_at_boards_that_are_there(rest, live, path);
        if list.contains(path) && live.contains(path) {
            let i = choose|i: int| 0 <= i < list.len() && list[i] == path;
            if i < rest.len() {
                assert(rest[i] == path);
                let k = choose|k: int| 0 <= k < kept.len() && kept[k] == path;
                assert(all[k] == path);
            } else {
                assert(all[all.len() - 1] == path);
            }
        }
        if all.contains(path) {
            let k = choose|k: int| 0 <= k < all.len() && all[k] == path;
            if k < kept.len() {
                assert(kept[k] == path);
                let i = choose|i: int| 0 <= i < rest.len() && rest[i] == path;
                assert(list[i] == path);
            } else {
                assert(list[list.len() - 1] == path);
            }
        }
    }
}

/// The filing survives a reopen: what a scan kept, another scan of the same boards keeps,
/// every star and every folder in its order.
pub proof fn the_filing_survives_a_reopen(
    list: Seq<Seq<char>>,
    folder: Folder,
    live: Seq<Seq<char>>,
)
    ensures
        among(among(list, live), live) == among(list, live),
        pruned(pruned(folder, live), live) == pruned(folder, live),
{
    among_twice_is_once(list, live);
    among_twice_is_once(folder.boards, live);
}

proof fn among_twice_is_once(list: Seq<Seq<char>>, live: Seq<Seq<char>>)
    ensures
        among(among(list, live), live) == among(list, live),
    decreases list.len(),
{
    if list.len() > 0 {
        let kept = among(list.drop_last(), live);
        among_twice_is_once(list.drop_last(), live);
        if live.contains(list.last()) {
            assert(kept.push(list.last()).drop_last() =~= kept);
        }
    }
}

proof fn camera_in_two(
    a: Seq<(Seq<char>, [Scalar; 3])>,
    b: Seq<(Seq<char>, [Scalar; 3])>,
    path: Seq<char>,
)
    ensures
        camera_of(a + b, path) == (match camera_of(a, path) {
            Some(camera) => Some(camera),
            None => camera_of(b, path),
        }),
    decreases a.len(),
{
    if a.len() == 0 {
        assert(a + b =~= b);
    } else {
        assert((a + b)[0] == a[0]);
        assert((a + b).skip(1) =~= a.skip(1) + b);
        camera_in_two(a.skip(1), b, path);
    }
}

proof fn camera_of_one(board: Seq<char>, camera: [Scalar; 3], path: Seq<char>)
    ensures
        camera_of(seq![(board, camera)], path) == (if board == path {
            Some(camera)
        } else {
            None
        }),
{
    let one = seq![(board, camera)];
    assert(one[0].0 == board);
    assert(one.skip(1).len() == 0);
    assert(camera_of(one.skip(1), path) is None);
}

proof fn cameras_without_drops(
    cameras: Seq<(Seq<char>, [Scalar; 3])>,
    path: Seq<char>,
    other: Seq<char>,
)
    ensures
        camera_of(cameras_without(cameras, path), path) is None,
        other != path ==> camera_of(cameras_without(cameras, path), other) == camera_of(
            cameras,
            other,
        ),
    decreases cameras.len(),
{
    if cameras.len() > 0 {
        let rest = cameras.drop_last();
        let last = seq![cameras.last()];
        cameras_without_drops(rest, path, other);
        assert(cameras =~= rest + last);
        camera_in_two(rest, last, other);
        let kept = cameras_without(rest, path);
        assert(kept.push(cameras.last()) =~= kept + last);
        camera_in_two(kept, last, other);
        camera_in_two(kept, last, path);
        camera_of_one(cameras.last().0, cameras.last().1, path);
        camera_of_one(cameras.last().0, cameras.last().1, other);
        assert(last =~= seq![(cameras.last().0, cameras.last().1)]);
    }
}

/// The camera a board opens at is the one last recorded for it, and recording one changes
/// no other board's.
pub proof fn a_board_opens_where_it_was_last_told_to(
    cameras: Seq<(Seq<char>, [Scalar; 3])>,
    path: Seq<char>,
    camera: [Scalar; 3],
    other: Seq<char>,
)
    ensures
        camera_of(cameras_without(cameras, path).push((path, camera)), path) == Some(camera),
        other != path ==> camera_of(cameras_without(cameras, path).push((path, camera)), other)
            == camera_of(cameras, other),
{
    let kept = cameras_without(cameras, path);
    let last = seq![(path, camera)];
    cameras_without_drops(cameras, path, other);
    assert(kept.push((path, camera)) =~= kept + last);
    camera_in_two(kept, last, path);
    camera_in_two(kept, last, other);
    camera_of_one(path, camera, path);
    camera_of_one(path, camera, other);
}

/// Deleting a space deletes no other, and the boards it held are listed as before: a space
/// that stays keeps its boards.
pub proof fn deleting_a_space_deletes_no_other(list: Seq<Folder>, name: Seq<char>, other: Folder)
    ensures
        without_name(list, name).contains(other) == (list.contains(other) && other.name != name),
    decreases list.len(),
{
    if list.len() > 0 {
        let rest = list.drop_last();
        let kept = without_name(rest, name);
        let all = without_name(list, name);
        deleting_a_space_deletes_no_other(rest, name, other);
        if list.contains(other) && other.name != name {
            let i = choose|i: int| 0 <= i < list.len() && list[i] == other;
            if i < rest.len() {
                assert(rest[i] == other);
                let k = choose|k: int| 0 <= k < kept.len() && kept[k] == other;
                assert(all[k] == other);
            } else {
                assert(all[all.len() - 1] == other);
            }
        }
        if all.contains(other) {
            let k = choose|k: int| 0 <= k < all.len() && all[k] == other;
            if k < kept.len() {
                assert(kept[k] == other);
                let i = choose|i: int| 0 <= i < rest.len() && rest[i] == other;
                assert(list[i] == other);
            } else {
                assert(list[list.len() - 1] == other);
            }
        }
    }
}

// ----- word by word ---------------------------------------------------------------------

/// Each theme, accent and pattern is stored under its own word and read from it; a word that
/// is none of these, and no word, is the system's theme, teal, and no pattern.
pub proof fn each_preference_has_its_word(word: String)
    ensures
        theme_word(ThemePreference::Light) == "light"@,
        theme_word(ThemePreference::Dark) == "dark"@,
        theme_word(ThemePreference::System) == "system"@,
        theme_of(Some(word)) is Light <==> word@ == "light"@,
        theme_of(Some(word)) is Dark <==> word@ == "dark"@,
        theme_of(None) is System,
        accent_word(Accent::Teal) == "teal"@,
        accent_word(Accent::Red) == "red"@,
        accent_word(Accent::Blue) == "blue"@,
        accent_of(Some(word)) is Red <==> word@ == "red"@,
        accent_of(Some(word)) is Blue <==> word@ == "blue"@,
        accent_of(None) is Teal,
        pattern_word(Pattern::Plain) == "plain"@,
        pattern_word(Pattern::Dots) == "dots"@,
        pattern_word(Pattern::Crosses) == "crosses"@,
        pattern_word(Pattern::Lines) == "lines"@,
        pattern_of(Some(word)) == Some(Pattern::Plain) <==> word@ == "plain"@,
        pattern_of(Some(word)) == Some(Pattern::Dots) <==> word@ == "dots"@,
        pattern_of(Some(word)) == Some(Pattern::Crosses) <==> word@ == "crosses"@,
        pattern_of(Some(word)) == Some(Pattern::Lines) <==> word@ == "lines"@,
        pattern_of(None) is None,
{
    reveal_strlit("light");
    reveal_strlit("dark");
    reveal_strlit("red");
    reveal_strlit("blue");
    reveal_strlit("plain");
    reveal_strlit("dots");
    reveal_strlit("crosses");
    reveal_strlit("lines");
    assert("light"@.len() == 5 && "dark"@.len() == 4);
    assert("red"@.len() == 3 && "blue"@.len() == 4);
    assert("plain"@[0] == 'p' && "dots"@[0] == 'd');
    assert("crosses"@[0] == 'c' && "lines"@[0] == 'l');
}

/// The names tried for a new board's file: the slug alone first, then with 2, 3 and so on
/// behind a dash, each with the extension of a board.
pub proof fn a_new_file_is_numbered_from_two(title: Seq<char>, n: nat)
    requires
        n >= 2,
    ensures
        ({
            let extension = seq!['.', 'v', 'e', 'l', 'l', 'u', 'm'];
            &&& candidate(title, 0) == slugged(title) + extension
            &&& candidate(title, 1) == slugged(title) + extension
            &&& candidate(title, n) == slugged(title) + seq!['-'] + decimal(n) + extension
        }),
{
    reveal_strlit(".vellum");
    reveal_strlit("-");
    let extension = seq!['.', 'v', 'e', 'l', 'l', 'u', 'm'];
    assert(".vellum"@ =~= extension);
    assert("-"@ =~= seq!['-']);
}

/// Spaces are listed with the pinned ones first, and among those that are both pinned, or
/// neither, by their names in small letters.
pub proof fn pinned_spaces_are_listed_first(a: Folder, b: Folder)
    ensures
        a.pinned && !b.pinned ==> listed_before(a, b) && !listed_before(b, a),
        a.pinned && b.pinned ==> (listed_before(a, b) <==> precedes(
            lowered(a.name),
            lowered(b.name),
        )),
        !a.pinned && !b.pinned ==> (listed_before(a, b) <==> precedes(
            lowered(a.name),
            lowered(b.name),
        )),
{
}

/// Where a board stands once it was filed: last in the first space of the name given, in no
/// other, and every other board where it was, in the same order; a space keeps its name and
/// its pin. A name that no space has files it nowhere.
pub proof fn a_filed_board_stands_last_in_its_space(
    list: Seq<Folder>,
    path: Seq<char>,
    name: Seq<char>,
    k: int,
)
    requires
        0 <= k < list.len(),
    ensures
        ({
            let kept = list[k].boards.filter(|board: Seq<char>| board != path);
            let under = filed(list, path, Some(name));
            let away = filed(list, path, None);
            let first = list[k].name == name && forall|j: int|
                0 <= j < k ==> (#[trigger] list[j]).name != name;
            &&& under.len() == list.len() && away.len() == list.len()
            &&& under[k].name == list[k].name && under[k].pinned == list[k].pinned
            &&& first ==> under[k].boards == kept.push(path)
            &&& !first ==> under[k].boards == kept
            &&& away[k] == (Folder { name: list[k].name, boards: kept, pinned: list[k].pinned })
        }),
{
    named_bounds(list, name);
    without_is_all_but_one(list[k].boards, path);
    if list[k].name == name && forall|j: int| 0 <= j < k ==> (#[trigger] list[j]).name != name {
        assert(named(list, name) == k) by {
            if named(list, name) < k {
                assert(list[named(list, name)].name != name);
            }
        }
    }
}

/// When a board was deleted: the time of its last entry, and no time where it has none.
pub proof fn the_last_deletion_counts(bin: Seq<(Seq<char>, u64)>, path: Seq<char>, k: int)
    requires
        0 <= k < bin.len(),
        forall|j: int| k < j < bin.len() ==> (#[trigger] bin[j]).0 != path,
    ensures
        bin[k].0 == path ==> binned_at(bin, path) == Some(bin[k].1),
        (forall|j: int| 0 <= j < bin.len() ==> (#[trigger] bin[j]).0 != path) ==> binned_at(
            bin,
            path,
        ) is None,
    decreases bin.len(),
{
    let rest = bin.drop_last();
    if k < bin.len() - 1 {
        assert(bin[bin.len() - 1].0 != path);
        assert forall|j: int| k < j < rest.len() implies (#[trigger] rest[j]).0 != path by {
            assert(bin[j].0 != path);
        }
        the_last_deletion_counts(rest, path, k);
        if forall|j: int| 0 <= j < bin.len() ==> (#[trigger] bin[j]).0 != path {
            assert forall|j: int| 0 <= j < rest.len() implies (#[trigger] rest[j]).0 != path by {
                assert(bin[j].0 != path);
            }
        }
    } else if forall|j: int| 0 <= j < bin.len() ==> (#[trigger] bin[j]).0 != path {
        assert(bin[k].0 != path);
        assert forall|j: int| 0 <= j < rest.len() implies (#[trigger] rest[j]).0 != path by {
            assert(bin[j].0 != path);
        }
        if rest.len() > 0 {
            the_last_deletion_counts(rest, path, rest.len() - 1);
        }
    }
}

/// Taking a board out of the bin, boards that are gone out of a list, a board's cameras and a
/// space each leave everything else as it stands.
pub proof fn what_is_dropped_leaves_the_rest(
    bin: Seq<(Seq<char>, u64)>,
    list: Seq<Seq<char>>,
    live: Seq<Seq<char>>,
    views: Seq<(Seq<char>, [Scalar; 3])>,
    spaces: Seq<Folder>,
    name: Seq<char>,
)
    ensures
        unbinned(bin, name) == bin.filter(|entry: (Seq<char>, u64)| entry.0 != name),
        among(list, live) == list.filter(|path: Seq<char>| live.contains(path)),
        cameras_without(views, name) == views.filter(
            |view: (Seq<char>, [Scalar; 3])| view.0 != name,
        ),
        without_name(spaces, name) == spaces.filter(|space: Folder| space.name != name),
    decreases bin.len() + list.len() + views.len() + spaces.len(),
{
    reveal(Seq::filter);
    if bin.len() > 0 {
        what_is_dropped_leaves_the_rest(bin.drop_last(), list, live, views, spaces, name);
    } else if list.len() > 0 {
        what_is_dropped_leaves_the_rest(bin, list.drop_last(), live, views, spaces, name);
    } else if views.len() > 0 {
        what_is_dropped_leaves_the_rest(bin, list, live, views.drop_last(), spaces, name);
    } else if spaces.len() > 0 {
        what_is_dropped_leaves_the_rest(bin, list, live, views, spaces.drop_last(), name);
    }
}

/// A space keeps the boards that are still there, in their order, and its name and its pin.
pub proof fn a_space_keeps_the_boards_that_are_there(folder: Folder, live: Seq<Seq<char>>)
    ensures
        pruned(folder, live) == (Folder {
            name: folder.name,
            boards: folder.boards.filter(|path: Seq<char>| live.contains(path)),
            pinned: folder.pinned,
        }),
{
    what_is_dropped_leaves_the_rest(
        Seq::empty(),
        folder.boards,
        live,
        Seq::empty(),
        Seq::empty(),
        Seq::empty(),
    );
}

/// What is looked up by a path is the first entry of it, and nothing where there is none.
pub proof fn the_first_entry_of_a_path_counts(
    views: Seq<(Seq<char>, [Scalar; 3])>,
    path: Seq<char>,
    k: int,
)
    requires
        0 <= k <= views.len(),
        forall|j: int| 0 <= j < k ==> (#[trigger] views[j]).0 != path,
        k < views.len() ==> views[k].0 == path,
    ensures
        k < views.len() ==> camera_of(views, path) == Some(views[k].1),
        k == views.len() ==> camera_of(views, path) is None,
    decreases views.len(),
{
    if k > 0 {
        assert(views[0].0 != path);
        let rest = views.skip(1);
        assert forall|j: int| 0 <= j < k - 1 implies (#[trigger] rest[j]).0 != path by {
            assert(views[j + 1].0 != path);
        }
        the_first_entry_of_a_path_counts(rest, path, k - 1);
    }
}

/// The title of a board is the one of the first card of its place.
pub proof fn the_first_card_gives_the_title(cards: Seq<BoardCard>, path: Seq<char>, k: int)
    requires
        0 <= k <= cards.len(),
        forall|j: int| 0 <= j < k ==> normal((#[trigger] cards[j]).path@) != path,
        k < cards.len() ==> normal(cards[k].path@) == path,
    ensures
        k < cards.len() ==> title_of(cards, path) == Some(cards[k].title@),
        k == cards.len() ==> title_of(cards, path) is None,
    decreases cards.len(),
{
    if k > 0 {
        assert(normal(cards[0].path@) != path);
        let rest = cards.skip(1);
        assert forall|j: int| 0 <= j < k - 1 implies normal((#[trigger] rest[j]).path@)
            != path by {
            assert(normal(cards[j + 1].path@) != path);
        }
        the_first_card_gives_the_title(rest, path, k - 1);
    }
}

/// A copy is filed where its board is: in the last space that holds it.
pub proof fn a_board_is_at_home_in_the_last_space_that_holds_it(
    list: Seq<Folder>,
    path: Seq<char>,
    k: int,
)
    requires
        -1 <= k < list.len(),
        forall|j: int| k < j < list.len() ==> !(#[trigger] list[j]).boards.contains(path),
        k >= 0 ==> list[k].boards.contains(path),
    ensures
        k >= 0 ==> last_home(list, path) == Some(list[k].name),
        k == -1 ==> last_home(list, path) is None,
    decreases list.len(),
{
    if k < list.len() - 1 {
        assert(!list[list.len() - 1].boards.contains(path));
        let rest = list.drop_last();
        assert forall|j: int| k < j < rest.len() implies !(#[trigger] rest[j]).boards.contains(
            path,
        ) by {
            assert(!list[j].boards.contains(path));
        }
        a_board_is_at_home_in_the_last_space_that_holds_it(rest, path, k);
    }
}

/// A name is taken exactly where a space has it, letter for letter.
pub proof fn a_name_is_taken_where_a_space_has_it(list: Seq<Folder>, name: Seq<char>)
    ensures
        is_name(list, name) <==> exists|k: int|
            0 <= k < list.len() && (#[trigger] list[k]).name == name,
{
    named_bounds(list, name);
}

/// The stem of a file's name is what stands before its last dot; a name without one, or whose
/// only one it starts with, is all stem; and a path that ends in no name has none.
pub proof fn a_stem_ends_at_the_last_dot(dir: Seq<char>, name: Seq<char>, ending: Seq<char>)
    requires
        name.len() > 0,
        forall|i: int| 0 <= i < name.len() ==> name[i] != '/',
        forall|i: int| 0 <= i < ending.len() ==> ending[i] != '/' && ending[i] != '.',
        name.last() != '.' || ending.len() > 0,
    ensures
        stem(dir + seq!['/'] + (name + seq!['.'] + ending)) == Some(name),
        ending.len() > 0 ==> stem(dir + seq!['/'] + ending) == Some(ending),
        ending.len() > 0 ==> stem(dir + seq!['/'] + (seq!['.'] + ending)) == Some(
            seq!['.'] + ending,
        ),
        stem(dir + seq!['/', '.', '.']) is None,
        stem(seq!['/']) is None,
        stem(Seq::empty()) is None,
{
    reveal_strlit(".");
    reveal_strlit("..");
    assert("."@ =~= seq!['.']);
    assert(".."@ =~= seq!['.', '.']);
    let none = Seq::<char>::empty();
    let file = name + seq!['.'] + ending;
    the_last_dot_is_the_only_one(name, ending);
    assert(file.take(name.len() as int) =~= name);
    assert(file.len() >= 2);
    assert(file != "."@);
    assert(file != ".."@) by {
        if file == ".."@ {
            assert(name.len() == 1);
            assert(file[0] == name.last());
            assert(ending.len() == 0);
        }
    }
    assert forall|i: int| 0 <= i < file.len() implies file[i] != '/' by {
        if i < name.len() {
            assert(file[i] == name[i]);
        } else if i > name.len() {
            assert(file[i] == ending[i - name.len() - 1]);
        }
    }
    the_last_component_stands_behind_the_last_slash(dir, file);
    if ending.len() > 0 {
        no_dot_is_nowhere(ending);
        assert(ending != "."@ && ending != ".."@) by {
            assert(ending[0] != '.');
            assert("."@[0] == '.' && ".."@[0] == '.');
        }
        the_last_component_stands_behind_the_last_slash(dir, ending);
        let hidden = seq!['.'] + ending;
        the_last_dot_is_the_only_one(none, ending);
        assert(none + seq!['.'] + ending =~= hidden);
        assert(hidden[1] == ending[0]);
        assert(hidden != "."@ && hidden != ".."@);
        assert forall|i: int| 0 <= i < hidden.len() implies hidden[i] != '/' by {
            if i > 0 {
                assert(hidden[i] == ending[i - 1]);
            }
        }
        the_last_component_stands_behind_the_last_slash(dir, hidden);
    }
    let up = seq!['.', '.'];
    the_last_component_stands_behind_the_last_slash(dir, up);
    assert(dir + seq!['/'] + up =~= dir + seq!['/', '.', '.']);
    a_slash_and_a_dot_change_no_place(up, up);
    the_root_has_no_components();
}

proof fn no_dot_is_nowhere(name: Seq<char>)
    requires
        forall|i: int| 0 <= i < name.len() ==> name[i] != '.',
    ensures
        last_dot(name) == -1,
    decreases name.len(),
{
    if name.len() > 0 {
        no_dot_is_nowhere(name.drop_last());
    }
}

/// A card shows its board: where it lies, what it is called, how much is on it and when it
/// changed, and its star and its deletion by its place.
pub proof fn a_card_shows_its_board(
    card: BoardCard,
    index: BoardIndex,
    starred: Seq<Seq<char>>,
    bin: Seq<(Seq<char>, u64)>,
)
    requires
        is_card_of(card, index, starred, bin),
    ensures
        card.path == index.path,
        card.title == index.title,
        card.item_count == index.item_count,
        card.modified == index.modified,
        card.starred <==> exists|k: int|
            0 <= k < starred.len() && #[trigger] starred[k] == normal(index.path@),
        card.deleted is Some <==> exists|k: int|
            0 <= k < bin.len() && (#[trigger] bin[k]).0 == normal(index.path@),
{
    let place = normal(index.path@);
    if forall|k: int| 0 <= k < bin.len() ==> (#[trigger] bin[k]).0 != place {
        if bin.len() > 0 {
            the_last_deletion_counts(bin, place, bin.len() - 1);
        }
    } else {
        let k = choose|k: int| 0 <= k < bin.len() && (#[trigger] bin[k]).0 == place;
        an_entry_is_a_deletion(bin, place, k);
    }
}

proof fn an_entry_is_a_deletion(bin: Seq<(Seq<char>, u64)>, path: Seq<char>, k: int)
    requires
        0 <= k < bin.len(),
        bin[k].0 == path,
    ensures
        binned_at(bin, path) is Some,
    decreases bin.len(),
{
    if bin.last().0 != path {
        an_entry_is_a_deletion(bin.drop_last(), path, k);
    }
}

/// What is filed is read as it is written: each space by its name, the places of its boards and
/// its pin, each deletion by its place and its time, each camera by its place.
pub proof fn what_is_filed_is_read_as_it_is_written(
    spaces: Seq<SpaceRecord>,
    trashed: Seq<TrashedBoard>,
    views: Seq<StartView>,
    k: int,
)
    ensures
        folders(spaces).len() == spaces.len(),
        bin(trashed).len() == trashed.len(),
        cameras(views).len() == views.len(),
        0 <= k < spaces.len() ==> {
            let folder = folders(spaces)[k];
            &&& folder.name == spaces[k].name@
            &&& folder.pinned == spaces[k].pinned
            &&& folder.boards.len() == spaces[k].boards@.len()
            &&& forall|j: int|
                0 <= j < folder.boards.len() ==> #[trigger] folder.boards[j] == normal(
                    spaces[k].boards@[j]@,
                )
        },
        0 <= k < trashed.len() ==> bin(trashed)[k] == (normal(trashed[k].path@), trashed[k].at),
        0 <= k < views.len() ==> cameras(views)[k] == (normal(views[k].board@), views[k].camera),
{
}

/// The boards that were found lie at their own places, in order.
pub proof fn boards_lie_at_their_own_places(indexes: Seq<BoardIndex>, k: int)
    ensures
        paths(indexes).len() == indexes.len(),
        0 <= k < indexes.len() ==> paths(indexes)[k] == normal(indexes[k].path@),
{
}

/// A board is called what was typed without the white space around it; a new one of which
/// nothing was typed has a fixed name, and one that is renamed to nothing keeps its own.
pub proof fn a_board_is_called_what_was_typed(
    front: Seq<char>,
    core: Seq<char>,
    back: Seq<char>,
)
    requires
        forall|k: int| 0 <= k < front.len() ==> blank(#[trigger] front[k]),
        forall|k: int| 0 <= k < back.len() ==> blank(#[trigger] back[k]),
        core.len() > 0 ==> !blank(core[0]) && !blank(core.last()),
    ensures
        core.len() > 0 ==> titled(front + core + back) == core,
        core.len() == 0 ==> titled(front + core + back) == "Untitled board"@,
        core.len() > 0 ==> retitled(front + core + back) == Some(core),
        core.len() == 0 ==> retitled(front + core + back) is None,
{
    trimming_leaves_what_stands_between(front, core, back);
}

/// A copy is called what its board is called with a word behind it: the board's title where it
/// is listed, else the name of its file.
pub proof fn a_copy_is_called_after_its_board(cards: Seq<BoardCard>, dir: Seq<char>, name: Seq<char>, k: int)
    requires
        name.len() > 0,
        forall|i: int| 0 <= i < name.len() ==> name[i] != '/',
        0 <= k <= cards.len(),
        forall|j: int|
            0 <= j < k ==> normal((#[trigger] cards[j]).path@) != normal(
                dir + seq!['/'] + name + ".vellum"@,
            ),
        k < cards.len() ==> normal(cards[k].path@) == normal(dir + seq!['/'] + name + ".vellum"@),
    ensures
        ({
            let path = dir + seq!['/'] + name + ".vellum"@;
            &&& k < cards.len() ==> copied(cards, path) == cards[k].title@ + seq![
                ' ',
                'c',
                'o',
                'p',
                'y',
            ]
            &&& k == cards.len() ==> copied(cards, path) == name + seq![' ', 'c', 'o', 'p', 'y']
        }),
{
    let path = dir + seq!['/'] + name + ".vellum"@;
    a_board_file_is_named_by_its_stem(dir, name);
    the_first_card_gives_the_title(cards, normal(path), k);
    reveal_strlit(" copy");
    assert(" copy"@ =~= seq![' ', 'c', 'o', 'p', 'y']);
}

/// What a star does: the board is starred last or not at all, and no other's star moves.
pub proof fn a_star_goes_to_one_board(stars: Seq<Seq<char>>, path: Seq<char>)
    ensures
        restarred(stars, path, true) == stars.filter(|other: Seq<char>| other != path).push(path),
        restarred(stars, path, false) == stars.filter(|other: Seq<char>| other != path),
{
    without_is_all_but_one(stars, path);
}

/// What a deletion does: a board that is not in the bin goes in last with its time, and one
/// that is stays as it is.
pub proof fn a_board_is_deleted_once(bin: Seq<(Seq<char>, u64)>, path: Seq<char>, now: u64)
    ensures
        (forall|k: int| 0 <= k < bin.len() ==> (#[trigger] bin[k]).0 != path) ==> deleted(
            bin,
            path,
            now,
        ) == bin.push((path, now)),
        (exists|k: int| 0 <= k < bin.len() && (#[trigger] bin[k]).0 == path) ==> deleted(
            bin,
            path,
            now,
        ) == bin,
{
    if forall|k: int| 0 <= k < bin.len() ==> (#[trigger] bin[k]).0 != path {
        if bin.len() > 0 {
            the_last_deletion_counts(bin, path, bin.len() - 1);
        }
    } else {
        let k = choose|k: int| 0 <= k < bin.len() && (#[trigger] bin[k]).0 == path;
        an_entry_is_a_deletion(bin, path, k);
    }
}

/// What founding, renaming and pinning a space do: one more space with no boards and no pin,
/// one space of another name, one space pinned or not; every other space stays as it is, and
/// all are listed in order. A name that is taken, or none, changes nothing.
pub proof fn one_space_changes_at_a_time(
    list: Seq<Folder>,
    name: Seq<char>,
    typed: Seq<char>,
    pinned: bool,
    k: int,
)
    requires
        0 <= k < list.len(),
        list[k].name == name,
        forall|j: int| 0 <= j < k ==> (#[trigger] list[j]).name != name,
    ensures
        ({
            let new = trimmed(typed);
            let free = new.len() > 0 && forall|j: int|
                0 <= j < list.len() ==> (#[trigger] list[j]).name != new;
            let renamed = Folder { name: new, boards: list[k].boards, pinned: list[k].pinned };
            let repinned = Folder { name, boards: list[k].boards, pinned };
            let fresh = Folder { name: new, boards: Seq::empty(), pinned: false };
            &&& free ==> founded(list, typed) == in_order(list.push(fresh))
            &&& !free ==> founded(list, typed) == list
            &&& free ==> renamed_in(list, name, typed) == in_order(list.update(k, renamed))
            &&& !free ==> renamed_in(list, name, typed) == list
            &&& pinned_in(list, name, pinned) == in_order(list.update(k, repinned))
        }),
{
    named_bounds(list, name);
    if named(list, name) < k {
        assert(list[named(list, name)].name != name);
    }
    let new = trimmed(typed);
    named_bounds(list, new);
    a_name_is_taken_where_a_space_has_it(list, new);
}

/// A name that no space has renames and pins none.
pub proof fn a_name_that_no_space_has_changes_none(
    list: Seq<Folder>,
    name: Seq<char>,
    typed: Seq<char>,
    pinned: bool,
)
    requires
        forall|j: int| 0 <= j < list.len() ==> (#[trigger] list[j]).name != name,
    ensures
        renamed_in(list, name, typed) == list,
        pinned_in(list, name, pinned) == list,
{
    named_bounds(list, name);
}

/// What is on where nothing was chosen: the glass, the previews and the alignment are, the grid
/// is not; and what was chosen is what is.
pub proof fn a_choice_is_kept_and_a_default_stands_in(filing: Filing)
    ensures
        filing.translucency is None ==> translucent(filing),
        filing.link_previews is None ==> previews(filing),
        filing.align_objects is None ==> aligns(filing),
        filing.snap_to_grid is None ==> !snaps(filing),
        filing.translucency is Some ==> translucent(filing) == filing.translucency->0,
        filing.link_previews is Some ==> previews(filing) == filing.link_previews->0,
        filing.align_objects is Some ==> aligns(filing) == filing.align_objects->0,
        filing.snap_to_grid is Some ==> snaps(filing) == filing.snap_to_grid->0,
{
}

} // verus!
