//! Which link cards have been asked for, and what of a page is worth fetching.
//!
//! A card is asked for once: a second paste of the same link, or a second press of refresh,
//! sends nothing. Whether a picture is wanted is part of what was asked: a card that asked
//! for its words alone may ask again when its mode comes to draw a picture.

use vstd::prelude::*;

use crate::item::ItemId;
use crate::text::same;

verus! {

/// One thing that was asked for.
#[derive(Clone, Debug)]
pub struct Asked {
    pub item: ItemId,
    pub want_image: bool,
    pub url: String,
}

/// One thing that was asked for, by what it reads.
pub struct Question {
    pub item: ItemId,
    pub want_image: bool,
    pub url: Seq<char>,
}

impl View for Asked {
    type V = Question;

    open spec fn view(&self) -> Question {
        Question { item: self.item, want_image: self.want_image, url: self.url@ }
    }
}

/// What was asked for this session, and how many answers are still out.
#[derive(Clone, Debug)]
pub struct Fetcher {
    pub seen: Vec<Asked>,
    pub outstanding: usize,
}

/// `list` without one question.
pub open spec fn unasked(list: Seq<Question>, gone: Question) -> Seq<Question>
    decreases list.len(),
{
    if list.len() == 0 {
        list
    } else if list.last() == gone {
        unasked(list.drop_last(), gone)
    } else {
        unasked(list.drop_last(), gone).push(list.last())
    }
}

/// `list` without the questions about one item.
pub open spec fn forgotten(list: Seq<Question>, item: ItemId) -> Seq<Question>
    decreases list.len(),
{
    if list.len() == 0 {
        list
    } else if list.last().item == item {
        forgotten(list.drop_last(), item)
    } else {
        forgotten(list.drop_last(), item).push(list.last())
    }
}

impl Fetcher {
    /// What was asked for, by what it reads.
    pub open spec fn asked(self) -> Seq<Question> {
        self.seen@.map_values(|asked: Asked| asked@)
    }

    /// Nothing asked for yet.
    pub fn new() -> (fetcher: Fetcher)
        ensures
            fetcher.asked().len() == 0,
            fetcher.outstanding == 0,
    {
        Fetcher { seen: Vec::new(), outstanding: 0 }
    }

    fn has_asked(&self, item: ItemId, url: &str, want_image: bool) -> (answer: bool)
        ensures
            answer == self.asked().contains((Question { item, want_image, url: url@ })),
    {
        let ghost wanted = Question { item, want_image, url: url@ };
        let mut at: usize = 0;
        while at < self.seen.len()
            invariant
                at <= self.seen@.len(),
                wanted == (Question { item, want_image, url: url@ }),
                forall|k: int| 0 <= k < at ==> self.asked()[k] != wanted,
            decreases self.seen@.len() - at,
        {
            if self.seen[at].item == item && self.seen[at].want_image == want_image && same(
                self.seen[at].url.as_str(),
                url,
            ) {
                proof {
                    assert(self.asked()[at as int] == wanted);
                }
                return true;
            }
            at = at + 1;
        }
        false
    }

    /// Asks for a card, given whether its address is a web page's. Returns whether a request
    /// is to be sent; it then counts as asked for.
    pub fn request(
        &mut self,
        item: ItemId,
        url: &str,
        want_image: bool,
        web_page: bool,
    ) -> (send: bool)
        ensures
            send == (web_page && !old(self).asked().contains(
                (Question { item, want_image, url: url@ }),
            )),
            final(self).asked() == (if send {
                old(self).asked().push((Question { item, want_image, url: url@ }))
            } else {
                old(self).asked()
            }),
            final(self).outstanding == old(self).outstanding,
    {
        if !web_page || self.has_asked(item, url, want_image) {
            return false;
        }
        self.seen.push(Asked { item, want_image, url: url.to_owned() });
        proof {
            assert(self.asked() =~= old(self).asked().push(
                Question { item, want_image, url: url@ },
            ));
        }
        true
    }

    /// Whether a request that was to be sent went out. One that did not is no longer asked
    /// for: nothing is coming back for it, and it would never be asked for again.
    pub fn sent(&mut self, item: ItemId, url: &str, want_image: bool, went_out: bool)
        requires
            old(self).outstanding < usize::MAX,
        ensures
            final(self).asked() == (if went_out {
                old(self).asked()
            } else {
                unasked(old(self).asked(), (Question { item, want_image, url: url@ }))
            }),
            final(self).outstanding == (if went_out {
                old(self).outstanding + 1
            } else {
                old(self).outstanding as int
            }),
    {
        if went_out {
            self.outstanding = self.outstanding + 1;
            return ;
        }
        let ghost all = self.asked();
        let ghost gone = Question { item, want_image, url: url@ };
        let mut kept: Vec<Asked> = Vec::new();
        let mut at: usize = 0;
        proof {
            assert(kept@.map_values(|asked: Asked| asked@) =~= all.take(0));
        }
        while at < self.seen.len()
            invariant
                at <= self.seen@.len(),
                self.outstanding == old(self).outstanding,
                all == self.asked(),
                gone == (Question { item, want_image, url: url@ }),
                kept@.map_values(|asked: Asked| asked@) == unasked(all.take(at as int), gone),
            decreases self.seen@.len() - at,
        {
            let ghost before = kept@;
            let matches = self.seen[at].item == item && self.seen[at].want_image == want_image
                && same(self.seen[at].url.as_str(), url);
            if !matches {
                kept.push(
                    Asked {
                        item: self.seen[at].item,
                        want_image: self.seen[at].want_image,
                        url: self.seen[at].url.clone(),
                    },
                );
                proof {
                    assert(kept@.map_values(|asked: Asked| asked@) =~= before.map_values(
                        |asked: Asked| asked@,
                    ).push(all[at as int]));
                }
            }
            at = at + 1;
            proof {
                assert(all.take(at as int).drop_last() =~= all.take(at - 1));
            }
        }
        proof {
            assert(all.take(all.len() as int) =~= all);
        }
        self.seen = kept;
    }

    /// Forgets every request made for one item, so that it can be asked for again.
    pub fn forget_item(&mut self, item: ItemId)
        ensures
            final(self).asked() == forgotten(old(self).asked(), item),
            final(self).outstanding == old(self).outstanding,
    {
        let ghost all = self.asked();
        let mut kept: Vec<Asked> = Vec::new();
        let mut at: usize = 0;
        proof {
            assert(kept@.map_values(|asked: Asked| asked@) =~= all.take(0));
        }
        while at < self.seen.len()
            invariant
                at <= self.seen@.len(),
                self.outstanding == old(self).outstanding,
                all == self.asked(),
                kept@.map_values(|asked: Asked| asked@) == forgotten(all.take(at as int), item),
            decreases self.seen@.len() - at,
        {
            let ghost before = kept@;
            if self.seen[at].item != item {
                kept.push(
                    Asked {
                        item: self.seen[at].item,
                        want_image: self.seen[at].want_image,
                        url: self.seen[at].url.clone(),
                    },
                );
                proof {
                    assert(kept@.map_values(|asked: Asked| asked@) =~= before.map_values(
                        |asked: Asked| asked@,
                    ).push(all[at as int]));
                }
            }
            at = at + 1;
            proof {
                assert(all.take(at as int).drop_last() =~= all.take(at - 1));
            }
        }
        proof {
            assert(all.take(all.len() as int) =~= all);
        }
        self.seen = kept;
    }

    /// That many answers came back.
    pub fn drain(&mut self, answers: usize)
        ensures
            final(self).outstanding == (if old(self).outstanding >= answers {
                old(self).outstanding - answers
            } else {
                0
            }),
            final(self).seen == old(self).seen,
    {
        self.outstanding = if self.outstanding >= answers {
            self.outstanding - answers
        } else {
            0
        };
    }

    /// How many fetches are still out.
    pub fn outstanding(&self) -> (count: usize)
        ensures
            count == self.outstanding,
    {
        self.outstanding
    }
}

/// The picture to fetch for a card, of the one its page offers: only where the card's mode
/// draws it. The icon is fetched whatever the mode.
pub fn image_to_fetch(want_image: bool, offered: Option<String>) -> (url: Option<String>)
    ensures
        url == (if want_image {
            offered
        } else {
            None
        }),
{
    if want_image {
        offered
    } else {
        None
    }
}

/// What of fetched bytes is kept: an empty answer is none.
pub fn fetched_bytes(bytes: Option<Vec<u8>>) -> (kept: Option<Vec<u8>>)
    ensures
        kept == (if bytes is Some && bytes->0@.len() > 0 {
            bytes
        } else {
            None
        }),
{
    match bytes {
        Some(bytes) => if bytes.len() > 0 {
            Some(bytes)
        } else {
            None
        },
        None => None,
    }
}

// ----- laws ----------------------------------------------------------------------------

/// A card is asked for once: what was asked for is not asked for again. Another item, or
/// the same one wanting a picture where it did not, still is.
pub proof fn a_card_is_asked_for_once(asked: Seq<Question>, question: Question)
    ensures
        asked.push(question).contains(question),
        forall|other: Question|
            other != question ==> (#[trigger] asked.push(question).contains(other)
                == asked.contains(other)),
{
    let after = asked.push(question);
    assert(after[asked.len() as int] == question);
    assert forall|other: Question| other != question implies (#[trigger] after.contains(other)
        == asked.contains(other)) by {
        if after.contains(other) {
            let i = choose|i: int| 0 <= i < after.len() && after[i] == other;
            assert(asked[i] == other);
        }
        if asked.contains(other) {
            let i = choose|i: int| 0 <= i < asked.len() && asked[i] == other;
            assert(after[i] == other);
        }
    }
}

proof fn unasked_absent(list: Seq<Question>, gone: Question)
    requires
        !list.contains(gone),
    ensures
        unasked(list, gone) == list,
    decreases list.len(),
{
    if list.len() > 0 {
        assert forall|k: int| 0 <= k < list.drop_last().len() implies list.drop_last()[k]
            != gone by {
            assert(list[k] != gone);
        }
        unasked_absent(list.drop_last(), gone);
        assert(list[list.len() - 1] != gone);
        assert(list.drop_last().push(list.last()) =~= list);
    }
}

/// A request that could not be sent leaves no trace: what was asked for is what it was
/// before, so the card can be asked for again.
pub proof fn a_request_that_did_not_go_leaves_no_trace(asked: Seq<Question>, question: Question)
    requires
        !asked.contains(question),
    ensures
        unasked(asked.push(question), question) == asked,
{
    assert(asked.push(question).drop_last() =~= asked);
    unasked_absent(asked, question);
}

/// A forgotten item can be asked for again, words and picture both, and no other item is
/// forgotten with it.
pub proof fn forgetting_an_item_forgets_no_other(
    asked: Seq<Question>,
    item: ItemId,
    question: Question,
)
    ensures
        forgotten(asked, item).contains(question) == (asked.contains(question) && question.item
            != item),
    decreases asked.len(),
{
    if asked.len() > 0 {
        let rest = asked.drop_last();
        let kept = forgotten(rest, item);
        let all = forgotten(asked, item);
        forgetting_an_item_forgets_no_other(rest, item, question);
        if asked.contains(question) && question.item != item {
            let i = choose|i: int| 0 <= i < asked.len() && asked[i] == question;
            if i < rest.len() {
                assert(rest[i] == question);
                let k = choose|k: int| 0 <= k < kept.len() && kept[k] == question;
                assert(all[k] == question);
            } else {
                assert(all[all.len() - 1] == question);
            }
        }
        if all.contains(question) {
            let k = choose|k: int| 0 <= k < all.len() && all[k] == question;
            if k < kept.len() {
                assert(kept[k] == question);
                let i = choose|i: int| 0 <= i < rest.len() && rest[i] == question;
                assert(asked[i] == question);
            } else {
                assert(asked[asked.len() - 1] == question);
            }
        }
    }
}

/// Taking a question back, and forgetting an item, leave every other question as it stands.
pub proof fn what_is_forgotten_leaves_the_rest(list: Seq<Question>, gone: Question, item: ItemId)
    ensures
        unasked(list, gone) == list.filter(|question: Question| question != gone),
        forgotten(list, item) == list.filter(|question: Question| question.item != item),
    decreases list.len(),
{
    reveal(Seq::filter);
    if list.len() > 0 {
        what_is_forgotten_leaves_the_rest(list.drop_last(), gone, item);
    }
}

/// What was asked is read by its item, its address and whether a picture was wanted.
pub proof fn a_question_is_read_by_what_it_asked(fetcher: Fetcher, k: int)
    ensures
        fetcher.asked().len() == fetcher.seen@.len(),
        0 <= k < fetcher.seen@.len() ==> {
            &&& fetcher.asked()[k].item == fetcher.seen@[k].item
            &&& fetcher.asked()[k].want_image == fetcher.seen@[k].want_image
            &&& fetcher.asked()[k].url == fetcher.seen@[k].url@
        },
{
}

} // verus!
