//! Where a session is, where it was, and how it moves.
use crate::session::{BrowseError, BrowseErrorModel, MAX_NAV_HOPS};
use crate::text::{same, views};
use vstd::prelude::*;
use vstd::string::*;

verus! {

/// The current page of a session, the pages before it and those gone back from.
pub struct History {
    pub current_url: String,
    pub back_stack: Vec<String>,
    pub forward_stack: Vec<String>,
}

/// The text of a [`History`].
#[verifier::ext_equal]
pub struct HistoryModel {
    pub current: Seq<char>,
    pub back: Seq<Seq<char>>,
    pub forward: Seq<Seq<char>>,
}

impl View for History {
    type V = HistoryModel;

    open spec fn view(&self) -> HistoryModel {
        HistoryModel {
            current: self.current_url@,
            back: views(self.back_stack@),
            forward: views(self.forward_stack@),
        }
    }
}

/// What holds of every history: no page without a URL can be gone back or forward to.
pub open spec fn no_blanks(h: HistoryModel) -> bool {
    &&& forall|i: int| 0 <= i < h.back.len() ==> (#[trigger] h.back[i]).len() > 0
    &&& forall|i: int| 0 <= i < h.forward.len() ==> (#[trigger] h.forward[i]).len() > 0
}

/// A navigation under way.
pub struct Nav {
    /// What is loaded next.
    pub url: String,
    /// Where the session was before.
    pub prev: String,
    /// Whether the navigation goes into the history.
    pub recorded: bool,
    /// How many pages were loaded on the way.
    pub loads: u32,
}

/// What to do after a page of a navigation has been loaded.
pub enum NavStep {
    /// Load the next page.
    Load(Nav),
    /// The session is where it was to go.
    Arrived,
    Fail(BrowseError),
}

/// The history once a navigation has come to its end.
pub open spec fn arrived(h: HistoryModel, url: Seq<char>, prev: Seq<char>, recorded: bool) -> HistoryModel {
    if recorded && prev.len() > 0 && prev != url {
        HistoryModel { current: url, back: h.back.push(prev), forward: seq![] }
    } else {
        HistoryModel { current: url, ..h }
    }
}

proof fn push_keeps_no_blanks(s: Seq<Seq<char>>, x: Seq<char>)
    requires
        x.len() > 0,
    ensures
        (forall|i: int| 0 <= i < s.len() ==> (#[trigger] s[i]).len() > 0) ==> forall|i: int|
            0 <= i < s.push(x).len() ==> (#[trigger] s.push(x)[i]).len() > 0,
{
    if forall|i: int| 0 <= i < s.len() ==> (#[trigger] s[i]).len() > 0 {
        assert forall|i: int| 0 <= i < s.push(x).len() implies (#[trigger] s.push(x)[i]).len()
            > 0 by {
            if i < s.len() {
                assert(s[i].len() > 0);
            }
        }
    }
}

impl History {
    pub fn new() -> (r: History)
        ensures
            r@ == (HistoryModel { current: seq![], back: seq![], forward: seq![] }),
            no_blanks(r@),
    {
        let r = History {
            current_url: String::new(),
            back_stack: Vec::new(),
            forward_stack: Vec::new(),
        };
        assert(r@.back =~= seq![]);
        assert(r@.forward =~= seq![]);
        r
    }

    /// Begins a navigation.
    pub fn begin(&self, url: &str, recorded: bool) -> (r: Nav)
        ensures
            r.url@ == url@,
            r.prev@ == self@.current,
            r.recorded == recorded,
            r.loads == 0,
    {
        Nav { url: url.to_owned(), prev: self.current_url.clone(), recorded, loads: 0 }
    }

    /// Goes on once the page of a navigation is loaded and its scripts have run:
    /// where they asked for another page, that one is loaded, up to a limit.
    pub fn loaded(&mut self, nav: Nav, pending: Option<String>) -> (r: NavStep)
        ensures
            match pending {
                Some(next) => {
                    &&& final(self)@ == (HistoryModel { current: nav.url@, ..old(self)@ })
                    &&& if nav.loads < MAX_NAV_HOPS {
                        r is Load && r->Load_0 == (Nav {
                            url: next,
                            prev: nav.prev,
                            recorded: nav.recorded,
                            loads: (nav.loads + 1) as u32,
                        })
                    } else {
                        r is Fail && r->Fail_0@ == BrowseErrorModel::Io(
                            "exceeded MAX_NAV_HOPS (10) following location.href chain"@,
                        )
                    }
                },
                None => r is Arrived && final(self)@ == arrived(
                    old(self)@,
                    nav.url@,
                    nav.prev@,
                    nav.recorded,
                ),
            },
            no_blanks(old(self)@) ==> no_blanks(final(self)@),
    {
        self.current_url = nav.url.clone();
        match pending {
            Some(next) => {
                if nav.loads < MAX_NAV_HOPS {
                    NavStep::Load(
                        Nav {
                            url: next,
                            prev: nav.prev,
                            recorded: nav.recorded,
                            loads: nav.loads + 1,
                        },
                    )
                } else {
                    NavStep::Fail(
                        BrowseError::Io(
                            "exceeded MAX_NAV_HOPS (10) following location.href chain".to_owned(),
                        ),
                    )
                }
            },
            None => {
                if nav.recorded {
                    self.settled(nav.prev);
                }
                NavStep::Arrived
            },
        }
    }

    /// Loads a page outside a navigation, as the answer to a form or to a script.
    pub fn landed(&mut self, url: &str)
        ensures
            final(self)@ == (HistoryModel { current: url@, ..old(self)@ }),
            no_blanks(old(self)@) ==> no_blanks(final(self)@),
    {
        self.current_url = url.to_owned();
    }

    /// Records where the session was before it was led to another page.
    pub fn settled(&mut self, prev: String)
        ensures
            final(self)@ == arrived(old(self)@, old(self)@.current, prev@, true),
            no_blanks(old(self)@) ==> no_blanks(final(self)@),
    {
        if !prev.as_str().is_empty() && !same(prev.as_str(), self.current_url.as_str()) {
            let ghost before = self.back_stack@;
            self.back_stack.push(prev);
            assert(views(self.back_stack@) =~= views(before).push(prev@));
            proof {
                push_keeps_no_blanks(views(before), prev@);
            }
            self.forward_stack = Vec::new();
            assert(views(self.forward_stack@) =~= seq![]);
        }
    }

    /// After `loads` pages that scripts asked for one after the other, whether one
    /// more may be looked for: not once the limit is passed.
    pub fn may_drain(loads: u32) -> (r: Result<(), BrowseError>)
        ensures
            match r {
                Ok(_) => loads <= MAX_NAV_HOPS,
                Err(e) => loads > MAX_NAV_HOPS && e@ == BrowseErrorModel::Io(
                    "exceeded MAX_NAV_HOPS (10) draining post-action navigations"@,
                ),
            },
    {
        if loads <= MAX_NAV_HOPS {
            Ok(())
        } else {
            Err(
                BrowseError::Io(
                    "exceeded MAX_NAV_HOPS (10) draining post-action navigations".to_owned(),
                ),
            )
        }
    }

    /// Takes the last page off the history, to go back to it.
    pub fn take_back(&mut self) -> (r: Result<String, BrowseError>)
        ensures
            match r {
                Ok(url) => old(self)@.back.len() > 0 && url@ == old(self)@.back.last()
                    && final(self)@ == (HistoryModel {
                    back: old(self)@.back.drop_last(),
                    ..old(self)@
                }),
                Err(e) => old(self)@.back.len() == 0 && final(self)@ == old(self)@ && e@
                    == BrowseErrorModel::Io("history empty"@),
            },
            no_blanks(old(self)@) ==> no_blanks(final(self)@),
    {
        let ghost before = self.back_stack@;
        match self.back_stack.pop() {
            Some(u) => {
                assert(views(self.back_stack@) =~= views(before).drop_last());
                assert(views(before).last() == u@);
                Ok(u)
            },
            None => Err(BrowseError::Io("history empty".to_owned())),
        }
    }

    /// Records the page that was gone back from.
    pub fn went_back(&mut self, from: String)
        ensures
            final(self)@ == (HistoryModel {
                forward: if from@.len() > 0 {
                    old(self)@.forward.push(from@)
                } else {
                    old(self)@.forward
                },
                ..old(self)@
            }),
            no_blanks(old(self)@) ==> no_blanks(final(self)@),
    {
        if !from.as_str().is_empty() {
            let ghost before = self.forward_stack@;
            self.forward_stack.push(from);
            assert(views(self.forward_stack@) =~= views(before).push(from@));
            proof {
                push_keeps_no_blanks(views(before), from@);
            }
        }
    }

    /// Takes the last page gone back from, to go forward to it.
    pub fn take_forward(&mut self) -> (r: Result<String, BrowseError>)
        ensures
            match r {
                Ok(url) => old(self)@.forward.len() > 0 && url@ == old(self)@.forward.last()
                    && final(self)@ == (HistoryModel {
                    forward: old(self)@.forward.drop_last(),
                    ..old(self)@
                }),
                Err(e) => old(self)@.forward.len() == 0 && final(self)@ == old(self)@ && e@
                    == BrowseErrorModel::Io("forward stack empty"@),
            },
            no_blanks(old(self)@) ==> no_blanks(final(self)@),
    {
        let ghost before = self.forward_stack@;
        match self.forward_stack.pop() {
            Some(u) => {
                assert(views(self.forward_stack@) =~= views(before).drop_last());
                assert(views(before).last() == u@);
                Ok(u)
            },
            None => Err(BrowseError::Io("forward stack empty".to_owned())),
        }
    }

    /// Records the page that was gone forward from.
    pub fn went_forward(&mut self, from: String)
        ensures
            final(self)@ == (HistoryModel {
                back: if from@.len() > 0 {
                    old(self)@.back.push(from@)
                } else {
                    old(self)@.back
                },
                ..old(self)@
            }),
            no_blanks(old(self)@) ==> no_blanks(final(self)@),
    {
        if !from.as_str().is_empty() {
            let ghost before = self.back_stack@;
            self.back_stack.push(from);
            assert(views(self.back_stack@) =~= views(before).push(from@));
            proof {
                push_keeps_no_blanks(views(before), from@);
            }
        }
    }
}

/// The history after going back, where the page stays where it is.
pub open spec fn gone_back(h: HistoryModel) -> HistoryModel {
    HistoryModel {
        current: h.back.last(),
        back: h.back.drop_last(),
        forward: h.forward.push(h.current),
    }
}

/// The history after going forward, where the page stays where it is.
pub open spec fn gone_forward(h: HistoryModel) -> HistoryModel {
    HistoryModel {
        current: h.forward.last(),
        back: h.back.push(h.current),
        forward: h.forward.drop_last(),
    }
}

/// Going back and then forward leads to where one was.
pub proof fn forward_undoes_back(h: HistoryModel)
    requires
        h.back.len() > 0,
    ensures
        gone_forward(gone_back(h)) == h,
{
    assert(h.forward.push(h.current).drop_last() =~= h.forward);
    assert(h.back.drop_last().push(h.back.last()) =~= h.back);
}

/// Going forward and then back leads to where one was.
pub proof fn back_undoes_forward(h: HistoryModel)
    requires
        h.forward.len() > 0,
    ensures
        gone_back(gone_forward(h)) == h,
{
    assert(h.back.push(h.current).drop_last() =~= h.back);
    assert(h.forward.drop_last().push(h.forward.last()) =~= h.forward);
}

/// What the steps of going back do, from a page that has a URL to one that asks for
/// no other, is to go back.
pub proof fn steps_go_back(h: HistoryModel)
    requires
        h.back.len() > 0,
        h.current.len() > 0,
    ensures
        ({
            let taken = HistoryModel { back: h.back.drop_last(), ..h };
            let there = arrived(taken, h.back.last(), h.current, false);
            gone_back(h) == (HistoryModel { forward: there.forward.push(h.current), ..there })
        }),
{
}

/// What the steps of going forward do, from a page that has a URL to one that asks for
/// no other, is to go forward.
pub proof fn steps_go_forward(h: HistoryModel)
    requires
        h.forward.len() > 0,
        h.current.len() > 0,
    ensures
        ({
            let taken = HistoryModel { forward: h.forward.drop_last(), ..h };
            let there = arrived(taken, h.forward.last(), h.current, false);
            gone_forward(h) == (HistoryModel { back: there.back.push(h.current), ..there })
        }),
{
}

/// A visit to a new page can be undone by going back, and nothing can be gone
/// forward to after it.
pub proof fn visit_is_undone_by_back(h: HistoryModel, url: Seq<char>)
    requires
        h.current.len() > 0,
        h.current != url,
    ensures
        arrived(h, url, h.current, true).forward.len() == 0,
        gone_back(arrived(h, url, h.current, true)).current == h.current,
        gone_back(arrived(h, url, h.current, true)).back == h.back,
{
    assert(h.back.push(h.current).drop_last() =~= h.back);
}

} // verus!
