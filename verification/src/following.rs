//! The documents git is following: which there are, what has been sent of
//! each, and which change a pressed button is about.

use vstd::prelude::*;

use crate::gutter::{left_terminal, vcs_deadline, vcs_tick, Aim, Followed, HunksStep, Source};
use crate::gutter::{due_docs, earliest_due};
use crate::outcome::Outcome;

verus! {

/// Where document `doc` is among `docs`, from the `from`th on.
pub open spec fn followed_at(docs: Seq<Followed>, doc: usize, from: int) -> Option<int>
    decreases docs.len() - from,
{
    if from < 0 || from >= docs.len() {
        None
    } else if docs[from].doc == doc {
        Some(from)
    } else {
        followed_at(docs, doc, from + 1)
    }
}

/// The revision of document `doc` among `revisions`, from the `from`th on.
pub open spec fn revision_of(revisions: Seq<(usize, u64)>, doc: usize, from: int) -> Option<u64>
    decreases revisions.len() - from,
{
    if from < 0 || from >= revisions.len() {
        None
    } else if revisions[from].0 == doc {
        Some(revisions[from].1)
    } else {
        revision_of(revisions, doc, from + 1)
    }
}

/// Whether no document is followed twice.
pub open spec fn each_once(docs: Seq<Followed>) -> bool {
    forall|i: int, j: int|
        0 <= i < j < docs.len() ==> (#[trigger] docs[i]).doc != (#[trigger] docs[j]).doc
}

/// `docs` once each was seen at its revision, at `now`.
pub open spec fn all_noticed(docs: Seq<Followed>, revisions: Seq<(usize, u64)>, now: u64) -> Seq<
    Followed,
> {
    Seq::new(
        docs.len(),
        |i: int|
            match revision_of(revisions, docs[i].doc, 0) {
                Some(revision) => docs[i].noticed(revision, now),
                None => docs[i],
            },
    )
}

/// Where a document is followed is a place it is followed at, the first there
/// is.
proof fn followed_at_is(docs: Seq<Followed>, doc: usize, from: int)
    requires
        0 <= from,
    ensures
        match followed_at(docs, doc, from) {
            Some(at) => from <= at < docs.len() && docs[at].doc == doc && forall|k: int|
                from <= k < at ==> (#[trigger] docs[k]).doc != doc,
            None => forall|k: int| from <= k < docs.len() ==> (#[trigger] docs[k]).doc != doc,
        },
    decreases docs.len() - from,
{
    if from < docs.len() && docs[from].doc != doc {
        followed_at_is(docs, doc, from + 1);
    }
}

/// A place a document is followed at is where it is followed, where it is
/// followed once.
proof fn followed_is_at(docs: Seq<Followed>, at: int, from: int)
    requires
        each_once(docs),
        0 <= from <= at < docs.len(),
    ensures
        followed_at(docs, docs[at].doc, from) == Some(at),
    decreases at - from,
{
    if from < at {
        assert(docs[from].doc != docs[at].doc);
        followed_is_at(docs, at, from + 1);
    }
}

/// What opening a document comes to.
#[derive(Debug, Clone, Copy, PartialEq, Eq, Structural)]
pub enum Opened {
    /// Nothing: it has nowhere to be kept, and was not followed.
    Nothing,
    /// It has nowhere to be kept any more: git is to stop following it.
    Close,
    /// Git is to be told of its text, as this version.
    Open(u64),
}

/// Every document git is following.
#[derive(Debug)]
pub struct Changes {
    /// The documents, each once.
    pub docs: Vec<Followed>,
    /// The change a card's button was pressed on, from the press until the
    /// command the button runs takes it.
    pub aimed: Option<Aim>,
    /// Whether a terminal had the keyboard, as of the last event.
    pub in_terminal: bool,
}

impl Changes {
    /// Whether no document is followed twice.
    pub open spec fn wf(self) -> bool {
        each_once(self.docs@)
    }

    /// What is followed of `doc`, if it is.
    pub open spec fn of(self, doc: usize) -> Option<Followed> {
        match followed_at(self.docs@, doc, 0) {
            Some(at) => Some(self.docs@[at]),
            None => None,
        }
    }

    /// Nothing followed.
    pub fn new() -> (changes: Self)
        ensures
            changes.wf(),
            changes.docs@.len() == 0,
            changes.aimed is None,
            !changes.in_terminal,
    {
        Changes { docs: Vec::new(), aimed: None, in_terminal: false }
    }

    fn find(&self, doc: usize) -> (found: Option<usize>)
        ensures
            match found {
                Some(at) => at < self.docs@.len() && self.docs@[at as int].doc == doc
                    && followed_at(self.docs@, doc, 0) == Some(at as int),
                None => followed_at(self.docs@, doc, 0) is None,
            },
    {
        let mut i: usize = 0;
        while i < self.docs.len()
            invariant
                i <= self.docs@.len(),
                followed_at(self.docs@, doc, 0) == followed_at(self.docs@, doc, i as int),
            decreases self.docs@.len() - i,
        {
            if self.docs[i].doc == doc {
                return Some(i);
            }
            i = i + 1;
        }
        None
    }

    /// Stop following a document that has gone: whether git is to be told.
    pub fn vcs_close(&mut self, doc: usize) -> (told: bool)
        requires
            old(self).wf(),
        ensures
            final(self).wf(),
            final(self).of(doc) is None,
            *final(self) == (Changes { docs: final(self).docs, ..*old(self) }),
            match followed_at(old(self).docs@, doc, 0) {
                Some(at) => told && final(self).docs@ == old(self).docs@.remove(at),
                None => !told && final(self).docs@ == old(self).docs@,
            },
    {
        match self.find(doc) {
            Some(at) => {
                let ghost before = self.docs@;
                let _ = self.docs.remove(at);
                proof {
                    let after = self.docs@;
                    assert forall|i: int| 0 <= i < after.len() implies #[trigger] after[i]
                        == before[if i < at {
                        i
                    } else {
                        i + 1
                    }] by {}
                    assert forall|i: int, j: int| 0 <= i < j < after.len() implies (
                    #[trigger] after[i]).doc != (#[trigger] after[j]).doc by {}
                    followed_at_is(after, doc, 0);
                    if let Some(k) = followed_at(after, doc, 0) {
                        assert(after[k].doc == doc);
                        assert(before[at as int].doc == doc);
                    }
                }
                true
            },
            None => false,
        }
    }

    /// Follow a document, or follow it afresh, at `revision`: it arrived, was
    /// reloaded, or was saved under another name. `saved` is whether it is kept
    /// anywhere.
    pub fn vcs_open(&mut self, doc: usize, saved: bool, revision: u64) -> (opened: Opened)
        requires
            old(self).wf(),
            old(self).of(doc) matches Some(followed) ==> followed.sent < u64::MAX,
        ensures
            final(self).wf(),
            *final(self) == (Changes { docs: final(self).docs, ..*old(self) }),
            match (saved, followed_at(old(self).docs@, doc, 0)) {
                (false, None) => opened == Opened::Nothing && final(self).docs@ == old(self).docs@,
                (false, Some(at)) => opened == Opened::Close && final(self).docs@ == old(
                    self,
                ).docs@.remove(at),
                (true, Some(at)) => {
                    let now = old(self).docs@[at].opened_at(revision);
                    &&& opened == Opened::Open(now.sent)
                    &&& final(self).docs@ == old(self).docs@.update(at, now)
                },
                (true, None) => {
                    let now = Followed {
                        doc,
                        sent: 1,
                        revision,
                        seen: revision,
                        unsent: None,
                        version: 0,
                        compared: false,
                    };
                    &&& opened == Opened::Open(1)
                    &&& final(self).docs@ == old(self).docs@.push(now)
                },
            },
            final(self).of(doc) is Some == saved,
    {
        if !saved {
            if self.vcs_close(doc) {
                return Opened::Close;
            }
            return Opened::Nothing;
        }
        match self.find(doc) {
            Some(at) => {
                let ghost before = self.docs@;
                let mut followed = self.docs[at];
                let version: u64 = followed.open(revision);
                self.docs.set(at, followed);
                proof {
                    assert forall|i: int| 0 <= i < self.docs@.len() implies (
                    #[trigger] self.docs@[i]).doc == before[i].doc by {}
                    assert(each_once(self.docs@));
                    followed_is_at(self.docs@, at as int, 0);
                }
                Opened::Open(version)
            },
            None => {
                let ghost before = self.docs@;
                proof {
                    followed_at_is(before, doc, 0);
                }
                let mut followed = Followed::new(doc);
                let version: u64 = followed.open(revision);
                self.docs.push(followed);
                proof {
                    assert(each_once(self.docs@));
                    followed_is_at(self.docs@, before.len() as int, 0);
                }
                Opened::Open(version)
            },
        }
    }

    /// Notice what an event did: text that changed is sent once the typing
    /// pauses. `revisions` is what every open document is at, and `in_terminal`
    /// whether a terminal has the keyboard now. Whether git is to look again:
    /// the keyboard has just come back from one, where a commit or an add may
    /// have happened.
    pub fn vcs_follow(&mut self, revisions: &Vec<(usize, u64)>, now: u64, in_terminal: bool) -> (
        look: bool)
        requires
            old(self).wf(),
        ensures
            final(self).wf(),
            final(self).docs@ == all_noticed(old(self).docs@, revisions@, now),
            final(self).aimed == old(self).aimed,
            final(self).in_terminal == in_terminal,
            look == (old(self).in_terminal && !in_terminal),
    {
        let ghost before = self.docs@;
        let ghost noticed = all_noticed(before, revisions@, now);
        let mut i: usize = 0;
        while i < self.docs.len()
            invariant
                i <= self.docs@.len(),
                self.docs@.len() == before.len() == noticed.len(),
                noticed == all_noticed(before, revisions@, now),
                forall|k: int| 0 <= k < i ==> #[trigger] self.docs@[k] == noticed[k],
                forall|k: int| i <= k < before.len() ==> #[trigger] self.docs@[k] == before[k],
                self.aimed == old(self).aimed,
                self.in_terminal == old(self).in_terminal,
            decreases self.docs@.len() - i,
        {
            let mut followed = self.docs[i];
            let mut at: usize = 0;
            let mut found: Option<u64> = None;
            while at < revisions.len() && found.is_none()
                invariant
                    at <= revisions@.len(),
                    match found {
                        Some(revision) => revision_of(revisions@, followed.doc, 0) == Some(
                            revision,
                        ),
                        None => revision_of(revisions@, followed.doc, 0) == revision_of(
                            revisions@,
                            followed.doc,
                            at as int,
                        ),
                    },
                decreases revisions@.len() - at,
            {
                if revisions[at].0 == followed.doc {
                    found = Some(revisions[at].1);
                }
                at = at + 1;
            }
            if let Some(revision) = found {
                followed.notice(revision, now);
            }
            self.docs.set(i, followed);
            i = i + 1;
        }
        proof {
            assert(self.docs@ =~= noticed);
            assert forall|k: int| 0 <= k < before.len() implies (#[trigger] noticed[k]).doc
                == before[k].doc by {}
        }
        left_terminal(&mut self.in_terminal, in_terminal)
    }

    /// The text of `doc`, at `revision`, is to be sent now, if it has changed
    /// since it was last sent: the version it goes out as.
    pub fn vcs_send(&mut self, doc: usize, revision: u64) -> (version: Option<u64>)
        requires
            old(self).wf(),
            old(self).of(doc) matches Some(followed) ==> followed.sent < u64::MAX,
        ensures
            final(self).wf(),
            *final(self) == (Changes { docs: final(self).docs, ..*old(self) }),
            match followed_at(old(self).docs@, doc, 0) {
                None => version is None && final(self).docs@ == old(self).docs@,
                Some(at) => {
                    let before = old(self).docs@[at];
                    &&& final(self).docs@ == old(self).docs@.update(at, before.sent_at(revision))
                    &&& version == if revision == before.revision {
                        None
                    } else {
                        Some((before.sent + 1) as u64)
                    }
                },
            },
    {
        match self.find(doc) {
            Some(at) => {
                let ghost before = self.docs@;
                let mut followed = self.docs[at];
                let version = followed.send(revision);
                self.docs.set(at, followed);
                assert forall|i: int| 0 <= i < self.docs@.len() implies (
                #[trigger] self.docs@[i]).doc == before[i].doc by {}
                version
            },
            None => None,
        }
    }

    /// Git's changes for `version` of `doc` came; `compared` is whether it had
    /// anything to compare it with, and `differ` whether they are other than
    /// those shown. An answer that has been overtaken is left alone.
    pub fn vcs_hunks(&mut self, doc: usize, version: u64, compared: bool, differ: bool) -> (outcome:
        Outcome)
        requires
            old(self).wf(),
        ensures
            final(self).wf(),
            *final(self) == (Changes { docs: final(self).docs, ..*old(self) }),
            match followed_at(old(self).docs@, doc, 0) {
                None => outcome == Outcome::Continue && final(self).docs@ == old(self).docs@,
                Some(at) => {
                    let before = old(self).docs@[at];
                    &&& final(self).docs@ == old(self).docs@.update(
                        at,
                        before.with_hunks(version, compared),
                    )
                    &&& outcome == Outcome::spec_redraw_if(
                        before.version <= version <= before.sent && differ,
                    )
                },
            },
    {
        match self.find(doc) {
            Some(at) => {
                let ghost before = self.docs@;
                let mut followed = self.docs[at];
                let step = followed.hunks(version, compared);
                self.docs.set(at, followed);
                assert forall|i: int| 0 <= i < self.docs@.len() implies (
                #[trigger] self.docs@[i]).doc == before[i].doc by {}
                Outcome::redraw_if(step == HunksStep::Take && differ)
            },
            None => Outcome::Continue,
        }
    }

    /// Where the changes of `doc` as it is now come from, its text being at
    /// `revision`; and the version that is to be sent as first, so git's next
    /// answer agrees.
    pub fn current_diff(&mut self, doc: usize, revision: u64) -> (current: (Option<u64>, Source))
        requires
            old(self).wf(),
            old(self).of(doc) matches Some(followed) ==> followed.sent < u64::MAX,
        ensures
            final(self).wf(),
            *final(self) == (Changes { docs: final(self).docs, ..*old(self) }),
            match followed_at(old(self).docs@, doc, 0) {
                None => current == (None::<u64>, Source::Nowhere) && final(self).docs@ == old(
                    self,
                ).docs@,
                Some(at) => {
                    let before = old(self).docs@[at];
                    let sent = before.sent_at(revision);
                    &&& current.0 == if revision == before.revision {
                        None
                    } else {
                        Some(sent.sent)
                    }
                    &&& current.1 == if !sent.compared {
                        Source::Nowhere
                    } else if sent.version == sent.sent {
                        Source::Latest
                    } else {
                        Source::Fresh
                    }
                    &&& final(self).docs@ == old(self).docs@.update(
                        at,
                        if sent.compared {
                            Followed { version: sent.sent, ..sent }
                        } else {
                            sent
                        },
                    )
                },
            },
    {
        match self.find(doc) {
            Some(at) => {
                let ghost before = self.docs@;
                let mut followed = self.docs[at];
                let version = followed.send(revision);
                let source = followed.current();
                self.docs.set(at, followed);
                assert forall|i: int| 0 <= i < self.docs@.len() implies (
                #[trigger] self.docs@[i]).doc == before[i].doc by {}
                (version, source)
            },
            None => (None, Source::Nowhere),
        }
    }

    /// When the next document's text is due to be sent.
    pub fn deadline(&self) -> (due: Option<u64>)
        ensures
            match due {
                Some(at) => earliest_due(self.docs@) == Some(at as int),
                None => earliest_due(self.docs@) is None,
            },
    {
        vcs_deadline(&self.docs)
    }

    /// The documents whose typing has paused by `now`, whose text is to be
    /// sent.
    pub fn tick(&self, now: u64) -> (due: Vec<usize>)
        ensures
            due@ == due_docs(self.docs@, now, self.docs@.len() as int),
    {
        vcs_tick(&self.docs, now)
    }

    /// A card's button was pressed: this is the change it is about.
    pub fn aim(&mut self, aim: Option<Aim>)
        ensures
            *final(self) == (Changes { aimed: aim, ..*old(self) }),
    {
        self.aimed = aim;
    }

    /// The change a pressed button is about, which is then no longer aimed at.
    pub fn take_aim(&mut self) -> (aim: Option<Aim>)
        ensures
            aim == old(self).aimed,
            *final(self) == (Changes { aimed: None, ..*old(self) }),
    {
        self.aimed.take()
    }
}

/// Nothing typed is lost on git: a document whose text changed since it was
/// last sent is due until it is sent, and once it has been, nothing of it is.
pub proof fn what_changed_is_due_until_it_is_sent(before: Followed, revision: u64, now: u64)
    requires
        revision != before.seen,
    ensures
        before.noticed(revision, now).due_at() is Some,
        before.noticed(revision, now).sent_at(revision).due_at() is None,
        before.noticed(revision, now).sent_at(revision).revision == revision,
{
}

/// A document is followed where it is among those followed, and is the first of
/// that number there.
pub proof fn a_followed_document_is_found(docs: Seq<Followed>, doc: usize, from: int)
    requires
        0 <= from <= docs.len(),
    ensures
        match followed_at(docs, doc, from) {
            Some(at) => {
                &&& from <= at < docs.len()
                &&& docs[at].doc == doc
                &&& forall|i: int| from <= i < at ==> (#[trigger] docs[i]).doc != doc
            },
            None => forall|i: int| from <= i < docs.len() ==> (#[trigger] docs[i]).doc != doc,
        },
    decreases docs.len() - from,
{
    if from < docs.len() && docs[from].doc != doc {
        a_followed_document_is_found(docs, doc, from + 1);
    }
}

/// The revision noticed of a document is its own, and of one that has none given
/// nothing is noticed.
pub proof fn a_document_s_own_revision_is_noticed(
    docs: Seq<Followed>,
    revisions: Seq<(usize, u64)>,
    now: u64,
    at: int,
    which: int,
)
    requires
        0 <= at < docs.len(),
        0 <= which < revisions.len(),
        revisions[which].0 == docs[at].doc,
        forall|i: int, j: int|
            0 <= i < j < revisions.len() ==> (#[trigger] revisions[i]).0 != (
            #[trigger] revisions[j]).0,
    ensures
        all_noticed(docs, revisions, now).len() == docs.len(),
        all_noticed(docs, revisions, now)[at].seen == revisions[which].1,
        all_noticed(docs, revisions, now)[at].unsent == if revisions[which].1 == docs[at].seen {
            docs[at].unsent
        } else {
            match docs[at].unsent {
                Some((first, _)) => Some((first, now)),
                None => Some((now, now)),
            }
        },
        all_noticed(docs, revisions, now)[at].revision == docs[at].revision,
        all_noticed(docs, revisions, now)[at].sent == docs[at].sent,
{
    revision_found(revisions, docs[at].doc, 0, which);
}

proof fn revision_found(revisions: Seq<(usize, u64)>, doc: usize, from: int, which: int)
    requires
        0 <= from <= which < revisions.len(),
        revisions[which].0 == doc,
        forall|i: int, j: int|
            0 <= i < j < revisions.len() ==> (#[trigger] revisions[i]).0 != (
            #[trigger] revisions[j]).0,
    ensures
        revision_of(revisions, doc, from) == Some(revisions[which].1),
    decreases which - from,
{
    if from < which {
        assert(revisions[from].0 != revisions[which].0);
        revision_found(revisions, doc, from + 1, which);
    }
}

} // verus!
