//! What the status line says, and for how long.

use vstd::prelude::*;

use crate::reply::words;

verus! {

/// Where the one-time hint is.
#[derive(Debug)]
pub enum Hint {
    /// There is none.
    Absent,
    /// It has not been seen yet.
    Waiting(String),
    /// It has been seen, and dismissed.
    Seen,
}

/// Where the one-time hint is, as a value.
pub enum HintModel {
    /// There is none.
    Absent,
    /// It has not been seen yet.
    Waiting(Seq<char>),
    /// It has been seen, and dismissed.
    Seen,
}

impl View for Hint {
    type V = HintModel;

    open spec fn view(&self) -> HintModel {
        match *self {
            Hint::Absent => HintModel::Absent,
            Hint::Waiting(text) => HintModel::Waiting(text@),
            Hint::Seen => HintModel::Seen,
        }
    }
}

/// What there is to say in the status line.
#[derive(Debug)]
pub struct Messages {
    /// A transient message, shown until the next key.
    pub message: Option<String>,
    /// Things worth saying once, shown one at a time after `message`, the first
    /// of them first.
    pub notices: Vec<String>,
    /// A notice worth saying only once ever, followed until it has been seen so
    /// that it can be remembered as said.
    pub hint: Hint,
}

/// What there is to say in the status line, as a value.
#[verifier::ext_equal]
pub struct MessagesModel {
    /// A transient message.
    pub message: Option<Seq<char>>,
    /// Things worth saying once.
    pub notices: Seq<Seq<char>>,
    /// A notice worth saying only once ever.
    pub hint: HintModel,
}

/// Texts as sequences of characters.
pub open spec fn texts(all: Seq<String>) -> Seq<Seq<char>> {
    Seq::new(all.len(), |i: int| all[i]@)
}

impl View for Messages {
    type V = MessagesModel;

    open spec fn view(&self) -> MessagesModel {
        MessagesModel {
            message: words(self.message),
            notices: texts(self.notices@),
            hint: self.hint@,
        }
    }
}

impl MessagesModel {
    /// The message showing, if any: the transient one, or else the first
    /// notice.
    pub open spec fn shown(self) -> Option<Seq<char>> {
        match self.message {
            Some(message) => Some(message),
            None => if self.notices.len() > 0 {
                Some(self.notices[0])
            } else {
                None
            },
        }
    }

    /// A key was pressed: whatever message was showing has been seen.
    pub open spec fn acknowledged(self) -> MessagesModel {
        if self.message is Some {
            MessagesModel { message: None, ..self }
        } else if self.notices.len() == 0 {
            self
        } else {
            MessagesModel {
                notices: self.notices.drop_first(),
                hint: if self.hint == HintModel::Waiting(self.notices[0]) {
                    HintModel::Seen
                } else {
                    self.hint
                },
                ..self
            }
        }
    }

    /// The same with a transient message.
    pub open spec fn saying(self, message: Seq<char>) -> MessagesModel {
        MessagesModel { message: Some(message), ..self }
    }

    /// The same with no transient message.
    pub open spec fn quiet(self) -> MessagesModel {
        MessagesModel { message: None, ..self }
    }

    /// The same with another notice behind those there are.
    pub open spec fn warned(self, notice: Seq<char>) -> MessagesModel {
        MessagesModel { notices: self.notices.push(notice), ..self }
    }
}

impl Messages {
    /// Nothing to say.
    pub fn new() -> (messages: Self)
        ensures
            messages@ == (MessagesModel {
                message: None,
                notices: Seq::empty(),
                hint: HintModel::Absent,
            }),
    {
        let messages = Messages { message: None, notices: Vec::new(), hint: Hint::Absent };
        assert(texts(messages.notices@) =~= Seq::empty());
        messages
    }

    /// Say something until the next key.
    pub fn say(&mut self, message: String)
        ensures
            final(self)@ == old(self)@.saying(message@),
    {
        self.message = Some(message);
    }

    /// Take back what was being said until the next key. Notices stay.
    pub fn clear(&mut self)
        ensures
            final(self)@ == old(self)@.quiet(),
    {
        self.message = None;
        assert(self@ =~= old(self)@.quiet());
    }

    /// Say something once.
    ///
    /// Notices queue: each stays until a key is pressed, then the next one
    /// shows. The status line holds one message, and a notice that is
    /// immediately replaced by another was never really said.
    pub fn warn(&mut self, message: String)
        ensures
            final(self)@ == old(self)@.warned(message@),
    {
        let ghost before = self.notices@;
        self.notices.push(message);
        assert(texts(self.notices@) =~= texts(before).push(message@));
    }

    /// Say something that need never be said again: a notice like any other,
    /// except that once it has been seen it is known to have been.
    pub fn hint(&mut self, message: String)
        ensures
            final(self)@ == (MessagesModel {
                hint: HintModel::Waiting(message@),
                ..old(self)@.warned(message@)
            }),
    {
        self.warn(message.clone());
        self.hint = Hint::Waiting(message);
    }

    /// Whether the hint has been seen and dismissed.
    #[must_use]
    pub fn hint_seen(&self) -> (seen: bool)
        ensures
            seen == (self@.hint == HintModel::Seen),
    {
        matches!(self.hint, Hint::Seen)
    }

    /// The message showing, if any.
    pub fn shown(&self) -> (shown: Option<String>)
        ensures
            words(shown) == self@.shown(),
    {
        if let Some(message) = &self.message {
            return Some(message.clone());
        }
        if self.notices.len() > 0 {
            assert(texts(self.notices@)[0] == self.notices@[0]@);
            return Some(self.notices[0].clone());
        }
        None
    }

    /// A key was pressed: whatever message was showing has been seen.
    pub fn acknowledge(&mut self)
        ensures
            final(self)@ == old(self)@.acknowledged(),
    {
        if self.message.take().is_some() {
            return;
        }
        if self.notices.len() == 0 {
            return;
        }
        let ghost before = self.notices@;
        let gone = self.notices.remove(0);
        assert(texts(self.notices@) =~= texts(before).drop_first());
        assert(texts(before)[0] == gone@);
        let seen = match &self.hint {
            Hint::Waiting(hint) => *hint == gone,
            _ => false,
        };
        if seen {
            self.hint = Hint::Seen;
        }
    }
}

/// What is shown after `keys` keys.
pub open spec fn after(messages: MessagesModel, keys: nat) -> MessagesModel
    decreases keys,
{
    if keys == 0 {
        messages
    } else {
        after(messages, (keys - 1) as nat).acknowledged()
    }
}

/// Notices are shown one at a time, in the order they were given, each until a
/// key is pressed, and none is passed over.
pub proof fn notices_are_shown_one_at_a_time(messages: MessagesModel, keys: nat)
    requires
        messages.message is None,
        keys <= messages.notices.len(),
    ensures
        after(messages, keys).message is None,
        after(messages, keys).notices == messages.notices.skip(keys as int),
        keys < messages.notices.len() ==> after(messages, keys).shown() == Some(
            messages.notices[keys as int],
        ),
        keys == messages.notices.len() ==> after(messages, keys).shown() is None,
    decreases keys,
{
    if keys == 0 {
        assert(messages.notices.skip(0) =~= messages.notices);
    } else {
        notices_are_shown_one_at_a_time(messages, (keys - 1) as nat);
        assert(messages.notices.skip(keys - 1).drop_first() =~= messages.notices.skip(
            keys as int,
        ));
    }
}

/// A hint is seen exactly when the notice that says it is dismissed: not while
/// other notices are in front of it, and not before.
pub proof fn a_hint_is_seen_once_it_is_dismissed(messages: MessagesModel, hint: Seq<char>)
    requires
        messages.message is None,
        !messages.notices.contains(hint),
    ensures
        ({
            let hinted = MessagesModel {
                hint: HintModel::Waiting(hint),
                ..messages.warned(hint)
            };
            let count = messages.notices.len();
            &&& forall|keys: nat|
                keys <= count ==> #[trigger] after(hinted, keys).hint == HintModel::Waiting(hint)
            &&& after(hinted, count).shown() == Some(hint)
            &&& after(hinted, count + 1).hint == HintModel::Seen
            &&& after(hinted, count + 1).shown() is None
        }),
{
    let hinted = MessagesModel { hint: HintModel::Waiting(hint), ..messages.warned(hint) };
    let count = messages.notices.len();
    assert forall|keys: nat| keys <= count implies #[trigger] after(hinted, keys).hint
        == HintModel::Waiting(hint) by {
        waiting_until_dismissed(messages, hint, keys);
    }
    notices_are_shown_one_at_a_time(hinted, count);
    notices_are_shown_one_at_a_time(hinted, count + 1);
    assert(hinted.notices.skip(count as int)[0] == hint);
}

proof fn waiting_until_dismissed(messages: MessagesModel, hint: Seq<char>, keys: nat)
    requires
        messages.message is None,
        !messages.notices.contains(hint),
        keys <= messages.notices.len(),
    ensures
        after(
            MessagesModel { hint: HintModel::Waiting(hint), ..messages.warned(hint) },
            keys,
        ).hint == HintModel::Waiting(hint),
    decreases keys,
{
    if keys > 0 {
        let hinted = MessagesModel { hint: HintModel::Waiting(hint), ..messages.warned(hint) };
        waiting_until_dismissed(messages, hint, (keys - 1) as nat);
        notices_are_shown_one_at_a_time(hinted, (keys - 1) as nat);
        let front = after(hinted, (keys - 1) as nat).notices[0];
        assert(front == messages.notices[keys - 1]);
        assert(messages.notices.contains(front));
    }
}

/// A message is shown before any notice, until a key is pressed; a notice given waits
/// behind those given before it.
pub proof fn a_message_is_shown_before_a_notice(
    messages: MessagesModel,
    message: Seq<char>,
    notice: Seq<char>,
)
    ensures
        messages.saying(message).shown() == Some(message),
        messages.saying(message).acknowledged().shown() == messages.quiet().shown(),
        messages.saying(message).acknowledged().notices == messages.notices,
        messages.saying(message).acknowledged().hint == messages.hint,
        messages.warned(notice).notices.last() == notice,
        messages.notices.len() > 0 ==> messages.warned(notice).shown() == messages.shown(),
        messages.message is None && messages.notices.len() == 0 ==> messages.shown() is None
            && messages.warned(notice).shown() == Some(notice),
{
}

} // verus!
