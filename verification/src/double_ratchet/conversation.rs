//! Two sessions that talk to each other over a network that delivers the
//! messages of each direction in order and loses none: whoever writes when, and
//! however messages cross each other on their way, each message is taken with
//! the key that it was sent with.
use super::data::SessionState;
use super::error::DoubleRatchetError;
use super::laws::{
    earlier_header, header_of, kept_key, law_ahead_receives, law_ahead_sends, law_behind_receives,
    law_behind_receives_earlier, law_behind_sends, law_sessions_start_in_step, nth_key, Ends,
};
use super::model::{count_of, session_tag, Answers, Outcome};
use super::session_header::HeaderState;
use crate::init::InitState;
use crate::keys::agree;
use crate::primitives::x25519_public;
use crate::store::StoreCall;
use vstd::prelude::*;

verus! {

/// A message on its way: its header, and the key that it was sent with.
pub struct Sent {
    pub header: HeaderState,
    pub key: Seq<u8>,
}

/// One end: its session, the identity that it acts under, the calls that its
/// store has answered, and the messages that wait for it.
pub struct Party {
    pub state: SessionState,
    pub identity: Seq<u8>,
    pub calls: Seq<StoreCall<SessionState>>,
    pub inbox: Seq<Sent>,
}

impl Party {
    /// Whether the end has a chain to send on, and the chain has not run out of
    /// message numbers.
    pub open spec fn can_send(self) -> bool {
        self.state.sending_chain_key matches Some(chain) && chain.count < u32::MAX
    }

    /// The message that the end sends next.
    pub open spec fn next_message(self) -> Sent {
        let chain = self.state.sending_chain_key.unwrap();
        Sent {
            header: chain.after(1).header(self.state.root_key.public_key()),
            key: chain.key_at(0),
        }
    }

    pub open spec fn after_sending(self) -> Party {
        Party { state: self.state.sent(), ..self }
    }

    /// The end once another message waits for it.
    pub open spec fn with_message(self, message: Sent) -> Party {
        Party { inbox: self.inbox.push(message), ..self }
    }

    /// What the end meets when it takes the next message: a store that gives
    /// away the skipped key that it has and, where the message turns the
    /// ratchet, the identity that the end acts under and a fresh secret that
    /// agrees with the peer's and belongs to a new ratchet key.
    pub open spec fn meets(self, peer: Party, answers: Answers) -> bool {
        &&& answers.skipped == kept_key(self.calls, self.state.session_tag)
        &&& self.state.turns(self.inbox[0].header, answers) ==> {
            &&& answers.receiving_identity == self.identity
            &&& answers.sending_identity == self.identity
            &&& agree(peer.state.root_key.secret_key, answers.secret_key)
            &&& x25519_public(answers.secret_key) != self.state.root_key.public_key()
        }
    }

    /// What taking the next message comes to.
    pub open spec fn taking(self, answers: Answers) -> Outcome {
        self.state.receive(self.inbox[0].header, answers)
    }

    pub open spec fn after_taking(self, answers: Answers) -> Party {
        Party {
            state: self.taking(answers).state,
            calls: self.calls + self.taking(answers).calls,
            inbox: self.inbox.drop_first(),
            ..self
        }
    }
}

/// Whether the message is number `n` of the chain that came with the given
/// ratchet key and started with `origin`.
pub open spec fn is_nth(message: Sent, n: int, public_key: Seq<u8>, origin: Seq<u8>) -> bool {
    &&& message.header.count == n
    &&& message.header.public_key == public_key
    &&& message.key == nth_key(origin, n as u32)
}

/// Both ends, with the first chain keys of the end behind and of the chain that
/// the end ahead had before its last turn.
pub open spec fn ends_of(
    ahead: Party,
    behind: Party,
    behind_origin: Seq<u8>,
    earlier_origin: Seq<u8>,
) -> Ends {
    Ends {
        ahead: ahead.state,
        ahead_identity: ahead.identity,
        behind: behind.state,
        behind_identity: behind.identity,
        behind_origin,
        earlier_origin,
    }
}

/// The number of messages of the end ahead that were sent before its last turn
/// and that the end behind has not taken.
pub open spec fn crossing(ahead: Party, behind: Party) -> int {
    ahead.state.sending_chain_key.unwrap().prev - count_of(behind.state.receiving_chain_key)
}

/// Both ends are in step, no skipped key is kept, and all that either end has
/// sent and the other has not taken waits for it in order.
pub open spec fn ordered(
    ahead: Party,
    behind: Party,
    behind_origin: Seq<u8>,
    earlier_origin: Seq<u8>,
) -> bool {
    let ends = ends_of(ahead, behind, behind_origin, earlier_origin);
    let (x, y) = (ahead.state, behind.state);
    let crossed = crossing(ahead, behind);
    &&& ends.in_step()
    &&& kept_key(ahead.calls, x.session_tag) is None
    &&& kept_key(behind.calls, y.session_tag) is None
    &&& y.receiving_chain_key is None ==> crossed == 0
    &&& behind.inbox.len() == crossed + count_of(x.sending_chain_key)
    &&& forall|i: int|
        0 <= i < crossed ==> is_nth(
            #[trigger] behind.inbox[i],
            count_of(y.receiving_chain_key) + 1 + i,
            y.receiving_chain_key.unwrap().remote_key,
            earlier_origin,
        )
    &&& forall|i: int|
        crossed <= i < behind.inbox.len() ==> is_nth(
            #[trigger] behind.inbox[i],
            i - crossed + 1,
            x.root_key.public_key(),
            ends.origin(),
        ) && behind.inbox[i].header.previous == x.sending_chain_key.unwrap().prev
    &&& ahead.inbox.len() == count_of(y.sending_chain_key) - count_of(x.receiving_chain_key)
    &&& forall|i: int|
        0 <= i < ahead.inbox.len() ==> is_nth(
            #[trigger] ahead.inbox[i],
            count_of(x.receiving_chain_key) + 1 + i,
            y.root_key.public_key(),
            behind_origin,
        ) && ahead.inbox[i].header.previous == y.sending_chain_key.unwrap().prev
}

/// Whether the call leaves no skipped key behind.
pub open spec fn skips_nothing(call: StoreCall<SessionState>) -> bool {
    !(call is SetPreviousKeys)
}

/// Calls that skip nothing leave a store without a skipped key as it is.
proof fn lemma_no_key_is_kept(
    before: Seq<StoreCall<SessionState>>,
    calls: Seq<StoreCall<SessionState>>,
    tag: Seq<u8>,
)
    requires
        kept_key(before, tag) is None,
        forall|i: int| 0 <= i < calls.len() ==> skips_nothing(#[trigger] calls[i]),
    ensures
        kept_key(before + calls, tag) is None,
    decreases calls.len(),
{
    if calls.len() == 0 {
        assert(before + calls =~= before);
    } else {
        lemma_no_key_is_kept(before, calls.drop_last(), tag);
        assert((before + calls).drop_last() =~= before + calls.drop_last());
        assert((before + calls).last() == calls[calls.len() - 1]);
    }
}

proof fn lemma_ahead_sends_in_order(x: Party, y: Party, behind_origin: Seq<u8>, earlier: Seq<u8>)
    requires
        ordered(x, y, behind_origin, earlier),
        x.can_send(),
    ensures
        ordered(x.after_sending(), y.with_message(x.next_message()), behind_origin, earlier),
{
    law_ahead_sends(ends_of(x, y, behind_origin, earlier));
}

proof fn lemma_behind_sends_in_order(x: Party, y: Party, behind_origin: Seq<u8>, earlier: Seq<u8>)
    requires
        ordered(x, y, behind_origin, earlier),
        y.can_send(),
    ensures
        ordered(x.with_message(y.next_message()), y.after_sending(), behind_origin, earlier),
{
    law_behind_sends(ends_of(x, y, behind_origin, earlier));
}

proof fn lemma_ahead_takes_in_order(
    x: Party,
    y: Party,
    behind_origin: Seq<u8>,
    earlier: Seq<u8>,
    answers: Answers,
)
    requires
        ordered(x, y, behind_origin, earlier),
        x.inbox.len() > 0,
        x.meets(y, answers),
    ensures
        x.taking(answers).result == Ok::<Seq<u8>, DoubleRatchetError>(x.inbox[0].key),
        ordered(x.after_taking(answers), y, behind_origin, earlier),
{
    let n = (count_of(x.state.receiving_chain_key) + 1) as u32;
    assert(is_nth(x.inbox[0], n as int, y.state.root_key.public_key(), behind_origin));
    assert(x.inbox[0].header == header_of(y.state, n));
    law_ahead_receives(ends_of(x, y, behind_origin, earlier), n, answers);
    lemma_no_key_is_kept(x.calls, x.taking(answers).calls, x.state.session_tag);
    let after = x.after_taking(answers);
    assert forall|i: int| 0 <= i < after.inbox.len() implies is_nth(
        #[trigger] after.inbox[i],
        n + 1 + i,
        y.state.root_key.public_key(),
        behind_origin,
    ) && after.inbox[i].header.previous == y.state.sending_chain_key.unwrap().prev by {
        assert(after.inbox[i] == x.inbox[i + 1]);
    }
}

proof fn lemma_behind_takes_crossing(
    x: Party,
    y: Party,
    behind_origin: Seq<u8>,
    earlier: Seq<u8>,
    answers: Answers,
)
    requires
        ordered(x, y, behind_origin, earlier),
        crossing(x, y) > 0,
        y.meets(x, answers),
    ensures
        y.inbox.len() > 0,
        y.taking(answers).result == Ok::<Seq<u8>, DoubleRatchetError>(y.inbox[0].key),
        ordered(x, y.after_taking(answers), behind_origin, earlier),
{
    let ends = ends_of(x, y, behind_origin, earlier);
    let n = (count_of(y.state.receiving_chain_key) + 1) as u32;
    let first = y.inbox[0];
    assert(is_nth(first, n as int, y.state.receiving_chain_key.unwrap().remote_key, earlier));
    assert(first.header == earlier_header(ends, n, first.header.previous));
    law_behind_receives_earlier(ends, n, first.header.previous, answers);
    lemma_no_key_is_kept(y.calls, y.taking(answers).calls, y.state.session_tag);
    let after = y.after_taking(answers);
    assert forall|i: int| 0 <= i < after.inbox.len() implies #[trigger] after.inbox[i]
        == y.inbox[i + 1] by {}
}

proof fn lemma_behind_takes_new(
    x: Party,
    y: Party,
    behind_origin: Seq<u8>,
    earlier: Seq<u8>,
    answers: Answers,
)
    requires
        ordered(x, y, behind_origin, earlier),
        crossing(x, y) == 0,
        y.inbox.len() > 0,
        y.meets(x, answers),
    ensures
        y.taking(answers).result == Ok::<Seq<u8>, DoubleRatchetError>(y.inbox[0].key),
        ordered(
            y.after_taking(answers),
            x,
            ends_of(x, y, behind_origin, earlier).origin(),
            behind_origin,
        ),
{
    let ends = ends_of(x, y, behind_origin, earlier);
    let first = y.inbox[0];
    assert(is_nth(first, 1, x.state.root_key.public_key(), ends.origin()));
    assert(first.header == header_of(x.state, 1));
    law_behind_receives(ends, 1, answers);
    lemma_no_key_is_kept(y.calls, y.taking(answers).calls, y.state.session_tag);
    let after = y.after_taking(answers);
    assert forall|i: int| 0 <= i < after.inbox.len() implies #[trigger] after.inbox[i]
        == y.inbox[i + 1] by {}
}

/// What happens in a conversation.
pub enum Event {
    /// An end sends its next message: the first end, or the second.
    Send { first: bool },
    /// An end takes the next message that waits for it.
    Take { first: bool, answers: Answers },
}

/// A conversation between two ends.
pub struct Conversation {
    pub first: Party,
    pub second: Party,
}

impl Conversation {
    /// Whether the event can happen.
    pub open spec fn can(self, event: Event) -> bool {
        match event {
            Event::Send { first } => if first {
                self.first.can_send()
            } else {
                self.second.can_send()
            },
            Event::Take { first, answers } => if first {
                self.first.inbox.len() > 0 && self.first.meets(self.second, answers)
            } else {
                self.second.inbox.len() > 0 && self.second.meets(self.first, answers)
            },
        }
    }

    pub open spec fn after(self, event: Event) -> Conversation {
        match event {
            Event::Send { first } => if first {
                Conversation {
                    first: self.first.after_sending(),
                    second: self.second.with_message(self.first.next_message()),
                }
            } else {
                Conversation {
                    first: self.first.with_message(self.second.next_message()),
                    second: self.second.after_sending(),
                }
            },
            Event::Take { first, answers } => if first {
                Conversation { first: self.first.after_taking(answers), ..self }
            } else {
                Conversation { second: self.second.after_taking(answers), ..self }
            },
        }
    }

    /// Whether a message that is taken is taken with the key that it was sent
    /// with.
    pub open spec fn reads(self, event: Event) -> bool {
        match event {
            Event::Send { .. } => true,
            Event::Take { first, answers } => {
                let party = if first {
                    self.first
                } else {
                    self.second
                };
                party.taking(answers).result == Ok::<Seq<u8>, DoubleRatchetError>(
                    party.inbox[0].key,
                )
            },
        }
    }

    /// The conversation after the events.
    pub open spec fn after_all(self, events: Seq<Event>) -> Conversation
        decreases events.len(),
    {
        if events.len() == 0 {
            self
        } else {
            self.after_all(events.drop_last()).after(events.last())
        }
    }

    /// Whether the events can happen, one after the other.
    pub open spec fn can_all(self, events: Seq<Event>) -> bool
        decreases events.len(),
    {
        events.len() > 0 ==> {
            &&& self.can_all(events.drop_last())
            &&& self.after_all(events.drop_last()).can(events.last())
        }
    }

    /// One end is ahead of the other, and all is in order.
    pub open spec fn in_order(self) -> bool {
        exists|behind_origin: Seq<u8>, earlier_origin: Seq<u8>|
            #![trigger ends_of(self.first, self.second, behind_origin, earlier_origin)]
            ordered(self.first, self.second, behind_origin, earlier_origin) || ordered(
                self.second,
                self.first,
                behind_origin,
                earlier_origin,
            )
    }
}

/// Whatever happens next, all stays in order, and a message that is taken is
/// taken with the key that it was sent with.
pub proof fn law_order_is_kept(conversation: Conversation, event: Event)
    requires
        conversation.in_order(),
        conversation.can(event),
    ensures
        conversation.reads(event),
        conversation.after(event).in_order(),
{
    let (a, b) = (conversation.first, conversation.second);
    let (origin, earlier) = choose|behind_origin: Seq<u8>, earlier_origin: Seq<u8>|
        #![trigger ends_of(a, b, behind_origin, earlier_origin)]
        ordered(a, b, behind_origin, earlier_origin) || ordered(
            b,
            a,
            behind_origin,
            earlier_origin,
        );
    let first_is_ahead = ordered(a, b, origin, earlier);
    let (x, y) = if first_is_ahead {
        (a, b)
    } else {
        (b, a)
    };
    let after = conversation.after(event);
    match event {
        Event::Send { first } => {
            if first == first_is_ahead {
                lemma_ahead_sends_in_order(x, y, origin, earlier);
            } else {
                lemma_behind_sends_in_order(x, y, origin, earlier);
            }
            let _ = ends_of(after.first, after.second, origin, earlier);
        },
        Event::Take { first, answers } => {
            if first == first_is_ahead {
                lemma_ahead_takes_in_order(x, y, origin, earlier, answers);
                let _ = ends_of(after.first, after.second, origin, earlier);
            } else if crossing(x, y) > 0 {
                lemma_behind_takes_crossing(x, y, origin, earlier, answers);
                let _ = ends_of(after.first, after.second, origin, earlier);
            } else {
                lemma_behind_takes_new(x, y, origin, earlier, answers);
                let new_origin = ends_of(x, y, origin, earlier).origin();
                let _ = ends_of(after.first, after.second, new_origin, origin);
            }
        },
    }
}

/// All stays in order over any number of events.
pub proof fn law_order_is_kept_throughout(conversation: Conversation, events: Seq<Event>)
    requires
        conversation.in_order(),
        conversation.can_all(events),
    ensures
        conversation.after_all(events).in_order(),
    decreases events.len(),
{
    if events.len() > 0 {
        law_order_is_kept_throughout(conversation, events.drop_last());
        law_order_is_kept(conversation.after_all(events.drop_last()), events.last());
    }
}

/// How a conversation starts: what both ends start their sessions from, the
/// ratchet secrets that they start with, and the calls that their stores have
/// answered before. The second end waits for the first one.
pub struct Opening {
    pub first: InitState,
    pub first_secret: Seq<u8>,
    pub first_identity: Seq<u8>,
    pub first_calls: Seq<StoreCall<SessionState>>,
    pub second: InitState,
    pub second_secret: Seq<u8>,
    pub second_identity: Seq<u8>,
    pub second_calls: Seq<StoreCall<SessionState>>,
}

impl Opening {
    /// Both ends have one root key, each knows the other's identity, the first
    /// knows the ratchet key of the second, and neither store has a skipped key
    /// for the session.
    pub open spec fn fits(self) -> bool {
        let (a, b) = (self.first, self.second);
        &&& self.first_identity.len() == 32
        &&& self.second_identity.len() == 32
        &&& a.root_key == b.root_key
        &&& a.remote_identity == self.second_identity
        &&& b.remote_identity == self.first_identity
        &&& a.remote_key == Some(x25519_public(self.second_secret))
        &&& b.remote_key is None
        &&& agree(self.first_secret, self.second_secret)
        &&& kept_key(self.first_calls, session_tag(a.root_key)) is None
        &&& kept_key(self.second_calls, session_tag(b.root_key)) is None
    }

    /// The conversation that starts so.
    pub open spec fn conversation(self) -> Conversation {
        Conversation {
            first: Party {
                state: SessionState::started(
                    self.first,
                    self.first_secret,
                    self.first_identity,
                ),
                identity: self.first_identity,
                calls: self.first_calls + SessionState::start_calls(
                    self.first,
                    self.first_secret,
                    self.first_identity,
                ),
                inbox: Seq::empty(),
            },
            second: Party {
                state: SessionState::started(
                    self.second,
                    self.second_secret,
                    self.second_identity,
                ),
                identity: self.second_identity,
                calls: self.second_calls + SessionState::start_calls(
                    self.second,
                    self.second_secret,
                    self.second_identity,
                ),
                inbox: Seq::empty(),
            },
        }
    }
}

/// A conversation starts in order.
pub proof fn law_conversation_starts_in_order(opening: Opening)
    requires
        opening.fits(),
    ensures
        opening.conversation().in_order(),
{
    let c = opening.conversation();
    let none = Seq::<u8>::empty();
    law_sessions_start_in_step(
        opening.first,
        opening.first_secret,
        opening.first_identity,
        opening.second,
        opening.second_secret,
        opening.second_identity,
        none,
        none,
    );
    let tag = session_tag(opening.first.root_key);
    lemma_no_key_is_kept(
        opening.first_calls,
        SessionState::start_calls(
            opening.first,
            opening.first_secret,
            opening.first_identity,
        ),
        tag,
    );
    lemma_no_key_is_kept(
        opening.second_calls,
        SessionState::start_calls(
            opening.second,
            opening.second_secret,
            opening.second_identity,
        ),
        tag,
    );
    assert(ordered(c.first, c.second, none, none));
    let _ = ends_of(c.first, c.second, none, none);
}

/// Whoever has sent and taken what before, and however the messages cross each
/// other: the next message that either end takes is taken with the key that it
/// was sent with.
pub proof fn law_every_message_in_order_is_read(
    opening: Opening,
    events: Seq<Event>,
    first: bool,
    answers: Answers,
)
    requires
        opening.fits(),
        opening.conversation().can_all(events),
        opening.conversation().after_all(events).can(Event::Take { first, answers }),
    ensures
        opening.conversation().after_all(events).reads(Event::Take { first, answers }),
{
    law_conversation_starts_in_order(opening);
    law_order_is_kept_throughout(opening.conversation(), events);
    law_order_is_kept(
        opening.conversation().after_all(events),
        Event::Take { first, answers },
    );
}

} // verus!
