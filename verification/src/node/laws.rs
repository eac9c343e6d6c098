//! What becomes of a message in a node, and how a request and its answer fit
//! together.
use super::auth::{bearer_token, seen_text};
use super::error::{NodeError, NodeFailure};
use super::handlers::{deposit_problem, deposited, DepositStep};
use super::mock::{envelopes, texts, waiting_for, without};
use super::text::{blank, hex_digit, hex_encoded, is_white_space};
use super::types::{DepositMessageRequest, EncryptedEnvelope, Envelope};
use crate::primitives::base64_decoded;
use vstd::prelude::*;

verus! {

/// An envelope carries every field of a deposit in the field of the same name,
/// next to the sender, the message id and the time that it was given.
pub proof fn law_envelope_carries_the_deposit(
    sender_id: Seq<char>,
    request: DepositMessageRequest,
    message_id: Seq<char>,
    timestamp: u64,
)
    ensures
        ({
            let envelope = deposited(sender_id, request, message_id, timestamp);
            &&& envelope.recipient_id == request.recipient_id@
            &&& envelope.header == request.header@
            &&& envelope.ciphertext == request.ciphertext@
            &&& envelope.sender_id == sender_id
            &&& envelope.message_id == message_id
            &&& envelope.timestamp == timestamp
        }),
{
}

/// Two deposits come to the same envelope only where everything about them is
/// the same.
pub proof fn law_deposits_are_told_apart(
    a: (Seq<char>, DepositMessageRequest, Seq<char>, u64),
    b: (Seq<char>, DepositMessageRequest, Seq<char>, u64),
)
    requires
        deposited(a.0, a.1, a.2, a.3) == deposited(b.0, b.1, b.2, b.3),
    ensures
        a.0 == b.0,
        a.1.recipient_id@ == b.1.recipient_id@,
        a.1.header@ == b.1.header@,
        a.1.ciphertext@ == b.1.ciphertext@,
        a.2 == b.2,
        a.3 == b.3,
{
}

/// The view of an envelope holds each of its fields.
pub proof fn law_envelope_view(envelope: EncryptedEnvelope)
    ensures
        envelope@.message_id == envelope.message_id@,
        envelope@.sender_id == envelope.sender_id@,
        envelope@.recipient_id == envelope.recipient_id@,
        envelope@.header == envelope.header@,
        envelope@.ciphertext == envelope.ciphertext@,
        envelope@.timestamp == envelope.timestamp,
{
}

/// The views of lists hold one view for each item, in the order of the items.
pub proof fn law_list_views(list: Seq<EncryptedEnvelope>, names: Seq<String>)
    ensures
        envelopes(list).len() == list.len(),
        forall|i: int| 0 <= i < list.len() ==> #[trigger] envelopes(list)[i] == list[i]@,
        texts(names).len() == names.len(),
        forall|i: int| 0 <= i < names.len() ==> #[trigger] texts(names)[i] == names[i]@,
{
}

/// A deposit that has been stored is the last of the messages that its recipient
/// fetches, with the header and the ciphertext that its sender handed in.
pub proof fn law_deposit_is_fetched(
    all: Seq<Envelope>,
    sender_id: Seq<char>,
    request: DepositMessageRequest,
    message_id: Seq<char>,
    timestamp: u64,
)
    ensures
        ({
            let stored = all.push(deposited(sender_id, request, message_id, timestamp));
            let fetched = waiting_for(stored, request.recipient_id@);
            &&& fetched.len() == waiting_for(all, request.recipient_id@).len() + 1
            &&& fetched.last().header == request.header@
            &&& fetched.last().ciphertext == request.ciphertext@
            &&& fetched.last().sender_id == sender_id
            &&& fetched.last().message_id == message_id
            &&& fetched.last().timestamp == timestamp
        }),
{
    let envelope = deposited(sender_id, request, message_id, timestamp);
    super::mock::law_saved_message_is_fetched(all, envelope, sender_id);
}

/// What is wrong with a deposit is the first of these that holds: its recipient
/// is blank, its header is no Base64 text, its ciphertext is none.
pub proof fn law_deposit_problems(
    recipient_id: Seq<char>,
    header: Seq<char>,
    ciphertext: Seq<char>,
)
    ensures
        ({
            let problem = deposit_problem(recipient_id, header, ciphertext);
            let (no_recipient, no_header, no_ciphertext) = (
                blank(recipient_id),
                base64_decoded(header) is None,
                base64_decoded(ciphertext) is None,
            );
            &&& problem is None <==> !no_recipient && !no_header && !no_ciphertext
            &&& no_recipient ==> problem == Some("recipient_id is required"@)
            &&& !no_recipient && no_header ==> problem == Some("header must be valid base64"@)
            &&& !no_recipient && !no_header && no_ciphertext ==> problem == Some(
                "ciphertext must be valid base64"@,
            )
        }),
{
}

/// A step holds the envelope that it stores or forwards.
pub proof fn law_step_holds_its_envelope(envelope: EncryptedEnvelope, relay_url: String)
    ensures
        (DepositStep::Store { envelope }).envelope() == envelope,
        !(DepositStep::Store { envelope }).is_relay(),
        (DepositStep::Relay { relay_url, envelope }).envelope() == envelope,
        (DepositStep::Relay { relay_url, envelope }).is_relay(),
{
}

/// The messages of a recipient are made out one by one: of a row of messages that
/// stands behind another, theirs stand behind theirs, and of a single message it
/// is that one or none.
pub proof fn law_messages_are_fetched_one_by_one(
    earlier: Seq<Envelope>,
    later: Seq<Envelope>,
    envelope: Envelope,
    recipient_id: Seq<char>,
)
    ensures
        waiting_for(Seq::empty(), recipient_id) == Seq::<Envelope>::empty(),
        waiting_for(earlier + later, recipient_id) == waiting_for(earlier, recipient_id)
            + waiting_for(later, recipient_id),
        envelope.recipient_id == recipient_id ==> waiting_for(seq![envelope], recipient_id)
            == seq![envelope],
        envelope.recipient_id != recipient_id ==> waiting_for(seq![envelope], recipient_id)
            == Seq::<Envelope>::empty(),
    decreases later.len(),
{
    let none = Seq::<Envelope>::empty();
    assert(seq![envelope].drop_last() =~= none);
    assert(waiting_for(none, recipient_id) == none);
    assert(waiting_for(seq![envelope], recipient_id) =~= if envelope.recipient_id == recipient_id {
        seq![envelope]
    } else {
        none
    });
    if later.len() == 0 {
        assert(earlier + later =~= earlier);
        assert(waiting_for(earlier, recipient_id) =~= waiting_for(earlier, recipient_id) + none);
    } else {
        law_messages_are_fetched_one_by_one(earlier, later.drop_last(), envelope, recipient_id);
        assert((earlier + later).drop_last() =~= earlier + later.drop_last());
        assert((earlier + later).last() == later.last());
        assert(waiting_for(earlier + later, recipient_id) =~= waiting_for(earlier, recipient_id)
            + waiting_for(later, recipient_id));
    }
}

/// What a recipient fetches is what was stored, kept to the messages for them.
pub proof fn law_fetching_filters(all: Seq<Envelope>, recipient_id: Seq<char>)
    ensures
        waiting_for(all, recipient_id) == all.filter(
            |envelope: Envelope| envelope.recipient_id == recipient_id,
        ),
    decreases all.len(),
{
    reveal(Seq::filter);
    if all.len() > 0 {
        law_fetching_filters(all.drop_last(), recipient_id);
    }
}

/// Messages are acknowledged one by one: what is left of a row of messages that
/// stands behind another stands behind what is left of that, and a single
/// message goes where it is one of the recipient's and its id is among those
/// that they acknowledge, and stays as it is otherwise.
pub proof fn law_messages_are_acknowledged_one_by_one(
    earlier: Seq<Envelope>,
    later: Seq<Envelope>,
    envelope: Envelope,
    recipient_id: Seq<char>,
    message_ids: Seq<Seq<char>>,
)
    ensures
        without(Seq::empty(), recipient_id, message_ids) == Seq::<Envelope>::empty(),
        without(earlier + later, recipient_id, message_ids) == without(
            earlier,
            recipient_id,
            message_ids,
        ) + without(later, recipient_id, message_ids),
        envelope.recipient_id == recipient_id && message_ids.contains(envelope.message_id)
            ==> without(seq![envelope], recipient_id, message_ids) == Seq::<Envelope>::empty(),
        envelope.recipient_id != recipient_id || !message_ids.contains(envelope.message_id)
            ==> without(seq![envelope], recipient_id, message_ids) == seq![envelope],
    decreases later.len(),
{
    let none = Seq::<Envelope>::empty();
    assert(seq![envelope].drop_last() =~= none);
    assert(without(none, recipient_id, message_ids) == none);
    let goes = envelope.recipient_id == recipient_id && message_ids.contains(envelope.message_id);
    assert(without(seq![envelope], recipient_id, message_ids) =~= if goes {
        none
    } else {
        seq![envelope]
    });
    let left = without(earlier, recipient_id, message_ids);
    if later.len() == 0 {
        assert(earlier + later =~= earlier);
        assert(left =~= left + none);
    } else {
        law_messages_are_acknowledged_one_by_one(
            earlier,
            later.drop_last(),
            envelope,
            recipient_id,
            message_ids,
        );
        assert((earlier + later).drop_last() =~= earlier + later.drop_last());
        assert((earlier + later).last() == later.last());
        assert(without(earlier + later, recipient_id, message_ids) =~= left + without(
            later,
            recipient_id,
            message_ids,
        ));
    }
}

/// Once a recipient has acknowledged messages, what is left for them is what
/// waited for them, kept to the messages whose ids they have not acknowledged;
/// and what is left in all is what there was, kept to those and to the messages
/// for others. Whatever is kept stays in its order.
pub proof fn law_unacknowledged_messages_stay(
    all: Seq<Envelope>,
    recipient_id: Seq<char>,
    message_ids: Seq<Seq<char>>,
)
    ensures
        waiting_for(without(all, recipient_id, message_ids), recipient_id) == waiting_for(
            all,
            recipient_id,
        ).filter(|envelope: Envelope| !message_ids.contains(envelope.message_id)),
        without(all, recipient_id, message_ids) == all.filter(
            |envelope: Envelope|
                envelope.recipient_id != recipient_id || !message_ids.contains(
                    envelope.message_id,
                ),
        ),
        forall|i: int|
            0 <= i < all.len() && (all[i].recipient_id != recipient_id || !message_ids.contains(
                all[i].message_id,
            )) ==> without(all, recipient_id, message_ids).contains(#[trigger] all[i]),
    decreases all.len(),
{
    reveal(Seq::filter);
    if all.len() > 0 {
        let (fewer, last) = (all.drop_last(), all.last());
        law_unacknowledged_messages_stay(fewer, recipient_id, message_ids);
        let left = without(fewer, recipient_id, message_ids);
        super::mock::law_saved_message_is_fetched(left, last, recipient_id);
        let mine = waiting_for(fewer, recipient_id);
        assert(mine.push(last).drop_last() =~= mine);
        let rest = without(all, recipient_id, message_ids);
        assert forall|i: int|
            0 <= i < all.len() && (all[i].recipient_id != recipient_id || !message_ids.contains(
                all[i].message_id,
            )) implies rest.contains(#[trigger] all[i]) by {
            if i < fewer.len() {
                assert(fewer[i] == all[i]);
                let j = choose|j: int| 0 <= j < left.len() && left[j] == fewer[i];
                assert(rest[j] == all[i]);
            } else {
                assert(rest[rest.len() - 1] == all[i]);
            }
        }
    }
}

/// Acknowledging nothing changes nothing, acknowledging twice is acknowledging
/// once, and one after the other comes to the same as both together.
pub proof fn law_acknowledging_again(
    all: Seq<Envelope>,
    recipient_id: Seq<char>,
    first: Seq<Seq<char>>,
    second: Seq<Seq<char>>,
)
    ensures
        without(all, recipient_id, Seq::empty()) == all,
        without(without(all, recipient_id, first), recipient_id, first) == without(
            all,
            recipient_id,
            first,
        ),
        without(without(all, recipient_id, first), recipient_id, second) == without(
            all,
            recipient_id,
            first + second,
        ),
    decreases all.len(),
{
    if all.len() > 0 {
        let (fewer, last) = (all.drop_last(), all.last());
        law_acknowledging_again(fewer, recipient_id, first, second);
        let left = without(fewer, recipient_id, first);
        assert(left.push(last).drop_last() =~= left);
        let (id, both) = (last.message_id, first + second);
        assert(both.contains(id) == (first.contains(id) || second.contains(id))) by {
            if first.contains(id) {
                let i = choose|i: int| 0 <= i < first.len() && first[i] == id;
                assert(both[i] == id);
            }
            if second.contains(id) {
                let i = choose|i: int| 0 <= i < second.len() && second[i] == id;
                assert(both[first.len() + i] == id);
            }
        }
        assert(without(all, recipient_id, Seq::empty()) =~= all);
    } else {
        assert(without(all, recipient_id, Seq::empty()) =~= all);
    }
}

/// The token of a header is what follows `Bearer` and a space, whatever it is,
/// and nothing else has a token.
pub proof fn law_bearer_token(token: Seq<char>, value: Seq<char>)
    ensures
        bearer_token(None) is None,
        bearer_token(Some("Bearer "@ + token)) == Some(token),
        bearer_token(Some(value)) matches Some(given) ==> value == "Bearer "@ + given,
        bearer_token(Some(value)) is None ==> value != "Bearer "@ + token,
{
    let prefix = "Bearer "@;
    let whole = prefix + token;
    assert(whole.subrange(0, prefix.len() as int) =~= prefix);
    assert(whole.subrange(prefix.len() as int, whole.len() as int) =~= token);
    if let Some(given) = bearer_token(Some(value)) {
        assert(value =~= prefix + given);
    }
}

/// The view of an optional text is the view of the text.
pub proof fn law_seen_text(text: &str)
    ensures
        seen_text(None) is None,
        seen_text(Some(text)) == Some(text@),
{
}

/// Text is blank where all its parts are. Text of a single character is blank
/// where that is white space.
pub proof fn law_blank(a: Seq<char>, b: Seq<char>, c: char)
    ensures
        blank(Seq::empty()),
        blank(a + b) <==> blank(a) && blank(b),
        blank(seq![c]) <==> is_white_space(c),
{
    if blank(a + b) {
        assert forall|i: int| 0 <= i < a.len() implies is_white_space(#[trigger] a[i]) by {
            assert((a + b)[i] == a[i]);
        }
        assert forall|i: int| 0 <= i < b.len() implies is_white_space(#[trigger] b[i]) by {
            assert((a + b)[a.len() + i] == b[i]);
        }
    }
    assert(seq![c][0] == c);
}

/// The characters that are white space, each by its number.
pub proof fn law_white_space(c: char)
    ensures
        is_white_space(c) <==> seq![
            0x9u32, 0xa, 0xb, 0xc, 0xd, 0x20, 0x85, 0xa0, 0x1680, 0x2000, 0x2001, 0x2002, 0x2003,
            0x2004, 0x2005, 0x2006, 0x2007, 0x2008, 0x2009, 0x200a, 0x2028, 0x2029, 0x202f, 0x205f,
            0x3000,
        ].contains(c as u32),
{
    let all = seq![
        0x9u32, 0xa, 0xb, 0xc, 0xd, 0x20, 0x85, 0xa0, 0x1680, 0x2000, 0x2001, 0x2002, 0x2003,
        0x2004, 0x2005, 0x2006, 0x2007, 0x2008, 0x2009, 0x200a, 0x2028, 0x2029, 0x202f, 0x205f,
        0x3000,
    ];
    let n = c as u32;
    if is_white_space(c) {
        let i: int = if n <= 0xd {
            n - 0x9
        } else if n == 0x20 {
            5
        } else if n == 0x85 {
            6
        } else if n == 0xa0 {
            7
        } else if n == 0x1680 {
            8
        } else if n <= 0x200a {
            n - 0x2000 + 9
        } else if n == 0x2028 {
            20
        } else if n == 0x2029 {
            21
        } else if n == 0x202f {
            22
        } else if n == 0x205f {
            23
        } else {
            24
        };
        assert(all[i] == n);
    }
}

/// A byte is written as two of the sixteen lower-case digits, the upper half
/// first, and bytes in their order.
pub proof fn law_hexadecimal(bytes: Seq<u8>)
    ensures
        hex_encoded(bytes).len() == 2 * bytes.len(),
        forall|i: int|
            0 <= i < bytes.len() ==> {
                &&& #[trigger] hex_encoded(bytes)[2 * i] == "0123456789abcdef"@[bytes[i] as int
                    / 16]
                &&& hex_encoded(bytes)[2 * i + 1] == "0123456789abcdef"@[bytes[i] as int % 16]
            },
{
    reveal_strlit("0123456789abcdef");
    assert forall|i: int| 0 <= i < bytes.len() implies {
        &&& #[trigger] hex_encoded(bytes)[2 * i] == "0123456789abcdef"@[bytes[i] as int / 16]
        &&& hex_encoded(bytes)[2 * i + 1] == "0123456789abcdef"@[bytes[i] as int % 16]
    } by {
        lemma_hex_digit(bytes[i] / 16);
        lemma_hex_digit(bytes[i] % 16);
        assert((2 * i) % 2 == 0 && (2 * i) / 2 == i);
        assert((2 * i + 1) % 2 == 1 && (2 * i + 1) / 2 == i);
    }
}

proof fn lemma_hex_digit(n: u8)
    requires
        n < 16,
    ensures
        hex_digit(n) == "0123456789abcdef"@[n as int],
{
    reveal_strlit("0123456789abcdef");
}

/// Different bytes are written differently.
pub proof fn law_hexadecimal_is_told_apart(a: Seq<u8>, b: Seq<u8>)
    requires
        hex_encoded(a) == hex_encoded(b),
    ensures
        a == b,
{
    reveal_strlit("0123456789abcdef");
    law_hexadecimal(a);
    law_hexadecimal(b);
    assert forall|i: int| 0 <= i < a.len() implies a[i] == b[i] by {
        let (x, y) = (hex_encoded(a), hex_encoded(b));
        assert(x[2 * i] == y[2 * i]);
        assert(x[2 * i + 1] == y[2 * i + 1]);
        lemma_digits_differ(a[i] as int / 16, b[i] as int / 16);
        lemma_digits_differ(a[i] as int % 16, b[i] as int % 16);
    }
    assert(a =~= b);
}

proof fn lemma_digits_differ(m: int, n: int)
    requires
        0 <= m < 16,
        0 <= n < 16,
        "0123456789abcdef"@[m] == "0123456789abcdef"@[n],
    ensures
        m == n,
{
    reveal_strlit("0123456789abcdef");
}

/// The view of an error is of the same kind and holds the same text.
pub proof fn law_error_view(error: NodeError)
    ensures
        error is Unauthorized <==> error@ is Unauthorized,
        error is Forbidden <==> error@ is Forbidden,
        error is NotFound <==> error@ is NotFound,
        error is UnknownRecipient <==> error@ is UnknownRecipient,
        error matches NodeError::InvalidRequest(text) ==> error@ == NodeFailure::InvalidRequest(
            text@,
        ),
        error matches NodeError::Storage(text) ==> error@ == NodeFailure::Storage(text@),
        error matches NodeError::Relay(text) ==> error@ == NodeFailure::Relay(text@),
{
}

/// What an error starts with, in words, tells its kind.
proof fn lemma_error_starts(failure: NodeFailure)
    ensures
        ({
            let message = failure.message();
            &&& message.len() > 2
            &&& (message[0], message[2]) == match failure {
                NodeFailure::Unauthorized => ('m', 's'),
                NodeFailure::Forbidden => ('n', 't'),
                NodeFailure::NotFound => ('r', 's'),
                NodeFailure::UnknownRecipient => ('r', 'c'),
                NodeFailure::InvalidRequest(_) => ('i', 'v'),
                NodeFailure::Storage(_) => ('s', 'o'),
                NodeFailure::Relay(_) => ('r', 'l'),
            }
        }),
{
    reveal_strlit("missing or invalid credentials");
    reveal_strlit("not permitted to access this resource");
    reveal_strlit("resource not found");
    reveal_strlit("recipient is not known to this network");
    reveal_strlit("invalid request: ");
    reveal_strlit("storage error: ");
    reveal_strlit("relay error: ");
    match failure {
        NodeFailure::InvalidRequest(text) => {
            assert(failure.message()[0] == "invalid request: "@[0]);
            assert(failure.message()[2] == "invalid request: "@[2]);
        },
        NodeFailure::Storage(text) => {
            assert(failure.message()[0] == "storage error: "@[0]);
            assert(failure.message()[2] == "storage error: "@[2]);
        },
        NodeFailure::Relay(text) => {
            assert(failure.message()[0] == "relay error: "@[0]);
            assert(failure.message()[2] == "relay error: "@[2]);
        },
        _ => {},
    }
}

/// Text behind the same prefix is the same where the whole is.
proof fn lemma_same_rest(prefix: Seq<char>, a: Seq<char>, b: Seq<char>)
    requires
        prefix + a == prefix + b,
    ensures
        a == b,
{
    let n = prefix.len() as int;
    assert(a =~= (prefix + a).subrange(n, n + a.len()));
    assert(b =~= (prefix + b).subrange(n, n + b.len()));
    assert((prefix + a).len() == (prefix + b).len());
}

/// Different errors read differently.
pub proof fn law_errors_read_differently(a: NodeFailure, b: NodeFailure)
    requires
        a.message() == b.message(),
    ensures
        a == b,
{
    lemma_error_starts(a);
    lemma_error_starts(b);
    match (a, b) {
        (NodeFailure::InvalidRequest(x), NodeFailure::InvalidRequest(y)) => lemma_same_rest(
            "invalid request: "@,
            x,
            y,
        ),
        (NodeFailure::Storage(x), NodeFailure::Storage(y)) => lemma_same_rest(
            "storage error: "@,
            x,
            y,
        ),
        (NodeFailure::Relay(x), NodeFailure::Relay(y)) => lemma_same_rest("relay error: "@, x, y),
        _ => {},
    }
}

} // verus!
