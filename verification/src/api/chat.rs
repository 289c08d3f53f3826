//! Conversations: what may be stored, and what its encryption is bound to.

use crate::api::{bad_request, not_found, secret, ApiError, ErrorView};
use crate::ident::{format_uuid, hyphenated, Uuid};
use crate::order::{ordered, Place};
use crate::repository::catalog::message_at;
use crate::repository::Repository;
use crate::text;
use vstd::prelude::*;
use vstd::utf8::encode_utf8;

verus! {

/// Why a conversation is not stored, where it is not.
pub open spec fn conversation_refusal(temporary: bool, title: Option<Seq<char>>) -> Option<ErrorView> {
    if temporary {
        Some(
            bad_request(
                "temporary_chat_not_persisted"@,
                "temporary chat uses the inference API directly and is never added to conversation storage"@,
            ),
        )
    } else {
        match title {
            Some(title) if encode_utf8(title).len() > 200 => Some(
                bad_request(
                    "invalid_conversation_title"@,
                    "conversation titles are limited to 200 bytes"@,
                ),
            ),
            _ => None,
        }
    }
}

/// What an optional title says.
pub open spec fn title_view(title: Option<String>) -> Option<Seq<char>> {
    match title {
        Some(title) => Some(title@),
        None => None,
    }
}

/// Takes a conversation, and gives the title that is to be encrypted with it: none where it is empty.
pub fn create_conversation(temporary: bool, title: Option<String>) -> (r: Result<
    Option<String>,
    ApiError,
>)
    ensures
        r is Err == conversation_refusal(temporary, title_view(title)) is Some,
        r matches Err(error) ==> conversation_refusal(temporary, title_view(title)) == Some(
            error@,
        ),
        r matches Ok(kept) ==> kept == (match title {
            Some(t) if t@.len() > 0 => title,
            _ => None,
        }),
{
    if temporary {
        return Err(
            ApiError::bad_request(
                "temporary_chat_not_persisted",
                "temporary chat uses the inference API directly and is never added to conversation storage",
            ),
        );
    }
    match title {
        Some(title) => {
            if text::byte_len(title.as_str()) > 200 {
                return Err(
                    ApiError::bad_request(
                        "invalid_conversation_title",
                        "conversation titles are limited to 200 bytes",
                    ),
                );
            }
            if title.as_str().unicode_len() == 0 {
                Ok(None)
            } else {
                Ok(Some(title))
            }
        },
        None => Ok(None),
    }
}

/// A temporary conversation is never stored.
pub proof fn law_temporary_chats_are_not_stored(title: Option<Seq<char>>)
    ensures
        conversation_refusal(true, title) is Some,
{
}

/// What the encryption of a title is bound to.
pub open spec fn title_ad(conversation_id: Uuid) -> Seq<char> {
    "conversation:"@ + hyphenated(conversation_id) + ":title"@
}

/// What the encryption of a title is bound to.
pub fn title_associated_data(conversation_id: Uuid) -> (r: String)
    ensures
        r@ == title_ad(conversation_id),
{
    text::join3("conversation:", format_uuid(conversation_id).as_str(), ":title")
}

/// What the encryption of a message is bound to.
pub open spec fn message_ad(conversation_id: Uuid, message_id: Uuid, role: Seq<char>) -> Seq<char> {
    "conversation:"@ + hyphenated(conversation_id) + ":message:"@ + hyphenated(message_id)
        + ":role:"@ + role
}

/// What the encryption of a message is bound to.
pub fn message_associated_data(conversation_id: Uuid, message_id: Uuid, role: &str) -> (r: String)
    ensures
        r@ == message_ad(conversation_id, message_id, role@),
{
    let head = text::join3("conversation:", format_uuid(conversation_id).as_str(), ":message:");
    let middle = text::join3(head.as_str(), format_uuid(message_id).as_str(), ":role:");
    text::join2(middle.as_str(), role)
}

/// A message that was encrypted as one of a conversation, or in a role, is bound to nothing else.
pub proof fn law_messages_are_bound_to_their_place(
    conversation: Uuid,
    message: Uuid,
    role: Seq<char>,
    other_conversation: Uuid,
    other_message: Uuid,
    other_role: Seq<char>,
)
    requires
        message_ad(conversation, message, role) == message_ad(
            other_conversation,
            other_message,
            other_role,
        ),
    ensures
        conversation == other_conversation,
        message == other_message,
        role == other_role,
{
    let a = message_ad(conversation, message, role);
    let b = message_ad(other_conversation, other_message, other_role);
    let n = "conversation:"@.len() as int;
    let m = ":message:"@.len() as int;
    let k = ":role:"@.len() as int;
    crate::ident::lemma_hyphenated(conversation);
    crate::ident::lemma_hyphenated(other_conversation);
    crate::ident::lemma_hyphenated(message);
    crate::ident::lemma_hyphenated(other_message);
    assert(a.subrange(n, n + 36) =~= hyphenated(conversation));
    assert(b.subrange(n, n + 36) =~= hyphenated(other_conversation));
    crate::ident::law_hyphenated_is_injective(conversation, other_conversation);
    assert(a.subrange(n + 36 + m, n + 72 + m) =~= hyphenated(message));
    assert(b.subrange(n + 36 + m, n + 72 + m) =~= hyphenated(other_message));
    crate::ident::law_hyphenated_is_injective(message, other_message);
    assert(a.skip(n + 72 + m + k) =~= role);
    assert(b.skip(n + 72 + m + k) =~= other_role);
}

/// Whether a message may have a role.
pub open spec fn message_role(role: Seq<char>) -> bool {
    role == "system"@ || role == "user"@ || role == "assistant"@ || role == "tool"@
}

/// Why a message is not stored, where it is not.
pub open spec fn message_refusal(role: Seq<char>, content: Seq<char>, known: bool) -> Option<ErrorView> {
    let n = encode_utf8(content).len();
    if !message_role(role) {
        Some(
            bad_request(
                "invalid_message_role"@,
                "message role must be system, user, assistant, or tool"@,
            ),
        )
    } else if n == 0 || n > 1_048_576 {
        Some(
            bad_request(
                "invalid_message_content"@,
                "message content must contain between 1 and 1048576 bytes"@,
            ),
        )
    } else if !known {
        Some(not_found("conversation_not_found"@, "conversation does not exist"@))
    } else {
        None
    }
}

/// Takes a message of a conversation, and gives what its encryption is bound to.
pub fn append_conversation_message(
    conversation_id: Uuid,
    message_id: Uuid,
    role: &str,
    content: &str,
    known: bool,
) -> (r: Result<String, ApiError>)
    ensures
        r is Err == message_refusal(role@, content@, known) is Some,
        r matches Err(error) ==> message_refusal(role@, content@, known) == Some(error@),
        r matches Ok(data) ==> data@ == message_ad(conversation_id, message_id, role@),
{
    if !(text::same(role, "system") || text::same(role, "user") || text::same(role, "assistant")
        || text::same(role, "tool")) {
        return Err(
            ApiError::bad_request(
                "invalid_message_role",
                "message role must be system, user, assistant, or tool",
            ),
        );
    }
    let n: usize = text::byte_len(content);
    if n == 0 || n > 1_048_576 {
        return Err(
            ApiError::bad_request(
                "invalid_message_content",
                "message content must contain between 1 and 1048576 bytes",
            ),
        );
    }
    if !known {
        return Err(ApiError::not_found("conversation_not_found", "conversation does not exist"));
    }
    Ok(message_associated_data(conversation_id, message_id, role))
}

// ------------------------------------------------------------------------------------------------
// Reading a conversation

/// Where a message of a conversation stands, and what its encryption is bound to.
pub struct SealedMessage {
    pub place: Place,
    pub associated_data: String,
}

/// The messages of a conversation, the oldest first, with what the encryption of each is bound to.
pub fn list_conversation_messages(repository: &Repository, conversation_id: Uuid) -> (found: Vec<
    SealedMessage,
>)
    ensures
        ordered(message_places(found@)),
        forall|p: Place| #[trigger]
            message_places(found@).contains(p) == message_at(repository@, conversation_id, p),
        forall|i: int|
            0 <= i < found@.len() ==> (#[trigger] found@[i]).associated_data@ == message_ad(
                conversation_id,
                found@[i].place.1,
                repository@.messages[found@[i].place.1].role@,
            ),
{
    let places = repository.encrypted_messages(conversation_id);
    let mut found: Vec<SealedMessage> = Vec::new();
    let mut i: usize = 0;
    while i < places.len()
        invariant
            i <= places@.len(),
            found@.len() == i,
            forall|p: Place| #[trigger]
                places@.contains(p) == message_at(repository@, conversation_id, p),
            forall|j: int|
                0 <= j < i ==> (#[trigger] found@[j]).place == places@[j]
                    && found@[j].associated_data@ == message_ad(
                    conversation_id,
                    found@[j].place.1,
                    repository@.messages[found@[j].place.1].role@,
                ),
        decreases places@.len() - i,
    {
        let place: Place = places[i];
        proof {
            assert(places@.contains(place));
        }
        let role: &str = match repository.messages.get(&place.1) {
            Some(message) => message.role.as_str(),
            None => "",
        };
        let associated_data = message_associated_data(conversation_id, place.1, role);
        found.push(SealedMessage { place, associated_data });
        i += 1;
    }
    assert(message_places(found@) =~= places@);
    found
}

/// The places of messages.
pub open spec fn message_places(found: Seq<SealedMessage>) -> Seq<Place> {
    found.map_values(|message: SealedMessage| message.place)
}

/// A message that was opened has to be text.
pub fn message_content(opened: Option<Option<String>>) -> (r: Result<String, ApiError>)
    ensures
        match opened {
            Some(Some(content)) => r is Ok && r->Ok_0 == content,
            _ => r is Err && r->Err_0@ == secret(),
        },
{
    match opened {
        Some(Some(content)) => Ok(content),
        _ => Err(ApiError::secret()),
    }
}

/// A title is bound to its conversation, and no title is bound as a message is.
pub proof fn law_titles_are_bound_to_their_conversation(
    conversation: Uuid,
    other: Uuid,
    message: Uuid,
    role: Seq<char>,
)
    ensures
        title_ad(conversation) == title_ad(other) ==> conversation == other,
        title_ad(conversation) != message_ad(other, message, role),
{
    reveal_strlit("conversation:");
    reveal_strlit(":title");
    reveal_strlit(":message:");
    reveal_strlit(":role:");
    assert("conversation:"@.len() == 13);
    assert(":title"@.len() == 6);
    assert(":message:"@.len() == 9);
    assert(":role:"@.len() == 6);
    crate::ident::lemma_hyphenated(conversation);
    crate::ident::lemma_hyphenated(other);
    crate::ident::lemma_hyphenated(message);
    assert(title_ad(conversation).len() == 55);
    assert(message_ad(other, message, role).len() >= 100);
    if title_ad(conversation) == title_ad(other) {
        crate::ident::lemma_hyphenated_behind(
            "conversation:"@,
            conversation,
            ":title"@,
            other,
            ":title"@,
        );
    }
}

/// A conversation is stored where it is not temporary and its title, where it has one, takes at most 200
/// bytes; a message where its role is one of the four, its content takes from one byte to a mebibyte, and
/// its conversation is known.
pub proof fn law_sound_chats_are_stored(
    temporary: bool,
    title: Option<Seq<char>>,
    role: Seq<char>,
    content: Seq<char>,
    known: bool,
)
    ensures
        conversation_refusal(temporary, title) is None <==> !temporary && (title matches Some(words)
            ==> encode_utf8(words).len() <= 200),
        message_refusal(role, content, known) is None <==> known && 1 <= encode_utf8(content).len()
            <= 1_048_576 && (role == "system"@ || role == "user"@ || role == "assistant"@ || role
            == "tool"@),
{
}

} // verus!
