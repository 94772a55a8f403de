//! What a session's timeline keeps of a turn.

use vstd::prelude::*;
use vstd::string::*;
use crate::board;
use crate::json;
use crate::json::{Json, JsonView, ObjectBuilder};
use crate::text;

verus! {

/// The number of characters in the id of a message.
pub const MESSAGE_ID_CHARS: usize = 12;

/// The number of characters in the id of a placeholder.
pub const PLACEHOLDER_ID_CHARS: usize = 21;

/// Whether `c` may occur in an id.
pub open spec fn is_id_char(c: char) -> bool {
    ||| c == '_'
    ||| c == '-'
    ||| '0' <= c <= '9'
    ||| 'a' <= c <= 'z'
    ||| 'A' <= c <= 'Z'
}

/// Whether `id` has `size` characters, each of which may occur in an id.
pub open spec fn is_id(id: Seq<char>, size: int) -> bool {
    id.len() == size && forall|i: int| 0 <= i < id.len() ==> is_id_char(#[trigger] id[i])
}

/// Calls `nanoid::format` with the crate's default randomness and its URL-safe
/// alphabet. Trusted: the id has the size asked for and holds only characters
/// of the alphabet. Which ones they are is left to chance.
#[verifier::external_body]
fn random_id(size: usize) -> (r: String)
    requires
        1 <= size <= 64,
    ensures
        is_id(r@, size as int),
{
    nanoid::format(nanoid::rngs::default, &nanoid::alphabet::SAFE, size)
}

/// A fresh id for a message.
pub fn new_message_id() -> (r: String)
    ensures
        is_id(r@, MESSAGE_ID_CHARS as int),
{
    random_id(MESSAGE_ID_CHARS)
}

/// A fresh id for a placeholder.
pub fn new_placeholder_id() -> (r: String)
    ensures
        is_id(r@, PLACEHOLDER_ID_CHARS as int),
{
    random_id(PLACEHOLDER_ID_CHARS)
}

/// The texts `texts` as a list.
pub open spec fn text_list(texts: Seq<Seq<char>>) -> JsonView {
    JsonView::Array(texts.map_values(|t: Seq<char>| JsonView::Text(t)))
}

/// An optional text, or null.
pub open spec fn text_or_null(t: Option<Seq<char>>) -> JsonView {
    match t {
        Some(t) => JsonView::Text(t),
        None => JsonView::Null,
    }
}

/// What a timeline keeps of a user's message with the text `text` and the
/// sources `refs`.
pub open spec fn user_message(
    id: Seq<char>,
    text: Seq<char>,
    refs: Seq<Seq<char>>,
) -> JsonView {
    JsonView::Object(
        seq![
            ("id"@, JsonView::Text(id)),
            ("role"@, JsonView::Text("user"@)),
            ("text"@, JsonView::Text(text)),
            ("refs"@, text_list(refs)),
        ],
    )
}

/// What a timeline keeps of an image that was put on the board.
pub open spec fn image_message(
    id: Seq<char>,
    placement_id: Seq<char>,
    caption: Option<Seq<char>>,
) -> JsonView {
    JsonView::Object(
        seq![
            ("id"@, JsonView::Text(id)),
            ("role"@, JsonView::Text("assistant"@)),
            (
                "blocks"@,
                JsonView::Array(
                    seq![
                        JsonView::Object(
                            seq![
                                ("type"@, JsonView::Text("image"@)),
                                ("placementId"@, JsonView::Text(placement_id)),
                                ("caption"@, text_or_null(caption)),
                                ("status"@, JsonView::Text("done"@)),
                            ],
                        ),
                    ],
                ),
            ),
            ("status"@, JsonView::Text("done"@)),
        ],
    )
}

/// What a timeline keeps of a turn that failed.
pub open spec fn error_message(id: Seq<char>, error: Seq<char>) -> JsonView {
    JsonView::Object(
        seq![
            ("id"@, JsonView::Text(id)),
            ("role"@, JsonView::Text("assistant"@)),
            ("blocks"@, JsonView::Array(Seq::empty())),
            ("status"@, JsonView::Text("error"@)),
            ("error"@, JsonView::Text(error)),
        ],
    )
}

/// What is added to a timeline; nothing where the session writes to none.
pub open spec fn kept_in(session_id: Seq<char>, message: JsonView) -> Option<JsonView> {
    if session_id.len() == 0 {
        None
    } else {
        Some(message)
    }
}

/// An optional document, over views.
pub open spec fn opt_json_view(j: Option<Json>) -> Option<JsonView> {
    match j {
        Some(j) => Some(j@),
        None => None,
    }
}

/// What the timeline `session_id` keeps of a user's message.
pub fn persist_user_record(
    session_id: &str,
    message_id: &str,
    text: &str,
    refs: &Vec<String>,
) -> (r: Option<Json>)
    ensures
        opt_json_view(r) == kept_in(
            session_id@,
            user_message(message_id@, text@, board::texts_view(refs@)),
        ),
{
    if session_id.is_empty() {
        return None;
    }
    let list = json::texts_json(refs);
    proof {
        assert(refs@.map_values(|t: String| JsonView::Text(t@)) =~= board::texts_view(
            refs@,
        ).map_values(|t: Seq<char>| JsonView::Text(t)));
    }
    let mut b = ObjectBuilder::new();
    b.put("id", json::text_json(message_id));
    b.put("role", json::text_json("user"));
    b.put("text", json::text_json(text));
    b.put("refs", list);
    assert(b@ =~= user_message(message_id@, text@, board::texts_view(refs@))->Object_0);
    Some(b.build())
}

/// What the timeline `session_id` keeps of an image that was put on the board.
pub fn persist_assistant_image(
    session_id: &str,
    message_id: &str,
    placement_id: &str,
    caption: &Option<String>,
) -> (r: Option<Json>)
    ensures
        opt_json_view(r) == kept_in(
            session_id@,
            image_message(message_id@, placement_id@, text::opt_view(*caption)),
        ),
{
    if session_id.is_empty() {
        return None;
    }
    let caption_json = match caption {
        Some(t) => json::text_json(t.as_str()),
        None => Json::Null,
    };
    let mut block = ObjectBuilder::new();
    block.put("type", json::text_json("image"));
    block.put("placementId", json::text_json(placement_id));
    block.put("caption", caption_json);
    block.put("status", json::text_json("done"));
    let ghost block_view = block@;
    assert(block_view =~= seq![
        ("type"@, JsonView::Text("image"@)),
        ("placementId"@, JsonView::Text(placement_id@)),
        ("caption"@, text_or_null(text::opt_view(*caption))),
        ("status"@, JsonView::Text("done"@)),
    ]);
    let mut blocks: Vec<Json> = Vec::new();
    blocks.push(block.build());
    assert(json::items_view(blocks@) =~= seq![JsonView::Object(block_view)]);
    let mut b = ObjectBuilder::new();
    b.put("id", json::text_json(message_id));
    b.put("role", json::text_json("assistant"));
    b.put("blocks", json::array_json(blocks));
    b.put("status", json::text_json("done"));
    assert(b@ =~= image_message(
        message_id@,
        placement_id@,
        text::opt_view(*caption),
    )->Object_0);
    Some(b.build())
}

/// What the timeline `session_id` keeps of a turn that failed.
pub fn persist_assistant_error(session_id: &str, message_id: &str, error: &str) -> (r: Option<Json>)
    ensures
        opt_json_view(r) == kept_in(session_id@, error_message(message_id@, error@)),
{
    if session_id.is_empty() {
        return None;
    }
    let blocks: Vec<Json> = Vec::new();
    assert(json::items_view(blocks@) =~= Seq::empty());
    let mut b = ObjectBuilder::new();
    b.put("id", json::text_json(message_id));
    b.put("role", json::text_json("assistant"));
    b.put("blocks", json::array_json(blocks));
    b.put("status", json::text_json("error"));
    b.put("error", json::text_json(error));
    assert(b@ =~= error_message(message_id@, error@)->Object_0);
    Some(b.build())
}

/// The names of the members of records differ.
proof fn member_names_differ()
    ensures
        "id"@ != "role"@,
        "id"@ != "text"@,
        "id"@ != "refs"@,
        "id"@ != "blocks"@,
        "id"@ != "status"@,
        "id"@ != "error"@,
        "role"@ != "text"@,
        "role"@ != "refs"@,
        "role"@ != "blocks"@,
        "role"@ != "status"@,
        "role"@ != "error"@,
        "text"@ != "refs"@,
        "blocks"@ != "status"@,
        "blocks"@ != "error"@,
        "status"@ != "error"@,
        "type"@ != "placementId"@,
        "type"@ != "caption"@,
        "type"@ != "status"@,
        "placementId"@ != "caption"@,
        "placementId"@ != "status"@,
        "caption"@ != "status"@,
{
    reveal_strlit("id");
    reveal_strlit("role");
    reveal_strlit("text");
    reveal_strlit("refs");
    reveal_strlit("blocks");
    reveal_strlit("status");
    reveal_strlit("error");
    reveal_strlit("type");
    reveal_strlit("placementId");
    reveal_strlit("caption");
    assert("id"@.len() == 2 && "role"@.len() == 4 && "text"@.len() == 4 && "refs"@.len() == 4);
    assert("blocks"@.len() == 6 && "status"@.len() == 6 && "error"@.len() == 5);
    assert("type"@.len() == 4 && "placementId"@.len() == 11 && "caption"@.len() == 7);
    assert("role"@[1] == 'o' && "text"@[0] == 't' && "refs"@[1] == 'e');
    assert("blocks"@[0] == 'b' && "status"@[0] == 's');
}

/// The record of a user's message says whose it is, its text and its sources in
/// order.
pub proof fn user_records_hold_the_message(
    id: Seq<char>,
    text: Seq<char>,
    refs: Seq<Seq<char>>,
)
    ensures
        ({
            let record = user_message(id, text, refs);
            &&& record is Object && record->Object_0.len() == 4
            &&& json::child(record, "id"@) == Some(JsonView::Text(id))
            &&& json::child(record, "role"@) == Some(JsonView::Text("user"@))
            &&& json::child(record, "text"@) == Some(JsonView::Text(text))
            &&& json::child(record, "refs"@) matches Some(JsonView::Array(listed)) && listed.len()
                == refs.len() && (forall|i: int|
                0 <= i < refs.len() ==> #[trigger] listed[i] == JsonView::Text(refs[i]))
        }),
{
    member_names_differ();
    let fields = user_message(id, text, refs)->Object_0;
    json::members_are_found_by_name(fields, 0);
    json::members_are_found_by_name(fields, 1);
    json::members_are_found_by_name(fields, 2);
    json::members_are_found_by_name(fields, 3);
}

/// The record of an image holds one block, which leads to the placement and
/// bears the caption.
pub proof fn image_records_lead_to_the_placement(
    id: Seq<char>,
    placement_id: Seq<char>,
    caption: Option<Seq<char>>,
)
    ensures
        ({
            let record = image_message(id, placement_id, caption);
            &&& record is Object && record->Object_0.len() == 4
            &&& json::child(record, "id"@) == Some(JsonView::Text(id))
            &&& json::child(record, "role"@) == Some(JsonView::Text("assistant"@))
            &&& json::child(record, "status"@) == Some(JsonView::Text("done"@))
            &&& json::child(record, "blocks"@) matches Some(JsonView::Array(blocks))
                && blocks.len() == 1 && blocks[0] is Object && blocks[0]->Object_0.len() == 4
                && json::child(blocks[0], "type"@) == Some(JsonView::Text("image"@))
                && json::child(blocks[0], "placementId"@) == Some(JsonView::Text(placement_id))
                && json::child(blocks[0], "caption"@) == Some(
                match caption {
                    Some(t) => JsonView::Text(t),
                    None => JsonView::Null,
                },
            ) && json::child(blocks[0], "status"@) == Some(JsonView::Text("done"@))
        }),
{
    member_names_differ();
    let fields = image_message(id, placement_id, caption)->Object_0;
    json::members_are_found_by_name(fields, 0);
    json::members_are_found_by_name(fields, 1);
    json::members_are_found_by_name(fields, 2);
    json::members_are_found_by_name(fields, 3);
    let block = fields[2].1->Array_0[0]->Object_0;
    json::members_are_found_by_name(block, 0);
    json::members_are_found_by_name(block, 1);
    json::members_are_found_by_name(block, 2);
    json::members_are_found_by_name(block, 3);
}

/// The record of a failed turn holds no block and says what went wrong.
pub proof fn error_records_say_what_went_wrong(id: Seq<char>, error: Seq<char>)
    ensures
        ({
            let record = error_message(id, error);
            &&& record is Object && record->Object_0.len() == 5
            &&& json::child(record, "id"@) == Some(JsonView::Text(id))
            &&& json::child(record, "role"@) == Some(JsonView::Text("assistant"@))
            &&& json::child(record, "blocks"@) == Some(JsonView::Array(Seq::empty()))
            &&& json::child(record, "status"@) == Some(JsonView::Text("error"@))
            &&& json::child(record, "error"@) == Some(JsonView::Text(error))
        }),
{
    member_names_differ();
    let fields = error_message(id, error)->Object_0;
    json::members_are_found_by_name(fields, 0);
    json::members_are_found_by_name(fields, 1);
    json::members_are_found_by_name(fields, 2);
    json::members_are_found_by_name(fields, 3);
    json::members_are_found_by_name(fields, 4);
}

/// A session without a timeline keeps nothing; any other keeps every record.
pub proof fn records_need_a_timeline(session_id: Seq<char>, record: JsonView)
    ensures
        kept_in(session_id, record) == (if session_id == Seq::<char>::empty() {
            None
        } else {
            Some(record)
        }),
{
    if session_id.len() == 0 {
        assert(session_id =~= Seq::empty());
    }
}

}
