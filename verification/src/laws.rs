//! What holds of the calls of this library: how their results relate to what
//! they are given, and to the results of other calls.

use vstd::prelude::*;
use vstd::string::*;
use crate::board;
use crate::board::{Asset, BoardDoc, OverlayMap, Placement, ResolvedRef};
use crate::codec;
use crate::files;
use crate::files::OverlayCleanup;
use crate::json;
use crate::json::{Json, JsonView};
use crate::prompt;
use crate::records;
use crate::registry::ApiRegistry;
use crate::reply;
use crate::reply::{GeneratedImage, ImageReply, ImagesResponse, Service};
use crate::request;
use crate::request::{FilePart, GenerationStep, ResponsesSend, SendDecision, SendFault};
use crate::send;
use crate::send::{Rect, SendAction, SendMessage, SendStep};
use crate::session;
use crate::session::ApiSession;
use crate::settings;
use crate::settings::{ApiImageSettings, ModelInfo, ProxyChoice};
use crate::skills;
use crate::skills::{SkillContext, SkillInputRef};
use crate::start;
use crate::start::{BoardMeta, OpenedSession, StartStep};
use crate::text;
use crate::turn;
use crate::turn::{Effect, EffectView, EventView};

verus! {

/// A skill context that could not be built gives no prompt but its error. Without
/// a context and without images the text is the prompt. With images the prompt,
/// or what follows the context and the words that announce the request, opens
/// with the words on the images, and goes on with the sentence on red marks
/// exactly where an image has an overlay.
pub proof fn prompts_speak_of_images_and_marks(
    text: &str,
    refs: &Vec<ResolvedRef>,
    context: Result<String, String>,
    prompt: Result<String, String>,
)
    requires
        call_ensures(prompt::build_api_prompt, (text, refs, context), prompt),
    ensures
        context matches Err(e) ==> prompt is Err && prompt->Err_0@ == e@,
        context matches Ok(c) ==> prompt is Ok && ({
            let p = prompt->Ok_0@;
            let lead = "Use the attached image(s) as visual reference."@;
            let marks =
                " Some attached images contain red numbered mark overlays; use those marks only as edit instructions and do not copy the red marks into the output."@;
            let announced = "\n\nUser request:\n"@;
            let at: int = if c@.len() == 0 {
                0
            } else {
                c@.len() as int + announced.len()
            };
            &&& refs@.len() == 0 && c@.len() == 0 ==> p == text@
            &&& refs@.len() == 0 && c@.len() > 0 && text::is_blank(text@) ==> p == c@
            &&& refs@.len() == 0 && c@.len() > 0 && !text::is_blank(text@) ==> p == c@ + announced
                + text@
            &&& refs@.len() > 0 ==> {
                &&& c@.is_prefix_of(p)
                &&& c@.len() > 0 ==> text::occurs_at(p, announced, c@.len() as int)
                &&& text::occurs_at(p, lead, at)
                &&& text::occurs_at(p, marks, at + lead.len()) <==> exists|i: int|
                    0 <= i < refs@.len() && (#[trigger] refs@[i]).overlay_rel is Some
            }
        }),
{
    if let Ok(c) = context {
        let all = board::refs_view(refs@);
        let request = prompt::user_request(text@, all);
        prompt::prompts_put_the_context_first(request, c@);
        if refs@.len() == 0 {
            assert(all =~= Seq::empty());
            if c@.len() > 0 && !text::is_blank(text@) {
                text::blank_trims_to_nothing(text@);
            }
        } else {
            prompt::requests_speak_of_their_images(text@, all);
            images_carry_over(refs@);
            let lead = "Use the attached image(s) as visual reference."@;
            let marks =
                " Some attached images contain red numbered mark overlays; use those marks only as edit instructions and do not copy the red marks into the output."@;
            let p = prompt->Ok_0@;
            reveal_strlit("Use the attached image(s) as visual reference.");
            assert(request[0] == 'U');
            assert(!text::is_white_space(request[0]));
            text::blank_trims_to_nothing(request);
            if c@.len() == 0 {
                assert(p == request);
                assert(p.subrange(0, lead.len() as int) =~= lead);
            } else {
                let at = p.len() - request.len();
                assert(p.skip(at) =~= request);
                assert(p.subrange(at, at + lead.len()) =~= request.subrange(
                    0,
                    lead.len() as int,
                ));
                assert(request.subrange(0, lead.len() as int) =~= lead);
                if at + lead.len() + marks.len() <= p.len() {
                    assert(p.subrange(at + lead.len(), at + lead.len() + marks.len())
                        =~= request.subrange(lead.len() as int, lead.len() + marks.len() as int));
                }
            }
        }
    }
}

proof fn images_carry_over(refs: Seq<ResolvedRef>)
    ensures
        (exists|i: int| 0 <= i < refs.len() && (#[trigger] refs[i]).overlay_rel is Some) <==> (
        exists|i: int|
            0 <= i < refs.len() && (#[trigger] board::refs_view(refs)[i]).overlay_rel is Some),
{
    let all = board::refs_view(refs);
    if exists|i: int| 0 <= i < refs.len() && (#[trigger] refs[i]).overlay_rel is Some {
        let i = choose|i: int| 0 <= i < refs.len() && (#[trigger] refs[i]).overlay_rel is Some;
        assert(all[i].overlay_rel is Some);
    }
    if exists|i: int| 0 <= i < refs.len() && (#[trigger] all[i]).overlay_rel is Some {
        let i = choose|i: int| 0 <= i < refs.len() && (#[trigger] all[i]).overlay_rel is Some;
        assert(refs[i].overlay_rel is Some);
    }
}

/// What the timeline shows of a message begins with its text, and ends with the
/// names of its skills where it has any.
pub proof fn shown_texts_begin_with_the_message(
    text: &str,
    skills: &Vec<SkillInputRef>,
    shown: String,
)
    requires
        call_ensures(skills::display_user_text, (text, skills), shown),
    ensures
        skills@.len() == 0 ==> shown@ == text@,
        skills@.len() > 0 && !text::is_blank(text@) ==> text@.is_prefix_of(shown@),
        skills@.len() > 0 ==> skills@.last().name@.is_suffix_of(shown@),
        skills@.len() == 1 && !text::is_blank(text@) ==> shown@ == text@ + "\n\n"@ + ("Skills: "@
            + skills@[0].name@),
        skills@.len() == 1 && text::is_blank(text@) ==> shown@ == "Skills: "@ + skills@[0].name@,
{
    text::blank_trims_to_nothing(text@);
    if skills@.len() > 0 {
        let front = skills@.drop_last();
        let last = skills@.last();
        assert(front.push(last) =~= skills@);
        skills::shown_messages_list_their_skills(text@, front, last);
        if front.len() == 0 {
            assert(skills@ =~= seq![last]);
        }
        let name = last.name@;
        assert(shown@.skip(shown@.len() - name.len()) =~= name);
    }
}

/// A short skill is taken whole. Of a long one that is not cut, every section
/// under a known heading is taken.
pub proof fn compacted_skills_keep_known_sections(body: &str, compact: String, a: int)
    requires
        skills::compactable(body@),
        call_ensures(skills::compact_skill_body, (body,), compact),
        0 <= a < 7,
    ensures
        skills::bytes(text::trimmed(skills::without_frontmatter(body@))) <= 9000 ==> compact@
            == text::trimmed(skills::without_frontmatter(body@)),
        ({
            let stripped = text::trimmed(skills::without_frontmatter(body@));
            let heading = if a == 0 {
                "## Goal"@
            } else if a == 1 {
                "## Workflow"@
            } else if a == 2 {
                "## Realism Hard Constraints"@
            } else if a == 3 {
                "## Variation System"@
            } else if a == 4 {
                "## Scene Presets"@
            } else if a == 5 {
                "## Prompt Template"@
            } else {
                "## Negative Prompt"@
            };
            let found = skills::section(stripped, heading);
            skills::bytes(stripped) > 9000 && skills::bytes(compact@) <= 9000 && found is Some
                ==> text::holds_text(compact@, text::trimmed(found->0))
        }),
        skills::bytes(compact@) <= 9000 || "\n...[skill body truncated]"@.is_suffix_of(compact@),
{
    skills::long_skills_are_cut_at_the_limit(body@);
    if skills::bytes(skills::instructions(body@)) > 9000 && skills::bytes(compact@) <= 9000 {
        if a < 6 {
            skills::known_sections_are_kept(body@, a, 6);
        } else {
            skills::known_sections_are_kept(body@, 0, a);
        }
    }
    if skills::bytes(compact@) > 9000 {
        let marker = "\n...[skill body truncated]"@;
        let head = choose|head: Seq<char>|
            skills::bytes(head) == 9000 && compact@ == #[trigger] (head + marker);
        assert((head + marker).skip(head.len() as int) =~= marker);
    }
}

/// Whether a model is served by the image endpoints goes by the letters of its
/// name, and so does the service that is asked first.
pub proof fn names_decide_how_a_model_is_asked(
    model: &str,
    served: bool,
    preferred: bool,
    first: Service,
)
    requires
        call_ensures(settings::image_endpoint_model, (model,), served),
        call_ensures(settings::prefers_responses_api, (model,), preferred),
        call_ensures(request::first_call, (model,), first),
    ensures
        ({
            let m = text::ascii_lowered(text::trimmed(model@));
            let by_name = (exists|i: int|
                0 <= i && i + 5 <= m.len() && #[trigger] m[i] == 'i' && m[i + 1] == 'm' && m[i + 2]
                    == 'a' && m[i + 3] == 'g' && m[i + 4] == 'e') || (m.len() >= 6 && m[0] == 'd'
                && m[1] == 'a' && m[2] == 'l' && m[3] == 'l' && m[4] == '-' && m[5] == 'e');
            &&& served == by_name
            &&& preferred == !by_name
            &&& first == (if by_name {
                Service::Images
            } else {
                Service::Responses
            })
        }),
{
    settings::image_models_are_known_by_their_letters(model@);
}

/// An image ends a generation. The first failure of a model that is asked
/// through the image endpoints goes on to the Responses endpoint; any other
/// failure is the end, and is told of.
pub proof fn generations_fall_back_once(
    model: &str,
    failed: Option<String>,
    outcome: Result<GeneratedImage, String>,
    step: GenerationStep,
    first: Service,
)
    requires
        call_ensures(request::generate_image, (model, failed, outcome), step),
        call_ensures(request::first_call, (model,), first),
    ensures
        outcome matches Ok(image) ==> step is Done && step->Done_0 is Ok && step->Done_0->Ok_0@
            == image@,
        outcome matches Err(e) ==> match failed {
            Some(before) => step is Done && step->Done_0 is Err && step->Done_0->Err_0@
                == "Image API request failed: "@ + before@ + "; Responses fallback failed: "@ + e@,
            None => match first {
                Service::Images => step is Fallback && step->service == Service::Responses
                    && step->first_error@ == e@,
                Service::Responses => step is Done && step->Done_0 is Err && step->Done_0->Err_0@
                    == "Responses image generation failed: "@ + e@
                    + "; Image API fallback skipped because configured model \""@ + text::trimmed(
                    model@,
                ) + "\" is not an image endpoint model."@,
            },
        },
{
    match step {
        GenerationStep::Done(r) => {
            assert(step@ == request::GenerationStepView::Done(reply::image_outcome(r)));
        },
        GenerationStep::Fallback { service, first_error } => {},
    }
}

/// The body of a request to the Responses endpoint is the prompt alone exactly
/// where there is no image; otherwise every image stands in it, in order, behind
/// the prompt.
pub proof fn responses_bodies_hold_every_image(
    api: &ApiImageSettings,
    prompt: &str,
    images: Vec<Json>,
    body: Json,
)
    requires
        call_ensures(request::responses_body, (api, prompt, images), body),
    ensures
        json::child(body@, "model"@) == Some(JsonView::Text(text::trimmed(api.model@))),
        json::child(body@, "store"@) == Some(JsonView::Bool(false)),
        images@.len() == 0 ==> json::child(body@, "input"@) == Some(JsonView::Text(prompt@)),
        images@.len() > 0 ==> (json::child(body@, "input"@) matches Some(JsonView::Array(messages))
            && messages.len() == 1 && json::child(messages[0], "role"@) == Some(
            JsonView::Text("user"@),
        ) && (json::child(messages[0], "content"@) matches Some(JsonView::Array(content))
            && content.len() == images@.len() + 1 && json::child(content[0], "type"@) == Some(
            JsonView::Text("input_text"@),
        ) && json::child(content[0], "text"@) == Some(JsonView::Text(prompt@)) && (forall|i: int|
            0 <= i < images@.len() ==> (#[trigger] images@[i])@ == content[i + 1]))),
{
    let given = json::items_view(images@);
    request::every_image_is_in_the_request(*api, prompt@, given);
    request::responses_requests_ask_for_an_image(*api, prompt@, given);
    if images@.len() > 0 {
        let messages = json::child(body@, "input"@)->0->Array_0;
        let content = json::child(messages[0], "content"@)->0->Array_0;
        assert forall|i: int| 0 <= i < images@.len() implies (#[trigger] images@[i])@ == content[i
            + 1] by {
            assert(given[i] == content[i + 1]);
        }
    }
}

/// The images of the files that were read give the files back, in order; where a
/// file was not read, the first one is told of.
pub proof fn image_parts_give_files_back(
    paths: &Vec<String>,
    reads: &Vec<Result<Vec<u8>, String>>,
    parts: Result<Vec<Json>, String>,
    i: int,
)
    requires
        request::reads_suffice(paths@.len(), reads@),
        call_ensures(request::responses_image_parts, (paths, reads), parts),
    ensures
        parts matches Ok(list) ==> list@.len() == paths@.len() && reads@.len() == paths@.len() && (0
            <= i < list@.len() ==> reads@[i] is Ok && json::child(list@[i]@, "type"@) == Some(
            JsonView::Text("input_image"@),
        ) && (json::child(list@[i]@, "image_url"@) matches Some(JsonView::Text(url))
            && reply::url_reply(url, None) == reply::ImageReplyView::Image(
            reply::ImageView { bytes: reads@[i]->Ok_0@, caption: None },
        ))),
        (exists|k: int| 0 <= k < reads@.len() && (#[trigger] reads@[k]) is Err) <==> parts is Err,
        parts matches Err(e) ==> exists|k: int|
            0 <= k < reads@.len() && (#[trigger] reads@[k]) is Err && (forall|j: int|
                0 <= j < k ==> (#[trigger] reads@[j]) is Ok) && e@ == "read response image "@
                + paths@[k]@ + ": "@ + reads@[k]->Err_0@,
{
    request::the_first_unread_file_is_found(reads@, 0);
    if parts is Ok && 0 <= i < parts->Ok_0@.len() {
        let part = parts->Ok_0@[i]@;
        let bytes = reads@[i]->Ok_0@;
        assert(request::is_image_of(paths@[i]@, bytes, part));
        let mime = choose|mime: Seq<char>|
            files::is_type_of(paths@[i]@, mime) && part == #[trigger] request::input_image(
                mime,
                codec::base64_encoded(bytes),
            );
        request::image_parts_hold_a_data_url(mime, codec::base64_encoded(bytes));
        assert(request::carries(part, bytes));
    }
}

/// The parts of a request that edits images hold the bytes of the files, in
/// order; where a file was not read, the first one is told of.
pub proof fn edit_parts_hold_the_files(
    paths: &Vec<String>,
    reads: Vec<Result<Vec<u8>, String>>,
    parts: Result<Vec<FilePart>, String>,
)
    requires
        request::reads_suffice(paths@.len(), reads@),
        call_ensures(request::edit_parts, (paths, reads), parts),
    ensures
        parts matches Ok(list) ==> list@.len() == paths@.len() && (forall|i: int|
            0 <= i < list@.len() ==> (#[trigger] list@[i]).bytes@ == reads@[i]->Ok_0@),
        (exists|k: int| 0 <= k < reads@.len() && (#[trigger] reads@[k]) is Err) <==> parts is Err,
        parts matches Err(e) ==> exists|k: int|
            0 <= k < reads@.len() && (#[trigger] reads@[k]) is Err && (forall|j: int|
                0 <= j < k ==> (#[trigger] reads@[j]) is Ok) && e@ == "read reference image "@
                + paths@[k]@ + ": "@ + reads@[k]->Err_0@,
{
    request::the_first_unread_file_is_found(reads@, 0);
}

/// A request that edits images says the same as one that generates them, field
/// for field: the trimmed model, the prompt, the number 1 and the trimmed size.
pub proof fn edits_say_what_generations_say(
    api: &ApiImageSettings,
    prompt: &str,
    body: Json,
    fields: Vec<(String, String)>,
)
    requires
        call_ensures(request::generation_body, (api, prompt), body),
        call_ensures(request::edit_fields, (api, prompt), fields),
    ensures
        body@ is Object && body@->Object_0.len() == 4,
        json::child(body@, "model"@) == Some(JsonView::Text(text::trimmed(api.model@))),
        json::child(body@, "prompt"@) == Some(JsonView::Text(prompt@)),
        json::child(body@, "n"@) == Some(JsonView::Number("1"@)),
        json::child(body@, "size"@) == Some(JsonView::Text(text::trimmed(api.size@))),
        fields@.len() == 4,
        fields@[0].0@ == "model"@ && fields@[0].1@ == text::trimmed(api.model@),
        fields@[1].0@ == "prompt"@ && fields@[1].1@ == prompt@,
        fields@[2].0@ == "n"@ && fields@[2].1@ == "1"@,
        fields@[3].0@ == "size"@ && fields@[3].1@ == text::trimmed(api.size@),
{
    request::generation_requests_hold_the_prompt(*api, prompt@);
    let seen = fields@.map_values(|f: (String, String)| (f.0@, f.1@));
    assert(seen.len() == fields@.len());
    assert(seen[0] == (fields@[0].0@, fields@[0].1@));
    assert(seen[1] == (fields@[1].0@, fields@[1].1@));
    assert(seen[2] == (fields@[2].0@, fields@[2].1@));
    assert(seen[3] == (fields@[3].0@, fields@[3].1@));
}

/// Several files are sent under the name of a list, a single one under that of
/// an image.
pub proof fn several_files_are_sent_as_a_list(count: usize, field: &'static str)
    requires
        call_ensures(request::edit_file_field, (count,), field),
    ensures
        count > 1 ==> field@ == "image[]"@,
        count <= 1 ==> field@ == "image"@,
{
}

/// A part of a request keeps the name, the type and the data that it is given.
pub proof fn file_parts_keep_what_they_are_given(
    name: Option<String>,
    mime: String,
    bytes: Vec<u8>,
    part: FilePart,
)
    requires
        call_ensures(request::file_part, (name, mime, bytes), part),
    ensures
        name matches Some(n) ==> part.file_name@ == n@,
        name is None ==> part.file_name@ == "image.png"@,
        part.mime@ == mime@,
        part.bytes@ == bytes@,
{
    files::nameless_files_are_sent_as_images(Seq::empty());
}

/// Requests go below the base URL: to the generations without images, to the
/// edits with any, and to the responses.
pub proof fn requests_go_below_the_base(
    api: &ApiImageSettings,
    images: usize,
    image_url: String,
    responses_url: String,
)
    requires
        text::trimmed(api.base_url@) == api.base_url@,
        api.base_url@.len() > 0,
        api.base_url@.last() != '/',
        call_ensures(request::image_api_url, (api, images), image_url),
        call_ensures(request::responses_url, (api,), responses_url),
    ensures
        images == 0 ==> image_url@ == api.base_url@ + seq!['/'] + "images/generations"@,
        images > 0 ==> image_url@ == api.base_url@ + seq!['/'] + "images/edits"@,
        responses_url@ == api.base_url@ + seq!['/'] + "responses"@,
{
    reveal_strlit("images/generations");
    reveal_strlit("images/edits");
    reveal_strlit("responses");
    settings::endpoints_join_with_one_slash(api.base_url@, "images/generations"@);
    settings::endpoints_join_with_one_slash(api.base_url@, "images/edits"@);
    settings::endpoints_join_with_one_slash(api.base_url@, "responses"@);
}

/// A request is sent again once at most, after 800 milliseconds and only for a
/// fault of the connection, of time or of the request; any other fault, and
/// every second one, is the end.
pub proof fn requests_are_sent_twice_at_most(
    sending: &mut ResponsesSend,
    fault: &SendFault,
    decision: SendDecision,
)
    requires
        call_ensures(ResponsesSend::failed, (sending, fault), decision),
    ensures
        ({
            let again = !old(sending).retried && (fault.is_connect || fault.is_timeout
                || fault.is_request);
            &&& again ==> decision == SendDecision::RetryAfter(800) && final(sending).retried
            &&& !again ==> decision is Fail && decision->Fail_0@ == "Responses API"@
                + " request failed: "@ + fault.message@ && final(sending).retried == old(
                sending,
            ).retried
        }),
{
}

/// A new request was not sent again yet.
pub proof fn new_requests_were_not_retried(sending: ResponsesSend)
    requires
        call_ensures(ResponsesSend::new, (), sending),
    ensures
        !sending.retried,
{
}

/// What failed is told of with the name of the service and the reason.
pub proof fn failed_requests_name_their_service(
    images: String,
    responses: String,
    refused: String,
    why: &str,
)
    requires
        call_ensures(request::request_failed, (Service::Images, why), images),
        call_ensures(request::request_failed, (Service::Responses, why), responses),
        call_ensures(request::mime_rejected, (why,), refused),
    ensures
        images@ == "API"@ + " request failed: "@ + why@,
        responses@ == "Responses API"@ + " request failed: "@ + why@,
        refused@ == "reference image MIME rejected: "@ + why@,
{
}

/// Blank settings are refused wherever they are used; a message to a board
/// without a session is refused before they are looked at, and a session on an
/// unknown board after.
pub proof fn settings_are_looked_at_in_order(
    api: &ApiImageSettings,
    open: bool,
    known: bool,
    valid: Result<(), String>,
    sent: Result<(), String>,
    started: Result<(), String>,
)
    requires
        call_ensures(settings::validate_api_settings, (api,), valid),
        call_ensures(send::check_send, (open, api), sent),
        call_ensures(start::check_start, (api, known), started),
    ensures
        valid is Ok <==> !text::is_blank(api.base_url@) && !text::is_blank(api.model@),
        text::is_blank(api.base_url@) ==> valid->Err_0@ == "API base URL is required."@,
        !text::is_blank(api.base_url@) && text::is_blank(api.model@) ==> valid->Err_0@
            == "API image model is required."@,
        sent is Ok <==> open && valid is Ok,
        !open ==> sent->Err_0@ == "session not started"@,
        open && valid is Err ==> sent->Err_0@ == valid->Err_0@,
        started is Ok <==> valid is Ok && known,
        valid is Err ==> started->Err_0@ == valid->Err_0@,
        valid is Ok && !known ==> started->Err_0@ == "unknown board"@,
{
    settings::blank_settings_are_refused(*api);
}

/// A message is taken up exactly where it may be sent; then it waits for its
/// images, shows what the timeline shows, and knows its sources and overlays.
pub proof fn messages_are_taken_up_or_refused(
    open: bool,
    api: &ApiImageSettings,
    text: &str,
    sources: Vec<String>,
    overlays: &OverlayMap,
    skills: &Vec<SkillInputRef>,
    taken: Result<SendMessage, String>,
    checked: Result<(), String>,
    shown: String,
    paths: Vec<String>,
)
    requires
        call_ensures(send::send_message, (open, api, text, sources, overlays, skills), taken),
        call_ensures(send::check_send, (open, api), checked),
        call_ensures(skills::display_user_text, (text, skills), shown),
        call_ensures(OverlayMap::paths, (overlays,), paths),
    ensures
        taken is Ok <==> checked is Ok,
        taken is Err ==> taken->Err_0@ == checked->Err_0@,
        taken matches Ok(m) ==> m@.phase is Resolving && m@.shown == shown@ && m@.sources.len()
            == sources@.len() && (forall|i: int|
            0 <= i < sources@.len() ==> #[trigger] m@.sources[i] == sources@[i]@)
            && m@.overlays.len() == paths@.len() && (forall|i: int|
            0 <= i < paths@.len() ==> #[trigger] m@.overlays[i] == paths@[i]@),
{
    assert(board::texts_view(paths@).len() == paths@.len());
}

/// A key is sent where it is not blank, without the white space around it; a
/// proxy is used exactly where it is wanted and has a URL; and the configured
/// model is the only one on offer.
pub proof fn settings_decide_the_client(
    api: &ApiImageSettings,
    key: Option<String>,
    enabled: bool,
    url: Result<String, String>,
    proxy: ProxyChoice,
    models: Vec<ModelInfo>,
)
    requires
        call_ensures(settings::bearer_token, (api,), key),
        call_ensures(settings::proxy_choice, (enabled, url), proxy),
        call_ensures(settings::list_models, (api,), models),
    ensures
        key is None <==> text::is_blank(api.api_key@),
        key matches Some(k) ==> k@ == text::trimmed(api.api_key@),
        !enabled <==> proxy is Off,
        enabled && url is Ok ==> proxy is Through && proxy->Through_0@ == url->Ok_0@,
        enabled && url is Err ==> proxy is Unusable && proxy->Unusable_0@ == url->Err_0@,
        models@.len() == 1 && models@[0].id@ == api.model@ && models@[0].display_name@
            == api.model@,
        models@[0].default_reasoning_effort is Some
            && models@[0].default_reasoning_effort->0@ == "medium"@,
        models@[0].supported_efforts@.len() == 1 && models@[0].supported_efforts@[0]@
            == "medium"@,
        models@[0].service_tiers@.len() == 0 && models@[0].default_service_tier is None,
{
    settings::keys_are_sent_unless_blank(*api);
}

/// References need a board. A source leads to the first placement with its id
/// and on to the first asset that the placement names; a message with that one
/// source refers to the file of the asset, with the overlay of the source.
pub proof fn references_are_files_of_the_board<A, P>(
    doc: Option<&BoardDoc<A, P>>,
    sources: &Vec<String>,
    overlays: &OverlayMap,
    refs: Result<Vec<ResolvedRef>, String>,
    pair: Option<(usize, usize)>,
    key: &str,
    overlay: Option<String>,
)
    requires
        call_ensures(board::resolve_refs::<A, P>, (doc, sources, overlays), refs),
        doc is Some ==> call_ensures(board::source_pair::<A, P>, (doc->0, sources), pair),
        sources@.len() > 0 ==> key@ == sources@[0]@,
        call_ensures(OverlayMap::get, (overlays, key), overlay),
    ensures
        doc is None ==> refs is Err && refs->Err_0@ == "unknown board"@,
        doc is Some ==> refs is Ok,
        doc is Some && sources@.len() == 0 ==> refs->Ok_0@.len() == 0 && pair is None,
        doc is Some && sources@.len() > 0 && pair is Some ==> ({
            let (p, a) = pair->0;
            let d = *doc->0;
            &&& p < d.placements@.len() && d.placements@[p as int].id@ == sources@[0]@
            &&& a < d.assets@.len() && d.assets@[a as int].id@ == d.placements@[p as int].asset_id@
            &&& forall|k: int| 0 <= k < p ==> (#[trigger] d.placements@[k]).id@ != sources@[0]@
            &&& forall|k: int|
                0 <= k < a ==> (#[trigger] d.assets@[k]).id@ != d.placements@[p as int].asset_id@
        }),
        doc is Some && sources@.len() == 1 && pair is None ==> refs->Ok_0@.len() == 0,
        doc is Some && sources@.len() == 1 ==> (pair matches Some((_, a)) ==> refs->Ok_0@.len() == 1
            && refs->Ok_0@[0].clean_rel@ == doc->0.assets@[a as int].path@
            && text::opt_view(refs->Ok_0@[0].overlay_rel) == text::opt_view(overlay)),
{
    if let Some(d) = doc {
        assert(board::refs_view(refs->Ok_0@).len() == refs->Ok_0@.len());
        if sources@.len() > 0 {
            board::placements_lead_to_their_assets(*d, sources@[0]@);
            if sources@.len() == 1 {
                assert(sources@ =~= seq![sources@[0]]);
                board::references_follow_the_sources(
                    *d,
                    overlays@,
                    Seq::empty(),
                    Seq::empty(),
                    sources@[0],
                );
                let found = board::refs_view(refs->Ok_0@);
                if pair is Some {
                    assert(found.len() == 1);
                    assert(found[0] == refs->Ok_0@[0]@);
                }
            }
        } else {
            assert(sources@ =~= Seq::empty());
        }
    }
}

/// More sources add their images behind those of the others.
pub proof fn more_sources_add_references<A, P>(
    doc: &BoardDoc<A, P>,
    sources: &Vec<String>,
    more: &Vec<String>,
    all: &Vec<String>,
    overlays: &OverlayMap,
    refs: Result<Vec<ResolvedRef>, String>,
    added: Result<Vec<ResolvedRef>, String>,
    together: Result<Vec<ResolvedRef>, String>,
)
    requires
        all@ == sources@ + more@,
        call_ensures(board::resolve_refs::<A, P>, (Some(doc), sources, overlays), refs),
        call_ensures(board::resolve_refs::<A, P>, (Some(doc), more, overlays), added),
        call_ensures(board::resolve_refs::<A, P>, (Some(doc), all, overlays), together),
    ensures
        together->Ok_0@.len() == refs->Ok_0@.len() + added->Ok_0@.len(),
        forall|i: int|
            0 <= i < together->Ok_0@.len() ==> (#[trigger] together->Ok_0@[i])@ == (if i
                < refs->Ok_0@.len() {
                refs->Ok_0@[i]@
            } else {
                added->Ok_0@[i - refs->Ok_0@.len()]@
            }),
{
    board::references_follow_the_sources(*doc, overlays@, sources@, more@, all@[0]);
    let a = board::refs_view(refs->Ok_0@);
    let b = board::refs_view(added->Ok_0@);
    let c = board::refs_view(together->Ok_0@);
    assert(c == a + b);
    assert(a.len() == refs->Ok_0@.len() && b.len() == added->Ok_0@.len());
    assert forall|i: int| 0 <= i < together->Ok_0@.len() implies (#[trigger] together->Ok_0@[i])@
        == (if i < refs->Ok_0@.len() {
        refs->Ok_0@[i]@
    } else {
        added->Ok_0@[i - refs->Ok_0@.len()]@
    }) by {
        assert(c[i] == together->Ok_0@[i]@);
        if i < a.len() {
            assert(a[i] == refs->Ok_0@[i]@);
        } else {
            assert(b[i - a.len()] == added->Ok_0@[i - a.len()]@);
        }
    }
}

/// A request sends each image and, behind it, its overlay.
pub proof fn images_are_sent_with_their_overlays(refs: &Vec<ResolvedRef>, paths: Vec<String>)
    requires
        call_ensures(board::image_input_paths, (refs,), paths),
    ensures
        refs@.len() == 0 ==> paths@.len() == 0,
        refs@.len() > 0 ==> paths@.len() >= refs@.len(),
        refs@.len() == 1 && refs@[0].overlay_rel is None ==> paths@.len() == 1 && paths@[0]@
            == refs@[0].clean_rel@,
        refs@.len() == 1 && refs@[0].overlay_rel is Some ==> paths@.len() == 2 && paths@[0]@
            == refs@[0].clean_rel@ && paths@[1]@ == refs@[0].overlay_rel->0@,
        forall|i: int|
            0 <= i < refs@.len() ==> exists|k: int|
                0 <= k < paths@.len() && (#[trigger] paths@[k])@ == (#[trigger] refs@[i]).clean_rel@,
{
    let all = board::refs_view(refs@);
    let sent = board::texts_view(paths@);
    board::every_reference_is_sent(all);
    assert(sent.len() == paths@.len());
    if refs@.len() == 1 {
        assert(all =~= seq![refs@[0]@]);
        board::files_follow_the_references(Seq::empty(), Seq::empty(), refs@[0]@);
        assert(sent[0] == paths@[0]@);
        if refs@[0].overlay_rel is Some {
            assert(sent[1] == paths@[1]@);
        }
    }
    assert forall|i: int| 0 <= i < refs@.len() implies exists|k: int|
        0 <= k < paths@.len() && (#[trigger] paths@[k])@ == (#[trigger] refs@[i]).clean_rel@ by {
        assert(sent.contains(all[i].clean_rel));
        let k = choose|k: int| 0 <= k < sent.len() && sent[k] == all[i].clean_rel;
        assert(paths@[k]@ == refs@[i].clean_rel@);
    }
}

/// A generated image enters the board: its placement comes last, and its asset
/// is there, once. Nothing that was there is lost or moved.
pub proof fn generated_images_enter_the_board<A, P>(
    doc: &mut BoardDoc<A, P>,
    asset: Asset<A>,
    placement: Placement<P>,
)
    requires
        call_ensures(board::place_generated::<A, P>, (doc, asset, placement), ()),
    ensures
        final(doc).placements@ == old(doc).placements@.push(placement),
        old(doc).assets@.is_prefix_of(final(doc).assets@),
        exists|i: int|
            0 <= i < final(doc).assets@.len() && (#[trigger] final(doc).assets@[i]).id@
                == asset.id@,
        (exists|i: int|
            0 <= i < old(doc).assets@.len() && (#[trigger] old(doc).assets@[i]).id@ == asset.id@)
            ==> final(doc).assets@ == old(doc).assets@,
        !(exists|i: int|
            0 <= i < old(doc).assets@.len() && (#[trigger] old(doc).assets@[i]).id@ == asset.id@)
            ==> final(doc).assets@ == old(doc).assets@.push(asset),
{
    let ids = board::asset_ids(old(doc).assets@);
    if ids.contains(asset.id@) {
        let i = choose|i: int| 0 <= i < ids.len() && ids[i] == asset.id@;
        assert(old(doc).assets@[i].id@ == asset.id@);
        assert(final(doc).assets@[i].id@ == asset.id@);
    } else {
        let n = old(doc).assets@.len() as int;
        assert(final(doc).assets@[n] == asset);
        if exists|i: int|
            0 <= i < old(doc).assets@.len() && (#[trigger] old(doc).assets@[i]).id@ == asset.id@ {
            let i = choose|i: int|
                0 <= i < old(doc).assets@.len() && (#[trigger] old(doc).assets@[i]).id@
                    == asset.id@;
            assert(ids[i] == asset.id@);
        }
    }
}

/// An image is placed where its board is open, it could be written and the board
/// could be saved; each fault is told of by its own words.
pub proof fn placing_faults_are_told_apart<A, P>(
    open: bool,
    bytes: &[u8],
    ext: Result<&'static str, String>,
    written: Result<Asset<A>, String>,
    asset: Result<Asset<A>, String>,
    given: Asset<A>,
    saved: Option<Result<Placement<P>, String>>,
    placed: Result<(Asset<A>, Placement<P>), String>,
)
    requires
        call_ensures(board::place_image, (open, bytes), ext),
        call_ensures(board::image_written::<A>, (written,), asset),
        call_ensures(board::board_saved::<A, P>, (given, saved), placed),
    ensures
        ext is Ok <==> open,
        !open ==> ext->Err_0@ == "unknown board"@,
        asset is Ok <==> written is Ok,
        written is Ok ==> asset->Ok_0 == written->Ok_0,
        written is Err ==> asset->Err_0@ == "write generated image: "@ + written->Err_0@,
        placed is Ok <==> saved is Some && saved->0 is Ok,
        placed matches Ok((a, p)) ==> a == given && p == saved->0->Ok_0,
        saved is None ==> placed->Err_0@ == "unknown board"@,
        saved is Some && saved->0 is Err ==> placed->Err_0@ == "save board after generation: "@
            + saved->0->Err_0@,
{
}

/// The extension of an image goes by its first bytes.
pub proof fn extensions_go_by_the_first_bytes(bytes: &[u8], ext: &'static str, rest: Seq<u8>)
    requires
        call_ensures(codec::image_ext, (bytes,), ext),
    ensures
        bytes@ == seq![0xffu8, 0xd8, 0xff] + rest ==> ext@ == "jpg"@,
        bytes@ == seq![0x47u8, 0x49, 0x46, 0x38, 0x39, 0x61] + rest ==> ext@ == "gif"@,
        bytes@ == seq![0x42u8, 0x4d] + rest ==> ext@ == "bmp"@,
        bytes@ == seq![0x89u8, 0x50, 0x4e, 0x47, 0x0d, 0x0a, 0x1a, 0x0a] + rest ==> ext@ == "png"@,
{
    codec::signatures_decide_the_extension(rest, seq![0u8, 0, 0, 0]);
}

/// What a session keeps of a turn names whose it is and what it is about: a
/// message with its text and sources, an image with its placement and caption,
/// or an error.
pub proof fn records_say_what_happened(
    session_id: &str,
    id: &str,
    text: &str,
    refs: &Vec<String>,
    placement_id: &str,
    caption: &Option<String>,
    own: Option<Json>,
    image: Option<Json>,
    error: Option<Json>,
)
    requires
        call_ensures(records::persist_user_record, (session_id, id, text, refs), own),
        call_ensures(
            records::persist_assistant_image,
            (session_id, id, placement_id, caption),
            image,
        ),
        call_ensures(records::persist_assistant_error, (session_id, id, text), error),
    ensures
        own is Some <==> session_id@.len() > 0,
        image is Some <==> session_id@.len() > 0,
        error is Some <==> session_id@.len() > 0,
        own matches Some(r) ==> {
            &&& json::child(r@, "id"@) == Some(JsonView::Text(id@))
            &&& json::child(r@, "role"@) == Some(JsonView::Text("user"@))
            &&& json::child(r@, "text"@) == Some(JsonView::Text(text@))
            &&& json::child(r@, "refs"@) matches Some(JsonView::Array(listed)) && listed.len()
                == refs@.len() && (forall|i: int|
                0 <= i < refs@.len() ==> #[trigger] listed[i] == JsonView::Text(refs@[i]@))
        },
        image matches Some(r) ==> {
            &&& json::child(r@, "id"@) == Some(JsonView::Text(id@))
            &&& json::child(r@, "role"@) == Some(JsonView::Text("assistant"@))
            &&& json::child(r@, "status"@) == Some(JsonView::Text("done"@))
            &&& json::child(r@, "blocks"@) matches Some(JsonView::Array(blocks)) && blocks.len()
                == 1 && json::child(blocks[0], "type"@) == Some(JsonView::Text("image"@))
                && json::child(blocks[0], "placementId"@) == Some(JsonView::Text(placement_id@))
                && json::child(blocks[0], "caption"@) == Some(
                match *caption {
                    Some(t) => JsonView::Text(t@),
                    None => JsonView::Null,
                },
            ) && json::child(blocks[0], "status"@) == Some(JsonView::Text("done"@))
        },
        error matches Some(r) ==> {
            &&& json::child(r@, "id"@) == Some(JsonView::Text(id@))
            &&& json::child(r@, "role"@) == Some(JsonView::Text("assistant"@))
            &&& json::child(r@, "blocks"@) == Some(JsonView::Array(Seq::empty()))
            &&& json::child(r@, "status"@) == Some(JsonView::Text("error"@))
            &&& json::child(r@, "error"@) == Some(JsonView::Text(text@))
        },
{
    records::user_records_hold_the_message(id@, text@, board::texts_view(refs@));
    records::image_records_lead_to_the_placement(id@, placement_id@, text::opt_view(*caption));
    records::error_records_say_what_went_wrong(id@, text@);
}

/// Once an image is placed, the record of its message names the placement and the
/// caption of the image, the listeners are told of the image and of the end of
/// the turn, and the turn is ended. A failure is recorded and told of instead.
pub proof fn placed_images_end_their_turn<A, P, C>(
    message: &mut SendMessage,
    session: &ApiSession,
    placed: Result<(Asset<A>, Placement<P>), String>,
    id: &str,
    step: SendStep<A, P, C>,
)
    requires
        old(message)@.phase is Placing,
        call_ensures(SendMessage::placed::<A, P, C>, (message, session, placed, id), step),
    ensures
        final(message)@.phase is Over,
        step.action is Return && step.action->Return_0 is Ok,
        ({
            let effects = step.effects@;
            let n = effects.len();
            let turn = old(message)@.phase->Placing_turn;
            let caption = old(message)@.phase->Placing_caption;
            &&& n == (if session@.active.len() > 0 {
                4nat
            } else {
                3
            })
            &&& effects[n - 1]@ == EffectView::<A, P, C>::FinishTurn(turn)
            &&& placed matches Ok((asset, placement)) ==> {
                &&& session@.active.len() > 0 ==> (effects[0]@ matches EffectView::Append {
                    session_id,
                    message: record,
                } && session_id == session@.active && (json::child(record, "blocks"@) matches Some(
                    JsonView::Array(blocks),
                ) && blocks.len() == 1 && json::child(blocks[0], "placementId"@) == Some(
                    JsonView::Text(placement.id@),
                ) && json::child(blocks[0], "caption"@) == Some(
                    match caption {
                        Some(t) => JsonView::Text(t),
                        None => JsonView::Null,
                    },
                )))
                &&& effects[n - 3]@ == (EffectView::<A, P, C>::Emit {
                    board_id: session@.board_id,
                    event: EventView::ImageGenerated {
                        asset,
                        placement,
                        caption,
                        placeholder_id: Some(old(message)@.phase->Placing_placeholder),
                    },
                })
                &&& effects[n - 2]@ == (EffectView::<A, P, C>::Emit {
                    board_id: session@.board_id,
                    event: EventView::TurnComplete { status: "completed"@, error: None },
                })
            }
            &&& placed matches Err(e) ==> {
                &&& session@.active.len() > 0 ==> (effects[0]@ matches EffectView::Append {
                    session_id,
                    message: record,
                } && session_id == session@.active && json::child(record, "error"@) == Some(
                    JsonView::Text(e@),
                ))
                &&& effects[n - 3]@ == (EffectView::<A, P, C>::Emit {
                    board_id: session@.board_id,
                    event: EventView::Log { level: "error"@, message: e@ },
                })
                &&& effects[n - 2]@ == (EffectView::<A, P, C>::Emit {
                    board_id: session@.board_id,
                    event: EventView::TurnComplete { status: "error"@, error: Some(e@) },
                })
            }
        }),
{
    let seen = turn::effects_view(step.effects@);
    let m = old(message)@;
    assert(seen.len() == step.effects@.len());
    assert forall|k: int| 0 <= k < seen.len() implies #[trigger] seen[k] == step.effects@[k]@ by {}
    match placed {
        Ok((asset, placement)) => {
            turn::images_are_recorded_told_and_ended::<A, P, C>(
                session@,
                m.phase->Placing_turn,
                asset,
                placement,
                m.phase->Placing_caption,
                m.phase->Placing_placeholder,
                id@,
            );
        },
        Err(e) => {
            turn::failures_are_recorded_told_and_ended::<A, P, C>(
                session@,
                m.phase->Placing_turn,
                e@,
                id@,
            );
        },
    }
    return_is_ok(step.action);
    assert(seen[seen.len() - 1] == step.effects@[step.effects@.len() - 1]@);
    assert(seen[seen.len() - 2] == step.effects@[step.effects@.len() - 2]@);
    assert(seen[seen.len() - 3] == step.effects@[step.effects@.len() - 3]@);
    assert(seen[0] == step.effects@[0]@);
}

proof fn return_is_ok(action: SendAction)
    ensures
        action@ == send::ActionView::Return(None) ==> action is Return && action->Return_0 is Ok,
{
}

/// The outcome of a generation has the overlays removed. It counts only while the
/// turn of the message is in flight: then an image is to be placed, with its
/// caption remembered, and a failure is told of and ends the turn.
pub proof fn generations_count_in_their_turn<A, P, C>(
    message: &mut SendMessage,
    session: &ApiSession,
    outcome: Result<GeneratedImage, String>,
    id: &str,
    step: SendStep<A, P, C>,
)
    requires
        old(message)@.phase is Generating,
        call_ensures(SendMessage::generated::<A, P, C>, (message, session, outcome, id), step),
    ensures
        ({
            let effects = step.effects@;
            let turn = old(message)@.phase->Generating_turn;
            let current = session@.in_flight == Some(turn);
            &&& effects.len() > 0 && effects[0]@ == EffectView::<A, P, C>::RemoveOverlays(
                old(message)@.overlays,
            )
            &&& !current ==> effects.len() == 1 && step.action is Return && step.action->Return_0
                is Ok && final(message)@.phase is Over
            &&& current && outcome is Ok ==> effects.len() == 1 && step.action is Place
                && step.action->Place_0@ == outcome->Ok_0@ && final(message)@.phase is Placing
                && final(message)@.phase->Placing_turn == turn
                && final(message)@.phase->Placing_placeholder
                == old(message)@.phase->Generating_placeholder
                && final(message)@.phase->Placing_caption == outcome->Ok_0@.caption
            &&& current && outcome is Err ==> step.action is Return && step.action->Return_0 is Ok
                && final(message)@.phase is Over && effects.len() == (if session@.active.len() > 0 {
                5nat
            } else {
                4
            }) && effects[effects.len() - 1]@ == EffectView::<A, P, C>::FinishTurn(turn)
                && effects[effects.len() - 2]@ == (EffectView::<A, P, C>::Emit {
                board_id: session@.board_id,
                event: EventView::TurnComplete {
                    status: "error"@,
                    error: Some(outcome->Err_0@),
                },
            })
        }),
{
    let seen = turn::effects_view(step.effects@);
    assert(seen.len() == step.effects@.len());
    return_is_ok(step.action);
    if outcome is Err {
        turn::failures_are_recorded_told_and_ended::<A, P, C>(
            session@,
            old(message)@.phase->Generating_turn,
            outcome->Err_0@,
            id@,
        );
    }
    assert(seen[0] == step.effects@[0]@);
    assert(seen[seen.len() - 1] == step.effects@[step.effects@.len() - 1]@);
    assert(seen.len() > 1 ==> seen[seen.len() - 2] == step.effects@[step.effects@.len() - 2]@);
}

/// A message begins the next turn where its images were looked up and no other
/// turn is in flight; then its record is kept. Otherwise it is refused, its
/// overlays are removed and the session is left alone.
pub proof fn resolved_messages_begin_a_turn<A, P, C>(
    message: &mut SendMessage,
    session: &mut ApiSession,
    refs: Result<Vec<ResolvedRef>, String>,
    id: &str,
    step: SendStep<A, P, C>,
)
    requires
        old(message)@.phase is Resolving,
        call_ensures(SendMessage::resolved::<A, P, C>, (message, session, refs, id), step),
    ensures
        ({
            let taken = refs is Ok && old(session)@.in_flight is None;
            &&& taken ==> {
                &&& final(session)@.in_flight == Some(old(session)@.begun + 1)
                &&& final(session)@.begun == old(session)@.begun + 1
                &&& final(session)@.board_id == old(session)@.board_id
                &&& final(session)@.active == old(session)@.active
                &&& final(message)@.phase is Announcing
                &&& final(message)@.phase->Announcing_turn == old(session)@.begun + 1
                &&& step.action is Announce
                &&& board::refs_view(step.action->Announce_0@) == board::refs_view(refs->Ok_0@)
                &&& step.effects@.len() == (if old(session)@.active.len() > 0 {
                    1nat
                } else {
                    0
                })
                &&& old(session)@.active.len() > 0 ==> (step.effects@[0]@ matches EffectView::Append {
                    session_id,
                    message: record,
                } && session_id == old(session)@.active && json::child(record, "text"@) == Some(
                    JsonView::Text(old(message)@.shown),
                ) && json::child(record, "role"@) == Some(JsonView::Text("user"@)))
            }
            &&& !taken ==> {
                &&& final(session)@ == old(session)@
                &&& final(message)@.phase is Over
                &&& step.effects@.len() == 1
                &&& step.effects@[0]@ == EffectView::<A, P, C>::RemoveOverlays(
                    old(message)@.overlays,
                )
                &&& step.action is Return && step.action->Return_0 is Err
                &&& step.action->Return_0->Err_0@ == (match refs {
                    Err(e) => e@,
                    Ok(_) => {
                        "API runtime is already generating. Stop it or wait for it to finish."@
                    },
                })
            }
        }),
{
    let seen = turn::effects_view(step.effects@);
    assert(seen.len() == step.effects@.len());
    records::user_records_hold_the_message(id@, old(message)@.shown, old(message)@.sources);
    if seen.len() > 0 {
        assert(seen[0] == step.effects@[0]@);
    }
    match step.action {
        SendAction::Return(r) => {
            assert(step.action@ == send::ActionView::Return(
                match r {
                    Ok(_) => None,
                    Err(e) => Some(e@),
                },
            ));
        },
        _ => {},
    }
}

/// A message tells of the place of its placeholder where there is one, and goes
/// on to its prompt; it goes on to its image with the prompt as it is, and ends
/// with the error where there is none.
pub proof fn messages_go_on_to_their_prompt<A, P, C>(
    message: &mut SendMessage,
    session: &ApiSession,
    placeholder: String,
    rect: Option<Rect<C>>,
    step: SendStep<A, P, C>,
    later: &mut SendMessage,
    prompt: Result<String, String>,
    next: SendStep<A, P, C>,
)
    requires
        old(message)@.phase is Announcing,
        call_ensures(
            SendMessage::announced::<A, P, C>,
            (message, session, placeholder, rect),
            step,
        ),
        old(later)@.phase is Prompting,
        call_ensures(SendMessage::prompted::<A, P, C>, (later, session, prompt), next),
    ensures
        step.action is BuildPrompt,
        final(message)@.phase is Prompting,
        final(message)@.phase->Prompting_turn == old(message)@.phase->Announcing_turn,
        final(message)@.phase->Prompting_placeholder == placeholder@,
        rect is None ==> step.effects@.len() == 0,
        rect matches Some(place) ==> step.effects@.len() == 1 && step.effects@[0]@ == (
        EffectView::<A, P, C>::Emit {
            board_id: session@.board_id,
            event: EventView::GenerationStarted {
                placeholder_id: placeholder@,
                x: place.x,
                y: place.y,
                w: place.w,
                h: place.h,
            },
        }),
        next.effects@.len() == 0,
        prompt matches Ok(p) ==> next.action is Generate && next.action->Generate_0@ == p@
            && final(later)@.phase is Generating && final(later)@.phase->Generating_turn
            == old(later)@.phase->Prompting_turn && final(later)@.phase->Generating_placeholder
            == old(later)@.phase->Prompting_placeholder,
        prompt matches Err(e) ==> next.action is Return && next.action->Return_0 is Err
            && next.action->Return_0->Err_0@ == e@ && final(later)@.phase is Over,
{
    let seen = turn::effects_view(step.effects@);
    assert(seen.len() == step.effects@.len());
    assert(turn::effects_view(next.effects@).len() == next.effects@.len());
    if rect is Some {
        assert(seen[0] == step.effects@[0]@);
    }
    match next.action {
        SendAction::Return(r) => {
            assert(next.action@ == send::ActionView::Return(
                match r {
                    Ok(_) => None,
                    Err(e) => Some(e@),
                },
            ));
        },
        _ => {},
    }
}

/// An interruption ends whatever turn is in flight and tells of it; where none
/// is, nothing happens. A session that is stopped is in no turn.
pub proof fn interruptions_end_the_turn<A, P, C>(
    session: &mut ApiSession,
    id: &str,
    effects: Vec<Effect<A, P, C>>,
    stopped: &mut ApiSession,
)
    requires
        call_ensures(turn::interrupt_turn::<A, P, C>, (session, id), effects),
        call_ensures(turn::stop_session, (stopped,), ()),
    ensures
        final(session)@ == (session::SessionView { in_flight: None, ..old(session)@ }),
        final(stopped)@ == (session::SessionView { in_flight: None, ..old(stopped)@ }),
        old(session)@.in_flight is None ==> effects@.len() == 0,
        old(session)@.in_flight is Some ==> effects@.len() > 0 && effects@.last()@ == (
        EffectView::<A, P, C>::Emit {
            board_id: old(session)@.board_id,
            event: EventView::TurnComplete {
                status: "aborted"@,
                error: Some("API image request was cancelled."@),
            },
        }),
{
    let seen = turn::effects_view(effects@);
    assert(seen.len() == effects@.len());
    turn::interruptions_are_recorded_and_told::<A, P, C>(old(session)@, id@);
    if seen.len() > 0 {
        assert(seen[seen.len() - 1] == effects@[effects@.len() - 1]@);
    }
}

/// A turn that is begun is the current one, and no other can be begun until it is
/// finished or cancelled; finishing another turn changes nothing.
pub proof fn turns_follow_each_other(
    session: &mut ApiSession,
    begun: Result<u64, String>,
    finishing: &mut ApiSession,
    turn_id: u64,
    current: bool,
    cancelling: &mut ApiSession,
    cancelled: Option<u64>,
)
    requires
        call_ensures(ApiSession::begin_turn, (session,), begun),
        call_ensures(ApiSession::finish_turn, (finishing, turn_id), ()),
        call_ensures(ApiSession::is_current_turn, (&*old(finishing), turn_id), current),
        call_ensures(ApiSession::cancel_turn, (cancelling,), cancelled),
    ensures
        begun is Ok <==> old(session)@.in_flight is None,
        begun matches Ok(t) ==> t == old(session)@.begun + 1 && final(session)@ == (
        session::SessionView { begun: t as int, in_flight: Some(t as int), ..old(session)@ }),
        begun matches Err(e) ==> final(session)@ == old(session)@ && e@
            == "API runtime is already generating. Stop it or wait for it to finish."@,
        current <==> old(finishing)@.in_flight == Some(turn_id as int),
        current ==> final(finishing)@ == (session::SessionView {
            in_flight: None,
            ..old(finishing)@
        }),
        !current ==> final(finishing)@ == old(finishing)@,
        final(cancelling)@ == (session::SessionView { in_flight: None, ..old(cancelling)@ }),
        cancelled is Some <==> old(cancelling)@.in_flight is Some,
        cancelled matches Some(t) ==> old(cancelling)@.in_flight == Some(t as int),
{
}

/// The timeline changes between turns only, and then to the one that is asked
/// for.
pub proof fn timelines_change_between_turns(
    session: &mut ApiSession,
    id: String,
    switched: Result<(), String>,
    other: &ApiSession,
    fresh: Result<(), String>,
    set: &mut ApiSession,
)
    requires
        call_ensures(session::switch_session, (session, id), switched),
        call_ensures(session::new_session, (other,), fresh),
        call_ensures(ApiSession::set_active_session, (set, id), ()),
    ensures
        switched is Ok <==> old(session)@.in_flight is None,
        switched is Ok ==> final(session)@ == (session::SessionView {
            active: id@,
            ..old(session)@
        }),
        switched is Err ==> final(session)@ == old(session)@ && switched->Err_0@
            == "Cannot switch sessions while the API runtime is working."@,
        fresh is Ok <==> other@.in_flight is None,
        fresh is Err ==> fresh->Err_0@
            == "Cannot create a new session while the API runtime is working."@,
        final(set)@ == (session::SessionView { active: id@, ..old(set)@ }),
{
}

/// A session that is opened writes to its timeline, is in no turn, and is told of;
/// starting it again goes on with the timeline, if it has one.
pub proof fn opened_sessions_go_on_when_started<A, P, C>(
    board_id: String,
    timeline: Option<String>,
    model: &str,
    opened: OpenedSession<A, P, C>,
    again: StartStep,
    none: StartStep,
)
    requires
        call_ensures(start::open_session::<A, P, C>, (board_id, timeline, model), opened),
        call_ensures(start::start_session, (Some(&opened.session),), again),
        call_ensures(start::start_session, (None,), none),
    ensures
        opened.session@.board_id == board_id@,
        opened.session@.in_flight is None && opened.session@.begun == 0,
        timeline matches Some(id) ==> opened.active@ == id@ && opened.session@.active == id@,
        timeline is None ==> opened.active@.len() == 0 && opened.session@.active.len() == 0,
        opened.event.board_id@ == board_id@,
        opened.event.event@ == (EventView::<A, P, C>::SessionInit {
            thread_id: opened.active@,
            model: model@,
        }),
        timeline is Some && timeline->0@.len() > 0 ==> again is Resume && again->Resume_0@
            == timeline->0@,
        timeline is None || timeline->0@.len() == 0 ==> again is Open,
        none is Open,
{
}

/// The record of a board names this runtime once a session is started and the
/// timeline that is in use; what else it holds is kept.
pub proof fn boards_record_their_timeline<M>(
    meta: &mut BoardMeta<M>,
    started: &mut BoardMeta<M>,
    active: &str,
)
    requires
        call_ensures(start::record_timeline::<M>, (meta, active), ()),
        call_ensures(start::record_start::<M>, (started, active), ()),
    ensures
        final(meta).active_session_id is Some && final(meta).active_session_id->0@ == active@,
        final(meta).runtime == old(meta).runtime && final(meta).thread_id == old(meta).thread_id
            && final(meta).rest == old(meta).rest,
        final(started).active_session_id is Some && final(started).active_session_id->0@
            == active@,
        final(started).runtime is Some && final(started).runtime->0@ == "api"@,
        final(started).thread_id == old(started).thread_id && final(started).rest == old(
            started,
        ).rest,
{
}

/// A session that is registered is found under its board, the others as before;
/// one that is taken out is not found any more.
pub proof fn registered_sessions_are_found<T>(
    registry: &mut ApiRegistry<T>,
    board_id: String,
    session: T,
    key: &str,
    found: Option<&T>,
    before: Option<&T>,
    opened: Result<&T, String>,
)
    requires
        call_ensures(ApiRegistry::<T>::insert, (registry, board_id, session), ()),
        call_ensures(ApiRegistry::<T>::get, (&*final(registry), key), found),
        call_ensures(ApiRegistry::<T>::get, (&*old(registry), key), before),
        call_ensures(ApiRegistry::<T>::open_session, (&*final(registry), key), opened),
    ensures
        key@ == board_id@ ==> found == Some(&session),
        key@ != board_id@ ==> found == before,
        opened is Ok <==> found is Some,
        opened matches Ok(s) ==> Some(s) == found,
        opened matches Err(e) ==> e@ == "session not started"@,
{
}

/// A session that is taken out of the registry is the one that was found there,
/// and is not found any more; the others are found as before.
pub proof fn removed_sessions_are_gone<T>(
    registry: &mut ApiRegistry<T>,
    board_id: &str,
    removed: Option<T>,
    key: &str,
    found: Option<&T>,
    before: Option<&T>,
)
    requires
        call_ensures(ApiRegistry::<T>::remove, (registry, board_id), removed),
        call_ensures(ApiRegistry::<T>::get, (&*final(registry), key), found),
        call_ensures(ApiRegistry::<T>::get, (&*old(registry), key), before),
    ensures
        key@ == board_id@ ==> found is None && (removed is Some <==> before is Some) && (
        removed matches Some(s) ==> before == Some(&s)),
        key@ != board_id@ ==> found == before,
{
}

/// A skill context reads its skills one after the other, from the first on; a
/// skill that cannot be read ends it with a message, and one that is read adds
/// its name, its path and its text.
pub proof fn contexts_read_their_skills(
    total: usize,
    fresh: SkillContext,
    first: Option<usize>,
    context: &mut SkillContext,
    skill: &SkillInputRef,
    read: &Result<String, String>,
    outcome: Result<String, String>,
)
    requires
        call_ensures(SkillContext::new, (total,), fresh),
        call_ensures(SkillContext::pending, (&fresh,), first),
        skills::context_pending(old(context)@),
        skills::context_takes(old(context)@, *skill, skills::read_view(*read)),
        call_ensures(SkillContext::supply, (context, skill, read), ()),
        call_ensures(SkillContext::finish, (*final(context),), outcome),
    ensures
        total == 0 ==> first is None && fresh@.text.len() == 0,
        total > 0 ==> first == Some(0usize),
        read matches Err(why) ==> outcome is Err && outcome->Err_0@ == "read skill "@ + skill.name@
            + " at "@ + skill.path@ + ": "@ + why@ && !skills::context_pending(final(context)@),
        read matches Ok(body) ==> outcome is Ok && ({
            let grown = old(context)@.text + ("\n<skill name=\""@ + skill.name@ + "\" path=\""@
                + skill.path@ + "\">\n"@ + text::trimmed(skills::compacted(body@))
                + "\n</skill>\n"@);
            &&& skills::bytes(grown) < 12000 ==> outcome->Ok_0@ == grown
            &&& skills::bytes(grown) >= 12000 ==> "\n...[skill context truncated]\n"@.is_suffix_of(
                outcome->Ok_0@,
            ) && !skills::context_pending(final(context)@)
        }),
{
    skills::contexts_open_with_the_first_skill(total as int);
    skills::contexts_take_one_skill_after_the_other(
        old(context)@,
        *skill,
        skills::read_view(*read),
    );
    if let Ok(body) = read {
        let grown = old(context)@.text + ("\n<skill name=\""@ + skill.name@ + "\" path=\""@
            + skill.path@ + "\">\n"@ + text::trimmed(skills::compacted(body@))
            + "\n</skill>\n"@);
        if skills::bytes(grown) >= 12000 {
            let marker = "\n...[skill context truncated]\n"@;
            let head = choose|head: Seq<char>|
                skills::bytes(head) == 12000 && head.is_prefix_of(grown) && final(context)@.text
                    == #[trigger] (head + marker);
            assert((head + marker).skip(head.len() as int) =~= marker);
        }
    }
}

/// What is told of an error is the message of its `error` member, or else its own
/// message, or else the reply itself, up to 600 characters.
pub proof fn errors_are_told_in_600_characters(
    body: &str,
    told: String,
    j: JsonView,
    error: JsonView,
    message: Seq<char>,
)
    requires
        call_ensures(reply::api_error_message, (body,), told),
        message.len() <= 600,
    ensures
        told@.len() <= 600,
        json::parsed_json(body@) is Err ==> told@.is_prefix_of(body@) && (told@ == body@
            || told@.len() == 600),
        json::parsed_json(body@) == Ok::<JsonView, Seq<char>>(j) && json::child(j, "error"@)
            == Some(error) && json::child(error, "message"@) == Some(JsonView::Text(message))
            ==> told@ == message,
        json::parsed_json(body@) == Ok::<JsonView, Seq<char>>(j) && json::child(j, "error"@)
            is None && json::child(j, "message"@) == Some(JsonView::Text(message)) ==> told@
            == message,
        json::parsed_json(body@) == Ok::<JsonView, Seq<char>>(j) && json::child(j, "error"@)
            is None && json::child(j, "message"@) is None ==> told@.is_prefix_of(body@) && (told@
            == body@ || told@.len() == 600),
{
    reply::errors_tell_what_the_reply_states(json::parsed_json(body@), body@);
}

/// A successful reply of the Responses endpoint gives the image that is found in
/// its document; any fault on the way is told of.
pub proof fn responses_replies_are_read(
    success: bool,
    status: &str,
    body: Result<String, String>,
    image: Result<GeneratedImage, String>,
)
    requires
        call_ensures(reply::parse_responses_image_response, (success, status, body), image),
    ensures
        body matches Err(why) ==> image is Err && image->Err_0@ == "read "@ + "Responses API"@
            + " response: "@ + why@,
        body is Ok && !success ==> image is Err && ("Responses API"@ + " returned "@ + status@
            + ": "@).is_prefix_of(image->Err_0@),
        body matches Ok(t) ==> success ==> match json::parsed_json(t@) {
            Err(why) => image is Err && image->Err_0@ == "parse "@ + "Responses API"@
                + " response: "@ + why,
            Ok(j) => match reply::first_image(j) {
                None => image is Err && image->Err_0@
                    == "Responses API response did not include an image_generation_call result."@,
                Some((result, caption)) => match codec::base64_decoded(result) {
                    Ok(bytes) => image is Ok && image->Ok_0.bytes@ == bytes && text::opt_view(
                        image->Ok_0.caption,
                    ) == caption,
                    Err(why) => image is Err && image->Err_0@ == "decode "@ + "Responses API"@
                        + " image: "@ + why,
                },
            },
        },
{
    if let Ok(t) = body {
        reply::unsuccessful_replies_are_refused(success, status@, t@, Seq::empty());
        reply::responses_replies_give_the_first_image(status@, t@);
    }
}

/// A reply of an image endpoint gives its first image: the data where there is
/// any, or else what its URL leads to.
pub proof fn image_replies_are_read(parsed: Result<ImagesResponse, String>, reply: ImageReply)
    requires
        call_ensures(reply::parse_image_response, (parsed,), reply),
    ensures
        parsed matches Err(why) ==> reply is Fault && reply->Fault_0@ == "parse "@ + "API"@
            + " response: "@ + why@,
        parsed matches Ok(response) ==> {
            &&& response.data@.len() == 0 ==> reply is Fault && reply->Fault_0@
                == "API response did not include an image."@
            &&& response.data@.len() > 0 ==> ({
                let item = response.data@[0];
                let caption = text::opt_view(item.revised_prompt);
                let has_data = item.b64_json is Some && item.b64_json->0@.len() > 0;
                let has_url = item.url is Some && item.url->0@.len() > 0;
                &&& has_data ==> match codec::base64_decoded(item.b64_json->0@) {
                    Ok(bytes) => reply is Image && reply->Image_0.bytes@ == bytes
                        && text::opt_view(reply->Image_0.caption) == caption,
                    Err(why) => reply is Fault && reply->Fault_0@ == "decode "@ + "API"@
                        + " image: "@ + why,
                }
                &&& !has_data && !has_url ==> reply is Fault && reply->Fault_0@
                    == "API image item had neither b64_json nor url."@
                &&& !has_data && has_url && !item.url->0@.contains(',') ==> reply is Fetch
                    && reply->url@ == item.url->0@ && text::opt_view(reply->caption) == caption
            })
        },
{
    match parsed {
        Err(why) => {
            reply::unparsed_replies_are_told_of(why);
        },
        Ok(response) => {
            reply::items_give_their_data_before_their_url(response);
            if response.data@.len() > 0 && response.data@[0].url is Some {
                reply::urls_without_data_are_downloaded(
                    response.data@[0].url->0@,
                    Seq::empty(),
                    Seq::empty(),
                    text::opt_view(response.data@[0].revised_prompt),
                );
            }
        },
    }
    match reply {
        ImageReply::Image(image) => {
            assert(reply@ == reply::ImageReplyView::Image(image@));
        },
        ImageReply::Fault(e) => {
            assert(reply@ == reply::ImageReplyView::Fault(e@));
        },
        ImageReply::Fetch { url, caption } => {},
    }
}

/// A download is read on exactly where it was sent and tells of success, and
/// gives the bytes that were read with the caption.
pub proof fn downloads_give_their_bytes(
    sent: &Result<(bool, String), String>,
    checked: Result<(), String>,
    bytes: Result<Vec<u8>, String>,
    caption: Option<String>,
    image: Result<GeneratedImage, String>,
)
    requires
        call_ensures(reply::check_download, (sent,), checked),
        call_ensures(reply::downloaded_image, (bytes, caption), image),
    ensures
        checked is Ok <==> *sent is Ok && (*sent)->Ok_0.0,
        *sent matches Err(why) ==> checked->Err_0@ == "download API image: "@ + why@,
        *sent is Ok && !(*sent)->Ok_0.0 ==> checked->Err_0@ == "download API image returned "@ + (
        *sent)->Ok_0.1@,
        image is Ok <==> bytes is Ok,
        bytes matches Ok(b) ==> image->Ok_0.bytes@ == b@ && text::opt_view(image->Ok_0.caption)
            == text::opt_view(caption),
        bytes matches Err(why) ==> image->Err_0@ == "read API image bytes: "@ + why@,
{
}

/// An overlay file is removed only where it lies in the folder itself and is
/// named `.overlay-`, any text, `.png`; where its path has no backslash, it then
/// is. Every overlay is decided on, in order.
pub proof fn overlays_are_removed_by_their_name(
    overlays: &Vec<String>,
    plan: Vec<OverlayCleanup>,
    i: int,
    middle: Seq<char>,
)
    requires
        call_ensures(files::cleanup_overlay_paths, (overlays,), plan),
        0 <= i < overlays@.len(),
        !middle.contains('/'),
        !middle.contains('\\'),
    ensures
        plan@.len() == overlays@.len(),
        plan@[i].path@ == overlays@[i]@,
        plan@[i].remove ==> !overlays@[i]@.contains('/') && (exists|m: Seq<char>|
            overlays@[i]@ == #[trigger] (".overlay-"@ + m + ".png"@)),
        overlays@[i]@ == ".overlay-"@ + middle + ".png"@ ==> plan@[i].remove,
{
    let path = overlays@[i]@;
    files::overlay_names_have_a_head_and_a_tail(path, middle);
    reveal_strlit(".overlay-");
    reveal_strlit(".png");
    assert(plan@[i].path@ == path);
    if path == ".overlay-"@ + middle + ".png"@ {
        assert forall|k: int| 0 <= k < path.len() implies path[k] != '/' && path[k] != '\\' by {
            if k < 9 {
                assert(path[k] == ".overlay-"@[k]);
            } else if k < 9 + middle.len() {
                assert(path[k] == middle[k - 9]);
            } else {
                assert(path[k] == ".png"@[k - 9 - middle.len()]);
            }
        }
    }
}

/// A data URL gives back what it was made of; a URL that is none is left to be
/// downloaded.
pub proof fn data_urls_are_read_back(
    mime: &str,
    data: &[u8],
    url: String,
    given: &str,
    read: Option<Result<Vec<u8>, String>>,
    other: &str,
    missing: Option<Result<Vec<u8>, String>>,
)
    requires
        codec::is_encodable(data@.len()),
        !mime@.contains(','),
        call_ensures(codec::data_url, (mime, data), url),
        given@ == url@,
        call_ensures(codec::read_data_url, (given,), read),
        call_ensures(codec::read_data_url, (other,), missing),
    ensures
        read is Some && read->0 is Ok && read->0->Ok_0@ == data@,
        !("data:"@.is_prefix_of(other@)) || !other@.contains(',') ==> missing is None,
{
    codec::data_urls_carry_what_follows_the_comma(other@, Seq::empty(), Seq::empty());
}

/// A reply is read where it was received and tells of success. Any other one is
/// refused in the name of its service, with its status.
pub proof fn replies_are_read_or_refused(
    success: bool,
    status: &str,
    body: Result<String, String>,
    images: Result<String, String>,
    responses: Result<String, String>,
)
    requires
        call_ensures(reply::reply_text, (Service::Images, success, status, body), images),
        call_ensures(reply::reply_text, (Service::Responses, success, status, body), responses),
    ensures
        images is Ok <==> body is Ok && success,
        responses is Ok <==> body is Ok && success,
        body is Ok && success ==> images->Ok_0@ == body->Ok_0@ && responses->Ok_0@ == body->Ok_0@,
        body is Ok && !success ==> ("API"@ + " returned "@ + status@ + ": "@).is_prefix_of(
            images->Err_0@,
        ) && ("Responses API"@ + " returned "@ + status@ + ": "@).is_prefix_of(responses->Err_0@),
        body matches Err(why) ==> images->Err_0@ == "read "@ + "API"@ + " response: "@ + why@
            && responses->Err_0@ == "read "@ + "Responses API"@ + " response: "@ + why@,
{
    match body {
        Ok(t) => {
            reply::unsuccessful_replies_are_refused(success, status@, t@, Seq::empty());
        },
        Err(why) => {
            reply::unsuccessful_replies_are_refused(success, status@, Seq::empty(), why@);
        },
    }
}

/// Of the overlays that a message gives, a placement has the last one that was
/// given for it, and none where none was given.
pub proof fn the_last_overlay_is_found(
    pairs: &Vec<(String, String)>,
    map: OverlayMap,
    key: &str,
    found: Option<String>,
    i: int,
)
    requires
        call_ensures(OverlayMap::new, (pairs,), map),
        call_ensures(OverlayMap::get, (&map, key), found),
    ensures
        0 <= i < pairs@.len() && pairs@[i].0@ == key@ && (forall|k: int|
            i < k < pairs@.len() ==> (#[trigger] pairs@[k]).0@ != key@) ==> found is Some
            && found->0@ == pairs@[i].1@,
        (forall|k: int| 0 <= k < pairs@.len() ==> (#[trigger] pairs@[k]).0@ != key@) ==> found
            is None,
{
    let all = board::pairs_view(pairs@);
    board::last_overlay_counts(all);
    assert(board::last_value(board::latest(all), key@) == board::last_value(all, key@));
    if 0 <= i < pairs@.len() && pairs@[i].0@ == key@ && (forall|k: int|
        i < k < pairs@.len() ==> (#[trigger] pairs@[k]).0@ != key@) {
        last_pair_counts(all, key@, i);
    }
    if forall|k: int| 0 <= k < pairs@.len() ==> (#[trigger] pairs@[k]).0@ != key@ {
        last_pair_counts(all, key@, -1);
    }
}

proof fn last_pair_counts(pairs: Seq<(Seq<char>, Seq<char>)>, key: Seq<char>, i: int)
    requires
        -1 <= i < pairs.len(),
        i >= 0 ==> pairs[i].0 == key,
        forall|k: int| i < k < pairs.len() ==> (#[trigger] pairs[k]).0 != key,
    ensures
        board::last_value(pairs, key) == (if i >= 0 {
            Some(pairs[i].1)
        } else {
            None
        }),
    decreases pairs.len(),
{
    if pairs.len() > 0 && i < pairs.len() - 1 {
        assert(pairs[pairs.len() - 1].0 != key);
        let front = pairs.drop_last();
        assert forall|k: int| i < k < front.len() implies (#[trigger] front[k]).0 != key by {
            assert(front[k] == pairs[k]);
        }
        last_pair_counts(front, key, i);
    }
}

/// Ids have 12 characters for messages and 21 for placeholders, all of them
/// letters, digits, underscores or hyphens.
pub proof fn ids_have_their_length(message: String, placeholder: String, i: int)
    requires
        call_ensures(records::new_message_id, (), message),
        call_ensures(records::new_placeholder_id, (), placeholder),
    ensures
        message@.len() == 12,
        placeholder@.len() == 21,
        0 <= i < 12 ==> ({
            let c = message@[i];
            c == '_' || c == '-' || '0' <= c <= '9' || 'a' <= c <= 'z' || 'A' <= c <= 'Z'
        }),
{
    if 0 <= i < 12 {
        assert(records::is_id_char(message@[i]));
    }
}

/// The context of skills that could all be read, and that is not full, names
/// every one of them; a skill that could not be read is told of.
pub proof fn contexts_name_every_skill(
    skills: &Vec<SkillInputRef>,
    reads: &Vec<Result<String, String>>,
    context: Result<String, String>,
    i: int,
)
    requires
        reads@.len() == skills@.len(),
        skills::context_run_takes(
            skills::context_start(skills@.len() as int),
            skills@,
            reads@,
        ),
        call_ensures(skills::build_skill_context, (skills, reads), context),
        0 <= i < skills@.len(),
    ensures
        context matches Ok(t) ==> skills::bytes(t@) < 12000 ==> text::holds_text(
            t@,
            "\n<skill name=\""@ + skills@[i].name@ + "\" path=\""@ + skills@[i].path@ + "\">\n"@,
        ),
        reads@[0] matches Err(why) ==> context is Err && context->Err_0@ == "read skill "@
            + skills@[0].name@ + " at "@ + skills@[0].path@ + ": "@ + why@,
{
    let start = skills::context_start(skills@.len() as int);
    let end = skills::context_run(start, skills@, reads@);
    skills::contexts_take_all_their_skills(start, skills@, reads@, i);
    if end.cut {
        skills::cut_contexts_are_full(start, skills@, reads@);
    }
    if reads@[0] is Err {
        let step = skills::context_step(start, skills@[0], skills::read_view(reads@[0]));
        assert(end == skills::context_run(step, skills@, reads@));
        assert(!skills::context_pending(step));
        assert(skills::context_run(step, skills@, reads@) == step);
    }
}

}
