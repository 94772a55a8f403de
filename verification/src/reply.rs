//! The replies of the image API: what is read from them, and what is said
//! where they hold no image.

use vstd::prelude::*;
use vstd::string::*;
use crate::codec;
use crate::json;
use crate::json::{Json, JsonView};
use crate::text;

verus! {

/// The number of characters that an error message of the API is cut to.
pub const MAX_ERROR_CHARS: usize = 600;

/// An image as the API gave it.
#[derive(Debug)]
pub struct GeneratedImage {
    pub bytes: Vec<u8>,
    pub caption: Option<String>,
}

/// A [`GeneratedImage`], over views.
pub struct ImageView {
    pub bytes: Seq<u8>,
    pub caption: Option<Seq<char>>,
}

impl View for GeneratedImage {
    type V = ImageView;

    open spec fn view(&self) -> ImageView {
        ImageView { bytes: self.bytes@, caption: text::opt_view(self.caption) }
    }
}

/// An image or a message, over views.
pub open spec fn image_outcome(r: Result<GeneratedImage, String>) -> Result<ImageView, Seq<char>> {
    match r {
        Ok(image) => Ok(image@),
        Err(e) => Err(e@),
    }
}

/// A text or a message, over views.
pub open spec fn text_outcome(r: Result<String, String>) -> Result<Seq<char>, Seq<char>> {
    match r {
        Ok(t) => Ok(t@),
        Err(e) => Err(e@),
    }
}

/// The reply of an image endpoint.
#[derive(Debug)]
pub struct ImagesResponse {
    pub data: Vec<ImageData>,
}

/// One image in the reply of an image endpoint.
#[derive(Debug)]
pub struct ImageData {
    pub b64_json: Option<String>,
    pub url: Option<String>,
    pub revised_prompt: Option<String>,
}

/// The two services that give images.
#[derive(Debug, Clone, Copy, PartialEq, Eq, Structural)]
pub enum Service {
    /// The image endpoints.
    Images,
    /// The Responses endpoint.
    Responses,
}

/// What messages call a service.
pub open spec fn service_text(service: Service) -> Seq<char> {
    match service {
        Service::Images => "API"@,
        Service::Responses => "Responses API"@,
    }
}

/// What messages call a service.
pub(crate) fn service_name(service: Service) -> (r: &'static str)
    ensures
        r@ == service_text(service),
{
    match service {
        Service::Images => "API",
        Service::Responses => "Responses API",
    }
}

/// `what`, the service and `then`, then the reason `why`.
fn service_message(what: &str, service: Service, then: &str, why: &str) -> (r: String)
    ensures
        r@ == what@ + service_text(service) + then@ + why@,
{
    let mut out = what.to_owned();
    out.append(service_name(service));
    out.append(then);
    out.append(why);
    out
}

/// The text under `message` in the member `error` of `j`, or else the text
/// under `message` in `j` itself.
pub open spec fn stated_error(j: JsonView) -> Option<Seq<char>> {
    let nested = match json::child(j, "error"@) {
        Some(error) => json::text_of(json::child(error, "message"@)),
        None => None,
    };
    match nested {
        Some(t) => Some(t),
        None => json::text_of(json::child(j, "message"@)),
    }
}

/// What is told of an error whose reply `body` was read as `parsed`: the error
/// that it states, or else all of it, cut to the limit.
pub open spec fn error_text(
    parsed: Result<JsonView, Seq<char>>,
    body: Seq<char>,
) -> Seq<char> {
    let stated = match parsed {
        Ok(j) => stated_error(j),
        Err(_) => None,
    };
    text::at_most(
        match stated {
            Some(t) => t,
            None => body,
        },
        MAX_ERROR_CHARS as nat,
    )
}

/// What is told of an error whose reply `body` was read as `parsed`.
pub fn error_message_of(parsed: &Result<Json, String>, body: &str) -> (r: String)
    ensures
        r@ == error_text(json::json_outcome(*parsed), body@),
{
    let v = match parsed {
        Ok(v) => v,
        Err(_) => {
            return text::take_chars(body, MAX_ERROR_CHARS).to_owned();
        },
    };
    let nested = match json::get(v, "error") {
        Some(error) => json::as_text(json::get(error, "message")),
        None => None,
    };
    let stated = match nested {
        Some(t) => Some(t),
        None => json::as_text(json::get(v, "message")),
    };
    match stated {
        Some(t) => text::take_chars(t.as_str(), MAX_ERROR_CHARS).to_owned(),
        None => text::take_chars(body, MAX_ERROR_CHARS).to_owned(),
    }
}

/// What is told of an error whose reply is `body`.
pub fn api_error_message(body: &str) -> (r: String)
    ensures
        r@ == error_text(json::parsed_json(body@), body@),
        r@.len() <= MAX_ERROR_CHARS,
{
    error_message_of(&json::parse_json(body), body)
}

/// The message that `service` answered with the status `status`, of which
/// `told` is told.
pub open spec fn refusal_text(
    service: Service,
    status: Seq<char>,
    told: Seq<char>,
) -> Seq<char> {
    service_text(service) + " returned "@ + status + ": "@ + told
}

/// The message that `service` answered with the status `status`, of which
/// `told` is told.
pub fn refusal_message(service: Service, status: &str, told: &str) -> (r: String)
    ensures
        r@ == refusal_text(service, status@, told@),
{
    let mut message = service_name(service).to_owned();
    message.append(" returned ");
    message.append(status);
    message.append(": ");
    message.append(told);
    message
}

/// What a reply of `service` with the status `status` gives to read: its text
/// where it tells of success, or else a message.
pub open spec fn reply_text_of(
    service: Service,
    success: bool,
    status: Seq<char>,
    body: Result<Seq<char>, Seq<char>>,
) -> Result<Seq<char>, Seq<char>> {
    match body {
        Err(why) => Err("read "@ + service_text(service) + " response: "@ + why),
        Ok(t) => if success {
            Ok(t)
        } else {
            Err(refusal_text(service, status, error_text(json::parsed_json(t), t)))
        },
    }
}

/// The text of a reply with the status `status`, whose body gave `body` when it
/// was read.
pub fn reply_text(
    service: Service,
    success: bool,
    status: &str,
    body: Result<String, String>,
) -> (r: Result<String, String>)
    ensures
        text_outcome(r) == reply_text_of(service, success, status@, text_outcome(body)),
{
    match body {
        Err(why) => Err(service_message("read ", service, " response: ", why.as_str())),
        Ok(t) => if success {
            Ok(t)
        } else {
            let told = api_error_message(t.as_str());
            Err(refusal_message(service, status, told.as_str()))
        },
    }
}

/// The result and the caption that an object with the members `fields` holds,
/// if it is an image generation call with a result.
pub open spec fn call_result(
    fields: Seq<(Seq<char>, JsonView)>,
) -> Option<(Seq<char>, Option<Seq<char>>)> {
    if json::text_of(json::member(fields, "type"@)) == Some("image_generation_call"@) {
        match json::text_of(json::member(fields, "result"@)) {
            Some(result) => Some(
                (result, json::text_of(json::member(fields, "revised_prompt"@))),
            ),
            None => None,
        }
    } else {
        None
    }
}

/// The first image generation call with a result in `j`, an object before its
/// members and members and items in order.
pub open spec fn first_image(j: JsonView) -> Option<(Seq<char>, Option<Seq<char>>)>
    decreases j,
{
    match j {
        JsonView::Object(fields) => match call_result(fields) {
            Some(found) => Some(found),
            None => first_image_in_fields(fields),
        },
        JsonView::Array(items) => first_image_in_items(items),
        _ => None,
    }
}

/// [`first_image`] over the members of an object.
pub open spec fn first_image_in_fields(
    fields: Seq<(Seq<char>, JsonView)>,
) -> Option<(Seq<char>, Option<Seq<char>>)>
    decreases fields,
{
    if fields.len() == 0 {
        None
    } else {
        match first_image(fields[0].1) {
            Some(found) => Some(found),
            None => first_image_in_fields(fields.subrange(1, fields.len() as int)),
        }
    }
}

/// [`first_image`] over the items of an array.
pub open spec fn first_image_in_items(
    items: Seq<JsonView>,
) -> Option<(Seq<char>, Option<Seq<char>>)>
    decreases items,
{
    if items.len() == 0 {
        None
    } else {
        match first_image(items[0]) {
            Some(found) => Some(found),
            None => first_image_in_items(items.subrange(1, items.len() as int)),
        }
    }
}

/// A found image, over views.
pub open spec fn found_view(
    r: Option<(String, Option<String>)>,
) -> Option<(Seq<char>, Option<Seq<char>>)> {
    match r {
        Some((result, caption)) => Some((result@, text::opt_view(caption))),
        None => None,
    }
}

/// The text of an optional text, copied.
fn copied(t: Option<&String>) -> (r: Option<String>)
    ensures
        text::opt_view(r) == (match t {
            Some(t) => Some(t@),
            None => None,
        }),
{
    match t {
        Some(t) => Some(t.clone()),
        None => None,
    }
}

/// The result and the caption that `value` holds, if it is an image generation
/// call with a result.
fn call_of(value: &Json) -> (r: Option<(String, Option<String>)>)
    ensures
        found_view(r) == (match value@ {
            JsonView::Object(fields) => call_result(fields),
            _ => None,
        }),
{
    match json::as_text(json::get(value, "type")) {
        Some(kind) => {
            if !text::same_text(kind.as_str(), "image_generation_call") {
                return None;
            }
        },
        None => {
            return None;
        },
    }
    match json::as_text(json::get(value, "result")) {
        Some(result) => {
            let caption = copied(json::as_text(json::get(value, "revised_prompt")));
            Some((result.clone(), caption))
        },
        None => None,
    }
}

/// The first image generation call with a result in `value`: its result and
/// its caption.
pub fn find_response_image(value: &Json) -> (r: Option<(String, Option<String>)>)
    ensures
        found_view(r) == first_image(value@),
    decreases value,
{
    match value {
        Json::Object(fields) => {
            let ghost all = json::fields_view(fields@);
            assert(json::json_view(*value)->Object_0 =~= all);
            let call = call_of(value);
            if call.is_some() {
                return call;
            }
            let mut i: usize = 0;
            assert(all.subrange(0, all.len() as int) =~= all);
            while i < fields.len()
                invariant
                    i <= fields@.len(),
                    *value == Json::Object(*fields),
                    all == json::fields_view(fields@),
                    first_image(value@) == first_image_in_fields(
                        all.subrange(i as int, all.len() as int),
                    ),
                decreases fields@.len() - i,
            {
                let ghost rest = all.subrange(i as int, all.len() as int);
                assert(rest.subrange(1, rest.len() as int) =~= all.subrange(
                    i + 1,
                    all.len() as int,
                ));
                assert(decreases_to!(value => value->Object_0@[i as int].1));
                let found = find_response_image(&fields[i].1);
                if found.is_some() {
                    return found;
                }
                i = i + 1;
            }
            None
        },
        Json::Array(items) => {
            let ghost all = json::items_view(items@);
            assert(json::json_view(*value)->Array_0 =~= all);
            let mut i: usize = 0;
            assert(all.subrange(0, all.len() as int) =~= all);
            while i < items.len()
                invariant
                    i <= items@.len(),
                    *value == Json::Array(*items),
                    all == json::items_view(items@),
                    first_image(value@) == first_image_in_items(
                        all.subrange(i as int, all.len() as int),
                    ),
                decreases items@.len() - i,
            {
                let ghost rest = all.subrange(i as int, all.len() as int);
                assert(rest.subrange(1, rest.len() as int) =~= all.subrange(
                    i + 1,
                    all.len() as int,
                ));
                assert(decreases_to!(value => value->Array_0@[i as int]));
                let found = find_response_image(&items[i]);
                if found.is_some() {
                    return found;
                }
                i = i + 1;
            }
            None
        },
        _ => None,
    }
}

/// The image of `service` with the caption `caption`, whose data was decoded
/// with the outcome `decoded`.
pub open spec fn decoded_view(
    service: Service,
    decoded: Result<Seq<u8>, Seq<char>>,
    caption: Option<Seq<char>>,
) -> Result<ImageView, Seq<char>> {
    match decoded {
        Ok(bytes) => Ok(ImageView { bytes, caption }),
        Err(why) => Err("decode "@ + service_text(service) + " image: "@ + why),
    }
}

/// The image of `service` with the caption `caption`, whose data was decoded
/// with the outcome `decoded`.
pub fn decoded_image(
    service: Service,
    decoded: Result<Vec<u8>, String>,
    caption: Option<String>,
) -> (r: Result<GeneratedImage, String>)
    ensures
        image_outcome(r) == decoded_view(
            service,
            codec::bytes_outcome(decoded),
            text::opt_view(caption),
        ),
{
    match decoded {
        Ok(bytes) => Ok(GeneratedImage { bytes, caption }),
        Err(why) => Err(service_message("decode ", service, " image: ", why.as_str())),
    }
}

/// The image that a document of the Responses endpoint holds.
pub open spec fn document_image(j: JsonView) -> Result<ImageView, Seq<char>> {
    match first_image(j) {
        None => Err(
            "Responses API response did not include an image_generation_call result."@,
        ),
        Some((result, caption)) => decoded_view(
            Service::Responses,
            codec::base64_decoded(result),
            caption,
        ),
    }
}

/// The image that a document of the Responses endpoint holds.
pub fn image_of_document(value: &Json) -> (r: Result<GeneratedImage, String>)
    ensures
        image_outcome(r) == document_image(value@),
{
    match find_response_image(value) {
        None => Err(
            "Responses API response did not include an image_generation_call result.".to_owned(),
        ),
        Some((b64, caption)) => decoded_image(
            Service::Responses,
            codec::decode_base64(b64.as_str()),
            caption,
        ),
    }
}

/// What a reply of the Responses endpoint gives, whose text was read as
/// `parsed`.
pub open spec fn parsed_image(parsed: Result<JsonView, Seq<char>>) -> Result<ImageView, Seq<char>> {
    match parsed {
        Err(why) => Err("parse "@ + service_text(Service::Responses) + " response: "@ + why),
        Ok(j) => document_image(j),
    }
}

/// The image of a reply of the Responses endpoint, whose text was read as
/// `parsed`.
pub fn image_of_parsed(parsed: Result<Json, String>) -> (r: Result<GeneratedImage, String>)
    ensures
        image_outcome(r) == parsed_image(json::json_outcome(parsed)),
{
    match parsed {
        Err(why) => Err(
            service_message("parse ", Service::Responses, " response: ", why.as_str()),
        ),
        Ok(value) => image_of_document(&value),
    }
}

/// What a reply of the Responses endpoint gives.
pub open spec fn responses_reply(
    success: bool,
    status: Seq<char>,
    body: Result<Seq<char>, Seq<char>>,
) -> Result<ImageView, Seq<char>> {
    match reply_text_of(Service::Responses, success, status, body) {
        Err(e) => Err(e),
        Ok(t) => parsed_image(json::parsed_json(t)),
    }
}

/// The image of a reply of the Responses endpoint with the status `status`,
/// whose body gave `body` when it was read.
pub fn parse_responses_image_response(
    success: bool,
    status: &str,
    body: Result<String, String>,
) -> (r: Result<GeneratedImage, String>)
    ensures
        image_outcome(r) == responses_reply(success, status@, text_outcome(body)),
{
    match reply_text(Service::Responses, success, status, body) {
        Err(e) => Err(e),
        Ok(t) => image_of_parsed(json::parse_json(t.as_str())),
    }
}

/// What the reply of an image endpoint leads to.
#[derive(Debug)]
pub enum ImageReply {
    /// The image.
    Image(GeneratedImage),
    /// A message on why there is none.
    Fault(String),
    /// A download: the image is at this URL.
    Fetch { url: String, caption: Option<String> },
}

/// An [`ImageReply`], over views.
pub enum ImageReplyView {
    Image(ImageView),
    Fault(Seq<char>),
    Fetch { url: Seq<char>, caption: Option<Seq<char>> },
}

impl View for ImageReply {
    type V = ImageReplyView;

    open spec fn view(&self) -> ImageReplyView {
        match *self {
            ImageReply::Image(image) => ImageReplyView::Image(image@),
            ImageReply::Fault(e) => ImageReplyView::Fault(e@),
            ImageReply::Fetch { url, caption } => ImageReplyView::Fetch {
                url: url@,
                caption: text::opt_view(caption),
            },
        }
    }
}

/// An image or a message, as the end of a reply.
pub open spec fn settled(r: Result<ImageView, Seq<char>>) -> ImageReplyView {
    match r {
        Ok(image) => ImageReplyView::Image(image),
        Err(e) => ImageReplyView::Fault(e),
    }
}

/// An optional text that is there and not empty.
pub open spec fn filled(t: Option<String>) -> Option<Seq<char>> {
    match t {
        Some(t) => if t@.len() > 0 {
            Some(t@)
        } else {
            None
        },
        None => None,
    }
}

/// What a URL of an image with the caption `caption` leads to: the image that
/// it carries, or a download.
pub open spec fn url_reply(url: Seq<char>, caption: Option<Seq<char>>) -> ImageReplyView {
    match codec::data_payload(url) {
        Some(payload) => match codec::data_url_outcome(codec::base64_decoded(payload)) {
            Ok(bytes) => ImageReplyView::Image(ImageView { bytes, caption }),
            Err(e) => ImageReplyView::Fault(e),
        },
        None => ImageReplyView::Fetch { url, caption },
    }
}

/// What one image in the reply of an image endpoint leads to.
pub open spec fn item_reply(item: ImageData) -> ImageReplyView {
    let caption = text::opt_view(item.revised_prompt);
    match filled(item.b64_json) {
        Some(b64) => settled(decoded_view(Service::Images, codec::base64_decoded(b64), caption)),
        None => match filled(item.url) {
            Some(url) => url_reply(url, caption),
            None => ImageReplyView::Fault("API image item had neither b64_json nor url."@),
        },
    }
}

/// What the reply of an image endpoint leads to, which was parsed with the
/// outcome `parsed`. Of several images the first counts.
pub open spec fn images_reply_of(parsed: Result<ImagesResponse, String>) -> ImageReplyView {
    match parsed {
        Err(why) => ImageReplyView::Fault(
            "parse "@ + service_text(Service::Images) + " response: "@ + why@,
        ),
        Ok(response) => if response.data@.len() == 0 {
            ImageReplyView::Fault("API response did not include an image."@)
        } else {
            item_reply(response.data@[0])
        },
    }
}

/// An optional text that is there and not empty.
fn filled_text(t: &Option<String>) -> (r: Option<&String>)
    ensures
        (match r {
            Some(t) => Some(t@),
            None => None,
        }) == filled(*t),
{
    match t {
        Some(t) => if t.as_str().is_empty() {
            None
        } else {
            Some(t)
        },
        None => None,
    }
}

/// What a URL of an image leads to: the image that it carries, or a download.
pub fn read_image_url(url: &str, caption: Option<String>) -> (r: ImageReply)
    ensures
        r@ == url_reply(url@, text::opt_view(caption)),
{
    match codec::read_data_url(url) {
        Some(Ok(bytes)) => ImageReply::Image(GeneratedImage { bytes, caption }),
        Some(Err(e)) => ImageReply::Fault(e),
        None => ImageReply::Fetch { url: url.to_owned(), caption },
    }
}

/// What the reply of an image endpoint leads to, which was parsed with the
/// outcome `parsed`.
pub fn parse_image_response(parsed: Result<ImagesResponse, String>) -> (r: ImageReply)
    ensures
        r@ == images_reply_of(parsed),
{
    let response = match parsed {
        Ok(response) => response,
        Err(why) => {
            return ImageReply::Fault(
                service_message("parse ", Service::Images, " response: ", why.as_str()),
            );
        },
    };
    if response.data.len() == 0 {
        return ImageReply::Fault("API response did not include an image.".to_owned());
    }
    let first = &response.data[0];
    let caption = copied(first.revised_prompt.as_ref());
    if let Some(b64) = filled_text(&first.b64_json) {
        let decoded = codec::decode_base64(b64.as_str());
        return match decoded_image(Service::Images, decoded, caption) {
            Ok(image) => ImageReply::Image(image),
            Err(e) => ImageReply::Fault(e),
        };
    }
    if let Some(url) = filled_text(&first.url) {
        return read_image_url(url.as_str(), caption);
    }
    ImageReply::Fault("API image item had neither b64_json nor url.".to_owned())
}

/// Whether the download of an image may be read on: the request was sent with
/// the outcome `sent`, whether its status tells of success and what it is.
pub fn check_download(sent: &Result<(bool, String), String>) -> (r: Result<(), String>)
    ensures
        match *sent {
            Err(why) => r matches Err(e) && e@ == "download API image: "@ + why@,
            Ok((success, status)) => if success {
                r is Ok
            } else {
                r matches Err(e) && e@ == "download API image returned "@ + status@
            },
        },
{
    match sent {
        Err(why) => {
            let mut message = "download API image: ".to_owned();
            message.append(why.as_str());
            Err(message)
        },
        Ok((success, status)) => if *success {
            Ok(())
        } else {
            let mut message = "download API image returned ".to_owned();
            message.append(status.as_str());
            Err(message)
        },
    }
}

/// The image with the caption `caption` whose download gave `bytes`.
pub fn downloaded_image(
    bytes: Result<Vec<u8>, String>,
    caption: Option<String>,
) -> (r: Result<GeneratedImage, String>)
    ensures
        match bytes {
            Ok(bytes) => r matches Ok(image) && image@ == (ImageView {
                bytes: bytes@,
                caption: text::opt_view(caption),
            }),
            Err(why) => r matches Err(e) && e@ == "read API image bytes: "@ + why@,
        },
{
    match bytes {
        Ok(bytes) => Ok(GeneratedImage { bytes, caption }),
        Err(why) => {
            let mut message = "read API image bytes: ".to_owned();
            message.append(why.as_str());
            Err(message)
        },
    }
}

/// Wrapping a document in further arrays hides no image: the first image of a
/// list whose first item has one is that of the item.
pub proof fn nesting_keeps_the_image(j: JsonView, rest: Seq<JsonView>)
    requires
        first_image(j) is Some,
    ensures
        first_image(JsonView::Array(seq![j] + rest)) == first_image(j),
{
    assert((seq![j] + rest)[0] == j);
}

/// Items without an image change nothing: what stands behind them decides.
pub proof fn items_without_image_are_skipped(j: JsonView, rest: Seq<JsonView>)
    requires
        first_image(j) is None,
    ensures
        first_image(JsonView::Array(seq![j] + rest)) == first_image(JsonView::Array(rest)),
{
    let all = seq![j] + rest;
    assert(all[0] == j);
    assert(all.subrange(1, all.len() as int) =~= rest);
}

/// What stands in `j` at the end of `path`: the members and items to follow,
/// by their position.
pub open spec fn node_at(j: JsonView, path: Seq<int>) -> Option<JsonView>
    decreases path.len(),
{
    if path.len() == 0 {
        Some(j)
    } else {
        match j {
            JsonView::Object(fields) => if 0 <= path[0] < fields.len() {
                node_at(fields[path[0]].1, path.drop_first())
            } else {
                None
            },
            JsonView::Array(items) => if 0 <= path[0] < items.len() {
                node_at(items[path[0]], path.drop_first())
            } else {
                None
            },
            _ => None,
        }
    }
}

/// The result and the caption of the image generation call at the end of
/// `path` in `j`, if there is one with a result.
pub open spec fn call_at(j: JsonView, path: Seq<int>) -> Option<(Seq<char>, Option<Seq<char>>)> {
    match node_at(j, path) {
        Some(JsonView::Object(fields)) => call_result(fields),
        _ => None,
    }
}

/// An image is found exactly where a document holds one, however deep: what is
/// found is the result of an image generation call that stands in the
/// document, and where nothing is found no such call with a result does.
pub proof fn an_image_is_found_where_one_is(j: JsonView)
    ensures
        first_image(j) matches Some(found) ==> exists|path: Seq<int>| #[trigger]
            call_at(j, path) == Some(found),
        first_image(j) is None ==> forall|path: Seq<int>| #[trigger] call_at(j, path) is None,
{
    if first_image(j) is Some {
        found_images_stand_in_the_document(j);
    } else {
        assert forall|path: Seq<int>| #[trigger] call_at(j, path) is None by {
            no_image_means_no_call(j, path);
        }
    }
}

proof fn no_image_means_no_call(j: JsonView, path: Seq<int>)
    requires
        first_image(j) is None,
    ensures
        call_at(j, path) is None,
    decreases path.len(),
{
    if path.len() > 0 {
        match j {
            JsonView::Object(fields) => {
                if 0 <= path[0] < fields.len() {
                    fields_without_image(fields, path[0]);
                    no_image_means_no_call(fields[path[0]].1, path.drop_first());
                }
            },
            JsonView::Array(items) => {
                if 0 <= path[0] < items.len() {
                    items_without_image(items, path[0]);
                    no_image_means_no_call(items[path[0]], path.drop_first());
                }
            },
            _ => {},
        }
    }
}

proof fn fields_without_image(fields: Seq<(Seq<char>, JsonView)>, i: int)
    requires
        first_image_in_fields(fields) is None,
        0 <= i < fields.len(),
    ensures
        first_image(fields[i].1) is None,
    decreases i,
{
    if i > 0 {
        let rest = fields.subrange(1, fields.len() as int);
        assert(rest[i - 1] == fields[i]);
        fields_without_image(rest, i - 1);
    }
}

proof fn items_without_image(items: Seq<JsonView>, i: int)
    requires
        first_image_in_items(items) is None,
        0 <= i < items.len(),
    ensures
        first_image(items[i]) is None,
    decreases i,
{
    if i > 0 {
        let rest = items.subrange(1, items.len() as int);
        assert(rest[i - 1] == items[i]);
        items_without_image(rest, i - 1);
    }
}

/// The index of the first of `fields` that holds an image.
proof fn first_field_with_image(fields: Seq<(Seq<char>, JsonView)>) -> (i: int)
    requires
        first_image_in_fields(fields) is Some,
    ensures
        0 <= i < fields.len(),
        first_image(fields[i].1) == first_image_in_fields(fields),
    decreases fields.len(),
{
    if first_image(fields[0].1) is Some {
        0
    } else {
        let rest = fields.subrange(1, fields.len() as int);
        let k = first_field_with_image(rest);
        assert(rest[k] == fields[k + 1]);
        k + 1
    }
}

/// The index of the first of `items` that holds an image.
proof fn first_item_with_image(items: Seq<JsonView>) -> (i: int)
    requires
        first_image_in_items(items) is Some,
    ensures
        0 <= i < items.len(),
        first_image(items[i]) == first_image_in_items(items),
    decreases items.len(),
{
    if first_image(items[0]) is Some {
        0
    } else {
        let rest = items.subrange(1, items.len() as int);
        let k = first_item_with_image(rest);
        assert(rest[k] == items[k + 1]);
        k + 1
    }
}

proof fn found_images_stand_in_the_document(j: JsonView)
    requires
        first_image(j) is Some,
    ensures
        exists|path: Seq<int>| #[trigger] call_at(j, path) == first_image(j),
    decreases j,
{
    match j {
        JsonView::Object(fields) => {
            if call_result(fields) is Some {
                assert(call_at(j, Seq::empty()) == first_image(j));
            } else {
                let i = first_field_with_image(fields);
                assert(decreases_to!(j => j->Object_0[i].1));
                found_images_stand_in_the_document(fields[i].1);
                let inner = choose|path: Seq<int>| #[trigger]
                    call_at(fields[i].1, path) == first_image(fields[i].1);
                let path = seq![i] + inner;
                assert(path.drop_first() =~= inner);
                assert(call_at(j, path) == first_image(j));
            }
        },
        JsonView::Array(items) => {
            let i = first_item_with_image(items);
            assert(decreases_to!(j => j->Array_0[i]));
            found_images_stand_in_the_document(items[i]);
            let inner = choose|path: Seq<int>| #[trigger]
                call_at(items[i], path) == first_image(items[i]);
            let path = seq![i] + inner;
            assert(path.drop_first() =~= inner);
            assert(call_at(j, path) == first_image(j));
        },
        _ => {},
    }
}

/// What is told of an error is the message of its `error` member, or else the
/// message of the reply itself, or else the whole reply, and no more than its
/// first 600 characters.
pub proof fn errors_tell_what_the_reply_states(
    parsed: Result<JsonView, Seq<char>>,
    body: Seq<char>,
)
    ensures
        ({
            let inner = match parsed {
                Ok(j) => match json::child(j, "error"@) {
                    Some(error) => json::child(error, "message"@),
                    None => None,
                },
                Err(_) => None,
            };
            let outer = match parsed {
                Ok(j) => json::child(j, "message"@),
                Err(_) => None,
            };
            let source = match inner {
                Some(JsonView::Text(t)) => t,
                _ => match outer {
                    Some(JsonView::Text(t)) => t,
                    _ => body,
                },
            };
            let told = error_text(parsed, body);
            &&& told.is_prefix_of(source)
            &&& source.len() <= 600 ==> told == source
            &&& source.len() > 600 ==> told.len() == 600
        }),
{
}

/// A reply is read where it could be received and tells of success; otherwise a
/// message names the service, and the status and what the reply states or why
/// it could not be received.
pub proof fn unsuccessful_replies_are_refused(
    success: bool,
    status: Seq<char>,
    body: Seq<char>,
    why: Seq<char>,
)
    ensures
        ({
            let told = error_text(json::parsed_json(body), body);
            let images = reply_text_of(Service::Images, success, status, Ok(body));
            let responses = reply_text_of(Service::Responses, success, status, Ok(body));
            &&& success ==> images == Ok::<Seq<char>, Seq<char>>(body) && responses == Ok::<
                Seq<char>,
                Seq<char>,
            >(body)
            &&& !success ==> images == Err::<Seq<char>, Seq<char>>(
                "API"@ + " returned "@ + status + ": "@ + told,
            ) && responses == Err::<Seq<char>, Seq<char>>(
                "Responses API"@ + " returned "@ + status + ": "@ + told,
            )
        }),
        reply_text_of(Service::Images, success, status, Err(why)) == Err::<Seq<char>, Seq<char>>(
            "read "@ + "API"@ + " response: "@ + why,
        ),
        reply_text_of(Service::Responses, success, status, Err(why)) == Err::<
            Seq<char>,
            Seq<char>,
        >("read "@ + "Responses API"@ + " response: "@ + why),
{
}

/// An object gives an image exactly where its type is that of an image
/// generation call and its result is a text: the result, with the revised
/// prompt as the caption where that is a text.
pub proof fn image_calls_have_a_result(fields: Seq<(Seq<char>, JsonView)>)
    ensures
        ({
            let call = JsonView::Object(fields);
            &&& call_result(fields) is Some <==> json::child(call, "type"@) == Some(
                JsonView::Text("image_generation_call"@),
            ) && json::child(call, "result"@) is Some && json::child(call, "result"@)->0 is Text
            &&& call_result(fields) matches Some((result, caption)) ==> json::child(
                call,
                "result"@,
            ) == Some(JsonView::Text(result)) && caption == (match json::child(
                call,
                "revised_prompt"@,
            ) {
                Some(JsonView::Text(t)) => Some(t),
                _ => None,
            })
        }),
{
}

/// A document is searched from the outside in and from the first member or item
/// on: a call counts before what stands in it, and the first member or item
/// that holds an image before the later ones.
pub proof fn images_are_searched_in_order(
    fields: Seq<(Seq<char>, JsonView)>,
    items: Seq<JsonView>,
    i: int,
)
    ensures
        call_result(fields) is Some ==> first_image(JsonView::Object(fields)) == call_result(
            fields,
        ),
        call_result(fields) is None && 0 <= i < fields.len() && (forall|k: int|
            0 <= k < i ==> first_image((#[trigger] fields[k]).1) is None) && first_image(
            fields[i].1,
        ) is Some ==> first_image(JsonView::Object(fields)) == first_image(fields[i].1),
        0 <= i < items.len() && (forall|k: int|
            0 <= k < i ==> first_image(#[trigger] items[k]) is None) && first_image(items[i])
            is Some ==> first_image(JsonView::Array(items)) == first_image(items[i]),
{
    if 0 <= i < fields.len() && (forall|k: int|
        0 <= k < i ==> first_image((#[trigger] fields[k]).1) is None) && first_image(fields[i].1)
        is Some {
        first_field_counts(fields, i);
    }
    if 0 <= i < items.len() && (forall|k: int|
        0 <= k < i ==> first_image(#[trigger] items[k]) is None) && first_image(items[i]) is Some {
        first_item_counts(items, i);
    }
}

proof fn first_field_counts(fields: Seq<(Seq<char>, JsonView)>, i: int)
    requires
        0 <= i < fields.len(),
        forall|k: int| 0 <= k < i ==> first_image((#[trigger] fields[k]).1) is None,
        first_image(fields[i].1) is Some,
    ensures
        first_image_in_fields(fields) == first_image(fields[i].1),
    decreases i,
{
    if i > 0 {
        assert(first_image(fields[0].1) is None);
        let rest = fields.subrange(1, fields.len() as int);
        assert(rest[i - 1] == fields[i]);
        assert forall|k: int| 0 <= k < i - 1 implies first_image((#[trigger] rest[k]).1) is None by {
            assert(rest[k] == fields[k + 1]);
        }
        first_field_counts(rest, i - 1);
    }
}

proof fn first_item_counts(items: Seq<JsonView>, i: int)
    requires
        0 <= i < items.len(),
        forall|k: int| 0 <= k < i ==> first_image(#[trigger] items[k]) is None,
        first_image(items[i]) is Some,
    ensures
        first_image_in_items(items) == first_image(items[i]),
    decreases i,
{
    if i > 0 {
        assert(first_image(items[0]) is None);
        let rest = items.subrange(1, items.len() as int);
        assert(rest[i - 1] == items[i]);
        assert forall|k: int| 0 <= k < i - 1 implies first_image(#[trigger] rest[k]) is None by {
            assert(rest[k] == items[k + 1]);
        }
        first_item_counts(rest, i - 1);
    }
}

/// What is decoded is the image, byte for byte and with its caption; what
/// cannot be decoded is told of with the name of the service.
pub proof fn decoded_images_keep_their_bytes(
    bytes: Seq<u8>,
    caption: Option<Seq<char>>,
    why: Seq<char>,
    service: Service,
)
    ensures
        decoded_view(service, Ok(bytes), caption) == Ok::<ImageView, Seq<char>>(
            ImageView { bytes, caption },
        ),
        decoded_view(Service::Images, Err(why), caption) == Err::<ImageView, Seq<char>>(
            "decode "@ + "API"@ + " image: "@ + why,
        ),
        decoded_view(Service::Responses, Err(why), caption) == Err::<ImageView, Seq<char>>(
            "decode "@ + "Responses API"@ + " image: "@ + why,
        ),
{
}

/// A successful reply of the Responses endpoint gives the image of the first
/// image generation call in it, decoded and with its caption; a reply that is
/// no document, or that holds no such call, is told of.
pub proof fn responses_replies_give_the_first_image(status: Seq<char>, body: Seq<char>)
    ensures
        ({
            let reply = responses_reply(true, status, Ok(body));
            match json::parsed_json(body) {
                Err(why) => reply == Err::<ImageView, Seq<char>>(
                    "parse "@ + "Responses API"@ + " response: "@ + why,
                ),
                Ok(j) => match first_image(j) {
                    None => reply == Err::<ImageView, Seq<char>>(
                        "Responses API response did not include an image_generation_call result."@,
                    ),
                    Some((result, caption)) => match codec::base64_decoded(result) {
                        Ok(bytes) => reply == Ok::<ImageView, Seq<char>>(
                            ImageView { bytes, caption },
                        ),
                        Err(why) => reply == Err::<ImageView, Seq<char>>(
                            "decode "@ + "Responses API"@ + " image: "@ + why,
                        ),
                    },
                },
            }
        }),
{
}

/// An image of a reply is its base64 text where that is not empty, or else what
/// its URL leads to where that is not empty, with the revised prompt as its
/// caption in either case; otherwise there is none. Of a list the first image
/// counts.
pub proof fn items_give_their_data_before_their_url(response: ImagesResponse)
    ensures
        response.data@.len() == 0 ==> images_reply_of(Ok(response)) == ImageReplyView::Fault(
            "API response did not include an image."@,
        ),
        response.data@.len() > 0 ==> ({
            let item = response.data@[0];
            let reply = images_reply_of(Ok(response));
            let caption = match item.revised_prompt {
                Some(t) => Some(t@),
                None => None,
            };
            let has_data = item.b64_json is Some && item.b64_json->0@.len() > 0;
            let has_url = item.url is Some && item.url->0@.len() > 0;
            &&& has_data ==> match codec::base64_decoded(item.b64_json->0@) {
                Ok(bytes) => reply == ImageReplyView::Image(ImageView { bytes, caption }),
                Err(why) => reply == ImageReplyView::Fault("decode "@ + "API"@ + " image: "@ + why),
            }
            &&& !has_data && has_url ==> reply == url_reply(item.url->0@, caption)
            &&& !has_data && !has_url ==> reply == ImageReplyView::Fault(
                "API image item had neither b64_json nor url."@,
            )
        }),
{
}

/// A reply of an image endpoint that cannot be parsed is told of with the
/// reason.
pub proof fn unparsed_replies_are_told_of(why: String)
    ensures
        images_reply_of(Err(why)) == ImageReplyView::Fault(
            "parse "@ + "API"@ + " response: "@ + why@,
        ),
{
}

/// A URL is downloaded exactly where it does not carry its image: where it does
/// not begin with `data:` or has no comma.
pub proof fn urls_without_data_are_downloaded(
    url: Seq<char>,
    head: Seq<char>,
    payload: Seq<char>,
    caption: Option<Seq<char>>,
)
    requires
        !head.contains(','),
    ensures
        !("data:"@.is_prefix_of(url)) || !url.contains(',') ==> url_reply(url, caption)
            == (ImageReplyView::Fetch { url, caption }),
        match codec::base64_decoded(payload) {
            Ok(bytes) => url_reply("data:"@ + head + ","@ + payload, caption)
                == ImageReplyView::Image(ImageView { bytes, caption }),
            Err(why) => url_reply("data:"@ + head + ","@ + payload, caption)
                == ImageReplyView::Fault("decode data URL image: "@ + why),
        },
{
    codec::data_urls_carry_what_follows_the_comma(url, head, payload);
}

}
