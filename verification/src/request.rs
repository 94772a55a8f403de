//! The requests to the image API: which endpoint is asked first, what is sent,
//! and what follows a failure.

use vstd::prelude::*;
use vstd::string::*;
use crate::codec;
use crate::files;
use crate::json;
use crate::json::{Json, JsonView, ObjectBuilder};
use crate::reply;
use crate::reply::{GeneratedImage, ImageView, Service};
use crate::settings;
use crate::settings::ApiImageSettings;
use crate::text;

verus! {

/// How long a request waits before it is sent again, in milliseconds.
pub const RETRY_DELAY_MS: u64 = 800;

/// The service that a model is asked through first.
pub open spec fn first_service(model: Seq<char>) -> Service {
    if settings::is_image_model(model) {
        Service::Images
    } else {
        Service::Responses
    }
}

/// What follows the outcome of a call.
#[derive(Debug)]
pub enum GenerationStep {
    /// The generation is over.
    Done(Result<GeneratedImage, String>),
    /// The other service is asked; the first one failed with this message.
    Fallback { service: Service, first_error: String },
}

/// A [`GenerationStep`], over views.
pub enum GenerationStepView {
    Done(Result<ImageView, Seq<char>>),
    Fallback { service: Service, first_error: Seq<char> },
}

impl View for GenerationStep {
    type V = GenerationStepView;

    open spec fn view(&self) -> GenerationStepView {
        match *self {
            GenerationStep::Done(r) => GenerationStepView::Done(reply::image_outcome(r)),
            GenerationStep::Fallback { service, first_error } => GenerationStepView::Fallback {
                service,
                first_error: first_error@,
            },
        }
    }
}

/// The message where a model is none of the image endpoints and the Responses
/// endpoint failed with `e`.
pub open spec fn no_fallback_message(model: Seq<char>, e: Seq<char>) -> Seq<char> {
    "Responses image generation failed: "@ + e
        + "; Image API fallback skipped because configured model \""@ + text::trimmed(model)
        + "\" is not an image endpoint model."@
}

/// The message where both services failed, the image endpoints with `first`
/// and the Responses endpoint with `second`.
pub open spec fn both_failed_message(first: Seq<char>, second: Seq<char>) -> Seq<char> {
    "Image API request failed: "@ + first + "; Responses fallback failed: "@ + second
}

/// What follows a call for `model` with the outcome `outcome`, the first call
/// where `failed` is nothing, or else the one after the first failed so.
pub open spec fn generation_step(
    model: Seq<char>,
    failed: Option<Seq<char>>,
    outcome: Result<ImageView, Seq<char>>,
) -> GenerationStepView {
    match outcome {
        Ok(image) => GenerationStepView::Done(Ok(image)),
        Err(e) => match failed {
            Some(first) => GenerationStepView::Done(Err(both_failed_message(first, e))),
            None => if settings::is_image_model(model) {
                GenerationStepView::Fallback { service: Service::Responses, first_error: e }
            } else {
                GenerationStepView::Done(Err(no_fallback_message(model, e)))
            },
        },
    }
}

/// What a generation for `model` comes to, with what the two services would
/// answer.
pub open spec fn generation_outcome(
    model: Seq<char>,
    images: Result<ImageView, Seq<char>>,
    responses: Result<ImageView, Seq<char>>,
) -> Result<ImageView, Seq<char>> {
    let answer = |service: Service|
        match service {
            Service::Images => images,
            Service::Responses => responses,
        };
    match generation_step(model, None, answer(first_service(model))) {
        GenerationStepView::Done(r) => r,
        GenerationStepView::Fallback { service, first_error } => match generation_step(
            model,
            Some(first_error),
            answer(service),
        ) {
            GenerationStepView::Done(r) => r,
            GenerationStepView::Fallback { service: _, first_error } => Err(first_error),
        },
    }
}

/// The service that a model is asked through first.
pub fn first_call(model: &str) -> (r: Service)
    ensures
        r == first_service(model@),
{
    if settings::prefers_responses_api(model) {
        Service::Responses
    } else {
        Service::Images
    }
}

/// What follows a call for `model`.
pub fn generate_image(
    model: &str,
    failed: Option<String>,
    outcome: Result<GeneratedImage, String>,
) -> (r: GenerationStep)
    ensures
        r@ == generation_step(model@, text::opt_view(failed), reply::image_outcome(outcome)),
{
    let e = match outcome {
        Ok(image) => {
            return GenerationStep::Done(Ok(image));
        },
        Err(e) => e,
    };
    match failed {
        Some(first) => {
            let mut message = "Image API request failed: ".to_owned();
            message.append(first.as_str());
            message.append("; Responses fallback failed: ");
            message.append(e.as_str());
            GenerationStep::Done(Err(message))
        },
        None => if settings::image_endpoint_model(model) {
            GenerationStep::Fallback { service: Service::Responses, first_error: e }
        } else {
            let mut message = "Responses image generation failed: ".to_owned();
            message.append(e.as_str());
            message.append("; Image API fallback skipped because configured model \"");
            message.append(text::trim(model));
            message.append("\" is not an image endpoint model.");
            GenerationStep::Done(Err(message))
        },
    }
}

/// The endpoint that a request of `images` reference images goes to.
pub open spec fn image_endpoint(images: int) -> Seq<char> {
    if images == 0 {
        "images/generations"@
    } else {
        "images/edits"@
    }
}

/// The URL that a request with `images` reference images goes to.
pub fn image_api_url(api: &ApiImageSettings, images: usize) -> (r: String)
    ensures
        r@ == settings::endpoint_url(api.base_url@, image_endpoint(images as int)),
{
    if images == 0 {
        settings::endpoint(api.base_url.as_str(), "images/generations")
    } else {
        settings::endpoint(api.base_url.as_str(), "images/edits")
    }
}

/// The URL of the Responses endpoint.
pub fn responses_url(api: &ApiImageSettings) -> (r: String)
    ensures
        r@ == settings::endpoint_url(api.base_url@, "responses"@),
{
    settings::endpoint(api.base_url.as_str(), "responses")
}

/// The body of a request for an image from `prompt` alone.
pub open spec fn generation_document(api: ApiImageSettings, prompt: Seq<char>) -> JsonView {
    JsonView::Object(
        seq![
            ("model"@, JsonView::Text(text::trimmed(api.model@))),
            ("prompt"@, JsonView::Text(prompt)),
            ("n"@, JsonView::Number("1"@)),
            ("size"@, JsonView::Text(text::trimmed(api.size@))),
        ],
    )
}

/// The body of a request for an image from `prompt` alone.
pub fn generation_body(api: &ApiImageSettings, prompt: &str) -> (r: Json)
    ensures
        r@ == generation_document(*api, prompt@),
{
    let mut b = ObjectBuilder::new();
    b.put("model", json::text_json(text::trim(api.model.as_str())));
    b.put("prompt", json::text_json(prompt));
    b.put("n", Json::Number("1".to_owned()));
    b.put("size", json::text_json(text::trim(api.size.as_str())));
    assert(JsonView::Object(b@) == generation_document(*api, prompt@)) by {
        assert(b@ =~= generation_document(*api, prompt@)->Object_0);
    }
    b.build()
}

/// The text fields of a request that edits reference images, in order.
pub fn edit_fields(api: &ApiImageSettings, prompt: &str) -> (r: Vec<(String, String)>)
    ensures
        r@.map_values(|f: (String, String)| (f.0@, f.1@)) == seq![
            ("model"@, text::trimmed(api.model@)),
            ("prompt"@, prompt@),
            ("n"@, "1"@),
            ("size"@, text::trimmed(api.size@)),
        ],
{
    let mut out: Vec<(String, String)> = Vec::new();
    out.push(("model".to_owned(), text::trim(api.model.as_str()).to_owned()));
    out.push(("prompt".to_owned(), prompt.to_owned()));
    out.push(("n".to_owned(), "1".to_owned()));
    out.push(("size".to_owned(), text::trim(api.size.as_str()).to_owned()));
    assert(out@.map_values(|f: (String, String)| (f.0@, f.1@)) =~= seq![
        ("model"@, text::trimmed(api.model@)),
        ("prompt"@, prompt@),
        ("n"@, "1"@),
        ("size"@, text::trimmed(api.size@)),
    ]);
    out
}

/// The name of the field under which each of `count` files is sent.
pub fn edit_file_field(count: usize) -> (r: &'static str)
    ensures
        r@ == (if count > 1 {
            "image[]"@
        } else {
            "image"@
        }),
{
    if count > 1 {
        "image[]"
    } else {
        "image"
    }
}

/// A file of a request.
#[derive(Debug)]
pub struct FilePart {
    pub file_name: String,
    pub mime: String,
    pub bytes: Vec<u8>,
}

/// The words `what`, the path of a file that could not be read, and the reason
/// `why`.
fn unread_file(what: &str, path: &str, why: &str) -> (r: String)
    ensures
        r@ == what@ + path@ + ": "@ + why@,
{
    let mut out = what.to_owned();
    out.append(path);
    out.append(": ");
    out.append(why);
    out
}

/// The part of a request for a file with the name `name`, the type `mime` and
/// the data `bytes`.
pub fn file_part(name: Option<String>, mime: String, bytes: Vec<u8>) -> (r: FilePart)
    ensures
        r.file_name@ == files::shown_name(text::opt_view(name)),
        r.mime == mime,
        r.bytes == bytes,
{
    FilePart { file_name: files::sent_name(name), mime, bytes }
}

/// Whether `part` is the part of a request for the file at `path` with the data
/// `bytes`.
pub open spec fn is_part_of(path: Seq<char>, bytes: Seq<u8>, part: FilePart) -> bool {
    &&& part.bytes@ == bytes
    &&& files::is_type_of(path, part.mime@)
    &&& files::is_sent_name(path, part.file_name@)
}

/// The part of a request that edits reference images for the file at `path`,
/// which gave `read` when it was read.
pub fn edit_part(path: &str, read: Result<Vec<u8>, String>) -> (r: Result<FilePart, String>)
    ensures
        match read {
            Ok(bytes) => r matches Ok(part) && is_part_of(path@, bytes@, part),
            Err(why) => r matches Err(e) && e@ == "read reference image "@ + path@ + ": "@ + why@,
        },
{
    match read {
        Ok(bytes) => {
            let name = files::path_file_name(path);
            let ghost given = text::opt_view(name);
            let part = file_part(name, files::sent_mime(path), bytes);
            assert(part.file_name@ == files::shown_name(given));
            Ok(part)
        },
        Err(why) => Err(unread_file("read reference image ", path, why.as_str())),
    }
}

/// The index of the first of `reads` that failed.
pub open spec fn first_unread(reads: Seq<Result<Vec<u8>, String>>, from: int) -> Option<int>
    decreases reads.len() - from,
{
    if from < 0 || from >= reads.len() {
        None
    } else if reads[from] is Err {
        Some(from)
    } else {
        first_unread(reads, from + 1)
    }
}

/// Whether `reads` are what the first of `count` files gave, up to the last or
/// to one that could not be read.
pub open spec fn reads_suffice(count: nat, reads: Seq<Result<Vec<u8>, String>>) -> bool {
    reads.len() == count || reads.len() < count && first_unread(reads, 0) is Some
}

/// The parts of a request that edits reference images for the files at `paths`,
/// which gave `reads`. The first file that could not be read is the one that
/// is told of; those behind it need not be read.
pub fn edit_parts(
    paths: &Vec<String>,
    reads: Vec<Result<Vec<u8>, String>>,
) -> (r: Result<Vec<FilePart>, String>)
    requires
        reads_suffice(paths@.len(), reads@),
    ensures
        match first_unread(reads@, 0) {
            None => r matches Ok(parts) && parts@.len() == paths@.len() && (forall|i: int|
                0 <= i < parts@.len() ==> is_part_of(
                    paths@[i]@,
                    reads@[i]->Ok_0@,
                    #[trigger] parts@[i],
                )),
            Some(i) => r matches Err(e) && e@ == "read reference image "@ + paths@[i]@ + ": "@
                + reads@[i]->Err_0@,
        },
{
    let ghost all = reads@;
    let n: usize = paths.len();
    let mut parts: Vec<FilePart> = Vec::new();
    let mut i: usize = 0;
    for read in it: reads
        invariant
            it.seq() == all,
            i == it.index(),
            n == paths@.len(),
            all.len() <= n,
            first_unread(all, 0) == first_unread(all, i as int),
            parts@.len() == i,
            forall|k: int|
                0 <= k < i ==> is_part_of(paths@[k]@, all[k]->Ok_0@, #[trigger] parts@[k]),
    {
        assert(read == all[i as int]);
        match edit_part(paths[i].as_str(), read) {
            Ok(part) => {
                parts.push(part);
            },
            Err(e) => {
                return Err(e);
            },
        }
        i = i + 1;
    }
    Ok(parts)
}

/// The message that the type of a file was refused, for the reason `why`.
pub fn mime_rejected(why: &str) -> (r: String)
    ensures
        r@ == "reference image MIME rejected: "@ + why@,
{
    let mut out = "reference image MIME rejected: ".to_owned();
    out.append(why);
    out
}

/// The image at `url` in a request to the Responses endpoint.
pub open spec fn image_at(url: Seq<char>) -> JsonView {
    JsonView::Object(
        seq![
            ("type"@, JsonView::Text("input_image"@)),
            ("image_url"@, JsonView::Text(url)),
        ],
    )
}

/// An image of a request to the Responses endpoint: the type `mime` and the
/// base64 text `payload`.
pub open spec fn input_image(mime: Seq<char>, payload: Seq<char>) -> JsonView {
    image_at(codec::data_url_text(mime, payload))
}

/// The image at `url` in a request to the Responses endpoint.
pub fn image_url_part(url: &str) -> (r: Json)
    ensures
        r@ == image_at(url@),
{
    let mut b = ObjectBuilder::new();
    b.put("type", json::text_json("input_image"));
    b.put("image_url", json::text_json(url));
    assert(b@ =~= image_at(url@)->Object_0);
    b.build()
}

/// The URL of the image `part` in a request to the Responses endpoint.
pub open spec fn image_url_of(part: JsonView) -> Option<Seq<char>> {
    json::text_of(json::child(part, "image_url"@))
}

/// Whether the image `part` carries `bytes`: reading its URL gives them, and
/// nothing is downloaded.
pub open spec fn carries(part: JsonView, bytes: Seq<u8>) -> bool {
    image_url_of(part) matches Some(url) && forall|caption: Option<Seq<char>>| #[trigger]
        reply::url_reply(url, caption) == reply::ImageReplyView::Image(
            ImageView { bytes, caption },
        )
}

proof fn url_of_image_at(url: Seq<char>)
    ensures
        image_url_of(image_at(url)) == Some(url),
{
    reveal_strlit("type");
    reveal_strlit("image_url");
    let fields = image_at(url)->Object_0;
    assert("type"@ != "image_url"@) by {
        assert("type"@.len() != "image_url"@.len());
    }
    assert(fields.drop_first()[0] == fields[1]);
    reveal_with_fuel(json::member, 3);
}

/// An image of a request to the Responses endpoint: the type `mime` and the
/// data `bytes`. Where the type has no comma, reading the URL of the image
/// gives `bytes` back.
pub fn image_part(mime: &str, bytes: &Vec<u8>) -> (r: Json)
    requires
        codec::is_encodable(bytes@.len()),
    ensures
        r@ == input_image(mime@, codec::base64_encoded(bytes@)),
        !mime@.contains(',') ==> carries(r@, bytes@),
{
    let url = codec::data_url(mime, bytes.as_slice());
    proof {
        url_of_image_at(url@);
    }
    image_url_part(url.as_str())
}

/// Whether `part` is the image of a request to the Responses endpoint for the
/// file at `path` with the data `bytes`.
pub open spec fn is_image_of(path: Seq<char>, bytes: Seq<u8>, part: JsonView) -> bool {
    &&& carries(part, bytes)
    &&& exists|mime: Seq<char>|
        files::is_type_of(path, mime) && part == #[trigger] input_image(
            mime,
            codec::base64_encoded(bytes),
        )
}

/// The image of a request to the Responses endpoint for the file at `path`,
/// which gave `read` when it was read. Reading the URL of the image gives the
/// data of the file back.
pub fn responses_image_part(path: &str, read: &Result<Vec<u8>, String>) -> (r: Result<Json, String>)
    requires
        *read matches Ok(bytes) ==> codec::is_encodable(bytes@.len()),
    ensures
        match *read {
            Ok(bytes) => r matches Ok(part) && is_image_of(path@, bytes@, part@),
            Err(why) => r matches Err(e) && e@ == "read response image "@ + path@ + ": "@ + why@,
        },
{
    match read {
        Ok(bytes) => {
            let mime = files::sent_mime(path);
            let part = image_part(mime.as_str(), bytes);
            assert(part@ == input_image(mime@, codec::base64_encoded(bytes@)));
            Ok(part)
        },
        Err(why) => Err(unread_file("read response image ", path, why.as_str())),
    }
}

/// The images of a request to the Responses endpoint for the files at `paths`,
/// which gave `reads`. The first file that could not be read is the one that
/// is told of; those behind it need not be read.
pub fn responses_image_parts(
    paths: &Vec<String>,
    reads: &Vec<Result<Vec<u8>, String>>,
) -> (r: Result<Vec<Json>, String>)
    requires
        reads_suffice(paths@.len(), reads@),
        forall|i: int|
            0 <= i < reads@.len() && (#[trigger] reads@[i]) is Ok ==> codec::is_encodable(
                reads@[i]->Ok_0@.len(),
            ),
    ensures
        match first_unread(reads@, 0) {
            None => r matches Ok(parts) && parts@.len() == paths@.len() && (forall|i: int|
                0 <= i < parts@.len() ==> is_image_of(
                    paths@[i]@,
                    reads@[i]->Ok_0@,
                    (#[trigger] parts@[i])@,
                )),
            Some(i) => r matches Err(e) && e@ == "read response image "@ + paths@[i]@ + ": "@
                + reads@[i]->Err_0@,
        },
{
    let mut parts: Vec<Json> = Vec::new();
    let mut i: usize = 0;
    while i < reads.len()
        invariant
            i <= reads@.len() <= paths@.len(),
            forall|k: int|
                0 <= k < reads@.len() && (#[trigger] reads@[k]) is Ok ==> codec::is_encodable(
                    reads@[k]->Ok_0@.len(),
                ),
            first_unread(reads@, 0) == first_unread(reads@, i as int),
            parts@.len() == i,
            forall|k: int|
                0 <= k < i ==> is_image_of(
                    paths@[k]@,
                    reads@[k]->Ok_0@,
                    (#[trigger] parts@[k])@,
                ),
        decreases reads@.len() - i,
    {
        match responses_image_part(paths[i].as_str(), &reads[i]) {
            Ok(part) => {
                parts.push(part);
            },
            Err(e) => {
                return Err(e);
            },
        }
        i = i + 1;
    }
    Ok(parts)
}

/// What a request to the Responses endpoint asks: the prompt, with the images
/// `images` where there are any.
pub open spec fn responses_input(prompt: Seq<char>, images: Seq<JsonView>) -> JsonView {
    if images.len() == 0 {
        JsonView::Text(prompt)
    } else {
        JsonView::Array(
            seq![
                JsonView::Object(
                    seq![
                        ("role"@, JsonView::Text("user"@)),
                        (
                            "content"@,
                            JsonView::Array(
                                seq![
                                    JsonView::Object(
                                        seq![
                                            ("type"@, JsonView::Text("input_text"@)),
                                            ("text"@, JsonView::Text(prompt)),
                                        ],
                                    ),
                                ] + images,
                            ),
                        ),
                    ],
                ),
            ],
        )
    }
}

/// The tool that a request to the Responses endpoint names.
pub open spec fn image_tool(size: Seq<char>) -> JsonView {
    let kind = ("type"@, JsonView::Text("image_generation"@));
    if text::trimmed(size).len() == 0 {
        JsonView::Object(seq![kind])
    } else {
        JsonView::Object(seq![kind, ("size"@, JsonView::Text(text::trimmed(size)))])
    }
}

/// The body of a request to the Responses endpoint.
pub open spec fn responses_document(
    api: ApiImageSettings,
    prompt: Seq<char>,
    images: Seq<JsonView>,
) -> JsonView {
    JsonView::Object(
        seq![
            ("model"@, JsonView::Text(text::trimmed(api.model@))),
            ("input"@, responses_input(prompt, images)),
            ("tools"@, JsonView::Array(seq![image_tool(api.size@)])),
            (
                "tool_choice"@,
                JsonView::Object(seq![("type"@, JsonView::Text("image_generation"@))]),
            ),
            ("store"@, JsonView::Bool(false)),
        ],
    )
}

/// What a request to the Responses endpoint asks.
fn input_of(prompt: &str, images: Vec<Json>) -> (r: Json)
    ensures
        r@ == responses_input(prompt@, json::items_view(images@)),
{
    if images.len() == 0 {
        return json::text_json(prompt);
    }
    let ghost given = json::items_view(images@);
    let mut head = ObjectBuilder::new();
    head.put("type", json::text_json("input_text"));
    head.put("text", json::text_json(prompt));
    let ghost head_view = head@;
    assert(head_view =~= seq![
        ("type"@, JsonView::Text("input_text"@)),
        ("text"@, JsonView::Text(prompt@)),
    ]);
    let mut content: Vec<Json> = Vec::new();
    content.push(head.build());
    let mut rest = images;
    content.append(&mut rest);
    assert(json::items_view(content@) =~= seq![JsonView::Object(head_view)] + given);
    let mut message = ObjectBuilder::new();
    message.put("role", json::text_json("user"));
    message.put("content", json::array_json(content));
    let ghost message_view = message@;
    assert(message_view =~= seq![
        ("role"@, JsonView::Text("user"@)),
        ("content"@, JsonView::Array(seq![JsonView::Object(head_view)] + given)),
    ]);
    let mut list: Vec<Json> = Vec::new();
    list.push(message.build());
    assert(json::items_view(list@) =~= seq![JsonView::Object(message_view)]);
    json::array_json(list)
}

/// The tool that a request to the Responses endpoint names.
fn tool_of(size: &str) -> (r: Json)
    ensures
        r@ == image_tool(size@),
{
    let size = text::trim(size);
    let mut b = ObjectBuilder::new();
    b.put("type", json::text_json("image_generation"));
    if !size.is_empty() {
        b.put("size", json::text_json(size));
    }
    proof {
        let kind = ("type"@, JsonView::Text("image_generation"@));
        if size@.len() == 0 {
            assert(b@ =~= seq![kind]);
        } else {
            assert(b@ =~= seq![kind, ("size"@, JsonView::Text(size@))]);
        }
    }
    b.build()
}

/// The body of a request to the Responses endpoint, with the images `images`.
pub fn responses_body(api: &ApiImageSettings, prompt: &str, images: Vec<Json>) -> (r: Json)
    ensures
        r@ == responses_document(*api, prompt@, json::items_view(images@)),
{
    let ghost given = json::items_view(images@);
    let mut tools: Vec<Json> = Vec::new();
    tools.push(tool_of(api.size.as_str()));
    assert(json::items_view(tools@) =~= seq![image_tool(api.size@)]);
    let mut choice = ObjectBuilder::new();
    choice.put("type", json::text_json("image_generation"));
    assert(choice@ =~= seq![("type"@, JsonView::Text("image_generation"@))]);
    let mut b = ObjectBuilder::new();
    b.put("model", json::text_json(text::trim(api.model.as_str())));
    b.put("input", input_of(prompt, images));
    b.put("tools", json::array_json(tools));
    b.put("tool_choice", choice.build());
    b.put("store", Json::Bool(false));
    assert(b@ =~= responses_document(*api, prompt@, given)->Object_0);
    b.build()
}

/// The message that a request to `service` failed, for the reason `why`.
pub fn request_failed(service: Service, why: &str) -> (r: String)
    ensures
        r@ == reply::service_text(service) + " request failed: "@ + why@,
{
    let mut out = reply::service_name(service).to_owned();
    out.append(" request failed: ");
    out.append(why);
    out
}

/// Why a request could not be sent.
#[derive(Debug)]
pub struct SendFault {
    pub is_connect: bool,
    pub is_timeout: bool,
    pub is_request: bool,
    pub message: String,
}

/// What follows a request that could not be sent.
#[derive(Debug)]
pub enum SendDecision {
    /// The request is sent again after this many milliseconds.
    RetryAfter(u64),
    /// The request has failed with this message.
    Fail(String),
}

/// The sending of a request to the Responses endpoint.
#[derive(Debug)]
pub struct ResponsesSend {
    /// Whether the request was sent a second time.
    pub retried: bool,
}

impl ResponsesSend {
    /// A request before it is sent.
    pub fn new() -> (s: ResponsesSend)
        ensures
            !s.retried,
    {
        ResponsesSend { retried: false }
    }

    /// Decides what follows a fault. A request is sent again once, and only
    /// where the fault is one of the connection, of time or of the request.
    pub fn failed(&mut self, fault: &SendFault) -> (r: SendDecision)
        ensures
            !old(self).retried && (fault.is_connect || fault.is_timeout || fault.is_request)
                ==> r == SendDecision::RetryAfter(RETRY_DELAY_MS) && final(self).retried,
            old(self).retried || !(fault.is_connect || fault.is_timeout || fault.is_request) ==> (
            r matches SendDecision::Fail(e) && e@ == reply::service_text(Service::Responses)
                + " request failed: "@ + fault.message@) && *final(self) == *old(self),
    {
        if !self.retried && (fault.is_connect || fault.is_timeout || fault.is_request) {
            self.retried = true;
            SendDecision::RetryAfter(RETRY_DELAY_MS)
        } else {
            SendDecision::Fail(request_failed(Service::Responses, fault.message.as_str()))
        }
    }
}

/// A generation succeeds exactly where the service that is asked first, or
/// behind it the fallback of an image model, gives an image.
pub proof fn generation_succeeds_with_a_service(
    model: Seq<char>,
    images: Result<ImageView, Seq<char>>,
    responses: Result<ImageView, Seq<char>>,
)
    ensures
        generation_outcome(model, images, responses) is Ok <==> (if settings::is_image_model(
            model,
        ) {
            images is Ok || responses is Ok
        } else {
            responses is Ok
        }),
        settings::is_image_model(model) && images is Ok ==> generation_outcome(
            model,
            images,
            responses,
        ) == images,
        settings::is_image_model(model) && images is Err && responses is Ok
            ==> generation_outcome(model, images, responses) == responses,
        !settings::is_image_model(model) && responses is Ok ==> generation_outcome(
            model,
            images,
            responses,
        ) == responses,
{
}

/// No more than two calls are made: what follows the fallback is the end.
pub proof fn fallback_is_the_last_call(
    model: Seq<char>,
    first: Seq<char>,
    outcome: Result<ImageView, Seq<char>>,
)
    ensures
        generation_step(model, Some(first), outcome) is Done,
{
}

/// A model of the Responses endpoint is never asked through the image
/// endpoints: what those would answer does not matter.
pub proof fn responses_models_do_not_fall_back(
    model: Seq<char>,
    images: Result<ImageView, Seq<char>>,
    other: Result<ImageView, Seq<char>>,
    responses: Result<ImageView, Seq<char>>,
)
    requires
        !settings::is_image_model(model),
    ensures
        generation_outcome(model, images, responses) == generation_outcome(model, other, responses),
{
}

/// The names of the members of requests differ.
proof fn request_names_differ()
    ensures
        "model"@ != "prompt"@,
        "model"@ != "n"@,
        "model"@ != "size"@,
        "prompt"@ != "n"@,
        "prompt"@ != "size"@,
        "n"@ != "size"@,
        "model"@ != "input"@,
        "model"@ != "tools"@,
        "model"@ != "tool_choice"@,
        "model"@ != "store"@,
        "input"@ != "tools"@,
        "input"@ != "tool_choice"@,
        "input"@ != "store"@,
        "tools"@ != "tool_choice"@,
        "tools"@ != "store"@,
        "tool_choice"@ != "store"@,
        "role"@ != "content"@,
        "type"@ != "text"@,
        "type"@ != "size"@,
{
    reveal_strlit("model");
    reveal_strlit("prompt");
    reveal_strlit("n");
    reveal_strlit("size");
    reveal_strlit("input");
    reveal_strlit("tools");
    reveal_strlit("tool_choice");
    reveal_strlit("store");
    reveal_strlit("role");
    reveal_strlit("content");
    reveal_strlit("type");
    reveal_strlit("text");
    assert("model"@.len() == 5 && "prompt"@.len() == 6 && "n"@.len() == 1 && "size"@.len() == 4);
    assert("input"@.len() == 5 && "tools"@.len() == 5 && "tool_choice"@.len() == 11);
    assert("store"@.len() == 5 && "role"@.len() == 4 && "content"@.len() == 7);
    assert("type"@.len() == 4 && "text"@.len() == 4);
    assert("model"@[0] == 'm' && "input"@[0] == 'i' && "tools"@[0] == 't' && "store"@[0] == 's');
    assert("type"@[1] == 'y' && "text"@[1] == 'e' && "size"@[0] == 's' && "type"@[0] == 't');
}

/// A request to the Responses endpoint asks with the prompt alone exactly where
/// there is no image. Otherwise one message of the user holds the prompt and,
/// behind it and in order, every image, however many there are.
pub proof fn every_image_is_in_the_request(
    api: ApiImageSettings,
    prompt: Seq<char>,
    images: Seq<JsonView>,
)
    ensures
        ({
            let input = json::child(responses_document(api, prompt, images), "input"@);
            &&& images.len() == 0 ==> input == Some(JsonView::Text(prompt))
            &&& images.len() > 0 ==> (input matches Some(JsonView::Array(messages))
                && messages.len() == 1 && json::child(messages[0], "role"@) == Some(
                JsonView::Text("user"@),
            ) && (json::child(messages[0], "content"@) matches Some(JsonView::Array(content))
                && content.len() == images.len() + 1 && json::child(content[0], "type"@) == Some(
                JsonView::Text("input_text"@),
            ) && json::child(content[0], "text"@) == Some(JsonView::Text(prompt)) && (forall|i: int|
                0 <= i < images.len() ==> #[trigger] images[i] == content[i + 1])))
        }),
{
    request_names_differ();
    let fields = responses_document(api, prompt, images)->Object_0;
    json::members_are_found_by_name(fields, 1);
    if images.len() > 0 {
        let message = fields[1].1->Array_0[0]->Object_0;
        json::members_are_found_by_name(message, 0);
        json::members_are_found_by_name(message, 1);
        let content = message[1].1->Array_0;
        let head = content[0]->Object_0;
        json::members_are_found_by_name(head, 0);
        json::members_are_found_by_name(head, 1);
    }
}

/// The images of a request give the files back that they were made of: the URL
/// of each one, read as that of a reply, gives the bytes of its file, in order.
pub proof fn sent_images_give_their_files_back(
    api: ApiImageSettings,
    prompt: Seq<char>,
    images: Seq<JsonView>,
    files: Seq<Seq<u8>>,
)
    requires
        images.len() == files.len(),
        images.len() > 0,
        forall|i: int| 0 <= i < images.len() ==> carries(#[trigger] images[i], files[i]),
    ensures
        json::child(responses_document(api, prompt, images), "input"@) matches Some(
            JsonView::Array(messages),
        ) && (json::child(messages[0], "content"@) matches Some(JsonView::Array(content))
            && content.len() == files.len() + 1 && (forall|i: int|
            1 <= i < content.len() ==> (json::child(#[trigger] content[i], "image_url"@) matches Some(
                JsonView::Text(url),
            ) && (forall|caption: Option<Seq<char>>| #[trigger]
                reply::url_reply(url, caption) == reply::ImageReplyView::Image(
                    ImageView { bytes: files[i - 1], caption },
                ))))),
{
    every_image_is_in_the_request(api, prompt, images);
    let messages = json::child(responses_document(api, prompt, images), "input"@)->0->Array_0;
    let content = json::child(messages[0], "content"@)->0->Array_0;
    assert forall|i: int| 1 <= i < content.len() implies (json::child(
        #[trigger] content[i],
        "image_url"@,
    ) matches Some(JsonView::Text(url)) && (forall|caption: Option<Seq<char>>| #[trigger]
        reply::url_reply(url, caption) == reply::ImageReplyView::Image(
            ImageView { bytes: files[i - 1], caption },
        ))) by {
        assert(images[i - 1] == content[i]);
        assert(carries(images[i - 1], files[i - 1]));
    }
}

/// A request to the Responses endpoint names the trimmed model and one tool that
/// generates images, which it must choose; the tool has a size exactly where
/// one is set. The reply is not stored.
pub proof fn responses_requests_ask_for_an_image(
    api: ApiImageSettings,
    prompt: Seq<char>,
    images: Seq<JsonView>,
)
    ensures
        ({
            let request = responses_document(api, prompt, images);
            let kind = Some(JsonView::Text("image_generation"@));
            &&& request is Object && request->Object_0.len() == 5
            &&& json::child(request, "model"@) == Some(JsonView::Text(text::trimmed(api.model@)))
            &&& json::child(request, "store"@) == Some(JsonView::Bool(false))
            &&& json::child(request, "tool_choice"@) matches Some(choice) && choice is Object
                && choice->Object_0.len() == 1 && json::child(choice, "type"@) == kind
            &&& json::child(request, "tools"@) matches Some(JsonView::Array(tools)) && tools.len()
                == 1 && tools[0] is Object && json::child(tools[0], "type"@) == kind && (
            text::is_blank(api.size@) ==> tools[0]->Object_0.len() == 1) && (!text::is_blank(
                api.size@,
            ) ==> tools[0]->Object_0.len() == 2 && json::child(tools[0], "size"@) == Some(
                JsonView::Text(text::trimmed(api.size@)),
            ))
        }),
{
    request_names_differ();
    text::blank_trims_to_nothing(api.size@);
    let fields = responses_document(api, prompt, images)->Object_0;
    json::members_are_found_by_name(fields, 0);
    json::members_are_found_by_name(fields, 2);
    json::members_are_found_by_name(fields, 3);
    json::members_are_found_by_name(fields, 4);
    json::members_are_found_by_name(fields[3].1->Object_0, 0);
    let tool = fields[2].1->Array_0[0]->Object_0;
    json::members_are_found_by_name(tool, 0);
    if tool.len() == 2 {
        json::members_are_found_by_name(tool, 1);
    }
}

/// A request for an image from a prompt alone holds the trimmed model, the
/// prompt as it is, the number 1 and the trimmed size, and nothing else.
pub proof fn generation_requests_hold_the_prompt(api: ApiImageSettings, prompt: Seq<char>)
    ensures
        ({
            let request = generation_document(api, prompt);
            &&& request is Object && request->Object_0.len() == 4
            &&& json::child(request, "model"@) == Some(JsonView::Text(text::trimmed(api.model@)))
            &&& json::child(request, "prompt"@) == Some(JsonView::Text(prompt))
            &&& json::child(request, "n"@) == Some(JsonView::Number("1"@))
            &&& json::child(request, "size"@) == Some(JsonView::Text(text::trimmed(api.size@)))
        }),
{
    request_names_differ();
    let fields = generation_document(api, prompt)->Object_0;
    json::members_are_found_by_name(fields, 0);
    json::members_are_found_by_name(fields, 1);
    json::members_are_found_by_name(fields, 2);
    json::members_are_found_by_name(fields, 3);
}

/// An image of a request says what it is and where it is: in a data URL of its
/// type and its base64 text.
pub proof fn image_parts_hold_a_data_url(mime: Seq<char>, payload: Seq<char>)
    ensures
        ({
            let part = input_image(mime, payload);
            &&& part is Object && part->Object_0.len() == 2
            &&& json::child(part, "type"@) == Some(JsonView::Text("input_image"@))
            &&& json::child(part, "image_url"@) == Some(
                JsonView::Text("data:"@ + mime + ";base64,"@ + payload),
            )
        }),
{
    let fields = input_image(mime, payload)->Object_0;
    reveal_strlit("type");
    reveal_strlit("image_url");
    assert("type"@.len() == 4 && "image_url"@.len() == 9);
    json::members_are_found_by_name(fields, 0);
    json::members_are_found_by_name(fields, 1);
}

/// A request goes to the generations where it has no image, and to the edits
/// where it has any.
pub proof fn requests_with_images_are_edits(images: int)
    ensures
        images == 0 ==> image_endpoint(images) == "images/generations"@,
        images != 0 ==> image_endpoint(images) == "images/edits"@,
{
}

/// A model is asked through the image endpoints first exactly where its name, in
/// lower case and without the white space around it, holds the letters `image`
/// or begins with `dall-e`; any other one is asked through the Responses
/// endpoint.
pub proof fn names_choose_the_first_service(model: Seq<char>)
    ensures
        ({
            let m = text::ascii_lowered(text::trimmed(model));
            let by_name = (exists|i: int|
                0 <= i && i + 5 <= m.len() && #[trigger] m[i] == 'i' && m[i + 1] == 'm' && m[i + 2]
                    == 'a' && m[i + 3] == 'g' && m[i + 4] == 'e') || (m.len() >= 6 && m[0] == 'd'
                && m[1] == 'a' && m[2] == 'l' && m[3] == 'l' && m[4] == '-' && m[5] == 'e');
            &&& by_name ==> first_service(model) == Service::Images
            &&& !by_name ==> first_service(model) == Service::Responses
        }),
{
    settings::image_models_are_known_by_their_letters(model);
}

/// A generation that fails tells why: of an image model what both services said,
/// of any other what the Responses endpoint said and that there is no fallback.
pub proof fn failed_generations_tell_why(
    model: Seq<char>,
    images: Seq<char>,
    responses: Seq<char>,
)
    ensures
        ({
            let outcome = generation_outcome(model, Err(images), Err(responses));
            &&& first_service(model) == Service::Images ==> outcome == Err::<ImageView, Seq<char>>(
                "Image API request failed: "@ + images + "; Responses fallback failed: "@
                    + responses,
            )
            &&& first_service(model) == Service::Responses ==> outcome == Err::<
                ImageView,
                Seq<char>,
            >(
                "Responses image generation failed: "@ + responses
                    + "; Image API fallback skipped because configured model \""@ + text::trimmed(
                    model,
                ) + "\" is not an image endpoint model."@,
            )
        }),
{
}

/// A generation goes on after its first call exactly where that call fails and
/// was made through the image endpoints; then the Responses endpoint is asked.
pub proof fn failures_of_image_endpoints_fall_back(
    model: Seq<char>,
    outcome: Result<ImageView, Seq<char>>,
)
    ensures
        generation_step(model, None, outcome) is Fallback <==> outcome is Err && first_service(
            model,
        ) == Service::Images,
        outcome matches Err(e) ==> first_service(model) == Service::Images ==> generation_step(
            model,
            None,
            outcome,
        ) == (GenerationStepView::Fallback { service: Service::Responses, first_error: e }),
        outcome matches Ok(image) ==> generation_step(model, None, outcome)
            == GenerationStepView::Done(Ok(image)),
{
}

/// The file that is told of is the first one that could not be read.
pub proof fn the_first_unread_file_is_found(reads: Seq<Result<Vec<u8>, String>>, from: int)
    requires
        0 <= from,
    ensures
        first_unread(reads, from) matches Some(i) ==> from <= i < reads.len() && reads[i] is Err
            && (forall|k: int| from <= k < i ==> (#[trigger] reads[k]) is Ok),
        first_unread(reads, from) is None ==> forall|k: int|
            from <= k < reads.len() ==> (#[trigger] reads[k]) is Ok,
    decreases reads.len() - from,
{
    if from < reads.len() && reads[from] is Ok {
        the_first_unread_file_is_found(reads, from + 1);
    }
}

}
