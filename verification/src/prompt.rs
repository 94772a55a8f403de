//! The prompt that a message is sent as.

use vstd::prelude::*;
use vstd::string::*;
use crate::board;
use crate::board::{RefView, ResolvedRef};
use crate::skills;
use crate::text;

verus! {

/// `text` with the path of each of `refs`, one after the other, replaced by the
/// words `attached image`.
pub open spec fn without_paths(text: Seq<char>, refs: Seq<RefView>) -> Seq<char>
    decreases refs.len(),
{
    if refs.len() == 0 {
        text
    } else {
        text::replaced(
            without_paths(text, refs.drop_last()),
            refs.last().clean_rel,
            "attached image"@,
        )
    }
}

/// Whether one of `refs` has an overlay.
pub open spec fn any_overlay(refs: Seq<RefView>) -> bool {
    exists|i: int| 0 <= i < refs.len() && (#[trigger] refs[i]).overlay_rel is Some
}

/// What a prompt says of the overlays among `refs`.
pub open spec fn overlay_hint(refs: Seq<RefView>) -> Seq<char> {
    if any_overlay(refs) {
        " Some attached images contain red numbered mark overlays; use those marks only as edit instructions and do not copy the red marks into the output."@
    } else {
        Seq::empty()
    }
}

/// The request of the user as a prompt words it: what to do with the attached
/// images, and the user's text without their paths.
pub open spec fn user_request(text: Seq<char>, refs: Seq<RefView>) -> Seq<char> {
    if refs.len() == 0 {
        text
    } else {
        "Use the attached image(s) as visual reference."@ + overlay_hint(refs) + "\n\n"@
            + without_paths(text, refs)
    }
}

/// The prompt of the request `request` with the skill context `context`.
pub open spec fn prompt_text(request: Seq<char>, context: Seq<char>) -> Seq<char> {
    if context.len() == 0 {
        request
    } else if text::trimmed(request).len() == 0 {
        context
    } else {
        context + "\n\nUser request:\n"@ + request
    }
}

/// The prompt that a message with the text `text` and the images `refs` is
/// sent as, with the skill context that building one gave.
pub fn build_api_prompt(
    text: &str,
    refs: &Vec<ResolvedRef>,
    skill_context: Result<String, String>,
) -> (r: Result<String, String>)
    ensures
        skills::read_view(r) == (match skill_context {
            Ok(context) => Ok(
                prompt_text(user_request(text@, board::refs_view(refs@)), context@),
            ),
            Err(e) => Err(e@),
        }),
{
    let ghost all = board::refs_view(refs@);
    let mut cleaned = text.to_owned();
    let mut marked = false;
    let mut i: usize = 0;
    while i < refs.len()
        invariant
            i <= refs@.len(),
            all == board::refs_view(refs@),
            cleaned@ == without_paths(text@, all.take(i as int)),
            marked == any_overlay(all.take(i as int)),
        decreases refs@.len() - i,
    {
        let ghost next = all.take(i + 1);
        assert(next.drop_last() =~= all.take(i as int));
        assert(next.last() == refs@[i as int]@);
        cleaned = text::replace(cleaned.as_str(), refs[i].clean_rel.as_str(), "attached image");
        assert(any_overlay(next) == (marked || refs@[i as int].overlay_rel is Some)) by {
            if marked {
                let k = choose|k: int|
                    0 <= k < i && (#[trigger] all.take(i as int)[k]).overlay_rel is Some;
                assert(next[k].overlay_rel is Some);
            }
            if refs@[i as int].overlay_rel is Some {
                assert(next[i as int].overlay_rel is Some);
            }
            if any_overlay(next) && refs@[i as int].overlay_rel is None {
                let k = choose|k: int|
                    0 <= k < next.len() && (#[trigger] next[k]).overlay_rel is Some;
                assert(all.take(i as int)[k].overlay_rel is Some);
            }
        }
        marked = marked || refs[i].overlay_rel.is_some();
        i = i + 1;
    }
    assert(all.take(i as int) =~= all);
    if refs.len() > 0 {
        let mut worded = "Use the attached image(s) as visual reference.".to_owned();
        if marked {
            worded.append(
                " Some attached images contain red numbered mark overlays; use those marks only as edit instructions and do not copy the red marks into the output.",
            );
        }
        assert(worded@ =~= "Use the attached image(s) as visual reference."@ + overlay_hint(all));
        worded.append("\n\n");
        worded.append(cleaned.as_str());
        cleaned = worded;
    }
    let context = match skill_context {
        Ok(context) => context,
        Err(e) => {
            return Err(e);
        },
    };
    if context.as_str().is_empty() {
        Ok(cleaned)
    } else if text::trim(cleaned.as_str()).is_empty() {
        Ok(context)
    } else {
        let mut out = context;
        out.append("\n\nUser request:\n");
        out.append(cleaned.as_str());
        Ok(out)
    }
}

/// A message without images and without skills is sent as it is.
pub proof fn plain_message_is_its_own_prompt(text: Seq<char>)
    ensures
        prompt_text(user_request(text, Seq::empty()), Seq::empty()) == text,
{
}

/// Whatever a prompt is made of, the words on the attached images and the
/// user's text stand at its end, unless they are blank.
pub proof fn prompt_ends_with_the_request(request: Seq<char>, context: Seq<char>)
    requires
        !text::is_blank(request),
    ensures
        text::finishes_with(prompt_text(request, context), request),
{
    text::blank_trims_to_nothing(request);
    let all = prompt_text(request, context);
    assert(all.subrange(all.len() - request.len(), all.len() as int) =~= request);
}

/// Text that holds no path of an attached image is sent unchanged behind the
/// words on the images.
pub proof fn text_without_paths_is_kept(text: Seq<char>, refs: Seq<RefView>)
    requires
        forall|i: int|
            0 <= i < refs.len() ==> !text::holds_text(text, (#[trigger] refs[i]).clean_rel),
    ensures
        without_paths(text, refs) == text,
    decreases refs.len(),
{
    if refs.len() > 0 {
        let front = refs.drop_last();
        assert forall|i: int| 0 <= i < front.len() implies !text::holds_text(
            text,
            (#[trigger] front[i]).clean_rel,
        ) by {
            assert(refs[i] == front[i]);
        }
        text_without_paths_is_kept(text, front);
        assert(refs[refs.len() - 1] == refs.last());
        text::replacing_nothing(text, refs.last().clean_rel, "attached image"@);
    }
}

/// A request with images opens with the words on them. The sentence on red marks
/// follows exactly where one of the images has an overlay, and then, behind a
/// blank line, the user's text without the paths.
pub proof fn requests_speak_of_their_images(text: Seq<char>, refs: Seq<RefView>)
    requires
        refs.len() > 0,
    ensures
        ({
            let request = user_request(text, refs);
            let lead = "Use the attached image(s) as visual reference."@;
            let marks =
                " Some attached images contain red numbered mark overlays; use those marks only as edit instructions and do not copy the red marks into the output."@;
            let marked = exists|i: int|
                0 <= i < refs.len() && (#[trigger] refs[i]).overlay_rel is Some;
            &&& lead.is_prefix_of(request)
            &&& marked <==> text::occurs_at(request, marks, lead.len() as int)
            &&& text::finishes_with(request, "\n\n"@ + without_paths(text, refs))
            &&& request.len() == lead.len() + (if marked {
                marks.len()
            } else {
                0
            }) + 2 + without_paths(text, refs).len()
        }),
{
    reveal_strlit("\n\n");
    reveal_strlit(
        " Some attached images contain red numbered mark overlays; use those marks only as edit instructions and do not copy the red marks into the output.",
    );
    let request = user_request(text, refs);
    let lead = "Use the attached image(s) as visual reference."@;
    let marks =
        " Some attached images contain red numbered mark overlays; use those marks only as edit instructions and do not copy the red marks into the output."@;
    let tail = "\n\n"@ + without_paths(text, refs);
    assert(request =~= lead + overlay_hint(refs) + tail);
    text::occurrences_part_the_text(lead + overlay_hint(refs), tail, Seq::empty(), 0);
    assert(lead.is_prefix_of(request));
    let marked = exists|i: int| 0 <= i < refs.len() && (#[trigger] refs[i]).overlay_rel is Some;
    assert(marked == any_overlay(refs));
    if marked {
        text::occurrences_part_the_text(lead, marks, tail, 0);
    } else {
        assert(request =~= lead + tail);
        if text::occurs_at(request, marks, lead.len() as int) {
            let at = lead.len() as int;
            assert(request.subrange(at, at + marks.len())[0] == request[at]);
            assert(request[at] == '\n');
        }
    }
}

/// The first place of a path in the text gives way to `attached image`, and what
/// stands behind it is gone through in the same way.
pub proof fn paths_give_way_to_images(before: Seq<char>, image: RefView, after: Seq<char>)
    requires
        image.clean_rel.len() > 0,
        forall|j: int|
            0 <= j < before.len() ==> !text::occurs_at(
                before + image.clean_rel + after,
                image.clean_rel,
                j,
            ),
    ensures
        without_paths(before + image.clean_rel + after, seq![image]) == before + "attached image"@
            + without_paths(after, seq![image]),
{
    let path = image.clean_rel;
    let all = before + path + after;
    let n = before.len() as int;
    assert(text::occurs_at(all, path, n)) by {
        assert(all.subrange(n, n + path.len()) =~= path);
    }
    assert(text::replaced(all, path, "attached image"@) == before + "attached image"@
        + text::replaced(after, path, "attached image"@)) by {
        text::replacing_goes_from_the_left(all, path, "attached image"@, n);
        assert(all.take(n) =~= before);
        assert(all.skip(n + path.len()) =~= after);
    }
    one_image_replaces_its_path(all, image);
    one_image_replaces_its_path(after, image);
}

proof fn one_image_replaces_its_path(text: Seq<char>, image: RefView)
    ensures
        without_paths(text, seq![image]) == text::replaced(
            text,
            image.clean_rel,
            "attached image"@,
        ),
{
    assert(seq![image].drop_last() =~= Seq::<RefView>::empty());
    assert(without_paths(text, seq![image].drop_last()) == text);
}

/// Each image goes through the text in turn.
pub proof fn images_go_through_the_text_in_turn(
    text: Seq<char>,
    refs: Seq<RefView>,
    image: RefView,
)
    ensures
        without_paths(text, Seq::empty()) == text,
        without_paths(text, refs.push(image)) == without_paths(
            without_paths(text, refs),
            seq![image],
        ),
{
    assert(refs.push(image).drop_last() =~= refs);
    one_image_replaces_its_path(without_paths(text, refs), image);
}

/// A prompt is the request where there is no context, the context where the
/// request is blank, and otherwise the context, then words that announce the
/// request, then the request.
pub proof fn prompts_put_the_context_first(request: Seq<char>, context: Seq<char>)
    ensures
        context.len() == 0 ==> prompt_text(request, context) == request,
        context.len() > 0 && text::is_blank(request) ==> prompt_text(request, context) == context,
        context.len() > 0 && !text::is_blank(request) ==> ({
            let prompt = prompt_text(request, context);
            let between = "\n\nUser request:\n"@;
            &&& context.is_prefix_of(prompt)
            &&& text::occurs_at(prompt, between, context.len() as int)
            &&& request.is_suffix_of(prompt)
            &&& prompt.len() == context.len() + between.len() + request.len()
        }),
{
    text::blank_trims_to_nothing(request);
    let between = "\n\nUser request:\n"@;
    text::occurrences_part_the_text(context, between, request, 0);
    let all = context + between + request;
    assert(all.skip(all.len() - request.len()) =~= request);
}

}
