//! Skills: the local instruction files that a message may name, and the
//! context that a prompt takes from them.

use vstd::prelude::*;
use vstd::string::*;
use vstd::utf8::*;
use crate::text;

verus! {

/// The number of bytes beyond which a skill context is cut.
pub const MAX_API_SKILL_CONTEXT_CHARS: usize = 12_000;

/// The number of bytes beyond which the body of one skill is cut.
pub const MAX_API_SKILL_BODY_CHARS: usize = 9_000;

/// A skill that a message names: its name and the path of its file.
#[derive(Debug)]
pub struct SkillInputRef {
    pub name: String,
    pub path: String,
}

/// `parts` put together with `sep` between each two neighbours.
pub open spec fn joined(parts: Seq<Seq<char>>, sep: Seq<char>) -> Seq<char>
    decreases parts.len(),
{
    if parts.len() == 0 {
        Seq::empty()
    } else if parts.len() == 1 {
        parts[0]
    } else {
        joined(parts.drop_last(), sep) + sep + parts.last()
    }
}

/// The names of `skills`, in order.
pub open spec fn skill_names(skills: Seq<SkillInputRef>) -> Seq<Seq<char>> {
    skills.map_values(|s: SkillInputRef| s.name@)
}

/// The line that tells which skills a message names.
pub open spec fn skill_line(skills: Seq<SkillInputRef>) -> Seq<char> {
    "Skills: "@ + joined(skill_names(skills), ", "@)
}

/// What the timeline shows for a message.
pub open spec fn displayed_text(text: Seq<char>, skills: Seq<SkillInputRef>) -> Seq<char> {
    if skills.len() == 0 {
        text
    } else if text::trimmed(text).len() == 0 {
        skill_line(skills)
    } else {
        text + "\n\n"@ + skill_line(skills)
    }
}

/// `body` without the front matter between its opening `---` line and the next
/// line that begins with `---`; all of `body` where either is missing.
pub open spec fn without_frontmatter(body: Seq<char>) -> Seq<char> {
    if text::begins_with(body, "---\n"@) {
        let rest = body.skip("---\n"@.len() as int);
        match text::first_match(rest, "\n---"@, 0) {
            Some(end) => text::without_leading(rest.skip(end + "\n---"@.len()), '\n'),
            None => body,
        }
    } else {
        body
    }
}

/// The section of `body` from the first occurrence of `heading` up to the next
/// second-level heading behind it.
pub open spec fn section(body: Seq<char>, heading: Seq<char>) -> Option<Seq<char>> {
    match text::first_match(body, heading, 0) {
        None => None,
        Some(start) => {
            let next = match text::first_match(body, "\n## "@, start + heading.len()) {
                Some(i) => i,
                None => body.len() as int,
            };
            Some(body.subrange(start, next))
        },
    }
}

/// The headings whose sections a long skill keeps, in order.
pub open spec fn kept_headings() -> Seq<Seq<char>> {
    seq![
        "## Goal"@,
        "## Workflow"@,
        "## Realism Hard Constraints"@,
        "## Variation System"@,
        "## Scene Presets"@,
        "## Prompt Template"@,
        "## Negative Prompt"@,
    ]
}

/// The trimmed sections of `body` under `headings`, in the order of `headings`,
/// with a blank line between each two.
pub open spec fn sections(body: Seq<char>, headings: Seq<Seq<char>>) -> Seq<char>
    decreases headings.len(),
{
    if headings.len() == 0 {
        Seq::empty()
    } else {
        let before = sections(body, headings.drop_last());
        match section(body, headings.last()) {
            None => before,
            Some(found) => if before.len() == 0 {
                text::trimmed(found)
            } else {
                before + "\n\n"@ + text::trimmed(found)
            },
        }
    }
}

/// What is kept of a long skill before it is cut: its known sections, or its
/// beginning where it has none of them.
pub open spec fn kept_text(stripped: Seq<char>) -> Seq<char> {
    let kept = sections(stripped, kept_headings());
    if kept.len() == 0 {
        text::at_most(stripped, MAX_API_SKILL_BODY_CHARS as nat)
    } else {
        kept
    }
}

/// The number of bytes that encode `s`.
pub open spec fn bytes(s: Seq<char>) -> nat {
    encode_utf8(s).len()
}

/// The instructions of a skill file: the trimmed text behind its front matter.
pub open spec fn instructions(body: Seq<char>) -> Seq<char> {
    text::trimmed(without_frontmatter(body))
}

/// Whether a skill body needs no cut, or one that leaves whole characters.
pub open spec fn compactable(body: Seq<char>) -> bool {
    ||| bytes(instructions(body)) <= MAX_API_SKILL_BODY_CHARS
    ||| bytes(kept_text(instructions(body))) <= MAX_API_SKILL_BODY_CHARS
    ||| text::cuts_cleanly(kept_text(instructions(body)), MAX_API_SKILL_BODY_CHARS as int)
}

/// What a prompt takes of a skill body.
pub open spec fn compacted(body: Seq<char>) -> Seq<char> {
    let stripped = instructions(body);
    let kept = kept_text(stripped);
    if bytes(stripped) <= MAX_API_SKILL_BODY_CHARS {
        stripped
    } else if bytes(kept) <= MAX_API_SKILL_BODY_CHARS {
        kept
    } else {
        text::byte_cut(kept, MAX_API_SKILL_BODY_CHARS as int) + "\n...[skill body truncated]"@
    }
}

/// The names of `skills` with `sep` between each two neighbours.
fn join_names(skills: &Vec<SkillInputRef>, sep: &str) -> (r: String)
    ensures
        r@ == joined(skill_names(skills@), sep@),
{
    let mut out = String::new();
    let mut i: usize = 0;
    let ghost names = skill_names(skills@);
    while i < skills.len()
        invariant
            i <= skills@.len(),
            names == skill_names(skills@),
            out@ =~= joined(names.take(i as int), sep@),
        decreases skills@.len() - i,
    {
        assert(names.take(i + 1).drop_last() =~= names.take(i as int));
        if i > 0 {
            out.append(sep);
        }
        out.append(skills[i].name.as_str());
        i = i + 1;
    }
    assert(names.take(i as int) =~= names);
    out
}

/// What the timeline shows for a message: its text, and behind a blank line
/// the skills that it names.
pub fn display_user_text(text: &str, skills: &Vec<SkillInputRef>) -> (r: String)
    ensures
        r@ == displayed_text(text@, skills@),
{
    if skills.len() == 0 {
        return text.to_owned();
    }
    let mut line = "Skills: ".to_owned();
    let names = join_names(skills, ", ");
    line.append(names.as_str());
    if text::trim(text).is_empty() {
        line
    } else {
        let mut out = text.to_owned();
        out.append("\n\n");
        out.append(line.as_str());
        out
    }
}

/// `body` without its front matter.
pub fn strip_frontmatter<'a>(body: &'a str) -> (r: &'a str)
    ensures
        r@ == without_frontmatter(body@),
{
    let fence = text::chars_of("---\n");
    let v = text::chars_of(body);
    if !text::matches_at(&v, &fence, 0) {
        return body;
    }
    let rest = body.substring_char(fence.len(), v.len());
    assert(rest@ =~= body@.skip("---\n"@.len() as int));
    let close = text::chars_of("\n---");
    let tail = text::chars_of(rest);
    match text::find_from(&tail, &close, 0) {
        Some(end) => {
            let after = rest.substring_char(end + close.len(), tail.len());
            assert(after@ =~= rest@.skip(end + "\n---"@.len()));
            text::trim_start_matches(after, '\n')
        },
        None => body,
    }
}

/// The section of `body` under `heading`, heading and all.
pub fn markdown_section<'a>(body: &'a str, heading: &str) -> (r: Option<&'a str>)
    ensures
        (match r {
            Some(t) => Some(t@),
            None => None,
        }) == section(body@, heading@),
{
    let v = text::chars_of(body);
    let h = text::chars_of(heading);
    let start: usize = match text::find_from(&v, &h, 0) {
        Some(start) => start,
        None => {
            return None;
        },
    };
    let next: usize = match text::find_from(&v, &text::chars_of("\n## "), start + h.len()) {
        Some(next) => next,
        None => v.len(),
    };
    Some(body.substring_char(start, next))
}

/// The headings whose sections a long skill keeps, in order.
fn headings() -> (v: Vec<&'static str>)
    ensures
        v@.map_values(|h: &str| h@) == kept_headings(),
{
    let v: Vec<&'static str> = vec![
        "## Goal",
        "## Workflow",
        "## Realism Hard Constraints",
        "## Variation System",
        "## Scene Presets",
        "## Prompt Template",
        "## Negative Prompt",
    ];
    assert(v@.map_values(|h: &str| h@) =~= kept_headings());
    v
}

/// The known sections of `stripped`, or its beginning where it has none.
fn select_sections(stripped: &str) -> (r: String)
    ensures
        r@ == kept_text(stripped@),
{
    let hs = headings();
    let ghost all = kept_headings();
    let mut kept = String::new();
    let mut i: usize = 0;
    while i < hs.len()
        invariant
            i <= hs@.len(),
            all == hs@.map_values(|h: &str| h@),
            kept@ =~= sections(stripped@, all.take(i as int)),
        decreases hs@.len() - i,
    {
        assert(all.take(i + 1).drop_last() =~= all.take(i as int));
        if let Some(found) = markdown_section(stripped, hs[i]) {
            if !kept.as_str().is_empty() {
                kept.append("\n\n");
            }
            kept.append(text::trim(found));
        }
        i = i + 1;
    }
    assert(all.take(i as int) =~= all);
    if kept.as_str().is_empty() {
        text::take_chars(stripped, MAX_API_SKILL_BODY_CHARS).to_owned()
    } else {
        kept
    }
}

/// Whether [`compact_skill_body`] takes `body`: whether the cut that it may
/// need leaves whole characters.
pub fn can_compact(body: &str) -> (b: bool)
    ensures
        b == compactable(body@),
{
    let stripped = text::trim(strip_frontmatter(body));
    if text::byte_len(stripped) <= MAX_API_SKILL_BODY_CHARS {
        return true;
    }
    let kept = select_sections(stripped);
    text::byte_len(kept.as_str()) <= MAX_API_SKILL_BODY_CHARS || text::splits_at(
        kept.as_str(),
        MAX_API_SKILL_BODY_CHARS,
    )
}

/// What a prompt takes of a skill body: all of a short one, the known sections
/// of a long one, and no more than the limit in either case.
pub fn compact_skill_body(body: &str) -> (r: String)
    requires
        compactable(body@),
    ensures
        r@ == compacted(body@),
{
    let stripped = text::trim(strip_frontmatter(body));
    if text::byte_len(stripped) <= MAX_API_SKILL_BODY_CHARS {
        return stripped.to_owned();
    }
    let kept = select_sections(stripped);
    if text::byte_len(kept.as_str()) > MAX_API_SKILL_BODY_CHARS {
        let mut out = text::byte_prefix(kept.as_str(), MAX_API_SKILL_BODY_CHARS).to_owned();
        out.append("\n...[skill body truncated]");
        out
    } else {
        kept
    }
}

/// The words that open a skill context.
pub open spec fn context_intro() -> Seq<char> {
    "Apply the following selected local Codex Skill instructions to this image generation request. Because this request is executed through a direct image API, convert prompt-writing workflows into final image-generation constraints. Generate the requested image directly; do not answer with a prompt template, analysis, or checklist unless the user explicitly asks for text.\n"@
}

/// What one skill with the file text `body` adds to a context.
pub open spec fn skill_block(skill: SkillInputRef, body: Seq<char>) -> Seq<char> {
    "\n<skill name=\""@ + skill.name@ + "\" path=\""@ + skill.path@ + "\">\n"@ + text::trimmed(
        compacted(body),
    ) + "\n</skill>\n"@
}

/// The message for a skill whose file could not be read, for the reason `why`.
pub open spec fn unread_skill(skill: SkillInputRef, why: Seq<char>) -> Seq<char> {
    "read skill "@ + skill.name@ + " at "@ + skill.path@ + ": "@ + why
}

/// What reading a file gave, over views.
pub open spec fn read_view(read: Result<String, String>) -> Result<Seq<char>, Seq<char>> {
    match read {
        Ok(body) => Ok(body@),
        Err(why) => Err(why@),
    }
}

/// A skill context under construction.
pub struct ContextView {
    /// The context so far.
    pub text: Seq<char>,
    /// The number of skills that were added or refused.
    pub next: int,
    /// The number of skills that the message names.
    pub total: int,
    /// Whether the context was cut.
    pub cut: bool,
    /// The message of the skill that could not be read.
    pub failure: Option<Seq<char>>,
}

/// The context of a message with `total` skills before any was added.
pub open spec fn context_start(total: int) -> ContextView {
    ContextView {
        text: if total == 0 {
            Seq::empty()
        } else {
            context_intro()
        },
        next: 0,
        total,
        cut: false,
        failure: None,
    }
}

/// Whether another skill is still to be read.
pub open spec fn context_pending(c: ContextView) -> bool {
    c.next < c.total && !c.cut && c.failure is None
}

/// Whether the cuts that adding `skill` may need leave whole characters.
pub open spec fn context_takes(
    c: ContextView,
    skill: SkillInputRef,
    read: Result<Seq<char>, Seq<char>>,
) -> bool {
    match read {
        Ok(body) => {
            let grown = c.text + skill_block(skill, body);
            &&& compactable(body)
            &&& bytes(grown) < MAX_API_SKILL_CONTEXT_CHARS || text::cuts_cleanly(
                grown,
                MAX_API_SKILL_CONTEXT_CHARS as int,
            )
        },
        Err(_) => true,
    }
}

/// The context after `skill`, whose file gave `read`.
pub open spec fn context_step(
    c: ContextView,
    skill: SkillInputRef,
    read: Result<Seq<char>, Seq<char>>,
) -> ContextView {
    match read {
        Err(why) => ContextView {
            next: c.next + 1,
            failure: Some(unread_skill(skill, why)),
            ..c
        },
        Ok(body) => {
            let grown = c.text + skill_block(skill, body);
            if bytes(grown) < MAX_API_SKILL_CONTEXT_CHARS {
                ContextView { text: grown, next: c.next + 1, ..c }
            } else {
                ContextView {
                    text: text::byte_cut(grown, MAX_API_SKILL_CONTEXT_CHARS as int)
                        + "\n...[skill context truncated]\n"@,
                    next: c.next + 1,
                    cut: true,
                    ..c
                }
            }
        },
    }
}

/// What a context gives in the end: its text, or the message of the skill that
/// could not be read.
pub open spec fn context_outcome(c: ContextView) -> Result<Seq<char>, Seq<char>> {
    match c.failure {
        Some(message) => Err(message),
        None => Ok(c.text),
    }
}

/// The context `c` after as many of `skills` as are pending and have their
/// file's reading in `reads`.
pub open spec fn context_run(
    c: ContextView,
    skills: Seq<SkillInputRef>,
    reads: Seq<Result<String, String>>,
) -> ContextView
    decreases c.total - c.next,
{
    if context_pending(c) && 0 <= c.next < reads.len() {
        context_run(
            context_step(c, skills[c.next], read_view(reads[c.next])),
            skills,
            reads,
        )
    } else {
        c
    }
}

/// Whether every cut on the way of [`context_run`] leaves whole characters.
pub open spec fn context_run_takes(
    c: ContextView,
    skills: Seq<SkillInputRef>,
    reads: Seq<Result<String, String>>,
) -> bool
    decreases c.total - c.next,
{
    if context_pending(c) && 0 <= c.next < reads.len() {
        &&& context_takes(c, skills[c.next], read_view(reads[c.next]))
        &&& context_run_takes(
            context_step(c, skills[c.next], read_view(reads[c.next])),
            skills,
            reads,
        )
    } else {
        true
    }
}

/// A skill context under construction. Files are read one at a time, and only
/// while [`SkillContext::pending`] asks for one.
pub struct SkillContext {
    text: String,
    next: usize,
    total: usize,
    cut: bool,
    failure: Option<String>,
}

impl View for SkillContext {
    type V = ContextView;

    closed spec fn view(&self) -> ContextView {
        ContextView {
            text: self.text@,
            next: self.next as int,
            total: self.total as int,
            cut: self.cut,
            failure: match self.failure {
                Some(message) => Some(message@),
                None => None,
            },
        }
    }
}

impl SkillContext {
    /// The context of a message that names `total` skills.
    pub fn new(total: usize) -> (c: SkillContext)
        ensures
            c@ == context_start(total as int),
    {
        let text = if total == 0 {
            String::new()
        } else {
            "Apply the following selected local Codex Skill instructions to this image generation request. Because this request is executed through a direct image API, convert prompt-writing workflows into final image-generation constraints. Generate the requested image directly; do not answer with a prompt template, analysis, or checklist unless the user explicitly asks for text.\n".to_owned()
        };
        SkillContext { text, next: 0, total, cut: false, failure: None }
    }

    /// The index of the skill whose file is to be read next, if one is.
    pub fn pending(&self) -> (r: Option<usize>)
        ensures
            r is Some <==> context_pending(self@),
            r matches Some(i) ==> i == self@.next && i < self@.total,
    {
        if self.next < self.total && !self.cut && self.failure.is_none() {
            Some(self.next)
        } else {
            None
        }
    }

    /// The text that the context grows to with `skill`, whose file holds `body`.
    fn grown(&self, skill: &SkillInputRef, body: &str) -> (r: String)
        requires
            compactable(body@),
        ensures
            r@ == self@.text + skill_block(*skill, body@),
    {
        let compact = compact_skill_body(body);
        let mut out = self.text.clone();
        out.append("\n<skill name=\"");
        out.append(skill.name.as_str());
        out.append("\" path=\"");
        out.append(skill.path.as_str());
        out.append("\">\n");
        out.append(text::trim(compact.as_str()));
        out.append("\n</skill>\n");
        assert(out@ =~= self.text@ + skill_block(*skill, body@));
        out
    }

    /// Whether [`SkillContext::supply`] takes `skill` with `read`: whether the
    /// cuts that it may need leave whole characters.
    pub fn takes(&self, skill: &SkillInputRef, read: &Result<String, String>) -> (b: bool)
        ensures
            b == context_takes(self@, *skill, read_view(*read)),
    {
        match read {
            Ok(body) => {
                if !can_compact(body.as_str()) {
                    return false;
                }
                let grown = self.grown(skill, body.as_str());
                text::byte_len(grown.as_str()) < MAX_API_SKILL_CONTEXT_CHARS || text::splits_at(
                    grown.as_str(),
                    MAX_API_SKILL_CONTEXT_CHARS,
                )
            },
            Err(_) => true,
        }
    }

    /// Adds the pending skill, whose file gave `read`: its text, or the reason
    /// why it could not be read.
    pub fn supply(&mut self, skill: &SkillInputRef, read: &Result<String, String>)
        requires
            context_pending(old(self)@),
            context_takes(old(self)@, *skill, read_view(*read)),
        ensures
            final(self)@ == context_step(old(self)@, *skill, read_view(*read)),
    {
        match read {
            Ok(body) => {
                let mut grown = self.grown(skill, body.as_str());
                if text::byte_len(grown.as_str()) >= MAX_API_SKILL_CONTEXT_CHARS {
                    let mut head = text::byte_prefix(
                        grown.as_str(),
                        MAX_API_SKILL_CONTEXT_CHARS,
                    ).to_owned();
                    head.append("\n...[skill context truncated]\n");
                    grown = head;
                    self.cut = true;
                }
                self.text = grown;
            },
            Err(why) => {
                let mut message = "read skill ".to_owned();
                message.append(skill.name.as_str());
                message.append(" at ");
                message.append(skill.path.as_str());
                message.append(": ");
                message.append(why.as_str());
                self.failure = Some(message);
            },
        }
        self.next = self.next + 1;
    }

    /// What the context gives in the end.
    pub fn finish(self) -> (r: Result<String, String>)
        ensures
            read_view(r) == context_outcome(self@),
    {
        match self.failure {
            Some(message) => Err(message),
            None => Ok(self.text),
        }
    }
}

/// The context of `skills`, whose files gave `reads`. Readings behind the first
/// one that fails, or behind the one that fills the context, count for nothing.
pub fn build_skill_context(
    skills: &Vec<SkillInputRef>,
    reads: &Vec<Result<String, String>>,
) -> (r: Result<String, String>)
    requires
        reads@.len() == skills@.len(),
        context_run_takes(context_start(skills@.len() as int), skills@, reads@),
    ensures
        read_view(r) == context_outcome(
            context_run(context_start(skills@.len() as int), skills@, reads@),
        ),
{
    let mut context = SkillContext::new(skills.len());
    let ghost start = context@;
    loop
        invariant
            reads@.len() == skills@.len(),
            context@.total == skills@.len(),
            0 <= context@.next,
            start == context_start(skills@.len() as int),
            context_run(start, skills@, reads@) == context_run(context@, skills@, reads@),
            context_run_takes(context@, skills@, reads@),
        ensures
            !context_pending(context@),
        decreases context@.total - context@.next,
    {
        match context.pending() {
            Some(i) => {
                context.supply(&skills[i], &reads[i]);
            },
            None => {
                break;
            },
        }
    }
    context.finish()
}

/// Once a context asks for no further file, readings that it did not ask for
/// change nothing.
pub proof fn unread_files_do_not_matter(
    c: ContextView,
    skills: Seq<SkillInputRef>,
    reads: Seq<Result<String, String>>,
    more: Seq<Result<String, String>>,
)
    requires
        !context_pending(context_run(c, skills, reads)),
    ensures
        context_run(c, skills, reads + more) == context_run(c, skills, reads),
    decreases c.total - c.next,
{
    if context_pending(c) && 0 <= c.next < reads.len() {
        assert((reads + more)[c.next] == reads[c.next]);
        unread_files_do_not_matter(
            context_step(c, skills[c.next], read_view(reads[c.next])),
            skills,
            reads,
            more,
        );
    }
}

/// What a prompt takes of a skill body is no longer than the limit and the
/// words that mark a cut.
pub proof fn compacted_body_is_bounded(body: Seq<char>)
    requires
        compactable(body),
    ensures
        bytes(compacted(body)) <= MAX_API_SKILL_BODY_CHARS + bytes(
            "\n...[skill body truncated]"@,
        ),
{
    let kept = kept_text(instructions(body));
    if bytes(instructions(body)) > MAX_API_SKILL_BODY_CHARS && bytes(kept)
        > MAX_API_SKILL_BODY_CHARS {
        text::clean_cut_is_a_prefix(kept, MAX_API_SKILL_BODY_CHARS as int);
        text::encoding_of_concat(
            text::byte_cut(kept, MAX_API_SKILL_BODY_CHARS as int),
            "\n...[skill body truncated]"@,
        );
    }
}

/// A context that has taken a skill is shorter than the limit, or it was cut
/// to the limit and ends with the words that mark the cut.
pub proof fn context_step_is_bounded(
    c: ContextView,
    skill: SkillInputRef,
    read: Result<Seq<char>, Seq<char>>,
)
    requires
        context_pending(c),
        context_takes(c, skill, read),
        read is Ok,
    ensures
        !context_step(c, skill, read).cut ==> bytes(context_step(c, skill, read).text)
            < MAX_API_SKILL_CONTEXT_CHARS,
        context_step(c, skill, read).cut ==> bytes(context_step(c, skill, read).text)
            == MAX_API_SKILL_CONTEXT_CHARS + bytes("\n...[skill context truncated]\n"@),
{
    let grown = c.text + skill_block(skill, read->Ok_0);
    if bytes(grown) >= MAX_API_SKILL_CONTEXT_CHARS {
        text::clean_cut_is_a_prefix(grown, MAX_API_SKILL_CONTEXT_CHARS as int);
        text::encoding_of_concat(
            text::byte_cut(grown, MAX_API_SKILL_CONTEXT_CHARS as int),
            "\n...[skill context truncated]\n"@,
        );
    }
}

/// The context of a message that names skills is no longer than the limit and
/// the words that mark a cut.
pub proof fn context_is_bounded(skills: Seq<SkillInputRef>, reads: Seq<Result<String, String>>)
    requires
        skills.len() > 0,
        reads.len() == skills.len(),
        context_run_takes(context_start(skills.len() as int), skills, reads),
    ensures
        context_outcome(context_run(context_start(skills.len() as int), skills, reads)) matches Ok(t)
            ==> bytes(t) <= MAX_API_SKILL_CONTEXT_CHARS + bytes(
            "\n...[skill context truncated]\n"@,
        ),
{
    let c = context_start(skills.len() as int);
    let read = read_view(reads[0]);
    if read is Ok {
        context_step_is_bounded(c, skills[0], read);
    }
    context_run_is_bounded(context_step(c, skills[0], read), skills, reads);
}

proof fn context_run_is_bounded(
    c: ContextView,
    skills: Seq<SkillInputRef>,
    reads: Seq<Result<String, String>>,
)
    requires
        context_run_takes(c, skills, reads),
        c.failure is None ==> bytes(c.text) <= MAX_API_SKILL_CONTEXT_CHARS + bytes(
            "\n...[skill context truncated]\n"@,
        ),
    ensures
        context_run(c, skills, reads).failure is None ==> bytes(context_run(c, skills, reads).text)
            <= MAX_API_SKILL_CONTEXT_CHARS + bytes("\n...[skill context truncated]\n"@),
    decreases c.total - c.next,
{
    if context_pending(c) && 0 <= c.next < reads.len() {
        let read = read_view(reads[c.next]);
        if read is Ok {
            context_step_is_bounded(c, skills[c.next], read);
        }
        context_run_is_bounded(context_step(c, skills[c.next], read), skills, reads);
    }
}

/// One more skill adds its name behind those that the timeline shows.
pub proof fn shown_messages_list_their_skills(
    text: Seq<char>,
    skills: Seq<SkillInputRef>,
    skill: SkillInputRef,
)
    ensures
        displayed_text(text, Seq::empty()) == text,
        text::is_blank(text) ==> displayed_text(text, seq![skill]) == "Skills: "@ + skill.name@,
        !text::is_blank(text) ==> displayed_text(text, seq![skill]) == text + "\n\n"@ + (
        "Skills: "@ + skill.name@),
        skills.len() > 0 ==> displayed_text(text, skills.push(skill)) == displayed_text(
            text,
            skills,
        ) + ", "@ + skill.name@,
{
    text::blank_trims_to_nothing(text);
    assert(skill_names(seq![skill]) =~= seq![skill.name@]);
    if skills.len() > 0 {
        let names = skill_names(skills.push(skill));
        assert(names.drop_last() =~= skill_names(skills));
        assert(names.last() == skill.name@);
        assert(names.len() == skills.len() + 1);
        assert(displayed_text(text, skills.push(skill)) =~= displayed_text(text, skills) + ", "@
            + skill.name@);
    }
}

/// What stands between an opening line of three dashes and the next line that
/// begins so is left out, with the line breaks behind it.
pub proof fn front_matter_is_left_out(front: Seq<char>, rest: Seq<char>)
    requires
        forall|j: int|
            0 <= j < front.len() ==> !text::occurs_at(front + "\n---"@ + rest, "\n---"@, j),
    ensures
        without_frontmatter("---\n"@ + (front + "\n---"@ + rest)) == text::without_leading(
            rest,
            '\n',
        ),
{
    let inner = front + "\n---"@ + rest;
    let n = front.len() as int;
    assert(inner.subrange(n, n + "\n---"@.len()) =~= "\n---"@);
    assert(inner.skip(n + "\n---"@.len()) =~= rest);
    front_matter_ends_at(inner, n);
}

proof fn front_matter_ends_at(inner: Seq<char>, n: int)
    requires
        text::occurs_at(inner, "\n---"@, n),
        forall|j: int| 0 <= j < n ==> !text::occurs_at(inner, "\n---"@, j),
    ensures
        without_frontmatter("---\n"@ + inner) == text::without_leading(
            inner.skip(n + "\n---"@.len()),
            '\n',
        ),
{
    let open = "---\n"@;
    let whole = open + inner;
    text::least_place_is_found(inner, "\n---"@, n);
    assert(whole.subrange(0, open.len() as int) =~= open);
    assert(whole.skip(open.len() as int) =~= inner);
}

/// A body that does not open with a line of three dashes, or where no later line
/// begins so, is kept whole.
pub proof fn bodies_without_front_matter_are_kept(body: Seq<char>)
    requires
        !("---\n"@.is_prefix_of(body)) || !text::holds_text(
            body.skip("---\n"@.len() as int),
            "\n---"@,
        ),
    ensures
        without_frontmatter(body) == body,
{
    let open = "---\n"@;
    if text::begins_with(body, open) {
        assert(open.is_prefix_of(body)) by {
            assert(body.subrange(0, open.len() as int) =~= open);
        }
        text::first_match_is_least(body.skip(open.len() as int), "\n---"@, 0);
    }
}

/// A section is the piece of the body from the first place of its heading up to
/// the first second-level heading behind it, or to the end.
pub proof fn sections_reach_to_the_next_heading(body: Seq<char>, heading: Seq<char>)
    ensures
        section(body, heading) is None <==> !text::holds_text(body, heading),
        section(body, heading) matches Some(found) ==> exists|i: int, j: int|
            0 <= i && i + heading.len() <= j <= body.len() && found == #[trigger] body.subrange(
                i,
                j,
            ) && text::occurs_at(body, heading, i) && (forall|k: int|
                0 <= k < i ==> !text::occurs_at(body, heading, k)) && (j == body.len()
                || text::occurs_at(body, "\n## "@, j)) && (forall|k: int|
                i + heading.len() <= k < j ==> !text::occurs_at(body, "\n## "@, k)),
{
    text::first_match_is_least(body, heading, 0);
    match text::first_match(body, heading, 0) {
        Some(i) => {
            text::first_match_is_least(body, "\n## "@, i + heading.len());
            let j = match text::first_match(body, "\n## "@, i + heading.len()) {
                Some(j) => j,
                None => body.len() as int,
            };
            assert(section(body, heading) == Some(body.subrange(i, j)));
            assert(text::holds_text(body, heading));
        },
        None => {},
    }
}

/// The sections under the first headings of a list stand at the beginning of
/// those under all of them.
proof fn sections_grow(body: Seq<char>, headings: Seq<Seq<char>>, k: int)
    requires
        0 <= k <= headings.len(),
    ensures
        sections(body, headings.take(k)).is_prefix_of(sections(body, headings)),
    decreases headings.len(),
{
    if k == headings.len() {
        assert(headings.take(k) =~= headings);
    } else {
        assert(headings.drop_last().take(k) =~= headings.take(k));
        sections_grow(body, headings.drop_last(), k);
        let before = sections(body, headings.drop_last());
        assert(before.is_prefix_of(sections(body, headings)));
        assert(sections(body, headings.take(k)) =~= sections(body, headings).take(
            sections(body, headings.take(k)).len() as int,
        ));
    }
}

/// A section under a heading that begins with `#` is not blank.
proof fn sections_are_not_blank(body: Seq<char>, heading: Seq<char>)
    requires
        heading.len() > 0,
        heading[0] == '#',
        section(body, heading) is Some,
    ensures
        text::trimmed(section(body, heading)->0).len() > 0,
{
    sections_reach_to_the_next_heading(body, heading);
    let found = section(body, heading)->0;
    let (i, j) = choose|i: int, j: int|
        0 <= i && i + heading.len() <= j <= body.len() && found == #[trigger] body.subrange(i, j)
            && text::occurs_at(body, heading, i);
    assert(body.subrange(i, i + heading.len())[0] == body[i]);
    assert(found[0] == '#');
    text::blank_trims_to_nothing(found);
    assert(!text::is_white_space(found[0]));
}

/// The known headings begin with `#`.
proof fn headings_begin_with_a_mark(k: int)
    requires
        0 <= k < 7,
    ensures
        kept_headings().len() == 7,
        kept_headings()[k].len() > 0,
        kept_headings()[k][0] == '#',
{
    reveal_strlit("## Goal");
    reveal_strlit("## Workflow");
    reveal_strlit("## Realism Hard Constraints");
    reveal_strlit("## Variation System");
    reveal_strlit("## Scene Presets");
    reveal_strlit("## Prompt Template");
    reveal_strlit("## Negative Prompt");
}

/// Where the section under the heading `k` ends among the kept sections.
proof fn place_of_section(body: Seq<char>, k: int) -> (end: int)
    requires
        0 <= k < 7,
        section(body, kept_headings()[k]) is Some,
    ensures
        end == sections(body, kept_headings().take(k + 1)).len(),
        ({
            let found = text::trimmed(section(body, kept_headings()[k])->0);
            let all = sections(body, kept_headings());
            let before = sections(body, kept_headings().take(k)).len();
            &&& 0 < found.len() <= end <= all.len()
            &&& all.subrange(end - found.len(), end) == found
            &&& before > 0 ==> end == before + 2 + found.len()
            &&& before == 0 ==> end == found.len()
        }),
{
    reveal_strlit("\n\n");
    let heads = kept_headings();
    headings_begin_with_a_mark(k);
    sections_are_not_blank(body, heads[k]);
    let found = text::trimmed(section(body, heads[k])->0);
    let upto = heads.take(k + 1);
    assert(upto.drop_last() =~= heads.take(k));
    assert(upto.last() == heads[k]);
    let part = sections(body, upto);
    let all = sections(body, heads);
    let end = part.len() as int;
    sections_grow(body, heads, k + 1);
    assert(part.subrange(end - found.len(), end) =~= found);
    assert(all.subrange(end - found.len(), end) =~= part.subrange(end - found.len(), end));
    end
}

/// A long skill that was not cut is what was kept of it.
proof fn uncut_bodies_are_what_is_kept(body: Seq<char>)
    requires
        compactable(body),
        bytes(instructions(body)) > 9000,
        bytes(compacted(body)) <= 9000,
    ensures
        compacted(body) == kept_text(instructions(body)),
{
    let kept = kept_text(instructions(body));
    if bytes(kept) > 9000 {
        let marker = "\n...[skill body truncated]"@;
        reveal_strlit("\n...[skill body truncated]");
        text::clean_cut_is_a_prefix(kept, 9000);
        text::encoding_of_concat(text::byte_cut(kept, 9000), marker);
        text::texts_take_bytes(marker);
    }
}

/// The known headings, one by one.
proof fn headings_in_order()
    ensures
        kept_headings().len() == 7,
        kept_headings()[0] == "## Goal"@,
        kept_headings()[1] == "## Workflow"@,
        kept_headings()[2] == "## Realism Hard Constraints"@,
        kept_headings()[3] == "## Variation System"@,
        kept_headings()[4] == "## Scene Presets"@,
        kept_headings()[5] == "## Prompt Template"@,
        kept_headings()[6] == "## Negative Prompt"@,
{
}

/// A long skill keeps the section under each of the known headings: where what
/// is kept fits the limit, the trimmed section stands in it. Of two sections
/// the one whose heading comes first in the list stands first, with a blank
/// line between them where no other is.
pub proof fn known_sections_are_kept(body: Seq<char>, a: int, b: int)
    requires
        compactable(body),
        bytes(instructions(body)) > 9000,
        bytes(compacted(body)) <= 9000,
        0 <= a < b < 7,
    ensures
        ({
            let headings = |k: int|
                if k == 0 {
                    "## Goal"@
                } else if k == 1 {
                    "## Workflow"@
                } else if k == 2 {
                    "## Realism Hard Constraints"@
                } else if k == 3 {
                    "## Variation System"@
                } else if k == 4 {
                    "## Scene Presets"@
                } else if k == 5 {
                    "## Prompt Template"@
                } else {
                    "## Negative Prompt"@
                };
            let first = section(instructions(body), headings(a));
            let second = section(instructions(body), headings(b));
            let kept = compacted(body);
            &&& first is Some ==> text::holds_text(kept, text::trimmed(first->0))
            &&& second is Some ==> text::holds_text(kept, text::trimmed(second->0))
            &&& first is Some && second is Some ==> exists|i: int, j: int|
                #![trigger text::occurs_at(kept, text::trimmed(first->0), i), text::occurs_at(kept, text::trimmed(second->0), j)]
                text::occurs_at(kept, text::trimmed(first->0), i) && text::occurs_at(
                    kept,
                    text::trimmed(second->0),
                    j,
                ) && i + text::trimmed(first->0).len() + 2 <= j
        }),
{
    let headings = kept_headings();
    headings_in_order();
    let stripped = instructions(body);
    let all = sections(stripped, kept_headings());
    let first = section(stripped, headings[a]);
    let second = section(stripped, headings[b]);
    uncut_bodies_are_what_is_kept(body);
    if first is Some {
        let end = place_of_section(stripped, a);
        let at = end - text::trimmed(first->0).len();
        assert(text::occurs_at(all, text::trimmed(first->0), at));
        assert(compacted(body) == all);
    }
    if second is Some {
        let end = place_of_section(stripped, b);
        let at = end - text::trimmed(second->0).len();
        assert(text::occurs_at(all, text::trimmed(second->0), at));
        assert(compacted(body) == all);
        if first is Some {
            let first_end = place_of_section(stripped, a);
            let until = headings.take(b);
            sections_grow(stripped, until, a + 1);
            assert(until.take(a + 1) =~= headings.take(a + 1));
            assert(text::occurs_at(
                all,
                text::trimmed(first->0),
                first_end - text::trimmed(first->0).len(),
            ));
        }
    }
}

/// Only the sections under the known headings are kept of a long skill: where
/// it has one of them, that section is all, and where it has none, it is kept
/// from its beginning on.
pub proof fn only_known_sections_are_kept(body: Seq<char>, a: int)
    requires
        compactable(body),
        bytes(instructions(body)) > 9000,
        bytes(compacted(body)) <= 9000,
        a != 0 ==> section(instructions(body), "## Goal"@) is None,
        a != 1 ==> section(instructions(body), "## Workflow"@) is None,
        a != 2 ==> section(instructions(body), "## Realism Hard Constraints"@) is None,
        a != 3 ==> section(instructions(body), "## Variation System"@) is None,
        a != 4 ==> section(instructions(body), "## Scene Presets"@) is None,
        a != 5 ==> section(instructions(body), "## Prompt Template"@) is None,
        a != 6 ==> section(instructions(body), "## Negative Prompt"@) is None,
    ensures
        ({
            let headings = |k: int|
                if k == 0 {
                    "## Goal"@
                } else if k == 1 {
                    "## Workflow"@
                } else if k == 2 {
                    "## Realism Hard Constraints"@
                } else if k == 3 {
                    "## Variation System"@
                } else if k == 4 {
                    "## Scene Presets"@
                } else if k == 5 {
                    "## Prompt Template"@
                } else {
                    "## Negative Prompt"@
                };
            &&& 0 <= a < 7 && section(instructions(body), headings(a)) is Some ==> compacted(body)
                == text::trimmed(section(instructions(body), headings(a))->0)
            &&& !(0 <= a < 7 && section(instructions(body), headings(a)) is Some)
                ==> compacted(body).is_prefix_of(instructions(body)) && (compacted(body).len()
                == 9000 || compacted(body) == instructions(body))
        }),
{
    let headings = kept_headings();
    headings_in_order();
    let stripped = instructions(body);
    uncut_bodies_are_what_is_kept(body);
    if 0 <= a < 7 && section(stripped, headings[a]) is Some {
        headings_begin_with_a_mark(a);
        sections_are_not_blank(stripped, headings[a]);
        sections_of_one(stripped, 7, a);
        assert(headings.take(7) =~= headings);
    } else {
        sections_of_none(stripped, 7);
        assert(headings.take(7) =~= headings);
        text::limits_keep_the_beginning(stripped, 9000);
    }
}

proof fn sections_of_none(body: Seq<char>, n: int)
    requires
        0 <= n <= 7,
        forall|k: int| 0 <= k < n ==> section(body, #[trigger] kept_headings()[k]) is None,
    ensures
        sections(body, kept_headings().take(n)).len() == 0,
    decreases n,
{
    if n > 0 {
        sections_of_none(body, n - 1);
        assert(kept_headings().take(n).drop_last() =~= kept_headings().take(n - 1));
        assert(kept_headings().take(n).last() == kept_headings()[n - 1]);
    }
}

proof fn sections_of_one(body: Seq<char>, n: int, a: int)
    requires
        0 <= a < n <= 7,
        forall|k: int|
            0 <= k < n && k != a ==> section(body, #[trigger] kept_headings()[k]) is None,
        section(body, kept_headings()[a]) is Some,
    ensures
        sections(body, kept_headings().take(n)) == text::trimmed(
            section(body, kept_headings()[a])->0,
        ),
    decreases n,
{
    assert(kept_headings().take(n).drop_last() =~= kept_headings().take(n - 1));
    assert(kept_headings().take(n).last() == kept_headings()[n - 1]);
    if a == n - 1 {
        sections_of_none(body, n - 1);
    } else {
        sections_of_one(body, n - 1, a);
    }
}

/// A skill of up to 9000 bytes is taken whole, without its front matter and the
/// white space around it. No skill takes more, but for the words that mark a
/// cut; a skill that was cut keeps 9000 bytes before them.
pub proof fn long_skills_are_cut_at_the_limit(body: Seq<char>)
    requires
        compactable(body),
    ensures
        bytes(instructions(body)) <= 9000 ==> compacted(body) == text::trimmed(
            without_frontmatter(body),
        ),
        bytes(compacted(body)) <= 9000 || exists|head: Seq<char>|
            bytes(head) == 9000 && compacted(body) == #[trigger] (head
                + "\n...[skill body truncated]"@),
{
    let kept = kept_text(instructions(body));
    if bytes(instructions(body)) > 9000 && bytes(kept) > 9000 {
        text::clean_cut_is_a_prefix(kept, 9000);
        let head = text::byte_cut(kept, 9000);
        assert(compacted(body) == head + "\n...[skill body truncated]"@);
    }
}

/// A skill that is read adds its name, its path and its text to the context,
/// which goes on below 12000 bytes; from there on it is cut to 12000 and
/// closed. A skill that cannot be read closes it with a message.
pub proof fn contexts_take_one_skill_after_the_other(
    c: ContextView,
    skill: SkillInputRef,
    read: Result<Seq<char>, Seq<char>>,
)
    requires
        context_pending(c),
        context_takes(c, skill, read),
    ensures
        match read {
            Err(why) => context_outcome(context_step(c, skill, read)) == Err::<
                Seq<char>,
                Seq<char>,
            >("read skill "@ + skill.name@ + " at "@ + skill.path@ + ": "@ + why)
                && !context_pending(context_step(c, skill, read)),
            Ok(body) => ({
                let grown = c.text + ("\n<skill name=\""@ + skill.name@ + "\" path=\""@
                    + skill.path@ + "\">\n"@ + text::trimmed(compacted(body))
                    + "\n</skill>\n"@);
                let next = context_step(c, skill, read);
                &&& bytes(grown) < 12000 ==> next == (ContextView {
                    text: grown,
                    next: c.next + 1,
                    ..c
                })
                &&& bytes(grown) >= 12000 ==> !context_pending(next) && context_outcome(next)
                    is Ok && (exists|head: Seq<char>|
                    bytes(head) == 12000 && head.is_prefix_of(grown) && next.text == #[trigger] (
                    head + "\n...[skill context truncated]\n"@))
            }),
        },
{
    match read {
        Err(_) => {},
        Ok(body) => {
            let grown = c.text + skill_block(skill, body);
            if bytes(grown) >= 12000 {
                text::clean_cut_is_a_prefix(grown, 12000);
                let head = text::byte_cut(grown, 12000);
                assert(context_step(c, skill, read).text == head
                    + "\n...[skill context truncated]\n"@);
            }
        },
    }
}

/// A message without skills has no context; one with skills opens with words on
/// them and asks for the files from the first on.
pub proof fn contexts_open_with_the_first_skill(total: int)
    requires
        0 <= total,
    ensures
        total == 0 ==> context_outcome(context_start(total)) == Ok::<Seq<char>, Seq<char>>(
            Seq::empty(),
        ) && !context_pending(context_start(total)),
        total > 0 ==> context_pending(context_start(total)) && context_start(total).next == 0
            && context_start(total).text
            == "Apply the following selected local Codex Skill instructions to this image generation request. Because this request is executed through a direct image API, convert prompt-writing workflows into final image-generation constraints. Generate the requested image directly; do not answer with a prompt template, analysis, or checklist unless the user explicitly asks for text.\n"@,
{
}

/// A skill can be taken exactly where it is short, or what is kept of it is, or
/// 9000 bytes of that end behind a whole character.
pub proof fn skills_are_taken_where_the_cut_is_clean(body: Seq<char>)
    ensures
        compactable(body) <==> (bytes(instructions(body)) <= 9000 || bytes(
            kept_text(instructions(body)),
        ) <= 9000 || exists|k: int|
            0 <= k <= kept_text(instructions(body)).len() && bytes(
                #[trigger] kept_text(instructions(body)).take(k),
            ) == 9000),
{
    let kept = kept_text(instructions(body));
    if text::cuts_cleanly(kept, 9000) {
        text::clean_cut_is_a_prefix(kept, 9000);
        let k = text::byte_cut(kept, 9000).len() as int;
        assert(kept.take(k) =~= text::byte_cut(kept, 9000));
    }
    if exists|k: int| 0 <= k <= kept.len() && bytes(#[trigger] kept.take(k)) == 9000 {
        let k = choose|k: int| 0 <= k <= kept.len() && bytes(#[trigger] kept.take(k)) == 9000;
        text::whole_characters_cut_cleanly(kept.take(k), kept.skip(k));
        assert(kept.take(k) + kept.skip(k) =~= kept);
    }
}

/// A context that has every reading goes on until it has taken all its skills,
/// was cut or could not read one. What it held at first stays at its beginning
/// unless it was cut, and where it has taken all of them, each one stands in it
/// with its name and its path.
pub proof fn contexts_take_all_their_skills(
    c: ContextView,
    skills: Seq<SkillInputRef>,
    reads: Seq<Result<String, String>>,
    i: int,
)
    requires
        0 <= c.next <= c.total,
        c.total <= reads.len(),
    ensures
        ({
            let end = context_run(c, skills, reads);
            &&& !context_pending(end)
            &&& !end.cut ==> c.text.is_prefix_of(end.text)
            &&& !end.cut && end.failure is None && c.next <= i < c.total ==> text::holds_text(
                end.text,
                "\n<skill name=\""@ + skills[i].name@ + "\" path=\""@ + skills[i].path@
                    + "\">\n"@,
            )
        }),
    decreases c.total - c.next,
{
    if context_pending(c) {
        let skill = skills[c.next];
        let read = read_view(reads[c.next]);
        let step = context_step(c, skill, read);
        contexts_take_all_their_skills(step, skills, reads, i);
        let end = context_run(c, skills, reads);
        assert(end == context_run(step, skills, reads));
        if !end.cut {
            closed_contexts_stay_closed(step, skills, reads);
            assert(c.text.is_prefix_of(step.text));
            assert(c.text =~= end.text.take(c.text.len() as int));
            if end.failure is None && i == c.next {
                let head = "\n<skill name=\""@ + skill.name@ + "\" path=\""@ + skill.path@
                    + "\">\n"@;
                let body = read->Ok_0;
                let rest = text::trimmed(compacted(body)) + "\n</skill>\n"@;
                assert(skill_block(skill, body) =~= head + rest);
                let at = c.text.len() as int;
                assert(step.text =~= c.text + head + rest);
                assert(end.text.subrange(at, at + head.len()) =~= step.text.subrange(
                    at,
                    at + head.len(),
                ));
                assert(step.text.subrange(at, at + head.len()) =~= head);
                assert(text::occurs_at(end.text, head, at));
            }
        }
    }
}

proof fn closed_contexts_stay_closed(
    c: ContextView,
    skills: Seq<SkillInputRef>,
    reads: Seq<Result<String, String>>,
)
    ensures
        c.cut ==> context_run(c, skills, reads).cut,
        c.failure is Some ==> context_run(c, skills, reads).failure is Some,
{
}

/// A context that was cut has 12000 bytes at least.
pub proof fn cut_contexts_are_full(
    c: ContextView,
    skills: Seq<SkillInputRef>,
    reads: Seq<Result<String, String>>,
)
    requires
        context_run_takes(c, skills, reads),
        c.cut ==> bytes(c.text) >= 12000,
    ensures
        context_run(c, skills, reads).cut ==> bytes(context_run(c, skills, reads).text) >= 12000,
    decreases c.total - c.next,
{
    if context_pending(c) && 0 <= c.next < reads.len() {
        let read = read_view(reads[c.next]);
        if read is Ok {
            context_step_is_bounded(c, skills[c.next], read);
        }
        cut_contexts_are_full(context_step(c, skills[c.next], read), skills, reads);
    }
}

}
