use api_runtime::skills::{
    build_skill_context, can_compact, compact_skill_body, display_user_text, markdown_section,
    strip_frontmatter, SkillContext, SkillInputRef, MAX_API_SKILL_BODY_CHARS,
    MAX_API_SKILL_CONTEXT_CHARS,
};

const INTRO: &str = "Apply the following selected local Codex Skill instructions to this image generation request. Because this request is executed through a direct image API, convert prompt-writing workflows into final image-generation constraints. Generate the requested image directly; do not answer with a prompt template, analysis, or checklist unless the user explicitly asks for text.\n";

fn skill(name: &str) -> SkillInputRef {
    SkillInputRef { name: name.to_string(), path: format!("/skills/{name}.md") }
}

#[test]
fn displayed_text_names_the_skills() {
    assert_eq!(display_user_text("a cat", &vec![]), "a cat");
    assert_eq!(display_user_text("a cat", &vec![skill("x")]), "a cat\n\nSkills: x");
    assert_eq!(display_user_text(" \n", &vec![skill("x"), skill("y")]), "Skills: x, y");
}

#[test]
fn front_matter_is_stripped() {
    assert_eq!(strip_frontmatter("---\nname: x\n---\n\nBody\n"), "Body\n");
    assert_eq!(strip_frontmatter("---\nname: x\nno end"), "---\nname: x\nno end");
    assert_eq!(strip_frontmatter("Body\n---\n"), "Body\n---\n");
    assert_eq!(strip_frontmatter("---\n\n---"), "");
    assert_eq!(strip_frontmatter("---\na\n---b\n---\nc"), "b\n---\nc");
}

#[test]
fn sections_end_before_the_next_heading() {
    let body = "intro\n## Goal\nDo it.\n### Sub\nx\n## Workflow\ny";
    assert_eq!(markdown_section(body, "## Goal"), Some("## Goal\nDo it.\n### Sub\nx"));
    assert_eq!(markdown_section(body, "## Workflow"), Some("## Workflow\ny"));
    assert_eq!(markdown_section(body, "## Missing"), None);
}

#[test]
fn short_bodies_are_kept_whole() {
    assert_eq!(compact_skill_body("---\na: b\n---\n  keep me \n"), "keep me");
    let exact = "x".repeat(MAX_API_SKILL_BODY_CHARS);
    assert_eq!(compact_skill_body(&exact), exact);
}

#[test]
fn long_bodies_keep_their_known_sections() {
    let body = format!(
        "{}\n## Workflow\nsteps \n\n## Other\nskip\n## Goal\naim\n## Negative Prompt\nnone",
        "x".repeat(MAX_API_SKILL_BODY_CHARS)
    );
    assert_eq!(
        compact_skill_body(&body),
        "## Goal\naim\n\n## Workflow\nsteps\n\n## Negative Prompt\nnone"
    );
}

#[test]
fn long_bodies_without_sections_keep_their_beginning() {
    let body = "y".repeat(MAX_API_SKILL_BODY_CHARS + 5);
    assert_eq!(compact_skill_body(&body), "y".repeat(MAX_API_SKILL_BODY_CHARS));
}

#[test]
fn long_sections_are_cut_and_marked() {
    let body = format!("## Goal\n{}", "z".repeat(MAX_API_SKILL_BODY_CHARS));
    let compact = compact_skill_body(&body);
    assert!(compact.starts_with("## Goal\nzz"));
    assert!(compact.ends_with("z\n...[skill body truncated]"));
    assert_eq!(compact.len(), MAX_API_SKILL_BODY_CHARS + "\n...[skill body truncated]".len());
}

#[test]
fn cuts_within_a_character_are_seen_before() {
    // 9000 characters of two bytes each: the cut falls between two of them.
    assert!(can_compact(&"é".repeat(MAX_API_SKILL_BODY_CHARS)));
    let even = compact_skill_body(&"é".repeat(MAX_API_SKILL_BODY_CHARS));
    assert_eq!(even, "é".repeat(MAX_API_SKILL_BODY_CHARS / 2) + "\n...[skill body truncated]");
    // One byte before them moves the cut into a character.
    assert!(!can_compact(&format!("x{}", "é".repeat(MAX_API_SKILL_BODY_CHARS))));
}

#[test]
fn context_of_no_skills_is_empty() {
    assert_eq!(build_skill_context(&vec![], &vec![]), Ok(String::new()));
}

#[test]
fn context_lists_the_skills() {
    let skills = vec![skill("a"), skill("b")];
    let reads = vec![Ok("---\nk: v\n---\nfirst\n".to_string()), Ok("second".to_string())];
    let expected = format!(
        "{INTRO}\n<skill name=\"a\" path=\"/skills/a.md\">\nfirst\n</skill>\n\n<skill name=\"b\" path=\"/skills/b.md\">\nsecond\n</skill>\n"
    );
    assert_eq!(build_skill_context(&skills, &reads), Ok(expected));
}

#[test]
fn unreadable_skill_is_told_of() {
    let skills = vec![skill("a"), skill("b")];
    let reads = vec![Err("no such file".to_string()), Ok("second".to_string())];
    assert_eq!(
        build_skill_context(&skills, &reads),
        Err("read skill a at /skills/a.md: no such file".to_string())
    );
}

#[test]
fn full_context_reads_no_further() {
    let skills = vec![skill("a"), skill("b"), skill("c")];
    let long = "w".repeat(8_000);
    let mut context = SkillContext::new(3);
    assert_eq!(context.pending(), Some(0));
    for i in 0..2 {
        let read = Ok(long.clone());
        assert!(context.takes(&skills[i], &read));
        context.supply(&skills[i], &read);
    }
    assert_eq!(context.pending(), None);
    let stepped = context.finish().unwrap();
    let marker = "\n...[skill context truncated]\n";
    assert_eq!(stepped.len(), MAX_API_SKILL_CONTEXT_CHARS + marker.len());
    assert!(stepped.ends_with(marker));
    let reads = vec![Ok(long.clone()), Ok(long), Err("never read".to_string())];
    assert_eq!(build_skill_context(&skills, &reads), Ok(stepped));
}

#[test]
fn context_cut_within_a_character_is_seen_before() {
    let skills = [skill("a"), skill("b")];
    let mut context = SkillContext::new(2);
    let first: Result<String, String> = Ok("é".repeat(4_000));
    assert!(context.takes(&skills[0], &first));
    context.supply(&skills[0], &first);
    let clean = Ok("é".repeat(4_000));
    let odd = Ok(format!("x{}", "é".repeat(4_000)));
    assert_ne!(context.takes(&skills[1], &clean), context.takes(&skills[1], &odd));
}
