use api_runtime::board::ResolvedRef;
use api_runtime::prompt::build_api_prompt;

fn reference(clean: &str, overlay: Option<&str>) -> ResolvedRef {
    ResolvedRef { clean_rel: clean.to_string(), overlay_rel: overlay.map(|s| s.to_string()) }
}

fn no_skills() -> Result<String, String> {
    Ok(String::new())
}

#[test]
fn plain_text_is_its_own_prompt() {
    assert_eq!(build_api_prompt(" a cat ", &vec![], no_skills()), Ok(" a cat ".to_string()));
}

#[test]
fn paths_become_attached_images() {
    let refs = vec![reference("assets/a.png", None), reference("assets/b.png", None)];
    assert_eq!(
        build_api_prompt("blend assets/a.png with assets/b.png", &refs, no_skills()),
        Ok("Use the attached image(s) as visual reference.\n\nblend attached image with attached image".to_string())
    );
}

#[test]
fn overlays_are_explained() {
    let refs = vec![reference("a.png", None), reference("b.png", Some(".overlay-b.png"))];
    assert_eq!(
        build_api_prompt("fix it", &refs, no_skills()),
        Ok("Use the attached image(s) as visual reference. Some attached images contain red numbered mark overlays; use those marks only as edit instructions and do not copy the red marks into the output.\n\nfix it".to_string())
    );
}

#[test]
fn skill_context_comes_first() {
    assert_eq!(
        build_api_prompt("a cat", &vec![], Ok("CONTEXT".to_string())),
        Ok("CONTEXT\n\nUser request:\na cat".to_string())
    );
    assert_eq!(
        build_api_prompt(" \n", &vec![], Ok("CONTEXT".to_string())),
        Ok("CONTEXT".to_string())
    );
}

#[test]
fn skill_failure_is_returned() {
    assert_eq!(
        build_api_prompt("a cat", &vec![], Err("read skill x".to_string())),
        Err("read skill x".to_string())
    );
}
