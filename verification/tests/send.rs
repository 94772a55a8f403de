use api_runtime::board::{Asset, OverlayMap, Placement, ResolvedRef};
use api_runtime::json::{as_text, get};
use api_runtime::reply::GeneratedImage;
use api_runtime::send::{check_send, send_message, Rect, SendAction, SendMessage, SendStep};
use api_runtime::session::ApiSession;
use api_runtime::settings::ApiImageSettings;
use api_runtime::skills::SkillInputRef;
use api_runtime::turn::{interrupt_turn, Effect, UnifiedEvent};

fn api() -> ApiImageSettings {
    ApiImageSettings {
        base_url: "http://x".to_string(),
        model: "gpt-image-1".to_string(),
        size: String::new(),
        api_key: String::new(),
    }
}

fn message() -> SendMessage {
    let overlays = OverlayMap::new(&vec![("p1".to_string(), ".overlay-1.png".to_string())]);
    let skills = vec![SkillInputRef { name: "s".to_string(), path: "/s".to_string() }];
    send_message(true, &api(), "a cat", vec!["p1".to_string()], &overlays, &skills).unwrap()
}

fn session() -> ApiSession {
    ApiSession::new("board".to_string(), Some("t".to_string()))
}

fn refs() -> Result<Vec<ResolvedRef>, String> {
    Ok(vec![ResolvedRef { clean_rel: "a.png".to_string(), overlay_rel: None }])
}

fn image() -> Result<GeneratedImage, String> {
    Ok(GeneratedImage { bytes: vec![1], caption: Some("c".to_string()) })
}

fn placed() -> Result<(Asset<()>, Placement<()>), String> {
    Ok((
        Asset { id: "a9".to_string(), path: "assets/gen.png".to_string(), rest: () },
        Placement { id: "p9".to_string(), asset_id: "a9".to_string(), rest: () },
    ))
}

/// What `effects` do, one line each; the turns that they finish are finished.
fn carried_out(session: &mut ApiSession, effects: Vec<Effect<(), (), i64>>) -> Vec<String> {
    effects
        .into_iter()
        .map(|e| match e {
            Effect::RemoveOverlays(paths) => format!("remove {}", paths.join(" ")),
            Effect::Append { session_id, message } => format!(
                "append {session_id} {} {}",
                as_text(get(&message, "role")).unwrap(),
                as_text(get(&message, "id")).unwrap()
            ),
            Effect::FinishTurn(turn) => {
                session.finish_turn(turn);
                format!("finish {turn}")
            }
            Effect::Emit(envelope) => match envelope.event {
                UnifiedEvent::GenerationStarted { placeholder_id, x, y, w, h } => {
                    format!("started {placeholder_id} {x} {y} {w} {h}")
                }
                UnifiedEvent::ImageGenerated { asset, placement, caption, placeholder_id } => {
                    format!(
                        "image {} {} {} {}",
                        asset.id,
                        placement.id,
                        caption.unwrap(),
                        placeholder_id.unwrap()
                    )
                }
                UnifiedEvent::TurnComplete { status, error } => {
                    format!("complete {status} {}", error.unwrap_or("-".to_string()))
                }
                UnifiedEvent::Log { level, message } => format!("log {level} {message}"),
                UnifiedEvent::SessionInit { thread_id, model } => format!("init {thread_id} {model}"),
            },
        })
        .collect()
}

/// A message up to its generation.
fn generating(s: &mut ApiSession) -> (SendMessage, Vec<String>) {
    let mut m = message();
    let mut done = Vec::new();
    let step: SendStep<(), (), i64> = m.resolved(s, refs(), "m1");
    done.extend(carried_out(s, step.effects));
    match step.action {
        SendAction::Announce(refs) => assert_eq!(refs[0].clean_rel, "a.png"),
        other => panic!("{other:?}"),
    }
    let rect = Some(Rect { x: 1, y: 2, w: 3, h: 4 });
    let step: SendStep<(), (), i64> = m.announced(s, "ph".to_string(), rect);
    done.extend(carried_out(s, step.effects));
    assert!(matches!(step.action, SendAction::BuildPrompt));
    let step: SendStep<(), (), i64> = m.prompted(s, Ok("prompt".to_string()));
    assert!(step.effects.is_empty());
    assert!(matches!(step.action, SendAction::Generate(p) if p == "prompt"));
    (m, done)
}

#[test]
fn messages_put_an_image_on_the_board() {
    let mut s = session();
    let (mut m, mut done) = generating(&mut s);
    let step: SendStep<(), (), i64> = m.generated(&s, image(), "m2");
    done.extend(carried_out(&mut s, step.effects));
    assert!(matches!(step.action, SendAction::Place(image) if image.bytes == vec![1]));
    assert!(s.is_working());
    let step: SendStep<(), (), i64> = m.placed(&s, placed(), "m2");
    done.extend(carried_out(&mut s, step.effects));
    assert!(matches!(step.action, SendAction::Return(Ok(()))));
    assert_eq!(
        done,
        vec![
            "append t user m1",
            "started ph 1 2 3 4",
            "remove .overlay-1.png",
            "append t assistant m2",
            "image a9 p9 c ph",
            "complete completed -",
            "finish 1",
        ]
    );
    assert!(!s.is_working());
}

#[test]
fn failed_generations_are_told_of() {
    let mut s = session();
    let (mut m, _) = generating(&mut s);
    let step: SendStep<(), (), i64> = m.generated(&s, Err("down".to_string()), "m2");
    assert!(matches!(step.action, SendAction::Return(Ok(()))));
    assert_eq!(
        carried_out(&mut s, step.effects),
        vec![
            "remove .overlay-1.png",
            "append t assistant m2",
            "log error down",
            "complete error down",
            "finish 1",
        ]
    );
    assert!(!s.is_working());
}

#[test]
fn failed_placements_are_told_of() {
    let mut s = session();
    let (mut m, _) = generating(&mut s);
    let _step: SendStep<(), (), i64> = m.generated(&s, image(), "m2");
    let step: SendStep<(), (), i64> = m.placed(&s, Err("unknown board".to_string()), "m2");
    assert!(matches!(step.action, SendAction::Return(Ok(()))));
    assert_eq!(
        carried_out(&mut s, step.effects),
        vec![
            "append t assistant m2",
            "log error unknown board",
            "complete error unknown board",
            "finish 1",
        ]
    );
}

#[test]
fn interrupted_messages_say_nothing_more() {
    for outcome in [image(), Err("down".to_string())] {
        let mut s = session();
        let (mut m, _) = generating(&mut s);
        let cancelled: Vec<Effect<(), (), i64>> = interrupt_turn(&mut s, "m2");
        assert_eq!(cancelled.len(), 2);
        s.begin_turn().unwrap();
        let step: SendStep<(), (), i64> = m.generated(&s, outcome, "m3");
        assert!(matches!(step.action, SendAction::Return(Ok(()))));
        assert_eq!(carried_out(&mut s, step.effects), vec!["remove .overlay-1.png"]);
        assert!(s.is_current_turn(2));
    }
}

#[test]
fn busy_sessions_refuse() {
    let mut s = session();
    s.begin_turn().unwrap();
    let mut m = message();
    let step: SendStep<(), (), i64> = m.resolved(&mut s, refs(), "m1");
    match step.action {
        SendAction::Return(Err(e)) => assert_eq!(
            e,
            "API runtime is already generating. Stop it or wait for it to finish."
        ),
        other => panic!("{other:?}"),
    }
    assert_eq!(carried_out(&mut s, step.effects), vec!["remove .overlay-1.png"]);
    assert!(s.is_current_turn(1));
}

#[test]
fn unknown_boards_are_refused() {
    let mut s = session();
    let mut m = message();
    let step: SendStep<(), (), i64> = m.resolved(&mut s, Err("unknown board".to_string()), "m1");
    assert!(matches!(step.action, SendAction::Return(Err(e)) if e == "unknown board"));
    assert_eq!(carried_out(&mut s, step.effects), vec!["remove .overlay-1.png"]);
    assert!(!s.is_working());
}

#[test]
fn unbuilt_prompts_leave_the_turn_in_flight() {
    let mut s = session();
    let mut m = message();
    let _step: SendStep<(), (), i64> = m.resolved(&mut s, refs(), "m1");
    let step: SendStep<(), (), i64> = m.announced(&s, "ph".to_string(), None);
    assert!(step.effects.is_empty());
    let step: SendStep<(), (), i64> = m.prompted(&s, Err("read skill".to_string()));
    assert!(step.effects.is_empty());
    assert!(matches!(step.action, SendAction::Return(Err(e)) if e == "read skill"));
    assert!(s.is_current_turn(1));
}

#[test]
fn messages_need_valid_settings() {
    let mut a = api();
    a.base_url = " ".to_string();
    let overlays = OverlayMap::new(&vec![]);
    let refused = send_message(true, &a, "x", vec![], &overlays, &vec![]);
    assert_eq!(refused.unwrap_err(), "API base URL is required.");
}

#[test]
fn a_missing_session_is_told_of_first() {
    let mut a = api();
    let missing = || Err("session not started".to_string());
    assert_eq!(check_send(true, &a), Ok(()));
    assert_eq!(check_send(false, &a), missing());
    a.base_url = String::new();
    assert_eq!(check_send(true, &a), Err("API base URL is required.".to_string()));
    assert_eq!(check_send(false, &a), missing());
    let overlays = OverlayMap::new(&vec![]);
    let refused = send_message(false, &a, "a cat", vec![], &overlays, &vec![]);
    assert_eq!(refused.unwrap_err(), "session not started");
}

#[test]
fn nothing_is_appended_without_a_timeline() {
    let mut s = ApiSession::new("board".to_string(), None);
    let mut m = message();
    let step: SendStep<(), (), i64> = m.resolved(&mut s, refs(), "m1");
    assert!(step.effects.is_empty());
    assert!(s.is_working());
}
