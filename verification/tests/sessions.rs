use api_runtime::registry::ApiRegistry;
use api_runtime::session::{new_session, switch_session, ApiSession};
use api_runtime::settings::ApiImageSettings;
use api_runtime::start::{
    check_start, open_session, record_start, record_timeline, start_session, BoardMeta, StartStep,
};
use api_runtime::turn::{interrupt_turn, stop_session, Effect, UnifiedEvent};

fn session(active: Option<&str>) -> ApiSession {
    ApiSession::new("board".to_string(), active.map(|s| s.to_string()))
}

#[test]
fn registries_hold_one_session_for_each_board() {
    let mut r: ApiRegistry<u32> = ApiRegistry::default();
    assert_eq!(r.get("a"), None);
    assert_eq!(r.open_session("a"), Err("session not started".to_string()));
    r.insert("a".to_string(), 1);
    r.insert("b".to_string(), 2);
    r.insert("a".to_string(), 3);
    assert_eq!(r.get("a"), Some(&3));
    assert_eq!(r.open_session("b"), Ok(&2));
    assert_eq!(r.remove("a"), Some(3));
    assert_eq!(r.remove("a"), None);
    assert_eq!(r.get("a"), None);
    assert_eq!(r.get("b"), Some(&2));
}

#[test]
fn one_turn_is_in_flight_at_a_time() {
    let mut s = session(Some("t"));
    assert_eq!(s.begin_turn(), Ok(1));
    assert_eq!(
        s.begin_turn(),
        Err("API runtime is already generating. Stop it or wait for it to finish.".to_string())
    );
    assert!(s.is_current_turn(1));
    assert!(!s.is_current_turn(2));
    s.finish_turn(2);
    assert!(s.is_working());
    s.finish_turn(1);
    assert!(!s.is_working());
    assert!(!s.is_current_turn(1));
    assert_eq!(s.begin_turn(), Ok(2));
    assert_eq!(s.turns_begun(), 2);
}

#[test]
fn late_turns_do_not_end_the_next() {
    let mut s = session(None);
    let first = s.begin_turn().unwrap();
    assert_eq!(s.cancel_turn(), Some(first));
    assert_eq!(s.cancel_turn(), None);
    let second = s.begin_turn().unwrap();
    assert!(second > first);
    s.finish_turn(first);
    assert!(s.is_current_turn(second));
    assert!(!s.is_current_turn(first));
}

#[test]
fn timelines_change_between_turns_only() {
    let mut s = session(Some("one"));
    assert_eq!(new_session(&s), Ok(()));
    assert_eq!(switch_session(&mut s, "two".to_string()), Ok(()));
    assert_eq!(s.active_session(), "two");
    s.begin_turn().unwrap();
    assert_eq!(
        new_session(&s),
        Err("Cannot create a new session while the API runtime is working.".to_string())
    );
    assert_eq!(
        switch_session(&mut s, "three".to_string()),
        Err("Cannot switch sessions while the API runtime is working.".to_string())
    );
    assert_eq!(s.active_session(), "two");
    s.set_active_session("four".to_string());
    assert_eq!(s.active_session(), "four");
    assert_eq!(s.board_id(), "board");
}

#[test]
fn interruptions_are_told_of() {
    let mut s = session(Some("t"));
    let idle: Vec<Effect<(), (), ()>> = interrupt_turn(&mut s, "m");
    assert!(idle.is_empty());
    s.begin_turn().unwrap();
    let effects: Vec<Effect<(), (), ()>> = interrupt_turn(&mut s, "m");
    assert!(!s.is_working());
    assert_eq!(effects.len(), 2);
    assert!(matches!(&effects[0], Effect::Append { session_id, .. } if session_id == "t"));
    match &effects[1] {
        Effect::Emit(envelope) => {
            assert_eq!(envelope.board_id, "board");
            match &envelope.event {
                UnifiedEvent::TurnComplete { status, error } => {
                    assert_eq!(status, "aborted");
                    assert_eq!(error.as_deref(), Some("API image request was cancelled."));
                }
                other => panic!("{other:?}"),
            }
        }
        other => panic!("{other:?}"),
    }
}

#[test]
fn stopping_ends_the_turn() {
    let mut s = session(Some("t"));
    s.begin_turn().unwrap();
    stop_session(&mut s);
    assert!(!s.is_working());
    assert_eq!(s.active_session(), "t");
}

#[test]
fn open_sessions_go_on() {
    assert!(matches!(start_session(None), StartStep::Open));
    assert!(matches!(start_session(Some(&session(None))), StartStep::Open));
    let mut opened = open_session::<(), (), ()>("b".to_string(), Some("t".to_string()), "m");
    opened.session.begin_turn().unwrap();
    opened.session.finish_turn(1);
    assert!(matches!(
        start_session(Some(&opened.session)),
        StartStep::Resume(id) if id == "t"
    ));
}

#[test]
fn starts_need_settings_and_a_board() {
    let mut api = ApiImageSettings {
        base_url: "http://x".to_string(),
        model: "m".to_string(),
        size: String::new(),
        api_key: String::new(),
    };
    assert_eq!(check_start(&api, true), Ok(()));
    assert_eq!(check_start(&api, false), Err("unknown board".to_string()));
    api.model = String::new();
    assert_eq!(check_start(&api, false), Err("API image model is required.".to_string()));
}

#[test]
fn opened_sessions_are_announced_and_recorded() {
    let opened = open_session::<(), (), ()>("b".to_string(), Some("t".to_string()), "gpt-5");
    assert_eq!(opened.active, "t");
    assert_eq!(opened.session.active_session(), "t");
    assert_eq!(opened.session.turns_begun(), 0);
    assert_eq!(opened.event.board_id, "b");
    match opened.event.event {
        UnifiedEvent::SessionInit { thread_id, model } => {
            assert_eq!((thread_id.as_str(), model.as_str()), ("t", "gpt-5"));
        }
        other => panic!("{other:?}"),
    }
    assert_eq!(open_session::<(), (), ()>("b".to_string(), None, "m").active, "");

    let mut meta = BoardMeta {
        thread_id: Some("old".to_string()),
        runtime: None,
        active_session_id: None,
        rest: 5,
    };
    record_start(&mut meta, "t");
    assert_eq!(meta.runtime.as_deref(), Some("api"));
    assert_eq!(meta.active_session_id.as_deref(), Some("t"));
    record_timeline(&mut meta, "u");
    assert_eq!(meta.active_session_id.as_deref(), Some("u"));
    assert_eq!(meta.runtime.as_deref(), Some("api"));
    assert_eq!((meta.thread_id.as_deref(), meta.rest), (Some("old"), 5));
}
