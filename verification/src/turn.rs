//! The events and effects of a turn, and the ways in which a turn ends.

use vstd::prelude::*;
use vstd::string::*;
use crate::board;
use crate::board::{Asset, Placement};
use crate::json;
use crate::json::{Json, JsonView};
use crate::records;
use crate::session;
use crate::session::{ApiSession, SessionView};
use crate::text;

verus! {

/// What the runtime tells its listeners.
#[allow(inconsistent_fields)]
#[derive(Debug)]
pub enum UnifiedEvent<A, P, C> {
    SessionInit { thread_id: String, model: String },
    GenerationStarted { placeholder_id: String, x: C, y: C, w: C, h: C },
    ImageGenerated {
        asset: Asset<A>,
        placement: Placement<P>,
        caption: Option<String>,
        placeholder_id: Option<String>,
    },
    TurnComplete { status: String, error: Option<String> },
    Log { level: String, message: String },
}

/// A [`UnifiedEvent`], over views.
#[allow(inconsistent_fields)]
pub enum EventView<A, P, C> {
    SessionInit { thread_id: Seq<char>, model: Seq<char> },
    GenerationStarted { placeholder_id: Seq<char>, x: C, y: C, w: C, h: C },
    ImageGenerated {
        asset: Asset<A>,
        placement: Placement<P>,
        caption: Option<Seq<char>>,
        placeholder_id: Option<Seq<char>>,
    },
    TurnComplete { status: Seq<char>, error: Option<Seq<char>> },
    Log { level: Seq<char>, message: Seq<char> },
}

impl<A, P, C> View for UnifiedEvent<A, P, C> {
    type V = EventView<A, P, C>;

    open spec fn view(&self) -> EventView<A, P, C> {
        match *self {
            UnifiedEvent::SessionInit { thread_id, model } => EventView::SessionInit {
                thread_id: thread_id@,
                model: model@,
            },
            UnifiedEvent::GenerationStarted { placeholder_id, x, y, w, h } => {
                EventView::GenerationStarted { placeholder_id: placeholder_id@, x, y, w, h }
            },
            UnifiedEvent::ImageGenerated { asset, placement, caption, placeholder_id } => {
                EventView::ImageGenerated {
                    asset,
                    placement,
                    caption: text::opt_view(caption),
                    placeholder_id: text::opt_view(placeholder_id),
                }
            },
            UnifiedEvent::TurnComplete { status, error } => EventView::TurnComplete {
                status: status@,
                error: text::opt_view(error),
            },
            UnifiedEvent::Log { level, message } => EventView::Log {
                level: level@,
                message: message@,
            },
        }
    }
}

/// An event and the board that it is about.
#[derive(Debug)]
pub struct CodexEventEnvelope<A, P, C> {
    pub board_id: String,
    pub event: UnifiedEvent<A, P, C>,
}

/// One thing that a decision has the runtime do.
#[derive(Debug)]
pub enum Effect<A, P, C> {
    /// Remove those of these overlay files that are safe to remove.
    RemoveOverlays(Vec<String>),
    /// Add `message` to the timeline `session_id`.
    Append { session_id: String, message: Json },
    /// Tell the listeners.
    Emit(CodexEventEnvelope<A, P, C>),
    /// End this turn of the session.
    FinishTurn(u64),
}

/// An [`Effect`], over views.
pub enum EffectView<A, P, C> {
    RemoveOverlays(Seq<Seq<char>>),
    Append { session_id: Seq<char>, message: JsonView },
    Emit { board_id: Seq<char>, event: EventView<A, P, C> },
    FinishTurn(int),
}

impl<A, P, C> View for Effect<A, P, C> {
    type V = EffectView<A, P, C>;

    open spec fn view(&self) -> EffectView<A, P, C> {
        match *self {
            Effect::RemoveOverlays(paths) => EffectView::RemoveOverlays(board::texts_view(paths@)),
            Effect::Append { session_id, message } => EffectView::Append {
                session_id: session_id@,
                message: message@,
            },
            Effect::Emit(envelope) => EffectView::Emit {
                board_id: envelope.board_id@,
                event: envelope.event@,
            },
            Effect::FinishTurn(turn) => EffectView::FinishTurn(turn as int),
        }
    }
}

/// The effects `effects`, over views.
pub open spec fn effects_view<A, P, C>(effects: Seq<Effect<A, P, C>>) -> Seq<EffectView<A, P, C>> {
    effects.map_values(|e: Effect<A, P, C>| e@)
}

/// The effect that tells the listeners of `s` of `event`.
pub open spec fn told<A, P, C>(
    s: SessionView,
    event: EventView<A, P, C>,
) -> EffectView<A, P, C> {
    EffectView::Emit { board_id: s.board_id, event }
}

/// The effects that add `message` to the timeline of `s`: none where it writes
/// to no timeline.
pub open spec fn kept<A, P, C>(s: SessionView, message: JsonView) -> Seq<EffectView<A, P, C>> {
    match records::kept_in(s.active, message) {
        Some(message) => seq![EffectView::Append { session_id: s.active, message }],
        None => Seq::empty(),
    }
}

/// The effects that end the turn `turn` of `s` with the error `error`.
pub open spec fn failed_effects<A, P, C>(
    s: SessionView,
    turn: int,
    error: Seq<char>,
    message_id: Seq<char>,
) -> Seq<EffectView<A, P, C>> {
    kept(s, records::error_message(message_id, error)) + seq![
        told(s, EventView::Log { level: "error"@, message: error }),
        told(s, EventView::TurnComplete { status: "error"@, error: Some(error) }),
        EffectView::FinishTurn(turn),
    ]
}

/// The effects that end the turn `turn` of `s` with an image on the board.
pub open spec fn completed_effects<A, P, C>(
    s: SessionView,
    turn: int,
    asset: Asset<A>,
    placement: Placement<P>,
    caption: Option<Seq<char>>,
    placeholder_id: Seq<char>,
    message_id: Seq<char>,
) -> Seq<EffectView<A, P, C>> {
    kept(s, records::image_message(message_id, placement.id@, caption)) + seq![
        told(
            s,
            EventView::ImageGenerated {
                asset,
                placement,
                caption,
                placeholder_id: Some(placeholder_id),
            },
        ),
        told(s, EventView::TurnComplete { status: "completed"@, error: None }),
        EffectView::FinishTurn(turn),
    ]
}

/// The effects of an interruption of `s`: none where no turn is in flight.
pub open spec fn interrupted_effects<A, P, C>(
    s: SessionView,
    message_id: Seq<char>,
) -> Seq<EffectView<A, P, C>> {
    let error = "API image request was cancelled."@;
    if s.in_flight is None {
        Seq::empty()
    } else {
        kept(s, records::error_message(message_id, error)) + seq![
            told(s, EventView::TurnComplete { status: "aborted"@, error: Some(error) }),
        ]
    }
}

/// The envelope that tells the listeners of `session` of `event`.
pub fn emit<A, P, C>(session: &ApiSession, event: UnifiedEvent<A, P, C>) -> (r: CodexEventEnvelope<
    A,
    P,
    C,
>)
    ensures
        r.board_id@ == session@.board_id,
        r.event == event,
{
    CodexEventEnvelope { board_id: session.board_id(), event }
}

/// Adds `effect` behind `effects`.
pub(crate) fn push_effect<A, P, C>(effects: &mut Vec<Effect<A, P, C>>, effect: Effect<A, P, C>)
    ensures
        effects_view(final(effects)@) == effects_view(old(effects)@).push(effect@),
{
    effects.push(effect);
    assert(effects_view(effects@) =~= effects_view(old(effects)@).push(effect@));
}

/// The effects that add `message` to the timeline of `session`.
pub(crate) fn keep<A, P, C>(session: &ApiSession, message: Option<Json>) -> (r: Vec<Effect<A, P, C>>)
    ensures
        effects_view(r@) == (match message {
            Some(m) => seq![
                EffectView::<A, P, C>::Append { session_id: session@.active, message: m@ },
            ],
            None => Seq::empty(),
        }),
{
    let mut effects: Vec<Effect<A, P, C>> = Vec::new();
    assert(effects_view(effects@) =~= Seq::empty());
    if let Some(message) = message {
        push_effect(
            &mut effects,
            Effect::Append { session_id: session.active_session(), message },
        );
        assert(effects_view(effects@) =~= seq![
            EffectView::<A, P, C>::Append { session_id: session@.active, message: message@ },
        ]);
    }
    effects
}

/// The effects that end the turn `turn_id` with the error `message`.
pub fn finish_with_error<A, P, C>(
    session: &ApiSession,
    turn_id: u64,
    message: &str,
    message_id: &str,
) -> (r: Vec<Effect<A, P, C>>)
    ensures
        effects_view(r@) == failed_effects::<A, P, C>(
            session@,
            turn_id as int,
            message@,
            message_id@,
        ),
{
    let active = session.active_session();
    let record = records::persist_assistant_error(active.as_str(), message_id, message);
    let mut effects: Vec<Effect<A, P, C>> = keep(session, record);
    push_effect(
        &mut effects,
        Effect::Emit(
            emit(
                session,
                UnifiedEvent::Log { level: "error".to_owned(), message: message.to_owned() },
            ),
        ),
    );
    push_effect(
        &mut effects,
        Effect::Emit(
            emit(
                session,
                UnifiedEvent::TurnComplete {
                    status: "error".to_owned(),
                    error: Some(message.to_owned()),
                },
            ),
        ),
    );
    push_effect(&mut effects, Effect::FinishTurn(turn_id));
    assert(effects_view(effects@) =~= failed_effects::<A, P, C>(
        session@,
        turn_id as int,
        message@,
        message_id@,
    ));
    effects
}

/// The effects that end the turn `turn_id` with an image on the board.
pub fn finish_with_image<A, P, C>(
    session: &ApiSession,
    turn_id: u64,
    asset: Asset<A>,
    placement: Placement<P>,
    caption: Option<String>,
    placeholder_id: String,
    message_id: &str,
) -> (r: Vec<Effect<A, P, C>>)
    ensures
        effects_view(r@) == completed_effects::<A, P, C>(
            session@,
            turn_id as int,
            asset,
            placement,
            text::opt_view(caption),
            placeholder_id@,
            message_id@,
        ),
{
    let active = session.active_session();
    let record = records::persist_assistant_image(
        active.as_str(),
        message_id,
        placement.id.as_str(),
        &caption,
    );
    let mut effects: Vec<Effect<A, P, C>> = keep(session, record);
    push_effect(
        &mut effects,
        Effect::Emit(
            emit(
                session,
                UnifiedEvent::ImageGenerated {
                    asset,
                    placement,
                    caption,
                    placeholder_id: Some(placeholder_id),
                },
            ),
        ),
    );
    push_effect(
        &mut effects,
        Effect::Emit(
            emit(
                session,
                UnifiedEvent::TurnComplete { status: "completed".to_owned(), error: None },
            ),
        ),
    );
    push_effect(&mut effects, Effect::FinishTurn(turn_id));
    assert(effects_view(effects@) =~= completed_effects::<A, P, C>(
        session@,
        turn_id as int,
        asset,
        placement,
        text::opt_view(caption),
        placeholder_id@,
        message_id@,
    ));
    effects
}

/// Interrupts the turn in flight, if there is one.
pub fn interrupt_turn<A, P, C>(session: &mut ApiSession, message_id: &str) -> (r: Vec<
    Effect<A, P, C>,
>)
    ensures
        final(session)@ == session::without_turn(old(session)@),
        effects_view(r@) == interrupted_effects::<A, P, C>(old(session)@, message_id@),
{
    let ghost before = session@;
    if session.cancel_turn().is_none() {
        let effects: Vec<Effect<A, P, C>> = Vec::new();
        assert(effects_view(effects@) =~= Seq::empty());
        return effects;
    }
    let error = "API image request was cancelled.";
    let active = session.active_session();
    let record = records::persist_assistant_error(active.as_str(), message_id, error);
    let mut effects: Vec<Effect<A, P, C>> = keep(session, record);
    push_effect(
        &mut effects,
        Effect::Emit(
            emit(
                session,
                UnifiedEvent::TurnComplete {
                    status: "aborted".to_owned(),
                    error: Some(error.to_owned()),
                },
            ),
        ),
    );
    assert(effects_view(effects@) =~= interrupted_effects::<A, P, C>(before, message_id@));
    effects
}

/// Stops a session: whatever turn is in flight is over.
pub fn stop_session(session: &mut ApiSession)
    ensures
        final(session)@ == session::without_turn(old(session)@),
{
    let _turn = session.cancel_turn();
}

/// A turn that fails is recorded where there is a timeline, told of by a log
/// entry and by its end, and ended; in this order, and with nothing else.
pub proof fn failures_are_recorded_told_and_ended<A, P, C>(
    s: SessionView,
    turn: int,
    error: Seq<char>,
    message_id: Seq<char>,
)
    ensures
        ({
            let effects = failed_effects::<A, P, C>(s, turn, error, message_id);
            let n = effects.len();
            &&& n == (if s.active.len() > 0 {
                4nat
            } else {
                3
            })
            &&& s.active.len() > 0 ==> (effects[0] matches EffectView::Append {
                session_id,
                message,
            } && session_id == s.active && json::child(message, "error"@) == Some(
                JsonView::Text(error),
            ) && json::child(message, "status"@) == Some(JsonView::Text("error"@))
                && json::child(message, "id"@) == Some(JsonView::Text(message_id)))
            &&& effects[n - 3] == (EffectView::<A, P, C>::Emit {
                board_id: s.board_id,
                event: EventView::Log { level: "error"@, message: error },
            })
            &&& effects[n - 2] == (EffectView::<A, P, C>::Emit {
                board_id: s.board_id,
                event: EventView::TurnComplete { status: "error"@, error: Some(error) },
            })
            &&& effects[n - 1] == EffectView::<A, P, C>::FinishTurn(turn)
        }),
{
    records::error_records_say_what_went_wrong(message_id, error);
}

/// A turn that gives an image is recorded where there is a timeline, in a block
/// that leads to the placement; the image and the end of the turn are told of,
/// and the turn is ended.
pub proof fn images_are_recorded_told_and_ended<A, P, C>(
    s: SessionView,
    turn: int,
    asset: Asset<A>,
    placement: Placement<P>,
    caption: Option<Seq<char>>,
    placeholder_id: Seq<char>,
    message_id: Seq<char>,
)
    ensures
        ({
            let effects = completed_effects::<A, P, C>(
                s,
                turn,
                asset,
                placement,
                caption,
                placeholder_id,
                message_id,
            );
            let n = effects.len();
            &&& n == (if s.active.len() > 0 {
                4nat
            } else {
                3
            })
            &&& s.active.len() > 0 ==> (effects[0] matches EffectView::Append {
                session_id,
                message,
            } && session_id == s.active && json::child(message, "id"@) == Some(
                JsonView::Text(message_id),
            ) && (json::child(message, "blocks"@) matches Some(JsonView::Array(blocks))
                && blocks.len() == 1 && json::child(blocks[0], "placementId"@) == Some(
                JsonView::Text(placement.id@),
            ) && json::child(blocks[0], "caption"@) == Some(
                match caption {
                    Some(t) => JsonView::Text(t),
                    None => JsonView::Null,
                },
            )))
            &&& effects[n - 3] == (EffectView::<A, P, C>::Emit {
                board_id: s.board_id,
                event: EventView::ImageGenerated {
                    asset,
                    placement,
                    caption,
                    placeholder_id: Some(placeholder_id),
                },
            })
            &&& effects[n - 2] == (EffectView::<A, P, C>::Emit {
                board_id: s.board_id,
                event: EventView::TurnComplete { status: "completed"@, error: None },
            })
            &&& effects[n - 1] == EffectView::<A, P, C>::FinishTurn(turn)
        }),
{
    records::image_records_lead_to_the_placement(message_id, placement.id@, caption);
}

/// An interruption does nothing where no turn is in flight. Otherwise it is
/// recorded as an error where there is a timeline, and the end of the turn is
/// told of.
pub proof fn interruptions_are_recorded_and_told<A, P, C>(s: SessionView, message_id: Seq<char>)
    ensures
        ({
            let effects = interrupted_effects::<A, P, C>(s, message_id);
            let n = effects.len();
            let told = "API image request was cancelled."@;
            &&& s.in_flight is None ==> n == 0
            &&& s.in_flight is Some ==> {
                &&& n == (if s.active.len() > 0 {
                    2nat
                } else {
                    1
                })
                &&& s.active.len() > 0 ==> (effects[0] matches EffectView::Append {
                    session_id,
                    message,
                } && session_id == s.active && json::child(message, "error"@) == Some(
                    JsonView::Text(told),
                ) && json::child(message, "id"@) == Some(JsonView::Text(message_id)))
                &&& effects[n - 1] == (EffectView::<A, P, C>::Emit {
                    board_id: s.board_id,
                    event: EventView::TurnComplete { status: "aborted"@, error: Some(told) },
                })
            }
        }),
{
    records::error_records_say_what_went_wrong(
        message_id,
        "API image request was cancelled."@,
    );
}

}
