//! The course of a message, from its arrival to the end of its turn.
//!
//! A message alternates work outside this library (looking at the board,
//! building the prompt, calling the API, writing files) and decisions.
//! [`SendMessage`] takes the outcome of each piece of work and gives back the
//! effects to carry out, in order, and the next piece of work.

use vstd::prelude::*;
use vstd::string::*;
use crate::board;
use crate::board::{Asset, BoardDoc, OverlayMap, Placement, RefView, ResolvedRef};
use crate::json;
use crate::json::JsonView;
use crate::records;
use crate::reply;
use crate::reply::{GeneratedImage, ImageView};
use crate::session;
use crate::session::{ApiSession, SessionOp, SessionView};
use crate::settings;
use crate::settings::ApiImageSettings;
use crate::skills;
use crate::skills::SkillInputRef;
use crate::text;
use crate::turn;
use crate::turn::{Effect, EffectView, EventView, UnifiedEvent};

verus! {

/// Where a placeholder stands on the board.
#[derive(Debug)]
pub struct Rect<C> {
    pub x: C,
    pub y: C,
    pub w: C,
    pub h: C,
}

/// How far a message has come: the work whose outcome it waits for.
#[derive(Debug)]
pub enum SendPhase {
    /// The images that the message refers to.
    Resolving,
    /// The place of the placeholder.
    Announcing { turn_id: u64 },
    /// The prompt.
    Prompting { turn_id: u64, placeholder_id: String },
    /// The image.
    Generating { turn_id: u64, placeholder_id: String },
    /// The placement of the image.
    Placing { turn_id: u64, placeholder_id: String, caption: Option<String> },
    /// Nothing: the message is over.
    Over,
}

/// A [`SendPhase`], over views.
pub enum PhaseView {
    Resolving,
    Announcing { turn: int },
    Prompting { turn: int, placeholder: Seq<char> },
    Generating { turn: int, placeholder: Seq<char> },
    Placing { turn: int, placeholder: Seq<char>, caption: Option<Seq<char>> },
    Over,
}

impl View for SendPhase {
    type V = PhaseView;

    open spec fn view(&self) -> PhaseView {
        match *self {
            SendPhase::Resolving => PhaseView::Resolving,
            SendPhase::Announcing { turn_id } => PhaseView::Announcing { turn: turn_id as int },
            SendPhase::Prompting { turn_id, placeholder_id } => PhaseView::Prompting {
                turn: turn_id as int,
                placeholder: placeholder_id@,
            },
            SendPhase::Generating { turn_id, placeholder_id } => PhaseView::Generating {
                turn: turn_id as int,
                placeholder: placeholder_id@,
            },
            SendPhase::Placing { turn_id, placeholder_id, caption } => PhaseView::Placing {
                turn: turn_id as int,
                placeholder: placeholder_id@,
                caption: text::opt_view(caption),
            },
            SendPhase::Over => PhaseView::Over,
        }
    }
}

/// A message on its way.
#[derive(Debug)]
pub struct SendMessage {
    phase: SendPhase,
    shown: String,
    sources: Vec<String>,
    overlays: Vec<String>,
}

/// A [`SendMessage`], over views.
pub struct SendView {
    pub phase: PhaseView,
    /// What the timeline shows for the message.
    pub shown: Seq<char>,
    /// The placements that the message refers to.
    pub sources: Seq<Seq<char>>,
    /// The overlay files of the message.
    pub overlays: Seq<Seq<char>>,
}

impl View for SendMessage {
    type V = SendView;

    closed spec fn view(&self) -> SendView {
        SendView {
            phase: self.phase@,
            shown: self.shown@,
            sources: board::texts_view(self.sources@),
            overlays: board::texts_view(self.overlays@),
        }
    }
}

/// The next piece of work for a message.
#[derive(Debug)]
pub enum SendAction {
    /// Find a place for the placeholder; the images are these.
    Announce(Vec<ResolvedRef>),
    /// Build the prompt.
    BuildPrompt,
    /// Have an image generated from this prompt.
    Generate(String),
    /// Put this image on the board.
    Place(GeneratedImage),
    /// Return this.
    Return(Result<(), String>),
}

/// A [`SendAction`], over views.
pub enum ActionView {
    Announce(Seq<RefView>),
    BuildPrompt,
    Generate(Seq<char>),
    Place(ImageView),
    /// Return an error, or nothing of note.
    Return(Option<Seq<char>>),
}

impl View for SendAction {
    type V = ActionView;

    open spec fn view(&self) -> ActionView {
        match *self {
            SendAction::Announce(refs) => ActionView::Announce(board::refs_view(refs@)),
            SendAction::BuildPrompt => ActionView::BuildPrompt,
            SendAction::Generate(prompt) => ActionView::Generate(prompt@),
            SendAction::Place(image) => ActionView::Place(image@),
            SendAction::Return(r) => ActionView::Return(
                match r {
                    Ok(_) => None,
                    Err(e) => Some(e@),
                },
            ),
        }
    }
}

/// What the outcome of a piece of work leads to.
#[derive(Debug)]
pub struct SendStep<A, P, C> {
    /// What is done at once, in order.
    pub effects: Vec<Effect<A, P, C>>,
    /// What is done next.
    pub action: SendAction,
}

/// What the outcome of a piece of work leads to, over views.
pub struct StepView<A, P, C> {
    pub effects: Seq<EffectView<A, P, C>>,
    pub action: ActionView,
    /// How far the message then has come.
    pub phase: PhaseView,
    /// The session, before the effects are carried out.
    pub session: SessionView,
}

/// The references that were found, or why there are none, over views.
pub open spec fn refs_outcome(
    r: Result<Vec<ResolvedRef>, String>,
) -> Result<Seq<RefView>, Seq<char>> {
    match r {
        Ok(refs) => Ok(board::refs_view(refs@)),
        Err(e) => Err(e@),
    }
}

/// The step that gives a message up before its turn is begun: its overlays are
/// removed and the error is returned.
pub open spec fn refused<A, P, C>(
    m: SendView,
    s: SessionView,
    error: Seq<char>,
) -> StepView<A, P, C> {
    StepView {
        effects: seq![EffectView::RemoveOverlays(m.overlays)],
        action: ActionView::Return(Some(error)),
        phase: PhaseView::Over,
        session: s,
    }
}

/// The message where another turn is in flight.
pub open spec fn busy_message() -> Seq<char> {
    "API runtime is already generating. Stop it or wait for it to finish."@
}

/// What follows once the images that the message refers to were looked up.
pub open spec fn on_resolved<A, P, C>(
    m: SendView,
    s: SessionView,
    refs: Result<Seq<RefView>, Seq<char>>,
    message_id: Seq<char>,
) -> StepView<A, P, C> {
    match refs {
        Err(e) => refused(m, s, e),
        Ok(refs) => if s.in_flight is Some {
            refused(m, s, busy_message())
        } else {
            StepView {
                effects: turn::kept(s, records::user_message(message_id, m.shown, m.sources)),
                action: ActionView::Announce(refs),
                phase: PhaseView::Announcing { turn: s.begun + 1 },
                session: session::with_turn(s),
            }
        },
    }
}

/// What follows once there is a place for the placeholder, or none.
pub open spec fn on_announced<A, P, C>(
    m: SendView,
    s: SessionView,
    placeholder: Seq<char>,
    rect: Option<Rect<C>>,
) -> StepView<A, P, C> {
    StepView {
        effects: match rect {
            Some(rect) => seq![
                turn::told(
                    s,
                    EventView::GenerationStarted {
                        placeholder_id: placeholder,
                        x: rect.x,
                        y: rect.y,
                        w: rect.w,
                        h: rect.h,
                    },
                ),
            ],
            None => Seq::empty(),
        },
        action: ActionView::BuildPrompt,
        phase: PhaseView::Prompting { turn: m.phase->Announcing_turn, placeholder },
        session: s,
    }
}

/// What follows once the prompt was built, or could not be. A message whose
/// prompt cannot be built leaves its turn in flight and its overlays alone.
pub open spec fn on_prompted<A, P, C>(
    m: SendView,
    s: SessionView,
    prompt: Result<Seq<char>, Seq<char>>,
) -> StepView<A, P, C> {
    match prompt {
        Ok(prompt) => StepView {
            effects: Seq::empty(),
            action: ActionView::Generate(prompt),
            phase: PhaseView::Generating {
                turn: m.phase->Prompting_turn,
                placeholder: m.phase->Prompting_placeholder,
            },
            session: s,
        },
        Err(e) => StepView {
            effects: Seq::empty(),
            action: ActionView::Return(Some(e)),
            phase: PhaseView::Over,
            session: s,
        },
    }
}

/// What follows once an image was generated, or could not be. Where the turn of
/// the message is not in flight any more, the outcome counts for nothing.
pub open spec fn on_generated<A, P, C>(
    m: SendView,
    s: SessionView,
    outcome: Result<ImageView, Seq<char>>,
    message_id: Seq<char>,
) -> StepView<A, P, C> {
    let turn = m.phase->Generating_turn;
    let removal: Seq<EffectView<A, P, C>> = seq![EffectView::RemoveOverlays(m.overlays)];
    if s.in_flight != Some(turn) {
        StepView {
            effects: removal,
            action: ActionView::Return(None),
            phase: PhaseView::Over,
            session: s,
        }
    } else {
        match outcome {
            Ok(image) => StepView {
                effects: removal,
                action: ActionView::Place(image),
                phase: PhaseView::Placing {
                    turn,
                    placeholder: m.phase->Generating_placeholder,
                    caption: image.caption,
                },
                session: s,
            },
            Err(e) => StepView {
                effects: removal + turn::failed_effects(s, turn, e, message_id),
                action: ActionView::Return(None),
                phase: PhaseView::Over,
                session: s,
            },
        }
    }
}

/// What follows once the image was put on the board, or could not be.
pub open spec fn on_placed<A, P, C>(
    m: SendView,
    s: SessionView,
    placed: Result<(Asset<A>, Placement<P>), Seq<char>>,
    message_id: Seq<char>,
) -> StepView<A, P, C> {
    let turn = m.phase->Placing_turn;
    StepView {
        effects: match placed {
            Ok((asset, placement)) => turn::completed_effects(
                s,
                turn,
                asset,
                placement,
                m.phase->Placing_caption,
                m.phase->Placing_placeholder,
                message_id,
            ),
            Err(e) => turn::failed_effects(s, turn, e, message_id),
        },
        action: ActionView::Return(None),
        phase: PhaseView::Over,
        session: s,
    }
}

/// Whether `step` is what `expected` says, and the message `before` has become
/// `m` and the session `s` with it.
pub open spec fn is_step<A, P, C>(
    step: SendStep<A, P, C>,
    before: SendView,
    m: SendView,
    s: SessionView,
    expected: StepView<A, P, C>,
) -> bool {
    &&& turn::effects_view(step.effects@) == expected.effects
    &&& step.action@ == expected.action
    &&& m == (SendView { phase: expected.phase, ..before })
    &&& s == expected.session
}

/// A placed image, or why there is none, over views.
pub open spec fn placed_outcome<A, P>(
    r: Result<(Asset<A>, Placement<P>), String>,
) -> Result<(Asset<A>, Placement<P>), Seq<char>> {
    match r {
        Ok(placed) => Ok(placed),
        Err(e) => Err(e@),
    }
}

/// Why a message may not be taken up: that its board has no open session, or
/// else what is wrong with the settings.
pub open spec fn send_fault(session_open: bool, api: ApiImageSettings) -> Option<Seq<char>> {
    if session_open {
        settings::settings_fault(api)
    } else {
        Some("session not started"@)
    }
}

/// Whether a message may be taken up with the settings `api` on a board whose
/// session is open or not.
pub fn check_send(session_open: bool, api: &ApiImageSettings) -> (r: Result<(), String>)
    ensures
        (match r {
            Ok(_) => None,
            Err(e) => Some(e@),
        }) == send_fault(session_open, *api),
{
    if session_open {
        settings::validate_api_settings(api)
    } else {
        Err("session not started".to_owned())
    }
}

/// Takes up a message with the text `text` that refers to the placements
/// `sources`, with the overlays `overlays` and the skills `skills`. A message
/// to a board without an open session is refused, and so are settings that the
/// API cannot be used with; nothing else comes of a message that is refused.
pub fn send_message(
    session_open: bool,
    api: &ApiImageSettings,
    text: &str,
    sources: Vec<String>,
    overlays: &OverlayMap,
    skills: &Vec<SkillInputRef>,
) -> (r: Result<SendMessage, String>)
    ensures
        match send_fault(session_open, *api) {
            Some(fault) => r matches Err(e) && e@ == fault,
            None => r matches Ok(m) && m@ == (SendView {
                phase: PhaseView::Resolving,
                shown: skills::displayed_text(text@, skills@),
                sources: board::texts_view(sources@),
                overlays: overlays@.map_values(|o: (Seq<char>, Seq<char>)| o.1),
            }),
        },
{
    match check_send(session_open, api) {
        Err(e) => {
            return Err(e);
        },
        Ok(_) => {},
    }
    Ok(
        SendMessage {
            phase: SendPhase::Resolving,
            shown: skills::display_user_text(text, skills),
            sources,
            overlays: overlays.paths(),
        },
    )
}

impl SendMessage {
    /// The effects that remove the overlays of the message.
    fn removal<A, P, C>(&self) -> (r: Vec<Effect<A, P, C>>)
        ensures
            turn::effects_view(r@) == seq![
                EffectView::<A, P, C>::RemoveOverlays(self@.overlays),
            ],
    {
        let mut paths: Vec<String> = Vec::new();
        let mut i: usize = 0;
        while i < self.overlays.len()
            invariant
                i <= self.overlays@.len(),
                paths@.len() == i,
                forall|k: int| 0 <= k < i ==> (#[trigger] paths@[k])@ == self.overlays@[k]@,
            decreases self.overlays@.len() - i,
        {
            paths.push(self.overlays[i].clone());
            i = i + 1;
        }
        assert(board::texts_view(paths@) =~= board::texts_view(self.overlays@));
        let mut effects: Vec<Effect<A, P, C>> = Vec::new();
        assert(turn::effects_view(effects@) =~= Seq::empty());
        turn::push_effect(&mut effects, Effect::RemoveOverlays(paths));
        assert(turn::effects_view(effects@) =~= seq![
            EffectView::<A, P, C>::RemoveOverlays(self@.overlays),
        ]);
        effects
    }

    /// Takes the images that the message refers to, and begins its turn.
    pub fn resolved<A, P, C>(
        &mut self,
        session: &mut ApiSession,
        refs: Result<Vec<ResolvedRef>, String>,
        message_id: &str,
    ) -> (r: SendStep<A, P, C>)
        requires
            old(self)@.phase is Resolving,
            refs is Ok && old(session)@.in_flight is None ==> old(session)@.begun < u64::MAX,
        ensures
            is_step(
                r,
                old(self)@,
                final(self)@,
                final(session)@,
                on_resolved(old(self)@, old(session)@, refs_outcome(refs), message_id@),
            ),
    {
        let refs = match refs {
            Ok(refs) => refs,
            Err(e) => {
                let effects = self.removal();
                self.phase = SendPhase::Over;
                return SendStep { effects, action: SendAction::Return(Err(e)) };
            },
        };
        let active = session.active_session();
        match session.begin_turn() {
            Err(e) => {
                let effects = self.removal();
                self.phase = SendPhase::Over;
                SendStep { effects, action: SendAction::Return(Err(e)) }
            },
            Ok(turn_id) => {
                let record = records::persist_user_record(
                    active.as_str(),
                    message_id,
                    self.shown.as_str(),
                    &self.sources,
                );
                let effects = turn::keep(session, record);
                self.phase = SendPhase::Announcing { turn_id };
                SendStep { effects, action: SendAction::Announce(refs) }
            },
        }
    }

    /// Takes the place of the placeholder; there is none where the board is
    /// not open any more.
    pub fn announced<A, P, C>(
        &mut self,
        session: &ApiSession,
        placeholder_id: String,
        rect: Option<Rect<C>>,
    ) -> (r: SendStep<A, P, C>)
        requires
            old(self)@.phase is Announcing,
        ensures
            is_step(
                r,
                old(self)@,
                final(self)@,
                session@,
                on_announced(old(self)@, session@, placeholder_id@, rect),
            ),
    {
        let turn_id: u64 = match self.phase {
            SendPhase::Announcing { turn_id } => turn_id,
            _ => 0,
        };
        let mut effects: Vec<Effect<A, P, C>> = Vec::new();
        assert(turn::effects_view(effects@) =~= Seq::empty());
        if let Some(rect) = rect {
            turn::push_effect(
                &mut effects,
                Effect::Emit(
                    turn::emit(
                        session,
                        UnifiedEvent::GenerationStarted {
                            placeholder_id: placeholder_id.clone(),
                            x: rect.x,
                            y: rect.y,
                            w: rect.w,
                            h: rect.h,
                        },
                    ),
                ),
            );
        }
        proof {
            let expected = on_announced::<A, P, C>(self@, session@, placeholder_id@, rect);
            assert(turn::effects_view(effects@) =~= expected.effects);
        }
        self.phase = SendPhase::Prompting { turn_id, placeholder_id };
        SendStep { effects, action: SendAction::BuildPrompt }
    }

    /// Takes the prompt.
    pub fn prompted<A, P, C>(
        &mut self,
        session: &ApiSession,
        prompt: Result<String, String>,
    ) -> (r: SendStep<A, P, C>)
        requires
            old(self)@.phase is Prompting,
        ensures
            is_step(
                r,
                old(self)@,
                final(self)@,
                session@,
                on_prompted(old(self)@, session@, reply::text_outcome(prompt)),
            ),
    {
        let effects: Vec<Effect<A, P, C>> = Vec::new();
        assert(turn::effects_view(effects@) =~= Seq::empty());
        match prompt {
            Err(e) => {
                self.phase = SendPhase::Over;
                SendStep { effects, action: SendAction::Return(Err(e)) }
            },
            Ok(prompt) => {
                if let SendPhase::Prompting { turn_id, placeholder_id } = &self.phase {
                    self.phase = SendPhase::Generating {
                        turn_id: *turn_id,
                        placeholder_id: placeholder_id.clone(),
                    };
                }
                SendStep { effects, action: SendAction::Generate(prompt) }
            },
        }
    }

    /// Takes the outcome of the generation.
    pub fn generated<A, P, C>(
        &mut self,
        session: &ApiSession,
        outcome: Result<GeneratedImage, String>,
        message_id: &str,
    ) -> (r: SendStep<A, P, C>)
        requires
            old(self)@.phase is Generating,
        ensures
            is_step(
                r,
                old(self)@,
                final(self)@,
                session@,
                on_generated(
                    old(self)@,
                    session@,
                    reply::image_outcome(outcome),
                    message_id@,
                ),
            ),
    {
        let mut effects: Vec<Effect<A, P, C>> = self.removal();
        let (turn_id, placeholder_id): (u64, String) = match &self.phase {
            SendPhase::Generating { turn_id, placeholder_id } => (
                *turn_id,
                placeholder_id.clone(),
            ),
            _ => (0, String::new()),
        };
        if !session.is_current_turn(turn_id) {
            self.phase = SendPhase::Over;
            return SendStep { effects, action: SendAction::Return(Ok(())) };
        }
        match outcome {
            Ok(image) => {
                let caption = image.caption.clone();
                self.phase = SendPhase::Placing { turn_id, placeholder_id, caption };
                SendStep { effects, action: SendAction::Place(image) }
            },
            Err(e) => {
                let mut failure = turn::finish_with_error(
                    session,
                    turn_id,
                    e.as_str(),
                    message_id,
                );
                let ghost before = effects@;
                let ghost added = failure@;
                effects.append(&mut failure);
                assert(turn::effects_view(effects@) =~= turn::effects_view(before)
                    + turn::effects_view(added));
                self.phase = SendPhase::Over;
                SendStep { effects, action: SendAction::Return(Ok(())) }
            },
        }
    }

    /// Takes the outcome of the placement.
    pub fn placed<A, P, C>(
        &mut self,
        session: &ApiSession,
        placed: Result<(Asset<A>, Placement<P>), String>,
        message_id: &str,
    ) -> (r: SendStep<A, P, C>)
        requires
            old(self)@.phase is Placing,
        ensures
            is_step(
                r,
                old(self)@,
                final(self)@,
                session@,
                on_placed(old(self)@, session@, placed_outcome(placed), message_id@),
            ),
    {
        let (turn_id, placeholder_id, caption): (u64, String, Option<String>) = match &self.phase {
            SendPhase::Placing { turn_id, placeholder_id, caption } => (
                *turn_id,
                placeholder_id.clone(),
                caption.clone(),
            ),
            _ => (0, String::new(), None),
        };
        self.phase = SendPhase::Over;
        let effects: Vec<Effect<A, P, C>> = match placed {
            Err(e) => turn::finish_with_error(session, turn_id, e.as_str(), message_id),
            Ok((asset, placement)) => turn::finish_with_image(
                session,
                turn_id,
                asset,
                placement,
                caption,
                placeholder_id,
                message_id,
            ),
        };
        SendStep { effects, action: SendAction::Return(Ok(())) }
    }
}

/// The number of `effects` for which `p` holds.
pub open spec fn count<A, P, C>(
    effects: Seq<EffectView<A, P, C>>,
    p: spec_fn(EffectView<A, P, C>) -> bool,
) -> nat
    decreases effects.len(),
{
    if effects.len() == 0 {
        0
    } else {
        count(effects.drop_last(), p) + (if p(effects.last()) {
            1nat
        } else {
            0
        })
    }
}

/// The effects that remove overlays.
pub open spec fn removes<A, P, C>() -> spec_fn(EffectView<A, P, C>) -> bool {
    |e: EffectView<A, P, C>| e is RemoveOverlays
}

/// The effects that tell of the end of a turn.
pub open spec fn completes<A, P, C>() -> spec_fn(EffectView<A, P, C>) -> bool {
    |e: EffectView<A, P, C>|
        match e {
            EffectView::Emit { board_id: _, event } => event is TurnComplete,
            _ => false,
        }
}

/// The session `s` after `effects` were carried out.
pub open spec fn after_effects<A, P, C>(
    s: SessionView,
    effects: Seq<EffectView<A, P, C>>,
) -> SessionView
    decreases effects.len(),
{
    if effects.len() == 0 {
        s
    } else {
        let before = after_effects(s, effects.drop_last());
        match effects.last() {
            EffectView::FinishTurn(turn) => session::with_turn_finished(before, turn),
            _ => before,
        }
    }
}

/// All that happens to a message: the outcome of each piece of work, and the
/// session at the times at which it is looked at again.
pub struct Course<A, P, C> {
    pub refs: Result<Seq<RefView>, Seq<char>>,
    pub user_id: Seq<char>,
    pub placeholder: Seq<char>,
    pub rect: Option<Rect<C>>,
    pub prompt: Result<Seq<char>, Seq<char>>,
    pub at_generated: SessionView,
    pub outcome: Result<ImageView, Seq<char>>,
    pub at_placed: SessionView,
    pub placed: Result<(Asset<A>, Placement<P>), Seq<char>>,
    pub end_id: Seq<char>,
}

/// The message `m` in the phase `phase`.
pub open spec fn in_phase(m: SendView, phase: PhaseView) -> SendView {
    SendView { phase, ..m }
}

/// All effects of the message `m` to a session in the state `s`, in order, and
/// the error that is returned in the end, if one is.
pub open spec fn course_of<A, P, C>(
    m: SendView,
    s: SessionView,
    c: Course<A, P, C>,
) -> (Seq<EffectView<A, P, C>>, Option<Seq<char>>) {
    let a = on_resolved::<A, P, C>(m, s, c.refs, c.user_id);
    if a.phase is Over {
        (a.effects, a.action->Return_0)
    } else {
        let b = on_announced::<A, P, C>(in_phase(m, a.phase), a.session, c.placeholder, c.rect);
        let d = on_prompted::<A, P, C>(in_phase(m, b.phase), a.session, c.prompt);
        let so_far = a.effects + b.effects + d.effects;
        if d.phase is Over {
            (so_far, d.action->Return_0)
        } else {
            let g = on_generated::<A, P, C>(
                in_phase(m, d.phase),
                c.at_generated,
                c.outcome,
                c.end_id,
            );
            if g.phase is Over {
                (so_far + g.effects, g.action->Return_0)
            } else {
                let f = on_placed::<A, P, C>(
                    in_phase(m, g.phase),
                    c.at_placed,
                    c.placed,
                    c.end_id,
                );
                (so_far + g.effects + f.effects, f.action->Return_0)
            }
        }
    }
}

/// Whether a message to a session in the state `s` is taken up: its images were
/// looked up and no other turn is in flight.
pub open spec fn is_taken_up<A, P, C>(s: SessionView, c: Course<A, P, C>) -> bool {
    c.refs is Ok && s.in_flight is None
}

/// Whether a message comes to the end of its turn: it is taken up, its prompt
/// can be built, and its turn is in flight when the generation is over.
pub open spec fn is_carried_through<A, P, C>(s: SessionView, c: Course<A, P, C>) -> bool {
    is_taken_up(s, c) && c.prompt is Ok && c.at_generated.in_flight == Some(s.begun + 1)
}

proof fn count_of_push<A, P, C>(
    effects: Seq<EffectView<A, P, C>>,
    e: EffectView<A, P, C>,
    p: spec_fn(EffectView<A, P, C>) -> bool,
)
    ensures
        count(effects.push(e), p) == count(effects, p) + (if p(e) {
            1nat
        } else {
            0
        }),
{
    assert(effects.push(e).drop_last() =~= effects);
}

proof fn count_of_concat<A, P, C>(
    a: Seq<EffectView<A, P, C>>,
    b: Seq<EffectView<A, P, C>>,
    p: spec_fn(EffectView<A, P, C>) -> bool,
)
    ensures
        count(a + b, p) == count(a, p) + count(b, p),
    decreases b.len(),
{
    if b.len() == 0 {
        assert(a + b =~= a);
    } else {
        assert((a + b).drop_last() =~= a + b.drop_last());
        count_of_concat(a, b.drop_last(), p);
    }
}

proof fn count_of_kept<A, P, C>(
    s: SessionView,
    message: JsonView,
    p: spec_fn(EffectView<A, P, C>) -> bool,
)
    requires
        forall|e: EffectView<A, P, C>| e is Append ==> !(#[trigger] p(e)),
    ensures
        count(turn::kept::<A, P, C>(s, message), p) == 0,
{
    if s.active.len() > 0 {
        let e = EffectView::<A, P, C>::Append { session_id: s.active, message };
        count_of_push(Seq::empty(), e, p);
    }
}

proof fn count_of_failed<A, P, C>(
    s: SessionView,
    turn: int,
    error: Seq<char>,
    message_id: Seq<char>,
)
    ensures
        count(turn::failed_effects::<A, P, C>(s, turn, error, message_id), removes()) == 0,
        count(turn::failed_effects::<A, P, C>(s, turn, error, message_id), completes()) == 1,
{
    let record = records::error_message(message_id, error);
    let head = turn::kept::<A, P, C>(s, record);
    let log = turn::told::<A, P, C>(s, EventView::Log { level: "error"@, message: error });
    let end = turn::told::<A, P, C>(
        s,
        EventView::TurnComplete { status: "error"@, error: Some(error) },
    );
    let finish = EffectView::<A, P, C>::FinishTurn(turn);
    count_of_kept::<A, P, C>(s, record, removes());
    count_of_kept::<A, P, C>(s, record, completes());
    count_of_tail(head, log, end, finish);
}

proof fn count_of_tail<A, P, C>(
    head: Seq<EffectView<A, P, C>>,
    x: EffectView<A, P, C>,
    y: EffectView<A, P, C>,
    z: EffectView<A, P, C>,
)
    requires
        count(head, removes()) == 0,
        count(head, completes()) == 0,
        x is Emit && !completes::<A, P, C>()(x),
        y is Emit && completes::<A, P, C>()(y),
        z is FinishTurn,
    ensures
        count(head + seq![x, y, z], removes()) == 0,
        count(head + seq![x, y, z], completes()) == 1,
{
    assert(head + seq![x, y, z] =~= head.push(x).push(y).push(z));
    count_of_push(head, x, removes());
    count_of_push(head.push(x), y, removes());
    count_of_push(head.push(x).push(y), z, removes());
    count_of_push(head, x, completes());
    count_of_push(head.push(x), y, completes());
    count_of_push(head.push(x).push(y), z, completes());
}

proof fn count_of_completed<A, P, C>(
    s: SessionView,
    turn: int,
    asset: Asset<A>,
    placement: Placement<P>,
    caption: Option<Seq<char>>,
    placeholder: Seq<char>,
    message_id: Seq<char>,
)
    ensures
        count(
            turn::completed_effects::<A, P, C>(
                s,
                turn,
                asset,
                placement,
                caption,
                placeholder,
                message_id,
            ),
            removes(),
        ) == 0,
        count(
            turn::completed_effects::<A, P, C>(
                s,
                turn,
                asset,
                placement,
                caption,
                placeholder,
                message_id,
            ),
            completes(),
        ) == 1,
{
    let record = records::image_message(message_id, placement.id@, caption);
    let head = turn::kept::<A, P, C>(s, record);
    let image = turn::told::<A, P, C>(
        s,
        EventView::ImageGenerated {
            asset,
            placement,
            caption,
            placeholder_id: Some(placeholder),
        },
    );
    let end = turn::told::<A, P, C>(
        s,
        EventView::TurnComplete { status: "completed"@, error: None },
    );
    let finish = EffectView::<A, P, C>::FinishTurn(turn);
    count_of_kept::<A, P, C>(s, record, removes());
    count_of_kept::<A, P, C>(s, record, completes());
    count_of_tail(head, image, end, finish);
}

/// A message has its overlays removed exactly once, except where it was taken
/// up and its prompt cannot be built; and it tells of the end of its turn
/// exactly once where it is carried through, and never otherwise.
pub proof fn messages_end_once<A, P, C>(m: SendView, s: SessionView, c: Course<A, P, C>)
    requires
        m.phase is Resolving,
    ensures
        count(course_of(m, s, c).0, removes()) == (if is_taken_up(s, c) && c.prompt is Err {
            0nat
        } else {
            1
        }),
        count(course_of(m, s, c).0, completes()) == (if is_carried_through(s, c) {
            1nat
        } else {
            0
        }),
{
    let none = Seq::<EffectView<A, P, C>>::empty();
    let removal = EffectView::<A, P, C>::RemoveOverlays(m.overlays);
    count_of_push(none, removal, removes());
    count_of_push(none, removal, completes());
    if is_taken_up(s, c) {
        let a = on_resolved::<A, P, C>(m, s, c.refs, c.user_id);
        let b = on_announced::<A, P, C>(in_phase(m, a.phase), a.session, c.placeholder, c.rect);
        let d = on_prompted::<A, P, C>(in_phase(m, b.phase), a.session, c.prompt);
        let record = records::user_message(c.user_id, m.shown, m.sources);
        count_of_kept::<A, P, C>(s, record, removes());
        count_of_kept::<A, P, C>(s, record, completes());
        if c.rect is Some {
            count_of_push(none, b.effects[0], removes());
            count_of_push(none, b.effects[0], completes());
        }
        let so_far = a.effects + b.effects + d.effects;
        count_of_concat(a.effects, b.effects, removes());
        count_of_concat(a.effects, b.effects, completes());
        count_of_concat(a.effects + b.effects, d.effects, removes());
        count_of_concat(a.effects + b.effects, d.effects, completes());
        assert(count(so_far, removes()) == 0);
        assert(count(so_far, completes()) == 0);
        if c.prompt is Ok {
            let g = on_generated::<A, P, C>(
                in_phase(m, d.phase),
                c.at_generated,
                c.outcome,
                c.end_id,
            );
            count_of_concat(so_far, g.effects, removes());
            count_of_concat(so_far, g.effects, completes());
            if is_carried_through(s, c) {
                match c.outcome {
                    Err(e) => {
                        let failed = turn::failed_effects::<A, P, C>(
                            c.at_generated,
                            s.begun + 1,
                            e,
                            c.end_id,
                        );
                        count_of_failed::<A, P, C>(c.at_generated, s.begun + 1, e, c.end_id);
                        count_of_concat(seq![removal], failed, removes());
                        count_of_concat(seq![removal], failed, completes());
                    },
                    Ok(image) => {
                        let f = on_placed::<A, P, C>(
                            in_phase(m, g.phase),
                            c.at_placed,
                            c.placed,
                            c.end_id,
                        );
                        count_of_concat(so_far + g.effects, f.effects, removes());
                        count_of_concat(so_far + g.effects, f.effects, completes());
                        match c.placed {
                            Err(e) => {
                                count_of_failed::<A, P, C>(
                                    c.at_placed,
                                    s.begun + 1,
                                    e,
                                    c.end_id,
                                );
                            },
                            Ok((asset, placement)) => {
                                count_of_completed::<A, P, C>(
                                    c.at_placed,
                                    s.begun + 1,
                                    asset,
                                    placement,
                                    image.caption,
                                    c.placeholder,
                                    c.end_id,
                                );
                            },
                        }
                    },
                }
            }
        }
    }
}

/// The events that `effects` tell of, in order.
pub open spec fn events_of<A, P, C>(effects: Seq<EffectView<A, P, C>>) -> Seq<EventView<A, P, C>>
    decreases effects.len(),
{
    if effects.len() == 0 {
        Seq::empty()
    } else {
        let before = events_of(effects.drop_last());
        match effects.last() {
            EffectView::Emit { board_id: _, event } => before.push(event),
            _ => before,
        }
    }
}

/// The events that tell of the error `error` and of the end of its turn.
pub open spec fn failure_events<A, P, C>(error: Seq<char>) -> Seq<EventView<A, P, C>> {
    seq![
        EventView::Log { level: "error"@, message: error },
        EventView::TurnComplete { status: "error"@, error: Some(error) },
    ]
}

/// The events that tell of the begin of a generation, where there is a place
/// for its placeholder.
pub open spec fn opening_events<A, P, C>(c: Course<A, P, C>) -> Seq<EventView<A, P, C>> {
    match c.rect {
        Some(rect) => seq![
            EventView::GenerationStarted {
                placeholder_id: c.placeholder,
                x: rect.x,
                y: rect.y,
                w: rect.w,
                h: rect.h,
            },
        ],
        None => Seq::empty(),
    }
}

/// The events that tell of an image or of an error, and then of the end of the
/// turn.
pub open spec fn closing_events<A, P, C>(c: Course<A, P, C>) -> Seq<EventView<A, P, C>> {
    match c.outcome {
        Err(e) => failure_events(e),
        Ok(image) => match c.placed {
            Err(e) => failure_events(e),
            Ok((asset, placement)) => seq![
                EventView::ImageGenerated {
                    asset,
                    placement,
                    caption: image.caption,
                    placeholder_id: Some(c.placeholder),
                },
                EventView::TurnComplete { status: "completed"@, error: None },
            ],
        },
    }
}

proof fn events_of_concat<A, P, C>(a: Seq<EffectView<A, P, C>>, b: Seq<EffectView<A, P, C>>)
    ensures
        events_of(a + b) == events_of(a) + events_of(b),
    decreases b.len(),
{
    if b.len() == 0 {
        assert(a + b =~= a);
        assert(events_of(a) + events_of(b) =~= events_of(a));
    } else {
        assert((a + b).drop_last() =~= a + b.drop_last());
        events_of_concat(a, b.drop_last());
        assert(events_of(a + b) =~= events_of(a) + events_of(b));
    }
}

proof fn events_of_one<A, P, C>(e: EffectView<A, P, C>)
    ensures
        events_of(seq![e]) == (match e {
            EffectView::Emit { board_id: _, event } => seq![event],
            _ => Seq::empty(),
        }),
{
    assert(seq![e].drop_last() =~= Seq::empty());
    assert(events_of(seq![e].drop_last()) =~= Seq::empty());
    match e {
        EffectView::Emit { board_id: _, event } => {
            assert(events_of(seq![e]) =~= seq![event]);
        },
        _ => {},
    }
}

proof fn events_of_kept<A, P, C>(s: SessionView, message: JsonView)
    ensures
        events_of(turn::kept::<A, P, C>(s, message)) == Seq::<EventView<A, P, C>>::empty(),
{
    if s.active.len() > 0 {
        events_of_one(EffectView::<A, P, C>::Append { session_id: s.active, message });
    }
}

/// A record, two events and the end of a turn tell of the two events.
proof fn events_of_ending<A, P, C>(
    s: SessionView,
    message: JsonView,
    x: EventView<A, P, C>,
    y: EventView<A, P, C>,
    turn: int,
)
    ensures
        events_of(
            turn::kept::<A, P, C>(s, message) + seq![
                turn::told(s, x),
                turn::told(s, y),
                EffectView::FinishTurn(turn),
            ],
        ) == seq![x, y],
{
    let tail = seq![
        turn::told(s, x),
        turn::told(s, y),
        EffectView::<A, P, C>::FinishTurn(turn),
    ];
    events_of_kept::<A, P, C>(s, message);
    events_of_concat(turn::kept::<A, P, C>(s, message), tail);
    assert(tail =~= seq![turn::told(s, x)] + seq![turn::told(s, y)] + seq![tail[2]]);
    events_of_concat(seq![turn::told(s, x)] + seq![turn::told(s, y)], seq![tail[2]]);
    events_of_concat(seq![turn::told(s, x)], seq![turn::told(s, y)]);
    events_of_one(tail[0]);
    events_of_one(tail[1]);
    events_of_one(tail[2]);
    assert(events_of(turn::kept::<A, P, C>(s, message) + tail) =~= seq![x, y]);
}

/// A message tells of the begin of its generation at most once; then, where it
/// is carried through, of its image or of an error, and last of the end of its
/// turn. It tells of nothing else, and of nothing at all where it is not taken
/// up.
pub proof fn messages_tell_their_course<A, P, C>(m: SendView, s: SessionView, c: Course<A, P, C>)
    requires
        m.phase is Resolving,
    ensures
        events_of(course_of(m, s, c).0) == (if is_taken_up(s, c) {
            opening_events(c)
        } else {
            Seq::empty()
        }) + (if is_carried_through(s, c) {
            closing_events(c)
        } else {
            Seq::empty()
        }),
{
    let removal = seq![EffectView::<A, P, C>::RemoveOverlays(m.overlays)];
    let all = course_of(m, s, c).0;
    events_of_one(removal[0]);
    if !is_taken_up(s, c) {
        assert(all == removal);
        assert(events_of(all) =~= Seq::empty());
    } else {
        let turn = s.begun + 1;
        let a = on_resolved::<A, P, C>(m, s, c.refs, c.user_id);
        let b = on_announced::<A, P, C>(in_phase(m, a.phase), a.session, c.placeholder, c.rect);
        let d = on_prompted::<A, P, C>(in_phase(m, b.phase), a.session, c.prompt);
        let so_far = a.effects + b.effects + d.effects;
        events_of_kept::<A, P, C>(s, records::user_message(c.user_id, m.shown, m.sources));
        if c.rect is Some {
            events_of_one(b.effects[0]);
            assert(b.effects =~= seq![b.effects[0]]);
        }
        events_of_concat(a.effects, b.effects);
        events_of_concat(a.effects + b.effects, d.effects);
        assert(events_of(so_far) =~= opening_events(c));
        if c.prompt is Ok {
            let g = on_generated::<A, P, C>(
                in_phase(m, d.phase),
                c.at_generated,
                c.outcome,
                c.end_id,
            );
            events_of_concat(so_far, g.effects);
            if is_carried_through(s, c) {
                match c.outcome {
                    Err(e) => {
                        let failed = turn::failed_effects::<A, P, C>(
                            c.at_generated,
                            turn,
                            e,
                            c.end_id,
                        );
                        failed_turns_tell::<A, P, C>(c.at_generated, turn, e, c.end_id);
                        events_of_concat(removal, failed);
                    },
                    Ok(image) => {
                        let f = on_placed::<A, P, C>(
                            in_phase(m, g.phase),
                            c.at_placed,
                            c.placed,
                            c.end_id,
                        );
                        events_of_concat(so_far + g.effects, f.effects);
                        match c.placed {
                            Err(e) => {
                                failed_turns_tell::<A, P, C>(c.at_placed, turn, e, c.end_id);
                            },
                            Ok((asset, placement)) => {
                                events_of_ending::<A, P, C>(
                                    c.at_placed,
                                    records::image_message(
                                        c.end_id,
                                        placement.id@,
                                        image.caption,
                                    ),
                                    closing_events(c)[0],
                                    closing_events(c)[1],
                                    turn,
                                );
                            },
                        }
                    },
                }
            }
        }
        assert(events_of(all) =~= opening_events(c) + (if is_carried_through(s, c) {
            closing_events(c)
        } else {
            Seq::empty()
        }));
    }
}

proof fn failed_turns_tell<A, P, C>(
    s: SessionView,
    turn: int,
    error: Seq<char>,
    message_id: Seq<char>,
)
    ensures
        events_of(turn::failed_effects::<A, P, C>(s, turn, error, message_id))
            == failure_events::<A, P, C>(error),
{
    events_of_ending::<A, P, C>(
        s,
        records::error_message(message_id, error),
        failure_events(error)[0],
        failure_events(error)[1],
        turn,
    );
    assert(events_of(turn::failed_effects::<A, P, C>(s, turn, error, message_id))
        =~= failure_events::<A, P, C>(error));
}

/// An error is returned only where a message is not taken up or its prompt
/// cannot be built; a generation or a placement that fails is told of instead.
pub proof fn failed_generations_are_told_not_returned<A, P, C>(
    m: SendView,
    s: SessionView,
    c: Course<A, P, C>,
)
    requires
        m.phase is Resolving,
    ensures
        course_of(m, s, c).1 == (match c.refs {
            Err(e) => Some(e),
            Ok(_) => if s.in_flight is Some {
                Some(busy_message())
            } else {
                match c.prompt {
                    Err(e) => Some(e),
                    Ok(_) => None,
                }
            },
        }),
{
}

/// A turn that was interrupted says nothing more: whatever happens to the
/// session before the generation is over, its outcome only has the overlays
/// removed.
pub proof fn ended_turns_say_nothing_more<A, P, C>(
    m: SendView,
    s: SessionView,
    ops: Seq<SessionOp>,
    outcome: Result<ImageView, Seq<char>>,
    message_id: Seq<char>,
)
    requires
        m.phase is Generating,
        session::is_session(s),
        m.phase->Generating_turn <= s.begun,
    ensures
        on_generated::<A, P, C>(
            m,
            session::after_ops(session::without_turn(s), ops),
            outcome,
            message_id,
        ).effects == seq![EffectView::<A, P, C>::RemoveOverlays(m.overlays)],
        on_generated::<A, P, C>(
            m,
            session::after_ops(session::without_turn(s), ops),
            outcome,
            message_id,
        ).action == ActionView::Return(None),
{
    session::ended_turns_stay_ended(session::without_turn(s), m.phase->Generating_turn, ops);
}

/// A turn that ends, with an image or with an error, leaves no turn in flight
/// where it was the one in flight.
pub proof fn ending_a_turn_frees_the_session<A, P, C>(
    s: SessionView,
    turn: int,
    error: Seq<char>,
    asset: Asset<A>,
    placement: Placement<P>,
    caption: Option<Seq<char>>,
    placeholder: Seq<char>,
    message_id: Seq<char>,
)
    requires
        s.in_flight == Some(turn),
    ensures
        after_effects(
            s,
            turn::failed_effects::<A, P, C>(s, turn, error, message_id),
        ).in_flight is None,
        after_effects(
            s,
            turn::completed_effects::<A, P, C>(
                s,
                turn,
                asset,
                placement,
                caption,
                placeholder,
                message_id,
            ),
        ).in_flight is None,
{
    finishing_effects_free(s, turn::failed_effects::<A, P, C>(s, turn, error, message_id), turn);
    finishing_effects_free(
        s,
        turn::completed_effects::<A, P, C>(
            s,
            turn,
            asset,
            placement,
            caption,
            placeholder,
            message_id,
        ),
        turn,
    );
}

proof fn finishing_effects_free<A, P, C>(
    s: SessionView,
    effects: Seq<EffectView<A, P, C>>,
    turn: int,
)
    requires
        effects.len() > 0,
        effects.last() == EffectView::<A, P, C>::FinishTurn(turn),
        s.in_flight == Some(turn),
    ensures
        after_effects(s, effects).in_flight is None,
{
    effects_only_finish(s, effects.drop_last());
}

proof fn effects_only_finish<A, P, C>(s: SessionView, effects: Seq<EffectView<A, P, C>>)
    ensures
        after_effects(s, effects).in_flight == s.in_flight || after_effects(
            s,
            effects,
        ).in_flight is None,
    decreases effects.len(),
{
    if effects.len() > 0 {
        effects_only_finish(s, effects.drop_last());
    }
}

/// While a turn is in flight every further message is refused with the same
/// words, has its overlays removed and leaves the session alone.
pub proof fn busy_sessions_refuse_messages<A, P, C>(
    m: SendView,
    s: SessionView,
    refs: Seq<RefView>,
    message_id: Seq<char>,
)
    requires
        s.in_flight is Some,
    ensures
        on_resolved::<A, P, C>(m, s, Ok(refs), message_id) == refused::<A, P, C>(
            m,
            s,
            busy_message(),
        ),
{
}

/// The records that `effects` add to timelines, in order, each with its
/// timeline.
pub open spec fn appends_of<A, P, C>(effects: Seq<EffectView<A, P, C>>) -> Seq<
    (Seq<char>, JsonView),
>
    decreases effects.len(),
{
    if effects.len() == 0 {
        Seq::empty()
    } else {
        let before = appends_of(effects.drop_last());
        match effects.last() {
            EffectView::Append { session_id, message } => before.push((session_id, message)),
            _ => before,
        }
    }
}

proof fn appends_of_concat<A, P, C>(a: Seq<EffectView<A, P, C>>, b: Seq<EffectView<A, P, C>>)
    ensures
        appends_of(a + b) == appends_of(a) + appends_of(b),
    decreases b.len(),
{
    if b.len() == 0 {
        assert(a + b =~= a);
        assert(appends_of(a) + appends_of(b) =~= appends_of(a));
    } else {
        assert((a + b).drop_last() =~= a + b.drop_last());
        appends_of_concat(a, b.drop_last());
        assert(appends_of(a + b) =~= appends_of(a) + appends_of(b));
    }
}

proof fn appends_of_none<A, P, C>(effects: Seq<EffectView<A, P, C>>)
    requires
        forall|k: int| 0 <= k < effects.len() ==> !((#[trigger] effects[k]) is Append),
    ensures
        appends_of(effects) == Seq::<(Seq<char>, JsonView)>::empty(),
    decreases effects.len(),
{
    if effects.len() > 0 {
        let front = effects.drop_last();
        assert forall|k: int| 0 <= k < front.len() implies !((#[trigger] front[k]) is Append) by {
            assert(front[k] == effects[k]);
        }
        appends_of_none(front);
        assert(!(effects[effects.len() - 1] is Append));
    }
}

/// A record that is kept, with `tail` behind it, is the only one.
proof fn appends_of_kept<A, P, C>(
    s: SessionView,
    message: JsonView,
    tail: Seq<EffectView<A, P, C>>,
)
    requires
        forall|k: int| 0 <= k < tail.len() ==> !((#[trigger] tail[k]) is Append),
    ensures
        appends_of(turn::kept::<A, P, C>(s, message) + tail) == (if s.active.len() > 0 {
            seq![(s.active, message)]
        } else {
            Seq::empty()
        }),
{
    let kept = turn::kept::<A, P, C>(s, message);
    appends_of_concat(kept, tail);
    appends_of_none(tail);
    if s.active.len() > 0 {
        assert(kept.drop_last() =~= Seq::empty());
        assert(appends_of(kept.drop_last()) =~= Seq::empty());
        assert(appends_of(kept) =~= seq![(s.active, message)]);
    }
    assert(appends_of(kept + tail) =~= appends_of(kept));
}

/// A message leaves at most two records: its own where it is taken up, and one
/// of how its turn ended where it is carried through, each in the timeline that
/// the session then writes to. The first holds what is shown and the sources.
/// The second holds the error, or one block that leads to the placement.
pub proof fn messages_leave_their_records<A, P, C>(m: SendView, s: SessionView, c: Course<A, P, C>)
    requires
        m.phase is Resolving,
    ensures
        ({
            let kept = appends_of(course_of(m, s, c).0);
            let taken = c.refs is Ok && s.in_flight is None && s.active.len() > 0;
            let through = c.refs is Ok && s.in_flight is None && c.prompt is Ok
                && c.at_generated.in_flight == Some(s.begun + 1);
            let at_end = match c.outcome {
                Ok(_) => c.at_placed,
                Err(_) => c.at_generated,
            };
            let ended = through && at_end.active.len() > 0;
            &&& kept.len() == (if taken {
                1nat
            } else {
                0
            }) + (if ended {
                1nat
            } else {
                0
            })
            &&& taken ==> {
                &&& kept[0].0 == s.active
                &&& json::child(kept[0].1, "id"@) == Some(JsonView::Text(c.user_id))
                &&& json::child(kept[0].1, "role"@) == Some(JsonView::Text("user"@))
                &&& json::child(kept[0].1, "text"@) == Some(JsonView::Text(m.shown))
                &&& json::child(kept[0].1, "refs"@) matches Some(JsonView::Array(listed))
                    && listed.len() == m.sources.len() && (forall|i: int|
                    0 <= i < m.sources.len() ==> #[trigger] listed[i] == JsonView::Text(
                        m.sources[i],
                    ))
            }
            &&& ended ==> {
                &&& kept.last().0 == at_end.active
                &&& json::child(kept.last().1, "id"@) == Some(JsonView::Text(c.end_id))
                &&& json::child(kept.last().1, "role"@) == Some(JsonView::Text("assistant"@))
                &&& match c.outcome {
                    Err(e) => json::child(kept.last().1, "error"@) == Some(JsonView::Text(e)),
                    Ok(image) => match c.placed {
                        Err(e) => json::child(kept.last().1, "error"@) == Some(JsonView::Text(e)),
                        Ok((_, placement)) => json::child(kept.last().1, "blocks"@) matches Some(
                            JsonView::Array(blocks),
                        ) && blocks.len() == 1 && json::child(blocks[0], "placementId"@) == Some(
                            JsonView::Text(placement.id@),
                        ) && json::child(blocks[0], "caption"@) == Some(
                            match image.caption {
                                Some(t) => JsonView::Text(t),
                                None => JsonView::Null,
                            },
                        ),
                    },
                }
            }
        }),
{
    let removal = seq![EffectView::<A, P, C>::RemoveOverlays(m.overlays)];
    let all = course_of(m, s, c).0;
    appends_of_none(removal);
    if c.refs is Ok && s.in_flight is None {
        let turn = s.begun + 1;
        let a = on_resolved::<A, P, C>(m, s, c.refs, c.user_id);
        let b = on_announced::<A, P, C>(in_phase(m, a.phase), a.session, c.placeholder, c.rect);
        let d = on_prompted::<A, P, C>(in_phase(m, b.phase), a.session, c.prompt);
        let so_far = a.effects + b.effects + d.effects;
        let own = records::user_message(c.user_id, m.shown, m.sources);
        records::user_records_hold_the_message(c.user_id, m.shown, m.sources);
        appends_of_kept::<A, P, C>(s, own, b.effects + d.effects);
        assert(so_far =~= a.effects + (b.effects + d.effects));
        if c.prompt is Ok {
            let g = on_generated::<A, P, C>(
                in_phase(m, d.phase),
                c.at_generated,
                c.outcome,
                c.end_id,
            );
            appends_of_concat(so_far, g.effects);
            if c.at_generated.in_flight == Some(turn) {
                match c.outcome {
                    Err(e) => {
                        failures_append(c, c.at_generated, turn, e);
                        appends_of_concat(
                            removal,
                            turn::failed_effects::<A, P, C>(c.at_generated, turn, e, c.end_id),
                        );
                    },
                    Ok(image) => {
                        let f = on_placed::<A, P, C>(
                            in_phase(m, g.phase),
                            c.at_placed,
                            c.placed,
                            c.end_id,
                        );
                        appends_of_concat(so_far + g.effects, f.effects);
                        match c.placed {
                            Err(e) => {
                                failures_append(c, c.at_placed, turn, e);
                            },
                            Ok((asset, placement)) => {
                                let record = records::image_message(
                                    c.end_id,
                                    placement.id@,
                                    image.caption,
                                );
                                records::image_records_lead_to_the_placement(
                                    c.end_id,
                                    placement.id@,
                                    image.caption,
                                );
                                appends_of_kept::<A, P, C>(
                                    c.at_placed,
                                    record,
                                    seq![
                                        turn::told(c.at_placed, closing_events(c)[0]),
                                        turn::told(c.at_placed, closing_events(c)[1]),
                                        EffectView::FinishTurn(turn),
                                    ],
                                );
                            },
                        }
                    },
                }
            }
        }
    }
}

proof fn failures_append<A, P, C>(
    c: Course<A, P, C>,
    s: SessionView,
    turn: int,
    error: Seq<char>,
)
    ensures
        appends_of(turn::failed_effects::<A, P, C>(s, turn, error, c.end_id)) == (
        if s.active.len() > 0 {
            seq![(s.active, records::error_message(c.end_id, error))]
        } else {
            Seq::empty()
        }),
        json::child(records::error_message(c.end_id, error), "error"@) == Some(
            JsonView::Text(error),
        ),
        json::child(records::error_message(c.end_id, error), "id"@) == Some(
            JsonView::Text(c.end_id),
        ),
        json::child(records::error_message(c.end_id, error), "role"@) == Some(
            JsonView::Text("assistant"@),
        ),
{
    records::error_records_say_what_went_wrong(c.end_id, error);
    appends_of_kept::<A, P, C>(
        s,
        records::error_message(c.end_id, error),
        seq![
            turn::told(s, EventView::Log { level: "error"@, message: error }),
            turn::told(s, EventView::TurnComplete { status: "error"@, error: Some(error) }),
            EffectView::FinishTurn(turn),
        ],
    );
}

/// The timeline leads back to the board: where a message is carried through and
/// its image is placed, looking up the placement that its last record names
/// among the placements of the board gives the one that was just added.
pub proof fn recorded_images_are_on_the_board<A, P, C>(
    m: SendView,
    s: SessionView,
    c: Course<A, P, C>,
    before: BoardDoc<A, P>,
    after: BoardDoc<A, P>,
    asset: Asset<A>,
    placement: Placement<P>,
)
    requires
        m.phase is Resolving,
        c.refs is Ok,
        s.in_flight is None,
        c.prompt is Ok,
        c.at_generated.in_flight == Some(s.begun + 1),
        c.outcome is Ok,
        c.placed == Ok::<(Asset<A>, Placement<P>), Seq<char>>((asset, placement)),
        c.at_placed.active.len() > 0,
        board::is_placed(before, after, asset, placement),
        forall|i: int|
            0 <= i < before.placements@.len() ==> (#[trigger] before.placements@[i]).id@
                != placement.id@,
    ensures
        ({
            let kept = appends_of(course_of(m, s, c).0);
            let record = kept.last().1;
            &&& kept.len() > 0 && kept.last().0 == c.at_placed.active
            &&& json::child(record, "blocks"@) matches Some(JsonView::Array(blocks))
                && blocks.len() == 1 && (json::child(blocks[0], "placementId"@) matches Some(
                JsonView::Text(id),
            ) && (forall|i: int|
                0 <= i < after.placements@.len() ==> ((#[trigger] after.placements@[i]).id@ == id
                    <==> i == before.placements@.len())) && after.placements@.last() == placement)
        }),
{
    messages_leave_their_records(m, s, c);
    let n = before.placements@.len() as int;
    assert(after.placements@[n] == placement);
    assert forall|i: int| 0 <= i < after.placements@.len() implies ((
    #[trigger] after.placements@[i]).id@ == placement.id@ <==> i == n) by {
        if i < n {
            assert(after.placements@[i] == before.placements@[i]);
        }
    }
}

/// Every effect of a message is about its own board, its own overlays and its
/// own turn, which is ended by the last effect where the message is carried
/// through and by none otherwise.
pub proof fn messages_touch_their_own_turn<A, P, C>(
    m: SendView,
    s: SessionView,
    c: Course<A, P, C>,
    k: int,
)
    requires
        m.phase is Resolving,
        c.at_generated.board_id == s.board_id,
        c.at_placed.board_id == s.board_id,
        0 <= k < course_of(m, s, c).0.len(),
    ensures
        ({
            let effects = course_of(m, s, c).0;
            let through = c.refs is Ok && s.in_flight is None && c.prompt is Ok
                && c.at_generated.in_flight == Some(s.begun + 1);
            &&& effects[k] matches EffectView::Emit { board_id, event: _ } ==> board_id
                == s.board_id
            &&& effects[k] matches EffectView::RemoveOverlays(paths) ==> paths == m.overlays
            &&& effects[k] matches EffectView::FinishTurn(turn) ==> turn == s.begun + 1 && k
                == effects.len() - 1 && through
            &&& through ==> effects.last() == EffectView::<A, P, C>::FinishTurn(s.begun + 1)
        }),
{
}

/// A message that is taken up begins the next turn of its session; one that is
/// refused leaves the session alone.
pub proof fn messages_begin_the_next_turn<A, P, C>(
    m: SendView,
    s: SessionView,
    refs: Result<Seq<RefView>, Seq<char>>,
    message_id: Seq<char>,
)
    ensures
        ({
            let step = on_resolved::<A, P, C>(m, s, refs, message_id);
            &&& refs is Ok && s.in_flight is None ==> step.session == (SessionView {
                begun: s.begun + 1,
                in_flight: Some(s.begun + 1),
                ..s
            }) && step.action == ActionView::Announce(refs->Ok_0)
            &&& !(refs is Ok && s.in_flight is None) ==> step.session == s && step.effects == seq![
                EffectView::<A, P, C>::RemoveOverlays(m.overlays),
            ]
            &&& refs matches Err(e) ==> step.action == ActionView::Return(Some(e))
            &&& refs is Ok && s.in_flight is Some ==> step.action == ActionView::Return(
                Some("API runtime is already generating. Stop it or wait for it to finish."@),
            )
        }),
{
}

/// What a message asks for next: a prompt once it is announced, an image once
/// its prompt is there, and a place for the image as long as its turn is the one
/// in flight.
pub proof fn messages_ask_for_one_thing_after_the_other<A, P, C>(
    m: SendView,
    s: SessionView,
    placeholder: Seq<char>,
    rect: Option<Rect<C>>,
    prompt: Result<Seq<char>, Seq<char>>,
    outcome: Result<ImageView, Seq<char>>,
    placed: Result<(Asset<A>, Placement<P>), Seq<char>>,
    message_id: Seq<char>,
)
    ensures
        on_announced::<A, P, C>(m, s, placeholder, rect).action == ActionView::BuildPrompt,
        prompt matches Ok(p) ==> on_prompted::<A, P, C>(m, s, prompt).action
            == ActionView::Generate(p),
        prompt matches Err(e) ==> on_prompted::<A, P, C>(m, s, prompt).action
            == ActionView::Return(Some(e)),
        on_prompted::<A, P, C>(m, s, prompt).effects.len() == 0,
        outcome matches Ok(image) ==> (on_generated::<A, P, C>(m, s, outcome, message_id).action
            == ActionView::Place(image) <==> s.in_flight == Some(m.phase->Generating_turn)),
        outcome is Err || s.in_flight != Some(m.phase->Generating_turn) ==> on_generated::<A, P, C>(
            m,
            s,
            outcome,
            message_id,
        ).action == ActionView::Return(None),
        on_placed::<A, P, C>(m, s, placed, message_id).action == ActionView::Return(None),
{
}

/// A message to a board without an open session is refused whatever the settings
/// are; with an open session it is refused exactly where the base URL or else
/// the model is blank.
pub proof fn missing_sessions_are_told_of_first(session_open: bool, api: ApiImageSettings)
    ensures
        !session_open ==> send_fault(session_open, api) == Some("session not started"@),
        session_open && text::is_blank(api.base_url@) ==> send_fault(session_open, api) == Some(
            "API base URL is required."@,
        ),
        session_open && !text::is_blank(api.base_url@) && text::is_blank(api.model@)
            ==> send_fault(session_open, api) == Some("API image model is required."@),
        send_fault(session_open, api) is None <==> session_open && !text::is_blank(api.base_url@)
            && !text::is_blank(api.model@),
{
    settings::blank_settings_are_refused(api);
}

}
