//! The start of a session: whether one may be opened, and what the board's
//! record keeps of it.

use vstd::prelude::*;
use vstd::string::*;
use crate::session;
use crate::session::{ApiSession, SessionOp, SessionView};
use crate::settings;
use crate::settings::ApiImageSettings;
use crate::text;
use crate::turn;
use crate::turn::{CodexEventEnvelope, UnifiedEvent};

verus! {

/// The record of a board. `rest` is carried along and never looked at.
#[derive(Debug)]
pub struct BoardMeta<M> {
    /// The thread of a board from before it had timelines.
    pub thread_id: Option<String>,
    /// The runtime that the board was last used with.
    pub runtime: Option<String>,
    /// The timeline that the board was last used with.
    pub active_session_id: Option<String>,
    pub rest: M,
}

/// How a session is started.
#[derive(Debug)]
pub enum StartStep {
    /// The open session goes on with this timeline.
    Resume(String),
    /// A session has to be opened.
    Open,
}

/// The timeline that the open session `existing` of a board goes on with;
/// nothing where a session has to be opened.
pub open spec fn resumed(existing: Option<SessionView>) -> Option<Seq<char>> {
    match existing {
        Some(s) => if s.active.len() > 0 {
            Some(s.active)
        } else {
            None
        },
        None => None,
    }
}

/// Starts a session on a board whose open session is `existing`.
pub fn start_session(existing: Option<&ApiSession>) -> (r: StartStep)
    ensures
        (match r {
            StartStep::Resume(id) => Some(id@),
            StartStep::Open => None,
        }) == resumed(
            match existing {
                Some(s) => Some(s@),
                None => None,
            },
        ),
{
    match existing {
        None => StartStep::Open,
        Some(s) => {
            let active = s.active_session();
            if active.as_str().is_empty() {
                StartStep::Open
            } else {
                StartStep::Resume(active)
            }
        },
    }
}

/// Why a session may not be opened: what is wrong with the settings, or else
/// that the board is not known.
pub open spec fn start_fault(api: ApiImageSettings, board_known: bool) -> Option<Seq<char>> {
    match settings::settings_fault(api) {
        Some(fault) => Some(fault),
        None => if board_known {
            None
        } else {
            Some("unknown board"@)
        },
    }
}

/// Whether a session may be opened with the settings `api` on a board that is
/// known or not.
pub fn check_start(api: &ApiImageSettings, board_known: bool) -> (r: Result<(), String>)
    ensures
        (match r {
            Ok(_) => None,
            Err(e) => Some(e@),
        }) == start_fault(*api, board_known),
{
    match settings::validate_api_settings(api) {
        Err(e) => Err(e),
        Ok(_) => if board_known {
            Ok(())
        } else {
            Err("unknown board".to_owned())
        },
    }
}

/// Records that the board is used with the timeline `active` from now on.
pub fn record_timeline<M>(meta: &mut BoardMeta<M>, active: &str)
    ensures
        text::opt_view(final(meta).active_session_id) == Some(active@),
        final(meta).thread_id == old(meta).thread_id,
        final(meta).runtime == old(meta).runtime,
        final(meta).rest == old(meta).rest,
{
    meta.active_session_id = Some(active.to_owned());
}

/// Records that the board is used with this runtime and the timeline `active`
/// from now on.
pub fn record_start<M>(meta: &mut BoardMeta<M>, active: &str)
    ensures
        text::opt_view(final(meta).runtime) == Some("api"@),
        text::opt_view(final(meta).active_session_id) == Some(active@),
        final(meta).thread_id == old(meta).thread_id,
        final(meta).rest == old(meta).rest,
{
    meta.runtime = Some("api".to_owned());
    record_timeline(meta, active);
}

/// A session that was opened.
#[derive(Debug)]
pub struct OpenedSession<A, P, C> {
    pub session: ApiSession,
    /// The timeline that the session writes to.
    pub active: String,
    /// What the listeners are told.
    pub event: CodexEventEnvelope<A, P, C>,
}

/// A session of the board `board_id` as it is opened, with the timeline
/// `active`.
pub open spec fn opened(board_id: Seq<char>, active: Seq<char>) -> SessionView {
    SessionView { board_id, active, begun: 0, in_flight: None }
}

/// Opens a session of the board `board_id` for the model `model`. It writes to
/// the timeline `timeline`, or to none.
pub fn open_session<A, P, C>(
    board_id: String,
    timeline: Option<String>,
    model: &str,
) -> (r: OpenedSession<A, P, C>)
    ensures
        r.active@ == (match timeline {
            Some(id) => id@,
            None => Seq::empty(),
        }),
        r.session@ == opened(board_id@, r.active@),
        r.event.board_id@ == board_id@,
        r.event.event@ == (turn::EventView::<A, P, C>::SessionInit {
            thread_id: r.active@,
            model: model@,
        }),
{
    let session = ApiSession::new(board_id, timeline);
    let active = session.active_session();
    let event = turn::emit(
        &session,
        UnifiedEvent::SessionInit { thread_id: active.clone(), model: model.to_owned() },
    );
    OpenedSession { session, active, event }
}

/// Starting a session that is open changes nothing: as long as its timeline is
/// not changed, it goes on with the one that it was opened with.
pub proof fn open_sessions_are_resumed(
    board_id: Seq<char>,
    active: Seq<char>,
    ops: Seq<SessionOp>,
)
    requires
        active.len() > 0,
        forall|i: int| 0 <= i < ops.len() ==> !((#[trigger] ops[i]) is Activate),
    ensures
        resumed(Some(session::after_ops(opened(board_id, active), ops))) == Some(active),
    decreases ops.len(),
{
    if ops.len() > 0 {
        assert(!(ops[ops.len() - 1] is Activate));
        assert forall|i: int| 0 <= i < ops.drop_last().len() implies !((
        #[trigger] ops.drop_last()[i]) is Activate) by {
            assert(ops.drop_last()[i] == ops[i]);
        }
        open_sessions_are_resumed(board_id, active, ops.drop_last());
    }
}

/// A session is opened exactly where the settings are complete and the board is
/// known; faulty settings are told of first.
pub proof fn sessions_open_on_known_boards(api: ApiImageSettings, board_known: bool)
    ensures
        start_fault(api, board_known) is None <==> !text::is_blank(api.base_url@)
            && !text::is_blank(api.model@) && board_known,
        text::is_blank(api.base_url@) ==> start_fault(api, board_known) == Some(
            "API base URL is required."@,
        ),
        !text::is_blank(api.base_url@) && text::is_blank(api.model@) ==> start_fault(
            api,
            board_known,
        ) == Some("API image model is required."@),
        !text::is_blank(api.base_url@) && !text::is_blank(api.model@) && !board_known
            ==> start_fault(api, board_known) == Some("unknown board"@),
{
    settings::blank_settings_are_refused(api);
}

/// A board goes on with its session exactly where one is open that writes to a
/// timeline, and with that timeline.
pub proof fn sessions_with_a_timeline_go_on(existing: Option<SessionView>)
    ensures
        resumed(existing) is Some <==> existing is Some && existing->0.active
            != Seq::<char>::empty(),
        resumed(existing) matches Some(id) ==> id == existing->0.active,
{
    if existing is Some && existing->0.active.len() == 0 {
        assert(existing->0.active =~= Seq::empty());
    }
}

}
