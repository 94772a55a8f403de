//! A session of a board: which timeline it writes to and which turn it is in.

use vstd::prelude::*;
use vstd::string::*;

verus! {

/// A session, over mathematical values.
pub struct SessionView {
    /// The board that the session belongs to.
    pub board_id: Seq<char>,
    /// The timeline that the session writes to; empty where it has none.
    pub active: Seq<char>,
    /// The number of turns that were begun. The turns are numbered from 1.
    pub begun: int,
    /// The turn that is in flight.
    pub in_flight: Option<int>,
}

/// Whether `s` is a state that a session can be in: a turn in flight is the one
/// that was begun last.
pub open spec fn is_session(s: SessionView) -> bool {
    &&& 0 <= s.begun
    &&& s.in_flight matches Some(t) ==> t == s.begun && 0 < t
}

/// `s` after its next turn was begun.
pub open spec fn with_turn(s: SessionView) -> SessionView {
    SessionView { begun: s.begun + 1, in_flight: Some(s.begun + 1), ..s }
}

/// `s` after the turn `turn` was finished. Another turn is left alone.
pub open spec fn with_turn_finished(s: SessionView, turn: int) -> SessionView {
    if s.in_flight == Some(turn) {
        SessionView { in_flight: None, ..s }
    } else {
        s
    }
}

/// `s` without a turn in flight.
pub open spec fn without_turn(s: SessionView) -> SessionView {
    SessionView { in_flight: None, ..s }
}

/// `s` with the timeline `id`.
pub open spec fn with_timeline(s: SessionView, id: Seq<char>) -> SessionView {
    SessionView { active: id, ..s }
}

/// The session of a board.
#[derive(Debug)]
pub struct ApiSession {
    board_id: String,
    active_session_id: String,
    next_turn: u64,
    in_flight: Option<u64>,
}

impl View for ApiSession {
    type V = SessionView;

    closed spec fn view(&self) -> SessionView {
        SessionView {
            board_id: self.board_id@,
            active: self.active_session_id@,
            begun: self.next_turn as int,
            in_flight: match self.in_flight {
                Some(t) => Some(t as int),
                None => None,
            },
        }
    }
}

impl ApiSession {
    #[verifier::type_invariant]
    spec fn well_formed(self) -> bool {
        is_session(self@)
    }

    /// A session of the board `board_id` that writes to the timeline
    /// `active_session_id`, if there is one.
    pub fn new(board_id: String, active_session_id: Option<String>) -> (s: ApiSession)
        ensures
            s@ == (SessionView {
                board_id: board_id@,
                active: match active_session_id {
                    Some(id) => id@,
                    None => Seq::empty(),
                },
                begun: 0,
                in_flight: None,
            }),
    {
        let active_session_id = match active_session_id {
            Some(id) => id,
            None => String::new(),
        };
        ApiSession { board_id, active_session_id, next_turn: 0, in_flight: None }
    }

    /// The board that the session belongs to.
    pub fn board_id(&self) -> (r: String)
        ensures
            r@ == self@.board_id,
    {
        self.board_id.clone()
    }

    /// The timeline that the session writes to.
    pub fn active_session(&self) -> (r: String)
        ensures
            r@ == self@.active,
    {
        self.active_session_id.clone()
    }

    /// Makes the session write to the timeline `id`.
    pub fn set_active_session(&mut self, id: String)
        ensures
            final(self)@ == with_timeline(old(self)@, id@),
    {
        proof {
            use_type_invariant(&*self);
        }
        self.active_session_id = id;
    }

    /// The number of turns that were begun.
    pub fn turns_begun(&self) -> (r: u64)
        ensures
            r == self@.begun,
    {
        self.next_turn
    }

    /// Whether a turn is in flight.
    pub fn is_working(&self) -> (b: bool)
        ensures
            b == (self@.in_flight is Some),
    {
        self.in_flight.is_some()
    }

    /// Begins the next turn, unless one is in flight.
    pub fn begin_turn(&mut self) -> (r: Result<u64, String>)
        requires
            old(self)@.in_flight is None ==> old(self)@.begun < u64::MAX,
        ensures
            old(self)@.in_flight is None ==> final(self)@ == with_turn(old(self)@) && (r matches Ok(
                t,
            ) && t == old(self)@.begun + 1),
            old(self)@.in_flight is Some ==> final(self)@ == old(self)@ && (r matches Err(e) && e@
                == "API runtime is already generating. Stop it or wait for it to finish."@),
            is_session(final(self)@),
    {
        proof {
            use_type_invariant(&*self);
        }
        if self.in_flight.is_some() {
            return Err(
                "API runtime is already generating. Stop it or wait for it to finish.".to_owned(),
            );
        }
        let turn_id: u64 = self.next_turn + 1;
        self.next_turn = turn_id;
        self.in_flight = Some(turn_id);
        Ok(turn_id)
    }

    /// Whether `turn_id` is the turn in flight.
    pub fn is_current_turn(&self, turn_id: u64) -> (b: bool)
        ensures
            b == (self@.in_flight == Some(turn_id as int)),
    {
        match self.in_flight {
            Some(t) => t == turn_id,
            None => false,
        }
    }

    /// Ends the turn `turn_id`. Another turn is left alone.
    pub fn finish_turn(&mut self, turn_id: u64)
        ensures
            final(self)@ == with_turn_finished(old(self)@, turn_id as int),
            is_session(final(self)@),
    {
        proof {
            use_type_invariant(&*self);
        }
        if self.is_current_turn(turn_id) {
            self.in_flight = None;
        }
    }

    /// Ends whatever turn is in flight and tells which one it was.
    pub fn cancel_turn(&mut self) -> (r: Option<u64>)
        ensures
            final(self)@ == without_turn(old(self)@),
            (match r {
                Some(t) => Some(t as int),
                None => None,
            }) == old(self)@.in_flight,
            is_session(final(self)@),
    {
        proof {
            use_type_invariant(&*self);
        }
        let turn = self.in_flight;
        self.in_flight = None;
        turn
    }
}

/// Whether a new timeline may be made for `session`: not while a turn is in
/// flight.
pub fn new_session(session: &ApiSession) -> (r: Result<(), String>)
    ensures
        r is Ok <==> session@.in_flight is None,
        r matches Err(e) ==> e@
            == "Cannot create a new session while the API runtime is working."@,
{
    if session.is_working() {
        Err("Cannot create a new session while the API runtime is working.".to_owned())
    } else {
        Ok(())
    }
}

/// Switches `session` to the timeline `session_id`, unless a turn is in flight.
pub fn switch_session(session: &mut ApiSession, session_id: String) -> (r: Result<(), String>)
    ensures
        old(session)@.in_flight is None ==> r is Ok && final(session)@ == with_timeline(
            old(session)@,
            session_id@,
        ),
        old(session)@.in_flight is Some ==> final(session)@ == old(session)@ && (r matches Err(e)
            && e@ == "Cannot switch sessions while the API runtime is working."@),
{
    if session.is_working() {
        Err("Cannot switch sessions while the API runtime is working.".to_owned())
    } else {
        session.set_active_session(session_id);
        Ok(())
    }
}

/// What can happen to a session.
pub enum SessionOp {
    /// A turn is begun, if none is in flight.
    Begin,
    /// A turn is finished.
    Finish(int),
    /// The turn in flight is interrupted, or the session is stopped.
    Cancel,
    /// The timeline is changed.
    Activate(Seq<char>),
}

/// `s` after `op`.
pub open spec fn after_op(s: SessionView, op: SessionOp) -> SessionView {
    match op {
        SessionOp::Begin => if s.in_flight is None {
            with_turn(s)
        } else {
            s
        },
        SessionOp::Finish(turn) => with_turn_finished(s, turn),
        SessionOp::Cancel => without_turn(s),
        SessionOp::Activate(id) => with_timeline(s, id),
    }
}

/// `s` after all of `ops`, in order.
pub open spec fn after_ops(s: SessionView, ops: Seq<SessionOp>) -> SessionView
    decreases ops.len(),
{
    if ops.len() == 0 {
        s
    } else {
        after_op(after_ops(s, ops.drop_last()), ops.last())
    }
}

/// Whatever happens to a session, it stays in a state that a session can be
/// in, belongs to its board, and forgets no turn that was begun.
pub proof fn sessions_stay_valid(s: SessionView, ops: Seq<SessionOp>)
    requires
        is_session(s),
    ensures
        is_session(after_ops(s, ops)),
        after_ops(s, ops).board_id == s.board_id,
        s.begun <= after_ops(s, ops).begun,
    decreases ops.len(),
{
    if ops.len() > 0 {
        sessions_stay_valid(s, ops.drop_last());
    }
}

/// A turn that was begun and is not in flight is over for good: it is never in
/// flight again, whatever happens to the session.
pub proof fn ended_turns_stay_ended(s: SessionView, turn: int, ops: Seq<SessionOp>)
    requires
        is_session(s),
        turn <= s.begun,
        s.in_flight != Some(turn),
    ensures
        after_ops(s, ops).in_flight != Some(turn),
    decreases ops.len(),
{
    if ops.len() > 0 {
        ended_turns_stay_ended(s, turn, ops.drop_last());
        sessions_stay_valid(s, ops.drop_last());
    }
}

/// No turn number is given twice: whatever happens between two turns, the later
/// one has the greater number.
pub proof fn turn_numbers_grow(s: SessionView, ops: Seq<SessionOp>)
    requires
        is_session(s),
        s.in_flight is None,
        after_ops(with_turn(s), ops).in_flight is None,
    ensures
        with_turn(s).in_flight == Some(s.begun + 1),
        with_turn(after_ops(with_turn(s), ops)).in_flight matches Some(later) && later > s.begun
            + 1,
{
    sessions_stay_valid(with_turn(s), ops);
}

/// Finishing a turn that is not in flight any more leaves the session alone, so
/// a late turn cannot end the one that took its place.
pub proof fn late_turns_end_nothing(s: SessionView, turn: int, ops: Seq<SessionOp>)
    requires
        is_session(s),
        turn <= s.begun,
        s.in_flight != Some(turn),
    ensures
        after_op(after_ops(s, ops), SessionOp::Finish(turn)) == after_ops(s, ops),
{
    ended_turns_stay_ended(s, turn, ops);
}

/// A turn that is begun and then finished leaves no turn in flight, so the next
/// one can be begun.
pub proof fn finishing_a_turn_frees_the_session(s: SessionView)
    requires
        is_session(s),
        s.in_flight is None,
    ensures
        with_turn_finished(with_turn(s), s.begun + 1) == (SessionView { begun: s.begun + 1, ..s }),
{
}

/// What happens to a session changes what it is about and nothing else: the
/// turn, or the timeline.
pub proof fn operations_change_their_part(s: SessionView, turn: int, id: Seq<char>)
    ensures
        ({
            let begun = after_op(s, SessionOp::Begin);
            &&& begun.board_id == s.board_id && begun.active == s.active
            &&& s.in_flight is None ==> begun.begun == s.begun + 1 && begun.in_flight == Some(
                begun.begun,
            )
            &&& s.in_flight is Some ==> begun == s
        }),
        ({
            let finished = after_op(s, SessionOp::Finish(turn));
            &&& finished.board_id == s.board_id && finished.active == s.active && finished.begun
                == s.begun
            &&& s.in_flight == Some(turn) ==> finished.in_flight is None
            &&& s.in_flight != Some(turn) ==> finished.in_flight == s.in_flight
        }),
        ({
            let cancelled = after_op(s, SessionOp::Cancel);
            &&& cancelled.board_id == s.board_id && cancelled.active == s.active
                && cancelled.begun == s.begun
            &&& cancelled.in_flight is None
        }),
        ({
            let moved = after_op(s, SessionOp::Activate(id));
            &&& moved.board_id == s.board_id && moved.begun == s.begun && moved.in_flight
                == s.in_flight
            &&& moved.active == id
        }),
{
}

}
