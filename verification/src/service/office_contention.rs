//! Two operations on offices under way at once, both about one name.
//!
//! Storage keeps the name for whoever asked for it first: the other
//! operation waits with its own question for the name until the first has
//! its result. Under that rule the questions of the two may be answered in
//! any order, and what comes out is still what comes out when one operation
//! runs from start to end and then the other.

use crate::entity::office::Office;
use crate::repository::office_repository::OfficeTable;
use crate::service::office_service::{
    after_add,
    law_add_keeps_order,
    law_one_name_one_office,
    lemma_serve_add,
    respond,
    run,
    serve,
    OfficeOutcomeView,
    OfficeRequest,
    OfficeSession,
    OfficeStepView,
};
use crate::service::ServiceError;
use crate::utils::Validate;
use vstd::prelude::*;

verus! {

/// The result of an operation by its content.
pub type Verdict = Result<OfficeOutcomeView, ServiceError>;

/// Whether an operation starts by asking for the name `name`.
pub open spec fn asks_for(request: OfficeRequest, name: Seq<char>) -> bool {
    match request {
        OfficeRequest::Add(office) => office.name@ == name,
        OfficeRequest::Update(_, office) => office.name@ == name,
        _ => false,
    }
}

/// One of the two operations: its session, and the step it is at.
pub struct Contender {
    pub session: OfficeSession,
    pub step: OfficeStepView,
}

impl Contender {
    /// The operation as it starts.
    pub open spec fn entering(request: OfficeRequest) -> Contender {
        Contender {
            session: OfficeSession::start(request).0,
            step: OfficeSession::start(request).1,
        }
    }

    /// The operation has its result.
    pub open spec fn done(self) -> bool {
        self.step is Done
    }

    /// The operation is about to ask for the name.
    pub open spec fn at_the_door(self) -> bool {
        self.step is Ask && self.step->Ask_0 is ByName && !(self.session.stage is Closed)
    }

    /// The operation is between its question for the name and its result.
    pub open spec fn inside(self) -> bool {
        self.step is Ask && !(self.step->Ask_0 is ByName) && !(self.session.stage is Closed)
    }

    /// The operation after its next question has been answered from `table`,
    /// and the table after that; nothing changes where it has its result.
    pub open spec fn advance(self, table: OfficeTable) -> (OfficeTable, Contender) {
        match self.step {
            OfficeStepView::Done(_) => (table, self),
            OfficeStepView::Ask(query) => {
                let answered = respond(table, query);
                let moved = self.session.next(answered.1);
                (answered.0, Contender { session: moved.0, step: moved.1 })
            },
        }
    }

    /// The operation carried through from where it is, alone.
    pub open spec fn finish(self, table: OfficeTable) -> (OfficeTable, Verdict) {
        run(table, self.session, self.step)
    }
}

/// The two operations and the table they share. `holder` says which of the
/// two the name is kept for: `Some(true)` for the first, `Some(false)` for
/// the second, `None` while it is kept for neither.
pub struct Race {
    pub table: OfficeTable,
    pub first: Contender,
    pub second: Contender,
    pub holder: Option<bool>,
}

impl Race {
    /// Both operations at their start.
    pub open spec fn opening(table: OfficeTable, first: OfficeRequest, second: OfficeRequest) -> Race {
        Race {
            table,
            first: Contender::entering(first),
            second: Contender::entering(second),
            holder: None,
        }
    }

    /// The operation whose turn it is.
    pub open spec fn mover(self, to_first: bool) -> Contender {
        if to_first {
            self.first
        } else {
            self.second
        }
    }

    /// Whether the operation whose turn it is can move: it has no result yet,
    /// and it is not about to ask for a name that is kept for the other.
    pub open spec fn can_move(self, to_first: bool) -> bool {
        let mover = self.mover(to_first);
        !mover.done() && !(mover.at_the_door() && self.holder == Some(!to_first))
    }

    /// One turn: the next question of the first operation (`to_first`) or of
    /// the second is answered. An operation that cannot move lets the turn
    /// pass. The name is kept for an operation from the answer to its
    /// question for the name until it has its result.
    pub open spec fn turn(self, to_first: bool) -> Race {
        if !self.can_move(to_first) {
            self
        } else {
            let mover = self.mover(to_first);
            let moved = mover.advance(self.table);
            let holder = if moved.1.done() {
                if self.holder == Some(to_first) {
                    None
                } else {
                    self.holder
                }
            } else if mover.at_the_door() {
                Some(to_first)
            } else {
                self.holder
            };
            if to_first {
                Race { table: moved.0, first: moved.1, second: self.second, holder }
            } else {
                Race { table: moved.0, first: self.first, second: moved.1, holder }
            }
        }
    }

    /// The turns of `schedule`, one after the other.
    pub open spec fn play(self, schedule: Seq<bool>) -> Race
        decreases schedule.len(),
    {
        if schedule.len() == 0 {
            self
        } else {
            self.turn(schedule[0]).play(schedule.drop_first())
        }
    }

    /// Where the two end when, from here on, one is carried through and then
    /// the other: the table, the result of the first, the result of the
    /// second. `first_leads` says which of the two is carried through first.
    pub open spec fn in_order(self, first_leads: bool) -> (OfficeTable, Verdict, Verdict) {
        if first_leads {
            let led = self.first.finish(self.table);
            let followed = self.second.finish(led.0);
            (followed.0, led.1, followed.1)
        } else {
            let led = self.second.finish(self.table);
            let followed = self.first.finish(led.0);
            (followed.0, followed.1, led.1)
        }
    }

    /// Where the two end from here: the one that the name is kept for is
    /// carried through first.
    pub open spec fn outcome(self) -> (OfficeTable, Verdict, Verdict) {
        self.in_order(self.holder != Some(false))
    }

    /// Each operation is where the rule lets it be: the one that the name is
    /// kept for is inside, and the other is at the door or has its result.
    pub open spec fn orderly(self) -> bool {
        &&& self.holder == Some(true) ==> self.first.inside()
        &&& self.holder == Some(false) ==> self.second.inside()
        &&& self.holder != Some(true) ==> self.first.at_the_door() || self.first.done()
        &&& self.holder != Some(false) ==> self.second.at_the_door() || self.second.done()
    }

    /// It is decided which of the two is carried through first, or it does
    /// not matter any more.
    pub open spec fn decided(self) -> bool {
        self.holder is Some || self.first.done() || self.second.done()
    }
}

/// An operation that starts by asking for a name is at the door or, where it
/// was refused at once, has its result.
pub proof fn lemma_enters_at_the_door(request: OfficeRequest, name: Seq<char>)
    requires
        asks_for(request, name),
    ensures
        Contender::entering(request).at_the_door() || Contender::entering(request).done(),
{
}

/// An operation that has its result stays as it is, and so does the table,
/// whatever it holds.
pub proof fn lemma_done_stays(contender: Contender)
    requires
        contender.done(),
    ensures
        forall|table: OfficeTable| #[trigger] contender.finish(table) == (table, contender.step->Done_0),
{
}

/// Carrying an operation through comes to the same before and after one of
/// its questions has been answered; and once it is past the door it does not
/// come back to it.
pub proof fn lemma_advance(contender: Contender, table: OfficeTable)
    requires
        contender.at_the_door() || contender.inside(),
    ensures
        ({
            let moved = contender.advance(table);
            &&& moved.1.finish(moved.0) == contender.finish(table)
            &&& moved.1.inside() || moved.1.done()
            &&& contender.at_the_door() ==> moved.0 == table
        }),
{
    reveal_with_fuel(run, 2);
}


/// A turn keeps the two where the rule lets them be. Once it is decided who
/// is carried through first, a turn does not change where the two end; while
/// it is open, the one that moves is the one that is carried through first.
pub proof fn lemma_turn(race: Race, to_first: bool)
    requires
        race.orderly(),
    ensures
        race.turn(to_first).orderly(),
        race.decided() ==> race.turn(to_first).decided() && race.turn(to_first).outcome()
            == race.outcome(),
        !race.decided() ==> race.turn(to_first).decided() && race.turn(to_first).outcome()
            == race.in_order(to_first),
{
    if race.holder is Some {
        let kept_for_first = race.holder->0;
        assert(race.holder == Some(kept_for_first));
    }
    if race.can_move(to_first) {
        let mover = race.mover(to_first);
        lemma_advance(mover, race.table);
        let moved = mover.advance(race.table);
        if moved.1.done() {
            lemma_done_stays(moved.1);
        }
        if race.first.done() {
            lemma_done_stays(race.first);
        }
        if race.second.done() {
            lemma_done_stays(race.second);
        }
    }
}

/// However the turns fall, the two end where they end when one of them is
/// carried through from where it is and then the other.
pub proof fn lemma_play(race: Race, schedule: Seq<bool>)
    requires
        race.orderly(),
    ensures
        race.play(schedule).orderly(),
        race.decided() ==> race.play(schedule).outcome() == race.outcome(),
        race.play(schedule).outcome() == race.in_order(true) || race.play(schedule).outcome()
            == race.in_order(false),
    decreases schedule.len(),
{
    if schedule.len() > 0 {
        lemma_turn(race, schedule[0]);
        lemma_play(race.turn(schedule[0]), schedule.drop_first());
    }
}

/// Where the two operations end when the first runs from start to end and
/// then the second: the table, the result of the first, the result of the
/// second.
pub open spec fn one_then_other(table: OfficeTable, first: OfficeRequest, second: OfficeRequest) -> (
    OfficeTable,
    Verdict,
    Verdict,
) {
    let led = serve(table, first);
    let followed = serve(led.0, second);
    (followed.0, led.1, followed.1)
}

/// Where the two operations end when the second runs from start to end and
/// then the first: the table, the result of the first, the result of the
/// second.
pub open spec fn other_then_one(table: OfficeTable, first: OfficeRequest, second: OfficeRequest) -> (
    OfficeTable,
    Verdict,
    Verdict,
) {
    let led = serve(table, second);
    let followed = serve(led.0, first);
    (followed.0, followed.1, led.1)
}

/// Two operations that start by asking for the same name, under way at
/// once: in whatever order their questions are answered, they end as if one
/// of them had run from start to end and then the other.
pub proof fn law_one_after_the_other(
    table: OfficeTable,
    first: OfficeRequest,
    second: OfficeRequest,
    name: Seq<char>,
    schedule: Seq<bool>,
)
    requires
        asks_for(first, name),
        asks_for(second, name),
    ensures
        ({
            let end = Race::opening(table, first, second).play(schedule).outcome();
            end == one_then_other(table, first, second) || end == other_then_one(
                table,
                first,
                second,
            )
        }),
{
    lemma_enters_at_the_door(first, name);
    lemma_enters_at_the_door(second, name);
    lemma_play(Race::opening(table, first, second), schedule);
}

/// Two valid offices of one name are to be added at once to a table that
/// has room and does not hold the name: in whatever order the questions of
/// the two are answered, exactly one of them is stored, and the other is
/// refused as a duplicate. Names that were apart stay apart.
pub proof fn law_one_name_under_contention(
    table: OfficeTable,
    first: Office,
    second: Office,
    schedule: Seq<bool>,
)
    requires
        table.wf(),
        first.violation() is None,
        second.violation() is None,
        first.name@ == second.name@,
        !table.has_name(first.name@),
        table.has_room(),
    ensures
        ({
            let end = Race::opening(table, OfficeRequest::Add(first), OfficeRequest::Add(second)).play(
                schedule,
            ).outcome();
            let duplicate = Err::<OfficeOutcomeView, ServiceError>(ServiceError::DuplicateName);
            &&& end.1 is Ok && end.2 == duplicate || end.1 == duplicate && end.2 is Ok
            &&& end.0.wf()
            &&& table.names_unique() ==> end.0.names_unique()
        }),
{
    law_one_after_the_other(
        table,
        OfficeRequest::Add(first),
        OfficeRequest::Add(second),
        first.name@,
        schedule,
    );
    law_one_name_one_office(table, first, second);
    law_one_name_one_office(table, second, first);
    lemma_serve_add(table, first);
    lemma_serve_add(after_add(table, first), second);
    lemma_serve_add(table, second);
    lemma_serve_add(after_add(table, second), first);
    law_add_keeps_order(table, first);
    law_add_keeps_order(table, second);
}

} // verus!
