//! Two operations on employees under way at once, both about one office.
//!
//! Storage keeps the office for whoever asked for it first: the other
//! operation waits with its own question for the office until the first has
//! its result. Under that rule the questions of the two may be answered in
//! any order, and what comes out is still what comes out when one operation
//! runs from start to end and then the other.

use crate::entity::employee::Employee;
use crate::service::employee_service::{
    after_hire,
    lemma_count_fits,
    lemma_serve_hire,
    law_hire_fills_office,
    respond,
    run,
    serve,
    Books,
    EmployeeOutcomeView,
    EmployeeRequest,
    EmployeeSession,
    EmployeeStepView,
};
use crate::service::ServiceError;
use crate::utils::Validate;
use vstd::prelude::*;

verus! {

/// The result of an operation by its content.
pub type Verdict = Result<EmployeeOutcomeView, ServiceError>;

/// Whether an operation starts by asking for the office `office_id`.
pub open spec fn asks_for(request: EmployeeRequest, office_id: i32) -> bool {
    match request {
        EmployeeRequest::Add(employee) => employee.office_id == office_id,
        EmployeeRequest::Update(_, employee) => employee.office_id == office_id,
        EmployeeRequest::ListByOffice(wanted) => wanted == office_id,
        _ => false,
    }
}

/// One of the two operations: its session, and the step it is at.
pub struct Contender {
    pub session: EmployeeSession,
    pub step: EmployeeStepView,
}

impl Contender {
    /// The operation as it starts.
    pub open spec fn entering(request: EmployeeRequest) -> Contender {
        Contender {
            session: EmployeeSession::start(request).0,
            step: EmployeeSession::start(request).1,
        }
    }

    /// The operation has its result.
    pub open spec fn done(self) -> bool {
        self.step is Done
    }

    /// The operation is about to ask for the office.
    pub open spec fn at_the_door(self) -> bool {
        self.step is Ask && self.step->Ask_0 is OfficeById && !(self.session.stage is Closed)
    }

    /// The operation is between its question for the office and its result.
    pub open spec fn inside(self) -> bool {
        self.step is Ask && !(self.step->Ask_0 is OfficeById) && !(self.session.stage is Closed)
    }

    /// The operation after its next question has been answered from `books`,
    /// and the tables after that; nothing changes where it has its result.
    pub open spec fn advance(self, books: Books) -> (Books, Contender) {
        match self.step {
            EmployeeStepView::Done(_) => (books, self),
            EmployeeStepView::Ask(query) => {
                let answered = respond(books, query);
                let moved = self.session.next(answered.1);
                (answered.0, Contender { session: moved.0, step: moved.1 })
            },
        }
    }

    /// The operation carried through from where it is, alone.
    pub open spec fn finish(self, books: Books) -> (Books, Verdict) {
        run(books, self.session, self.step)
    }
}

/// The two operations and the tables they share. `holder` says which of the
/// two the office is kept for: `Some(true)` for the first, `Some(false)` for
/// the second, `None` while it is kept for neither.
pub struct Race {
    pub books: Books,
    pub first: Contender,
    pub second: Contender,
    pub holder: Option<bool>,
}

impl Race {
    /// Both operations at their start.
    pub open spec fn opening(books: Books, first: EmployeeRequest, second: EmployeeRequest) -> Race {
        Race {
            books,
            first: Contender::entering(first),
            second: Contender::entering(second),
            holder: None,
        }
    }

    /// The operation whose turn it is.
    pub open spec fn mover(self, to_first: bool) -> Contender {
        if to_first {
            self.first
        } else {
            self.second
        }
    }

    /// Whether the operation whose turn it is can move: it has no result yet,
    /// and it is not about to ask for an office that is kept for the other.
    pub open spec fn can_move(self, to_first: bool) -> bool {
        let mover = self.mover(to_first);
        !mover.done() && !(mover.at_the_door() && self.holder == Some(!to_first))
    }

    /// One turn: the next question of the first operation (`to_first`) or of
    /// the second is answered. An operation that cannot move lets the turn
    /// pass. The office is kept for an operation from the answer to its
    /// question for the office until it has its result.
    pub open spec fn turn(self, to_first: bool) -> Race {
        if !self.can_move(to_first) {
            self
        } else {
            let mover = self.mover(to_first);
            let moved = mover.advance(self.books);
            let holder = if moved.1.done() {
                if self.holder == Some(to_first) {
                    None
                } else {
                    self.holder
                }
            } else if mover.at_the_door() {
                Some(to_first)
            } else {
                self.holder
            };
            if to_first {
                Race { books: moved.0, first: moved.1, second: self.second, holder }
            } else {
                Race { books: moved.0, first: self.first, second: moved.1, holder }
            }
        }
    }

    /// The turns of `schedule`, one after the other.
    pub open spec fn play(self, schedule: Seq<bool>) -> Race
        decreases schedule.len(),
    {
        if schedule.len() == 0 {
            self
        } else {
            self.turn(schedule[0]).play(schedule.drop_first())
        }
    }

    /// Where the two end when, from here on, one is carried through and then
    /// the other: the tables, the result of the first, the result of the
    /// second. `first_leads` says which of the two is carried through first.
    pub open spec fn in_order(self, first_leads: bool) -> (Books, Verdict, Verdict) {
        if first_leads {
            let led = self.first.finish(self.books);
            let followed = self.second.finish(led.0);
            (followed.0, led.1, followed.1)
        } else {
            let led = self.second.finish(self.books);
            let followed = self.first.finish(led.0);
            (followed.0, followed.1, led.1)
        }
    }

    /// Where the two end from here: the one that the office is kept for is
    /// carried through first.
    pub open spec fn outcome(self) -> (Books, Verdict, Verdict) {
        self.in_order(self.holder != Some(false))
    }

    /// Each operation is where the rule lets it be: the one that the office
    /// is kept for is inside, and the other is at the door or has its
    /// result.
    pub open spec fn orderly(self) -> bool {
        &&& self.holder == Some(true) ==> self.first.inside()
        &&& self.holder == Some(false) ==> self.second.inside()
        &&& self.holder != Some(true) ==> self.first.at_the_door() || self.first.done()
        &&& self.holder != Some(false) ==> self.second.at_the_door() || self.second.done()
    }

    /// It is decided which of the two is carried through first, or it does
    /// not matter any more.
    pub open spec fn decided(self) -> bool {
        self.holder is Some || self.first.done() || self.second.done()
    }
}

/// An operation that starts by asking for an office is at the door or, where
/// it was refused at once, has its result.
pub proof fn lemma_enters_at_the_door(request: EmployeeRequest, office_id: i32)
    requires
        asks_for(request, office_id),
    ensures
        Contender::entering(request).at_the_door() || Contender::entering(request).done(),
{
}

/// An operation that has its result stays as it is, and so do the tables,
/// whatever they hold.
pub proof fn lemma_done_stays(contender: Contender)
    requires
        contender.done(),
    ensures
        forall|books: Books| #[trigger] contender.finish(books) == (books, contender.step->Done_0),
{
}

/// Carrying an operation through comes to the same before and after one of
/// its questions has been answered; and once it is past the door it does not
/// come back to it.
pub proof fn lemma_advance(contender: Contender, books: Books)
    requires
        contender.at_the_door() || contender.inside(),
    ensures
        ({
            let moved = contender.advance(books);
            &&& moved.1.finish(moved.0) == contender.finish(books)
            &&& moved.1.inside() || moved.1.done()
            &&& contender.at_the_door() ==> moved.0 == books
        }),
{
    reveal_with_fuel(run, 2);
}


/// A turn keeps the two where the rule lets them be. Once it is decided who
/// is carried through first, a turn does not change where the two end; while
/// it is open, the one that moves is the one that is carried through first.
pub proof fn lemma_turn(race: Race, to_first: bool)
    requires
        race.orderly(),
    ensures
        race.turn(to_first).orderly(),
        race.decided() ==> race.turn(to_first).decided() && race.turn(to_first).outcome()
            == race.outcome(),
        !race.decided() ==> race.turn(to_first).decided() && race.turn(to_first).outcome()
            == race.in_order(to_first),
{
    if race.holder is Some {
        let kept_for_first = race.holder->0;
        assert(race.holder == Some(kept_for_first));
    }
    if race.can_move(to_first) {
        let mover = race.mover(to_first);
        lemma_advance(mover, race.books);
        let moved = mover.advance(race.books);
        if moved.1.done() {
            lemma_done_stays(moved.1);
        }
        if race.first.done() {
            lemma_done_stays(race.first);
        }
        if race.second.done() {
            lemma_done_stays(race.second);
        }
    }
}

/// However the turns fall, the two end where they end when one of them is
/// carried through from where it is and then the other.
pub proof fn lemma_play(race: Race, schedule: Seq<bool>)
    requires
        race.orderly(),
    ensures
        race.play(schedule).orderly(),
        race.decided() ==> race.play(schedule).outcome() == race.outcome(),
        race.play(schedule).outcome() == race.in_order(true) || race.play(schedule).outcome()
            == race.in_order(false),
    decreases schedule.len(),
{
    if schedule.len() > 0 {
        lemma_turn(race, schedule[0]);
        lemma_play(race.turn(schedule[0]), schedule.drop_first());
    }
}

/// Where the two operations end when the first runs from start to end and
/// then the second: the tables, the result of the first, the result of the
/// second.
pub open spec fn one_then_other(books: Books, first: EmployeeRequest, second: EmployeeRequest) -> (
    Books,
    Verdict,
    Verdict,
) {
    let led = serve(books, first);
    let followed = serve(led.0, second);
    (followed.0, led.1, followed.1)
}

/// Where the two operations end when the second runs from start to end and
/// then the first: the tables, the result of the first, the result of the
/// second.
pub open spec fn other_then_one(books: Books, first: EmployeeRequest, second: EmployeeRequest) -> (
    Books,
    Verdict,
    Verdict,
) {
    let led = serve(books, second);
    let followed = serve(led.0, first);
    (followed.0, followed.1, led.1)
}

/// Two operations that start by asking for the same office, under way at
/// once: in whatever order their questions are answered, they end as if one
/// of them had run from start to end and then the other.
pub proof fn law_one_after_the_other(
    books: Books,
    first: EmployeeRequest,
    second: EmployeeRequest,
    office_id: i32,
    schedule: Seq<bool>,
)
    requires
        asks_for(first, office_id),
        asks_for(second, office_id),
    ensures
        ({
            let end = Race::opening(books, first, second).play(schedule).outcome();
            end == one_then_other(books, first, second) || end == other_then_one(
                books,
                first,
                second,
            )
        }),
{
    lemma_enters_at_the_door(first, office_id);
    lemma_enters_at_the_door(second, office_id);
    lemma_play(Race::opening(books, first, second), schedule);
}

/// Two valid employees ask at once for the one place that an office has
/// left: in whatever order the questions of the two are answered, exactly one
/// of them is let in, and the other is refused with `OfficeAtCapacity`, which
/// carries the count, now equal to the capacity.
pub proof fn law_last_place_under_contention(
    books: Books,
    first: Employee,
    second: Employee,
    schedule: Seq<bool>,
)
    requires
        books.wf(),
        first.violation() is None,
        second.violation() is None,
        first.office_id == second.office_id,
        books.offices.by_id(first.office_id) is Some,
        books.employees.occupants(first.office_id) + 1 == books.offices.by_id(
            first.office_id,
        )->0.max_occupancy,
        books.employees.has_room(),
    ensures
        ({
            let end = Race::opening(
                books,
                EmployeeRequest::Add(first),
                EmployeeRequest::Add(second),
            ).play(schedule).outcome();
            let full = Err::<EmployeeOutcomeView, ServiceError>(
                ServiceError::OfficeAtCapacity(
                    books.offices.by_id(first.office_id)->0.max_occupancy as i64,
                    books.offices.by_id(first.office_id)->0.max_occupancy,
                ),
            );
            &&& end.1 is Ok && end.2 == full || end.1 == full && end.2 is Ok
            &&& end.0.within_capacity(first.office_id)
        }),
{
    let office_id = first.office_id;
    law_one_after_the_other(
        books,
        EmployeeRequest::Add(first),
        EmployeeRequest::Add(second),
        office_id,
        schedule,
    );
    law_hire_fills_office(books, first);
    law_hire_fills_office(books, second);
    lemma_count_fits(books, office_id);
    lemma_serve_hire(books, first);
    lemma_serve_hire(after_hire(books, first), second);
    lemma_serve_hire(books, second);
    lemma_serve_hire(after_hire(books, second), first);
    law_hire_fills_office(after_hire(books, first), second);
    law_hire_fills_office(after_hire(books, second), first);
}

} // verus!
