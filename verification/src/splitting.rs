//! Carrying out a split: what is done after what, and what a failure leads to.

use vstd::prelude::*;

use crate::failure::Failure;
use crate::stream_split::{actions_for, SplitAction, SplitFile};

verus! {

/// Where a split stands: at an action of a file, at its end, or stopped at an
/// action that could not be done.
pub enum Place {
    At(int, int),
    Finished,
    Stopped(int, int),
}

/// Whether the split goes on after the action.
pub open spec fn goes_on(action: SplitAction, done: bool) -> bool {
    done || action.spec_on_failure() == Failure::PassOver
}

/// Where a split starts.
pub open spec fn first_place(plans: Seq<Seq<SplitAction>>) -> Place {
    if plans.len() == 0 {
        Place::Finished
    } else {
        Place::At(0, 0)
    }
}

/// Where a split stands after an action.
pub open spec fn next_place(
    plans: Seq<Seq<SplitAction>>,
    file: int,
    step: int,
    done: bool,
) -> Place {
    if !goes_on(plans[file][step], done) {
        Place::Stopped(file, step)
    } else if step + 1 < plans[file].len() {
        Place::At(file, step + 1)
    } else if file + 1 < plans.len() {
        Place::At(file + 1, 0)
    } else {
        Place::Finished
    }
}

/// A split under way: for each file the things to do, and where it stands.
pub struct SplitRun {
    plans: Vec<Vec<SplitAction>>,
    file: usize,
    step: usize,
    stopped: bool,
}

impl SplitRun {
    /// The things to do for each file.
    pub closed spec fn plans(self) -> Seq<Seq<SplitAction>> {
        self.plans@.map_values(|plan: Vec<SplitAction>| plan@)
    }

    /// Where the split stands.
    pub closed spec fn place(self) -> Place {
        if self.file >= self.plans@.len() {
            Place::Finished
        } else if self.stopped {
            Place::Stopped(self.file as int, self.step as int)
        } else {
            Place::At(self.file as int, self.step as int)
        }
    }

    #[verifier::type_invariant]
    spec fn is_whole(self) -> bool {
        &&& forall|i: int| 0 <= i < self.plans@.len() ==> (#[trigger] self.plans@[i])@.len() > 0
        &&& self.file <= self.plans@.len()
        &&& self.file < self.plans@.len() ==> self.step < self.plans@[self.file as int]@.len()
    }

    /// Starts a split into these files.
    pub fn new(files: &Vec<SplitFile>) -> (r: SplitRun)
        ensures
            r.plans().len() == files@.len(),
            forall|i: int|
                0 <= i < files@.len() ==> actions_for(#[trigger] files@[i], r.plans()[i]),
            are_plans(r.plans()),
            r.place() == first_place(r.plans()),
    {
        let mut plans: Vec<Vec<SplitAction>> = Vec::new();
        let mut i: usize = 0;
        while i < files.len()
            invariant
                i <= files@.len(),
                plans@.len() == i,
                forall|k: int|
                    0 <= k < i ==> actions_for(#[trigger] files@[k], plans@[k]@),
                forall|k: int| 0 <= k < i ==> (#[trigger] plans@[k])@.len() > 0,
            decreases files@.len() - i,
        {
            plans.push(files[i].actions());
            i += 1;
        }
        SplitRun { plans, file: 0, step: 0, stopped: false }
    }

    /// What is to be done next; nothing, when the split is over.
    pub fn action(&self) -> (r: Option<&SplitAction>)
        ensures
            r == match self.place() {
                Place::At(file, step) => Some(&self.plans()[file][step]),
                _ => None,
            },
    {
        proof {
            use_type_invariant(self);
        }
        if self.stopped || self.file >= self.plans.len() {
            None
        } else {
            Some(&self.plans[self.file][self.step])
        }
    }

    /// Takes note of whether the action was done. Where the split does not go
    /// on, the failure is what it leads to.
    pub fn advance(&mut self, done: bool) -> (r: Option<Failure>)
        requires
            old(self).place() is At,
        ensures
            final(self).plans() == old(self).plans(),
            old(self).place() matches Place::At(file, step) ==> {
                &&& final(self).place() == next_place(old(self).plans(), file, step, done)
                &&& r == if goes_on(old(self).plans()[file][step], done) {
                    None
                } else {
                    Some(old(self).plans()[file][step].spec_on_failure())
                }
            },
    {
        proof {
            use_type_invariant(&*self);
        }
        if !done {
            let failure: Failure = self.plans[self.file][self.step].on_failure();
            match failure {
                Failure::PassOver => {},
                _ => {
                    self.stopped = true;
                    return Some(failure);
                },
            }
        }
        assert(self.file < self.plans.len());
        if self.plans[self.file].len() - self.step > 1 {
            self.step = self.step + 1;
        } else {
            self.step = 0;
            self.file = self.file + 1;
        }
        None
    }
}

/// Where a split stands after the actions so far went as the answers say;
/// nothing, if there is an answer after the end.
pub open spec fn place_after(plans: Seq<Seq<SplitAction>>, answers: Seq<bool>) -> Option<Place>
    decreases answers.len(),
{
    if answers.len() == 0 {
        Some(first_place(plans))
    } else {
        match place_after(plans, answers.drop_last()) {
            Some(Place::At(file, step)) => Some(next_place(plans, file, step, answers.last())),
            _ => None,
        }
    }
}

/// The actions that the answers are to, each by its file and its number there.
pub open spec fn attempted(plans: Seq<Seq<SplitAction>>, answers: Seq<bool>) -> Seq<(int, int)>
    decreases answers.len(),
{
    if answers.len() == 0 {
        Seq::empty()
    } else {
        match place_after(plans, answers.drop_last()) {
            Some(Place::At(file, step)) => attempted(plans, answers.drop_last()).push((file, step)),
            _ => attempted(plans, answers.drop_last()),
        }
    }
}

/// All the actions of the first `count` files, one after the other.
pub open spec fn all_actions(plans: Seq<Seq<SplitAction>>, count: int) -> Seq<(int, int)>
    decreases count,
{
    if count <= 0 {
        Seq::empty()
    } else {
        all_actions(plans, count - 1) + Seq::new(plans[count - 1].len(), |step: int| (count - 1, step))
    }
}

/// Whether there is something to do for each file.
pub open spec fn are_plans(plans: Seq<Seq<SplitAction>>) -> bool {
    forall|i: int| 0 <= i < plans.len() ==> (#[trigger] plans[i]).len() > 0
}

/// An action of a file stands behind those of the files before it.
proof fn action_stands_at(plans: Seq<Seq<SplitAction>>, count: int, file: int, step: int)
    requires
        0 <= file < count,
        0 <= step < plans[file].len(),
    ensures
        all_actions(plans, file).len() + step < all_actions(plans, count).len(),
        all_actions(plans, count)[all_actions(plans, file).len() + step] == (file, step),
    decreases count,
{
    if file < count - 1 {
        action_stands_at(plans, count - 1, file, step);
    }
}

/// Each of the actions is one of a file before `count`.
proof fn actions_are_of_the_files(plans: Seq<Seq<SplitAction>>, count: int, n: int)
    requires
        0 <= n < all_actions(plans, count).len(),
    ensures
        0 <= all_actions(plans, count)[n].0 < count,
        0 <= all_actions(plans, count)[n].1 < plans[all_actions(plans, count)[n].0].len(),
    decreases count,
{
    let before = all_actions(plans, count - 1);
    if n < before.len() {
        actions_are_of_the_files(plans, count - 1, n);
    }
}

/// Where a split stands, counted in actions.
proof fn place_is_counted(plans: Seq<Seq<SplitAction>>, answers: Seq<bool>)
    requires
        are_plans(plans),
        place_after(plans, answers) is Some,
    ensures
        answers.len() <= all_actions(plans, plans.len() as int).len(),
        attempted(plans, answers) == all_actions(plans, plans.len() as int).take(
            answers.len() as int,
        ),
        match place_after(plans, answers)->0 {
            Place::At(file, step) => {
                &&& 0 <= file < plans.len()
                &&& 0 <= step < plans[file].len()
                &&& answers.len() == all_actions(plans, file).len() + step
            },
            Place::Finished => answers.len() == all_actions(plans, plans.len() as int).len(),
            Place::Stopped(file, step) => {
                &&& 0 <= file < plans.len()
                &&& 0 <= step < plans[file].len()
                &&& answers.len() == all_actions(plans, file).len() + step + 1
            },
        },
    decreases answers.len(),
{
    let all = all_actions(plans, plans.len() as int);
    let n = answers.len() as int;
    if n == 0 {
        assert(all.take(0) =~= Seq::empty());
        if plans.len() > 0 {
            assert(plans[0].len() > 0);
        }
    } else {
        let earlier = answers.drop_last();
        place_is_counted(plans, earlier);
        if let Place::At(file, step) = place_after(plans, earlier)->0 {
            action_stands_at(plans, plans.len() as int, file, step);
            assert(all.take(n) =~= all.take(n - 1).push((file, step)));
            assert(all_actions(plans, file + 1).len() == all_actions(plans, file).len()
                + plans[file].len());
            if file + 1 < plans.len() {
                assert(plans[file + 1].len() > 0);
            }
        }
    }
}

/// The actions are done in order, file after file, with none left out: what
/// was attempted is the beginning of all there is to do, and that is what it
/// comes to if nothing stops the split.
pub proof fn actions_are_done_in_order(plans: Seq<Seq<SplitAction>>, answers: Seq<bool>)
    requires
        are_plans(plans),
        place_after(plans, answers) is Some,
    ensures
        attempted(plans, answers).is_prefix_of(all_actions(plans, plans.len() as int)),
        attempted(plans, answers).len() == answers.len(),
        place_after(plans, answers)->0 is Finished ==> attempted(plans, answers) == all_actions(
            plans,
            plans.len() as int,
        ),
{
    place_is_counted(plans, answers);
    let all = all_actions(plans, plans.len() as int);
    assert(all.take(all.len() as int) =~= all);
}

/// Every action but the one that a split was stopped at was done, or its
/// failure was passed over.
proof fn earlier_actions_went_on(plans: Seq<Seq<SplitAction>>, answers: Seq<bool>, n: int)
    requires
        are_plans(plans),
        place_after(plans, answers) is Some,
        0 <= n < answers.len(),
        place_after(plans, answers)->0 is Stopped ==> n < answers.len() - 1,
    ensures
        attempted(plans, answers).len() == answers.len(),
        ({
            let (file, step) = attempted(plans, answers)[n];
            goes_on(plans[file][step], answers[n])
        }),
    decreases answers.len(),
{
    place_is_counted(plans, answers);
    let earlier = answers.drop_last();
    place_is_counted(plans, earlier);
    if n < answers.len() - 1 {
        earlier_actions_went_on(plans, earlier, n);
    }
}

/// A failure that is not passed over stops the split at its action, which is
/// one of the file `file`. For every file before it all has been done, or was
/// passed over; for no file after it anything was, so none was opened.
pub proof fn a_failure_stops_the_split(
    plans: Seq<Seq<SplitAction>>,
    answers: Seq<bool>,
    file: int,
    step: int,
)
    requires
        are_plans(plans),
        place_after(plans, answers) == Some(Place::Stopped(file, step)),
    ensures
        attempted(plans, answers).len() == answers.len(),
        attempted(plans, answers).last() == (file, step),
        !goes_on(plans[file][step], answers.last()),
        forall|i: int, m: int|
            0 <= i < file && 0 <= m < plans[i].len() ==> #[trigger] attempted(
                plans,
                answers,
            ).contains((i, m)),
        forall|n: int|
            0 <= n < answers.len() - 1 ==> goes_on(
                plans[(#[trigger] attempted(plans, answers)[n]).0][attempted(plans, answers)[n].1],
                answers[n],
            ),
        forall|n: int| 0 <= n < answers.len() ==> (#[trigger] attempted(plans, answers)[n]).0 <= file,
{
    let all = all_actions(plans, plans.len() as int);
    let done = attempted(plans, answers);
    place_is_counted(plans, answers);
    place_is_counted(plans, answers.drop_last());
    action_stands_at(plans, plans.len() as int, file, step);
    assert forall|i: int, m: int| 0 <= i < file && 0 <= m < plans[i].len() implies
        #[trigger] done.contains((i, m)) by {
        action_stands_at(plans, plans.len() as int, i, m);
        action_stands_at(plans, file, i, m);
        assert(done[all_actions(plans, i).len() + m] == (i, m));
    }
    assert forall|n: int| 0 <= n < answers.len() - 1 implies goes_on(
        plans[(#[trigger] done[n]).0][done[n].1],
        answers[n],
    ) by {
        earlier_actions_went_on(plans, answers, n);
    }
    assert forall|n: int| 0 <= n < answers.len() implies (#[trigger] done[n]).0 <= file by {
        actions_reach_up_to(plans, plans.len() as int, file, n);
    }
}

/// The actions in front of those of the next file are of this file or of one
/// before.
proof fn actions_reach_up_to(plans: Seq<Seq<SplitAction>>, count: int, file: int, n: int)
    requires
        0 <= file < count,
        0 <= n < all_actions(plans, file + 1).len(),
    ensures
        n < all_actions(plans, count).len(),
        all_actions(plans, count)[n].0 <= file,
    decreases count,
{
    if file == count - 1 {
        actions_are_of_the_files(plans, count, n);
    } else {
        actions_reach_up_to(plans, count - 1, file, n);
    }
}

/// A split goes on just where the action was done, or where it was to make the
/// base directory or to report.
pub proof fn only_the_harmless_is_passed_over(action: SplitAction, done: bool)
    ensures
        goes_on(action, done) <==> done || action is MakeDirectory || action is ReportNoPackets,
{
}

} // verus!
