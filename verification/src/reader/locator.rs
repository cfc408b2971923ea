//! Where to look for the packs of a container on a file system.
use vstd::prelude::*;

verus! {

/// Looks for packs in a directory: a pack stored in a file of its own is looked for at
/// its path under the directory.
#[derive(Debug, Clone)]
pub struct FsLocator {
    base_dir: String,
}

impl FsLocator {
    /// The locator looking in `base_dir`.
    pub fn new(base_dir: String) -> (r: FsLocator)
        ensures
            r.spec_base_dir() == base_dir@,
    {
        FsLocator { base_dir }
    }

    /// The directory looked in.
    pub closed spec fn spec_base_dir(&self) -> Seq<char> {
        self.base_dir@
    }

    /// The directory looked in.
    pub fn base_dir(&self) -> (r: &String)
        ensures
            r@ == self.spec_base_dir(),
    {
        &self.base_dir
    }
}

/// What a chain of locators does next, after the locator at `asked` answered: stop with
/// the pack it found, ask the next locator, or stop with nothing found.
#[derive(Debug, Clone, Copy, PartialEq, Eq, Structural)]
pub enum LocateStep {
    Ask(usize),
    Found(usize),
    NotFound,
}

/// The locator that a chain of locators gives the pack from, given whether each locator,
/// asked in turn from `i` on, finds it: the first that does.
pub open spec fn first_finding(answers: Seq<bool>, i: nat) -> Option<nat>
    decreases answers.len() - i,
{
    if i >= answers.len() {
        None
    } else if answers[i as int] {
        Some(i)
    } else {
        first_finding(answers, i + 1)
    }
}

/// How a chain of `count` locators starts: by asking the first one, if there is one.
pub fn chain_start(count: usize) -> (r: LocateStep)
    ensures
        count > 0 ==> r == LocateStep::Ask(0),
        count == 0 ==> r == LocateStep::NotFound,
{
    if count > 0 {
        LocateStep::Ask(0)
    } else {
        LocateStep::NotFound
    }
}

/// What a chain of `count` locators does once the locator at `asked` has answered
/// whether it `found` the pack.
pub fn chain_next(count: usize, asked: usize, found: bool) -> (r: LocateStep)
    requires
        asked < count,
    ensures
        found ==> r == LocateStep::Found(asked),
        !found && asked + 1 < count ==> r == LocateStep::Ask((asked + 1) as usize),
        !found && asked + 1 >= count ==> r == LocateStep::NotFound,
{
    if found {
        LocateStep::Found(asked)
    } else if asked + 1 < count {
        LocateStep::Ask(asked + 1)
    } else {
        LocateStep::NotFound
    }
}

/// The first locator that finds the pack gives it: each step of the chain keeps the
/// outcome, which is the first locator whose answer is yes, and none when no locator
/// finds the pack.
pub proof fn lemma_chain_first_wins(answers: Seq<bool>, i: nat)
    requires
        i < answers.len(),
        answers.len() <= usize::MAX,
    ensures
        answers[i as int] ==> first_finding(answers, i) == Some(i),
        !answers[i as int] ==> first_finding(answers, i) == first_finding(answers, i + 1),
        i + 1 == answers.len() && !answers[i as int] ==> first_finding(answers, i) is None,
        first_finding(answers, i) matches Some(k) ==> i <= k < answers.len() && answers[k as int]
            && forall|j: int| i <= j < k ==> !answers[j],
        first_finding(answers, i) is None ==> forall|j: int| i <= j < answers.len() ==> !answers[j],
    decreases answers.len() - i,
{
    if !answers[i as int] && i + 1 < answers.len() {
        lemma_chain_first_wins(answers, i + 1);
    }
}

} // verus!
