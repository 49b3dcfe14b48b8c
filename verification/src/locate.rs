use vstd::prelude::*;

verus! {

/// How many directories of the walk, starting at its origin, carry a
/// project marker without interruption.
pub open spec fn marked_prefix(marks: Seq<bool>) -> int
    decreases marks.len(),
{
    if marks.len() == 0 || !marks[0] {
        0
    } else {
        1 + marked_prefix(marks.subrange(1, marks.len() as int))
    }
}

/// Where the run roots itself, as a number of steps above the walk's
/// origin: the outermost directory of the marked chain that starts at the
/// origin. An unmarked origin still puts the root one step up, since the
/// walk takes its first step before it can give up.
pub open spec fn root_steps(marks: Seq<bool>) -> int {
    if marked_prefix(marks) == 0 {
        1
    } else {
        marked_prefix(marks) - 1
    }
}

/// A sequence whose first `i` entries are true and whose entry `i`, if any,
/// is false has a marked prefix of exactly `i`.
pub proof fn lemma_marked_prefix(marks: Seq<bool>, i: int)
    requires
        0 <= i <= marks.len(),
        forall|t: int| 0 <= t < i ==> marks[t],
        i == marks.len() || !marks[i],
    ensures
        marked_prefix(marks) == i,
    decreases marks.len(),
{
    if marks.len() > 0 && marks[0] {
        let rest = marks.subrange(1, marks.len() as int);
        assert forall|t: int| 0 <= t < i - 1 implies rest[t] by {
            assert(rest[t] == marks[t + 1]);
        }
        lemma_marked_prefix(rest, i - 1);
    }
}

/// Chooses the project root from the walk's marker annotations: `marks[i]`
/// says whether the directory `i` steps above the origin carries a marker,
/// and the walk ends at the first unmarked directory, so the last
/// annotation is false.
pub fn choose_root(marks: &Vec<bool>) -> (r: usize)
    requires
        marks@.len() > 0,
        !marks@[marks@.len() - 1],
    ensures
        r == root_steps(marks@),
{
    let n = marks.len();
    let mut i: usize = 0;
    while i < n && marks[i]
        invariant
            i <= n,
            n == marks@.len(),
            forall|t: int| 0 <= t < i ==> marks@[t],
        decreases n - i,
    {
        i += 1;
    }
    proof {
        if i == n {
            assert(marks@[marks@.len() - 1]);
        }
        lemma_marked_prefix(marks@, i as int);
    }
    if i == 0 {
        1
    } else {
        i - 1
    }
}

} // verus!
