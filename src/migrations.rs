use vstd::prelude::*;

verus! {

/// Whether a migration step applies a migration or reverts it.
#[derive(Clone, Copy, Debug, PartialEq, Eq, Structural)]
pub enum Direction {
    /// Run the migration's `up` script, then record its id.
    Up,
    /// Run the migration's `down` script, then remove its id.
    Down,
}

/// One script to run while migrating.
#[derive(Clone, Copy, Debug, PartialEq, Eq, Structural)]
pub struct MigrationStep {
    pub migration: i32,
    pub direction: Direction,
}

/// The largest of a list of migration ids.
pub fn latest_migration(ids: &Vec<i32>) -> (r: Option<i32>)
    ensures
        ids@.len() == 0 <==> r is None,
        r matches Some(m) ==> ids@.contains(m) && forall|i: int| 0 <= i < ids@.len() ==> #[trigger] ids@[i] <= m,
{
    if ids.len() == 0 {
        return None;
    }
    let mut best = ids[0];
    let mut i: usize = 1;
    while i < ids.len()
        invariant
            1 <= i <= ids@.len(),
            ids@.contains(best),
            forall|k: int| 0 <= k < i ==> #[trigger] ids@[k] <= best,
        decreases ids@.len() - i,
    {
        if ids[i] > best {
            best = ids[i];
        }
        i = i + 1;
    }
    Some(best)
}

/// The steps from the current migration to the target: each later migration
/// up to the target applied in increasing order, or each migration above the
/// target reverted in decreasing order.
pub fn migration_plan(current: i32, target: i32) -> (r: Vec<MigrationStep>)
    ensures
        current <= target ==> r@.len() == target - current,
        target < current ==> r@.len() == current - target,
        forall|k: int| 0 <= k < r@.len() && current < target ==> (#[trigger] r@[k]).migration == current + 1 + k
            && r@[k].direction == Direction::Up,
        forall|k: int| 0 <= k < r@.len() && target < current ==> (#[trigger] r@[k]).migration == current - k
            && r@[k].direction == Direction::Down,
{
    let mut steps: Vec<MigrationStep> = Vec::new();
    if current < target {
        let mut m: i32 = current;
        while m < target
            invariant
                current <= m <= target,
                steps@.len() == m - current,
                forall|k: int| 0 <= k < steps@.len() ==> (#[trigger] steps@[k]).migration == current + 1 + k
                    && steps@[k].direction == Direction::Up,
            decreases target - m,
        {
            m = m + 1;
            steps.push(MigrationStep { migration: m, direction: Direction::Up });
        }
    } else if target < current {
        let mut m: i32 = current;
        while m > target
            invariant
                target <= m <= current,
                steps@.len() == current - m,
                forall|k: int| 0 <= k < steps@.len() ==> (#[trigger] steps@[k]).migration == current - k
                    && steps@[k].direction == Direction::Down,
            decreases m - target,
        {
            steps.push(MigrationStep { migration: m, direction: Direction::Down });
            m = m - 1;
        }
    }
    steps
}

} // verus!
