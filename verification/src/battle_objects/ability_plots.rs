use vstd::prelude::*;
use crate::battle_objects::battle_player::Ability;
use crate::battle_objects::coordinates::GridCoord;

verus! {

/// A cell that teaches an ability to a player who stays on it.
#[derive(Clone, Copy, Debug)]
pub struct AbilityPlot {
    pub pos: GridCoord,
    pub ability: Ability,
}

/// What the first plot on `cell` teaches, if a plot lies there.
pub open spec fn plot_at(plots: Seq<AbilityPlot>, cell: GridCoord) -> Option<Ability>
    decreases plots.len(),
{
    if plots.len() == 0 {
        None
    } else if plots[0].pos == cell {
        Some(plots[0].ability)
    } else {
        plot_at(plots.subrange(1, plots.len() as int), cell)
    }
}

/// What the first plot on `cell` teaches, if a plot lies there.
pub fn find_plot(plots: &Vec<AbilityPlot>, cell: GridCoord) -> (taught: Option<Ability>)
    ensures
        taught == plot_at(plots@, cell),
{
    let mut i: usize = 0;
    proof {
        assert(plots@.subrange(0, plots@.len() as int) =~= plots@);
    }
    while i < plots.len()
        invariant
            i <= plots.len(),
            plot_at(plots@, cell) == plot_at(plots@.subrange(i as int, plots@.len() as int), cell),
        decreases plots.len() - i,
    {
        let ghost rest = plots@.subrange(i as int, plots@.len() as int);
        assert(rest[0] == plots@[i as int]);
        assert(rest.subrange(1, rest.len() as int) =~= plots@.subrange(i + 1, plots@.len() as int));
        if plots[i].pos == cell {
            return Some(plots[i].ability);
        }
        i += 1;
    }
    None
}

} // verus!
