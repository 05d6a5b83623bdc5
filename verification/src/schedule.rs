//! Volunteer schedule compute: turning the flat availability and team rows
//! the store hands back into the shapes the schedule view serves — names per
//! quarter-hour slot and names per team.

use vstd::prelude::*;

use crate::chunk::string_views;

verus! {

/// A week of schedule slots: seven days of ten hours in quarter hours.
pub const SLOT_COUNT: u16 = 7 * 10 * 4;

/// The teams a volunteer can belong to.
#[derive(Clone, Copy, Debug, PartialEq, Eq, Structural)]
pub enum Team {
    Software,
    Mechanical,
    Electrical,
    Systems,
    Social,
    Admin,
}

/// The names of the availability rows for `slot`, in row order.
pub open spec fn names_at_slot(rows: Seq<(u16, String)>, slot: u16) -> Seq<Seq<char>> {
    rows.filter(|row: (u16, String)| row.0 == slot).map_values(|row: (u16, String)| row.1@)
}

/// The names of the team rows for `team`, in row order.
pub open spec fn names_in_team(rows: Seq<(Team, String)>, team: Team) -> Seq<Seq<char>> {
    rows.filter(|row: (Team, String)| row.0 == team).map_values(|row: (Team, String)| row.1@)
}

/// Collects the names signed up for one schedule slot, keeping row order.
pub fn names_for_slot(rows: &Vec<(u16, String)>, slot: u16) -> (names: Vec<String>)
    ensures
        string_views(names@) == names_at_slot(rows@, slot),
{
    let mut names: Vec<String> = Vec::new();
    let mut i: usize = 0;
    proof {
        reveal(Seq::filter);
        assert(rows@.take(0) =~= Seq::<(u16, String)>::empty());
        assert(string_views(names@) =~= names_at_slot(rows@.take(0), slot));
    }
    while i < rows.len()
        invariant
            i <= rows@.len(),
            string_views(names@) == names_at_slot(rows@.take(i as int), slot),
        decreases rows@.len() - i,
    {
        proof {
            reveal(Seq::filter);
            assert(rows@.take(i + 1).drop_last() =~= rows@.take(i as int));
            assert(rows@.take(i + 1).last() == rows@[i as int]);
        }
        let ghost prev = names@;
        if rows[i].0 == slot {
            names.push(rows[i].1.clone());
            proof {
                assert(string_views(names@) =~= string_views(prev).push(rows@[i as int].1@));
                assert(names_at_slot(rows@.take(i + 1), slot) =~= names_at_slot(
                    rows@.take(i as int),
                    slot,
                ).push(rows@[i as int].1@));
            }
        } else {
            proof {
                assert(names_at_slot(rows@.take(i + 1), slot) =~= names_at_slot(
                    rows@.take(i as int),
                    slot,
                ));
            }
        }
        i += 1;
    }
    proof {
        assert(rows@.take(rows@.len() as int) =~= rows@);
    }
    names
}

/// Collects the names belonging to one team, keeping row order.
pub fn names_for_team(rows: &Vec<(Team, String)>, team: Team) -> (names: Vec<String>)
    ensures
        string_views(names@) == names_in_team(rows@, team),
{
    let mut names: Vec<String> = Vec::new();
    let mut i: usize = 0;
    proof {
        reveal(Seq::filter);
        assert(rows@.take(0) =~= Seq::<(Team, String)>::empty());
        assert(string_views(names@) =~= names_in_team(rows@.take(0), team));
    }
    while i < rows.len()
        invariant
            i <= rows@.len(),
            string_views(names@) == names_in_team(rows@.take(i as int), team),
        decreases rows@.len() - i,
    {
        proof {
            reveal(Seq::filter);
            assert(rows@.take(i + 1).drop_last() =~= rows@.take(i as int));
            assert(rows@.take(i + 1).last() == rows@[i as int]);
        }
        let ghost prev = names@;
        if rows[i].0 == team {
            names.push(rows[i].1.clone());
            proof {
                assert(string_views(names@) =~= string_views(prev).push(rows@[i as int].1@));
                assert(names_in_team(rows@.take(i + 1), team) =~= names_in_team(
                    rows@.take(i as int),
                    team,
                ).push(rows@[i as int].1@));
            }
        } else {
            proof {
                assert(names_in_team(rows@.take(i + 1), team) =~= names_in_team(
                    rows@.take(i as int),
                    team,
                ));
            }
        }
        i += 1;
    }
    proof {
        assert(rows@.take(rows@.len() as int) =~= rows@);
    }
    names
}

/// Distributes availability rows over the week's slots: entry `t` of the
/// table holds exactly the names signed up for slot `t`, in row order. A
/// row naming a slot beyond the table would have nowhere to go, so callers
/// check first.
pub fn build_availability_table(rows: &Vec<(u16, String)>) -> (table: Vec<Vec<String>>)
    requires
        forall|i: int| 0 <= i < rows@.len() ==> (#[trigger] rows@[i]).0 < SLOT_COUNT,
    ensures
        table@.len() == SLOT_COUNT,
        forall|t: int|
            0 <= t < SLOT_COUNT ==> string_views((#[trigger] table@[t])@) == names_at_slot(
                rows@,
                t as u16,
            ),
{
    let mut table: Vec<Vec<String>> = Vec::new();
    let mut slot: u16 = 0;
    while slot < SLOT_COUNT
        invariant
            slot <= SLOT_COUNT,
            table@.len() == slot,
            forall|t: int|
                0 <= t < slot ==> string_views((#[trigger] table@[t])@) == names_at_slot(
                    rows@,
                    t as u16,
                ),
        decreases SLOT_COUNT - slot,
    {
        table.push(names_for_slot(rows, slot));
        slot = slot + 1;
    }
    table
}

} // verus!
