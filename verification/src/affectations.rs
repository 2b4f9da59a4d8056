//! Round-robin assignment: one (date, name) pairing per date, cycling
//! through the names when there are more dates than names.

use vstd::prelude::*;

use crate::calendar_date::CalendarDate;
use crate::name::Name;

verus! {

/// One scheduled pairing of a calendar date with a person's name.
#[derive(Debug)]
pub struct Affectation {
    pub date: CalendarDate,
    pub name: Name,
}

impl Clone for Affectation {
    fn clone(&self) -> (r: Self)
        ensures
            r.date == self.date,
            r.name@ == self.name@,
    {
        Affectation { date: self.date, name: self.name.clone() }
    }
}

impl PartialEq for Affectation {
    fn eq(&self, other: &Self) -> (r: bool)
        ensures
            r == (self.date == other.date && self.name@ == other.name@),
    {
        self.date == other.date && self.name == other.name
    }
}

impl vstd::std_specs::cmp::PartialEqSpecImpl for Affectation {
    open spec fn obeys_eq_spec() -> bool {
        true
    }

    open spec fn eq_spec(&self, other: &Self) -> bool {
        self.date == other.date && self.name@ == other.name@
    }
}

/// Pairs date `i` with name `i` modulo the number of names: the first date
/// with the first name, the second with the second, starting over from the
/// first name when the names run out. Dates keep their order; an empty
/// date sequence yields an empty schedule. With dates to fill, at least
/// one name is owed: cycling over no names has no well-defined next
/// element.
pub fn create_affectations(names: &Vec<Name>, dates: &Vec<CalendarDate>) -> (r: Vec<Affectation>)
    requires
        dates@.len() > 0 ==> names@.len() > 0,
    ensures
        r@.len() == dates@.len(),
        forall|i: int|
            0 <= i < dates@.len() ==> (#[trigger] r@[i]).date == dates@[i] && r@[i].name@
                == names@[i % names@.len() as int]@,
{
    let mut r: Vec<Affectation> = Vec::new();
    let mut i: usize = 0;
    while i < dates.len()
        invariant
            0 <= i <= dates@.len(),
            dates@.len() > 0 ==> names@.len() > 0,
            r@.len() == i,
            forall|k: int|
                0 <= k < i ==> (#[trigger] r@[k]).date == dates@[k] && r@[k].name@ == names@[k
                    % names@.len() as int]@,
        decreases dates@.len() - i,
    {
        let name = &names[i % names.len()];
        r.push(Affectation { date: dates[i], name: name.clone() });
        i = i + 1;
    }
    r
}

} // verus!
