//! Employee rate lookup: the fixed monthly cost an aggregation charges
//! to every month, with a missing employee coerced to zero by design.

use vstd::prelude::*;
use crate::model::Employee;

verus! {

/// Whether some employee row carries this id.
pub open spec fn employee_exists(emps: Seq<Employee>, id: int) -> bool {
    exists|k: int| 0 <= k < emps.len() && emps[k].id == id
}

/// The monthly rate of the first employee row with this id, or zero
/// when no row has it.
pub open spec fn rate_of(emps: Seq<Employee>, id: int) -> int
    decreases emps.len(),
{
    if emps.len() == 0 {
        0
    } else if emps[0].id == id {
        emps[0].monthly_rate as int
    } else {
        rate_of(emps.subrange(1, emps.len() as int), id)
    }
}

/// Resolves an employee's monthly rate; a missing employee yields zero,
/// never an error.
pub fn monthly_rate_of(employees: &Vec<Employee>, employee_id: i32) -> (r: i64)
    ensures
        r as int == rate_of(employees@, employee_id as int),
        !employee_exists(employees@, employee_id as int) ==> r == 0,
        employee_exists(employees@, employee_id as int) ==> (exists|k: int|
            0 <= k < employees@.len() && employees@[k].id == employee_id
                && r == employees@[k].monthly_rate),
{
    let mut i: usize = 0;
    proof {
        assert(employees@.subrange(0, employees@.len() as int) =~= employees@);
    }
    while i < employees.len()
        invariant
            i <= employees@.len(),
            rate_of(employees@, employee_id as int) == rate_of(
                employees@.subrange(i as int, employees@.len() as int),
                employee_id as int,
            ),
            forall|j: int| 0 <= j < i ==> employees@[j].id != employee_id,
        decreases employees@.len() - i,
    {
        let e = &employees[i];
        proof {
            let suf = employees@.subrange(i as int, employees@.len() as int);
            assert(suf[0] == employees@[i as int]);
            assert(suf.subrange(1, suf.len() as int) =~= employees@.subrange(
                i as int + 1,
                employees@.len() as int,
            ));
        }
        if e.id == employee_id {
            return e.monthly_rate;
        }
        i = i + 1;
    }
    proof {
        assert(employees@.subrange(i as int, employees@.len() as int).len() == 0);
        if employee_exists(employees@, employee_id as int) {
            let k = choose|k: int|
                0 <= k < employees@.len() && employees@[k].id == employee_id;
            assert(employees@[k].id != employee_id);
        }
    }
    0
}

} // verus!
