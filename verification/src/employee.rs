use vstd::prelude::*;

verus! {

/// An employee, ordered and compared by salary alone.
#[derive(Debug)]
pub struct Employee {
    pub name: String,
    pub salary: i32,
}

impl PartialEq for Employee {
    fn eq(&self, rhs: &Self) -> (r: bool) {
        self.salary == rhs.salary
    }
}

impl vstd::std_specs::cmp::PartialEqSpecImpl for Employee {
    open spec fn obeys_eq_spec() -> bool {
        true
    }

    open spec fn eq_spec(&self, rhs: &Self) -> bool {
        self.salary == rhs.salary
    }
}

impl Eq for Employee {}

impl PartialOrd for Employee {
    fn partial_cmp(&self, rhs: &Self) -> (r: Option<core::cmp::Ordering>) {
        if self.salary < rhs.salary {
            Some(core::cmp::Ordering::Less)
        } else if self.salary == rhs.salary {
            Some(core::cmp::Ordering::Equal)
        } else {
            Some(core::cmp::Ordering::Greater)
        }
    }
}

impl vstd::std_specs::cmp::PartialOrdSpecImpl for Employee {
    open spec fn obeys_partial_cmp_spec() -> bool {
        true
    }

    open spec fn partial_cmp_spec(&self, rhs: &Self) -> Option<core::cmp::Ordering> {
        if self.salary < rhs.salary {
            Some(core::cmp::Ordering::Less)
        } else if self.salary == rhs.salary {
            Some(core::cmp::Ordering::Equal)
        } else {
            Some(core::cmp::Ordering::Greater)
        }
    }
}

} // verus!
