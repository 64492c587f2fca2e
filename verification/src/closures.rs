use vstd::prelude::*;

verus! {

/// Remembers the result of the first call of an expensive calculation.
pub struct Catcher<T> where T: Fn(u32) -> u32 {
    calculation: T,
    value: Option<u32>,
}

impl<T> Catcher<T> where T: Fn(u32) -> u32 {
    /// The calculation.
    pub closed spec fn spec_calculation(&self) -> T {
        self.calculation
    }

    /// The remembered result, if any.
    pub closed spec fn spec_value(&self) -> Option<u32> {
        self.value
    }

    /// A catcher that has remembered nothing yet.
    pub fn new(calculation: T) -> (r: Catcher<T>)
        ensures
            r.spec_calculation() == calculation,
            r.spec_value() == None::<u32>,
    {
        Catcher { calculation, value: None }
    }

    /// The remembered result; on the first call, the calculation applied to
    /// `arg`, which is then remembered.
    pub fn value(&mut self, arg: u32) -> (r: u32)
        requires
            old(self).spec_value() is None ==> call_requires(old(self).spec_calculation(), (arg,)),
        ensures
            final(self).spec_calculation() == old(self).spec_calculation(),
            final(self).spec_value() == Some(r),
            match old(self).spec_value() {
                Some(v) => r == v,
                None => call_ensures(old(self).spec_calculation(), (arg,), r),
            },
    {
        match self.value {
            None => {
                let v = (self.calculation)(arg);
                self.value = Some(v);
                v
            },
            Some(v) => v,
        }
    }
}

/// A plan for the day.
#[derive(Debug, Clone, Copy, PartialEq, Eq, Structural)]
pub enum Workout {
    /// That many push ups, then that many sit ups.
    PushUpsThenSitUps(u32),
    /// A rest day.
    Break,
    /// A run of that many minutes.
    Run(u32),
}

/// The plan for an intensity: push ups and sit ups below 25; at 25 or more a
/// break when the random number is 3, else a run. The amounts are the
/// intensity itself, which is what the slow calculation returns.
pub fn generate_workout(intensity: u32, random_number: u32) -> (r: Workout)
    ensures
        r == (if intensity < 25 {
            Workout::PushUpsThenSitUps(intensity)
        } else if random_number == 3 {
            Workout::Break
        } else {
            Workout::Run(intensity)
        }),
{
    if intensity < 25 {
        Workout::PushUpsThenSitUps(intensity)
    } else {
        if random_number == 3 {
            Workout::Break
        } else {
            Workout::Run(intensity)
        }
    }
}

/// `x + 1`.
pub fn add_one_v1(x: u32) -> (r: u32)
    requires
        x < u32::MAX,
    ensures
        r == x + 1,
{
    x + 1
}

} // verus!
