use vstd::prelude::*;

verus! {

/// The error of halving an odd number.
#[derive(Debug, Clone, Copy, PartialEq, Eq, Structural)]
pub struct OddError;

/// Half of an even number; odd numbers are an error.
pub open spec fn spec_fn1(i: i32) -> Result<i32, OddError> {
    if i % 2 == 0 {
        Ok((i / 2) as i32)
    } else {
        Err(OddError)
    }
}

/// Halving succeeds exactly on even numbers, negative ones included, and
/// gives the number whose double is the input; every odd number, negative
/// ones included, is an error.
pub proof fn lemma_halving(i: i32)
    ensures
        spec_fn1(i) matches Ok(h) ==> 2 * h == i,
        spec_fn1(i) is Err ==> 2 * (i / 2) + 1 == i,
{
}

/// No number is both halvable and odd: an even input is never refused and an
/// odd one never accepted.
pub proof fn lemma_halving_parity(i: i32, h: int)
    ensures
        2 * h == i ==> spec_fn1(i) == Ok::<i32, OddError>(h as i32),
        2 * h + 1 == i ==> spec_fn1(i) == Err::<i32, OddError>(OddError),
{
}

/// Half of `i` when it is even, else the error.
pub fn fn1(i: i32) -> (r: Result<i32, OddError>)
    ensures
        r == spec_fn1(i),
        r matches Ok(h) ==> 2 * h == i,
        r is Err ==> 2 * (i / 2) + 1 == i,
{
    if i % 2 == 0 {
        Ok(i / 2)
    } else {
        Err(OddError)
    }
}

/// Unpacks the result of `fn1` with a `match`: the value when it is `Ok`,
/// else returns the error at once. Hands back the value to be printed.
pub fn do_the_thing(i: i32) -> (r: Result<i32, OddError>)
    ensures
        r == spec_fn1(i),
        r matches Ok(h) ==> 2 * h == i,
        r is Err ==> 2 * (i / 2) + 1 == i,
{
    let i = match fn1(i) {
        Ok(i) => i,
        Err(e) => return Err(e),
    };
    Ok(i)
}

/// The same with `?`.
pub fn do_the_thing_better(i: i32) -> (r: Result<i32, OddError>)
    ensures
        r == spec_fn1(i),
        r matches Ok(h) ==> 2 * h == i,
        r is Err ==> 2 * (i / 2) + 1 == i,
{
    let i = fn1(i)?;
    Ok(i)
}

} // verus!
