use vstd::prelude::*;

verus! {

/// What the control-flow sample prints, as values.
pub struct FlowTrace {
    /// The line chosen by the opening branch on the starting number:
    /// `"ok"` when it is not zero, else `"ok ko"`.
    pub branch: &'static str,
    /// The counter values printed by the first loop.
    pub currents: Vec<u32>,
    /// The `(count, remaining)` pairs printed by the nested loops.
    pub nested: Vec<(u32, u32)>,
    /// The count when the labelled outer loop is left.
    pub end_count: u32,
    /// The value that the last loop breaks with.
    pub result: u32,
}

/// Runs the control-flow sample: a branch on the starting number 3, a loop that counts from 3 up to 10, two
/// nested loops that the inner one leaves by a labelled break when the
/// count reaches 2, and a loop that breaks with twice the counter once the
/// counter reaches 10.
pub fn sample() -> (t: FlowTrace)
    ensures
        t.branch@ == "ok"@,
        t.currents@ == seq![3u32, 4, 5, 6, 7, 8, 9, 10],
        t.nested@ == seq![(0u32, 10u32), (0, 9), (1, 10), (1, 9), (2, 10)],
        t.end_count == 2,
        t.result == 20,
{
    let mut currents: Vec<u32> = Vec::new();
    let mut num: u32 = 3;
    let branch: &'static str = if num != 0 {
        "ok"
    } else {
        "ok ko"
    };
    loop
        invariant
            3 <= num <= 11,
            currents@ == Seq::new((num - 3) as nat, |i: int| (i + 3) as u32),
        ensures
            currents@ == Seq::new(8, |i: int| (i + 3) as u32),
        decreases 11 - num,
    {
        if num > 10 {
            break;
        }
        currents.push(num);
        num += 1;
    }
    assert(currents@ =~= seq![3u32, 4, 5, 6, 7, 8, 9, 10]);

    let mut nested: Vec<(u32, u32)> = Vec::new();
    let mut count: u32 = 0;
    'counting_up: loop
        invariant_except_break
            count == 0 ==> nested@ == Seq::<(u32, u32)>::empty(),
            count == 1 ==> nested@ == seq![(0u32, 10u32), (0, 9)],
            count == 2 ==> nested@ == seq![(0u32, 10u32), (0, 9), (1, 10), (1, 9)],
        invariant
            count <= 2,
        ensures
            count == 2,
            nested@ == seq![(0u32, 10u32), (0, 9), (1, 10), (1, 9), (2, 10)],
        decreases 2 - count,
    {
        let ghost start = nested@;
        let mut remaining: u32 = 10;
        loop
            invariant_except_break
                9 <= remaining <= 10,
                count == 2 ==> remaining == 10,
                remaining == 10 ==> nested@ == start,
                remaining == 9 ==> nested@ == start.push((count, 10u32)),
            invariant
                count <= 2,
                count == 0 ==> start == Seq::<(u32, u32)>::empty(),
                count == 1 ==> start == seq![(0u32, 10u32), (0, 9)],
                count == 2 ==> start == seq![(0u32, 10u32), (0, 9), (1, 10), (1, 9)],
            ensures
                count < 2,
                nested@ == start.push((count, 10u32)).push((count, 9u32)),
            decreases remaining,
        {
            nested.push((count, remaining));
            if remaining == 9 {
                break;
            }
            if count == 2 {
                assert(nested@ =~= seq![(0u32, 10u32), (0, 9), (1, 10), (1, 9), (2, 10)]);
                break 'counting_up;
            }
            remaining -= 1;
        }
        count += 1;
        assert(count == 1 ==> nested@ =~= seq![(0u32, 10u32), (0, 9)]);
        assert(count == 2 ==> nested@ =~= seq![(0u32, 10u32), (0, 9), (1, 10), (1, 9)]);
    }

    let mut counter: u32 = 1;
    let mut result: u32 = 0;
    loop
        invariant_except_break
            1 <= counter < 10,
        ensures
            result == 20,
        decreases 10 - counter,
    {
        counter += 1;
        if counter == 10 {
            result = counter * 2;
            break;
        }
    }
    FlowTrace { branch, currents, nested, end_count: count, result }
}

} // verus!
