use vstd::prelude::*;
use crate::employee::Employee;

verus! {

/// The employees of `s` whose salary is `v`, in their order in `s`.
pub open spec fn with_salary(s: Seq<Employee>, v: i32) -> Seq<Employee>
    decreases s.len(),
{
    if s.len() == 0 {
        Seq::empty()
    } else if s.last().salary == v {
        with_salary(s.drop_last(), v).push(s.last())
    } else {
        with_salary(s.drop_last(), v)
    }
}

/// The salaries in `s` never decrease from front to back.
pub open spec fn sorted_by_salary(s: Seq<Employee>) -> bool {
    forall|i: int, j: int| 0 <= i <= j < s.len() ==> s[i].salary <= s[j].salary
}

/// `r` is `s` sorted stably by salary: sorted, and for every salary the
/// employees that earn it come in the same order as in `s`.
pub open spec fn stable_sort_of(r: Seq<Employee>, s: Seq<Employee>) -> bool {
    &&& sorted_by_salary(r)
    &&& forall|v: i32| #[trigger] with_salary(r, v) == with_salary(s, v)
}

/// Selecting by salary distributes over concatenation.
pub proof fn lemma_with_salary_concat(a: Seq<Employee>, b: Seq<Employee>, v: i32)
    ensures
        with_salary(a + b, v) == with_salary(a, v) + with_salary(b, v),
    decreases b.len(),
{
    if b.len() == 0 {
        assert(a + b =~= a);
        assert(with_salary(a, v) + with_salary(b, v) =~= with_salary(a, v));
    } else {
        lemma_with_salary_concat(a, b.drop_last(), v);
        assert((a + b).drop_last() =~= a + b.drop_last());
        assert((a + b).last() == b.last());
        if b.last().salary == v {
            assert(with_salary(a, v) + with_salary(b.drop_last(), v).push(b.last())
                =~= (with_salary(a, v) + with_salary(b.drop_last(), v)).push(b.last()));
        }
    }
}

/// No employee of `s` earns `v` when all earn more than `v`.
pub proof fn lemma_with_salary_none(s: Seq<Employee>, v: i32)
    requires
        forall|i: int| 0 <= i < s.len() ==> s[i].salary > v,
    ensures
        with_salary(s, v) == Seq::<Employee>::empty(),
    decreases s.len(),
{
    if s.len() > 0 {
        lemma_with_salary_none(s.drop_last(), v);
    }
}

/// Every employee selected for salary `v` earns `v`, and one that earns `v`
/// in a one-element sequence is selected.
pub proof fn lemma_with_salary_single(e: Employee, v: i32)
    ensures
        with_salary(seq![e], v) == (if e.salary == v { seq![e] } else { Seq::<Employee>::empty() }),
{
    assert(seq![e].drop_last() =~= Seq::<Employee>::empty());
    assert(seq![e].last() == e);
    assert(with_salary(Seq::<Employee>::empty(), v) =~= Seq::<Employee>::empty());
    assert(with_salary(seq![e], v) == if e.salary == v {
        with_salary(Seq::<Employee>::empty(), v).push(e)
    } else {
        with_salary(Seq::<Employee>::empty(), v)
    });
    if e.salary == v {
        assert(Seq::<Employee>::empty().push(e) =~= seq![e]);
    }
}

/// How often `e` occurs in `s`.
pub open spec fn occurrences(s: Seq<Employee>, e: Employee) -> nat
    decreases s.len(),
{
    if s.len() == 0 {
        0
    } else {
        occurrences(s.drop_last(), e) + if s.last() == e { 1nat } else { 0nat }
    }
}

/// Selecting the employees that earn what `e` earns keeps every copy of `e`.
proof fn lemma_occurrences_with_salary(s: Seq<Employee>, e: Employee)
    ensures
        occurrences(with_salary(s, e.salary), e) == occurrences(s, e),
    decreases s.len(),
{
    if s.len() > 0 {
        lemma_occurrences_with_salary(s.drop_last(), e);
        let t = with_salary(s.drop_last(), e.salary);
        if s.last().salary == e.salary {
            assert(t.push(s.last()).drop_last() =~= t);
        }
    }
}

/// A stable sort by salary is a permutation: every employee occurs in the
/// result as often as in the input.
pub proof fn lemma_stable_sort_is_permutation(r: Seq<Employee>, s: Seq<Employee>)
    requires
        stable_sort_of(r, s),
    ensures
        forall|e: Employee| #[trigger] occurrences(r, e) == occurrences(s, e),
{
    assert forall|e: Employee| #[trigger] occurrences(r, e) == occurrences(s, e) by {
        lemma_occurrences_with_salary(r, e);
        lemma_occurrences_with_salary(s, e);
        assert(with_salary(r, e.salary) == with_salary(s, e.salary));
    }
}

/// Some employee of `s` earns `v` exactly when selecting by `v` finds one.
proof fn lemma_with_salary_nonempty(s: Seq<Employee>, v: i32)
    ensures
        with_salary(s, v).len() > 0 <==> exists|i: int| 0 <= i < s.len() && #[trigger] s[i].salary == v,
    decreases s.len(),
{
    if s.len() > 0 {
        lemma_with_salary_nonempty(s.drop_last(), v);
        if exists|i: int| 0 <= i < s.len() && #[trigger] s[i].salary == v {
            let i = choose|i: int| 0 <= i < s.len() && #[trigger] s[i].salary == v;
            if i < s.len() - 1 {
                assert(s.drop_last()[i].salary == v);
            }
        }
        if exists|i: int| 0 <= i < s.drop_last().len() && #[trigger] s.drop_last()[i].salary == v {
            let i = choose|i: int| 0 <= i < s.drop_last().len() && #[trigger] s.drop_last()[i].salary == v;
            assert(s[i].salary == v);
        }
    }
}

/// There is only one stable sort by salary: two sorted sequences that hold,
/// salary by salary, the same employees in the same order are equal.
pub proof fn lemma_stable_sort_unique(r1: Seq<Employee>, r2: Seq<Employee>)
    requires
        sorted_by_salary(r1),
        sorted_by_salary(r2),
        forall|v: i32| #[trigger] with_salary(r1, v) == with_salary(r2, v),
    ensures
        r1 == r2,
    decreases r1.len() + r2.len(),
{
    if r1.len() == 0 || r2.len() == 0 {
        if r1.len() > 0 {
            lemma_with_salary_nonempty(r1, r1[0].salary);
            lemma_with_salary_nonempty(r2, r1[0].salary);
            assert(with_salary(r1, r1[0].salary) == with_salary(r2, r1[0].salary));
        } else if r2.len() > 0 {
            lemma_with_salary_nonempty(r1, r2[0].salary);
            lemma_with_salary_nonempty(r2, r2[0].salary);
            assert(with_salary(r1, r2[0].salary) == with_salary(r2, r2[0].salary));
        }
        assert(r1 =~= r2);
    } else {
        let m1 = r1.last().salary;
        let m2 = r2.last().salary;
        lemma_with_salary_nonempty(r1, m1);
        lemma_with_salary_nonempty(r2, m1);
        lemma_with_salary_nonempty(r1, m2);
        lemma_with_salary_nonempty(r2, m2);
        assert(with_salary(r1, m1) == with_salary(r2, m1));
        assert(with_salary(r1, m2) == with_salary(r2, m2));
        assert(r1[r1.len() - 1].salary == m1);
        assert(r2[r2.len() - 1].salary == m2);
        let i2 = choose|i: int| 0 <= i < r2.len() && #[trigger] r2[i].salary == m1;
        let i1 = choose|i: int| 0 <= i < r1.len() && #[trigger] r1[i].salary == m2;
        assert(r2[i2].salary <= r2[r2.len() - 1].salary);
        assert(r1[i1].salary <= r1[r1.len() - 1].salary);
        let m = m1;
        assert(m1 == m2);
        assert(r1.last() == with_salary(r1, m).last());
        assert(r2.last() == with_salary(r2, m).last());
        assert forall|v: i32| #[trigger] with_salary(r1.drop_last(), v) == with_salary(r2.drop_last(), v) by {
            assert(with_salary(r1, v) == with_salary(r2, v));
            if v == m {
                assert(with_salary(r1, v).drop_last() =~= with_salary(r1.drop_last(), v));
                assert(with_salary(r2, v).drop_last() =~= with_salary(r2.drop_last(), v));
            }
        }
        lemma_stable_sort_unique(r1.drop_last(), r2.drop_last());
        assert(r1 =~= r1.drop_last().push(r1.last()));
        assert(r2 =~= r2.drop_last().push(r2.last()));
    }
}

/// Sorting stably by salary a list that is already sorted by salary leaves
/// it as it is.
pub proof fn lemma_stable_sort_of_sorted(r: Seq<Employee>, s: Seq<Employee>)
    requires
        stable_sort_of(r, s),
        sorted_by_salary(s),
    ensures
        r == s,
{
    lemma_stable_sort_unique(r, s);
}

/// The index of the employee that a front-to-back scan keeps: it moves on to
/// an employee only when that one earns strictly more, so this is the first
/// employee with the highest salary.
pub fn scan_max(v: &Vec<Employee>) -> (r: usize)
    requires
        v@.len() > 0,
    ensures
        r < v@.len(),
        forall|i: int| 0 <= i < v@.len() ==> v@[i].salary <= v@[r as int].salary,
        forall|i: int| 0 <= i < r ==> v@[i].salary < v@[r as int].salary,
{
    let mut e: usize = 0;
    let mut i: usize = 0;
    while i < v.len()
        invariant
            0 <= e < v@.len(),
            e <= i <= v@.len(),
            forall|j: int| 0 <= j < i ==> v@[j].salary <= v@[e as int].salary,
            forall|j: int| 0 <= j < e ==> v@[j].salary < v@[e as int].salary,
        decreases v@.len() - i,
    {
        if v[e] < v[i] {
            e = i;
        }
        i = i + 1;
    }
    e
}

/// The index of the minimum that `Iterator::min` returns: the first employee
/// with the lowest salary.
pub fn min_index(v: &Vec<Employee>) -> (r: usize)
    requires
        v@.len() > 0,
    ensures
        r < v@.len(),
        forall|i: int| 0 <= i < v@.len() ==> v@[r as int].salary <= v@[i].salary,
        forall|i: int| 0 <= i < r ==> v@[r as int].salary < v@[i].salary,
{
    let mut e: usize = 0;
    let mut i: usize = 1;
    while i < v.len()
        invariant
            0 <= e < v@.len(),
            e < i <= v@.len(),
            forall|j: int| 0 <= j < i ==> v@[e as int].salary <= v@[j].salary,
            forall|j: int| 0 <= j < e ==> v@[e as int].salary < v@[j].salary,
        decreases v@.len() - i,
    {
        if v[i].salary < v[e].salary {
            e = i;
        }
        i = i + 1;
    }
    e
}

/// The index of the maximum that `Iterator::max` returns: the last employee
/// with the highest salary.
pub fn max_index(v: &Vec<Employee>) -> (r: usize)
    requires
        v@.len() > 0,
    ensures
        r < v@.len(),
        forall|i: int| 0 <= i < v@.len() ==> v@[i].salary <= v@[r as int].salary,
        forall|i: int| r < i < v@.len() ==> v@[i].salary < v@[r as int].salary,
{
    let mut e: usize = 0;
    let mut i: usize = 1;
    while i < v.len()
        invariant
            0 <= e < v@.len(),
            e < i <= v@.len(),
            forall|j: int| 0 <= j < i ==> v@[j].salary <= v@[e as int].salary,
            forall|j: int| e < j < i ==> v@[j].salary < v@[e as int].salary,
        decreases v@.len() - i,
    {
        if v[e].salary <= v[i].salary {
            e = i;
        }
        i = i + 1;
    }
    e
}

/// Sorts the employees by salary, keeping the order of equal salaries, as
/// `slice::sort` does with this order.
pub fn sort_by_salary(v: &mut Vec<Employee>)
    ensures
        stable_sort_of(final(v)@, old(v)@),
        final(v)@.len() == old(v)@.len(),
{
    let ghost orig = v@;
    let mut result: Vec<Employee> = Vec::new();
    let ghost mut done: int = 0;
    while v.len() > 0
        invariant
            0 <= done <= orig.len(),
            v@ == orig.skip(done),
            result@.len() == done,
            sorted_by_salary(result@),
            forall|s: i32| #[trigger] with_salary(result@, s) == with_salary(orig.take(done), s),
        decreases v@.len(),
    {
        let ghost before = result@;
        let e = v.remove(0);
        let mut p: usize = 0;
        while p < result.len() && result[p].salary <= e.salary
            invariant
                result@ == before,
                0 <= p <= result@.len(),
                forall|j: int| 0 <= j < p ==> result@[j].salary <= e.salary,
            decreases result@.len() - p,
        {
            p = p + 1;
        }
        let ghost ee = e;
        result.insert(p, e);
        proof {
            let pi = p as int;
            assert(before.take(pi) + before.skip(pi) =~= before);
            assert(result@ =~= before.take(pi) + seq![ee] + before.skip(pi));
            assert forall|j: int| 0 <= j < before.skip(pi).len() implies before.skip(pi)[j].salary > ee.salary by {
                assert(before.skip(pi)[j] == before[pi + j]);
                assert(before[pi].salary > ee.salary);
            }
            assert(orig.take(done + 1) =~= orig.take(done) + seq![ee]) by {
                assert(orig.skip(done)[0] == ee);
            }
            assert forall|s: i32| #[trigger] with_salary(result@, s) == with_salary(orig.take(done + 1), s) by {
                lemma_with_salary_concat(before.take(pi) + seq![ee], before.skip(pi), s);
                lemma_with_salary_concat(before.take(pi), seq![ee], s);
                lemma_with_salary_concat(before.take(pi), before.skip(pi), s);
                lemma_with_salary_concat(orig.take(done), seq![ee], s);
                lemma_with_salary_single(ee, s);
                if ee.salary == s {
                    lemma_with_salary_none(before.skip(pi), s);
                }
                assert(with_salary(before.take(pi), s) + with_salary(seq![ee], s) + Seq::<Employee>::empty()
                    =~= with_salary(before.take(pi), s) + with_salary(seq![ee], s));
                assert(with_salary(before.take(pi), s) + Seq::<Employee>::empty()
                    =~= with_salary(before.take(pi), s));
            }
            assert(sorted_by_salary(result@)) by {
                assert forall|i: int, j: int| 0 <= i <= j < result@.len() implies result@[i].salary <= result@[j].salary by {
                    if j < pi {
                    } else if j == pi {
                        assert(result@[j] == ee);
                    } else if i > pi {
                        assert(result@[i] == before[i - 1]);
                        assert(result@[j] == before[j - 1]);
                    } else if i == pi {
                        assert(result@[j] == before[j - 1]);
                        assert(before[pi].salary > ee.salary);
                    } else {
                        assert(result@[j] == before[j - 1]);
                    }
                }
            }
            done = done + 1;
            assert(v@ =~= orig.skip(done));
        }
    }
    proof {
        assert(orig.take(done) =~= orig);
    }
    *v = result;
}

/// The employees of the salary example, in their listed order.
pub fn sample_staff() -> (v: Vec<Employee>)
    ensures
        v@.len() == 7,
        v@[0].name@ == "Bob"@,
        v@[0].salary == 2048,
        v@[1].name@ == "Alice"@,
        v@[1].salary == 3208,
        v@[2].name@ == "Tom"@,
        v@[2].salary == 2359,
        v@[3].name@ == "Jack"@,
        v@[3].salary == 4865,
        v@[4].name@ == "Mary"@,
        v@[4].salary == 3743,
        v@[5].name@ == "Hao"@,
        v@[5].salary == 2964,
        v@[6].name@ == "Chen"@,
        v@[6].salary == 4197,
{
    let mut v: Vec<Employee> = Vec::new();
    v.push(Employee { name: String::from_str("Bob"), salary: 2048 });
    v.push(Employee { name: String::from_str("Alice"), salary: 3208 });
    v.push(Employee { name: String::from_str("Tom"), salary: 2359 });
    v.push(Employee { name: String::from_str("Jack"), salary: 4865 });
    v.push(Employee { name: String::from_str("Mary"), salary: 3743 });
    v.push(Employee { name: String::from_str("Hao"), salary: 2964 });
    v.push(Employee { name: String::from_str("Chen"), salary: 4197 });
    v
}

} // verus!
