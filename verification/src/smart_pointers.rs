use vstd::prelude::*;
use std::rc::Rc;

verus! {

/// A box of one value that dereferences to that value.
pub struct MyBox<T>(pub T);

impl<T> MyBox<T> {
    /// Wraps `x`.
    pub fn new(x: T) -> (r: Self)
        ensures
            r.0 == x,
    {
        MyBox(x)
    }
}

impl<T> core::ops::Deref for MyBox<T> {
    type Target = T;

    fn deref(&self) -> (r: &T)
        ensures
            *r == self.0,
    {
        &self.0
    }
}

/// A value that announces itself when it is dropped.
pub struct CustomSmartPointer {
    pub data: String,
}

impl CustomSmartPointer {
    /// Wraps `x`.
    pub fn new(x: String) -> (r: Self)
        ensures
            r.data@ == x@,
    {
        CustomSmartPointer { data: x }
    }
}

/// A cons list whose tail is owned through a `Box`.
pub enum BoxList {
    Cons(i32, Box<BoxList>),
    Nil,
}

/// The items of a boxed cons list, front first.
pub open spec fn box_list_items(l: BoxList) -> Seq<i32>
    decreases l,
{
    match l {
        BoxList::Cons(v, tail) => seq![v] + box_list_items(*tail),
        BoxList::Nil => Seq::empty(),
    }
}

/// Builds the list `1, 2, 3`.
pub fn t_b() -> (l: BoxList)
    ensures
        box_list_items(l) == seq![1i32, 2i32, 3i32],
{
    let l = BoxList::Cons(1, Box::new(BoxList::Cons(2, Box::new(BoxList::Cons(3, Box::new(BoxList::Nil))))));
    assert(box_list_items(l) =~= seq![1i32, 2i32, 3i32]) by {
        reveal_with_fuel(box_list_items, 4);
    }
    l
}

/// A cons list whose tails can be shared through `Rc`.
pub enum RcList {
    Cons(i32, Rc<RcList>),
    Nil,
}

/// The items of a shared cons list, front first.
pub open spec fn rc_list_items(l: RcList) -> Seq<i32>
    decreases l,
{
    match l {
        RcList::Cons(v, tail) => seq![v] + rc_list_items(*tail),
        RcList::Nil => Seq::empty(),
    }
}

/// Builds the list `5, 10` and two lists `3, 5, 10` and `4, 5, 10` that share it.
pub fn test_rc() -> (r: (Rc<RcList>, RcList, RcList))
    ensures
        rc_list_items(*r.0) == seq![5i32, 10i32],
        rc_list_items(r.1) == seq![3i32, 5i32, 10i32],
        rc_list_items(r.2) == seq![4i32, 5i32, 10i32],
{
    let a = Rc::new(RcList::Cons(5, Rc::new(RcList::Cons(10, Rc::new(RcList::Nil)))));
    let b = RcList::Cons(3, Rc::clone(&a));
    let c = RcList::Cons(4, Rc::clone(&a));
    assert(rc_list_items(*a) =~= seq![5i32, 10i32]) by {
        reveal_with_fuel(rc_list_items, 3);
    }
    assert(rc_list_items(b) =~= seq![3i32, 5i32, 10i32]);
    assert(rc_list_items(c) =~= seq![4i32, 5i32, 10i32]);
    (a, b, c)
}

/// Moves a byte onto the heap and back.
pub fn t_box() -> (r: (Box<u8>, u8))
    ensures
        *r.0 == 5,
        r.1 == 5,
{
    let val: u8 = 5;
    let b: Box<u8> = Box::new(val);
    let boxed: Box<u8> = Box::new(5);
    let v: u8 = *boxed;
    (b, v)
}

/// Receives the quota messages of a [`LimitTracker`].
pub trait Messenger {
    /// What the messenger guarantees of a text it is handed: `send` ensures
    /// it of its argument. A messenger is used through a shared borrow and
    /// carries no record of past calls, so this is a fixed predicate of the
    /// messenger; an impl must make it true of every text it can be sent.
    /// For a caller generic in the messenger it is known of a text only
    /// after that text was sent.
    spec fn received(&self, msg: Seq<char>) -> bool;

    /// Hands the messenger the text `msg`.
    fn send(&self, msg: &str)
        ensures
            self.received(msg@),
    ;
}

/// How close a tracked value is to its limit.
#[derive(Debug, Clone, Copy, PartialEq, Eq, Structural)]
pub enum QuotaAlert {
    /// At or over the limit.
    Over,
    /// At 90% of the limit or more.
    Urgent,
    /// At 75% of the limit or more.
    Warning,
}

/// The alert for `value` against `max`: the share `value / max` compared with
/// 1, 0.9 and 0.75 in turn; `0 / 0` is no share at all and gives no alert.
pub open spec fn spec_quota_alert(value: int, max: int) -> Option<QuotaAlert> {
    if value == 0 && max == 0 {
        None
    } else if value >= max {
        Some(QuotaAlert::Over)
    } else if 10 * value >= 9 * max {
        Some(QuotaAlert::Urgent)
    } else if 4 * value >= 3 * max {
        Some(QuotaAlert::Warning)
    } else {
        None
    }
}

/// How severe an alert is: none 0, warning 1, urgent 2, over 3.
pub open spec fn severity(a: Option<QuotaAlert>) -> int {
    match a {
        None => 0,
        Some(QuotaAlert::Warning) => 1,
        Some(QuotaAlert::Urgent) => 2,
        Some(QuotaAlert::Over) => 3,
    }
}

/// A higher value never raises a milder alert against the same limit.
pub proof fn lemma_alert_monotone(v1: nat, v2: nat, max: nat)
    requires
        v1 <= v2,
    ensures
        severity(spec_quota_alert(v1 as int, max as int)) <= severity(spec_quota_alert(v2 as int, max as int)),
{
}

/// The alerts follow the share `value / max` against a positive limit: over
/// exactly at or past the limit, urgent or worse exactly from 90%, a warning
/// or worse exactly from 75%, and nothing below that.
pub proof fn lemma_alert_thresholds(value: nat, max: nat)
    requires
        max > 0,
    ensures
        spec_quota_alert(value as int, max as int) == Some(QuotaAlert::Over) <==> value >= max,
        severity(spec_quota_alert(value as int, max as int)) >= 2 <==> 10 * value >= 9 * max,
        severity(spec_quota_alert(value as int, max as int)) >= 1 <==> 4 * value >= 3 * max,
        spec_quota_alert(value as int, max as int) is None <==> 4 * value < 3 * max,
{
}

/// Against a zero limit any positive value is over it, and zero raises no
/// alert.
pub proof fn lemma_alert_zero_limit(value: nat)
    ensures
        value > 0 ==> spec_quota_alert(value as int, 0) == Some(QuotaAlert::Over),
        spec_quota_alert(0, 0) is None,
{
}

/// The text that the messenger receives for an alert.
pub open spec fn spec_alert_text(a: QuotaAlert) -> Seq<char> {
    match a {
        QuotaAlert::Over => "Error: You are over your quota!"@,
        QuotaAlert::Urgent => "Urgent warning: You've used up over 90% of your quota!"@,
        QuotaAlert::Warning => "Warning: You've used up over 75% of your quota!"@,
    }
}

impl QuotaAlert {
    /// The text sent for this alert.
    pub fn message(&self) -> (r: &'static str)
        ensures
            r@ == spec_alert_text(*self),
    {
        match self {
            QuotaAlert::Over => "Error: You are over your quota!",
            QuotaAlert::Urgent => "Urgent warning: You've used up over 90% of your quota!",
            QuotaAlert::Warning => "Warning: You've used up over 75% of your quota!",
        }
    }
}

/// Classifies `value` against `max`.
pub fn quota_alert(value: usize, max: usize) -> (r: Option<QuotaAlert>)
    ensures
        r == spec_quota_alert(value as int, max as int),
        r == Some(QuotaAlert::Over) <==> (value >= max && value > 0),
        severity(r) >= 2 <==> (10 * value >= 9 * max && value > 0),
        severity(r) >= 1 <==> (4 * value >= 3 * max && value > 0),
{
    let v = value as u128;
    let m = max as u128;
    if value == 0 && max == 0 {
        None
    } else if v >= m {
        Some(QuotaAlert::Over)
    } else if 10 * v >= 9 * m {
        Some(QuotaAlert::Urgent)
    } else if 4 * v >= 3 * m {
        Some(QuotaAlert::Warning)
    } else {
        None
    }
}

/// Tracks a value against a limit and tells a messenger when it comes close.
pub struct LimitTracker<'a, T: Messenger> {
    messenger: &'a T,
    value: usize,
    max: usize,
}

impl<'a, T: Messenger> LimitTracker<'a, T> {
    /// The tracked value.
    pub closed spec fn spec_value(&self) -> usize {
        self.value
    }

    /// The limit.
    pub closed spec fn spec_max(&self) -> usize {
        self.max
    }

    /// The messenger that alerts go to.
    pub closed spec fn spec_messenger(&self) -> &'a T {
        self.messenger
    }

    /// A tracker at value 0 with limit `max`.
    pub fn new(messenger: &'a T, max: usize) -> (r: Self)
        ensures
            r.spec_value() == 0,
            r.spec_max() == max,
            r.spec_messenger() == messenger,
    {
        LimitTracker { messenger, value: 0, max }
    }

    /// The tracked value.
    pub fn value(&self) -> (r: usize)
        ensures
            r == self.spec_value(),
    {
        self.value
    }

    /// The limit.
    pub fn max(&self) -> (r: usize)
        ensures
            r == self.spec_max(),
    {
        self.max
    }

    /// Sets the tracked value and sends the messenger the text of the alert
    /// that the new value raises, if any; returns that alert.
    pub fn set_value(&mut self, value: usize) -> (r: Option<QuotaAlert>)
        ensures
            final(self).spec_value() == value,
            final(self).spec_max() == old(self).spec_max(),
            final(self).spec_messenger() == old(self).spec_messenger(),
            r == spec_quota_alert(value as int, old(self).spec_max() as int),
            r matches Some(a) ==> old(self).spec_messenger().received(spec_alert_text(a)),
    {
        self.value = value;
        let alert = quota_alert(self.value, self.max);
        match alert {
            Some(a) => {
                self.messenger.send(a.message());
            },
            None => {},
        }
        alert
    }
}

} // verus!
