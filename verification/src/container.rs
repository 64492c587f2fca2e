use vstd::prelude::*;

verus! {

/// A number in a tuple struct.
pub struct Integer(pub u32);

/// Three colors and their 24-bit RGB values.
#[derive(Debug, Clone, Copy, PartialEq, Eq, Structural)]
pub enum Color {
    Red,
    Green,
    Blue,
}

impl Color {
    /// The RGB value of the color.
    pub fn value(&self) -> (r: i32)
        ensures
            r == match *self {
                Color::Red => 0xff0000i32,
                Color::Green => 0x00ff00i32,
                Color::Blue => 0x0000ffi32,
            },
    {
        match self {
            Color::Red => 0xff0000,
            Color::Green => 0x00ff00,
            Color::Blue => 0x0000ff,
        }
    }
}

/// `s` cut into consecutive windows of `c` items; the last window holds what
/// is left and may be shorter. No windows when `c` is 0.
pub open spec fn windows<T>(s: Seq<T>, c: nat) -> Seq<Seq<T>>
    decreases s.len(),
{
    if s.len() == 0 || c == 0 {
        Seq::empty()
    } else if s.len() <= c {
        seq![s]
    } else {
        seq![s.take(c as int)] + windows(s.skip(c as int), c)
    }
}

/// Cutting into windows loses and adds nothing: joined back together the
/// windows give `s`; each window holds `c` items but the last, which holds
/// between 1 and `c`.
pub proof fn lemma_windows_cover<T>(s: Seq<T>, c: nat)
    requires
        c > 0,
    ensures
        windows(s, c).flatten() == s,
        forall|k: int| 0 <= k < windows(s, c).len() ==> 0 < #[trigger] windows(s, c)[k].len() <= c,
        forall|k: int| 0 <= k < windows(s, c).len() - 1 ==> #[trigger] windows(s, c)[k].len() == c,
    decreases s.len(),
{
    if s.len() == 0 {
        assert(s =~= Seq::<T>::empty());
    } else if s.len() <= c {
        assert(seq![s].drop_first() =~= Seq::<Seq<T>>::empty());
        assert(seq![s].drop_first().flatten() == Seq::<T>::empty());
        assert(seq![s].first() == s);
        assert(s + Seq::<T>::empty() =~= s);
    } else {
        lemma_windows_cover(s.skip(c as int), c);
        let w = windows(s, c);
        assert(w.drop_first() =~= windows(s.skip(c as int), c));
        assert(w[0] == s.take(c as int));
        assert(w.first() == s.take(c as int));
        assert(s.take(c as int) + s.skip(c as int) =~= s);
        assert forall|k: int| 0 <= k < w.len() implies 0 < #[trigger] w[k].len() <= c by {
            if k > 0 {
                assert(w[k] == windows(s.skip(c as int), c)[k - 1]);
            }
        }
        assert forall|k: int| 0 <= k < w.len() - 1 implies #[trigger] w[k].len() == c by {
            if k > 0 {
                assert(w[k] == windows(s.skip(c as int), c)[k - 1]);
            }
        }
    }
}

/// The items of `data`, `count` at a time, as the window-count iterator
/// yields them.
pub fn window_count<T: Copy>(data: &[T], count: u32) -> (r: Vec<Vec<T>>)
    ensures
        r@.map_values(|w: Vec<T>| w@) == windows(data@, count as nat),
{
    let mut r: Vec<Vec<T>> = Vec::new();
    if count == 0 {
        assert(r@.map_values(|w: Vec<T>| w@) =~= windows(data@, 0));
        return r;
    }
    let c = count as usize;
    let n = data.len();
    let mut i: usize = 0;
    assert(data@.skip(0) =~= data@);
    assert(r@.map_values(|w: Vec<T>| w@) =~= Seq::<Seq<T>>::empty());
    assert(Seq::<Seq<T>>::empty() + windows(data@, c as nat) =~= windows(data@, c as nat));
    while i < n
        invariant
            c == count as nat,
            c > 0,
            n == data@.len(),
            0 <= i <= n,
            r@.map_values(|w: Vec<T>| w@) + windows(data@.skip(i as int), c as nat) == windows(data@, c as nat),
        decreases n - i,
    {
        let end = if n - i <= c { n } else { i + c };
        let mut w: Vec<T> = Vec::new();
        let mut j = i;
        while j < end
            invariant
                i <= j <= end <= n,
                n == data@.len(),
                w@ == data@.subrange(i as int, j as int),
            decreases end - j,
        {
            w.push(data[j]);
            assert(w@ =~= data@.subrange(i as int, j + 1));
            j = j + 1;
        }
        let ghost rest = data@.skip(i as int);
        proof {
            if n - i <= c {
                assert(windows(rest, c as nat) == seq![rest]);
                assert(w@ =~= rest);
                assert(data@.skip(end as int) =~= Seq::<T>::empty());
                assert(windows(data@.skip(end as int), c as nat) == Seq::<Seq<T>>::empty());
            } else {
                assert(windows(rest, c as nat) == seq![rest.take(c as int)] + windows(rest.skip(c as int), c as nat));
                assert(w@ =~= rest.take(c as int));
                assert(rest.skip(c as int) =~= data@.skip(end as int));
            }
        }
        let ghost before = r@.map_values(|w: Vec<T>| w@);
        r.push(w);
        assert(r@.map_values(|w: Vec<T>| w@) =~= before.push(w@));
        assert(before.push(w@) + windows(data@.skip(end as int), c as nat)
            =~= before + (seq![w@] + windows(data@.skip(end as int), c as nat)));
        i = end;
    }
    assert(data@.skip(n as int) =~= Seq::<T>::empty());
    assert(r@.map_values(|w: Vec<T>| w@) + Seq::<Seq<T>>::empty() =~= r@.map_values(|w: Vec<T>| w@));
    r
}

/// A path name with flags, ordered by name, then flags.
#[derive(Debug, PartialEq, Eq, PartialOrd, Ord)]
pub struct Name {
    pub name: String,
    pub flags: u32,
}

impl Name {
    /// A name from a string and flags.
    pub fn new(name: &str, flags: u32) -> (r: Self)
        ensures
            r.name@ == name@,
            r.flags == flags,
    {
        Self { name: name.to_owned(), flags }
    }
}

} // verus!
