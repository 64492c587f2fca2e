use vstd::prelude::*;
use crate::ownership::{first_space_char, lemma_first_space_char};

verus! {

/// The characters that `char::is_whitespace` accepts: those with the Unicode
/// `White_Space` property.
pub open spec fn is_ws(c: char) -> bool {
    ||| ('\t' <= c <= '\r')
    ||| c == ' '
    ||| c == '\u{85}'
    ||| c == '\u{a0}'
    ||| c == '\u{1680}'
    ||| ('\u{2000}' <= c <= '\u{200a}')
    ||| c == '\u{2028}'
    ||| c == '\u{2029}'
    ||| c == '\u{202f}'
    ||| c == '\u{205f}'
    ||| c == '\u{3000}'
}

/// `s` without its leading whitespace.
pub open spec fn trim_start(s: Seq<char>) -> Seq<char>
    decreases s.len(),
{
    if s.len() > 0 && is_ws(s[0]) {
        trim_start(s.drop_first())
    } else {
        s
    }
}

/// `s` without its trailing whitespace.
pub open spec fn trim_end(s: Seq<char>) -> Seq<char>
    decreases s.len(),
{
    if s.len() > 0 && is_ws(s.last()) {
        trim_end(s.drop_last())
    } else {
        s
    }
}

/// `s` without leading and trailing whitespace, as `str::trim` gives it.
pub open spec fn trim(s: Seq<char>) -> Seq<char> {
    trim_end(trim_start(s))
}

/// The pieces of `s` between single spaces, as `str::split(' ')` gives them.
pub open spec fn split_spaces(s: Seq<char>) -> Seq<Seq<char>>
    decreases s.len(),
{
    if first_space_char(s) >= s.len() || first_space_char(s) < 0 {
        seq![s]
    } else {
        seq![s.take(first_space_char(s))] + split_spaces(s.skip(first_space_char(s) + 1))
    }
}

/// `c` is an ASCII decimal digit.
pub open spec fn is_digit(c: char) -> bool {
    '0' <= c <= '9'
}

/// The decimal value of a string of digits.
pub open spec fn digits_value(s: Seq<char>) -> nat
    decreases s.len(),
{
    if s.len() == 0 {
        0
    } else {
        digits_value(s.drop_last()) * 10 + ((s.last() as nat) - ('0' as nat)) as nat
    }
}

/// What `str::parse::<usize>` gives: an optional `+`, then at least one
/// decimal digit and nothing else, of a value that fits in `usize`.
pub open spec fn spec_parse_usize(s: Seq<char>) -> Option<usize> {
    let body = unsigned_body(s);
    if body.len() > 0 && all_digits(body) && digits_value(body) <= usize::MAX {
        Some(digits_value(body) as usize)
    } else {
        None
    }
}

/// `s` without the `+` that may lead a number, when more follows it.
pub open spec fn unsigned_body(s: Seq<char>) -> Seq<char> {
    if s.len() > 1 && s[0] == '+' {
        s.drop_first()
    } else {
        s
    }
}

/// Every character of `s` is a decimal digit.
pub open spec fn all_digits(s: Seq<char>) -> bool {
    forall|i: int| 0 <= i < s.len() ==> is_digit(#[trigger] s[i])
}

/// A console command.
#[derive(Debug, Clone, Copy, PartialEq, Eq, Structural)]
pub enum Command {
    /// Anything but `restart` followed by one argument.
    Unrecognized,
    /// `restart <id>` with a valid id.
    Restart(usize),
    /// `restart <id>` where the id is not a number that fits in `usize`.
    BadId,
}

/// The command that a console line means: after trimming, split at single
/// spaces; exactly the two pieces `restart` and an id, trimmed and parsed as
/// `usize`, make a restart.
pub open spec fn spec_command(line: Seq<char>) -> Command {
    let parts = split_spaces(trim(line));
    if parts.len() == 2 && parts[0] == "restart"@ {
        match spec_parse_usize(trim(parts[1])) {
            Some(id) => Command::Restart(id),
            None => Command::BadId,
        }
    } else {
        Command::Unrecognized
    }
}

proof fn lemma_trim_start(s: Seq<char>, k: int)
    requires
        0 <= k <= s.len(),
        forall|j: int| 0 <= j < k ==> is_ws(s[j]),
        k == s.len() || !is_ws(s[k]),
    ensures
        trim_start(s) == s.skip(k),
    decreases k,
{
    if k == 0 {
        assert(s.skip(0) =~= s);
    } else {
        assert forall|j: int| 0 <= j < k - 1 implies is_ws(s.drop_first()[j]) by {
            assert(s.drop_first()[j] == s[j + 1]);
        }
        lemma_trim_start(s.drop_first(), k - 1);
        assert(s.drop_first().skip(k - 1) =~= s.skip(k));
    }
}

proof fn lemma_trim_end(s: Seq<char>, k: int)
    requires
        0 <= k <= s.len(),
        forall|j: int| k <= j < s.len() ==> is_ws(s[j]),
        k == 0 || !is_ws(s[k - 1]),
    ensures
        trim_end(s) == s.take(k),
    decreases s.len() - k,
{
    if k == s.len() {
        assert(s.take(k) =~= s);
    } else {
        lemma_trim_end(s.drop_last(), k);
        assert(s.drop_last().take(k) =~= s.take(k));
    }
}

/// The characters of `s`.
pub(crate) fn chars_of(s: &str) -> (r: Vec<char>)
    ensures
        r@ == s@,
{
    let n = s.unicode_len();
    let mut r: Vec<char> = Vec::new();
    let mut i: usize = 0;
    while i < n
        invariant
            n == s@.len(),
            0 <= i <= n,
            r@ == s@.take(i as int),
        decreases n - i,
    {
        r.push(s.get_char(i));
        assert(r@ =~= s@.take(i + 1));
        i = i + 1;
    }
    assert(r@ =~= s@);
    r
}

fn char_is_ws(c: char) -> (r: bool)
    ensures
        r == is_ws(c),
{
    ('\t' <= c && c <= '\r') || c == ' ' || c == '\u{85}' || c == '\u{a0}' || c == '\u{1680}'
        || ('\u{2000}' <= c && c <= '\u{200a}') || c == '\u{2028}' || c == '\u{2029}'
        || c == '\u{202f}' || c == '\u{205f}' || c == '\u{3000}'
}

/// The trimmed part of `v[from..to]`.
pub(crate) fn trimmed(v: &Vec<char>, from: usize, to: usize) -> (r: Vec<char>)
    requires
        from <= to <= v@.len(),
    ensures
        r@ == trim(v@.subrange(from as int, to as int)),
{
    let ghost s = v@.subrange(from as int, to as int);
    let mut a = from;
    while a < to && char_is_ws(v[a])
        invariant
            from <= a <= to <= v@.len(),
            s == v@.subrange(from as int, to as int),
            forall|j: int| from <= j < a ==> is_ws(v@[j]),
        decreases to - a,
    {
        a = a + 1;
    }
    proof {
        assert forall|j: int| 0 <= j < a - from implies is_ws(s[j]) by {
            assert(s[j] == v@[from + j]);
        }
        if a < to {
            assert(s[a - from] == v@[a as int]);
        }
        lemma_trim_start(s, a - from);
    }
    let ghost t = s.skip(a - from);
    let mut b = to;
    while b > a && char_is_ws(v[b - 1])
        invariant
            from <= a <= b <= to <= v@.len(),
            t == v@.subrange(a as int, to as int),
            forall|j: int| b <= j < to ==> is_ws(v@[j]),
        decreases b - a,
    {
        b = b - 1;
    }
    proof {
        assert(t =~= v@.subrange(a as int, to as int));
        assert forall|j: int| b - a <= j < t.len() implies is_ws(t[j]) by {
            assert(t[j] == v@[a + j]);
        }
        if b > a {
            assert(t[b - a - 1] == v@[b - 1]);
        }
        lemma_trim_end(t, b - a);
    }
    let mut r: Vec<char> = Vec::new();
    let mut i = a;
    while i < b
        invariant
            a <= i <= b <= v@.len(),
            r@ == v@.subrange(a as int, i as int),
        decreases b - i,
    {
        r.push(v[i]);
        assert(r@ =~= v@.subrange(a as int, i + 1));
        i = i + 1;
    }
    assert(r@ =~= t.take(b - a));
    r
}

/// The index of the first `' '` in `v[from..]`, or `v.len()`.
fn find_space(v: &Vec<char>, from: usize) -> (r: usize)
    requires
        from <= v@.len(),
    ensures
        r == from + first_space_char(v@.skip(from as int)),
{
    proof {
        lemma_first_space_char(v@.skip(from as int));
    }
    let mut i = from;
    while i < v.len() && v[i] != ' '
        invariant
            from <= i <= v@.len(),
            i - from <= first_space_char(v@.skip(from as int)),
            0 <= first_space_char(v@.skip(from as int)) <= v@.len() - from,
            forall|j: int| 0 <= j < first_space_char(v@.skip(from as int)) ==> v@.skip(from as int)[j] != ' ',
            first_space_char(v@.skip(from as int)) < v@.len() - from ==> v@.skip(from as int)[first_space_char(v@.skip(from as int))] == ' ',
        decreases v@.len() - i,
    {
        i = i + 1;
    }
    proof {
        if i < v@.len() {
            assert(v@.skip(from as int)[i - from] == v@[i as int]);
        }
    }
    i
}

/// Parses a `usize` as `str::parse` does.
pub fn parse_usize(s: &Vec<char>) -> (r: Option<usize>)
    ensures
        r == spec_parse_usize(s@),
{
    let start: usize = if s.len() > 1 && s[0] == '+' { 1 } else { 0 };
    let ghost body = unsigned_body(s@);
    assert(body =~= s@.skip(start as int));
    if start == s.len() {
        return None;
    }
    let mut value: usize = 0;
    let mut i = start;
    while i < s.len()
        invariant
            start <= i <= s@.len(),
            body == s@.skip(start as int),
            body == unsigned_body(s@),
            forall|j: int| 0 <= j < i - start ==> is_digit(#[trigger] body[j]),
            value == digits_value(body.take(i - start)),
        decreases s@.len() - i,
    {
        let c = s[i];
        if c < '0' || c > '9' {
            assert(!is_digit(body[i - start]));
            assert(!all_digits(body));
            return None;
        }
        let d = (c as u32 - '0' as u32) as usize;
        assert(body.take(i - start + 1).drop_last() =~= body.take(i - start));
        assert(body.take(i - start + 1).last() == c);
        match value.checked_mul(10) {
            None => {
                proof {
                    if all_digits(body) {
                        lemma_digits_value_prefix(body, i - start + 1);
                    }
                }
                return None;
            },
            Some(m) => match m.checked_add(d) {
                None => {
                    proof {
                        if all_digits(body) {
                            lemma_digits_value_prefix(body, i - start + 1);
                        }
                    }
                    return None;
                },
                Some(n) => {
                    value = n;
                },
            },
        }
        i = i + 1;
    }
    assert(body.take(body.len() as int) =~= body);
    Some(value)
}

/// A longer string of digits is worth at least as much as its prefix.
pub(crate) proof fn lemma_digits_value_prefix(s: Seq<char>, k: int)
    requires
        0 <= k <= s.len(),
        forall|j: int| 0 <= j < s.len() ==> is_digit(#[trigger] s[j]),
    ensures
        digits_value(s.take(k)) <= digits_value(s),
    decreases s.len() - k,
{
    if k < s.len() {
        lemma_digits_value_prefix(s, k + 1);
        assert(s.take(k + 1).drop_last() =~= s.take(k));
    } else {
        assert(s.take(k) =~= s);
    }
}

/// The argument of a `restart` line: after trimming, split at single spaces,
/// the second piece when there are exactly two and the first is `restart`.
pub open spec fn spec_restart_argument(line: Seq<char>) -> Option<Seq<char>> {
    let parts = split_spaces(trim(line));
    if parts.len() == 2 && parts[0] == "restart"@ {
        Some(parts[1])
    } else {
        None
    }
}

/// The argument of a `restart` line, as it stands in the line (untrimmed),
/// or `None` when the line is no `restart` with one argument.
pub fn restart_argument(line: &str) -> (r: Option<Vec<char>>)
    ensures
        r is Some <==> spec_restart_argument(line@) is Some,
        r matches Some(a) ==> spec_restart_argument(line@) == Some(a@),
{
    let all = chars_of(line);
    let t = trimmed(&all, 0, all.len());
    assert(all@.subrange(0, all@.len() as int) =~= line@);
    let ghost ts = t@;
    let k1 = find_space(&t, 0);
    assert(t@.skip(0) =~= t@);
    proof {
        lemma_first_space_char(ts);
    }
    if k1 >= t.len() {
        assert(split_spaces(ts) == seq![ts]);
        return None;
    }
    let k2 = find_space(&t, k1 + 1);
    let ghost rest = ts.skip(k1 + 1);
    proof {
        lemma_first_space_char(rest);
        assert(split_spaces(ts) == seq![ts.take(k1 as int)] + split_spaces(rest));
    }
    if k2 < t.len() {
        proof {
            reveal_with_fuel(split_spaces, 2);
            assert(split_spaces(rest).len() >= 2);
        }
        return None;
    }
    proof {
        assert(split_spaces(rest) == seq![rest]);
        assert(split_spaces(ts) =~= seq![ts.take(k1 as int), rest]);
    }
    if !is_restart(&t, k1) {
        return None;
    }
    let mut arg: Vec<char> = Vec::new();
    let mut i = k1 + 1;
    while i < t.len()
        invariant
            k1 + 1 <= i <= t@.len(),
            arg@ == t@.subrange(k1 + 1, i as int),
        decreases t@.len() - i,
    {
        arg.push(t[i]);
        assert(arg@ =~= t@.subrange(k1 + 1, i + 1));
        i = i + 1;
    }
    assert(arg@ =~= rest);
    Some(arg)
}

/// The command that a console line means.
pub fn parse_command(line: &str) -> (r: Command)
    ensures
        r == spec_command(line@),
{
    match restart_argument(line) {
        None => Command::Unrecognized,
        Some(arg) => {
            let id = trimmed(&arg, 0, arg.len());
            assert(arg@.subrange(0, arg@.len() as int) =~= arg@);
            match parse_usize(&id) {
                Some(n) => Command::Restart(n),
                None => Command::BadId,
            }
        },
    }
}

/// `v[..k]` is exactly `restart`.
fn is_restart(v: &Vec<char>, k: usize) -> (r: bool)
    requires
        k <= v@.len(),
    ensures
        r == (v@.take(k as int) == "restart"@),
{
    proof {
        reveal_strlit("restart");
    }
    let r = k == 7 && v[0] == 'r' && v[1] == 'e' && v[2] == 's' && v[3] == 't' && v[4] == 'a'
        && v[5] == 'r' && v[6] == 't';
    proof {
        assert("restart"@.len() == 7);
        if r {
            assert(v@.take(k as int) =~= "restart"@);
        } else if k == 7 {
            assert(v@.take(7) != "restart"@) by {
                if v@.take(7) == "restart"@ {
                    assert(v@.take(7)[0] == v@[0]);
                    assert(v@.take(7)[1] == v@[1]);
                    assert(v@.take(7)[2] == v@[2]);
                    assert(v@.take(7)[3] == v@[3]);
                    assert(v@.take(7)[4] == v@[4]);
                    assert(v@.take(7)[5] == v@[5]);
                    assert(v@.take(7)[6] == v@[6]);
                }
            }
        }
    }
    r
}

/// The two strings hold the same characters.
pub fn same_text(s: &str, t: &str) -> (r: bool)
    ensures
        r == (s@ == t@),
{
    let a = chars_of(s);
    let b = chars_of(t);
    if a.len() != b.len() {
        return false;
    }
    let mut i: usize = 0;
    while i < a.len()
        invariant
            a@ == s@,
            b@ == t@,
            a@.len() == b@.len(),
            0 <= i <= a@.len(),
            forall|j: int| 0 <= j < i ==> a@[j] == b@[j],
        decreases a@.len() - i,
    {
        if a[i] != b[i] {
            assert(a@[i as int] != b@[i as int]);
            return false;
        }
        i = i + 1;
    }
    assert(a@ =~= b@);
    true
}

/// The decimal digits of `n`, most significant first, as `usize`'s
/// `Display` writes them.
pub open spec fn decimal(n: nat) -> Seq<char>
    decreases n,
{
    if n < 10 {
        seq![((n + 48) as u32) as char]
    } else {
        decimal(n / 10).push((((n % 10) + 48) as u32) as char)
    }
}

proof fn lemma_decimal(n: nat)
    ensures
        decimal(n).len() > 0,
        all_digits(decimal(n)),
        digits_value(decimal(n)) == n,
    decreases n,
{
    if n >= 10 {
        lemma_decimal(n / 10);
        let s = decimal(n / 10);
        let c = (((n % 10) + 48) as u32) as char;
        assert(c as nat == (n % 10) + 48);
        assert(s.push(c).drop_last() =~= s);
        assert(s.push(c).last() == c);
        assert(forall|i: int| 0 <= i < s.len() ==> s.push(c)[i] == s[i]);
        assert(digits_value(s.push(c)) == digits_value(s) * 10 + (n % 10));
        assert(n == (n / 10) * 10 + n % 10);
    } else {
        let c = ((n + 48) as u32) as char;
        assert(c as nat == n + 48);
        assert(seq![c].drop_last() =~= Seq::<char>::empty());
        assert(digits_value(seq![c]) == digits_value(Seq::<char>::empty()) * 10 + n);
    }
}

/// Typing `restart` and a thread id, as `Display` writes the id, orders that
/// thread's restart.
pub proof fn lemma_restart_command(n: usize)
    ensures
        spec_command("restart "@ + decimal(n as nat)) == Command::Restart(n),
{
    reveal_strlit("restart ");
    reveal_strlit("restart");
    let d = decimal(n as nat);
    lemma_decimal(n as nat);
    let line = "restart "@ + d;
    assert(line[0] == 'r');
    assert(!is_ws(line[0]));
    assert(!is_ws(line.last()));
    assert(trim_start(line) == line);
    assert(trim_end(line) == line);
    assert(trim(line) == line);
    lemma_first_space_char(line);
    assert(line[7] == ' ');
    assert forall|j: int| 0 <= j < 7 implies line[j] != ' ' by {
        assert(line[j] == "restart"@[j]);
    }
    assert(first_space_char(line) == 7);
    let rest = line.skip(8);
    assert(rest =~= d);
    lemma_first_space_char(rest);
    if first_space_char(rest) < rest.len() {
        assert(is_digit(rest[first_space_char(rest)]));
    }
    assert(first_space_char(rest) == rest.len());
    assert(split_spaces(rest) == seq![rest]);
    assert(line.take(7) =~= "restart"@);
    assert(split_spaces(line) =~= seq![line.take(7), rest]);
    assert(!is_ws(d[0]));
    assert(!is_ws(d.last()));
    assert(trim(d) == d);
    assert(unsigned_body(d) == d);
}

} // verus!
