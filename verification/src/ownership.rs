use vstd::prelude::*;
use vstd::utf8::{encode_scalar, encode_utf8, has_width_1_encoding};
use vstd::string::StringSliceAdditionalSpecFns;

verus! {

/// The length in bytes of the UTF-8 encoding of `chars`, as `str::len`
/// reports it.
pub open spec fn byte_len(chars: Seq<char>) -> usize {
    encode_utf8(chars).len() as usize
}

/// Hands a fresh string to the caller.
pub fn gives_ownership() -> (r: String)
    ensures
        r@ == "abc"@,
{
    let some_string: String = String::from_str("abc");
    some_string
}

/// Takes a string and hands it back unchanged.
pub fn takes_and_give_back(a_string: String) -> (r: String)
    ensures
        r@ == a_string@,
{
    a_string
}

/// Hands back the string together with its length in bytes.
pub fn calculate_length(s: String) -> (r: (String, usize))
    ensures
        r.0@ == s@,
        r.1 == byte_len(s@),
{
    let st = s.as_str();
    assert(st.spec_bytes() == encode_utf8(s@));
    let l = st.len();
    (s, l)
}

/// The length in bytes of a borrowed string.
pub fn calculate_length_ref(s: &String) -> (r: usize)
    ensures
        r == byte_len(s@),
{
    let st = s.as_str();
    assert(st.spec_bytes() == encode_utf8(s@));
    st.len()
}

/// Appends `", World"` to the string.
pub fn change(some_string: &mut String)
    ensures
        final(some_string)@ == old(some_string)@ + ", World"@,
{
    some_string.append(", World");
}

/// The index of the first space byte in `bytes`, or its length when there is none.
pub open spec fn first_space_byte(bytes: Seq<u8>) -> int
    decreases bytes.len(),
{
    if bytes.len() == 0 {
        0
    } else if bytes[0] == 32u8 {
        0
    } else {
        1 + first_space_byte(bytes.drop_first())
    }
}

/// The index of the first space in `chars`, or its length when there is none.
pub open spec fn first_space_char(chars: Seq<char>) -> int
    decreases chars.len(),
{
    if chars.len() == 0 {
        0
    } else if chars[0] == ' ' {
        0
    } else {
        1 + first_space_char(chars.drop_first())
    }
}

/// Characterises `first_space_byte`: it is the first position holding a space,
/// or the length when no position does.
pub proof fn lemma_first_space_byte(bytes: Seq<u8>)
    ensures
        0 <= first_space_byte(bytes) <= bytes.len(),
        forall|j: int| 0 <= j < first_space_byte(bytes) ==> bytes[j] != 32u8,
        first_space_byte(bytes) < bytes.len() ==> bytes[first_space_byte(bytes)] == 32u8,
    decreases bytes.len(),
{
    if bytes.len() > 0 && bytes[0] != 32u8 {
        lemma_first_space_byte(bytes.drop_first());
        assert forall|j: int| 0 <= j < first_space_byte(bytes) implies bytes[j] != 32u8 by {
            if j > 0 {
                assert(bytes[j] == bytes.drop_first()[j - 1]);
            }
        }
    }
}

/// Characterises `first_space_char` in the same way.
pub proof fn lemma_first_space_char(chars: Seq<char>)
    ensures
        0 <= first_space_char(chars) <= chars.len(),
        forall|j: int| 0 <= j < first_space_char(chars) ==> chars[j] != ' ',
        first_space_char(chars) < chars.len() ==> chars[first_space_char(chars)] == ' ',
    decreases chars.len(),
{
    if chars.len() > 0 && chars[0] != ' ' {
        lemma_first_space_char(chars.drop_first());
        assert forall|j: int| 0 <= j < first_space_char(chars) implies chars[j] != ' ' by {
            if j > 0 {
                assert(chars[j] == chars.drop_first()[j - 1]);
            }
        }
    }
}

/// No byte of the encoding of a character other than a space is the space
/// byte; a space encodes as that one byte.
proof fn lemma_scalar_space(c: char)
    ensures
        encode_scalar(c as u32).len() >= 1,
        c == ' ' ==> encode_scalar(c as u32) == seq![32u8],
        c != ' ' ==> forall|i: int| 0 <= i < encode_scalar(c as u32).len() ==> #[trigger] encode_scalar(c as u32)[i] != 32u8,
{
    let v = c as u32;
    assert(c == ' ' <==> v == 32);
    if has_width_1_encoding(v) {
        assert(has_width_1_encoding(v) ==> (v & 0x7F) as u8 == v as u8) by (bit_vector);
        assert(has_width_1_encoding(v) && v != 32 ==> (v & 0x7F) as u8 != 32u8) by (bit_vector);
        if c == ' ' {
            assert(encode_scalar(v) =~= seq![32u8]);
        }
    } else {
        assert((0xC0u8 | ((v >> 6) & 0x1F) as u8) != 32u8) by (bit_vector);
        assert((0xE0u8 | ((v >> 12) & 0x0F) as u8) != 32u8) by (bit_vector);
        assert((0xF0u8 | ((v >> 18) & 0x7) as u8) != 32u8) by (bit_vector);
        assert((0x80u8 | (v & 0x3F) as u8) != 32u8) by (bit_vector);
        assert((0x80u8 | ((v >> 6) & 0x3F) as u8) != 32u8) by (bit_vector);
        assert((0x80u8 | ((v >> 12) & 0x3F) as u8) != 32u8) by (bit_vector);
        assert(v != 32);
    }
}

/// Bytes with no space in front: the first space of the whole is the first
/// space of the rest, shifted by their length.
proof fn lemma_first_space_byte_after(a: Seq<u8>, b: Seq<u8>)
    requires
        forall|i: int| 0 <= i < a.len() ==> a[i] != 32u8,
    ensures
        first_space_byte(a + b) == a.len() + first_space_byte(b),
    decreases a.len(),
{
    if a.len() == 0 {
        assert(a + b =~= b);
    } else {
        assert((a + b)[0] == a[0]);
        assert((a + b).drop_first() =~= a.drop_first() + b);
        lemma_first_space_byte_after(a.drop_first(), b);
    }
}

/// The first word taken as characters, the way `first_word_sync` takes it,
/// is as bytes exactly the prefix of the string that ends at the index that
/// `first_word` returns.
pub proof fn lemma_first_word_sync_is_prefix(s: Seq<char>)
    ensures
        encode_utf8(s.take(first_space_char(s))) == encode_utf8(s).take(first_space_byte(encode_utf8(s))),
    decreases s.len(),
{
    if s.len() == 0 {
        assert(s.take(0) =~= Seq::<char>::empty());
        assert(encode_utf8(s).take(0) =~= Seq::<u8>::empty());
    } else {
        lemma_scalar_space(s[0]);
        let e0 = encode_scalar(s[0] as u32);
        let rest = s.drop_first();
        assert(encode_utf8(s) == e0 + encode_utf8(rest));
        if s[0] == ' ' {
            assert((e0 + encode_utf8(rest))[0] == 32u8);
            assert(s.take(0) =~= Seq::<char>::empty());
            assert(encode_utf8(s).take(0) =~= Seq::<u8>::empty());
        } else {
            lemma_first_word_sync_is_prefix(rest);
            lemma_first_space_byte_after(e0, encode_utf8(rest));
            lemma_first_space_byte(encode_utf8(rest));
            let k = first_space_char(rest);
            lemma_first_space_char(rest);
            let t = s.take(1 + k);
            assert(t[0] == s[0]);
            assert(t.drop_first() =~= rest.take(k));
            assert(encode_utf8(t) == e0 + encode_utf8(rest.take(k)));
            assert(e0 + encode_utf8(rest).take(first_space_byte(encode_utf8(rest)))
                =~= (e0 + encode_utf8(rest)).take(e0.len() + first_space_byte(encode_utf8(rest))));
        }
    }
}

/// The byte index where the first word of `s` ends: the first space byte,
/// or the byte length when there is no space.
pub fn first_word(s: &String) -> (r: usize)
    ensures
        r == first_space_byte(encode_utf8(s@)),
{
    let st = s.as_str();
    assert(st.spec_bytes() == encode_utf8(s@));
    let bytes = st.as_bytes();
    let ghost b = bytes@;
    proof {
        lemma_first_space_byte(b);
    }
    let mut i: usize = 0;
    while i < bytes.len()
        invariant
            b == bytes@,
            b == encode_utf8(s@),
            0 <= i <= b.len(),
            i <= first_space_byte(b),
            0 <= first_space_byte(b) <= b.len(),
            forall|j: int| 0 <= j < first_space_byte(b) ==> b[j] != 32u8,
            first_space_byte(b) < b.len() ==> b[first_space_byte(b)] == 32u8,
        decreases b.len() - i,
    {
        if bytes[i] == 32u8 {
            assert(b[i as int] == 32u8);
            return i;
        }
        i = i + 1;
    }
    i
}

/// The characters of `s` before its first space, or all of `s` when it has
/// no space.
pub fn first_segment(s: &str) -> (r: &str)
    ensures
        r@ == s@.take(first_space_char(s@)),
{
    let n = s.unicode_len();
    proof {
        lemma_first_space_char(s@);
    }
    let mut i: usize = 0;
    while i < n
        invariant
            n == s@.len(),
            0 <= i <= n,
            i <= first_space_char(s@),
            0 <= first_space_char(s@) <= s@.len(),
            forall|j: int| 0 <= j < first_space_char(s@) ==> s@[j] != ' ',
            first_space_char(s@) < s@.len() ==> s@[first_space_char(s@)] == ' ',
        decreases n - i,
    {
        if s.get_char(i) == ' ' {
            return s.substring_char(0, i);
        }
        i = i + 1;
    }
    s.substring_char(0, n)
}

/// The first word of `s`: the characters before its first space, or the
/// whole string when there is no space.
pub fn first_word_sync(s: &String) -> (r: &str)
    ensures
        r@ == s@.take(first_space_char(s@)),
{
    first_segment(s.as_str())
}

/// What `init` computes: the end of the first word of `"Hello World"`, and
/// its two words taken as slices.
pub fn init() -> (r: (usize, String, String))
    ensures
        r.0 == 5,
        r.1@ == "Hello"@,
        r.2@ == "World"@,
{
    let s = String::from_str("Hello World");
    let word = first_word(&s);
    let ss = String::from_str("Hello World");
    proof {
        reveal_strlit("Hello World");
        reveal_strlit("Hello");
        reveal_strlit("World");
        assert(vstd::utf8::is_ascii_chars(s@));
        vstd::utf8::is_ascii_chars_encode_utf8(s@);
        assert(encode_utf8(s@) =~= seq![72u8, 101u8, 108u8, 108u8, 111u8, 32u8, 87u8, 111u8, 114u8, 108u8, 100u8]);
        reveal_with_fuel(first_space_byte, 7);
    }
    let hello = ss.as_str().substring_char(0, 5);
    let world = ss.as_str().substring_char(6, 11);
    proof {
        assert(hello@ =~= "Hello"@);
        assert(world@ =~= "World"@);
    }
    (word, hello.to_owned(), world.to_owned())
}

/// A text buffer.
pub struct Buffer {
    pub buffer: String,
}

/// A renderer with the buffer on screen and the one drawn next.
pub struct Render {
    pub current_buffer: Buffer,
    pub next_buffer: Buffer,
}

impl Render {
    /// Shows the next buffer and starts a new next buffer holding `buf`.
    pub fn update_buffer(&mut self, buf: String)
        ensures
            final(self).current_buffer == old(self).next_buffer,
            final(self).next_buffer == (Buffer { buffer: buf }),
    {
        let mut fresh = Buffer { buffer: buf };
        std::mem::swap(&mut self.next_buffer, &mut fresh);
        self.current_buffer = fresh;
    }
}

} // verus!
