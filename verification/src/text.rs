//! Character-level helpers on strings.
//!
//! Strings are handled here as sequences of characters: a string is turned
//! into a `Vec<char>` once, and every rule on names, paths and fingerprints is
//! stated over `Seq<char>`.

use vstd::prelude::*;
use vstd::string::StringExecFns;

verus! {

/// The lower-case form of an ASCII letter; any other character is unchanged.
pub open spec fn ascii_lower(c: char) -> char {
    if 'A' <= c && c <= 'Z' {
        ((c as u8) + 32) as char
    } else {
        c
    }
}

/// `s` with every ASCII upper-case letter replaced by its lower-case form.
pub open spec fn lowercase_ascii(s: Seq<char>) -> Seq<char> {
    Seq::new(s.len(), |i: int| ascii_lower(s[i]))
}

/// The lower-case form of a string, as `str::to_lowercase` gives it: every
/// character replaced by its Unicode lower-case mapping.
pub uninterp spec fn lowercase_of(s: Seq<char>) -> Seq<char>;

/// Whether `s` ends with `suffix`.
pub open spec fn ends_with(s: Seq<char>, suffix: Seq<char>) -> bool {
    suffix.len() <= s.len() && s.subrange(s.len() - suffix.len(), s.len() as int) == suffix
}

/// Whether `needle` occurs in `haystack` starting at position `at`.
pub open spec fn occurs_at(haystack: Seq<char>, needle: Seq<char>, at: int) -> bool {
    0 <= at && at + needle.len() <= haystack.len() && haystack.subrange(
        at,
        at + needle.len(),
    ) == needle
}

/// Whether `needle` occurs somewhere in `haystack`.
pub open spec fn contains_seq(haystack: Seq<char>, needle: Seq<char>) -> bool {
    exists|at: int| occurs_at(haystack, needle, at)
}

/// The part of `s` behind the last occurrence of `sep`; all of `s` if `sep`
/// does not occur in it.
pub open spec fn after_last(s: Seq<char>, sep: char) -> Seq<char>
    decreases s.len(),
{
    if s.len() == 0 {
        s
    } else if s.last() == sep {
        Seq::empty()
    } else {
        after_last(s.drop_last(), sep).push(s.last())
    }
}

/// `s` without the characters at its start that `drop` holds of.
pub open spec fn trim_start_where(s: Seq<char>, drop: spec_fn(char) -> bool) -> Seq<char>
    decreases s.len(),
{
    if s.len() > 0 && drop(s[0]) {
        trim_start_where(s.drop_first(), drop)
    } else {
        s
    }
}

/// `s` without the characters at its end that `drop` holds of.
pub open spec fn trim_end_where(s: Seq<char>, drop: spec_fn(char) -> bool) -> Seq<char>
    decreases s.len(),
{
    if s.len() > 0 && drop(s.last()) {
        trim_end_where(s.drop_last(), drop)
    } else {
        s
    }
}

/// `s` without the characters at its start and at its end that `drop` holds
/// of.
pub open spec fn trim_where(s: Seq<char>, drop: spec_fn(char) -> bool) -> Seq<char> {
    trim_end_where(trim_start_where(s, drop), drop)
}

/// `s` without the characters `c` that it starts and ends with.
pub open spec fn trim(s: Seq<char>, c: char) -> Seq<char> {
    trim_where(s, |x: char| x == c)
}

/// Whether `c` is white space: a character with the Unicode property
/// `White_Space`.
pub open spec fn is_white_space(c: char) -> bool {
    let n = c as u32;
    (0x09 <= n <= 0x0D) || n == 0x20 || n == 0x85 || n == 0xA0 || n == 0x1680 || (0x2000 <= n
        <= 0x200A) || n == 0x2028 || n == 0x2029 || n == 0x202F || n == 0x205F || n == 0x3000
}

/// `s` without the white space that it starts and ends with.
pub open spec fn trimmed(s: Seq<char>) -> Seq<char> {
    trim_where(s, |x: char| is_white_space(x))
}

/// What is trimmed away: white space, or the character `c`.
pub open spec fn trimmed_away(white_space: bool, c: char) -> spec_fn(char) -> bool {
    if white_space {
        |x: char| is_white_space(x)
    } else {
        |x: char| x == c
    }
}

/// The decimal digits of `n`, most significant first; `0` is one digit.
pub open spec fn decimal(n: nat) -> Seq<char>
    decreases n,
{
    if n < 10 {
        seq![(48 + n) as char]
    } else {
        decimal(n / 10).push((48 + n % 10) as char)
    }
}

/// `String::push`: appends the one character `c` to `s`.
#[verifier::external_body]
pub(crate) fn push_char(s: &mut String, c: char)
    ensures
        final(s)@ == old(s)@.push(c),
{
    s.push(c)
}

/// `str::to_lowercase`: the lower-case form of `s`.
#[verifier::external_body]
pub(crate) fn to_lowercase(s: &str) -> (out: String)
    ensures
        out@ == lowercase_of(s@),
{
    s.to_lowercase()
}

/// The characters of `s`, in order.
pub fn chars_of(s: &str) -> (out: Vec<char>)
    ensures
        out@ == s@,
{
    let mut out: Vec<char> = Vec::new();
    for c in it: s.chars()
        invariant
            it.seq() == s@,
            out@ == s@.take(it.index() as int),
    {
        out.push(c);
    }
    out
}

/// The string made of the characters `chars[from..to]`.
pub fn string_from(chars: &Vec<char>, from: usize, to: usize) -> (out: String)
    requires
        from <= to <= chars.len(),
    ensures
        out@ == chars@.subrange(from as int, to as int),
{
    let mut out = String::new();
    let mut i: usize = from;
    while i < to
        invariant
            from <= i <= to <= chars.len(),
            out@ == chars@.subrange(from as int, i as int),
        decreases to - i,
    {
        push_char(&mut out, chars[i]);
        i += 1;
    }
    out
}

/// The string `first` followed by `second`.
pub fn join(first: &str, second: &str) -> (out: String)
    ensures
        out@ == first@ + second@,
{
    let mut out = String::new();
    out.append(first);
    out.append(second);
    proof {
        assert(Seq::<char>::empty() + first@ == first@);
    }
    out
}

/// Writes `n` in decimal digits.
pub fn decimal_string(n: u64) -> (out: String)
    ensures
        out@ == decimal(n as nat),
{
    let mut digits: Vec<char> = Vec::new();
    let mut rest: u64 = n;
    while rest >= 10
        invariant
            decimal(n as nat) == decimal(rest as nat) + digits@.reverse(),
        decreases rest,
    {
        let digit: u8 = 48 + (rest % 10) as u8;
        let ghost before = digits@;
        digits.push(digit as char);
        proof {
            assert(decimal(rest as nat) == decimal((rest / 10) as nat).push(digit as char));
            assert(digits@.reverse() == seq![digit as char] + before.reverse());
            assert(decimal((rest / 10) as nat).push(digit as char) + before.reverse() == decimal(
                (rest / 10) as nat,
            ) + digits@.reverse());
        }
        rest = rest / 10;
    }
    let mut out = String::new();
    push_char(&mut out, (48 + rest as u8) as char);
    let mut i: usize = digits.len();
    while i > 0
        invariant
            i <= digits.len(),
            out@ == decimal(rest as nat) + digits@.reverse().take(digits.len() - i),
            decimal(n as nat) == decimal(rest as nat) + digits@.reverse(),
            rest < 10,
        decreases i,
    {
        i -= 1;
        push_char(&mut out, digits[i]);
        proof {
            let r = digits@.reverse();
            let k = digits.len() - i - 1;
            assert(r[k] == digits@[i as int]);
            assert(r.take(k + 1) == r.take(k).push(r[k]));
            assert((decimal(rest as nat) + r.take(k)).push(r[k]) == decimal(rest as nat) + r.take(
                k + 1,
            ));
        }
    }
    proof {
        assert(digits@.reverse().take(digits.len() as int) == digits@.reverse());
    }
    out
}

/// The lower-case form of an ASCII letter; any other character is unchanged.
pub fn to_ascii_lower(c: char) -> (out: char)
    ensures
        out == ascii_lower(c),
{
    if 'A' <= c && c <= 'Z' {
        ((c as u8) + 32) as char
    } else {
        c
    }
}

/// Lower-cases the ASCII letters of `chars`.
pub fn lowercase_chars(chars: &Vec<char>) -> (out: Vec<char>)
    ensures
        out@ == lowercase_ascii(chars@),
{
    let mut out: Vec<char> = Vec::new();
    let mut i: usize = 0;
    while i < chars.len()
        invariant
            i <= chars.len(),
            out@ == lowercase_ascii(chars@).take(i as int),
        decreases chars.len() - i,
    {
        out.push(to_ascii_lower(chars[i]));
        i += 1;
    }
    out
}

/// Whether `needle` occurs in `haystack` at position `at`.
fn occurs_here(haystack: &Vec<char>, needle: &Vec<char>, at: usize) -> (found: bool)
    requires
        at + needle.len() <= haystack.len(),
    ensures
        found == occurs_at(haystack@, needle@, at as int),
{
    let mut k: usize = 0;
    while k < needle.len()
        invariant
            k <= needle.len(),
            at + needle.len() <= haystack.len(),
            forall|j: int| 0 <= j < k ==> haystack@[at + j] == needle@[j],
        decreases needle.len() - k,
    {
        if haystack[at + k] != needle[k] {
            proof {
                assert(haystack@.subrange(at as int, at + needle.len())[k as int] == haystack@[at
                    + k]);
            }
            return false;
        }
        k += 1;
    }
    proof {
        assert(haystack@.subrange(at as int, at + needle.len()) =~= needle@);
    }
    true
}

/// Whether `needle` occurs somewhere in `haystack`.
pub fn contains_chars(haystack: &Vec<char>, needle: &Vec<char>) -> (found: bool)
    ensures
        found == contains_seq(haystack@, needle@),
{
    if needle.len() > haystack.len() {
        return false;
    }
    let last: usize = haystack.len() - needle.len();
    let mut at: usize = 0;
    loop
        invariant
            at <= last,
            last == haystack.len() - needle.len(),
            forall|j: int| 0 <= j < at ==> !occurs_at(haystack@, needle@, j),
        decreases last - at,
    {
        if occurs_here(haystack, needle, at) {
            return true;
        }
        if at == last {
            return false;
        }
        at += 1;
    }
}

/// Whether `chars` ends with `suffix`.
pub fn ends_with_chars(chars: &Vec<char>, suffix: &Vec<char>) -> (found: bool)
    ensures
        found == ends_with(chars@, suffix@),
{
    if suffix.len() > chars.len() {
        return false;
    }
    let found = occurs_here(chars, suffix, chars.len() - suffix.len());
    found
}

/// Whether two strings hold the same characters.
pub fn same_chars(a: &Vec<char>, b: &Vec<char>) -> (same: bool)
    ensures
        same == (a@ == b@),
{
    if a.len() != b.len() {
        return false;
    }
    let same = occurs_here(a, b, 0);
    proof {
        assert(a@.subrange(0, a.len() as int) == a@);
    }
    same
}

/// Taking one more character into the front part only adds it to what stands
/// behind the last separator, unless it is the separator.
proof fn lemma_after_last_step(s: Seq<char>, sep: char, i: int)
    requires
        0 < i <= s.len(),
        s[i - 1] != sep,
    ensures
        after_last(s.take(i), sep) == after_last(s.take(i - 1), sep).push(s[i - 1]),
{
    assert(s.take(i).drop_last() == s.take(i - 1));
}

/// Where the part of `chars` behind the last `sep` starts.
pub fn last_segment_start(chars: &Vec<char>, sep: char) -> (start: usize)
    ensures
        start <= chars.len(),
        chars@.subrange(start as int, chars.len() as int) == after_last(chars@, sep),
{
    let mut i: usize = chars.len();
    proof {
        assert(chars@.take(i as int) == chars@);
        assert(after_last(chars@, sep) + chars@.subrange(i as int, chars.len() as int)
            == after_last(chars@, sep));
    }
    while i > 0 && chars[i - 1] != sep
        invariant
            i <= chars.len(),
            after_last(chars@, sep) == after_last(chars@.take(i as int), sep) + chars@.subrange(
                i as int,
                chars.len() as int,
            ),
        decreases i,
    {
        proof {
            lemma_after_last_step(chars@, sep, i as int);
            assert(after_last(chars@.take(i - 1), sep).push(chars@[i - 1]) + chars@.subrange(
                i as int,
                chars.len() as int,
            ) == after_last(chars@.take(i - 1), sep) + chars@.subrange(
                i - 1,
                chars.len() as int,
            ));
        }
        i -= 1;
    }
    proof {
        if i > 0 {
            assert(chars@.take(i as int).last() == sep);
        } else {
            assert(chars@.take(0).len() == 0);
        }
        assert(Seq::<char>::empty() + chars@.subrange(i as int, chars.len() as int)
            == chars@.subrange(i as int, chars.len() as int));
    }
    i
}

/// Whether `c` is white space.
pub fn white_space(c: char) -> (white: bool)
    ensures
        white == is_white_space(c),
{
    let n: u32 = c as u32;
    (0x09 <= n && n <= 0x0D) || n == 0x20 || n == 0x85 || n == 0xA0 || n == 0x1680 || (0x2000 <= n
        && n <= 0x200A) || n == 0x2028 || n == 0x2029 || n == 0x202F || n == 0x205F || n == 0x3000
}

/// Whether `x` is trimmed away: white space, or the character `c`.
fn is_trimmed_away(x: char, white_space_only: bool, c: char) -> (away: bool)
    ensures
        away == trimmed_away(white_space_only, c)(x),
{
    if white_space_only {
        white_space(x)
    } else {
        x == c
    }
}

/// `chars` without what is trimmed away at its start and its end.
fn trim_range(chars: &Vec<char>, white_space_only: bool, c: char) -> (out: String)
    ensures
        out@ == trim_where(chars@, trimmed_away(white_space_only, c)),
{
    let ghost drop = trimmed_away(white_space_only, c);
    let mut from: usize = 0;
    proof {
        assert(chars@.skip(0) == chars@);
    }
    while from < chars.len() && is_trimmed_away(chars[from], white_space_only, c)
        invariant
            from <= chars.len(),
            drop == trimmed_away(white_space_only, c),
            trim_start_where(chars@, drop) == trim_start_where(chars@.skip(from as int), drop),
        decreases chars.len() - from,
    {
        proof {
            assert(chars@.skip(from as int).drop_first() == chars@.skip(from + 1));
        }
        from += 1;
    }
    proof {
        assert(chars@.skip(from as int) == chars@.subrange(from as int, chars.len() as int));
    }
    let mut to: usize = chars.len();
    while to > from && is_trimmed_away(chars[to - 1], white_space_only, c)
        invariant
            from <= to <= chars.len(),
            drop == trimmed_away(white_space_only, c),
            trim_where(chars@, drop) == trim_end_where(
                chars@.subrange(from as int, to as int),
                drop,
            ),
        decreases to,
    {
        proof {
            assert(chars@.subrange(from as int, to as int).drop_last() == chars@.subrange(
                from as int,
                to - 1,
            ));
        }
        to -= 1;
    }
    string_from(chars, from, to)
}

/// `chars` without the characters `c` that it starts and ends with.
pub fn trim_chars(chars: &Vec<char>, c: char) -> (out: String)
    ensures
        out@ == trim(chars@, c),
{
    trim_range(chars, false, c)
}

/// `s` without the white space that it starts and ends with.
pub fn trim_white_space(s: &str) -> (out: String)
    ensures
        out@ == trimmed(s@),
{
    trim_range(&chars_of(s), true, ' ')
}

} // verus!
