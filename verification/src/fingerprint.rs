//! Content fingerprints: the 64-bit XXH64 hash of a byte stream, written as
//! sixteen lower-case hexadecimal digits.

use vstd::prelude::*;
use xxhash_rust::xxh64::Xxh64;
use crate::text::{chars_of, lowercase_ascii, lowercase_chars, push_char, same_chars};

verus! {

/// The streaming XXH64 state of `xxhash_rust`.
#[verifier::external_type_specification]
#[verifier::external_body]
pub struct ExXxh64(Xxh64);

/// The bytes that a streaming state has been fed since it was made, in order.
pub uninterp spec fn hasher_input(state: Xxh64) -> Seq<u8>;

/// The seed that a streaming state was made with.
pub uninterp spec fn hasher_seed(state: Xxh64) -> u64;

/// The XXH64 hash of `input` under `seed`.
pub uninterp spec fn xxh64_of(input: Seq<u8>, seed: u64) -> u64;

/// `Xxh64::new` makes a state that holds the seed and has been fed nothing.
pub assume_specification[ Xxh64::new ](seed: u64) -> (state: Xxh64)
    ensures
        hasher_input(state) == Seq::<u8>::empty(),
        hasher_seed(state) == seed,
;

/// `Xxh64::update` feeds the state the bytes of `input`, behind those it was
/// fed before; the seed stays.
pub assume_specification[ Xxh64::update ](state: &mut Xxh64, input: &[u8])
    ensures
        hasher_input(*final(state)) == hasher_input(*old(state)) + input@,
        hasher_seed(*final(state)) == hasher_seed(*old(state)),
;

/// `Xxh64::digest` returns the XXH64 hash, under the state's seed, of all the
/// bytes that the state was fed: the hash of their concatenation, however
/// they were cut into chunks.
pub assume_specification[ Xxh64::digest ](state: &Xxh64) -> (hash: u64)
    ensures
        hash == xxh64_of(hasher_input(*state), hasher_seed(*state)),
;

/// The hexadecimal digit for `n < 16`, lower case.
pub open spec fn hex_digit(n: u64) -> char {
    if n < 10 {
        (48 + n) as char
    } else {
        (87 + n) as char
    }
}

/// The `i`-th of the sixteen four-bit groups of `value`, most significant first.
pub open spec fn nibble(value: u64, i: int) -> u64 {
    (value >> ((60 - 4 * i) as u64)) & 0xf
}

/// `value` in sixteen lower-case hexadecimal digits, most significant first,
/// zero-padded.
pub open spec fn hex16(value: u64) -> Seq<char> {
    Seq::new(16, |i: int| hex_digit(nibble(value, i)))
}

/// The fingerprint of a byte sequence: its XXH64 hash under seed 0, in
/// sixteen lower-case hexadecimal digits.
pub open spec fn fingerprint_of(data: Seq<u8>) -> Seq<char> {
    hex16(xxh64_of(data, 0))
}

/// Whether `c` is a hexadecimal digit in lower case.
pub open spec fn is_lower_hex(c: char) -> bool {
    ('0' <= c && c <= '9') || ('a' <= c && c <= 'f')
}

/// Whether two fingerprints are the same once both are written in lower
/// case. Nothing shorter than the whole string counts as a match.
pub open spec fn same_fingerprint(a: Seq<char>, b: Seq<char>) -> bool {
    lowercase_ascii(a) == lowercase_ascii(b)
}

/// Whether `fingerprint` is one of `list`.
pub open spec fn fingerprint_listed(list: Seq<Seq<char>>, fingerprint: Seq<char>) -> bool {
    exists|i: int| 0 <= i < list.len() && same_fingerprint(#[trigger] list[i], fingerprint)
}

/// An incremental fingerprint computation: bytes are fed in chunks, and the
/// fingerprint of everything fed so far can be asked for at any time.
pub struct ContentHasher {
    state: Xxh64,
}

impl View for ContentHasher {
    type V = Seq<u8>;

    /// All the bytes fed so far, in order.
    closed spec fn view(&self) -> Seq<u8> {
        hasher_input(self.state)
    }
}

impl ContentHasher {
    /// Whether the hasher is one that `new` made and `update` fed: its hash
    /// is taken under seed 0.
    pub closed spec fn wf(&self) -> bool {
        hasher_seed(self.state) == 0
    }

    /// A hasher that has been fed nothing.
    pub fn new() -> (hasher: ContentHasher)
        ensures
            hasher.wf(),
            hasher@ == Seq::<u8>::empty(),
    {
        ContentHasher { state: Xxh64::new(0) }
    }

    /// Feeds `chunk` behind the bytes fed so far.
    pub fn update(&mut self, chunk: &[u8])
        requires
            old(self).wf(),
        ensures
            final(self).wf(),
            final(self)@ == old(self)@ + chunk@,
    {
        self.state.update(chunk);
    }

    /// The 64-bit hash of the bytes fed so far.
    pub fn digest(&self) -> (hash: u64)
        requires
            self.wf(),
        ensures
            hash == xxh64_of(self@, 0),
    {
        self.state.digest()
    }

    /// The fingerprint of the bytes fed so far.
    pub fn fingerprint(&self) -> (out: String)
        requires
            self.wf(),
        ensures
            out@ == fingerprint_of(self@),
    {
        hex_string(self.digest())
    }
}

/// Writes `value` as sixteen lower-case hexadecimal digits.
pub fn hex_string(value: u64) -> (out: String)
    ensures
        out@ == hex16(value),
{
    let mut out = String::new();
    let mut i: u64 = 0;
    while i < 16
        invariant
            i <= 16,
            out@ == hex16(value).take(i as int),
        decreases 16 - i,
    {
        let shift: u64 = 60 - 4 * i;
        let group: u64 = (value >> shift) & 0xf;
        assert(group < 16) by (bit_vector)
            requires
                group == (value >> shift) & 0xf,
        ;
        let digit: u8 = if group < 10 {
            48 + (group as u8)
        } else {
            87 + (group as u8)
        };
        push_char(&mut out, digit as char);
        i += 1;
    }
    out
}

/// Whether `list` holds `fingerprint`, compared in lower case.
pub fn has_fingerprint(list: &Vec<String>, fingerprint: &str) -> (found: bool)
    ensures
        found == fingerprint_listed(list.deep_view(), fingerprint@),
{
    let wanted = lowercase_chars(&chars_of(fingerprint));
    let mut i: usize = 0;
    while i < list.len()
        invariant
            i <= list.len(),
            wanted@ == lowercase_ascii(fingerprint@),
            forall|j: int| 0 <= j < i ==> !same_fingerprint(#[trigger] list.deep_view()[j], fingerprint@),
        decreases list.len() - i,
    {
        let candidate = lowercase_chars(&chars_of(list[i].as_str()));
        if same_chars(&candidate, &wanted) {
            assert(same_fingerprint(list.deep_view()[i as int], fingerprint@));
            return true;
        }
        i += 1;
    }
    false
}

/// Every group of four bits is a number below sixteen.
proof fn lemma_nibble_bound(value: u64, i: int)
    requires
        0 <= i < 16,
    ensures
        nibble(value, i) < 16,
{
    let shift = (60 - 4 * i) as u64;
    assert((value >> shift) & 0xf < 16) by (bit_vector);
}

/// A 64-bit value is what its sixteen groups of four bits make it.
proof fn lemma_nibbles_determine(a: u64, b: u64)
    requires
        forall|i: int| 0 <= i < 16 ==> nibble(a, i) == nibble(b, i),
    ensures
        a == b,
{
    assert(nibble(a, 0) == nibble(b, 0));
    assert(nibble(a, 1) == nibble(b, 1));
    assert(nibble(a, 2) == nibble(b, 2));
    assert(nibble(a, 3) == nibble(b, 3));
    assert(nibble(a, 4) == nibble(b, 4));
    assert(nibble(a, 5) == nibble(b, 5));
    assert(nibble(a, 6) == nibble(b, 6));
    assert(nibble(a, 7) == nibble(b, 7));
    assert(nibble(a, 8) == nibble(b, 8));
    assert(nibble(a, 9) == nibble(b, 9));
    assert(nibble(a, 10) == nibble(b, 10));
    assert(nibble(a, 11) == nibble(b, 11));
    assert(nibble(a, 12) == nibble(b, 12));
    assert(nibble(a, 13) == nibble(b, 13));
    assert(nibble(a, 14) == nibble(b, 14));
    assert(nibble(a, 15) == nibble(b, 15));
    assert(a == b) by (bit_vector)
        requires
            (a >> 60u64) & 0xf == (b >> 60u64) & 0xf,
            (a >> 56u64) & 0xf == (b >> 56u64) & 0xf,
            (a >> 52u64) & 0xf == (b >> 52u64) & 0xf,
            (a >> 48u64) & 0xf == (b >> 48u64) & 0xf,
            (a >> 44u64) & 0xf == (b >> 44u64) & 0xf,
            (a >> 40u64) & 0xf == (b >> 40u64) & 0xf,
            (a >> 36u64) & 0xf == (b >> 36u64) & 0xf,
            (a >> 32u64) & 0xf == (b >> 32u64) & 0xf,
            (a >> 28u64) & 0xf == (b >> 28u64) & 0xf,
            (a >> 24u64) & 0xf == (b >> 24u64) & 0xf,
            (a >> 20u64) & 0xf == (b >> 20u64) & 0xf,
            (a >> 16u64) & 0xf == (b >> 16u64) & 0xf,
            (a >> 12u64) & 0xf == (b >> 12u64) & 0xf,
            (a >> 8u64) & 0xf == (b >> 8u64) & 0xf,
            (a >> 4u64) & 0xf == (b >> 4u64) & 0xf,
            (a >> 0u64) & 0xf == (b >> 0u64) & 0xf,
    ;
}

/// The written form of a hash has sixteen characters, each a hexadecimal
/// digit in lower case; writing it in lower case changes nothing.
pub proof fn lemma_hex16_shape(value: u64)
    ensures
        hex16(value).len() == 16,
        forall|i: int| 0 <= i < 16 ==> is_lower_hex(#[trigger] hex16(value)[i]),
        lowercase_ascii(hex16(value)) == hex16(value),
{
    assert forall|i: int| 0 <= i < 16 implies is_lower_hex(#[trigger] hex16(value)[i]) by {
        lemma_nibble_bound(value, i);
    }
    assert(lowercase_ascii(hex16(value)) =~= hex16(value));
}

/// Two hashes are written alike only if they are the same hash.
pub proof fn lemma_hex16_injective(a: u64, b: u64)
    requires
        hex16(a) == hex16(b),
    ensures
        a == b,
{
    assert forall|i: int| 0 <= i < 16 implies nibble(a, i) == nibble(b, i) by {
        lemma_nibble_bound(a, i);
        lemma_nibble_bound(b, i);
        let x = nibble(a, i);
        let y = nibble(b, i);
        assert(hex16(a)[i] == hex_digit(x));
        assert(hex16(b)[i] == hex_digit(y));
        assert(hex_digit(x) as int == if x < 10 { 48 + x } else { 87 + x });
        assert(hex_digit(y) as int == if y < 10 { 48 + y } else { 87 + y });
    }
    lemma_nibbles_determine(a, b);
}

/// A fingerprint is a fixed-length string of hexadecimal digits in lower
/// case, and two byte sequences have the same fingerprint exactly when they
/// have the same hash.
pub proof fn lemma_fingerprint_shape(data: Seq<u8>, other: Seq<u8>)
    ensures
        fingerprint_of(data).len() == 16,
        forall|i: int| 0 <= i < 16 ==> is_lower_hex(#[trigger] fingerprint_of(data)[i]),
        same_fingerprint(fingerprint_of(data), fingerprint_of(other)) <==> xxh64_of(data, 0)
            == xxh64_of(other, 0),
{
    lemma_hex16_shape(xxh64_of(data, 0));
    lemma_hex16_shape(xxh64_of(other, 0));
    if same_fingerprint(fingerprint_of(data), fingerprint_of(other)) {
        lemma_hex16_injective(xxh64_of(data, 0), xxh64_of(other, 0));
    }
}

} // verus!
