//! Byte strings, character classes and number conversions used by the compiler.
use vstd::prelude::*;
use vstd::string::StringSliceAdditionalSpecFns;

verus! {

// ------------------------------------------------------------------
// bool
// ------------------------------------------------------------------

/// Logical AND of two booleans.
pub fn and(a: bool, b: bool) -> (r: bool)
    ensures
        r == (a && b),
{
    a as u8 + b as u8 == 2
}

/// Logical OR of two booleans.
pub fn or(a: bool, b: bool) -> (r: bool)
    ensures
        r == (a || b),
{
    a as u8 + b as u8 > 0
}

/// Logical NOT of one boolean.
pub fn not(a: bool) -> (r: bool)
    ensures
        r == !a,
{
    a as u8 == 0
}

// ------------------------------------------------------------------
// char
// ------------------------------------------------------------------

pub open spec fn spec_is_whitespace(c: char) -> bool {
    c == ' ' || c == '\t' || c == '\n' || c == '\r'
}

pub open spec fn spec_is_digit(c: char) -> bool {
    '0' <= c && c <= '9'
}

pub open spec fn spec_is_lowercase(c: char) -> bool {
    'a' <= c && c <= 'z'
}

pub open spec fn spec_is_uppercase(c: char) -> bool {
    'A' <= c && c <= 'Z'
}

pub open spec fn spec_is_letter(c: char) -> bool {
    spec_is_lowercase(c) || spec_is_uppercase(c)
}

pub open spec fn spec_is_alpha(c: char) -> bool {
    spec_is_letter(c) || c == '_'
}

pub open spec fn spec_is_alphanumeric(c: char) -> bool {
    spec_is_alpha(c) || spec_is_digit(c)
}

pub open spec fn spec_is_hexadecimal_digit(c: char) -> bool {
    spec_is_digit(c) || ('a' <= c && c <= 'f') || ('A' <= c && c <= 'F')
}

/// Whether a character is whitespace (space, tab, newline or carriage return).
pub fn is_whitespace(c: char) -> (r: bool)
    ensures
        r == spec_is_whitespace(c),
{
    or(or(c == ' ', c == '\t'), or(c == '\n', c == '\r'))
}

/// Whether a character is a decimal digit.
pub fn is_digit(c: char) -> (r: bool)
    ensures
        r == spec_is_digit(c),
{
    and(c >= '0', c <= '9')
}

/// Whether a character is a hexadecimal digit, in upper or lower case.
pub fn is_hexadecimal_digit(c: char) -> (r: bool)
    ensures
        r == spec_is_hexadecimal_digit(c),
{
    let upper: char = to_uppercase(c);
    or(is_digit(c), and(upper >= 'A', upper <= 'F'))
}

/// Whether a character is a lowercase ASCII letter.
pub fn is_lowercase(c: char) -> (r: bool)
    ensures
        r == spec_is_lowercase(c),
{
    and(c >= 'a', c <= 'z')
}

/// Whether a character is an uppercase ASCII letter.
pub fn is_uppercase(c: char) -> (r: bool)
    ensures
        r == spec_is_uppercase(c),
{
    and(c >= 'A', c <= 'Z')
}

/// Whether a character is an ASCII letter.
pub fn is_letter(c: char) -> (r: bool)
    ensures
        r == spec_is_letter(c),
{
    or(is_lowercase(c), is_uppercase(c))
}

/// Whether a character is an ASCII letter or underscore.
pub fn is_alpha(c: char) -> (r: bool)
    ensures
        r == spec_is_alpha(c),
{
    or(is_letter(c), c == '_')
}

/// Whether a character is an ASCII letter, underscore or digit.
pub fn is_alphanumeric(c: char) -> (r: bool)
    ensures
        r == spec_is_alphanumeric(c),
{
    or(is_alpha(c), is_digit(c))
}

/// Whether a character is an ASCII letter, underscore, digit or '.'.
pub fn is_alphanumeric_or_dot(ch: char) -> (r: bool)
    ensures
        r == (spec_is_alphanumeric(ch) || ch == '.'),
{
    or(is_alphanumeric(ch), ch == '.')
}

/// The uppercase form of an ASCII lowercase letter; every other character unchanged.
pub fn to_uppercase(c: char) -> (r: char)
    ensures
        spec_is_lowercase(c) ==> r as int == c as int - 32,
        !spec_is_lowercase(c) ==> r == c,
{
    if or(not(is_letter(c)), is_uppercase(c)) {
        c
    } else {
        (c as u8 - ('a' as u8 - 'A' as u8)) as char
    }
}

// ------------------------------------------------------------------
// ByteString
// ------------------------------------------------------------------

/// A growable string of bytes; a character is stored as its low byte.
#[derive(Debug)]
pub struct ByteString {
    pub bytes: Vec<u8>,
}

impl View for ByteString {
    type V = Seq<u8>;

    open spec fn view(&self) -> Seq<u8> {
        self.bytes@
    }
}

/// The byte a character is stored as.
pub open spec fn byte_of(c: char) -> u8 {
    c as u8
}

/// Create a new empty string.
pub fn string_new() -> (r: ByteString)
    ensures
        r@ == Seq::<u8>::empty(),
{
    string_with_capacity(10)
}

/// Create a new empty string with room for `initial_capacity` bytes.
pub fn string_with_capacity(initial_capacity: usize) -> (r: ByteString)
    ensures
        r@ == Seq::<u8>::empty(),
{
    ByteString { bytes: Vec::with_capacity(initial_capacity) }
}

/// A string holding the UTF-8 bytes of `s`.
pub fn string_from_str(s: &str) -> (r: ByteString)
    ensures
        r@ == s.spec_bytes(),
{
    let mut r: ByteString = string_new();
    string_push_str(&mut r, s);
    r
}

/// The length of the string in bytes.
pub fn string_len(string: &ByteString) -> (r: usize)
    ensures
        r == string@.len(),
{
    string.bytes.len()
}

/// The character at `index` (the byte read as a character), if there is one.
pub fn string_get(string: &ByteString, index: usize) -> (r: Option<char>)
    ensures
        index < string@.len() ==> r == Some(string@[index as int] as char),
        index >= string@.len() ==> r is None,
{
    if index < string.bytes.len() {
        Some(string.bytes[index] as char)
    } else {
        None
    }
}

/// Sets the byte at `index` to `character`; false if `index` is out of bounds.
pub fn string_set(string: &mut ByteString, index: usize, character: char) -> (r: bool)
    ensures
        r == (index < old(string)@.len()),
        r ==> final(string)@ == old(string)@.update(index as int, byte_of(character)),
        !r ==> final(string)@ == old(string)@,
{
    if index >= string.bytes.len() {
        false
    } else {
        string.bytes.set(index, character as u8);
        true
    }
}

/// Appends a character (its low byte).
pub fn string_push(string: &mut ByteString, character: char)
    ensures
        final(string)@ == old(string)@.push(byte_of(character)),
{
    string.bytes.push(character as u8);
}

/// Appends the UTF-8 bytes of `s`.
pub fn string_push_str(string: &mut ByteString, s: &str)
    ensures
        final(string)@ == old(string)@ + s.spec_bytes(),
{
    let bytes: &[u8] = s.as_bytes();
    let n: usize = bytes.len();
    string.bytes.reserve(n);
    let mut i: usize = 0;
    while i < n
        invariant
            n == bytes@.len(),
            bytes@ == s.spec_bytes(),
            i <= n,
            string@ == old(string)@ + bytes@.subrange(0, i as int),
        decreases n - i,
    {
        string.bytes.push(bytes[i]);
        i = i + 1;
        assert(string@ =~= old(string)@ + bytes@.subrange(0, i as int));
    }
    assert(bytes@.subrange(0, n as int) =~= bytes@);
}

/// Appends the bytes of `other`.
pub fn string_push_string(string: &mut ByteString, other: &ByteString)
    ensures
        final(string)@ == old(string)@ + other@,
{
    let n: usize = other.bytes.len();
    let mut i: usize = 0;
    while i < n
        invariant
            n == other@.len(),
            i <= n,
            string@ == old(string)@ + other@.subrange(0, i as int),
        decreases n - i,
    {
        string.bytes.push(other.bytes[i]);
        i = i + 1;
        assert(string@ =~= old(string)@ + other@.subrange(0, i as int));
    }
    assert(other@.subrange(0, n as int) =~= other@);
}

/// Ensures room for `space` more bytes; the text is unchanged.
pub fn string_accomodate_extra_space(string: &mut ByteString, space: usize)
    ensures
        final(string)@ == old(string)@,
{
    string.bytes.reserve(space);
}

/// Whether two strings hold the same bytes.
pub fn string_eq(s1: &ByteString, s2: &ByteString) -> (r: bool)
    ensures
        r == (s1@ == s2@),
{
    let len: usize = string_len(s1);
    if len != string_len(s2) {
        return false;
    }
    let mut i: usize = 0;
    while i < len
        invariant
            len == s1@.len(),
            len == s2@.len(),
            i <= len,
            forall|k: int| 0 <= k < i ==> s1@[k] == s2@[k],
        decreases len - i,
    {
        if s1.bytes[i] != s2.bytes[i] {
            return false;
        }
        i = i + 1;
    }
    assert(s1@ =~= s2@);
    true
}

/// A copy of a string.
pub fn string_clone(string: &ByteString) -> (r: ByteString)
    ensures
        r@ == string@,
{
    let len: usize = string_len(string);
    let mut clone: ByteString = string_with_capacity(len);
    let mut i: usize = 0;
    while i < len
        invariant
            len == string@.len(),
            i <= len,
            clone@ == string@.subrange(0, i as int),
        decreases len - i,
    {
        clone.bytes.push(string.bytes[i]);
        i = i + 1;
        assert(clone@ =~= string@.subrange(0, i as int));
    }
    assert(string@.subrange(0, len as int) =~= string@);
    clone
}

/// Reverses a string in place.
pub fn string_reverse(string: &mut ByteString)
    ensures
        final(string)@ == old(string)@.reverse(),
{
    let len: usize = string_len(string);
    let ghost orig = string@;
    let mut i: usize = 0;
    while i < len / 2
        invariant
            len == orig.len(),
            string@.len() == len,
            i <= len / 2,
            forall|k: int| 0 <= k < i ==> #[trigger] string@[k] == orig[len - 1 - k],
            forall|k: int| 0 <= k < i ==> #[trigger] string@[len - 1 - k] == orig[k],
            forall|k: int| i <= k < len - i ==> #[trigger] string@[k] == orig[k],
        decreases len / 2 - i,
    {
        let a: u8 = string.bytes[i];
        let b: u8 = string.bytes[len - 1 - i];
        string.bytes.set(i, b);
        string.bytes.set(len - 1 - i, a);
        i = i + 1;
    }
    assert forall|k: int| 0 <= k < len implies #[trigger] string@[k] == orig.reverse()[k] by {
        if k < i {
        } else if k >= len - i {
            assert(string@[len - 1 - (len - 1 - k)] == orig[len - 1 - k]);
        } else {
        }
    }
    assert(string@ =~= orig.reverse());
}

// ------------------------------------------------------------------
// Numbers
// ------------------------------------------------------------------

/// The decimal digits of `n` in reverse order (least significant first),
/// with no digit at all for 0.
pub open spec fn reversed_digits(n: nat) -> Seq<u8>
    decreases n,
{
    if n == 0 {
        Seq::empty()
    } else {
        seq![(48 + n % 10) as u8] + reversed_digits(n / 10)
    }
}

/// The decimal representation of `n`, without leading zeros.
pub open spec fn decimal(n: nat) -> Seq<u8> {
    if n == 0 {
        seq![48u8]
    } else {
        reversed_digits(n).reverse()
    }
}

/// Convert an integer into its decimal representation.
pub fn integer_to_string(integer: usize) -> (r: ByteString)
    ensures
        r@ == decimal(integer as nat),
{
    let mut integer: usize = integer;
    let ghost n0 = integer as nat;
    let mut string: ByteString = string_new();

    if integer == 0 {
        string_push(&mut string, '0');
        assert(string@ =~= seq![48u8]);
        return string;
    }
    while integer > 0
        invariant
            string@ + reversed_digits(integer as nat) == reversed_digits(n0),
        decreases integer,
    {
        let digit: u8 = (integer % 10) as u8;
        let character: char = ('0' as u8 + digit) as char;
        let ghost before = string@;
        string_push(&mut string, character);
        proof {
            assert(reversed_digits(integer as nat) == seq![(48 + integer % 10) as u8]
                + reversed_digits((integer / 10) as nat));
            assert(byte_of(character) == (48 + integer % 10) as u8);
            assert(string@ + reversed_digits((integer / 10) as nat) =~= before
                + reversed_digits(integer as nat));
        }
        integer = integer / 10;
    }
    assert(string@ =~= reversed_digits(n0));
    string_reverse(&mut string);
    string
}

/// The value of a digit character: '0'..'9' count 0..9, and any other byte
/// counts from 'A' = 10 upward.
pub open spec fn digit_value(c: u8) -> int {
    if 48 <= c <= 57 {
        c - 48
    } else {
        c - 65 + 10
    }
}

/// The value of the digits `s` in `base`, or `None` when a digit is too large for
/// the base or the value of a prefix exceeds `usize::MAX`.
pub open spec fn parse_integer(s: Seq<u8>, base: nat) -> Option<nat>
    decreases s.len(),
{
    if s.len() == 0 {
        Some(0)
    } else {
        match parse_integer(s.drop_last(), base) {
            None => None,
            Some(v) => {
                let d = digit_value(s.last());
                if d > base - 1 || v * base + d > usize::MAX {
                    None
                } else {
                    Some((v * base + d) as nat)
                }
            },
        }
    }
}

/// Every byte of `s` is a digit or at least 'A', so that it has a digit value.
pub open spec fn parse_integer_defined(s: Seq<u8>, base: nat) -> bool {
    forall|k: int| 0 <= k < s.len() ==> (48 <= #[trigger] s[k] <= 57 || s[k] >= 65)
}

/// A step `v * base + d` stays within `usize::MAX` exactly when `v` is at most
/// `(usize::MAX - d) / base`.
proof fn lemma_step_fits(v: int, base: int, d: int)
    requires
        base >= 1,
        0 <= d <= usize::MAX,
        v >= 0,
    ensures
        (v * base + d <= usize::MAX) == (v <= (usize::MAX - d) / base),
{
    let m = usize::MAX - d;
    assert((v * base <= m) == (v <= m / base)) by (nonlinear_arith)
        requires
            base >= 1,
            m >= 0,
            v >= 0,
    ;
}

/// Once a prefix fails to convert, every longer prefix fails too.
pub proof fn lemma_parse_integer_none_extends(s: Seq<u8>, base: nat, k: int, m: int)
    requires
        0 <= k <= m <= s.len(),
        parse_integer(s.subrange(0, k), base) is None,
    ensures
        parse_integer(s.subrange(0, m), base) is None,
    decreases m - k,
{
    if k < m {
        lemma_parse_integer_none_extends(s, base, k, m - 1);
        assert(s.subrange(0, m).drop_last() =~= s.subrange(0, m - 1));
    }
}

/// Converts a string into an integer in the given base; `None` if a digit is
/// not valid in the base or the value does not fit in a `usize`.
pub fn string_to_integer(string: &mut ByteString, base: usize) -> (r: Option<usize>)
    requires
        base >= 1,
        parse_integer_defined(old(string)@, base as nat),
    ensures
        final(string)@ == old(string)@,
        match parse_integer(old(string)@, base as nat) {
            Some(v) => r == Some(v as usize),
            None => r is None,
        },
{
    let ghost s = string@;
    let mut value: usize = 0;
    let mut i: usize = 0;
    while i < string_len(string)
        invariant
            string@ == s,
            i <= s.len(),
            base >= 1,
            parse_integer_defined(s, base as nat),
            parse_integer(s.subrange(0, i as int), base as nat) == Some(value as nat),
        decreases s.len() - i,
    {
        let digit: char = unwrap::<char>(string_get(string, i));
        assert(s.subrange(0, i + 1).drop_last() =~= s.subrange(0, i as int));
        assert(48 <= s[i as int] <= 57 || s[i as int] >= 65);
        let digit_value: usize = if is_digit(digit) {
            digit as usize - '0' as usize
        } else {
            digit as usize - 'A' as usize + 10
        };
        let max: usize = usize::MAX;
        proof {
            lemma_step_fits(value as int, base as int, digit_value as int);
        }
        if or(digit_value > base - 1, value > (max - digit_value) / base) {
            proof {
                assert(parse_integer(s.subrange(0, i + 1), base as nat) is None);
                lemma_parse_integer_none_extends(s, base as nat, i + 1, s.len() as int);
                assert(s.subrange(0, s.len() as int) =~= s);
            }
            return None;
        }
        value = value * base + digit_value;
        i = i + 1;
    }
    assert(s.subrange(0, s.len() as int) =~= s);
    Some(value)
}

/// Reversing a string twice gives it back.
pub proof fn law_reverse_twice(s: Seq<u8>)
    ensures
        s.reverse().reverse() == s,
{
    assert(s.reverse().reverse() =~= s);
}

/// The decimal text of a number of two or more digits is the text of the
/// number without its last digit, followed by that digit.
proof fn lemma_decimal_snoc(n: nat)
    requires
        n >= 10,
    ensures
        decimal(n) == decimal(n / 10).push((48 + n % 10) as u8),
{
    let d = (48 + n % 10) as u8;
    let rest = reversed_digits(n / 10);
    assert(reversed_digits(n) == seq![d] + rest);
    assert((seq![d] + rest).reverse() =~= rest.reverse().push(d));
}

/// Every byte of a decimal text is a digit.
proof fn lemma_decimal_digits(n: nat)
    ensures
        forall|k: int| 0 <= k < decimal(n).len() ==> 48 <= #[trigger] decimal(n)[k] <= 57,
        decimal(n).len() > 0,
    decreases n,
{
    if n < 10 {
        if n > 0 {
            assert(reversed_digits(n) == seq![(48 + n % 10) as u8] + reversed_digits(n / 10));
            assert(reversed_digits(n / 10) == Seq::<u8>::empty());
            assert(decimal(n) =~= seq![(48 + n % 10) as u8]);
        }
    } else {
        lemma_decimal_snoc(n);
        lemma_decimal_digits(n / 10);
        let s = decimal(n / 10);
        assert forall|k: int| 0 <= k < decimal(n).len() implies 48 <= #[trigger] decimal(n)[k] <= 57 by {
            if k < s.len() {
                assert(decimal(n)[k] == s[k]);
            }
        }
    }
}

/// Reading the decimal text of `n` gives `n` back.
proof fn lemma_parse_decimal(n: nat)
    requires
        n <= usize::MAX,
    ensures
        parse_integer(decimal(n), 10) == Some(n),
    decreases n,
{
    if n < 10 {
        let x = (48 + n) as u8;
        if n > 0 {
            assert(reversed_digits(n) == seq![(48 + n % 10) as u8] + reversed_digits(n / 10));
            assert(reversed_digits(n / 10) == Seq::<u8>::empty());
            assert(decimal(n) =~= seq![(48 + n % 10) as u8]);
        }
        assert(decimal(n) =~= seq![x]);
        assert(seq![x].drop_last() =~= Seq::<u8>::empty());
        assert(parse_integer(Seq::<u8>::empty(), 10) == Some(0nat));
    } else {
        lemma_decimal_snoc(n);
        lemma_parse_decimal(n / 10);
        let s = decimal(n / 10);
        let d = (48 + n % 10) as u8;
        assert(s.push(d).drop_last() =~= s);
        assert(s.push(d).last() == d);
        assert((n / 10) * 10 + n % 10 == n) by (nonlinear_arith);
    }
}

/// A decimal text has only digits.
proof fn lemma_decimal_defined(n: nat)
    ensures
        parse_integer_defined(decimal(n), 10),
{
    lemma_decimal_digits(n);
}

/// Writing a number in decimal and reading it back gives the number:
/// `string_to_integer` in base 10 undoes `integer_to_string`.
pub proof fn law_decimal_round_trip(n: usize)
    ensures
        parse_integer_defined(decimal(n as nat), 10),
        parse_integer(decimal(n as nat), 10) == Some(n as nat),
{
    lemma_decimal_defined(n as nat);
    lemma_parse_decimal(n as nat);
}

/// Hash of a string for `bucket_count` buckets: the bytes folded as
/// `h * 67 + byte` with wrap-around, modulo the bucket count.
pub open spec fn hash_fold(s: Seq<u8>) -> usize
    decreases s.len(),
{
    if s.len() == 0 {
        0
    } else {
        vstd::wrapping::usize_specs::wrapping_add(
            vstd::wrapping::usize_specs::wrapping_mul(hash_fold(s.drop_last()), 67),
            s.last() as usize,
        )
    }
}

pub open spec fn spec_string_hash(s: Seq<u8>, bucket_count: usize) -> usize {
    if bucket_count == 0 {
        0
    } else {
        (hash_fold(s) % bucket_count) as usize
    }
}

/// The bucket of `string` among `bucket_count` buckets (0 when there are none).
pub fn string_hash(string: &ByteString, bucket_count: usize) -> (r: usize)
    ensures
        r == spec_string_hash(string@, bucket_count),
        bucket_count > 0 ==> r < bucket_count,
{
    if bucket_count == 0 {
        return 0;
    }
    let mut hash: usize = 0;
    let mut i: usize = 0;
    while i < string_len(string)
        invariant
            i <= string@.len(),
            hash == hash_fold(string@.subrange(0, i as int)),
        decreases string@.len() - i,
    {
        let character: usize = unwrap::<char>(string_get(string, i)) as usize;
        assert(string@.subrange(0, i + 1).drop_last() =~= string@.subrange(0, i as int));
        hash = hash.wrapping_mul(67).wrapping_add(character);
        i = i + 1;
    }
    assert(string@.subrange(0, string@.len() as int) =~= string@);
    hash % bucket_count
}

// ------------------------------------------------------------------
// Option
// ------------------------------------------------------------------

/// Whether an option holds no value.
pub fn option_is_none<T>(opt: &Option<T>) -> (r: bool)
    ensures
        r == (*opt is None),
{
    match opt {
        Some(_) => false,
        None => true,
    }
}

/// The value inside `opt`, which must hold one.
pub fn unwrap<T>(opt: Option<T>) -> (r: T)
    requires
        opt is Some,
    ensures
        opt == Some(r),
{
    match opt {
        Some(value) => value,
        None => unreached(),
    }
}

/// The bytes of an ASCII text are its characters, one byte each.
pub proof fn lemma_ascii_bytes(t: &str)
    requires
        vstd::string::is_ascii(t),
    ensures
        t.spec_bytes().len() == t@.len(),
        forall|i: int| 0 <= i < t@.len() ==> #[trigger] t.spec_bytes()[i] == t@[i] as u8,
{
    vstd::string::is_ascii_spec_bytes(t);
}

} // verus!
