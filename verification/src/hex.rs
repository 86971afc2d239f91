//! Lower-case hexadecimal digits: rendering into strings and fixed-width
//! parsing.  Used by the credential format and by cache-key rendering.

use vstd::prelude::*;

verus! {

/// The hex character for a digit value below 16.
pub open spec fn spec_hex_char(d: u8) -> char {
    if d < 10 {
        ((d + 48) as u8) as char
    } else {
        ((d + 87) as u8) as char
    }
}

/// Whether a character is a lower-case hex digit.
pub open spec fn is_hex_char(c: char) -> bool {
    ('0' <= c && c <= '9') || ('a' <= c && c <= 'f')
}

/// The digit value of a lower-case hex character.
pub open spec fn spec_hex_val(c: char) -> u8 {
    if '0' <= c && c <= '9' {
        ((c as u8) - 48) as u8
    } else {
        ((c as u8) - 87) as u8
    }
}

/// Whether every character of `s` is a lower-case hex digit.
pub open spec fn hex_valid(s: Seq<char>) -> bool {
    forall|i: int| 0 <= i < s.len() ==> is_hex_char(#[trigger] s[i])
}

/// 16 raised to the power `n`.
pub open spec fn pow16(n: nat) -> nat
    decreases n,
{
    if n == 0 {
        1
    } else {
        16 * pow16((n - 1) as nat)
    }
}

/// The last `n` hex digits of `v`, most significant first.
pub open spec fn spec_hex_digits(v: u64, n: nat) -> Seq<char>
    decreases n,
{
    if n == 0 {
        Seq::empty()
    } else {
        spec_hex_digits((v / 16) as u64, (n - 1) as nat).push(spec_hex_char((v % 16) as u8))
    }
}

/// The value of a sequence of hex digits, most significant first.
pub open spec fn spec_from_hex(s: Seq<char>) -> nat
    decreases s.len(),
{
    if s.len() == 0 {
        0nat
    } else {
        (spec_from_hex(s.drop_last()) * 16 + spec_hex_val(s.last())) as nat
    }
}

pub proof fn lemma_hex_char_val(d: u8)
    requires
        d < 16,
    ensures
        is_hex_char(spec_hex_char(d)),
        spec_hex_val(spec_hex_char(d)) == d,
{
}

pub proof fn lemma_pow16_increases(m: nat, n: nat)
    requires
        m <= n,
    ensures
        pow16(m) <= pow16(n),
    decreases n,
{
    if m < n {
        lemma_pow16_increases(m, (n - 1) as nat);
    }
}

pub proof fn lemma_pow16_16()
    ensures
        pow16(16) == 0x10000000000000000,
{
    reveal_with_fuel(pow16, 17);
}

pub proof fn lemma_from_hex_bound(s: Seq<char>)
    requires
        hex_valid(s),
    ensures
        spec_from_hex(s) < pow16(s.len()),
    decreases s.len(),
{
    if s.len() > 0 {
        lemma_from_hex_bound(s.drop_last());
    }
}

/// The hex digits of a value parse back to the value.
pub proof fn lemma_hex_digits_from_hex(v: u64, n: nat)
    requires
        v < pow16(n),
    ensures
        spec_hex_digits(v, n).len() == n,
        hex_valid(spec_hex_digits(v, n)),
        spec_from_hex(spec_hex_digits(v, n)) == v,
    decreases n,
{
    if n > 0 {
        let rest = (v / 16) as u64;
        assert(rest < pow16((n - 1) as nat));
        lemma_hex_digits_from_hex(rest, (n - 1) as nat);
        lemma_hex_char_val((v % 16) as u8);
        let s = spec_hex_digits(v, n);
        assert(s.drop_last() =~= spec_hex_digits(rest, (n - 1) as nat));
        assert(forall|i: int| 0 <= i < s.len() ==> is_hex_char(#[trigger] s[i]));
    }
}

/// Relies on std's `String::push`: appends the character to the string.
pub assume_specification[ String::push ](s: &mut String, c: char)
    ensures
        final(s)@ == old(s)@.push(c),
;

/// The hex character for a digit value below 16.
pub fn hex_char_of(d: u8) -> (c: char)
    requires
        d < 16,
    ensures
        c == spec_hex_char(d),
{
    if d < 10 {
        (d + 48) as char
    } else {
        (d + 87) as char
    }
}

/// Appends the last `n` hex digits of `v` to `s`, most significant first.
pub fn push_hex_digits(s: &mut String, v: u64, n: usize)
    ensures
        final(s)@ == old(s)@ + spec_hex_digits(v, n as nat),
    decreases n,
{
    if n == 0 {
        assert(old(s)@ + spec_hex_digits(v, 0) =~= old(s)@);
    } else {
        push_hex_digits(s, v / 16, n - 1);
        let d = (v % 16) as u8;
        s.push(hex_char_of(d));
        assert(old(s)@ + spec_hex_digits(v, n as nat) =~= (old(s)@ + spec_hex_digits(
            (v / 16) as u64,
            (n - 1) as nat,
        )).push(spec_hex_char((v % 16) as u8)));
    }
}

/// Parses the 16 hex characters of `s` starting at `start`; `None` when a
/// character in that range is not a lower-case hex digit.
pub fn parse_hex16(s: &str, start: usize) -> (r: Option<u64>)
    requires
        s.is_ascii(),
        start + 16 <= s@.len(),
        s@.len() <= usize::MAX,
    ensures
        ({
            let sub = s@.subrange(start as int, start as int + 16);
            match r {
                Some(v) => hex_valid(sub) && v == spec_from_hex(sub),
                None => !hex_valid(sub),
            }
        }),
{
    let ghost sub = s@.subrange(start as int, start as int + 16);
    let mut acc: u64 = 0;
    let mut i: usize = 0;
    while i < 16
        invariant
            s.is_ascii(),
            start + 16 <= s@.len(),
            s@.len() <= usize::MAX,
            i <= 16,
            sub == s@.subrange(start as int, start as int + 16),
            hex_valid(sub.take(i as int)),
            acc == spec_from_hex(sub.take(i as int)),
        decreases 16 - i,
    {
        proof {
            lemma_from_hex_bound(sub.take(i as int));
            lemma_pow16_increases(i as nat, 15);
            lemma_pow16_16();
        }
        let b = s.get_ascii(start + i);
        let ghost c = s@[start as int + i as int];
        proof {
            assert('\0' <= c <= '\u{7f}');
        }
        let d: u8;
        if b >= 48 && b <= 57 {
            d = b - 48;
        } else if b >= 97 && b <= 102 {
            d = b - 87;
        } else {
            proof {
                assert(sub[i as int] == c);
                assert(!is_hex_char(c));
            }
            return None;
        }
        proof {
            assert(sub[i as int] == c);
            assert(is_hex_char(c) && spec_hex_val(c) == d);
        }
        acc = acc * 16 + (d as u64);
        i = i + 1;
        proof {
            assert(sub.take(i as int).drop_last() =~= sub.take(i as int - 1));
            assert(hex_valid(sub.take(i as int)));
        }
    }
    proof {
        assert(sub.take(16) =~= sub);
    }
    Some(acc)
}

} // verus!
