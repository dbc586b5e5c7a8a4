//! Verified text utilities shared by both wire codecs: decimal formatting
//! and parsing, delimiter splitting, and JSON string escaping.

use vstd::prelude::*;
use vstd::string::*;
use vstd::arithmetic::mul::lemma_mul_inequality;
use vstd::arithmetic::div_mod::lemma_fundamental_div_mod;

verus! {

/// Relies on `String::push`: appends one character to the string.
pub assume_specification[ String::push ](s: &mut String, c: char)
    ensures
        final(s)@ == old(s)@.push(c),
;

/// The character for a single decimal digit value.
pub open spec fn digit_char(d: nat) -> char
    recommends
        d < 10,
{
    ((d + 48) as u8) as char
}

/// Decimal digits of `n`, most significant first, without leading zeros.
pub open spec fn dec_digits(n: nat) -> Seq<char>
    decreases n,
{
    if n < 10 {
        seq![digit_char(n)]
    } else {
        dec_digits(n / 10).push(digit_char(n % 10))
    }
}

/// `n` in decimal, left-padded with zeros to at least `width` characters.
pub open spec fn zero_padded(n: nat, width: nat) -> Seq<char> {
    if dec_digits(n).len() >= width {
        dec_digits(n)
    } else {
        Seq::new((width - dec_digits(n).len()) as nat, |i: int| '0') + dec_digits(n)
    }
}

/// Whether `c` is a decimal digit.
pub open spec fn is_digit(c: char) -> bool {
    48 <= c as int && c as int <= 57
}

/// The value of a decimal digit character.
pub open spec fn digit_val(c: char) -> nat
    recommends
        is_digit(c),
{
    (c as int - 48) as nat
}

/// Whether every character of `s` is a decimal digit.
pub open spec fn all_digits(s: Seq<char>) -> bool {
    forall|i: int| 0 <= i < s.len() ==> is_digit(#[trigger] s[i])
}

/// Value of a decimal digit string, most significant digit first.
pub open spec fn dec_value(s: Seq<char>) -> nat
    decreases s.len(),
{
    if s.len() == 0 {
        0
    } else {
        dec_value(s.drop_last()) * 10 + digit_val(s.last())
    }
}

/// Ten to the power of `k`.
pub open spec fn pow10(k: nat) -> nat
    decreases k,
{
    if k == 0 {
        1
    } else {
        10 * pow10((k - 1) as nat)
    }
}

/// A digit string's value is below ten to the power of its length.
pub proof fn lemma_dec_value_bound(s: Seq<char>)
    requires
        all_digits(s),
    ensures
        dec_value(s) < pow10(s.len()),
    decreases s.len(),
{
    if s.len() > 0 {
        lemma_dec_value_bound(s.drop_last());
        lemma_mul_inequality(dec_value(s.drop_last()) as int, pow10((s.len() - 1) as nat) as int - 1, 10);
        assert(is_digit(s[s.len() - 1]));
    }
}

/// The decimal form of a number below ten to the `k` has at most `k` digits.
pub proof fn lemma_dec_digits_len(n: nat, k: nat)
    requires
        1 <= k,
        n < pow10(k),
    ensures
        1 <= dec_digits(n).len() <= k,
    decreases n,
{
    if n >= 10 {
        lemma_fundamental_div_mod(n as int, 10);
        if n / 10 >= pow10((k - 1) as nat) {
            lemma_mul_inequality(pow10((k - 1) as nat) as int, (n / 10) as int, 10);
            assert(false);
        }
        lemma_dec_digits_len(n / 10, (k - 1) as nat);
    }
}

/// Every character of a decimal form is a digit.
pub proof fn lemma_dec_digits_are_digits(n: nat)
    ensures
        all_digits(dec_digits(n)),
    decreases n,
{
    if n < 10 {
        assert(is_digit(digit_char(n)));
    } else {
        lemma_dec_digits_are_digits(n / 10);
        assert(is_digit(digit_char(n % 10)));
    }
}

/// Reading the decimal form of `n` back as a number gives `n`.
pub proof fn lemma_dec_value_of_digits(n: nat)
    ensures
        dec_value(dec_digits(n)) == n,
    decreases n,
{
    if n < 10 {
        let s = seq![digit_char(n)];
        assert(s.drop_last() =~= Seq::<char>::empty());
        assert(dec_value(s) == dec_value(s.drop_last()) * 10 + digit_val(s.last()));
        assert(digit_val(digit_char(n)) == n);
    } else {
        lemma_dec_value_of_digits(n / 10);
        lemma_fundamental_div_mod(n as int, 10);
        assert(dec_digits(n).drop_last() =~= dec_digits(n / 10));
    }
}

/// Leading zeros do not change a digit string's value.
pub proof fn lemma_dec_value_leading_zeros(zeros: Seq<char>, s: Seq<char>)
    requires
        forall|i: int| 0 <= i < zeros.len() ==> #[trigger] zeros[i] == '0',
    ensures
        dec_value(zeros + s) == dec_value(s),
    decreases s.len(),
{
    if s.len() == 0 {
        lemma_dec_value_all_zeros(zeros + s);
    } else {
        assert((zeros + s).drop_last() =~= zeros + s.drop_last());
        assert((zeros + s).last() == s.last());
        lemma_dec_value_leading_zeros(zeros, s.drop_last());
    }
}

proof fn lemma_dec_value_all_zeros(s: Seq<char>)
    requires
        forall|i: int| 0 <= i < s.len() ==> #[trigger] s[i] == '0',
    ensures
        dec_value(s) == 0,
    decreases s.len(),
{
    if s.len() > 0 {
        lemma_dec_value_all_zeros(s.drop_last());
        assert(digit_val(s.last()) == 0);
    }
}

/// Along a digit string, the value of a prefix never exceeds the whole.
pub proof fn lemma_dec_value_prefix_le(s: Seq<char>, k: int)
    requires
        0 <= k <= s.len(),
        all_digits(s),
    ensures
        dec_value(s.subrange(0, k)) <= dec_value(s),
    decreases s.len(),
{
    if k < s.len() {
        assert(s.drop_last().subrange(0, k) =~= s.subrange(0, k));
        assert(all_digits(s.drop_last()));
        lemma_dec_value_prefix_le(s.drop_last(), k);
    } else {
        assert(s.subrange(0, k) =~= s);
    }
}

/// UTF-8 encoded width of one character, by its code point.
pub open spec fn char_utf8_width(c: char) -> nat {
    if (c as int) < 0x80 {
        1
    } else if (c as int) < 0x800 {
        2
    } else if (c as int) < 0x10000 {
        3
    } else {
        4
    }
}

/// The UTF-8 byte length of a character sequence: the sum of each
/// character's encoded width.
pub open spec fn utf8_len(s: Seq<char>) -> nat
    decreases s.len(),
{
    if s.len() == 0 {
        0
    } else {
        utf8_len(s.drop_last()) + char_utf8_width(s.last())
    }
}

/// Byte length adds over concatenation.
pub proof fn lemma_utf8_len_concat(a: Seq<char>, b: Seq<char>)
    ensures
        utf8_len(a + b) == utf8_len(a) + utf8_len(b),
    decreases b.len(),
{
    if b.len() == 0 {
        assert(a + b =~= a);
    } else {
        assert((a + b).drop_last() =~= a + b.drop_last());
        assert((a + b).last() == b.last());
        lemma_utf8_len_concat(a, b.drop_last());
    }
}

/// On text of characters below 0x80, bytes and characters coincide.
pub proof fn lemma_utf8_len_ascii(s: Seq<char>)
    requires
        forall|i: int| 0 <= i < s.len() ==> (#[trigger] s[i] as int) < 0x80,
    ensures
        utf8_len(s) == s.len(),
    decreases s.len(),
{
    if s.len() > 0 {
        assert(char_utf8_width(s.last()) == 1);
        assert(forall|i: int|
            0 <= i < s.drop_last().len() ==> (#[trigger] s.drop_last()[i] as int) < 0x80);
        lemma_utf8_len_ascii(s.drop_last());
    }
}

/// Along any text, the byte length of a prefix never exceeds the whole.
pub proof fn lemma_utf8_len_prefix_le(s: Seq<char>, k: int)
    requires
        0 <= k <= s.len(),
    ensures
        utf8_len(s.subrange(0, k)) <= utf8_len(s),
    decreases s.len(),
{
    if k < s.len() {
        assert(s.drop_last().subrange(0, k) =~= s.subrange(0, k));
        lemma_utf8_len_prefix_le(s.drop_last(), k);
    } else {
        assert(s.subrange(0, k) =~= s);
    }
}

/// A zero-padded decimal field is exactly `width` digits whose value is `n`.
pub proof fn lemma_zero_padded_props(n: nat, width: nat)
    requires
        1 <= width,
        n < pow10(width),
    ensures
        zero_padded(n, width).len() == width,
        all_digits(zero_padded(n, width)),
        dec_value(zero_padded(n, width)) == n,
{
    lemma_dec_digits_len(n, width);
    lemma_dec_digits_are_digits(n);
    lemma_dec_value_of_digits(n);
    if dec_digits(n).len() >= width {
        assert(zero_padded(n, width) == dec_digits(n));
    } else {
        let zeros = Seq::new((width - dec_digits(n).len()) as nat, |i: int| '0');
        assert(forall|i: int| 0 <= i < zeros.len() ==> #[trigger] zeros[i] == '0');
        assert(is_digit('0'));
        lemma_dec_value_leading_zeros(zeros, dec_digits(n));
        assert(all_digits(zeros + dec_digits(n)));
    }
}

fn digit_of(d: u8) -> (c: char)
    requires
        d < 10,
    ensures
        c == digit_char(d as nat),
{
    (d + 48) as char
}

fn fmt_u64_into(n: u64, s: &mut String)
    ensures
        final(s)@ == old(s)@ + dec_digits(n as nat),
    decreases n,
{
    if n >= 10 {
        fmt_u64_into(n / 10, s);
    }
    s.push(digit_of((n % 10) as u8));
    proof {
        if n >= 10 {
            assert(old(s)@ + dec_digits(n as nat)
                =~= (old(s)@ + dec_digits((n / 10) as nat)).push(digit_char((n % 10) as nat)));
        } else {
            assert(old(s)@ + dec_digits(n as nat) =~= old(s)@.push(digit_char(n as nat)));
        }
    }
}

/// `n` in decimal, without padding.
pub fn fmt_u64(n: u64) -> (s: String)
    ensures
        s@ == dec_digits(n as nat),
{
    let mut s = String::new();
    fmt_u64_into(n, &mut s);
    proof {
        assert(Seq::<char>::empty() + dec_digits(n as nat) =~= dec_digits(n as nat));
    }
    s
}

/// `n` in decimal, with a leading sign for negative numbers.
pub open spec fn signed_dec_digits(n: int) -> Seq<char> {
    if n < 0 {
        seq!['-'] + dec_digits((-n) as nat)
    } else {
        dec_digits(n as nat)
    }
}

/// `n` in decimal, with a leading sign for negative numbers.
pub fn fmt_i64(n: i64) -> (s: String)
    ensures
        s@ == signed_dec_digits(n as int),
{
    if n >= 0 {
        fmt_u64(n as u64)
    } else {
        let mag: u64 = ((-(n + 1)) as u64) + 1;
        let mut s = String::new();
        s.push('-');
        fmt_u64_into(mag, &mut s);
        proof {
            assert(s@ =~= signed_dec_digits(n as int));
        }
        s
    }
}

/// `n` in decimal, left-padded with zeros to at least `width` characters.
pub fn fmt_u64_padded(n: u64, width: usize) -> (s: String)
    ensures
        s@ == zero_padded(n as nat, width as nat),
{
    let digits = fmt_u64(n);
    let len = digits.as_str().unicode_len();
    if len >= width {
        return digits;
    }
    let mut s = String::new();
    let mut j: usize = 0;
    while j < width - len
        invariant
            j <= width - len,
            len == dec_digits(n as nat).len(),
            len < width,
            s@ =~= Seq::new(j as nat, |i: int| '0'),
        decreases width - len - j,
    {
        s.push('0');
        proof {
            assert(Seq::new((j + 1) as nat, |i: int| '0')
                =~= Seq::new(j as nat, |i: int| '0').push('0'));
        }
        j += 1;
    }
    s.append(digits.as_str());
    s
}

/// Decimal parse of a whole string: `Some` exactly on non-empty digit
/// strings whose value fits in a `u64`.
pub fn parse_u64(s: &str) -> (r: Option<u64>)
    ensures
        match r {
            Some(v) => s@.len() > 0 && all_digits(s@) && v as nat == dec_value(s@),
            None => s@.len() == 0 || !all_digits(s@) || dec_value(s@) > u64::MAX,
        },
{
    let n = s.unicode_len();
    if n == 0 {
        return None;
    }
    let mut acc: u64 = 0;
    let mut i: usize = 0;
    while i < n
        invariant
            i <= n,
            n == s@.len(),
            all_digits(s@.subrange(0, i as int)),
            acc as nat == dec_value(s@.subrange(0, i as int)),
        decreases n - i,
    {
        let c = s.get_char(i);
        let u = c as u32;
        if u < 48 || u > 57 {
            assert(!is_digit(s@[i as int]));
            return None;
        }
        let d = (u - 48) as u64;
        assert(is_digit(s@[i as int]) && d as nat == digit_val(s@[i as int]));
        if acc > (u64::MAX - d) / 10 {
            proof {
                let prefix = s@.subrange(0, i + 1);
                assert(prefix.drop_last() =~= s@.subrange(0, i as int));
                let q = ((u64::MAX - d) / 10) as int;
                lemma_fundamental_div_mod(u64::MAX - d, 10);
                lemma_mul_inequality(q + 1, acc as int, 10);
                assert(dec_value(prefix) > u64::MAX);
                if all_digits(s@) {
                    lemma_dec_value_prefix_le(s@, i + 1);
                }
            }
            return None;
        }
        proof {
            let q = ((u64::MAX - d) / 10) as int;
            lemma_fundamental_div_mod(u64::MAX - d, 10);
            lemma_mul_inequality(acc as int, q, 10);
        }
        acc = acc * 10 + d;
        proof {
            assert(s@.subrange(0, i + 1).drop_last() =~= s@.subrange(0, i as int));
        }
        i += 1;
    }
    proof {
        assert(s@.subrange(0, n as int) =~= s@);
    }
    Some(acc)
}

/// Fields of `s`, split at every occurrence of the delimiter `d`; the empty
/// string yields one empty field, and every delimiter opens a new field.
pub open spec fn split_fields_spec(s: Seq<char>, d: char) -> Seq<Seq<char>>
    decreases s.len(),
{
    if s.len() == 0 {
        seq![Seq::<char>::empty()]
    } else if s.last() == d {
        split_fields_spec(s.drop_last(), d).push(Seq::<char>::empty())
    } else {
        let r = split_fields_spec(s.drop_last(), d);
        r.update(r.len() - 1, r.last().push(s.last()))
    }
}

/// There is always at least one field.
pub proof fn lemma_split_fields_len(s: Seq<char>, d: char)
    ensures
        split_fields_spec(s, d).len() >= 1,
    decreases s.len(),
{
    if s.len() > 0 {
        lemma_split_fields_len(s.drop_last(), d);
    }
}

/// Splits `s` at every occurrence of `d`.
pub fn split_fields(s: &str, d: char) -> (r: Vec<String>)
    ensures
        r.deep_view() == split_fields_spec(s@, d),
        r.len() >= 1,
{
    let n = s.unicode_len();
    let mut fields: Vec<String> = Vec::new();
    let mut cur = String::new();
    let mut i: usize = 0;
    while i < n
        invariant
            i <= n,
            n == s@.len(),
            fields.deep_view().push(cur@) =~= split_fields_spec(s@.subrange(0, i as int), d),
        decreases n - i,
    {
        let ghost pf = fields.deep_view();
        let ghost pc = cur@;
        let c = s.get_char(i);
        if c == d {
            fields.push(cur);
            cur = String::new();
        } else {
            cur.push(c);
        }
        proof {
            assert(s@.subrange(0, i + 1).drop_last() =~= s@.subrange(0, i as int));
            assert(s@.subrange(0, i + 1).last() == s@[i as int]);
            let prev = split_fields_spec(s@.subrange(0, i as int), d);
            lemma_split_fields_len(s@.subrange(0, i as int), d);
            if c == d {
                assert(fields.deep_view() =~= pf.push(pc));
                assert(fields.deep_view().push(cur@) =~= prev.push(Seq::<char>::empty()));
            } else {
                assert(fields.deep_view().push(cur@)
                    =~= prev.update(prev.len() - 1, prev.last().push(c)));
            }
        }
        i += 1;
    }
    proof {
        assert(s@.subrange(0, n as int) =~= s@);
    }
    let ghost pf = fields.deep_view();
    let ghost pc = cur@;
    fields.push(cur);
    proof {
        lemma_split_fields_len(s@, d);
        assert(fields.deep_view() =~= pf.push(pc));
    }
    fields
}

/// Escape sequence that a character takes inside a JSON string literal.
pub open spec fn esc_char(c: char) -> Seq<char> {
    if c == '"' {
        seq!['\\', '"']
    } else if c == '\\' {
        seq!['\\', '\\']
    } else if c == '\u{8}' {
        seq!['\\', 'b']
    } else if c == '\u{c}' {
        seq!['\\', 'f']
    } else if c == '\n' {
        seq!['\\', 'n']
    } else if c == '\r' {
        seq!['\\', 'r']
    } else if c == '\t' {
        seq!['\\', 't']
    } else if (c as int) < 32 {
        seq!['\\', 'u', '0', '0', hex_char((c as int / 16) as nat), hex_char((c as int % 16) as nat)]
    } else {
        seq![c]
    }
}

/// The lower-case hexadecimal digit character for a value below sixteen.
pub open spec fn hex_char(d: nat) -> char
    recommends
        d < 16,
{
    if d < 10 {
        digit_char(d)
    } else {
        ((d + 87) as u8) as char
    }
}

/// `s` with every character escaped as JSON demands.
pub open spec fn json_escaped(s: Seq<char>) -> Seq<char>
    decreases s.len(),
{
    if s.len() == 0 {
        Seq::<char>::empty()
    } else {
        json_escaped(s.drop_last()) + esc_char(s.last())
    }
}

fn hex_of(d: u8) -> (c: char)
    requires
        d < 16,
    ensures
        c == hex_char(d as nat),
{
    if d < 10 {
        digit_of(d)
    } else {
        (d + 87) as char
    }
}

/// Appends the JSON-escaped form of `t` to `s`.
pub fn escape_into(t: &str, s: &mut String)
    ensures
        final(s)@ == old(s)@ + json_escaped(t@),
{
    let n = t.unicode_len();
    let mut i: usize = 0;
    while i < n
        invariant
            i <= n,
            n == t@.len(),
            s@ =~= old(s)@ + json_escaped(t@.subrange(0, i as int)),
        decreases n - i,
    {
        let c = t.get_char(i);
        let u = c as u32;
        if c == '"' {
            s.push('\\');
            s.push('"');
        } else if c == '\\' {
            s.push('\\');
            s.push('\\');
        } else if u == 8 {
            s.push('\\');
            s.push('b');
        } else if u == 12 {
            s.push('\\');
            s.push('f');
        } else if u == 10 {
            s.push('\\');
            s.push('n');
        } else if u == 13 {
            s.push('\\');
            s.push('r');
        } else if u == 9 {
            s.push('\\');
            s.push('t');
        } else if u < 32 {
            s.push('\\');
            s.push('u');
            s.push('0');
            s.push('0');
            s.push(hex_of((u / 16) as u8));
            s.push(hex_of((u % 16) as u8));
        } else {
            s.push(c);
        }
        proof {
            assert(t@.subrange(0, i + 1).drop_last() =~= t@.subrange(0, i as int));
            assert(t@.subrange(0, i + 1).last() == t@[i as int]);
            assert(s@ =~= old(s)@ + json_escaped(t@.subrange(0, i + 1)));
        }
        i += 1;
    }
    proof {
        assert(t@.subrange(0, n as int) =~= t@);
    }
}

} // verus!
