//! JSON text of the scalars that JSON-RPC messages are made of.

use vstd::prelude::*;

verus! {

/// The digit of `n`, for `n` below 10.
pub open spec fn digit(n: int) -> char {
    ('0' as int + n) as char
}

/// The lower-case hexadecimal digit of `n`, for `n` below 16.
pub open spec fn hex_digit(n: int) -> char {
    if n < 10 {
        digit(n)
    } else {
        ('a' as int + n - 10) as char
    }
}

/// The decimal digits of `n`, without leading zeros.
pub open spec fn digits(n: nat) -> Seq<char>
    decreases n,
{
    if n < 10 {
        seq![digit(n as int)]
    } else {
        digits(n / 10).push(digit((n % 10) as int))
    }
}

/// The JSON number that stands for the integer `n`.
pub open spec fn int_text(n: int) -> Seq<char> {
    if n < 0 {
        seq!['-'] + digits((-n) as nat)
    } else {
        digits(n as nat)
    }
}

/// What stands for the character `c` inside a JSON string.
pub open spec fn escaped_char(c: char) -> Seq<char> {
    if c == '"' {
        seq!['\\', '"']
    } else if c == '\\' {
        seq!['\\', '\\']
    } else if c as int == 0x08 {
        seq!['\\', 'b']
    } else if c as int == 0x09 {
        seq!['\\', 't']
    } else if c as int == 0x0a {
        seq!['\\', 'n']
    } else if c as int == 0x0c {
        seq!['\\', 'f']
    } else if c as int == 0x0d {
        seq!['\\', 'r']
    } else if (c as int) < 0x20 {
        seq!['\\', 'u', '0', '0', hex_digit(c as int / 16), hex_digit(c as int % 16)]
    } else {
        seq![c]
    }
}

/// What stands for the text `s` inside a JSON string.
pub open spec fn escaped(s: Seq<char>) -> Seq<char>
    decreases s.len(),
{
    if s.len() == 0 {
        Seq::empty()
    } else {
        escaped_char(s[0]) + escaped(s.drop_first())
    }
}

/// The JSON string that stands for the text `s`.
pub open spec fn string_text(s: Seq<char>) -> Seq<char> {
    seq!['"'] + escaped(s) + seq!['"']
}

/// Whether a text holds no control character, so that it stands on one line.
pub open spec fn one_line(s: Seq<char>) -> bool {
    forall|i: int| 0 <= i < s.len() ==> #[trigger] s[i] as int >= 0x20
}

/// Calls `serde_json::to_string` on a string. Claimed of it: it succeeds, and
/// writes the string between quotation marks, with quotation marks, reverse
/// solidi and the characters below U+0020 escaped and all others as they are.
#[verifier::external_body]
pub(crate) fn json_string(s: &str) -> (text: String)
    ensures
        text@ == string_text(s@),
{
    serde_json::to_string(s).expect("a string serializes")
}

/// Calls `serde_json::to_string` on an `i32`. Claimed of it: it succeeds, and
/// writes the number in decimal, with a minus sign if it is negative.
#[verifier::external_body]
pub(crate) fn json_i32(n: i32) -> (text: String)
    ensures
        text@ == int_text(n as int),
{
    serde_json::to_string(&n).expect("an integer serializes")
}

proof fn lemma_digits(n: nat)
    ensures
        digits(n).len() > 0,
        forall|i: int| 0 <= i < digits(n).len() ==> '0' as int <= #[trigger] digits(n)[i] as int
            <= '9' as int,
    decreases n,
{
    if n >= 10 {
        lemma_digits(n / 10);
    }
}

proof fn lemma_digits_injective(m: nat, n: nat)
    requires
        digits(m) == digits(n),
    ensures
        m == n,
    decreases m,
{
    lemma_digits(m / 10);
    lemma_digits(n / 10);
    assert(digits(m).last() == digit((m % 10) as int));
    assert(digits(n).last() == digit((n % 10) as int));
    assert(m % 10 == n % 10);
    if m >= 10 && n >= 10 {
        assert(digits(m).drop_last() =~= digits(m / 10));
        assert(digits(n).drop_last() =~= digits(n / 10));
        lemma_digits_injective(m / 10, n / 10);
    }
}

/// The text of an integer is a minus sign or nothing, then digits.
pub proof fn lemma_int_text(n: int)
    ensures
        int_text(n).len() > 0,
        int_text(n)[0] != '"',
        forall|i: int|
            0 <= i < int_text(n).len() ==> #[trigger] int_text(n)[i] == '-' || '0' as int
                <= int_text(n)[i] as int <= '9' as int,
        one_line(int_text(n)),
{
    lemma_digits(if n < 0 { (-n) as nat } else { n as nat });
}

/// Different integers have different texts.
pub proof fn lemma_int_text_injective(m: int, n: int)
    requires
        int_text(m) == int_text(n),
    ensures
        m == n,
{
    lemma_int_text(m);
    lemma_int_text(n);
    if m >= 0 {
        lemma_digits(m as nat);
        assert(int_text(m)[0] == digits(m as nat)[0]);
    }
    if n >= 0 {
        lemma_digits(n as nat);
        assert(int_text(n)[0] == digits(n as nat)[0]);
    }
    if m < 0 {
        assert(int_text(m).drop_first() =~= digits((-m) as nat));
        assert(int_text(n).drop_first() =~= digits((-n) as nat));
        lemma_digits_injective((-m) as nat, (-n) as nat);
    } else {
        lemma_digits_injective(m as nat, n as nat);
    }
}

/// Two integers, each with a comma or a brace and more text after it, agree if
/// the whole texts do.
pub proof fn lemma_int_text_prefix(m: int, n: int, x: Seq<char>, y: Seq<char>)
    requires
        int_text(m) + x == int_text(n) + y,
        x.len() > 0 && (x[0] == ',' || x[0] == '}'),
        y.len() > 0 && (y[0] == ',' || y[0] == '}'),
    ensures
        m == n,
        x == y,
{
    let a = int_text(m);
    let b = int_text(n);
    lemma_int_text(m);
    lemma_int_text(n);
    assert((a + x)[a.len() as int] == x[0]);
    assert((b + y)[b.len() as int] == y[0]);
    if a.len() < b.len() {
        assert((b + y)[a.len() as int] == b[a.len() as int]);
    } else if b.len() < a.len() {
        assert((a + x)[b.len() as int] == a[b.len() as int]);
    }
    assert(a =~= (a + x).take(a.len() as int));
    assert(b =~= (b + y).take(a.len() as int));
    assert(x =~= (a + x).skip(a.len() as int));
    assert(y =~= (b + y).skip(a.len() as int));
    lemma_int_text_injective(m, n);
}

proof fn lemma_escaped_char(c: char)
    ensures
        1 <= escaped_char(c).len() <= 6,
        escaped_char(c)[0] != '"',
        one_line(escaped_char(c)),
{
}

proof fn lemma_escaped_char_prefix(c: char, d: char, x: Seq<char>, y: Seq<char>)
    requires
        escaped_char(c) + x == escaped_char(d) + y,
    ensures
        c == d,
        x == y,
{
    let s = escaped_char(c) + x;
    let t = escaped_char(d) + y;
    lemma_escaped_char(c);
    lemma_escaped_char(d);
    assert(s[0] == escaped_char(c)[0]);
    assert(t[0] == escaped_char(d)[0]);
    if escaped_char(c).len() > 1 {
        assert(s[1] == escaped_char(c)[1]);
    }
    if escaped_char(d).len() > 1 {
        assert(t[1] == escaped_char(d)[1]);
    }
    if escaped_char(c).len() == 6 {
        assert(s[4] == escaped_char(c)[4]);
        assert(s[5] == escaped_char(c)[5]);
    }
    if escaped_char(d).len() == 6 {
        assert(t[4] == escaped_char(d)[4]);
        assert(t[5] == escaped_char(d)[5]);
    }
    assert(c == d);
    assert(x =~= s.skip(escaped_char(c).len() as int));
    assert(y =~= t.skip(escaped_char(d).len() as int));
}

proof fn lemma_escaped_prefix(s: Seq<char>, t: Seq<char>, x: Seq<char>, y: Seq<char>)
    requires
        escaped(s) + seq!['"'] + x == escaped(t) + seq!['"'] + y,
    ensures
        s == t,
        x == y,
    decreases s.len(),
{
    let a = escaped(s) + seq!['"'] + x;
    let b = escaped(t) + seq!['"'] + y;
    if s.len() > 0 {
        lemma_escaped_char(s[0]);
        assert(a[0] == escaped_char(s[0])[0]);
    } else {
        assert(a[0] == '"');
    }
    if t.len() > 0 {
        lemma_escaped_char(t[0]);
        assert(b[0] == escaped_char(t[0])[0]);
    } else {
        assert(b[0] == '"');
    }
    if s.len() == 0 {
        assert(x =~= a.skip(1));
        assert(y =~= b.skip(1));
        assert(s =~= t);
    } else {
        let s1 = s.drop_first();
        let t1 = t.drop_first();
        assert(a =~= escaped_char(s[0]) + (escaped(s1) + seq!['"'] + x));
        assert(b =~= escaped_char(t[0]) + (escaped(t1) + seq!['"'] + y));
        lemma_escaped_char_prefix(
            s[0],
            t[0],
            escaped(s1) + seq!['"'] + x,
            escaped(t1) + seq!['"'] + y,
        );
        lemma_escaped_prefix(s1, t1, x, y);
        assert(s =~= seq![s[0]] + s1);
        assert(t =~= seq![t[0]] + t1);
    }
}

/// Two JSON strings, each with any text after it, agree if the whole texts do:
/// a JSON string says where it ends.
pub proof fn lemma_string_text_prefix(s: Seq<char>, t: Seq<char>, x: Seq<char>, y: Seq<char>)
    requires
        string_text(s) + x == string_text(t) + y,
    ensures
        s == t,
        x == y,
{
    let a = string_text(s) + x;
    let b = string_text(t) + y;
    assert(a.skip(1) =~= escaped(s) + seq!['"'] + x);
    assert(b.skip(1) =~= escaped(t) + seq!['"'] + y);
    lemma_escaped_prefix(s, t, x, y);
}

proof fn lemma_escaped_one_line(s: Seq<char>)
    ensures
        one_line(escaped(s)),
    decreases s.len(),
{
    if s.len() > 0 {
        lemma_escaped_char(s[0]);
        lemma_escaped_one_line(s.drop_first());
    }
}

/// A JSON string begins with a quotation mark and stands on one line.
pub proof fn lemma_string_text(s: Seq<char>)
    ensures
        string_text(s).len() >= 2,
        string_text(s)[0] == '"',
        one_line(string_text(s)),
{
    lemma_escaped_one_line(s);
}

} // verus!
