//! Character classes and small text routines shared by the grammar and the
//! wire protocol.

use vstd::prelude::*;

verus! {

/// Whitespace as Unicode defines it: the characters marked `White_Space`.
pub open spec fn is_space(c: char) -> bool {
    ||| ('\u{9}' <= c && c <= '\u{d}')
    ||| c == ' '
    ||| c == '\u{85}'
    ||| c == '\u{a0}'
    ||| c == '\u{1680}'
    ||| ('\u{2000}' <= c && c <= '\u{200a}')
    ||| c == '\u{2028}'
    ||| c == '\u{2029}'
    ||| c == '\u{202f}'
    ||| c == '\u{205f}'
    ||| c == '\u{3000}'
}

/// A decimal digit, `0` to `9`.
pub open spec fn is_digit(c: char) -> bool {
    '0' <= c && c <= '9'
}

/// An ASCII letter of either case.
pub open spec fn is_letter(c: char) -> bool {
    ('a' <= c && c <= 'z') || ('A' <= c && c <= 'Z')
}

/// A character that may stand in a route name: an ASCII letter or digit,
/// `-`, `/` or `\`.
pub open spec fn is_route_char(c: char) -> bool {
    is_letter(c) || is_digit(c) || c == '-' || c == '/' || c == '\\'
}

/// The lower-case form of an ASCII capital; every other character is itself.
pub open spec fn lower(c: char) -> char {
    if 'A' <= c && c <= 'Z' {
        ((c as u32) + 32) as char
    } else {
        c
    }
}

/// Whether `c` is whitespace.
pub fn space(c: char) -> (b: bool)
    ensures
        b == is_space(c),
{
    (c >= '\u{9}' && c <= '\u{d}') || c == ' ' || c == '\u{85}' || c == '\u{a0}' || c == '\u{1680}'
        || (c >= '\u{2000}' && c <= '\u{200a}') || c == '\u{2028}' || c == '\u{2029}' || c
        == '\u{202f}' || c == '\u{205f}' || c == '\u{3000}'
}

/// Whether `c` is a decimal digit.
pub fn digit(c: char) -> (b: bool)
    ensures
        b == is_digit(c),
{
    c >= '0' && c <= '9'
}

/// Whether `c` may stand in a route name.
pub fn route_char(c: char) -> (b: bool)
    ensures
        b == is_route_char(c),
{
    (c >= 'a' && c <= 'z') || (c >= 'A' && c <= 'Z') || (c >= '0' && c <= '9') || c == '-' || c
        == '/' || c == '\\'
}

/// Lower-cases an ASCII capital and leaves every other character alone.
pub fn to_lower(c: char) -> (r: char)
    ensures
        r == lower(c),
{
    if c >= 'A' && c <= 'Z' {
        let code: u32 = c as u32;
        let low: u8 = (code + 32) as u8;
        low as char
    } else {
        c
    }
}

/// Whether two strings hold the same characters.
pub fn same_text(a: &str, b: &str) -> (r: bool)
    ensures
        r == (a@ == b@),
{
    let n: usize = a.unicode_len();
    if n != b.unicode_len() {
        return false;
    }
    let mut i: usize = 0;
    while i < n
        invariant
            n == a@.len(),
            n == b@.len(),
            i <= n,
            forall|j: int| 0 <= j < i ==> a@[j] == b@[j],
        decreases n - i,
    {
        if a.get_char(i) != b.get_char(i) {
            return false;
        }
        i += 1;
    }
    assert(a@ =~= b@);
    true
}

/// The classes of characters that the grammar scans runs of.
#[derive(Clone, Copy, Debug, PartialEq, Eq, Structural)]
pub enum CharClass {
    /// Whitespace.
    Space,
    /// Decimal digits.
    Digit,
    /// What a route name is made of.
    RouteName,
    /// The NUL character alone.
    Nul,
}

impl CharClass {
    /// Whether `c` belongs to the class.
    pub open spec fn holds(self, c: char) -> bool {
        match self {
            CharClass::Space => is_space(c),
            CharClass::Digit => is_digit(c),
            CharClass::RouteName => is_route_char(c),
            CharClass::Nul => c == '\0',
        }
    }

    /// Whether `c` belongs to the class.
    pub fn admits(&self, c: char) -> (b: bool)
        ensures
            b == self.holds(c),
    {
        match self {
            CharClass::Space => space(c),
            CharClass::Digit => digit(c),
            CharClass::RouteName => route_char(c),
            CharClass::Nul => c == '\0',
        }
    }
}

/// Where the run of `class` characters that starts at `from` ends: the first
/// position at or after `from` that holds a character outside the class, or
/// the length of `s` where there is none.
pub open spec fn run_end(s: Seq<char>, from: int, class: CharClass) -> int
    decreases s.len() - from,
{
    if 0 <= from < s.len() && class.holds(s[from]) {
        run_end(s, from + 1, class)
    } else {
        from
    }
}

/// `run_end` stops at the first character outside the class and nowhere
/// before it.
pub proof fn lemma_run_end_bounds(s: Seq<char>, from: int, class: CharClass)
    requires
        0 <= from <= s.len(),
    ensures
        from <= run_end(s, from, class) <= s.len(),
        forall|i: int| from <= i < run_end(s, from, class) ==> class.holds(#[trigger] s[i]),
        run_end(s, from, class) < s.len() ==> !class.holds(s[run_end(s, from, class)]),
    decreases s.len() - from,
{
    if from < s.len() && class.holds(s[from]) {
        lemma_run_end_bounds(s, from + 1, class);
    }
}

/// A position that ends a run of `class` characters from `from` is the one
/// that `run_end` gives.
pub proof fn lemma_run_end_unique(s: Seq<char>, from: int, to: int, class: CharClass)
    requires
        0 <= from <= to <= s.len(),
        forall|i: int| from <= i < to ==> class.holds(#[trigger] s[i]),
        to < s.len() ==> !class.holds(s[to]),
    ensures
        run_end(s, from, class) == to,
    decreases to - from,
{
    if from < to {
        lemma_run_end_unique(s, from + 1, to, class);
    }
}

/// Scans the run of `class` characters of `s` that starts at `from`.
/// `len` is the number of characters of `s`.
pub fn scan(s: &str, len: usize, from: usize, class: CharClass) -> (end: usize)
    requires
        len == s@.len(),
        from <= len,
    ensures
        end == run_end(s@, from as int, class),
        from <= end <= len,
{
    let mut i: usize = from;
    let mut open: bool = true;
    while open && i < len
        invariant
            len == s@.len(),
            from <= i <= len,
            run_end(s@, from as int, class) == run_end(s@, i as int, class),
            !open ==> i < len && !class.holds(s@[i as int]),
        decreases (len - i) + (if open { 1int } else { 0int }),
    {
        if class.admits(s.get_char(i)) {
            i += 1;
        } else {
            open = false;
        }
    }
    i
}

/// `s` without the `class` characters at its two ends.
pub open spec fn strip(s: Seq<char>, class: CharClass) -> Seq<char>
    decreases s.len(),
{
    if s.len() > 0 && class.holds(s[0]) {
        strip(s.drop_first(), class)
    } else if s.len() > 0 && class.holds(s.last()) {
        strip(s.drop_last(), class)
    } else {
        s
    }
}

/// What stands between a run of `class` characters at the start of `s` and
/// one at its end, and neither begins nor ends with such a character, is
/// `s` stripped.
pub proof fn lemma_strip(s: Seq<char>, lo: int, hi: int, class: CharClass)
    requires
        0 <= lo <= hi <= s.len(),
        forall|i: int| 0 <= i < lo ==> class.holds(#[trigger] s[i]),
        forall|i: int| hi <= i < s.len() ==> class.holds(#[trigger] s[i]),
        lo < hi ==> !class.holds(s[lo]) && !class.holds(s[hi - 1]),
    ensures
        strip(s, class) == s.subrange(lo, hi),
    decreases s.len(),
{
    if s.len() == 0 {
        assert(s.subrange(lo, hi) =~= s);
    } else if class.holds(s[0]) {
        let t = s.drop_first();
        assert forall|i: int| 0 <= i < t.len() implies t[i] == s[i + 1] by {}
        if lo > 0 {
            assert forall|i: int| 0 <= i < lo - 1 implies class.holds(#[trigger] t[i]) by {
                assert(class.holds(s[i + 1]));
            }
            assert forall|i: int| hi - 1 <= i < t.len() implies class.holds(#[trigger] t[i]) by {
                assert(class.holds(s[i + 1]));
            }
            lemma_strip(t, lo - 1, hi - 1, class);
            assert(t.subrange(lo - 1, hi - 1) =~= s.subrange(lo, hi));
        } else {
            assert forall|i: int| 0 <= i < t.len() implies class.holds(#[trigger] t[i]) by {
                assert(class.holds(s[i + 1]));
            }
            lemma_strip(t, 0, 0, class);
            assert(t.subrange(0, 0) =~= s.subrange(lo, hi));
        }
    } else if class.holds(s.last()) {
        let t = s.drop_last();
        assert(lo == 0);
        assert(hi < s.len());
        assert forall|i: int| hi <= i < t.len() implies class.holds(#[trigger] t[i]) by {
            assert(class.holds(s[i]));
        }
        lemma_strip(t, lo, hi, class);
        assert(t.subrange(lo, hi) =~= s.subrange(lo, hi));
    } else {
        assert(lo == 0);
        assert(hi == s.len());
        assert(s.subrange(lo, hi) =~= s);
    }
}

/// `s` without the `class` characters at its two ends.
pub fn trim<'a>(s: &'a str, class: CharClass) -> (r: &'a str)
    ensures
        r@ == strip(s@, class),
{
    let len: usize = s.unicode_len();
    let lo: usize = scan(s, len, 0, class);
    proof {
        lemma_run_end_bounds(s@, 0, class);
    }
    let mut hi: usize = len;
    let mut open: bool = true;
    while open && hi > lo
        invariant
            len == s@.len(),
            lo <= hi <= len,
            forall|i: int| hi <= i < len ==> class.holds(#[trigger] s@[i]),
            !open ==> hi > lo && !class.holds(s@[hi - 1]),
        decreases (hi - lo) + (if open { 1int } else { 0int }),
    {
        if class.admits(s.get_char(hi - 1)) {
            hi -= 1;
        } else {
            open = false;
        }
    }
    proof {
        lemma_strip(s@, lo as int, hi as int, class);
    }
    s.substring_char(lo, hi)
}

/// The value of a decimal digit.
pub open spec fn digit_value(c: char) -> nat {
    (c as u32 - 48) as nat
}

/// The number that a sequence of decimal digits writes; the empty sequence
/// writes 0.
pub open spec fn decimal_value(d: Seq<char>) -> nat
    decreases d.len(),
{
    if d.len() == 0 {
        0
    } else {
        decimal_value(d.drop_last()) * 10 + digit_value(d.last())
    }
}

/// What a run of digits means as a 64-bit number: its decimal value where
/// that fits in 64 bits, and nothing where it does not.
pub open spec fn number_value(d: Seq<char>) -> Option<u64> {
    if decimal_value(d) <= u64::MAX {
        Some(decimal_value(d) as u64)
    } else {
        None
    }
}

/// Reads the digits of `s` between `from` and `to` as a 64-bit number;
/// there is none where they write more than 64 bits hold.
pub fn read_number(s: &str, from: usize, to: usize) -> (v: Option<u64>)
    requires
        from <= to <= s@.len(),
        forall|i: int| from <= i < to ==> is_digit(#[trigger] s@[i]),
    ensures
        v == number_value(s@.subrange(from as int, to as int)),
{
    let mut acc: u64 = 0;
    let mut fits: bool = true;
    let mut i: usize = from;
    assert(s@.subrange(from as int, from as int) =~= Seq::<char>::empty());
    while i < to
        invariant
            from <= i <= to <= s@.len(),
            forall|j: int| from <= j < to ==> is_digit(#[trigger] s@[j]),
            fits ==> acc == decimal_value(s@.subrange(from as int, i as int)),
            !fits ==> decimal_value(s@.subrange(from as int, i as int)) > u64::MAX,
        decreases to - i,
    {
        let c: char = s.get_char(i);
        let code: u32 = c as u32;
        let d: u64 = (code - 48) as u64;
        proof {
            let next = s@.subrange(from as int, i + 1);
            assert(next.drop_last() =~= s@.subrange(from as int, i as int));
            assert(next.last() == c);
            assert(digit_value(c) == d);
        }
        if fits {
            if acc > (u64::MAX - d) / 10 {
                fits = false;
            } else {
                acc = acc * 10 + d;
            }
        }
        i += 1;
    }
    if fits {
        Some(acc)
    } else {
        None
    }
}

/// The character that writes a digit's value.
pub open spec fn digit_char(v: nat) -> char {
    ((48 + v) as u32) as char
}

/// The decimal digits of `n`, most significant first, with no leading zero
/// but for 0 itself.
pub open spec fn decimal_digits(n: nat) -> Seq<char>
    decreases n,
{
    if n < 10 {
        seq![digit_char(n)]
    } else {
        decimal_digits(n / 10).push(digit_char(n % 10))
    }
}

fn digit_text(d: u64) -> (r: &'static str)
    requires
        d < 10,
    ensures
        r@ == seq![digit_char(d as nat)],
{
    proof {
        reveal_strlit("0");
        reveal_strlit("1");
        reveal_strlit("2");
        reveal_strlit("3");
        reveal_strlit("4");
        reveal_strlit("5");
        reveal_strlit("6");
        reveal_strlit("7");
        reveal_strlit("8");
        reveal_strlit("9");
    }
    let r = if d == 0 {
        "0"
    } else if d == 1 {
        "1"
    } else if d == 2 {
        "2"
    } else if d == 3 {
        "3"
    } else if d == 4 {
        "4"
    } else if d == 5 {
        "5"
    } else if d == 6 {
        "6"
    } else if d == 7 {
        "7"
    } else if d == 8 {
        "8"
    } else {
        "9"
    };
    assert(r@ =~= seq![digit_char(d as nat)]);
    r
}

/// Writes `n` in decimal at the end of `out`.
pub fn push_decimal(out: &mut String, n: u64)
    ensures
        final(out)@ == old(out)@ + decimal_digits(n as nat),
    decreases n,
{
    if n >= 10 {
        push_decimal(out, n / 10);
    }
    out.append(digit_text(n % 10));
    assert(final(out)@ =~= old(out)@ + decimal_digits(n as nat));
}

/// `n` in decimal.
pub fn decimal(n: u64) -> (r: String)
    ensures
        r@ == decimal_digits(n as nat),
{
    let mut out = String::new();
    push_decimal(&mut out, n);
    assert(out@ =~= decimal_digits(n as nat));
    out
}

/// The decimal digits of a number are one or more digits, and they write
/// that number.
pub proof fn law_decimal_round_trip(n: nat)
    ensures
        decimal_digits(n).len() > 0,
        forall|i: int| 0 <= i < decimal_digits(n).len() ==> is_digit(#[trigger] decimal_digits(n)[i]),
        decimal_value(decimal_digits(n)) == n,
    decreases n,
{
    if n < 10 {
        let d = decimal_digits(n);
        assert(d.drop_last() =~= Seq::<char>::empty());
        assert(decimal_value(d.drop_last()) == 0);
    } else {
        law_decimal_round_trip(n / 10);
        let d = decimal_digits(n);
        assert(d.drop_last() =~= decimal_digits(n / 10));
    }
}

/// Whether `s` begins with `p`.
pub open spec fn begins(s: Seq<char>, p: Seq<char>) -> bool {
    p.len() <= s.len() && s.subrange(0, p.len() as int) == p
}

/// Whether `s` begins with `p`.
pub fn starts_with(s: &str, p: &str) -> (b: bool)
    ensures
        b == begins(s@, p@),
{
    let n: usize = p.unicode_len();
    if n > s.unicode_len() {
        return false;
    }
    let mut i: usize = 0;
    while i < n
        invariant
            n == p@.len(),
            i <= n <= s@.len(),
            forall|j: int| 0 <= j < i ==> s@[j] == p@[j],
        decreases n - i,
    {
        if s.get_char(i) != p.get_char(i) {
            assert(s@.subrange(0, n as int)[i as int] != p@[i as int]);
            return false;
        }
        i += 1;
    }
    assert(s@.subrange(0, n as int) =~= p@);
    true
}

} // verus!
