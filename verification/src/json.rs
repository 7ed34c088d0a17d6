//! Character-level JSON primitives: string escaping, decimal numbers, and
//! literal matching, each with the lemmas that make encode followed by
//! decode the identity.

use vstd::prelude::*;

verus! {

/// How one character appears inside a JSON string literal.
pub open spec fn esc_char(c: char) -> Seq<char> {
    if c == '"' {
        seq!['\\', '"']
    } else if c == '\\' {
        seq!['\\', '\\']
    } else if c == '\n' {
        seq!['\\', 'n']
    } else if c == '\r' {
        seq!['\\', 'r']
    } else if c == '\t' {
        seq!['\\', 't']
    } else {
        seq![c]
    }
}

/// The body of the JSON string literal for `s` (without the quotes).
pub open spec fn spec_escape(s: Seq<char>) -> Seq<char>
    decreases s.len(),
{
    if s.len() == 0 {
        Seq::<char>::empty()
    } else {
        esc_char(s[0]) + spec_escape(s.drop_first())
    }
}

/// Appending one character to a string appends its escape to the literal.
pub proof fn lemma_escape_push(s: Seq<char>, c: char)
    ensures
        spec_escape(s.push(c)) == spec_escape(s) + esc_char(c),
    decreases s.len(),
{
    if s.len() == 0 {
        assert(s.push(c).len() == 1);
        assert(s.push(c)[0] == c);
        assert(s.push(c).drop_first() =~= Seq::<char>::empty());
        assert(spec_escape(s.push(c)) == esc_char(c) + spec_escape(Seq::<char>::empty()));
        assert(esc_char(c) + Seq::<char>::empty() =~= esc_char(c));
        assert(spec_escape(s) + esc_char(c) =~= esc_char(c));
    } else {
        assert(s.push(c).drop_first() =~= s.drop_first().push(c));
        lemma_escape_push(s.drop_first(), c);
        assert(spec_escape(s.push(c)) == esc_char(s[0]) + (spec_escape(s.drop_first()) + esc_char(
            c,
        )));
        assert(esc_char(s[0]) + (spec_escape(s.drop_first()) + esc_char(c)) =~= (esc_char(s[0])
            + spec_escape(s.drop_first())) + esc_char(c));
    }
}

/// Append the escaped form of `s` to `out`.
pub fn push_escaped(out: &mut Vec<char>, s: &Vec<char>)
    ensures
        final(out)@ == old(out)@ + spec_escape(s@),
{
    let mut i: usize = 0;
    proof {
        assert(s@.take(0) =~= Seq::<char>::empty());
        assert(old(out)@ + spec_escape(s@.take(0)) =~= old(out)@);
    }
    while i < s.len()
        invariant
            i <= s@.len(),
            out@ == old(out)@ + spec_escape(s@.take(i as int)),
        decreases s@.len() - i,
    {
        let c = s[i];
        proof {
            assert(s@.take(i + 1) =~= s@.take(i as int).push(c));
            lemma_escape_push(s@.take(i as int), c);
        }
        if c == '"' {
            out.push('\\');
            out.push('"');
        } else if c == '\\' {
            out.push('\\');
            out.push('\\');
        } else if c == '\n' {
            out.push('\\');
            out.push('n');
        } else if c == '\r' {
            out.push('\\');
            out.push('r');
        } else if c == '\t' {
            out.push('\\');
            out.push('t');
        } else {
            out.push(c);
        }
        proof {
            assert(out@ =~= old(out)@ + spec_escape(s@.take(i + 1)));
        }
        i = i + 1;
    }
    proof {
        assert(s@.take(s@.len() as int) =~= s@);
    }
}

/// The character an escape sequence `\x` stands for, if `x` is a valid
/// escape.
pub open spec fn unesc_char(x: char) -> Option<char> {
    if x == '"' {
        Some('"')
    } else if x == '\\' {
        Some('\\')
    } else if x == 'n' {
        Some('\n')
    } else if x == 'r' {
        Some('\r')
    } else if x == 't' {
        Some('\t')
    } else {
        None
    }
}

/// Parse the body of a JSON string literal from the front of `t`: the
/// decoded content and how many characters (closing quote included) were
/// consumed.
pub open spec fn spec_parse_string_body(t: Seq<char>) -> Option<(Seq<char>, int)>
    decreases t.len(),
{
    if t.len() == 0 {
        None
    } else if t[0] == '"' {
        Some((Seq::<char>::empty(), 1int))
    } else if t[0] == '\\' {
        if t.len() < 2 {
            None
        } else {
            match unesc_char(t[1]) {
                Some(c) => match spec_parse_string_body(t.skip(2)) {
                    Some(p) => Some((seq![c] + p.0, p.1 + 2)),
                    None => None,
                },
                None => None,
            }
        }
    } else {
        match spec_parse_string_body(t.skip(1)) {
            Some(p) => Some((seq![t[0]] + p.0, p.1 + 1)),
            None => None,
        }
    }
}

/// Law: parsing inverts escaping. The literal body written for `s`,
/// followed by its closing quote and anything else, parses back to
/// exactly `s`, consuming exactly the literal and the quote.
pub proof fn lemma_parse_escape(s: Seq<char>, rest: Seq<char>)
    ensures
        spec_parse_string_body(spec_escape(s) + seq!['"'] + rest) == Some(
            (s, spec_escape(s).len() + 1int),
        ),
    decreases s.len(),
{
    let t = spec_escape(s) + seq!['"'] + rest;
    if s.len() == 0 {
        assert(t =~= seq!['"'] + rest);
        assert(t[0] == '"');
        assert(spec_parse_string_body(t) == Some((Seq::<char>::empty(), 1int)));
        assert(s =~= Seq::<char>::empty());
    } else {
        let c = s[0];
        let s2 = s.drop_first();
        lemma_parse_escape(s2, rest);
        let t2 = spec_escape(s2) + seq!['"'] + rest;
        assert(spec_escape(s) == esc_char(c) + spec_escape(s2));
        if c == '"' || c == '\\' || c == '\n' || c == '\r' || c == '\t' {
            assert(esc_char(c).len() == 2);
            assert(t =~= esc_char(c) + t2);
            assert(t[0] == '\\');
            assert(t.len() >= 2);
            assert(unesc_char(t[1]) == Some(c));
            assert(t.skip(2) =~= t2);
            assert(spec_parse_string_body(t) == Some((seq![c] + s2, t2.len() - rest.len() + 2)));
            assert(seq![c] + s2 =~= s);
        } else {
            assert(esc_char(c) =~= seq![c]);
            assert(t =~= seq![c] + t2);
            assert(t[0] == c);
            assert(c != '"' && c != '\\');
            assert(t.skip(1) =~= t2);
            assert(seq![c] + s2 =~= s);
        }
    }
}

/// Parse a JSON string literal body starting at `from` (just after the
/// opening quote): the decoded content and the index just past the
/// closing quote.
pub fn parse_string_body(t: &Vec<char>, from: usize) -> (r: Option<(Vec<char>, usize)>)
    requires
        from <= t@.len(),
    ensures
        match r {
            Some(p) => {
                &&& spec_parse_string_body(t@.skip(from as int)) matches Some(q)
                &&& spec_parse_string_body(t@.skip(from as int)) == Some((p.0@, p.1 - from as int))
                &&& from < p.1 <= t@.len()
            },
            None => spec_parse_string_body(t@.skip(from as int)) is None,
        },
    decreases t@.len() - from,
{
    if from >= t.len() {
        proof {
            assert(t@.skip(from as int).len() == 0);
        }
        return None;
    }
    let c = t[from];
    let ghost tail = t@.skip(from as int);
    proof {
        assert(tail[0] == c);
    }
    if c == '"' {
        return Some((Vec::new(), from + 1));
    }
    if c == '\\' {
        if from + 1 >= t.len() {
            proof {
                assert(tail.len() < 2);
            }
            return None;
        }
        let x = t[from + 1];
        proof {
            assert(tail[1] == x);
        }
        let decoded: char = if x == '"' {
            '"'
        } else if x == '\\' {
            '\\'
        } else if x == 'n' {
            '\n'
        } else if x == 'r' {
            '\r'
        } else if x == 't' {
            '\t'
        } else {
            proof {
                assert(unesc_char(x) is None);
            }
            return None;
        };
        proof {
            assert(unesc_char(x) == Some(decoded));
            assert(tail.skip(2) =~= t@.skip(from + 2));
        }
        match parse_string_body(t, from + 2) {
            Some((mut content, end)) => {
                content.insert(0, decoded);
                proof {
                    assert(content@ =~= seq![decoded] + content@.skip(1));
                }
                return Some((content, end));
            },
            None => {
                return None;
            },
        }
    }
    proof {
        assert(tail.skip(1) =~= t@.skip(from + 1));
    }
    match parse_string_body(t, from + 1) {
        Some((mut content, end)) => {
            content.insert(0, c);
            proof {
                assert(content@ =~= seq![c] + content@.skip(1));
            }
            Some((content, end))
        },
        None => None,
    }
}

/// Whether `lit` stands at position `from` of `t`.
pub fn matches_lit(t: &Vec<char>, from: usize, lit: &str) -> (r: bool)
    requires
        from <= t@.len(),
    ensures
        r <==> (from + lit@.len() <= t@.len() && t@.subrange(from as int, from + lit@.len())
            == lit@),
{
    let l = crate::text::chars_of(lit);
    let tlen = t.len();
    if tlen - from < l.len() {
        proof {
            assert(from + lit@.len() > t@.len());
        }
        return false;
    }
    let mut i: usize = 0;
    while i < l.len()
        invariant
            l@ == lit@,
            i <= l@.len(),
            t@.len() == tlen,
            from + l@.len() <= t@.len(),
            forall|j: int| 0 <= j < i ==> t@[from + j] == l@[j],
        decreases l@.len() - i,
    {
        if t[from + i] != l[i] {
            proof {
                assert(t@.subrange(from as int, from + lit@.len())[i as int] == t@[from + i]);
            }
            return false;
        }
        i = i + 1;
    }
    proof {
        assert(t@.subrange(from as int, from + lit@.len()) =~= lit@);
    }
    true
}

/// The decimal digit character for `d` (which must be below ten).
pub open spec fn digit_char(d: nat) -> char {
    if d == 0 {
        '0'
    } else if d == 1 {
        '1'
    } else if d == 2 {
        '2'
    } else if d == 3 {
        '3'
    } else if d == 4 {
        '4'
    } else if d == 5 {
        '5'
    } else if d == 6 {
        '6'
    } else if d == 7 {
        '7'
    } else if d == 8 {
        '8'
    } else {
        '9'
    }
}

/// Whether `c` is a decimal digit, and its value.
pub open spec fn is_digit(c: char) -> bool {
    c == '0' || c == '1' || c == '2' || c == '3' || c == '4' || c == '5' || c == '6' || c == '7'
        || c == '8' || c == '9'
}

/// The value of a digit character.
pub open spec fn digit_value(c: char) -> nat {
    if c == '0' {
        0nat
    } else if c == '1' {
        1nat
    } else if c == '2' {
        2nat
    } else if c == '3' {
        3nat
    } else if c == '4' {
        4nat
    } else if c == '5' {
        5nat
    } else if c == '6' {
        6nat
    } else if c == '7' {
        7nat
    } else if c == '8' {
        8nat
    } else {
        9nat
    }
}

/// The canonical decimal digits of `n`.
pub open spec fn spec_u64_digits(n: nat) -> Seq<char>
    decreases n,
{
    if n < 10 {
        seq![digit_char(n)]
    } else {
        spec_u64_digits(n / 10).push(digit_char(n % 10))
    }
}

/// The value of a run of digit characters.
pub open spec fn digits_value(s: Seq<char>) -> nat
    decreases s.len(),
{
    if s.len() == 0 {
        0nat
    } else {
        digits_value(s.drop_last()) * 10 + digit_value(s.last())
    }
}

/// The canonical digits of `n` are digits, start with no leading zero
/// unless `n` is zero, and evaluate back to `n`.
pub proof fn lemma_u64_digits(n: nat)
    ensures
        spec_u64_digits(n).len() >= 1,
        forall|i: int|
            0 <= i < spec_u64_digits(n).len() ==> is_digit(#[trigger] spec_u64_digits(n)[i]),
        digits_value(spec_u64_digits(n)) == n,
    decreases n,
{
    if n < 10 {
        assert(spec_u64_digits(n) =~= seq![digit_char(n)]);
        assert(spec_u64_digits(n).len() == 1);
        assert(spec_u64_digits(n).drop_last() =~= Seq::<char>::empty());
        assert(spec_u64_digits(n).last() == digit_char(n));
        assert(digits_value(Seq::<char>::empty()) == 0);
        assert(digits_value(spec_u64_digits(n)) == 0 * 10 + digit_value(digit_char(n)));
        assert(digit_value(digit_char(n)) == n);
    } else {
        lemma_u64_digits(n / 10);
        let p = spec_u64_digits(n / 10);
        assert(spec_u64_digits(n) == p.push(digit_char(n % 10)));
        assert(p.push(digit_char(n % 10)).drop_last() =~= p);
        assert(p.push(digit_char(n % 10)).last() == digit_char(n % 10));
        assert(digit_value(digit_char(n % 10)) == n % 10);
        assert(digits_value(spec_u64_digits(n)) == digits_value(p) * 10 + n % 10);
        assert(digits_value(p) == n / 10);
        assert(n / 10 * 10 + n % 10 == n) by {
            vstd::arithmetic::div_mod::lemma_fundamental_div_mod(n as int, 10);
        }
        assert forall|i: int|
            0 <= i < spec_u64_digits(n).len() implies is_digit(
            #[trigger] spec_u64_digits(n)[i],
        ) by {
            if i < p.len() {
                assert(spec_u64_digits(n)[i] == p[i]);
            }
        }
    }
}

/// Append the canonical decimal digits of `n` to `out`.
pub fn push_u64(out: &mut Vec<char>, n: u64)
    ensures
        final(out)@ == old(out)@ + spec_u64_digits(n as nat),
    decreases n,
{
    if n < 10 {
        let d: char = match n {
            0 => '0',
            1 => '1',
            2 => '2',
            3 => '3',
            4 => '4',
            5 => '5',
            6 => '6',
            7 => '7',
            8 => '8',
            _ => '9',
        };
        proof {
            assert(digit_char(n as nat) == d);
        }
        out.push(d);
        proof {
            assert(out@ =~= old(out)@ + spec_u64_digits(n as nat));
        }
    } else {
        push_u64(out, n / 10);
        let rem = n % 10;
        let d: char = match rem {
            0 => '0',
            1 => '1',
            2 => '2',
            3 => '3',
            4 => '4',
            5 => '5',
            6 => '6',
            7 => '7',
            8 => '8',
            _ => '9',
        };
        proof {
            assert(digit_char((n % 10) as nat) == d);
        }
        out.push(d);
        proof {
            assert(out@ =~= old(out)@ + spec_u64_digits(n as nat));
        }
    }
}

/// The index just past the run of digits starting at `from`.
pub open spec fn spec_digit_run_end(t: Seq<char>, from: int) -> int
    decreases t.len() - from,
{
    if from < t.len() && is_digit(t[from]) {
        spec_digit_run_end(t, from + 1)
    } else {
        from
    }
}

pub proof fn lemma_digit_run_bounds(t: Seq<char>, from: int)
    requires
        0 <= from <= t.len(),
    ensures
        from <= spec_digit_run_end(t, from) <= t.len(),
        forall|j: int| from <= j < spec_digit_run_end(t, from) ==> is_digit(t[j]),
        spec_digit_run_end(t, from) < t.len() ==> !is_digit(t[spec_digit_run_end(t, from)]),
    decreases t.len() - from,
{
    if from < t.len() && is_digit(t[from]) {
        lemma_digit_run_bounds(t, from + 1);
    }
}

/// Where a run of known digits stands, the run ends at its end.
pub proof fn lemma_digit_run_of_digits(t: Seq<char>, from: int, len: int)
    requires
        0 <= from,
        0 <= len,
        from + len <= t.len(),
        forall|j: int| from <= j < from + len ==> is_digit(t[j]),
        from + len < t.len() ==> !is_digit(t[from + len]),
        from + len == t.len() || !is_digit(t[from + len]),
    ensures
        spec_digit_run_end(t, from) == from + len,
    decreases len,
{
    if len == 0 {
    } else {
        lemma_digit_run_of_digits(t, from + 1, len - 1);
    }
}

/// Parse an unsigned decimal number at `from`: its value and the index
/// just past its digits. Fails when no digit stands at `from` or the
/// value does not fit in a `u64`.
pub fn parse_u64(t: &Vec<char>, from: usize) -> (r: Option<(u64, usize)>)
    requires
        from <= t@.len(),
    ensures
        match r {
            Some(p) => {
                &&& p.1 == spec_digit_run_end(t@, from as int)
                &&& from < p.1 <= t@.len()
                &&& p.0 == digits_value(t@.subrange(from as int, p.1 as int))
            },
            None => from == t@.len() || !is_digit(t@[from as int]) || digits_value(
                t@.subrange(from as int, spec_digit_run_end(t@, from as int)),
            ) > u64::MAX,
        },
{
    proof {
        lemma_digit_run_bounds(t@, from as int);
    }
    if from >= t.len() {
        return None;
    }
    let c0 = t[from];
    let d0 = match digit_of(c0) {
        Some(d) => d,
        None => {
            return None;
        },
    };
    let mut acc: u64 = d0 as u64;
    let mut j: usize = from + 1;
    proof {
        let sub = t@.subrange(from as int, from + 1);
        assert(sub.len() == 1);
        assert(sub.drop_last() =~= Seq::<char>::empty());
        assert(sub.last() == t@[from as int]);
        assert(digits_value(Seq::<char>::empty()) == 0);
        assert(digits_value(sub) == 0 * 10 + digit_value(c0));
        assert(acc == digits_value(t@.subrange(from as int, j as int)));
    }
    while j < t.len()
        invariant
            from < j <= t@.len(),
            forall|k: int| from <= k < j ==> is_digit(t@[k]),
            acc == digits_value(t@.subrange(from as int, j as int)),
        decreases t@.len() - j,
    {
        let c = t[j];
        let d = match digit_of(c) {
            Some(d) => d,
            None => {
                proof {
                    lemma_digit_run_of_digits(t@, from as int, j - from);
                }
                return Some((acc, j));
            },
        };
        if acc > (u64::MAX - (d as u64)) / 10 {
            proof {
                lemma_digit_run_bounds(t@, j as int);
                let run_end = spec_digit_run_end(t@, j as int);
                assert(run_end == spec_digit_run_end(t@, j + 1));
                lemma_digit_run_bounds(t@, j + 1);
                assert(j + 1 <= run_end <= t@.len());
                assert forall|k: int| from <= k < run_end implies is_digit(t@[k]) by {
                    if k < j {
                    } else if k == j {
                    } else {
                        assert(is_digit(t@[k]));
                    }
                }
                lemma_digit_run_of_digits(t@, from as int, run_end - from);
                assert(spec_digit_run_end(t@, from as int) == run_end);
                lemma_digits_value_grows(t@, from as int, j + 1, run_end);
                assert(t@.subrange(from as int, j + 1).drop_last() =~= t@.subrange(
                    from as int,
                    j as int,
                ));
                assert(t@.subrange(from as int, j + 1).len() > 0);
                assert(t@.subrange(from as int, j + 1).last() == c);
                assert(digits_value(t@.subrange(from as int, j + 1)) == acc * 10 + digit_value(c));
                assert(acc * 10 + digit_value(c) > u64::MAX) by (nonlinear_arith)
                    requires
                        acc > (u64::MAX - digit_value(c)) / 10,
                        digit_value(c) < 10,
                ;
                let ve = digits_value(t@.subrange(from as int, j + 1));
                let kk = (run_end - (j + 1)) as nat;
                lemma_pow10_pos(kk);
                assert(ve * pow10(kk) >= ve * 1) by (nonlinear_arith)
                    requires
                        pow10(kk) >= 1,
                ;
                assert(ve * 1 == ve) by (nonlinear_arith);
                assert(digits_value(t@.subrange(from as int, run_end)) >= ve);
            }
            return None;
        }
        proof {
            assert(t@.subrange(from as int, j + 1).drop_last() =~= t@.subrange(
                from as int,
                j as int,
            ));
            assert(t@.subrange(from as int, j + 1).last() == c);
            assert(acc * 10 + digit_value(c) <= u64::MAX) by (nonlinear_arith)
                requires
                    acc <= (u64::MAX - digit_value(c)) / 10,
                    digit_value(c) < 10,
            ;
        }
        acc = acc * 10 + (d as u64);
        j = j + 1;
    }
    proof {
        lemma_digit_run_of_digits(t@, from as int, j - from);
    }
    Some((acc, j))
}

/// The value of a longer digit run is at least the value of its prefix
/// times a positive power of ten; used to show overflow is permanent.
proof fn lemma_digits_value_grows(t: Seq<char>, from: int, mid: int, end: int)
    requires
        0 <= from <= mid <= end <= t.len(),
    ensures
        digits_value(t.subrange(from, end)) >= digits_value(t.subrange(from, mid)) * pow10(
            (end - mid) as nat,
        ),
    decreases end - mid,
{
    if mid == end {
        let b = digits_value(t.subrange(from, mid));
        assert(pow10(0nat) == 1);
        assert(b * 1 == b) by (nonlinear_arith);
    } else {
        lemma_digits_value_grows(t, from, mid, end - 1);
        assert(t.subrange(from, end).drop_last() =~= t.subrange(from, end - 1));
        let a = digits_value(t.subrange(from, mid));
        let b = digits_value(t.subrange(from, end - 1));
        let p = pow10((end - 1 - mid) as nat);
        assert(pow10((end - mid) as nat) == 10 * p);
        assert(digits_value(t.subrange(from, end)) == b * 10 + digit_value(
            t.subrange(from, end).last(),
        ));
        assert(b >= a * p ==> b * 10 >= a * (10 * p)) by (nonlinear_arith);
    }
}

/// Ten to the `n`.
pub open spec fn pow10(n: nat) -> nat
    decreases n,
{
    if n == 0 {
        1nat
    } else {
        10nat * pow10((n - 1) as nat)
    }
}

/// A power of ten is positive.
proof fn lemma_pow10_pos(n: nat)
    ensures
        pow10(n) >= 1,
    decreases n,
{
    if n > 0 {
        lemma_pow10_pos((n - 1) as nat);
    }
}

/// The digit value of `c`, if it is a digit.
fn digit_of(c: char) -> (r: Option<u8>)
    ensures
        match r {
            Some(d) => is_digit(c) && d == digit_value(c) && d < 10,
            None => !is_digit(c),
        },
{
    match c {
        '0' => Some(0),
        '1' => Some(1),
        '2' => Some(2),
        '3' => Some(3),
        '4' => Some(4),
        '5' => Some(5),
        '6' => Some(6),
        '7' => Some(7),
        '8' => Some(8),
        '9' => Some(9),
        _ => None,
    }
}

/// Law: parsing inverts formatting. The canonical digits of `n`, followed
/// by anything that does not begin with a digit, parse back to `n`.
pub proof fn lemma_parse_u64_digits(t: Seq<char>, from: int, n: nat)
    requires
        0 <= from,
        n <= u64::MAX,
        from + spec_u64_digits(n).len() <= t.len(),
        t.subrange(from, from + spec_u64_digits(n).len()) == spec_u64_digits(n),
        from + spec_u64_digits(n).len() == t.len() || !is_digit(
            t[from + spec_u64_digits(n).len()],
        ),
    ensures
        spec_digit_run_end(t, from) == from + spec_u64_digits(n).len(),
        digits_value(t.subrange(from, from + spec_u64_digits(n).len())) == n,
{
    lemma_u64_digits(n);
    let len = spec_u64_digits(n).len() as int;
    assert forall|j: int| from <= j < from + len implies is_digit(t[j]) by {
        assert(t[j] == t.subrange(from, from + len)[j - from]);
    }
    lemma_digit_run_of_digits(t, from, len);
}

} // verus!
