use vstd::prelude::*;
use vstd::string::StringExecFns;

verus! {

/// The character of a decimal digit.
pub open spec fn digit_char(d: nat) -> char
    recommends
        d < 10,
{
    if d == 0 {
        '0'
    } else if d == 1 {
        '1'
    } else if d == 2 {
        '2'
    } else if d == 3 {
        '3'
    } else if d == 4 {
        '4'
    } else if d == 5 {
        '5'
    } else if d == 6 {
        '6'
    } else if d == 7 {
        '7'
    } else if d == 8 {
        '8'
    } else {
        '9'
    }
}

/// The value of a decimal digit character, if it is one.
pub open spec fn digit_value(c: char) -> Option<nat> {
    if c == '0' {
        Some(0)
    } else if c == '1' {
        Some(1)
    } else if c == '2' {
        Some(2)
    } else if c == '3' {
        Some(3)
    } else if c == '4' {
        Some(4)
    } else if c == '5' {
        Some(5)
    } else if c == '6' {
        Some(6)
    } else if c == '7' {
        Some(7)
    } else if c == '8' {
        Some(8)
    } else if c == '9' {
        Some(9)
    } else {
        None
    }
}

/// The decimal text of a natural number, without leading zeros.
pub open spec fn nat_text(n: nat) -> Seq<char>
    decreases n,
{
    if n < 10 {
        seq![digit_char(n)]
    } else {
        nat_text(n / 10).push(digit_char(n % 10))
    }
}

/// The decimal text of an integer: a minus sign before the digits of a
/// negative one.
pub open spec fn int_text(n: int) -> Seq<char> {
    if n < 0 {
        seq!['-'] + nat_text((-n) as nat)
    } else {
        nat_text(n as nat)
    }
}

/// Whether every character of `s` is a decimal digit.
pub open spec fn all_digits(s: Seq<char>) -> bool {
    forall|i: int| 0 <= i < s.len() ==> (#[trigger] digit_value(s[i])) is Some
}

/// The number that a string of digits stands for.
pub open spec fn digits_value(s: Seq<char>) -> nat
    decreases s.len(),
{
    if s.len() == 0 {
        0
    } else {
        digits_value(s.drop_last()) * 10 + digit_value(s.last()).unwrap_or(0)
    }
}

/// A decimal numeral with an optional sign, as Rust's integer parsing reads
/// it: `Some((negative, magnitude))`, or `None` where the text is no numeral.
pub open spec fn numeral(s: Seq<char>) -> Option<(bool, nat)> {
    let (neg, body) = if s.len() > 0 && s[0] == '-' {
        (true, s.drop_first())
    } else if s.len() > 0 && s[0] == '+' {
        (false, s.drop_first())
    } else {
        (false, s)
    };
    if body.len() == 0 || !all_digits(body) {
        None
    } else {
        Some((neg, digits_value(body)))
    }
}

/// What `str::parse::<i32>` gives for `s`.
pub open spec fn parse_i32_spec(s: Seq<char>) -> Option<i32> {
    match numeral(s) {
        Some((neg, m)) => {
            let v: int = if neg {
                -m
            } else {
                m as int
            };
            if i32::MIN <= v <= i32::MAX {
                Some(v as i32)
            } else {
                None
            }
        },
        None => None,
    }
}

/// What `str::parse::<u64>` gives for `s`.
pub open spec fn parse_u64_spec(s: Seq<char>) -> Option<u64> {
    match numeral(s) {
        Some((neg, m)) => if !neg && m <= u64::MAX {
            Some(m as u64)
        } else {
            None
        },
        None => None,
    }
}

fn digit_str(d: u64) -> (r: &'static str)
    requires
        d < 10,
    ensures
        r@ == seq![digit_char(d as nat)],
{
    if d == 0 {
        proof {
            reveal_strlit("0");
        }
        "0"
    } else if d == 1 {
        proof {
            reveal_strlit("1");
        }
        "1"
    } else if d == 2 {
        proof {
            reveal_strlit("2");
        }
        "2"
    } else if d == 3 {
        proof {
            reveal_strlit("3");
        }
        "3"
    } else if d == 4 {
        proof {
            reveal_strlit("4");
        }
        "4"
    } else if d == 5 {
        proof {
            reveal_strlit("5");
        }
        "5"
    } else if d == 6 {
        proof {
            reveal_strlit("6");
        }
        "6"
    } else if d == 7 {
        proof {
            reveal_strlit("7");
        }
        "7"
    } else if d == 8 {
        proof {
            reveal_strlit("8");
        }
        "8"
    } else {
        proof {
            reveal_strlit("9");
        }
        "9"
    }
}

fn append_digits(s: &mut String, n: u64)
    ensures
        final(s)@ == old(s)@ + nat_text(n as nat),
    decreases n,
{
    if n < 10 {
        s.append(digit_str(n));
    } else {
        append_digits(s, n / 10);
        s.append(digit_str(n % 10));
        assert(old(s)@ + nat_text(n as nat) =~= old(s)@ + nat_text((n / 10) as nat) + seq![
            digit_char((n % 10) as nat),
        ]);
    }
}

/// The decimal text of an unsigned number, as `u64::to_string` writes it.
pub fn format_u64(n: u64) -> (r: String)
    ensures
        r@ == nat_text(n as nat),
{
    let mut s = String::from_str("");
    proof {
        reveal_strlit("");
    }
    append_digits(&mut s, n);
    assert(s@ =~= nat_text(n as nat));
    s
}

/// The decimal text of a signed number, as `i32::to_string` writes it.
pub fn format_i32(n: i32) -> (r: String)
    ensures
        r@ == int_text(n as int),
{
    if n < 0 {
        let mut s = String::from_str("-");
        proof {
            reveal_strlit("-");
        }
        let m: i64 = -(n as i64);
        append_digits(&mut s, m as u64);
        assert(s@ =~= int_text(n as int));
        s
    } else {
        let s = format_u64(n as u64);
        s
    }
}

fn char_digit(c: char) -> (r: Option<u64>)
    ensures
        match digit_value(c) {
            Some(d) => r == Some(d as u64),
            None => r is None,
        },
{
    if c == '0' {
        Some(0)
    } else if c == '1' {
        Some(1)
    } else if c == '2' {
        Some(2)
    } else if c == '3' {
        Some(3)
    } else if c == '4' {
        Some(4)
    } else if c == '5' {
        Some(5)
    } else if c == '6' {
        Some(6)
    } else if c == '7' {
        Some(7)
    } else if c == '8' {
        Some(8)
    } else if c == '9' {
        Some(9)
    } else {
        None
    }
}

proof fn lemma_digits_value_grows(s: Seq<char>, d: char)
    requires
        digit_value(d) is Some,
    ensures
        digits_value(s.push(d)) == digits_value(s) * 10 + digit_value(d).unwrap(),
        digits_value(s.push(d)) >= digits_value(s),
{
    assert(s.push(d).drop_last() =~= s);
}

/// Reads the digits of `s` from `start` on, giving their value when it is at
/// most `bound`; `None` where a character is no digit, where there is none,
/// or where the value exceeds `bound`.
fn read_digits(s: &str, start: usize, bound: u64) -> (r: Option<u64>)
    requires
        start <= s@.len(),
    ensures
        ({
            let body = s@.subrange(start as int, s@.len() as int);
            match r {
                Some(v) => body.len() > 0 && all_digits(body) && v == digits_value(body) && v <= bound,
                None => body.len() == 0 || !all_digits(body) || digits_value(body) > bound,
            }
        }),
{
    let n = s.unicode_len();
    if start >= n {
        return None;
    }
    let ghost full = s@.subrange(start as int, s@.len() as int);
    let mut acc: u64 = 0;
    let mut over = false;
    let mut i = start;
    while i < n
        invariant
            n == s@.len(),
            start < n,
            start <= i <= n,
            full == s@.subrange(start as int, s@.len() as int),
            all_digits(s@.subrange(start as int, i as int)),
            !over ==> acc == digits_value(s@.subrange(start as int, i as int)) && acc <= bound,
            over ==> digits_value(s@.subrange(start as int, i as int)) > bound,
        decreases n - i,
    {
        let c = s.get_char(i);
        let ghost prefix = s@.subrange(start as int, i as int);
        assert(s@.subrange(start as int, i + 1) =~= prefix.push(c));
        match char_digit(c) {
            None => {
                assert(full[i - start] == c);
                return None;
            },
            Some(d) => {
                proof {
                    lemma_digits_value_grows(prefix, c);
                    assert forall|j: int| 0 <= j < prefix.push(c).len() implies (#[trigger] digit_value(
                        prefix.push(c)[j],
                    )) is Some by {
                        if j < prefix.len() {
                            assert(prefix.push(c)[j] == prefix[j]);
                        }
                    }
                }
                if !over {
                    if d > bound {
                        over = true;
                    } else if acc > (bound - d) / 10 {
                        assert(acc * 10 + d > bound) by (nonlinear_arith)
                            requires
                                acc > (bound - d) / 10,
                                d <= bound,
                        ;
                        over = true;
                    } else {
                        assert(acc * 10 + d <= bound) by (nonlinear_arith)
                            requires
                                acc <= (bound - d) / 10,
                                d <= 9,
                        ;
                        acc = acc * 10 + d;
                    }
                }
            },
        }
        i = i + 1;
    }
    assert(s@.subrange(start as int, n as int) =~= full);
    if over {
        None
    } else {
        Some(acc)
    }
}


/// Reads a signed decimal number the way `str::parse::<i32>` does.
pub fn parse_i32(s: &str) -> (r: Option<i32>)
    ensures
        r == parse_i32_spec(s@),
{
    let n = s.unicode_len();
    if n == 0 {
        return None;
    }
    let c = s.get_char(0);
    if c == '-' {
        assert(s@.drop_first() =~= s@.subrange(1, s@.len() as int));
        match read_digits(s, 1, 2147483648) {
            Some(m) => {
                let v: i64 = -(m as i64);
                Some(v as i32)
            },
            None => None,
        }
    } else if c == '+' {
        assert(s@.drop_first() =~= s@.subrange(1, s@.len() as int));
        match read_digits(s, 1, 2147483647) {
            Some(m) => Some(m as i32),
            None => None,
        }
    } else {
        assert(s@ =~= s@.subrange(0, s@.len() as int));
        match read_digits(s, 0, 2147483647) {
            Some(m) => Some(m as i32),
            None => None,
        }
    }
}

/// Reads an unsigned decimal number the way `str::parse::<u64>` does.
pub fn parse_u64(s: &str) -> (r: Option<u64>)
    ensures
        r == parse_u64_spec(s@),
{
    let n = s.unicode_len();
    if n == 0 {
        return None;
    }
    let c = s.get_char(0);
    if c == '-' {
        None
    } else if c == '+' {
        assert(s@.drop_first() =~= s@.subrange(1, s@.len() as int));
        read_digits(s, 1, u64::MAX)
    } else {
        assert(s@ =~= s@.subrange(0, s@.len() as int));
        read_digits(s, 0, u64::MAX)
    }
}

proof fn lemma_digit_char(d: nat)
    requires
        d < 10,
    ensures
        digit_value(digit_char(d)) == Some(d),
{
}

proof fn lemma_nat_text(n: nat)
    ensures
        nat_text(n).len() > 0,
        all_digits(nat_text(n)),
        digits_value(nat_text(n)) == n,
        nat_text(n)[0] != '-',
        nat_text(n)[0] != '+',
    decreases n,
{
    if n < 10 {
        lemma_digit_char(n);
        assert(seq![digit_char(n)].drop_last() =~= Seq::<char>::empty());
        assert(seq![digit_char(n)].last() == digit_char(n));
        assert(digits_value(Seq::<char>::empty()) == 0);
    } else {
        lemma_digit_char(n % 10);
        lemma_nat_text(n / 10);
        let t = nat_text(n / 10);
        let d = digit_char(n % 10);
        assert(t.push(d).drop_last() =~= t);
        assert(t.push(d).last() == d);
        assert(nat_text(n) == t.push(d));
        assert(digits_value(t.push(d)) == digits_value(t) * 10 + (n % 10));
        assert forall|i: int| 0 <= i < t.push(d).len() implies (#[trigger] digit_value(
            t.push(d)[i],
        )) is Some by {
            if i < t.len() {
                assert(t.push(d)[i] == t[i]);
            }
        }
    }
}

/// Reading back the text of a number gives the number.
pub proof fn lemma_parse_format_i32(n: i32)
    ensures
        parse_i32_spec(int_text(n as int)) == Some(n),
{
    if n < 0 {
        let m = (-n) as nat;
        lemma_nat_text(m);
        assert((seq!['-'] + nat_text(m)).drop_first() =~= nat_text(m));
    } else {
        lemma_nat_text(n as nat);
    }
}

/// Reading back the text of a number gives the number.
pub proof fn lemma_parse_format_u64(n: u64)
    ensures
        parse_u64_spec(nat_text(n as nat)) == Some(n),
{
    lemma_nat_text(n as nat);
}

} // verus!
