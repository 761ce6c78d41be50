use vstd::prelude::*;
use vstd::string::*;

verus! {

/// The characters of `s`, one element per `char`.
pub fn to_chars(s: &str) -> (r: Vec<char>)
    ensures
        r@ == s@,
{
    let n = s.unicode_len();
    let mut out: Vec<char> = Vec::new();
    let mut i: usize = 0;
    while i < n
        invariant
            i <= n,
            n == s@.len(),
            out@ == s@.take(i as int),
        decreases n - i,
    {
        out.push(s.get_char(i));
        proof {
            assert(out@ =~= s@.take(i + 1));
        }
        i += 1;
    }
    proof {
        assert(s@.take(n as int) =~= s@);
    }
    out
}

/// The string made of the characters of `v` in order (wraps
/// `String::from_iter` over `char`s).
#[verifier::external_body]
pub(crate) fn from_chars(v: &Vec<char>) -> (r: String)
    ensures
        r@ == v@,
{
    v.iter().collect()
}

/// Whether two strings hold the same characters.
pub fn same_text(a: &str, b: &str) -> (r: bool)
    ensures
        r == (a@ == b@),
{
    let x = a.to_owned();
    let y = b.to_owned();
    x == y
}

/// Content of an optional string.
pub open spec fn opt_text(o: Option<String>) -> Option<Seq<char>> {
    match o {
        Some(s) => Some(s@),
        None => None,
    }
}

/// A copy of an optional string.
pub fn clone_opt(o: &Option<String>) -> (r: Option<String>)
    ensures
        r == *o,
{
    match o {
        Some(s) => Some(s.clone()),
        None => None,
    }
}

pub open spec fn is_digit(c: char) -> bool {
    '0' <= c && c <= '9'
}

pub open spec fn digit_value(c: char) -> int {
    c as int - '0' as int
}

pub open spec fn all_digits(s: Seq<char>) -> bool {
    forall|i: int| 0 <= i < s.len() ==> is_digit(#[trigger] s[i])
}

/// Value of a run of decimal digits, most significant first.
pub open spec fn digits_value(s: Seq<char>) -> int
    decreases s.len(),
{
    if s.len() == 0 {
        0
    } else {
        digits_value(s.drop_last()) * 10 + digit_value(s.last())
    }
}

pub open spec fn pow10(n: nat) -> int
    decreases n,
{
    if n == 0 {
        1
    } else {
        10 * pow10((n - 1) as nat)
    }
}

/// The integer that a decimal literal denotes: an optional sign, then one
/// or more digits. `None` for any other text.
pub open spec fn decimal_value(s: Seq<char>) -> Option<int> {
    if s.len() > 0 && (s[0] == '-' || s[0] == '+') {
        let body = s.subrange(1, s.len() as int);
        if body.len() > 0 && all_digits(body) {
            Some(if s[0] == '-' { -digits_value(body) } else { digits_value(body) })
        } else {
            None
        }
    } else if s.len() > 0 && all_digits(s) {
        Some(digits_value(s))
    } else {
        None
    }
}

pub open spec fn parse_i64_spec(s: Seq<char>) -> Option<i64> {
    match decimal_value(s) {
        Some(v) => if i64::MIN <= v <= i64::MAX { Some(v as i64) } else { None },
        None => None,
    }
}

pub open spec fn parse_u32_spec(s: Seq<char>) -> Option<u32> {
    match decimal_value(s) {
        Some(v) => if s[0] != '-' && v <= u32::MAX { Some(v as u32) } else { None },
        None => None,
    }
}

pub proof fn lemma_digits_value_bounds(s: Seq<char>)
    requires
        all_digits(s),
    ensures
        0 <= digits_value(s) < pow10(s.len()),
    decreases s.len(),
{
    if s.len() > 0 {
        lemma_digits_value_bounds(s.drop_last());
        assert(is_digit(s.last()));
    }
}

pub proof fn lemma_pow10_monotonic(a: nat, b: nat)
    requires
        a <= b,
    ensures
        0 < pow10(a) <= pow10(b),
    decreases b,
{
    if b > 0 {
        if a < b {
            lemma_pow10_monotonic(a, (b - 1) as nat);
        } else {
            lemma_pow10_monotonic((a - 1) as nat, (b - 1) as nat);
        }
    }
}

/// Digits of `s[from..]` as a number, provided it stays at or below `limit`.
/// `None` when the run is empty, holds a non-digit, or exceeds `limit`.
pub fn parse_digits(s: &Vec<char>, from: usize, limit: u128) -> (r: Option<u128>)
    requires
        from <= s.len(),
        limit <= u64::MAX + 1,
    ensures
        r == if from < s.len() && all_digits(s@.subrange(from as int, s.len() as int))
            && digits_value(s@.subrange(from as int, s.len() as int)) <= limit {
            Some(digits_value(s@.subrange(from as int, s.len() as int)) as u128)
        } else {
            None
        },
        r matches Some(v) ==> v as int == digits_value(s@.subrange(from as int, s.len() as int)),
{
    if from >= s.len() {
        return None;
    }
    let ghost body = s@.subrange(from as int, s.len() as int);
    let mut acc: u128 = 0;
    let mut i: usize = from;
    while i < s.len()
        invariant
            from <= i <= s.len(),
            limit <= u64::MAX + 1,
            body == s@.subrange(from as int, s.len() as int),
            all_digits(body.take(i - from)),
            acc == digits_value(body.take(i - from)),
            acc <= limit,
        decreases s.len() - i,
    {
        let c: char = s[i];
        let ghost next = body.take(i - from + 1);
        proof {
            assert(next.drop_last() =~= body.take(i - from));
            assert(next.last() == c);
        }
        if c < '0' || c > '9' {
            proof {
                assert(body[i - from] == c);
                assert(!all_digits(body));
            }
            return None;
        }
        let d: u128 = (c as u32 - '0' as u32) as u128;
        let v: u128 = acc * 10 + d;
        if v > limit {
            proof {
                assert(digits_value(next) == v);
                lemma_digits_prefix_le(body, i - from + 1);
            }
            return None;
        }
        proof {
            assert forall|j: int| 0 <= j < next.len() implies is_digit(#[trigger] next[j]) by {
                if j < i - from {
                    assert(next[j] == body.take(i - from)[j]);
                }
            }
        }
        acc = v;
        i += 1;
    }
    proof {
        assert(body.take(i - from) =~= body);
    }
    Some(acc)
}

/// A prefix of a digit run never denotes more than the whole run.
pub proof fn lemma_digits_prefix_le(s: Seq<char>, n: int)
    requires
        0 <= n <= s.len(),
        all_digits(s.take(n)),
    ensures
        all_digits(s) ==> digits_value(s.take(n)) <= digits_value(s),
    decreases s.len() - n,
{
    if all_digits(s) {
        if n < s.len() {
            let m = s.take(n + 1);
            assert(m.drop_last() =~= s.take(n));
            assert forall|j: int| 0 <= j < m.len() implies is_digit(#[trigger] m[j]) by {
                assert(m[j] == s[j]);
            }
            assert(is_digit(m.last()));
            lemma_digits_value_bounds(s.take(n));
            lemma_digits_prefix_le(s, n + 1);
        } else {
            assert(s.take(n) =~= s);
        }
    }
}

/// Reads a signed decimal integer as `str::parse::<i64>` does.
pub fn parse_i64(text: &str) -> (r: Option<i64>)
    ensures
        r == parse_i64_spec(text@),
{
    let s = to_chars(text);
    if s.len() == 0 {
        return None;
    }
    let first: char = s[0];
    if first == '-' {
        match parse_digits(&s, 1, 0x8000_0000_0000_0000u128) {
            Some(v) => {
                if v == 0x8000_0000_0000_0000u128 {
                    Some(i64::MIN)
                } else {
                    Some(-(v as i64))
                }
            },
            None => None,
        }
    } else if first == '+' {
        match parse_digits(&s, 1, 0x7fff_ffff_ffff_ffffu128) {
            Some(v) => Some(v as i64),
            None => None,
        }
    } else {
        proof {
            assert(s@.subrange(0, s.len() as int) =~= s@);
        }
        match parse_digits(&s, 0, 0x7fff_ffff_ffff_ffffu128) {
            Some(v) => Some(v as i64),
            None => None,
        }
    }
}

/// Reads an unsigned decimal integer as `str::parse::<u32>` does.
pub fn parse_u32(text: &str) -> (r: Option<u32>)
    ensures
        r == parse_u32_spec(text@),
{
    let s = to_chars(text);
    if s.len() == 0 {
        return None;
    }
    let first: char = s[0];
    if first == '-' {
        None
    } else if first == '+' {
        match parse_digits(&s, 1, 0xffff_ffffu128) {
            Some(v) => Some(v as u32),
            None => None,
        }
    } else {
        proof {
            assert(s@.subrange(0, s.len() as int) =~= s@);
        }
        match parse_digits(&s, 0, 0xffff_ffffu128) {
            Some(v) => Some(v as u32),
            None => None,
        }
    }
}

/// `s` with every occurrence of `from` replaced by `to`, occurrences taken
/// from the left and never overlapping. An empty `from` leaves `s` as it is.
pub open spec fn replaced(s: Seq<char>, from: Seq<char>, to: Seq<char>) -> Seq<char>
    decreases s.len(),
{
    if from.len() == 0 || s.len() < from.len() {
        s
    } else if s.subrange(0, from.len() as int) == from {
        to + replaced(s.subrange(from.len() as int, s.len() as int), from, to)
    } else {
        seq![s[0]] + replaced(s.subrange(1, s.len() as int), from, to)
    }
}

/// Whether `from` stands in `s` at position `at`.
pub fn occurs_at(s: &Vec<char>, at: usize, from: &Vec<char>) -> (r: bool)
    requires
        at + from.len() <= s.len(),
    ensures
        r == (s@.subrange(at as int, at + from.len()) == from@),
{
    let mut j: usize = 0;
    while j < from.len()
        invariant
            j <= from.len(),
            at + from.len() <= s.len(),
            forall|k: int| 0 <= k < j ==> s@[at + k] == from@[k],
        decreases from.len() - j,
    {
        if s[at + j] != from[j] {
            proof {
                assert(s@.subrange(at as int, at + from.len())[j as int] == s@[at + j]);
            }
            return false;
        }
        j += 1;
    }
    proof {
        assert(s@.subrange(at as int, at + from.len()) =~= from@);
    }
    true
}

/// Replaces every occurrence of `from` in `s` by `to`.
pub fn replace_all(s: &Vec<char>, from: &Vec<char>, to: &Vec<char>) -> (r: Vec<char>)
    ensures
        r@ == replaced(s@, from@, to@),
{
    let mut out: Vec<char> = Vec::new();
    let mut i: usize = 0;
    proof {
        assert(s@.skip(0) =~= s@);
    }
    while i < s.len()
        invariant
            i <= s.len(),
            out@ + replaced(s@.skip(i as int), from@, to@) == replaced(s@, from@, to@),
        decreases s.len() - i,
    {
        let ghost rest = s@.skip(i as int);
        if from.len() > 0 && from.len() <= s.len() - i && occurs_at(s, i, from) {
            let mut j: usize = 0;
            let ghost base = out@;
            while j < to.len()
                invariant
                    j <= to.len(),
                    out@ == base + to@.take(j as int),
                decreases to.len() - j,
            {
                out.push(to[j]);
                proof {
                    assert(to@.take(j + 1) =~= to@.take(j as int).push(to@[j as int]));
                    assert(out@ =~= base + to@.take(j + 1));
                }
                j += 1;
            }
            proof {
                assert(to@.take(j as int) =~= to@);
                assert(rest.subrange(0, from.len() as int) =~= s@.subrange(
                    i as int,
                    i + from.len(),
                ));
                assert(rest.subrange(from.len() as int, rest.len() as int) =~= s@.skip(
                    i + from.len(),
                ));
                assert(out@ + replaced(s@.skip(i + from.len()), from@, to@) =~= base + replaced(
                    rest,
                    from@,
                    to@,
                ));
            }
            i += from.len();
        } else {
            out.push(s[i]);
            proof {
                let base = out@.drop_last();
                assert(rest.subrange(1, rest.len() as int) =~= s@.skip(i + 1));
                if from.len() > 0 && from.len() <= s.len() - i {
                    assert(rest.subrange(0, from.len() as int) =~= s@.subrange(
                        i as int,
                        i + from.len(),
                    ));
                    assert(out@ + replaced(s@.skip(i + 1), from@, to@) =~= base + replaced(
                        rest,
                        from@,
                        to@,
                    ));
                } else {
                    assert(replaced(rest, from@, to@) == rest);
                    assert(replaced(s@.skip(i + 1), from@, to@) == s@.skip(i + 1));
                    assert(out@ + s@.skip(i + 1) =~= base + rest);
                }
            }
            i += 1;
        }
    }
    proof {
        assert(s@.skip(i as int) =~= Seq::<char>::empty());
        assert(out@ + Seq::<char>::empty() =~= out@);
    }
    out
}

/// Text with the five character references of the upstream service
/// resolved, `&amp;` last.
pub open spec fn unescaped(t: Seq<char>) -> Seq<char> {
    replaced(
        replaced(
            replaced(replaced(replaced(t, "&quot;"@, "\""@), "&apos;"@, "'"@), "&lt;"@, "<"@),
            "&gt;"@,
            ">"@,
        ),
        "&amp;"@,
        "&"@,
    )
}

/// Resolves `&quot;`, `&apos;`, `&lt;`, `&gt;` and `&amp;`, in that order.
pub fn unescape(text: &str) -> (r: String)
    ensures
        r@ == unescaped(text@),
{
    let t0 = to_chars(text);
    let t1 = replace_all(&t0, &to_chars("&quot;"), &to_chars("\""));
    let t2 = replace_all(&t1, &to_chars("&apos;"), &to_chars("'"));
    let t3 = replace_all(&t2, &to_chars("&lt;"), &to_chars("<"));
    let t4 = replace_all(&t3, &to_chars("&gt;"), &to_chars(">"));
    let t5 = replace_all(&t4, &to_chars("&amp;"), &to_chars("&"));
    from_chars(&t5)
}

/// The character that writes a digit.
pub open spec fn digit_char(d: int) -> char {
    ((d + 48) as u8) as char
}

/// Decimal writing of a number, without sign or leading zeros.
pub open spec fn decimal_digits(n: nat) -> Seq<char>
    decreases n,
{
    if n < 10 {
        seq![digit_char(n as int)]
    } else {
        decimal_digits(n / 10).push(digit_char((n % 10) as int))
    }
}

/// Appends the decimal writing of `n` to `out`.
pub fn push_decimal(n: u64, out: &mut Vec<char>)
    ensures
        final(out)@ == old(out)@ + decimal_digits(n as nat),
    decreases n,
{
    if n >= 10 {
        push_decimal(n / 10, out);
    }
    let d: u8 = (n % 10) as u8;
    out.push((d + 48) as char);
    proof {
        assert(final(out)@ =~= old(out)@ + decimal_digits(n as nat));
    }
}

/// Decimal writing of `n`.
pub fn decimal_text(n: u64) -> (r: String)
    ensures
        r@ == decimal_digits(n as nat),
{
    let mut out: Vec<char> = Vec::new();
    push_decimal(n, &mut out);
    proof {
        assert(Seq::<char>::empty() + decimal_digits(n as nat) =~= decimal_digits(n as nat));
    }
    from_chars(&out)
}

/// Decimal writing of an integer: a minus sign before the digits of a
/// negative one.
pub open spec fn signed_decimal(n: int) -> Seq<char> {
    if n < 0 {
        seq!['-'] + decimal_digits((-n) as nat)
    } else {
        decimal_digits(n as nat)
    }
}

/// Decimal writing of `n`.
pub fn decimal_i64(n: i64) -> (r: String)
    ensures
        r@ == signed_decimal(n as int),
{
    let mut out: Vec<char> = Vec::new();
    if n < 0 {
        out.push('-');
        let magnitude: u64 = (-(n as i128)) as u64;
        push_decimal(magnitude, &mut out);
    } else {
        push_decimal(n as u64, &mut out);
        proof {
            assert(Seq::<char>::empty() + decimal_digits(n as nat) =~= decimal_digits(n as nat));
        }
    }
    from_chars(&out)
}

/// The decimal writing of a number is a run of digits that denotes it.
pub proof fn lemma_decimal_reads_back(n: nat)
    ensures
        decimal_digits(n).len() > 0,
        all_digits(decimal_digits(n)),
        digits_value(decimal_digits(n)) == n,
    decreases n,
{
    let s = decimal_digits(n);
    if n < 10 {
        assert(s.drop_last() =~= Seq::<char>::empty());
        assert(digits_value(s.drop_last()) == 0);
    } else {
        lemma_decimal_reads_back(n / 10);
        let head = decimal_digits(n / 10);
        assert(s.drop_last() =~= head);
        assert forall|i: int| 0 <= i < s.len() implies is_digit(#[trigger] s[i]) by {
            if i < head.len() {
                assert(s[i] == head[i]);
            }
        }
    }
}

/// What is written for a 64-bit integer reads back as that integer.
pub proof fn lemma_signed_decimal_reads_back(n: i64)
    ensures
        parse_i64_spec(signed_decimal(n as int)) == Some(n),
{
    let s = signed_decimal(n as int);
    if n < 0 {
        let body = decimal_digits((-n) as nat);
        lemma_decimal_reads_back((-n) as nat);
        assert(s.subrange(1, s.len() as int) =~= body);
    } else {
        lemma_decimal_reads_back(n as nat);
        assert(is_digit(s[0]));
    }
}

} // verus!
