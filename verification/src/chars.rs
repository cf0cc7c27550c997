//! Character and string helpers shared across the crate: conversions between
//! `String` and `Vec<char>`, substring search and replacement, splitting and
//! joining on a separator, and decimal formatting and parsing.

use vstd::prelude::*;

verus! {

/// Whether `c` is an ASCII decimal digit.
pub open spec fn spec_is_digit(c: char) -> bool {
    '0' <= c && c <= '9'
}

/// The numeric value of an ASCII decimal digit.
pub open spec fn digit_val(c: char) -> nat {
    (c as nat - '0' as nat) as nat
}

/// The ASCII digit character for a value below ten.
pub open spec fn digit_char(d: nat) -> char
    recommends
        d < 10,
{
    (('0' as nat + d) as u32) as char
}

/// The decimal digit string of `n`, most significant digit first.
pub open spec fn spec_digits(n: nat) -> Seq<char>
    decreases n,
{
    if n < 10 {
        seq![digit_char(n)]
    } else {
        spec_digits(n / 10).push(digit_char(n % 10))
    }
}

/// The decimal string of the integer `i`, with a leading `-` when negative.
pub open spec fn spec_int_str(i: int) -> Seq<char> {
    if i < 0 {
        seq!['-'] + spec_digits((-i) as nat)
    } else {
        spec_digits(i as nat)
    }
}

/// The value of a digit string, most significant digit first.
pub open spec fn digits_val(s: Seq<char>) -> nat
    decreases s.len(),
{
    if s.len() == 0 {
        0
    } else {
        digits_val(s.drop_last()) * 10 + digit_val(s.last())
    }
}

/// Whether every character of `s` is an ASCII decimal digit.
pub open spec fn all_digits(s: Seq<char>) -> bool {
    forall|i: int| 0 <= i < s.len() ==> spec_is_digit(#[trigger] s[i])
}

/// Executable check matching `spec_is_digit`.
pub fn is_digit(c: char) -> (r: bool)
    ensures
        r == spec_is_digit(c),
{
    '0' <= c && c <= '9'
}

/// Relies on `String::push`: appends one character to the string.
#[verifier::external_body]
fn push_char(s: &mut String, c: char)
    ensures
        final(s)@ == old(s)@.push(c),
{
    s.push(c);
}

/// The characters of `s`, in order, as a vector.
pub fn to_chars(s: &str) -> (r: Vec<char>)
    ensures
        r@ == s@,
{
    let n = s.unicode_len();
    let mut r: Vec<char> = Vec::new();
    let mut i: usize = 0;
    while i < n
        invariant
            n == s@.len(),
            i <= n,
            r@ =~= s@.subrange(0, i as int),
        decreases n - i,
    {
        r.push(s.get_char(i));
        i = i + 1;
    }
    assert(r@ =~= s@);
    r
}

/// The string holding exactly the characters of `v`, in order.
pub fn from_chars(v: &Vec<char>) -> (r: String)
    ensures
        r@ == v@,
{
    let mut r = String::new();
    let mut i: usize = 0;
    while i < v.len()
        invariant
            i <= v@.len(),
            r@ =~= v@.subrange(0, i as int),
        decreases v@.len() - i,
    {
        push_char(&mut r, v[i]);
        i = i + 1;
    }
    assert(r@ =~= v@);
    r
}

/// Character-for-character equality of two strings.
pub fn str_eq(a: &str, b: &str) -> (r: bool)
    ensures
        r == (a@ == b@),
{
    let na = a.unicode_len();
    let nb = b.unicode_len();
    if na != nb {
        assert(a@ != b@);
        return false;
    }
    let mut i: usize = 0;
    while i < na
        invariant
            na == a@.len(),
            na == b@.len(),
            i <= na,
            forall|j: int| 0 <= j < i ==> a@[j] == b@[j],
        decreases na - i,
    {
        if a.get_char(i) != b.get_char(i) {
            assert(a@ != b@);
            return false;
        }
        i = i + 1;
    }
    assert(a@ =~= b@);
    true
}

/// Whether `p` is a prefix of `s`.
pub open spec fn spec_starts_with(s: Seq<char>, p: Seq<char>) -> bool {
    p.len() <= s.len() && s.subrange(0, p.len() as int) == p
}

/// Whether the characters of `needle` occur in `hay` starting at `at`.
fn matches_at(hay: &Vec<char>, at: usize, needle: &Vec<char>) -> (r: bool)
    requires
        at <= hay@.len(),
    ensures
        r == (at + needle@.len() <= hay@.len() && hay@.subrange(
            at as int,
            at + needle@.len(),
        ) == needle@),
{
    let hn = hay.len();
    if needle.len() > hn - at {
        return false;
    }
    let mut i: usize = 0;
    while i < needle.len()
        invariant
            hn == hay@.len(),
            at + needle@.len() <= hn,
            i <= needle@.len(),
            forall|j: int| 0 <= j < i ==> hay@[at + j] == needle@[j],
        decreases needle@.len() - i,
    {
        if hay[at + i] != needle[i] {
            assert(hay@.subrange(at as int, at + needle@.len())[i as int] != needle@[i as int]);
            return false;
        }
        i = i + 1;
    }
    assert(hay@.subrange(at as int, at + needle@.len()) =~= needle@);
    true
}

/// Executable prefix test matching `spec_starts_with`.
pub fn starts_with(s: &str, p: &str) -> (r: bool)
    ensures
        r == spec_starts_with(s@, p@),
{
    let sv = to_chars(s);
    let pv = to_chars(p);
    matches_at(&sv, 0, &pv)
}

/// The result of replacing, left to right, every non-overlapping occurrence
/// of `from` in `s` with `to`.
pub open spec fn spec_replace(s: Seq<char>, from: Seq<char>, to: Seq<char>) -> Seq<char>
    decreases s.len(),
    when from.len() > 0
{
    if s.len() < from.len() {
        s
    } else if s.subrange(0, from.len() as int) == from {
        to + spec_replace(s.skip(from.len() as int), from, to)
    } else {
        seq![s[0]] + spec_replace(s.skip(1), from, to)
    }
}

/// Replacement over character vectors; the exec mirror of `spec_replace`.
fn replace_chars(s: &Vec<char>, from: &Vec<char>, to: &Vec<char>) -> (r: Vec<char>)
    requires
        from@.len() > 0,
    ensures
        r@ == spec_replace(s@, from@, to@),
{
    let mut out: Vec<char> = Vec::new();
    let mut i: usize = 0;
    assert(s@.skip(0) =~= s@);
    while i < s.len()
        invariant
            from@.len() > 0,
            i <= s@.len(),
            spec_replace(s@, from@, to@) =~= out@ + spec_replace(s@.skip(i as int), from@, to@),
        decreases s@.len() - i,
    {
        let ghost rest = s@.skip(i as int);
        let ghost old_out = out@;
        if matches_at(s, i, from) {
            assert(rest.subrange(0, from@.len() as int) =~= s@.subrange(
                i as int,
                i + from@.len(),
            ));
            let mut k: usize = 0;
            while k < to.len()
                invariant
                    k <= to@.len(),
                    out@ =~= old_out + to@.subrange(0, k as int),
                decreases to@.len() - k,
            {
                out.push(to[k]);
                k = k + 1;
            }
            i = i + from.len();
            assert(rest.skip(from@.len() as int) =~= s@.skip(i as int));
            assert(out@ =~= old_out + to@);
        } else {
            assert(!(rest.len() >= from@.len() && rest.subrange(0, from@.len() as int) == from@))
                by {
                if rest.len() >= from@.len() {
                    assert(rest.subrange(0, from@.len() as int) =~= s@.subrange(
                        i as int,
                        i + from@.len(),
                    ));
                }
            };
            out.push(s[i]);
            i = i + 1;
            assert(rest.skip(1) =~= s@.skip(i as int));
        }
    }
    assert(s@.skip(i as int) =~= Seq::<char>::empty());
    assert(out@ =~= out@ + spec_replace(s@.skip(i as int), from@, to@));
    out
}

/// String replacement: every non-overlapping occurrence of `from` becomes `to`.
pub fn replace_all(s: &str, from: &str, to: &str) -> (r: String)
    requires
        from@.len() > 0,
    ensures
        r@ == spec_replace(s@, from@, to@),
{
    let sv = to_chars(s);
    let fv = to_chars(from);
    let tv = to_chars(to);
    let rv = replace_chars(&sv, &fv, &tv);
    from_chars(&rv)
}

/// Splitting helper: the tokens of `s` under separator `sep`, where `cur`
/// holds the partial token read so far.
pub open spec fn split_rec(s: Seq<char>, sep: char, cur: Seq<char>) -> Seq<Seq<char>>
    decreases s.len(),
{
    if s.len() == 0 {
        seq![cur]
    } else if s[0] == sep {
        seq![cur] + split_rec(s.drop_first(), sep, Seq::empty())
    } else {
        split_rec(s.drop_first(), sep, cur.push(s[0]))
    }
}

/// The tokens of `s` separated by `sep`; an empty string yields one empty token.
pub open spec fn spec_split(s: Seq<char>, sep: char) -> Seq<Seq<char>> {
    split_rec(s, sep, Seq::empty())
}

/// Splits `s` on `sep`, matching `spec_split`.
pub fn split_str(s: &str, sep: char) -> (r: Vec<String>)
    ensures
        r.deep_view() == spec_split(s@, sep),
{
    let sv = to_chars(s);
    let mut out: Vec<String> = Vec::new();
    let mut cur: Vec<char> = Vec::new();
    let mut i: usize = 0;
    proof {
        assert(sv@.skip(0) =~= sv@);
        assert(out.deep_view() =~= Seq::<Seq<char>>::empty());
        assert(cur@ =~= Seq::<char>::empty());
    }
    while i < sv.len()
        invariant
            sv@ == s@,
            i <= sv@.len(),
            spec_split(s@, sep) =~= out.deep_view() + split_rec(sv@.skip(i as int), sep, cur@),
        decreases sv@.len() - i,
    {
        let ghost rest = sv@.skip(i as int);
        assert(rest[0] == sv@[i as int]);
        if sv[i] == sep {
            out.push(from_chars(&cur));
            cur = Vec::new();
        } else {
            cur.push(sv[i]);
        }
        i = i + 1;
        assert(rest.drop_first() =~= sv@.skip(i as int));
    }
    assert(sv@.skip(i as int) =~= Seq::<char>::empty());
    out.push(from_chars(&cur));
    assert(out.deep_view() =~= spec_split(s@, sep));
    out
}

/// The concatenation of `parts` with `sep` between consecutive parts.
pub open spec fn spec_join(parts: Seq<Seq<char>>, sep: Seq<char>) -> Seq<char>
    decreases parts.len(),
{
    if parts.len() == 0 {
        Seq::empty()
    } else if parts.len() == 1 {
        parts[0]
    } else {
        parts[0] + sep + spec_join(parts.drop_first(), sep)
    }
}

/// Joins `parts` with separator `sep`, matching `spec_join`.
pub fn join_strs(parts: &Vec<String>, sep: &str) -> (r: String)
    ensures
        r@ == spec_join(parts.deep_view(), sep@),
{
    let mut out = String::new();
    let ghost dv = parts.deep_view();
    let mut i: usize = 0;
    while i < parts.len()
        invariant
            dv == parts.deep_view(),
            dv.len() == parts@.len(),
            i <= parts@.len(),
            out@ == spec_join(dv.subrange(0, i as int), sep@),
        decreases parts@.len() - i,
    {
        proof {
            assert(dv[i as int] == parts@[i as int].view());
        }
        if i > 0 {
            out.append(sep);
        }
        out.append(parts[i].as_str());
        proof {
            lemma_join_snoc(dv.subrange(0, i as int), dv[i as int], sep@);
            assert(dv.subrange(0, i as int).push(dv[i as int]) =~= dv.subrange(0, i as int + 1));
        }
        i = i + 1;
    }
    assert(dv.subrange(0, i as int) =~= dv);
    out
}

/// Appending one more part to a join adds a separator and that part.
pub proof fn lemma_join_snoc(parts: Seq<Seq<char>>, x: Seq<char>, sep: Seq<char>)
    ensures
        parts.len() == 0 ==> spec_join(parts.push(x), sep) == x,
        parts.len() > 0 ==> spec_join(parts.push(x), sep) == spec_join(parts, sep) + sep + x,
    decreases parts.len(),
{
    let p = parts.push(x);
    if parts.len() == 0 {
        assert(p.len() == 1);
        assert(p[0] == x);
    } else {
        assert(p.len() >= 2);
        assert(p[0] == parts[0]);
        assert(p.drop_first() =~= parts.drop_first().push(x));
        lemma_join_snoc(parts.drop_first(), x, sep);
        if parts.len() == 1 {
            assert(parts.drop_first().len() == 0);
            assert(spec_join(p, sep) == parts[0] + sep + spec_join(p.drop_first(), sep));
            assert(spec_join(p.drop_first(), sep) == x);
            assert(spec_join(parts, sep) == parts[0]);
        } else {
            assert(spec_join(p, sep) == p[0] + sep + spec_join(p.drop_first(), sep));
            assert(spec_join(parts, sep) == parts[0] + sep + spec_join(parts.drop_first(), sep));
            assert(spec_join(p, sep) =~= spec_join(parts, sep) + sep + x);
        }
    }
}

/// The decimal string of `n`, matching `spec_digits`.
pub fn u64_to_string(n: u64) -> (r: String)
    ensures
        r@ == spec_digits(n as nat),
    decreases n,
{
    if n < 10 {
        let c = ((48 + n) as u8) as char;
        let mut s = String::new();
        push_char(&mut s, c);
        assert(s@ =~= seq![digit_char(n as nat)]);
        s
    } else {
        let mut s = u64_to_string(n / 10);
        let c = ((48 + n % 10) as u8) as char;
        push_char(&mut s, c);
        assert(c == digit_char((n % 10) as nat));
        s
    }
}

/// The decimal string of `i`, matching `spec_int_str`.
pub fn i64_to_string(i: i64) -> (r: String)
    ensures
        r@ == spec_int_str(i as int),
{
    if i >= 0 {
        u64_to_string(i as u64)
    } else {
        let mag: u64 = if i == i64::MIN {
            9223372036854775808u64
        } else {
            (-i) as u64
        };
        assert(mag as nat == (-(i as int)) as nat);
        let digits = u64_to_string(mag);
        let mut s = String::new();
        push_char(&mut s, '-');
        let r = s.concat(digits.as_str());
        assert(r@ =~= seq!['-'] + spec_digits(mag as nat));
        r
    }
}

/// A run of `n` zero characters.
pub open spec fn zeros(n: nat) -> Seq<char> {
    Seq::new(n, |i: int| '0')
}

/// `n` in decimal, left-padded with zeros to at least four characters.
pub open spec fn spec_pad4(n: nat) -> Seq<char> {
    let d = spec_digits(n);
    if d.len() >= 4 {
        d
    } else {
        zeros((4 - d.len()) as nat) + d
    }
}

/// Formats `n` with at least four digits, zero-padded, matching `spec_pad4`.
pub fn u32_to_padded4(n: u32) -> (r: String)
    ensures
        r@ == spec_pad4(n as nat),
{
    let digits = u64_to_string(n as u64);
    let len = digits.as_str().unicode_len();
    if len >= 4 {
        assert(digits@ =~= spec_pad4(n as nat));
        digits
    } else {
        let mut s = String::new();
        let mut k: usize = 0;
        while k < 4 - len
            invariant
                len == spec_digits(n as nat).len(),
                len < 4,
                k <= 4 - len,
                s@ =~= zeros(k as nat),
            decreases 4 - len - k,
        {
            push_char(&mut s, '0');
            assert(s@ =~= zeros(k as nat).push('0'));
            assert(zeros(k as nat).push('0') =~= zeros((k + 1) as nat));
            k = k + 1;
        }
        let r = s.concat(digits.as_str());
        assert(r@ =~= spec_pad4(n as nat));
        r
    }
}

/// Decoding the digit string of `n` gives back `n`.
pub proof fn lemma_digits_val_digits(n: nat)
    ensures
        digits_val(spec_digits(n)) == n,
    decreases n,
{
    if n < 10 {
        assert(spec_digits(n) == seq![digit_char(n)]);
        assert(spec_digits(n).drop_last() =~= Seq::<char>::empty());
        assert(digits_val(Seq::<char>::empty()) == 0);
        assert(digits_val(spec_digits(n)) == 0 * 10 + digit_val(spec_digits(n).last()));
        assert(spec_digits(n).last() == digit_char(n));
        assert(digit_val(digit_char(n)) == n);
    } else {
        lemma_digits_val_digits(n / 10);
        let d = spec_digits(n);
        assert(d.drop_last() =~= spec_digits(n / 10));
        assert(d.last() == digit_char(n % 10));
        assert(digit_val(digit_char(n % 10)) == n % 10);
        assert((n / 10) * 10 + n % 10 == n) by (nonlinear_arith);
    }
}

/// A run of zeros has value zero.
proof fn lemma_digits_val_zeros(k: nat)
    ensures
        digits_val(zeros(k)) == 0,
    decreases k,
{
    if k > 0 {
        assert(zeros(k).drop_last() =~= zeros((k - 1) as nat));
        assert(zeros(k).last() == '0');
        assert(digit_val('0') == 0);
        lemma_digits_val_zeros((k - 1) as nat);
    }
}

/// Leading zeros do not change a digit string's value.
proof fn lemma_digits_val_zeros_prepend(k: nat, d: Seq<char>)
    ensures
        digits_val(zeros(k) + d) == digits_val(d),
    decreases d.len(),
{
    if d.len() == 0 {
        assert(zeros(k) + d =~= zeros(k));
        lemma_digits_val_zeros(k);
    } else {
        assert((zeros(k) + d).drop_last() =~= zeros(k) + d.drop_last());
        assert((zeros(k) + d).last() == d.last());
        lemma_digits_val_zeros_prepend(k, d.drop_last());
    }
}

/// The zero-padded form still decodes to its value, so padding is injective.
pub proof fn lemma_pad4_value(n: nat)
    ensures
        digits_val(spec_pad4(n)) == n,
{
    lemma_digits_val_digits(n);
    let d = spec_digits(n);
    if d.len() < 4 {
        lemma_digits_val_zeros_prepend((4 - d.len()) as nat, d);
    }
}

/// Distinct values have distinct zero-padded forms.
pub proof fn lemma_pad4_injective(a: nat, b: nat)
    requires
        a != b,
    ensures
        spec_pad4(a) != spec_pad4(b),
{
    lemma_pad4_value(a);
    lemma_pad4_value(b);
}

/// A digit string's value only grows as more digits are appended.
proof fn lemma_digits_val_prefix_le(s: Seq<char>, k: int)
    requires
        0 <= k <= s.len(),
    ensures
        digits_val(s.subrange(0, k)) <= digits_val(s),
    decreases s.len() - k,
{
    if k == s.len() {
        assert(s.subrange(0, k) =~= s);
    } else {
        lemma_digits_val_prefix_le(s, k + 1);
        let p = s.subrange(0, k + 1);
        assert(p.drop_last() =~= s.subrange(0, k));
        assert(digits_val(p) == digits_val(s.subrange(0, k)) * 10 + digit_val(p.last()));
        assert(digits_val(s.subrange(0, k)) <= digits_val(s.subrange(0, k)) * 10) by (
        nonlinear_arith);
    }
}

/// Whether `s` is a decimal integer literal within the range of `i64`.
pub open spec fn valid_i64_literal(s: Seq<char>) -> bool {
    if s.len() == 0 {
        false
    } else if s[0] == '-' {
        s.len() > 1 && all_digits(s.skip(1)) && digits_val(s.skip(1)) <= 0x8000000000000000
    } else {
        all_digits(s) && digits_val(s) <= 0x7fffffffffffffff
    }
}

/// The value of a valid decimal integer literal.
pub open spec fn i64_literal_val(s: Seq<char>) -> int
    recommends
        valid_i64_literal(s),
{
    if s.len() > 0 && s[0] == '-' {
        -(digits_val(s.skip(1)) as int)
    } else {
        digits_val(s) as int
    }
}

/// Accumulates the value of the digit string `d`, or reports that it
/// exceeds `limit`.
fn digits_to_u64(d: &Vec<char>, limit: u64) -> (r: Option<u64>)
    requires
        limit >= 9,
    ensures
        match r {
            Some(v) => all_digits(d@) && d@.len() > 0 && v == digits_val(d@) && v <= limit,
            None => d@.len() == 0 || !all_digits(d@) || digits_val(d@) > limit,
        },
{
    if d.len() == 0 {
        return None;
    }
    let mut acc: u64 = 0;
    let mut i: usize = 0;
    assert(d@.subrange(0, 0) =~= Seq::<char>::empty());
    while i < d.len()
        invariant
            limit >= 9,
            i <= d@.len(),
            acc == digits_val(d@.subrange(0, i as int)),
            acc <= limit,
            all_digits(d@.subrange(0, i as int)),
        decreases d@.len() - i,
    {
        let c = d[i];
        if !is_digit(c) {
            return None;
        }
        let dv: u64 = (c as u32 as u64) - 48;
        assert(dv == digit_val(c));
        assert(dv <= 9);
        if acc > (limit - dv) / 10 {
            proof {
                let p = d@.subrange(0, i as int + 1);
                assert(p.drop_last() =~= d@.subrange(0, i as int));
                assert(p.last() == c);
                assert(digits_val(p) == acc * 10 + dv);
                assert(acc * 10 + dv > limit) by (nonlinear_arith)
                    requires
                        acc > (limit - dv) / 10,
                        dv <= 9,
                        limit >= dv,
                ;
                lemma_digits_val_prefix_le(d@, i + 1);
            }
            return None;
        }
        proof {
            assert(acc * 10 + dv <= limit) by (nonlinear_arith)
                requires
                    acc <= (limit - dv) / 10,
                    dv <= 9,
                    limit >= dv,
            ;
            let p = d@.subrange(0, i as int + 1);
            assert(p.drop_last() =~= d@.subrange(0, i as int));
            assert(p.last() == c);
        }
        acc = acc * 10 + dv;
        i = i + 1;
    }
    assert(d@.subrange(0, i as int) =~= d@);
    Some(acc)
}

/// Parses a decimal integer literal, with an optional leading minus sign,
/// exactly when `s` is a valid `i64` literal.
pub fn parse_i64(s: &str) -> (r: Option<i64>)
    ensures
        valid_i64_literal(s@) ==> r == Some(i64_literal_val(s@) as i64),
        !valid_i64_literal(s@) ==> r is None,
{
    let v = to_chars(s);
    if v.len() == 0 {
        return None;
    }
    if v[0] == '-' {
        let mut digits: Vec<char> = Vec::new();
        let mut i: usize = 1;
        while i < v.len()
            invariant
                1 <= i <= v@.len(),
                digits@ =~= v@.subrange(1, i as int),
            decreases v@.len() - i,
        {
            digits.push(v[i]);
            i = i + 1;
        }
        assert(digits@ =~= v@.skip(1));
        match digits_to_u64(&digits, 9223372036854775808u64) {
            Some(mag) => {
                let r: i64 = if mag == 9223372036854775808u64 {
                    i64::MIN
                } else {
                    -(mag as i64)
                };
                assert(r as int == -(digits_val(v@.skip(1)) as int));
                Some(r)
            },
            None => None,
        }
    } else {
        match digits_to_u64(&v, 9223372036854775807u64) {
            Some(mag) => Some(mag as i64),
            None => None,
        }
    }
}

/// A split always yields at least one token.
pub proof fn lemma_split_rec_nonempty(s: Seq<char>, sep: char, cur: Seq<char>)
    ensures
        split_rec(s, sep, cur).len() >= 1,
    decreases s.len(),
{
    if s.len() > 0 {
        if s[0] == sep {
            lemma_split_rec_nonempty(s.drop_first(), sep, Seq::empty());
        } else {
            lemma_split_rec_nonempty(s.drop_first(), sep, cur.push(s[0]));
        }
    }
}

/// Whether `sub` occurs contiguously in `s`.
pub open spec fn spec_contains_sub(s: Seq<char>, sub: Seq<char>) -> bool {
    exists|i: int| 0 <= i <= s.len() - sub.len() && #[trigger] s.subrange(i, i + sub.len()) == sub
}

/// Substring search, matching `spec_contains_sub`.
pub fn contains_sub(s: &str, sub: &str) -> (r: bool)
    ensures
        r == spec_contains_sub(s@, sub@),
{
    let sv = to_chars(s);
    let pv = to_chars(sub);
    if pv.len() == 0 {
        proof {
            assert(s@.subrange(0, 0 + sub@.len() as int) =~= sub@);
            assert(spec_contains_sub(s@, sub@));
        }
        return true;
    }
    if pv.len() > sv.len() {
        return false;
    }
    let mut i: usize = 0;
    while i <= sv.len() - pv.len()
        invariant
            sv@ == s@,
            pv@ == sub@,
            1 <= pv@.len() <= sv@.len(),
            i <= sv@.len() - pv@.len() + 1,
            forall|j: int| 0 <= j < i ==> #[trigger] s@.subrange(j, j + sub@.len()) != sub@,
        decreases sv@.len() - pv@.len() + 1 - i,
    {
        if matches_at(&sv, i, &pv) {
            return true;
        }
        i = i + 1;
    }
    false
}

/// Whether one of the strings in `v` reads `k`.
pub fn list_contains(v: &Vec<String>, k: &str) -> (r: bool)
    ensures
        r == v@.map(|i: int, s: String| s@).contains(k@),
{
    let ghost mapped = v@.map(|i: int, s: String| s@);
    let mut i: usize = 0;
    while i < v.len()
        invariant
            mapped == v@.map(|i: int, s: String| s@),
            i <= v@.len(),
            forall|j: int| 0 <= j < i ==> v@[j]@ != k@,
        decreases v@.len() - i,
    {
        if str_eq(v[i].as_str(), k) {
            assert(mapped[i as int] == k@);
            assert(mapped.contains(k@));
            return true;
        }
        i = i + 1;
    }
    assert forall|j: int| 0 <= j < mapped.len() implies mapped[j] != k@ by {
        assert(mapped[j] == v@[j]@);
    }
    assert(!mapped.contains(k@));
    false
}

/// The last meaningful segment of a split path: trailing empty segments and
/// current-directory dots are passed over; nothing is left of a path made
/// only of those.
pub open spec fn spec_last_component(segs: Seq<Seq<char>>) -> Option<Seq<char>>
    decreases segs.len(),
{
    if segs.len() == 0 {
        None
    } else if segs.last().len() == 0 || segs.last() == "."@ {
        spec_last_component(segs.drop_last())
    } else {
        Some(segs.last())
    }
}

/// Finds the last meaningful segment, matching `spec_last_component`.
pub fn last_component(segs: &Vec<String>) -> (r: Option<String>)
    ensures
        match r {
            Some(c) => spec_last_component(segs.deep_view()) == Some(c@),
            None => spec_last_component(segs.deep_view()) is None,
        },
{
    let ghost sv = segs.deep_view();
    proof {
        assert(sv.len() == segs@.len());
        assert(sv.subrange(0, sv.len() as int) =~= sv);
    }
    let mut i: usize = segs.len();
    while i > 0
        invariant
            sv == segs.deep_view(),
            sv.len() == segs@.len(),
            i <= segs@.len(),
            spec_last_component(sv) == spec_last_component(sv.subrange(0, i as int)),
        decreases i,
    {
        proof {
            assert(sv[i - 1] == segs@[i - 1]@);
            assert(sv.subrange(0, i as int).last() == sv[i - 1]);
            assert(sv.subrange(0, i as int).drop_last() =~= sv.subrange(0, i as int - 1));
        }
        let cand = &segs[i - 1];
        if cand.as_str().unicode_len() == 0 || str_eq(cand.as_str(), ".") {
            i = i - 1;
        } else {
            return Some(cand.clone());
        }
    }
    proof {
        assert(sv.subrange(0, 0) =~= Seq::<Seq<char>>::empty());
    }
    None
}

/// What `str::to_lowercase` returns: a function of the characters alone.
pub uninterp spec fn lower_of(s: Seq<char>) -> Seq<char>;

/// Relies on `str::to_lowercase`: the Unicode lowercase form of the string,
/// which depends on its characters alone; an empty string stays empty.
#[verifier::external_body]
pub fn lowercase(s: &str) -> (r: String)
    ensures
        r@ == lower_of(s@),
        s@.len() == 0 ==> r@.len() == 0,
{
    s.to_lowercase()
}

} // verus!
