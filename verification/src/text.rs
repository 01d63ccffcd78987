//! Plain-text building blocks of the wire and log formats: splitting a line
//! into fields, and reading and writing decimal integers.
use vstd::prelude::*;

verus! {

// ---------------------------------------------------------------------------
// Splitting
// ---------------------------------------------------------------------------

/// The pieces of `s` between occurrences of `sep`, as `str::split` yields
/// them: one more piece than there are separators, empty pieces included.
pub open spec fn split_fields(s: Seq<char>, sep: char) -> Seq<Seq<char>>
    decreases s.len(),
{
    if s.len() == 0 {
        seq![Seq::<char>::empty()]
    } else {
        let rest = split_fields(s.drop_last(), sep);
        if s.last() == sep {
            rest.push(Seq::<char>::empty())
        } else {
            rest.update(rest.len() - 1, rest.last().push(s.last()))
        }
    }
}

/// `sep` does not occur in `s`.
pub open spec fn free_of(s: Seq<char>, sep: char) -> bool {
    forall|i: int| 0 <= i < s.len() ==> #[trigger] s[i] != sep
}

/// Joining two texts without `sep` gives a text without `sep`.
pub proof fn lemma_free_of_join(a: Seq<char>, b: Seq<char>, sep: char)
    requires
        free_of(a, sep),
        free_of(b, sep),
    ensures
        free_of(a + b, sep),
{
    assert forall|i: int| 0 <= i < (a + b).len() implies #[trigger] (a + b)[i] != sep by {
        if i < a.len() {
            assert((a + b)[i] == a[i]);
        } else {
            assert((a + b)[i] == b[i - a.len()]);
        }
    }
}

/// Splitting never yields an empty list of pieces.
pub proof fn lemma_split_nonempty(s: Seq<char>, sep: char)
    ensures
        split_fields(s, sep).len() >= 1,
    decreases s.len(),
{
    if s.len() > 0 {
        lemma_split_nonempty(s.drop_last(), sep);
    }
}

/// A text without the separator is a single piece.
pub proof fn lemma_split_free(s: Seq<char>, sep: char)
    requires
        free_of(s, sep),
    ensures
        split_fields(s, sep) == seq![s],
    decreases s.len(),
{
    if s.len() == 0 {
        assert(s =~= Seq::<char>::empty());
    } else {
        let p = s.drop_last();
        assert(free_of(p, sep)) by {
            assert forall|i: int| 0 <= i < p.len() implies #[trigger] p[i] != sep by {
                assert(p[i] == s[i]);
            }
        }
        lemma_split_free(p, sep);
        assert(s[s.len() - 1] != sep);
        assert(p.push(s.last()) =~= s);
        assert(split_fields(s, sep) =~= seq![s]);
    }
}

/// Splitting `x`, a separator, then `y` gives the pieces of `x` followed by
/// the pieces of `y`.
pub proof fn lemma_split_join(x: Seq<char>, y: Seq<char>, sep: char)
    ensures
        split_fields(x + seq![sep] + y, sep) == split_fields(x, sep) + split_fields(y, sep),
    decreases y.len(),
{
    let xs = x + seq![sep];
    if y.len() == 0 {
        assert(xs + y =~= xs);
        assert(xs.drop_last() =~= x);
        assert(split_fields(y, sep) =~= seq![Seq::<char>::empty()]);
        assert(split_fields(xs, sep) =~= split_fields(x, sep) + split_fields(y, sep));
    } else {
        let yp = y.drop_last();
        let c = y.last();
        lemma_split_join(x, yp, sep);
        lemma_split_nonempty(yp, sep);
        lemma_split_nonempty(x, sep);
        assert((xs + y).drop_last() =~= xs + yp);
        assert((xs + y).last() == c);
        let a = split_fields(x, sep);
        let b = split_fields(yp, sep);
        if c == sep {
            assert((a + b).push(Seq::<char>::empty()) =~= a + b.push(Seq::<char>::empty()));
        } else {
            let ab = a + b;
            assert(ab.update(ab.len() - 1, ab.last().push(c)) =~= a + b.update(
                b.len() - 1,
                b.last().push(c),
            ));
        }
    }
}

/// The character views of a list of character vectors.
pub open spec fn field_views(v: Seq<Vec<char>>) -> Seq<Seq<char>> {
    v.map_values(|f: Vec<char>| f@)
}

/// Four texts without `sep`, joined by `sep`, split back into the four.
pub proof fn lemma_split_four(a: Seq<char>, b: Seq<char>, c: Seq<char>, d: Seq<char>, sep: char)
    requires
        free_of(a, sep),
        free_of(b, sep),
        free_of(c, sep),
        free_of(d, sep),
    ensures
        split_fields(a + seq![sep] + b + seq![sep] + c + seq![sep] + d, sep) == seq![a, b, c, d],
{
    let s = seq![sep];
    lemma_split_free(a, sep);
    lemma_split_free(b, sep);
    lemma_split_free(c, sep);
    lemma_split_free(d, sep);
    lemma_split_join(c, d, sep);
    let cd = c + s + d;
    lemma_split_join(b, cd, sep);
    let bcd = b + s + cd;
    lemma_split_join(a, bcd, sep);
    assert(a + s + b + s + c + s + d =~= a + s + bcd);
    assert(split_fields(a + s + bcd, sep) =~= seq![a, b, c, d]);
}

/// The characters of a string, one by one.
pub fn chars_of(s: &String) -> (res: Vec<char>)
    ensures
        res@ == s@,
{
    let st = s.as_str();
    let n = st.unicode_len();
    let mut res: Vec<char> = Vec::new();
    let mut i: usize = 0;
    while i < n
        invariant
            n == st@.len(),
            st@ == s@,
            i <= n,
            res@ == st@.take(i as int),
        decreases n - i,
    {
        let c = st.get_char(i);
        res.push(c);
        assert(st@.take(i + 1) =~= st@.take(i as int).push(c));
        i = i + 1;
    }
    assert(st@.take(n as int) =~= st@);
    res
}

/// The pieces of `s` between occurrences of `sep`.
pub fn split_chars(s: &Vec<char>, sep: char) -> (res: Vec<Vec<char>>)
    ensures
        field_views(res@) == split_fields(s@, sep),
{
    let mut fields: Vec<Vec<char>> = Vec::new();
    let mut cur: Vec<char> = Vec::new();
    let mut i: usize = 0;
    assert(s@.take(0) =~= Seq::<char>::empty());
    assert(field_views(fields@).push(cur@) =~= split_fields(s@.take(0), sep));
    while i < s.len()
        invariant
            i <= s.len(),
            field_views(fields@).push(cur@) == split_fields(s@.take(i as int), sep),
        decreases s.len() - i,
    {
        let c = s[i];
        let ghost before = field_views(fields@);
        let ghost pre = s@.take(i as int);
        assert(s@.take(i + 1).drop_last() =~= pre);
        assert(s@.take(i + 1).last() == c);
        if c == sep {
            fields.push(cur);
            cur = Vec::new();
            assert(field_views(fields@) =~= before.push(split_fields(pre, sep).last()));
            assert(field_views(fields@).push(cur@) =~= split_fields(pre, sep).push(
                Seq::<char>::empty(),
            ));
        } else {
            cur.push(c);
            let ghost sp = split_fields(pre, sep);
            assert(sp.update(sp.len() - 1, sp.last().push(c)) =~= before.push(cur@));
        }
        i = i + 1;
    }
    assert(s@.take(s.len() as int) =~= s@);
    let ghost before = field_views(fields@);
    fields.push(cur);
    assert(field_views(fields@) =~= before.push(cur@));
    fields
}

// ---------------------------------------------------------------------------
// Decimal integers
// ---------------------------------------------------------------------------

pub open spec fn is_digit(c: char) -> bool {
    '0' <= c && c <= '9'
}

pub open spec fn digit_value(c: char) -> int {
    (c as u32) - ('0' as u32)
}

/// The digit character for a value below ten.
pub open spec fn digit_char(d: int) -> char {
    if d == 0 {
        '0'
    } else if d == 1 {
        '1'
    } else if d == 2 {
        '2'
    } else if d == 3 {
        '3'
    } else if d == 4 {
        '4'
    } else if d == 5 {
        '5'
    } else if d == 6 {
        '6'
    } else if d == 7 {
        '7'
    } else if d == 8 {
        '8'
    } else {
        '9'
    }
}

pub open spec fn all_digits(s: Seq<char>) -> bool {
    forall|i: int| 0 <= i < s.len() ==> is_digit(#[trigger] s[i])
}

/// The value of a string of decimal digits, most significant first.
pub open spec fn digits_value(s: Seq<char>) -> int
    decreases s.len(),
{
    if s.len() == 0 {
        0
    } else {
        digits_value(s.drop_last()) * 10 + digit_value(s.last())
    }
}

/// A nonempty run of decimal digits and its value.
pub open spec fn spec_parse_natural(s: Seq<char>) -> Option<int> {
    if s.len() > 0 && all_digits(s) {
        Some(digits_value(s))
    } else {
        None
    }
}

/// An integer as `str::parse` reads it: an optional `+` or `-` sign, then
/// one or more decimal digits.
pub open spec fn spec_parse_integer(s: Seq<char>) -> Option<int> {
    if s.len() > 0 && s[0] == '-' {
        match spec_parse_natural(s.drop_first()) {
            Some(v) => Some(-v),
            None => None,
        }
    } else if s.len() > 0 && s[0] == '+' {
        spec_parse_natural(s.drop_first())
    } else {
        spec_parse_natural(s)
    }
}

/// What `s.parse::<i32>()` gives back when it succeeds.
pub open spec fn spec_parse_i32(s: Seq<char>) -> Option<i32> {
    match spec_parse_integer(s) {
        Some(v) => if i32::MIN <= v && v <= i32::MAX {
            Some(v as i32)
        } else {
            None
        },
        None => None,
    }
}

/// What `s.parse::<u64>()` gives back when it succeeds: an optional `+`,
/// then one or more decimal digits, the value within range.
pub open spec fn spec_parse_u64(s: Seq<char>) -> Option<u64> {
    let body = if s.len() > 0 && s[0] == '+' {
        s.drop_first()
    } else {
        s
    };
    match spec_parse_natural(body) {
        Some(v) => if v <= u64::MAX {
            Some(v as u64)
        } else {
            None
        },
        None => None,
    }
}

/// What `s.parse::<u32>()` gives back when it succeeds.
pub open spec fn spec_parse_u32(s: Seq<char>) -> Option<u32> {
    match spec_parse_u64(s) {
        Some(v) => if v <= u32::MAX {
            Some(v as u32)
        } else {
            None
        },
        None => None,
    }
}

/// The decimal digits of a natural number, as `Display` writes them.
pub open spec fn nat_text(n: nat) -> Seq<char>
    decreases n,
{
    if n < 10 {
        seq![digit_char(n as int)]
    } else {
        nat_text(n / 10).push(digit_char((n % 10) as int))
    }
}

/// An integer as `Display` writes it.
pub open spec fn int_text(v: int) -> Seq<char> {
    if v < 0 {
        seq!['-'] + nat_text((-v) as nat)
    } else {
        nat_text(v as nat)
    }
}

pub proof fn lemma_digit_char(d: int)
    requires
        0 <= d < 10,
    ensures
        is_digit(digit_char(d)),
        digit_value(digit_char(d)) == d,
{
}

pub proof fn lemma_digits_value_nonneg(s: Seq<char>)
    requires
        all_digits(s),
    ensures
        digits_value(s) >= 0,
    decreases s.len(),
{
    if s.len() > 0 {
        let p = s.drop_last();
        assert(all_digits(p)) by {
            assert forall|i: int| 0 <= i < p.len() implies is_digit(#[trigger] p[i]) by {
                assert(p[i] == s[i]);
            }
        }
        lemma_digits_value_nonneg(p);
        assert(is_digit(s[s.len() - 1]));
    }
}

/// A prefix of a run of digits is worth no more than the whole run.
pub proof fn lemma_digits_value_prefix(s: Seq<char>, k: int)
    requires
        all_digits(s),
        0 <= k <= s.len(),
    ensures
        digits_value(s.take(k)) <= digits_value(s),
    decreases s.len(),
{
    if k == s.len() {
        assert(s.take(k) =~= s);
    } else {
        let p = s.drop_last();
        assert(all_digits(p)) by {
            assert forall|i: int| 0 <= i < p.len() implies is_digit(#[trigger] p[i]) by {
                assert(p[i] == s[i]);
            }
        }
        lemma_digits_value_prefix(p, k);
        assert(p.take(k) =~= s.take(k));
        lemma_digits_value_nonneg(p);
        assert(is_digit(s[s.len() - 1]));
    }
}

/// The digits written for `n` are digits, and they are read back as `n`.
pub proof fn lemma_nat_text(n: nat)
    ensures
        nat_text(n).len() > 0,
        all_digits(nat_text(n)),
        digits_value(nat_text(n)) == n,
    decreases n,
{
    if n < 10 {
        lemma_digit_char(n as int);
        assert(nat_text(n).drop_last() =~= Seq::<char>::empty());
        assert(digits_value(Seq::<char>::empty()) == 0);
        assert(digits_value(nat_text(n)) == digits_value(nat_text(n).drop_last()) * 10
            + digit_value(nat_text(n).last()));
    } else {
        lemma_nat_text(n / 10);
        lemma_digit_char((n % 10) as int);
        let p = nat_text(n / 10);
        let s = nat_text(n);
        assert(s.drop_last() =~= p);
        assert((n / 10) * 10 + n % 10 == n);
        assert forall|i: int| 0 <= i < s.len() implies is_digit(#[trigger] s[i]) by {
            if i < p.len() {
                assert(s[i] == p[i]);
            }
        }
    }
}

/// A digit is none of the characters that the formats use as separators.
pub proof fn lemma_digits_free_of(s: Seq<char>, sep: char)
    requires
        all_digits(s),
        !is_digit(sep),
    ensures
        free_of(s, sep),
{
    assert forall|i: int| 0 <= i < s.len() implies #[trigger] s[i] != sep by {
        assert(is_digit(s[i]));
    }
}

/// The text of an integer holds only digits and a leading minus sign.
pub proof fn lemma_int_text_free_of(v: int, sep: char)
    requires
        !is_digit(sep),
        sep != '-',
    ensures
        free_of(int_text(v), sep),
{
    if v < 0 {
        lemma_nat_text((-v) as nat);
        let t = int_text(v);
        let d = nat_text((-v) as nat);
        assert forall|i: int| 0 <= i < t.len() implies #[trigger] t[i] != sep by {
            if i > 0 {
                assert(t[i] == d[i - 1]);
                assert(is_digit(d[i - 1]));
            }
        }
    } else {
        lemma_nat_text(v as nat);
        lemma_digits_free_of(int_text(v), sep);
    }
}

/// Reading back the text of an integer gives the integer.
pub proof fn lemma_integer_roundtrip(v: int)
    ensures
        spec_parse_integer(int_text(v)) == Some(v),
{
    if v < 0 {
        let d = nat_text((-v) as nat);
        lemma_nat_text((-v) as nat);
        let t = int_text(v);
        assert(t.drop_first() =~= d);
    } else {
        lemma_nat_text(v as nat);
        let t = int_text(v);
        assert(is_digit(t[0]));
    }
}

/// Reading back the text of an `i32` gives the `i32`.
pub proof fn lemma_i32_roundtrip(v: i32)
    ensures
        spec_parse_i32(int_text(v as int)) == Some(v),
{
    lemma_integer_roundtrip(v as int);
}

/// Reading back the text of a `u64` gives the `u64`.
pub proof fn lemma_u64_roundtrip(v: u64)
    ensures
        spec_parse_u64(nat_text(v as nat)) == Some(v),
{
    lemma_nat_text(v as nat);
    assert(is_digit(nat_text(v as nat)[0]));
}

/// The value of the digits of `s` from `start` on, if they are one or more
/// digits worth at most `bound`.
fn parse_natural_bounded(s: &Vec<char>, start: usize, bound: u64) -> (res: Option<u64>)
    requires
        start <= s.len(),
    ensures
        match spec_parse_natural(s@.skip(start as int)) {
            Some(w) => if w <= bound {
                res == Some(w as u64)
            } else {
                res is None
            },
            None => res is None,
        },
        res matches Some(v) ==> v <= bound && spec_parse_natural(s@.skip(start as int)) == Some(
            v as int,
        ),
{
    if start >= s.len() {
        return None;
    }
    let ghost body = s@.skip(start as int);
    let mut acc: u128 = 0;
    let mut i: usize = start;
    assert(s@.subrange(start as int, start as int) =~= Seq::<char>::empty());
    while i < s.len()
        invariant
            start < s.len(),
            start <= i <= s.len(),
            body == s@.skip(start as int),
            all_digits(s@.subrange(start as int, i as int)),
            acc == digits_value(s@.subrange(start as int, i as int)),
            acc <= bound,
        decreases s.len() - i,
    {
        let c = s[i];
        if !('0' <= c && c <= '9') {
            assert(body[i - start] == c);
            return None;
        }
        let d: u32 = (c as u32) - ('0' as u32);
        let next: u128 = acc * 10 + (d as u128);
        let ghost pre = s@.subrange(start as int, i as int);
        let ghost post = s@.subrange(start as int, i + 1);
        assert(post.drop_last() =~= pre);
        assert(post.last() == c);
        assert(all_digits(post)) by {
            assert forall|k: int| 0 <= k < post.len() implies is_digit(#[trigger] post[k]) by {
                if k < pre.len() {
                    assert(post[k] == pre[k]);
                }
            }
        }
        if next > bound as u128 {
            proof {
                if all_digits(body) {
                    assert(body.take(i + 1 - start) =~= post);
                    lemma_digits_value_prefix(body, i + 1 - start);
                }
            }
            return None;
        }
        acc = next;
        i = i + 1;
    }
    assert(s@.subrange(start as int, s.len() as int) =~= body);
    Some(acc as u64)
}

/// Reads an `i32` as `str::parse::<i32>` does.
pub fn parse_i32(s: &Vec<char>) -> (res: Option<i32>)
    ensures
        res == spec_parse_i32(s@),
{
    if s.len() > 0 && s[0] == '-' {
        assert(s@.skip(1) =~= s@.drop_first());
        match parse_natural_bounded(s, 1, 2147483648) {
            Some(v) => {
                assert(v <= 2147483648);
                let r: i64 = -(v as i64);
                Some(r as i32)
            },
            None => None,
        }
    } else if s.len() > 0 && s[0] == '+' {
        assert(s@.skip(1) =~= s@.drop_first());
        match parse_natural_bounded(s, 1, 2147483647) {
            Some(v) => Some(v as i32),
            None => None,
        }
    } else {
        assert(s@.skip(0) =~= s@);
        match parse_natural_bounded(s, 0, 2147483647) {
            Some(v) => Some(v as i32),
            None => None,
        }
    }
}

/// Reads a `u64` as `str::parse::<u64>` does.
pub fn parse_u64(s: &Vec<char>) -> (res: Option<u64>)
    ensures
        res == spec_parse_u64(s@),
{
    if s.len() > 0 && s[0] == '+' {
        assert(s@.skip(1) =~= s@.drop_first());
        parse_natural_bounded(s, 1, 18446744073709551615)
    } else {
        assert(s@.skip(0) =~= s@);
        parse_natural_bounded(s, 0, 18446744073709551615)
    }
}

/// Reads a `u32` as `str::parse::<u32>` does.
pub fn parse_u32(s: &Vec<char>) -> (res: Option<u32>)
    ensures
        res == spec_parse_u32(s@),
{
    match parse_u64(s) {
        Some(v) => if v <= 4294967295 {
            Some(v as u32)
        } else {
            None
        },
        None => None,
    }
}

/// Appends one decimal digit.
fn push_digit(out: &mut String, d: u64)
    requires
        d < 10,
    ensures
        final(out)@ == old(out)@.push(digit_char(d as int)),
{
    if d == 0 {
        out.append("0");
        proof { reveal_strlit("0"); }
    } else if d == 1 {
        out.append("1");
        proof { reveal_strlit("1"); }
    } else if d == 2 {
        out.append("2");
        proof { reveal_strlit("2"); }
    } else if d == 3 {
        out.append("3");
        proof { reveal_strlit("3"); }
    } else if d == 4 {
        out.append("4");
        proof { reveal_strlit("4"); }
    } else if d == 5 {
        out.append("5");
        proof { reveal_strlit("5"); }
    } else if d == 6 {
        out.append("6");
        proof { reveal_strlit("6"); }
    } else if d == 7 {
        out.append("7");
        proof { reveal_strlit("7"); }
    } else if d == 8 {
        out.append("8");
        proof { reveal_strlit("8"); }
    } else {
        out.append("9");
        proof { reveal_strlit("9"); }
    }
    assert(final(out)@ =~= old(out)@.push(digit_char(d as int)));
}

/// Appends the decimal digits of `n`.
pub fn append_natural(out: &mut String, n: u64)
    ensures
        final(out)@ == old(out)@ + nat_text(n as nat),
    decreases n,
{
    if n >= 10 {
        append_natural(out, n / 10);
    }
    push_digit(out, n % 10);
    assert(final(out)@ =~= old(out)@ + nat_text(n as nat));
}

/// Appends an integer as `Display` writes it.
pub fn append_i32(out: &mut String, v: i32)
    ensures
        final(out)@ == old(out)@ + int_text(v as int),
{
    if v < 0 {
        out.append("-");
        proof { reveal_strlit("-"); }
        let m: i64 = -(v as i64);
        append_natural(out, m as u64);
    } else {
        append_natural(out, v as u64);
    }
    assert(final(out)@ =~= old(out)@ + int_text(v as int));
}

/// Appends a string.
pub fn append_string(out: &mut String, s: &String)
    ensures
        final(out)@ == old(out)@ + s@,
{
    out.append(s.as_str());
}

/// Whether two character vectors hold the same characters.
pub fn chars_equal(a: &Vec<char>, b: &Vec<char>) -> (res: bool)
    ensures
        res == (a@ == b@),
{
    if a.len() != b.len() {
        return false;
    }
    let mut i: usize = 0;
    while i < a.len()
        invariant
            a.len() == b.len(),
            i <= a.len(),
            forall|k: int| 0 <= k < i ==> a@[k] == b@[k],
        decreases a.len() - i,
    {
        if a[i] != b[i] {
            return false;
        }
        i = i + 1;
    }
    assert(a@ =~= b@);
    true
}

/// Whether a character vector reads exactly as the given text.
pub fn chars_are(v: &Vec<char>, lit: &str) -> (res: bool)
    ensures
        res == (v@ == lit@),
{
    let expected = chars_of(&String::from_str(lit));
    chars_equal(v, &expected)
}

/// Appends a literal text.
pub fn append_text(out: &mut String, lit: &str)
    ensures
        final(out)@ == old(out)@ + lit@,
{
    out.append(lit);
}

/// A string holding the given text.
pub fn text(lit: &str) -> (res: String)
    ensures
        res@ == lit@,
{
    String::from_str(lit)
}

/// An `i32` as `Display` writes it.
pub fn i32_to_string(v: i32) -> (res: String)
    ensures
        res@ == int_text(v as int),
{
    let mut out = String::new();
    append_i32(&mut out, v);
    assert(out@ =~= int_text(v as int));
    out
}

/// A `u64` as `Display` writes it.
pub fn u64_to_string(v: u64) -> (res: String)
    ensures
        res@ == nat_text(v as nat),
{
    let mut out = String::new();
    append_natural(&mut out, v);
    assert(out@ =~= nat_text(v as nat));
    out
}

} // verus!
