//! Character-level helpers for the ASCII protocol: fields, unsigned
//! integers and one-decimal fixed-point numbers.
use vstd::prelude::*;

verus! {

pub open spec fn is_digit(c: char) -> bool {
    '0' <= c && c <= '9'
}

pub open spec fn digit_value(c: char) -> nat {
    (c as u32 - '0' as u32) as nat
}

pub open spec fn all_digits(s: Seq<char>) -> bool {
    forall|i: int| 0 <= i < s.len() ==> is_digit(#[trigger] s[i])
}

/// Decimal value of a run of digits, most significant first
pub open spec fn digits_value(s: Seq<char>) -> nat
    decreases s.len(),
{
    if s.len() == 0 {
        0
    } else {
        digits_value(s.drop_last()) * 10 + digit_value(s.last())
    }
}

/// The unsigned integer written by `s`: an optional `+` and at least one digit
pub open spec fn parse_nat(s: Seq<char>) -> Option<nat> {
    let d = if s.len() > 0 && s[0] == '+' { s.skip(1) } else { s };
    if d.len() > 0 && all_digits(d) {
        Some(digits_value(d))
    } else {
        None
    }
}

/// A fixed-point number with at most one decimal, in tenths: an unsigned
/// integer optionally followed by `.` and one digit
pub open spec fn parse_tenths(s: Seq<char>) -> Option<nat> {
    if s.len() >= 2 && s[s.len() - 2] == '.' {
        match parse_nat(s.take(s.len() - 2)) {
            Some(n) => if is_digit(s.last()) {
                Some(n * 10 + digit_value(s.last()))
            } else {
                None
            },
            None => None,
        }
    } else {
        match parse_nat(s) {
            Some(n) => Some(n * 10),
            None => None,
        }
    }
}

/// The fields of `s` between separators, empty fields included
/// (what `str::split` yields)
pub open spec fn split_on(s: Seq<char>, sep: char) -> Seq<Seq<char>>
    decreases s.len(),
{
    if s.len() == 0 {
        seq![Seq::empty()]
    } else {
        let rest = split_on(s.drop_last(), sep);
        if s.last() == sep {
            rest.push(Seq::empty())
        } else {
            rest.update(rest.len() - 1, rest.last().push(s.last()))
        }
    }
}

pub proof fn lemma_split_nonempty(s: Seq<char>, sep: char)
    ensures
        split_on(s, sep).len() >= 1,
    decreases s.len(),
{
    if s.len() > 0 {
        lemma_split_nonempty(s.drop_last(), sep);
    }
}

pub proof fn lemma_digits_prefix_le(s: Seq<char>, k: int)
    requires
        0 <= k <= s.len(),
    ensures
        digits_value(s.take(k)) <= digits_value(s),
    decreases s.len(),
{
    if k < s.len() {
        assert(s.drop_last().take(k) =~= s.take(k));
        lemma_digits_prefix_le(s.drop_last(), k);
    } else {
        assert(s.take(k) =~= s);
    }
}

/// Views of a vector of character vectors
pub open spec fn views(v: Seq<Vec<char>>) -> Seq<Seq<char>> {
    v.map_values(|x: Vec<char>| x@)
}

/// Copies the characters of a string into a vector
pub fn to_chars(s: &str) -> (r: Vec<char>)
    ensures
        r@ == s@,
{
    let n = s.unicode_len();
    let mut r: Vec<char> = Vec::new();
    let mut i: usize = 0;
    while i < n
        invariant
            n == s@.len(),
            i <= n,
            r@ == s@.take(i as int),
        decreases n - i,
    {
        r.push(s.get_char(i));
        i += 1;
    }
    assert(r@ =~= s@);
    r
}

/// Splits `s` on every `sep`, as `str::split` does
pub fn split_fields(s: &Vec<char>, sep: char) -> (r: Vec<Vec<char>>)
    ensures
        views(r@) == split_on(s@, sep),
{
    let mut done: Vec<Vec<char>> = Vec::new();
    let mut cur: Vec<char> = Vec::new();
    let mut i: usize = 0;
    while i < s.len()
        invariant
            i <= s.len(),
            views(done@).push(cur@) == split_on(s@.take(i as int), sep),
        decreases s.len() - i,
    {
        let c = s[i];
        proof {
            assert(s@.take(i + 1).drop_last() =~= s@.take(i as int));
            lemma_split_nonempty(s@.take(i as int), sep);
        }
        if c == sep {
            let ghost old_done = done@;
            let finished = cur;
            done.push(finished);
            cur = Vec::new();
            assert(views(done@) =~= views(old_done).push(finished@));
            assert(views(done@).push(cur@) =~= views(old_done).push(finished@).push(Seq::empty()));
        } else {
            cur.push(c);
            assert(views(done@).push(cur@) =~= split_on(s@.take(i + 1), sep));
        }
        i += 1;
    }
    assert(s@.take(s.len() as int) =~= s@);
    let ghost before = done@;
    done.push(cur);
    assert(views(done@) =~= views(before).push(cur@));
    done
}

/// Parses the digits `s[start..end]` as an unsigned integer no greater than `max`
pub fn parse_uint(s: &Vec<char>, max: u64) -> (r: Option<u64>)
    requires
        max <= u32::MAX,
    ensures
        r == (match parse_nat(s@) {
            Some(n) => if n <= max { Some(n as u64) } else { None },
            None => None,
        }),
{
    let start: usize = if s.len() > 0 && s[0] == '+' { 1 } else { 0 };
    let ghost d = if s@.len() > 0 && s@[0] == '+' { s@.skip(1) } else { s@ };
    assert(d =~= s@.skip(start as int));
    assert(parse_nat(s@) == (if d.len() > 0 && all_digits(d) { Some(digits_value(d)) } else { None }));
    if start >= s.len() {
        return None;
    }
    let mut value: u64 = 0;
    let mut i: usize = start;
    while i < s.len()
        invariant
            start <= i <= s.len(),
            start < s.len(),
            d == s@.skip(start as int),
            parse_nat(s@) == (if d.len() > 0 && all_digits(d) { Some(digits_value(d)) } else { None }),
            max <= u32::MAX,
            value <= max,
            all_digits(s@.subrange(start as int, i as int)),
            value == digits_value(s@.subrange(start as int, i as int)),
        decreases s.len() - i,
    {
        let c = s[i];
        if c < '0' || c > '9' {
            assert(d[i - start] == c);
            assert(!is_digit(d[i - start]));
            assert(!all_digits(d));
            return None;
        }
        let ghost prefix = s@.subrange(start as int, i + 1);
        assert(prefix.drop_last() =~= s@.subrange(start as int, i as int));
        assert(prefix.last() == c);
        assert(digits_value(prefix) == value * 10 + digit_value(c));
        let v = value * 10 + (c as u32 - '0' as u32) as u64;
        i += 1;
        if v > max {
            proof {
                if all_digits(d) {
                    assert(prefix =~= d.take(i - start));
                    lemma_digits_prefix_le(d, i - start);
                    assert(digits_value(d) > max);
                }
            }
            return None;
        }
        value = v;
    }
    assert(s@.subrange(start as int, s.len() as int) =~= d);
    Some(value)
}

/// The first `n` characters of `s`
pub fn take_chars(s: &Vec<char>, n: usize) -> (r: Vec<char>)
    requires
        n <= s.len(),
    ensures
        r@ == s@.take(n as int),
{
    let mut r: Vec<char> = Vec::new();
    let mut i: usize = 0;
    while i < n
        invariant
            i <= n <= s.len(),
            r@ == s@.take(i as int),
        decreases n - i,
    {
        r.push(s[i]);
        i += 1;
        assert(r@ =~= s@.take(i as int));
    }
    r
}

/// Largest value whose tenths still fit in a `u32`
const TENTHS_INT_MAX: u64 = 429496729;

/// Parses a fixed-point number with at most one decimal into tenths
pub fn parse_decimal_tenths(s: &Vec<char>) -> (r: Option<u32>)
    ensures
        r == (match parse_tenths(s@) {
            Some(n) => if n <= u32::MAX { Some(n as u32) } else { None },
            None => None,
        }),
{
    let n = s.len();
    if n >= 2 && s[n - 2] == '.' {
        let whole = take_chars(s, n - 2);
        let last = s[n - 1];
        match parse_uint(&whole, TENTHS_INT_MAX) {
            Some(w) => {
                if last < '0' || last > '9' {
                    return None;
                }
                let v: u64 = w * 10 + (last as u32 - '0' as u32) as u64;
                if v > u32::MAX as u64 {
                    return None;
                }
                Some(v as u32)
            },
            None => {
                proof {
                    if let Some(k) = parse_nat(whole@) {
                        assert(k > TENTHS_INT_MAX);
                    }
                }
                None
            },
        }
    } else {
        match parse_uint(s, TENTHS_INT_MAX) {
            Some(w) => Some((w * 10) as u32),
            None => None,
        }
    }
}

pub open spec fn digit_char(d: nat) -> char {
    if d == 0 { '0' } else if d == 1 { '1' } else if d == 2 { '2' } else if d == 3 { '3' }
    else if d == 4 { '4' } else if d == 5 { '5' } else if d == 6 { '6' } else if d == 7 { '7' }
    else if d == 8 { '8' } else { '9' }
}

/// Decimal digits of `n`, without leading zeros
pub open spec fn digits_of(n: nat) -> Seq<char>
    decreases n,
{
    if n < 10 {
        seq![digit_char(n)]
    } else {
        digits_of(n / 10).push(digit_char(n % 10))
    }
}

/// `s` preceded by zeros up to `width` characters
pub open spec fn zero_padded(s: Seq<char>, width: nat) -> Seq<char> {
    if s.len() >= width {
        s
    } else {
        Seq::new((width - s.len()) as nat, |i: int| '0') + s
    }
}

/// A tenths count written with one decimal (`2371` is `237.1`)
pub open spec fn tenths_text(t: nat) -> Seq<char> {
    digits_of(t / 10).push('.').push(digit_char(t % 10))
}

/// The one-character string of digit `d`
pub fn digit_str(d: u64) -> (r: &'static str)
    requires
        d < 10,
    ensures
        r@ == seq![digit_char(d as nat)],
{
    proof {
        reveal_strlit("0");
        reveal_strlit("1");
        reveal_strlit("2");
        reveal_strlit("3");
        reveal_strlit("4");
        reveal_strlit("5");
        reveal_strlit("6");
        reveal_strlit("7");
        reveal_strlit("8");
        reveal_strlit("9");
    }
    let r = if d == 0 { "0" } else if d == 1 { "1" } else if d == 2 { "2" } else if d == 3 { "3" }
    else if d == 4 { "4" } else if d == 5 { "5" } else if d == 6 { "6" } else if d == 7 { "7" }
    else if d == 8 { "8" } else { "9" };
    assert(r@ =~= seq![digit_char(d as nat)]);
    r
}

/// Appends the decimal digits of `n`
pub fn push_digits(out: &mut String, n: u64)
    ensures
        final(out)@ == old(out)@ + digits_of(n as nat),
    decreases n,
{
    if n < 10 {
        out.append(digit_str(n));
    } else {
        push_digits(out, n / 10);
        out.append(digit_str(n % 10));
        assert(digits_of(n as nat) == digits_of((n / 10) as nat).push(digit_char((n % 10) as nat)));
        assert(final(out)@ =~= old(out)@ + digits_of(n as nat));
    }
}

/// Appends `n` zero-padded to `width` digits
pub fn push_padded(out: &mut String, n: u64, width: usize)
    ensures
        final(out)@ == old(out)@ + zero_padded(digits_of(n as nat), width as nat),
{
    let mut digits = String::new();
    push_digits(&mut digits, n);
    assert(digits@ =~= digits_of(n as nat));
    let len = digits.as_str().unicode_len();
    let ghost start = out@;
    if len < width {
        let mut k: usize = 0;
        while k < width - len
            invariant
                len < width,
                k <= width - len,
                out@ == start + Seq::new(k as nat, |i: int| '0'),
            decreases width - len - k,
        {
            out.append("0");
            proof {
                reveal_strlit("0");
            }
            k += 1;
            assert(out@ =~= start + Seq::new(k as nat, |i: int| '0'));
        }
    }
    out.append(digits.as_str());
    assert(final(out)@ =~= start + zero_padded(digits_of(n as nat), width as nat));
}

/// Appends a tenths count with one decimal
pub fn push_tenths(out: &mut String, t: u64)
    ensures
        final(out)@ == old(out)@ + tenths_text(t as nat),
{
    push_digits(out, t / 10);
    out.append(".");
    proof {
        reveal_strlit(".");
    }
    out.append(digit_str(t % 10));
    assert(final(out)@ =~= old(out)@ + tenths_text(t as nat));
}

proof fn lemma_digit_char(d: nat)
    requires
        d < 10,
    ensures
        is_digit(digit_char(d)),
        digit_value(digit_char(d)) == d,
        digit_char(d) != '+',
        digit_char(d) != ' ',
        digit_char(d) != '.',
{
}

/// The digits of `n` read back as `n`
pub proof fn lemma_digits_of(n: nat)
    ensures
        digits_of(n).len() > 0,
        all_digits(digits_of(n)),
        digits_value(digits_of(n)) == n,
        !digits_of(n).contains(' '),
        digits_of(n)[0] != '+',
    decreases n,
{
    lemma_digit_char(n % 10);
    if n < 10 {
        lemma_digit_char(n);
        assert(digits_of(n).drop_last() =~= Seq::<char>::empty());
        assert(digits_value(digits_of(n).drop_last()) == 0);
        assert(digits_of(n).last() == digit_char(n));
        assert(!digits_of(n).contains(' ')) by {
            if digits_of(n).contains(' ') {
                let k = choose|k: int| 0 <= k < digits_of(n).len() && digits_of(n)[k] == ' ';
            }
        }
    } else {
        lemma_digits_of(n / 10);
        let d = digits_of(n / 10);
        let s = digits_of(n);
        assert(s.drop_last() =~= d);
        assert(s.last() == digit_char(n % 10));
        assert(digits_value(s) == digits_value(d) * 10 + digit_value(digit_char(n % 10)));
        assert((n / 10) * 10 + n % 10 == n);
        assert(all_digits(s)) by {
            assert forall|i: int| 0 <= i < s.len() implies is_digit(#[trigger] s[i]) by {
                if i < d.len() {
                    assert(s[i] == d[i]);
                }
            }
        }
        assert(!s.contains(' ')) by {
            if s.contains(' ') {
                let k = choose|k: int| 0 <= k < s.len() && s[k] == ' ';
                if k < d.len() {
                    assert(d[k] == ' ');
                }
            }
        }
        assert(s[0] == d[0]);
    }
}

pub proof fn lemma_parse_digits(n: nat)
    ensures
        parse_nat(digits_of(n)) == Some(n),
{
    lemma_digits_of(n);
}

pub proof fn lemma_parse_tenths_text(t: nat)
    ensures
        parse_tenths(tenths_text(t)) == Some(t),
        !tenths_text(t).contains(' '),
{
    let d = digits_of(t / 10);
    let s = tenths_text(t);
    lemma_digits_of(t / 10);
    lemma_digit_char(t % 10);
    assert(s.take(s.len() - 2) =~= d);
    assert(s[s.len() - 2] == '.');
    assert(s.last() == digit_char(t % 10));
    assert((t / 10) * 10 + t % 10 == t);
    assert(!s.contains(' ')) by {
        if s.contains(' ') {
            let k = choose|k: int| 0 <= k < s.len() && s[k] == ' ';
            if k < d.len() {
                assert(d[k] == ' ');
                assert(d.contains(' '));
            }
        }
    }
}

/// A field without separators splits into itself
pub proof fn lemma_split_single(a: Seq<char>, sep: char)
    requires
        !a.contains(sep),
    ensures
        split_on(a, sep) == seq![a],
    decreases a.len(),
{
    if a.len() > 0 {
        let d = a.drop_last();
        assert(!d.contains(sep)) by {
            if d.contains(sep) {
                let k = choose|k: int| 0 <= k < d.len() && d[k] == sep;
                assert(a[k] == sep);
            }
        }
        lemma_split_single(d, sep);
        assert(a[a.len() - 1] != sep);
        assert(d.push(a.last()) =~= a);
        assert(seq![d].update(0, d.push(a.last())) =~= seq![a]);
    } else {
        assert(a =~= Seq::<char>::empty());
    }
}

/// Splitting at a separator splits each side
pub proof fn lemma_split_concat(a: Seq<char>, b: Seq<char>, sep: char)
    ensures
        split_on(a + seq![sep] + b, sep) == split_on(a, sep) + split_on(b, sep),
    decreases b.len(),
{
    let s = a + seq![sep] + b;
    if b.len() == 0 {
        assert(s.drop_last() =~= a);
        assert(s.last() == sep);
        assert(split_on(a, sep).push(Seq::empty()) =~= split_on(a, sep) + split_on(b, sep));
    } else {
        let bd = b.drop_last();
        lemma_split_concat(a, bd, sep);
        assert(s.drop_last() =~= a + seq![sep] + bd);
        assert(s.last() == b.last());
        lemma_split_nonempty(bd, sep);
        let x = split_on(a, sep);
        let y = split_on(bd, sep);
        if b.last() == sep {
            assert((x + y).push(Seq::empty()) =~= x + y.push(Seq::empty()));
        } else {
            assert((x + y).last() == y.last());
            assert((x + y).update((x + y).len() - 1, y.last().push(b.last()))
                =~= x + y.update(y.len() - 1, y.last().push(b.last())));
        }
    }
}

} // verus!
