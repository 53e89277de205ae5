//! String helpers: splitting a path into segments, and converting 64-bit
//! integers to and from their decimal text form.
//!
//! The spec functions here are the vocabulary the route contracts are written
//! in; the exec functions are proved against them.

use vstd::prelude::*;

verus! {

/// The decimal value of a digit character, meaningful when `is_digit_char` holds.
pub open spec fn digit_val(c: char) -> int {
    c as int - 48
}

/// Whether `c` is an ASCII decimal digit.
pub open spec fn is_digit_char(c: char) -> bool {
    48 <= c as int <= 57
}

/// Whether `s` is one or more decimal digits and nothing else.
pub open spec fn all_digits(s: Seq<char>) -> bool {
    s.len() > 0 && forall|i: int| 0 <= i < s.len() ==> is_digit_char(#[trigger] s[i])
}

/// The value of a digit string, most significant digit first.
pub open spec fn digits_val(s: Seq<char>) -> int
    decreases s.len(),
{
    if s.len() == 0 {
        0
    } else {
        digits_val(s.drop_last()) * 10 + digit_val(s.last())
    }
}

/// The digit character for a value in `0..10`.
pub open spec fn digit_char_of(d: int) -> char {
    if d == 0 { '0' }
    else if d == 1 { '1' }
    else if d == 2 { '2' }
    else if d == 3 { '3' }
    else if d == 4 { '4' }
    else if d == 5 { '5' }
    else if d == 6 { '6' }
    else if d == 7 { '7' }
    else if d == 8 { '8' }
    else if d == 9 { '9' }
    else { ' ' }
}

/// The decimal text of a non-negative integer, without sign or padding.
pub open spec fn dec_str_of(n: int) -> Seq<char>
    decreases n,
{
    if n < 10 {
        seq![digit_char_of(n)]
    } else {
        dec_str_of(n / 10) + seq![digit_char_of(n % 10)]
    }
}

/// The decimal text of an `i64`, with a leading `-` when negative.
pub open spec fn i64_str(n: i64) -> Seq<char> {
    if n < 0 {
        seq!['-'] + dec_str_of(-(n as int))
    } else {
        dec_str_of(n as int)
    }
}

/// What `str::parse::<i64>` returns on `s`: an optional sign followed by one
/// or more digits, with the value in range; anything else is `None`.
pub open spec fn parse_i64_spec(s: Seq<char>) -> Option<i64> {
    if s.len() > 0 && (s[0] == '+' || s[0] == '-') {
        let mag = s.drop_first();
        if all_digits(mag) {
            let v = if s[0] == '-' { -digits_val(mag) } else { digits_val(mag) };
            if i64::MIN <= v <= i64::MAX { Some(v as i64) } else { None }
        } else {
            None
        }
    } else {
        if all_digits(s) {
            if digits_val(s) <= i64::MAX { Some(digits_val(s) as i64) } else { None }
        } else {
            None
        }
    }
}

/// The segments of `s` between occurrences of `c`: always one more segment
/// than there are occurrences, so the result is never empty.
pub open spec fn split_on(s: Seq<char>, c: char) -> Seq<Seq<char>>
    decreases s.len(),
{
    if s.len() == 0 {
        seq![Seq::<char>::empty()]
    } else if s[0] == c {
        seq![Seq::<char>::empty()] + split_on(s.drop_first(), c)
    } else {
        let rest = split_on(s.drop_first(), c);
        seq![seq![s[0]] + rest[0]] + rest.drop_first()
    }
}

pub proof fn lemma_split_on_len(s: Seq<char>, c: char)
    ensures
        split_on(s, c).len() >= 1,
    decreases s.len(),
{
    if s.len() == 0 {
    } else if s[0] == c {
        lemma_split_on_len(s.drop_first(), c);
    } else {
        lemma_split_on_len(s.drop_first(), c);
    }
}

/// Splitting a string that does not contain the separator yields that string alone.
pub proof fn lemma_split_on_absent(s: Seq<char>, c: char)
    requires
        forall|i: int| 0 <= i < s.len() ==> s[i] != c,
    ensures
        split_on(s, c) =~~= seq![s],
    decreases s.len(),
{
    if s.len() == 0 {
        assert(split_on(s, c) =~~= seq![s]);
    } else {
        lemma_split_on_absent(s.drop_first(), c);
        assert(seq![s[0]] + s.drop_first() =~= s);
    }
}

/// Splitting at the first separator: the part before it becomes the first
/// segment, and the rest is split on its own.
pub proof fn lemma_split_on_concat(a: Seq<char>, b: Seq<char>, c: char)
    requires
        forall|i: int| 0 <= i < a.len() ==> a[i] != c,
    ensures
        split_on(a + seq![c] + b, c) =~~= seq![a] + split_on(b, c),
    decreases a.len(),
{
    if a.len() == 0 {
        assert(a + seq![c] + b =~= seq![c] + b);
        assert((seq![c] + b)[0] == c);
        assert((seq![c] + b).drop_first() =~= b);
    } else {
        let s = a + seq![c] + b;
        assert(s[0] == a[0]);
        assert(s[0] != c);
        assert(s.drop_first() =~= a.drop_first() + seq![c] + b);
        assert(forall|i: int| 0 <= i < a.drop_first().len() ==> a.drop_first()[i] != c);
        lemma_split_on_concat(a.drop_first(), b, c);
        let rest = split_on(s.drop_first(), c);
        lemma_split_on_len(b, c);
        assert(rest[0] == a.drop_first());
        assert(seq![s[0]] + rest[0] =~= a);
        assert(rest.drop_first() =~= split_on(b, c));
    }
}

/// The index of the first occurrence of `c` in `s`, or `-1` when absent.
pub open spec fn find_char(s: Seq<char>, c: char) -> int
    decreases s.len(),
{
    if s.len() == 0 {
        -1
    } else if s[0] == c {
        0
    } else {
        let r = find_char(s.drop_first(), c);
        if r < 0 { -1 } else { r + 1 }
    }
}

pub proof fn lemma_find_char_absent(s: Seq<char>, c: char)
    requires
        forall|i: int| 0 <= i < s.len() ==> s[i] != c,
    ensures
        find_char(s, c) == -1,
    decreases s.len(),
{
    if s.len() > 0 {
        lemma_find_char_absent(s.drop_first(), c);
    }
}

pub proof fn lemma_find_char_first(s: Seq<char>, c: char, i: int)
    requires
        0 <= i < s.len(),
        s[i] == c,
        forall|j: int| 0 <= j < i ==> s[j] != c,
    ensures
        find_char(s, c) == i,
    decreases s.len(),
{
    if i > 0 {
        lemma_find_char_first(s.drop_first(), c, i - 1);
    }
}

/// The first separator in `a + [c] + b` sits right after `a` when `a` is free of it.
pub proof fn lemma_find_char_concat(a: Seq<char>, b: Seq<char>, c: char)
    requires
        forall|i: int| 0 <= i < a.len() ==> a[i] != c,
    ensures
        find_char(a + seq![c] + b, c) == a.len(),
{
    let s = a + seq![c] + b;
    assert(s[a.len() as int] == c);
    assert(forall|j: int| 0 <= j < a.len() ==> s[j] == a[j]);
    lemma_find_char_first(s, c, a.len() as int);
}

/// The index of the first occurrence of `c` in `s`, if any.
pub fn find_char_str(s: &str, c: char) -> (r: Option<usize>)
    ensures
        match r {
            Some(i) => find_char(s@, c) == i && i < s@.len(),
            None => find_char(s@, c) == -1,
        },
{
    let len = s.unicode_len();
    let mut i: usize = 0;
    while i < len
        invariant
            0 <= i <= len,
            len == s@.len(),
            forall|j: int| 0 <= j < i ==> s@[j] != c,
        decreases len - i,
    {
        if s.get_char(i) == c {
            proof {
                lemma_find_char_first(s@, c, i as int);
            }
            return Some(i);
        }
        i = i + 1;
    }
    proof {
        lemma_find_char_absent(s@, c);
    }
    None
}

/// Compare two string slices character by character.
pub fn str_eq(a: &str, b: &str) -> (r: bool)
    ensures
        r == (a@ == b@),
{
    let alen = a.unicode_len();
    let blen = b.unicode_len();
    if alen != blen {
        assert(a@ != b@) by {
            assert(a@.len() != b@.len());
        }
        return false;
    }
    let mut i: usize = 0;
    while i < alen
        invariant
            0 <= i <= alen,
            alen == a@.len(),
            alen == b@.len(),
            forall|j: int| 0 <= j < i ==> a@[j] == b@[j],
        decreases alen - i,
    {
        if a.get_char(i) != b.get_char(i) {
            assert(a@[i as int] != b@[i as int]);
            return false;
        }
        i = i + 1;
    }
    proof {
        assert(a@ =~= b@);
    }
    true
}

/// Whether `p` is a prefix of `s`, character by character.
pub fn str_has_prefix(s: &str, p: &str) -> (r: bool)
    ensures
        r == p@.is_prefix_of(s@),
{
    let slen = s.unicode_len();
    let plen = p.unicode_len();
    if plen > slen {
        assert(!p@.is_prefix_of(s@)) by {
            assert(p@.len() > s@.len());
        }
        return false;
    }
    let mut i: usize = 0;
    while i < plen
        invariant
            0 <= i <= plen,
            plen == p@.len(),
            slen == s@.len(),
            plen <= slen,
            forall|j: int| 0 <= j < i ==> p@[j] == s@[j],
        decreases plen - i,
    {
        if s.get_char(i) != p.get_char(i) {
            assert(p@[i as int] != s@[i as int]);
            assert(!p@.is_prefix_of(s@)) by {
                if p@.is_prefix_of(s@) {
                    assert(p@ =~= s@.subrange(0, p@.len() as int));
                    assert(p@[i as int] == s@[i as int]);
                }
            }
            return false;
        }
        i = i + 1;
    }
    proof {
        assert(p@ =~= s@.subrange(0, p@.len() as int));
    }
    true
}

/// Split `s` into the segments between occurrences of `c`.
pub fn split_str(s: &str, c: char) -> (r: Vec<String>)
    ensures
        r@.map_values(|t: String| t@) =~~= split_on(s@, c),
        r@.len() >= 1,
{
    let len = s.unicode_len();
    let mut r: Vec<String> = Vec::new();
    let mut start: usize = 0;
    let mut i: usize = 0;
    proof {
        assert(s@.skip(0) =~= s@);
        assert(r@.map_values(|t: String| t@) =~~= Seq::<Seq<char>>::empty());
    }
    while i < len
        invariant
            0 <= start <= i <= len,
            len == s@.len(),
            forall|j: int| start <= j < i ==> s@[j] != c,
            split_on(s@, c) =~~= r@.map_values(|t: String| t@) + split_on(s@.skip(start as int), c),
        decreases len - i,
    {
        let ch = s.get_char(i);
        if ch == c {
            let seg = String::from_str(s.substring_char(start, i));
            proof {
                let a = s@.subrange(start as int, i as int);
                let b = s@.skip(i as int + 1);
                assert(s@.skip(start as int) =~= a + seq![c] + b);
                lemma_split_on_concat(a, b, c);
                let f = |t: String| t@;
                assert((r@.push(seg)).map_values(f) =~~= r@.map_values(f) + seq![seg@]);
            }
            r.push(seg);
            start = i + 1;
        }
        i = i + 1;
    }
    let seg = String::from_str(s.substring_char(start, len));
    proof {
        let tail = s@.skip(start as int);
        assert(seg@ =~= tail);
        lemma_split_on_absent(tail, c);
        let f = |t: String| t@;
        assert((r@.push(seg)).map_values(f) =~~= r@.map_values(f) + seq![seg@]);
        assert(r@.map_values(f) + split_on(tail, c) =~~= r@.map_values(f) + seq![tail]);
    }
    r.push(seg);
    r
}

/// The value of a digit string only grows as digits are appended.
pub proof fn lemma_digits_val_nonneg(s: Seq<char>)
    requires
        forall|i: int| 0 <= i < s.len() ==> is_digit_char(#[trigger] s[i]),
    ensures
        digits_val(s) >= 0,
    decreases s.len(),
{
    if s.len() > 0 {
        lemma_digits_val_nonneg(s.drop_last());
    }
}

pub proof fn lemma_digits_val_prefix_le(s: Seq<char>, k: int)
    requires
        forall|i: int| 0 <= i < s.len() ==> is_digit_char(#[trigger] s[i]),
        0 <= k <= s.len(),
    ensures
        digits_val(s.take(k)) <= digits_val(s),
    decreases s.len() - k,
{
    if k == s.len() {
        assert(s.take(k) =~= s);
    } else {
        lemma_digits_val_prefix_le(s, k + 1);
        let t = s.take(k + 1);
        assert(t.drop_last() =~= s.take(k));
        assert(t.last() == s[k]);
        lemma_digits_val_nonneg(s.take(k));
        assert(digits_val(s.take(k)) <= digits_val(s.take(k)) * 10 + digit_val(s[k]));
    }
}

/// Parse an `i64` from decimal text, as `str::parse::<i64>` does.
pub fn parse_i64(s: &str) -> (r: Option<i64>)
    ensures
        r == parse_i64_spec(s@),
{
    let len = s.unicode_len();
    if len == 0 {
        return None;
    }
    let c0 = s.get_char(0);
    let neg = c0 == '-';
    let start: usize = if c0 == '-' || c0 == '+' { 1 } else { 0 };
    if start == len {
        return None;
    }
    let ghost mag = s@.skip(start as int);
    let mut acc: i64 = 0;
    let mut i: usize = start;
    while i < len
        invariant
            start <= i <= len,
            len == s@.len(),
            start < len,
            start <= 1,
            mag == s@.skip(start as int),
            neg ==> s@[0] == '-',
            !neg && start == 1 ==> s@[0] == '+',
            start == 0 ==> s@[0] != '-' && s@[0] != '+',
            forall|j: int| 0 <= j < i - start ==> is_digit_char(#[trigger] mag[j]),
            neg ==> acc == -digits_val(mag.take(i - start)),
            !neg ==> acc == digits_val(mag.take(i - start)),
        decreases len - i,
    {
        let c = s.get_char(i);
        let cv = c as u32;
        if cv < 48 || cv > 57 {
            proof {
                assert(mag[i - start] == s@[i as int]);
                assert(!is_digit_char(mag[i - start]));
                assert(!all_digits(mag));
                if start == 1 {
                    assert(s@.drop_first() =~= mag);
                } else {
                    assert(mag =~= s@);
                }
            }
            return None;
        }
        let d = (cv - 48) as i64;
        let ghost prefix = mag.take(i - start);
        let ghost prefix2 = mag.take(i + 1 - start);
        proof {
            assert(prefix2.drop_last() =~= prefix);
            assert(prefix2.last() == mag[i - start]);
            assert(digit_val(mag[i - start]) == d);
        }
        let step = match acc.checked_mul(10) {
            Some(x) => x,
            None => {
                proof {
                    lemma_digits_val_nonneg(prefix);
                    assert(digits_val(prefix2) == digits_val(prefix) * 10 + d);
                    lemma_parse_overflow(s@, mag, neg, start as int, i + 1 - start);
                }
                return None;
            },
        };
        let next = if neg { step.checked_sub(d) } else { step.checked_add(d) };
        acc = match next {
            Some(x) => x,
            None => {
                proof {
                    lemma_digits_val_nonneg(prefix);
                    assert(digits_val(prefix2) == digits_val(prefix) * 10 + d);
                    lemma_parse_overflow(s@, mag, neg, start as int, i + 1 - start);
                }
                return None;
            },
        };
        i = i + 1;
    }
    proof {
        assert(mag.take(len - start) =~= mag);
        assert(all_digits(mag));
        if start == 0 {
            assert(mag =~= s@);
            assert(all_digits(s@));
            assert(parse_i64_spec(s@) == Some(acc));
        } else {
            assert(s@.drop_first() =~= mag);
        }
    }
    Some(acc)
}

/// When the running value leaves the `i64` range, the whole string parses to `None`.
proof fn lemma_parse_overflow(s: Seq<char>, mag: Seq<char>, neg: bool, start: int, k: int)
    requires
        0 <= start < s.len(),
        start == 0 || start == 1,
        mag == s.skip(start),
        neg ==> s[0] == '-',
        !neg && start == 1 ==> s[0] == '+',
        start == 0 ==> s[0] != '-' && s[0] != '+',
        0 < k <= mag.len(),
        forall|j: int| 0 <= j < k ==> is_digit_char(#[trigger] mag[j]),
        neg ==> -digits_val(mag.take(k)) < i64::MIN,
        !neg ==> digits_val(mag.take(k)) > i64::MAX,
    ensures
        parse_i64_spec(s) == None::<i64>,
{
    if all_digits(mag) {
        lemma_digits_val_prefix_le(mag, k);
    }
    if start == 1 {
        assert(s.drop_first() =~= mag);
    } else {
        assert(mag =~= s);
    }
}

/// Append the digit character for `d` to `s`.
fn push_digit(s: &mut String, d: u64)
    requires
        d < 10,
    ensures
        final(s)@ == old(s)@ + seq![digit_char_of(d as int)],
{
    proof {
        reveal_strlit("0");
        reveal_strlit("1");
        reveal_strlit("2");
        reveal_strlit("3");
        reveal_strlit("4");
        reveal_strlit("5");
        reveal_strlit("6");
        reveal_strlit("7");
        reveal_strlit("8");
        reveal_strlit("9");
    }
    if d == 0 { s.append("0"); assert(final(s)@ =~= old(s)@ + seq![digit_char_of(d as int)]); }
    else if d == 1 { s.append("1"); assert(final(s)@ =~= old(s)@ + seq![digit_char_of(d as int)]); }
    else if d == 2 { s.append("2"); assert(final(s)@ =~= old(s)@ + seq![digit_char_of(d as int)]); }
    else if d == 3 { s.append("3"); assert(final(s)@ =~= old(s)@ + seq![digit_char_of(d as int)]); }
    else if d == 4 { s.append("4"); assert(final(s)@ =~= old(s)@ + seq![digit_char_of(d as int)]); }
    else if d == 5 { s.append("5"); assert(final(s)@ =~= old(s)@ + seq![digit_char_of(d as int)]); }
    else if d == 6 { s.append("6"); assert(final(s)@ =~= old(s)@ + seq![digit_char_of(d as int)]); }
    else if d == 7 { s.append("7"); assert(final(s)@ =~= old(s)@ + seq![digit_char_of(d as int)]); }
    else if d == 8 { s.append("8"); assert(final(s)@ =~= old(s)@ + seq![digit_char_of(d as int)]); }
    else { s.append("9"); assert(final(s)@ =~= old(s)@ + seq![digit_char_of(d as int)]); }
}

/// Append the decimal text of `n` to `s`.
fn append_u64_dec(s: &mut String, n: u64)
    ensures
        final(s)@ == old(s)@ + dec_str_of(n as int),
    decreases n,
{
    if n < 10 {
        push_digit(s, n);
    } else {
        append_u64_dec(s, n / 10);
        push_digit(s, n % 10);
        assert(final(s)@ =~= old(s)@ + dec_str_of(n as int)) by {
            assert(dec_str_of(n as int) == dec_str_of(n as int / 10) + seq![digit_char_of(n as int % 10)]);
        }
    }
}

/// The decimal text of an `i64`, as `format!("{}", n)` writes it.
pub fn i64_to_string(n: i64) -> (r: String)
    ensures
        r@ == i64_str(n),
{
    let mut s = String::new();
    if n >= 0 {
        append_u64_dec(&mut s, n as u64);
        assert(s@ =~= i64_str(n));
    } else {
        proof {
            reveal_strlit("-");
        }
        s.append("-");
        assert(s@ =~= seq!['-']);
        let m: u64 = (-(n + 1)) as u64 + 1;
        assert(m as int == -(n as int));
        append_u64_dec(&mut s, m);
        assert(s@ =~= i64_str(n));
    }
    s
}

/// Every character of `dec_str_of(n)` is a digit, and reading the digits back
/// gives `n`.
pub proof fn lemma_dec_str_of(n: int)
    requires
        n >= 0,
    ensures
        all_digits(dec_str_of(n)),
        digits_val(dec_str_of(n)) == n,
    decreases n,
{
    if n < 10 {
        let s1 = seq![digit_char_of(n)];
        assert(dec_str_of(n) == s1);
        assert(is_digit_char(digit_char_of(n)));
        assert(s1.last() == digit_char_of(n));
        assert(s1.drop_last() =~= Seq::<char>::empty());
        assert(digits_val(s1.drop_last()) == 0);
        assert(digits_val(s1) == digits_val(s1.drop_last()) * 10 + digit_val(s1.last()));
        assert(digit_val(digit_char_of(n)) == n);
    } else {
        lemma_dec_str_of(n / 10);
        let s = dec_str_of(n);
        let h = dec_str_of(n / 10);
        assert(s == h + seq![digit_char_of(n % 10)]);
        assert(forall|i: int| 0 <= i < s.len() ==> is_digit_char(#[trigger] s[i])) by {
            assert(forall|i: int| 0 <= i < h.len() ==> s[i] == h[i]);
            assert(s[s.len() - 1] == digit_char_of(n % 10));
        }
        assert(s.drop_last() =~= h);
        assert(digits_val(s) == digits_val(h) * 10 + digit_val(digit_char_of(n % 10)));
    }
}

/// Printing an `i64` and parsing the text back returns the same value.
pub proof fn lemma_parse_i64_str(n: i64)
    ensures
        parse_i64_spec(i64_str(n)) == Some(n),
{
    if n >= 0 {
        lemma_dec_str_of(n as int);
        let s = i64_str(n);
        assert(s == dec_str_of(n as int));
        assert(s.len() > 0);
        assert(is_digit_char(s[0]));
        assert(s[0] != '+' && s[0] != '-');
    } else {
        lemma_dec_str_of(-(n as int));
        let s = i64_str(n);
        let mag = dec_str_of(-(n as int));
        assert(s == seq!['-'] + mag);
        assert(s[0] == '-');
        assert(s.drop_first() =~= mag);
        assert(-digits_val(mag) == n as int);
    }
}

/// The digits of a non-negative number contain neither `/` nor `-`.
pub proof fn lemma_dec_str_chars(n: int)
    requires
        n >= 0,
    ensures
        forall|i: int| 0 <= i < dec_str_of(n).len() ==> dec_str_of(n)[i] != '/' && dec_str_of(n)[i] != '-',
{
    lemma_dec_str_of(n);
    assert(forall|i: int| 0 <= i < dec_str_of(n).len() ==> is_digit_char(#[trigger] dec_str_of(n)[i]));
    assert('/' as int == 47);
    assert('-' as int == 45);
}

/// The text of an `i64` contains no `/`.
pub proof fn lemma_i64_str_no_slash(n: i64)
    ensures
        forall|i: int| 0 <= i < i64_str(n).len() ==> i64_str(n)[i] != '/',
{
    if n >= 0 {
        lemma_dec_str_chars(n as int);
    } else {
        lemma_dec_str_chars(-(n as int));
        assert('-' as int == 45);
        assert('/' as int == 47);
        let s = i64_str(n);
        let mag = dec_str_of(-(n as int));
        assert(forall|i: int| 0 <= i < s.len() ==> s[i] != '/') by {
            assert(s[0] == '-');
            assert(forall|i: int| 1 <= i < s.len() ==> s[i] == mag[i - 1]);
        }
    }
}

} // verus!
