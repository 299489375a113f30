//! Text handling shared by the parsers: splitting, prefix tests, decimal
//! numbers and the line clean-up of answers.
use vstd::prelude::*;

verus! {

broadcast use vstd::string::group_string_axioms;

/// The views of a sequence of owned strings.
pub open spec fn string_views(v: Seq<String>) -> Seq<Seq<char>> {
    v.map_values(|x: String| x@)
}

/// The views of a sequence of borrowed strings.
pub open spec fn str_views<'a>(v: Seq<&'a str>) -> Seq<Seq<char>> {
    v.map_values(|x: &'a str| x@)
}

/// `s` begins with `prefix`.
pub open spec fn has_prefix(s: Seq<char>, prefix: Seq<char>) -> bool {
    prefix.len() <= s.len() && s.subrange(0, prefix.len() as int) == prefix
}

/// The pieces of `s` between the occurrences of `sep`, in order: one more
/// piece than there are separators, empty pieces included.
pub open spec fn split(s: Seq<char>, sep: char) -> Seq<Seq<char>>
    decreases s.len(),
{
    if s.len() == 0 {
        seq![Seq::<char>::empty()]
    } else {
        let pieces = split(s.drop_last(), sep);
        if s.last() == sep {
            pieces.push(Seq::<char>::empty())
        } else {
            pieces.update(pieces.len() - 1, pieces.last().push(s.last()))
        }
    }
}

pub proof fn lemma_split_len(s: Seq<char>, sep: char)
    ensures
        split(s, sep).len() >= 1,
    decreases s.len(),
{
    if s.len() > 0 {
        lemma_split_len(s.drop_last(), sep);
    }
}

/// The position of the first `c` in `s`, or the length of `s` where there is none.
pub open spec fn first_index(s: Seq<char>, c: char) -> nat
    decreases s.len(),
{
    if s.len() == 0 {
        0
    } else if s[0] == c {
        0
    } else {
        1 + first_index(s.drop_first(), c)
    }
}

pub proof fn lemma_first_index(s: Seq<char>, c: char)
    ensures
        first_index(s, c) <= s.len(),
        first_index(s, c) < s.len() ==> s[first_index(s, c) as int] == c,
        forall|i: int| 0 <= i < first_index(s, c) ==> s[i] != c,
    decreases s.len(),
{
    if s.len() > 0 && s[0] != c {
        lemma_first_index(s.drop_first(), c);
        assert forall|i: int| 0 <= i < first_index(s, c) implies s[i] != c by {
            if i > 0 {
                assert(s[i] == s.drop_first()[i - 1]);
            }
        }
    }
}

/// What comes before and after the first `sep` in `s`, where `s` holds one.
pub open spec fn split_once(s: Seq<char>, sep: char) -> Option<(Seq<char>, Seq<char>)> {
    let i = first_index(s, sep);
    if i < s.len() {
        Some((s.take(i as int), s.skip(i + 1 as int)))
    } else {
        None
    }
}

/// What follows the first `sep` in `s`, or nothing where there is none.
pub open spec fn after_first(s: Seq<char>, sep: char) -> Seq<char> {
    match split_once(s, sep) {
        Some(parts) => parts.1,
        None => Seq::<char>::empty(),
    }
}

/// Appends one character; `String::push` of std.
#[verifier::external_body]
pub(crate) fn push_char(s: &mut String, c: char)
    ensures
        final(s)@ == old(s)@.push(c),
{
    s.push(c);
}

/// Whether `s` begins with `prefix`.
pub fn starts_with(s: &str, prefix: &str) -> (r: bool)
    ensures
        r == has_prefix(s@, prefix@),
{
    let n = prefix.unicode_len();
    let mut i: usize = 0;
    for c in it: s.chars()
        invariant_except_break
            i == it.index(),
        invariant
            n == prefix@.len(),
            it.seq() == s@,
            i <= n,
            i <= s@.len(),
            s@.subrange(0, i as int) == prefix@.subrange(0, i as int),
        ensures
            i == n || i == s@.len(),
    {
        if i == n {
            break;
        }
        if c != prefix.get_char(i) {
            return false;
        }
        i = i + 1;
    }
    assert(prefix@.subrange(0, n as int) == prefix@);
    i == n
}

/// Whether the two texts are equal.
pub fn str_eq(a: &str, b: &str) -> (r: bool)
    ensures
        r == (a@ == b@),
{
    if starts_with(a, b) {
        if a.unicode_len() == b.unicode_len() {
            assert(a@ == a@.subrange(0, b@.len() as int));
            true
        } else {
            false
        }
    } else {
        assert(a@ != b@) by {
            if a@ == b@ {
                assert(a@.subrange(0, b@.len() as int) == a@);
            }
        }
        false
    }
}

/// The position of the first `c` in `s`, counted in characters, or the
/// length of `s` where there is none.
pub fn find_char(s: &str, c: char) -> (r: usize)
    ensures
        r == first_index(s@, c),
{
    proof {
        lemma_first_index(s@, c);
    }
    let n = s.unicode_len();
    let mut i: usize = 0;
    for x in it: s.chars()
        invariant_except_break
            i == it.index(),
        invariant
            n == s@.len(),
            it.seq() == s@,
            i <= s@.len(),
            forall|j: int| 0 <= j < i ==> s@[j] != c,
        ensures
            i == s@.len() || (i < s@.len() && s@[i as int] == c),
    {
        if x == c {
            break;
        }
        i = i + 1;
    }
    proof {
        lemma_first_index_is_first(s@, c, i as int);
    }
    i
}

pub proof fn lemma_first_index_is_first(s: Seq<char>, c: char, i: int)
    requires
        0 <= i <= s.len(),
        forall|j: int| 0 <= j < i ==> s[j] != c,
        i == s.len() || s[i] == c,
    ensures
        first_index(s, c) == i,
    decreases s.len(),
{
    if s.len() > 0 && s[0] != c {
        assert forall|j: int| 0 <= j < i - 1 implies s.drop_first()[j] != c by {
            assert(s.drop_first()[j] == s[j + 1]);
        }
        lemma_first_index_is_first(s.drop_first(), c, i - 1);
    }
}

/// What comes before and after the first `sep` in `s`, where `s` holds one;
/// `str::split_once` with one character as pattern.
pub fn split_once_char<'a>(s: &'a str, sep: char) -> (r: Option<(&'a str, &'a str)>)
    ensures
        match r {
            Some(parts) => split_once(s@, sep) == Some((parts.0@, parts.1@)),
            None => split_once(s@, sep) is None,
        },
{
    let i = find_char(s, sep);
    let n = s.unicode_len();
    if i < n {
        Some((s.substring_char(0, i), s.substring_char(i + 1, n)))
    } else {
        None
    }
}

/// What follows the first `sep` in `s`, or the empty text where there is none:
/// `s.split_once(sep).unwrap_or(("", "")).1`.
pub fn after_first_char<'a>(s: &'a str, sep: char) -> (r: &'a str)
    ensures
        r@ == after_first(s@, sep),
{
    match split_once_char(s, sep) {
        Some(parts) => parts.1,
        None => {
            proof {
                reveal_strlit("");
            }
            ""
        },
    }
}

/// `s` cut at every `sep`, each piece as an owned string; `str::split` with
/// one character as pattern.
pub fn split_owned(s: &str, sep: char) -> (r: Vec<String>)
    ensures
        string_views(r@) == split(s@, sep),
{
    let mut pieces: Vec<String> = Vec::new();
    let mut cur = String::new();
    for c in it: s.chars()
        invariant
            it.seq() == s@,
            string_views(pieces@).push(cur@) == split(s@.take(it.index() as int), sep),
    {
        let ghost i = it.index() as int;
        proof {
            assert(s@.take(i + 1).drop_last() =~= s@.take(i));
            assert(s@.take(i + 1).last() == c);
            lemma_split_len(s@.take(i), sep);
        }
        let ghost before = split(s@.take(i), sep);
        if c == sep {
            pieces.push(cur);
            cur = String::new();
            assert(string_views(pieces@).push(cur@) =~= before.push(Seq::<char>::empty()));
        } else {
            push_char(&mut cur, c);
            assert(string_views(pieces@).push(cur@) =~= before.update(
                before.len() - 1,
                before.last().push(c),
            ));
        }
    }
    assert(s@.take(s@.len() as int) =~= s@);
    pieces.push(cur);
    pieces
}

/// `s` cut at every `sep`, each piece borrowed from `s`; `str::split` with one
/// character as pattern.
pub fn split_borrowed<'a>(s: &'a str, sep: char) -> (r: Vec<&'a str>)
    ensures
        str_views(r@) == split(s@, sep),
{
    let n = s.unicode_len();
    let mut pieces: Vec<&'a str> = Vec::new();
    let mut start: usize = 0;
    let mut i: usize = 0;
    assert(s@.take(0).len() == 0);
    assert(str_views(pieces@) =~= Seq::<Seq<char>>::empty());
    assert(s@.subrange(0, 0) =~= Seq::<char>::empty());
    assert(split(s@.take(0), sep) == seq![Seq::<char>::empty()]);
    assert(str_views(pieces@).push(s@.subrange(0, 0)) =~= split(s@.take(0), sep));
    for c in it: s.chars()
        invariant
            n == s@.len(),
            it.seq() == s@,
            i == it.index(),
            start <= i <= n,
            str_views(pieces@).push(s@.subrange(start as int, i as int)) == split(
                s@.take(i as int),
                sep,
            ),
    {
        proof {
            assert(s@.take(i + 1).drop_last() =~= s@.take(i as int));
            assert(s@.take(i + 1).last() == c);
            lemma_split_len(s@.take(i as int), sep);
        }
        let ghost before = split(s@.take(i as int), sep);
        let ghost old_pieces = pieces@;
        let ghost old_start = start;
        if c == sep {
            pieces.push(s.substring_char(start, i));
            assert(str_views(pieces@) =~= str_views(old_pieces).push(
                s@.subrange(old_start as int, i as int),
            ));
            start = i + 1;
            assert(s@.subrange(start as int, i + 1) =~= Seq::<char>::empty());
            assert(str_views(pieces@).push(s@.subrange(start as int, i + 1)) =~= before.push(
                Seq::<char>::empty(),
            ));
        } else {
            assert(s@.subrange(start as int, i + 1) =~= s@.subrange(start as int, i as int).push(c));
            assert(str_views(pieces@).push(s@.subrange(start as int, i + 1)) =~= before.update(
                before.len() - 1,
                before.last().push(c),
            ));
        }
        i = i + 1;
    }
    assert(s@.take(n as int) =~= s@);
    pieces.push(s.substring_char(start, n));
    assert(str_views(pieces@) =~= split(s@, sep));
    pieces
}

/// The character of a decimal digit.
pub open spec fn digit_char(d: nat) -> char
    recommends
        d < 10,
{
    (d + 48) as char
}

/// The decimal notation of `n`, without sign or leading zeros.
pub open spec fn decimal(n: nat) -> Seq<char>
    decreases n,
{
    if n < 10 {
        seq![digit_char(n)]
    } else {
        decimal(n / 10).push(digit_char(n % 10))
    }
}

/// Appends the decimal notation of `n` to `out`.
pub fn push_decimal(out: &mut String, n: u64)
    ensures
        final(out)@ == old(out)@ + decimal(n as nat),
    decreases n,
{
    if n >= 10 {
        push_decimal(out, n / 10);
    }
    let d: u8 = (n % 10) as u8;
    let c = (48u8 + d) as char;
    push_char(out, c);
    proof {
        assert(c == digit_char((n % 10) as nat));
    }
}

/// The decimal notation of `n`, as `n.to_string()` writes it.
pub fn decimal_string(n: u64) -> (r: String)
    ensures
        r@ == decimal(n as nat),
{
    let mut out = String::new();
    push_decimal(&mut out, n);
    assert(out@ =~= decimal(n as nat));
    out
}

/// `true` or `false`, as `bool::to_string` writes it.
pub open spec fn bool_text(b: bool) -> Seq<char> {
    if b {
        "true"@
    } else {
        "false"@
    }
}

pub fn bool_string(b: bool) -> (r: String)
    ensures
        r@ == bool_text(b),
{
    if b {
        String::from_str("true")
    } else {
        String::from_str("false")
    }
}

pub open spec fn is_digit(c: char) -> bool {
    '0' <= c && c <= '9'
}

pub open spec fn all_digits(s: Seq<char>) -> bool {
    forall|i: int| 0 <= i < s.len() ==> is_digit(#[trigger] s[i])
}

/// The number that the decimal digits `s` write.
pub open spec fn digits_value(s: Seq<char>) -> nat
    decreases s.len(),
{
    if s.len() == 0 {
        0
    } else {
        digits_value(s.drop_last()) * 10 + (s.last() as nat - 48) as nat
    }
}

/// The number that `s` writes if `s` is a non-empty run of decimal digits
/// whose value is at most `max`.
pub open spec fn parse_digits(s: Seq<char>, max: nat) -> Option<nat> {
    if s.len() > 0 && all_digits(s) && digits_value(s) <= max {
        Some(digits_value(s))
    } else {
        None
    }
}

/// What `str::parse` makes of `s` for an unsigned integer type whose largest
/// value is `max`: an optional `+`, then at least one decimal digit, and no
/// value above `max`.
pub open spec fn parse_unsigned(s: Seq<char>, max: nat) -> Option<nat> {
    if s.len() > 0 && s[0] == '+' {
        parse_digits(s.drop_first(), max)
    } else {
        parse_digits(s, max)
    }
}

/// What `str::parse::<i64>` makes of `s`: an optional sign, then at least one
/// decimal digit, and a value within the range of `i64`.
pub open spec fn parse_i64_text(s: Seq<char>) -> Option<int> {
    if s.len() > 0 && s[0] == '-' {
        match parse_digits(s.drop_first(), 0x8000_0000_0000_0000) {
            Some(v) => Some(-v),
            None => None,
        }
    } else {
        match parse_unsigned(s, 0x7fff_ffff_ffff_ffff) {
            Some(v) => Some(v as int),
            None => None,
        }
    }
}

/// What `str::parse::<bool>` makes of `s`.
pub open spec fn parse_bool_text(s: Seq<char>) -> Option<bool> {
    if s == "true"@ {
        Some(true)
    } else if s == "false"@ {
        Some(false)
    } else {
        None
    }
}

pub proof fn lemma_digits_value_prefix(s: Seq<char>, k: int)
    requires
        0 <= k <= s.len(),
    ensures
        digits_value(s.take(k)) <= digits_value(s),
    decreases s.len(),
{
    if k < s.len() {
        assert(s.drop_last().take(k) =~= s.take(k));
        lemma_digits_value_prefix(s.drop_last(), k);
    } else {
        assert(s.take(k) =~= s);
    }
}

/// The value of the decimal digits that `s` holds from character `from` on,
/// as `parse_digits` reads them.
pub fn parse_digits_from(s: &str, from: usize, max: u64) -> (r: Option<u64>)
    requires
        from <= s@.len(),
    ensures
        match parse_digits(s@.skip(from as int), max as nat) {
            Some(v) => r == Some(v as u64),
            None => r is None,
        },
{
    let ghost d = s@.skip(from as int);
    let n = s.unicode_len();
    let mut i: usize = 0;
    let mut acc: u64 = 0;
    let mut valid = true;
    for c in it: s.chars()
        invariant_except_break
            i == it.index(),
            valid,
        invariant
            n == s@.len(),
            it.seq() == s@,
            from <= s@.len(),
            i <= from ==> acc == 0,
            d == s@.skip(from as int),
            i <= n,
            valid ==> i <= from || (all_digits(d.take(i - from)) && acc == digits_value(
                d.take(i - from),
            ) && acc <= max),
            !valid ==> parse_digits(d, max as nat) is None,
        ensures
            valid ==> i == n,
            valid ==> i <= from || (all_digits(d.take(i - from)) && acc == digits_value(
                d.take(i - from),
            ) && acc <= max),
            !valid ==> parse_digits(d, max as nat) is None,
    {
        if i >= from {
            let ghost k = i - from;
            proof {
                assert(d.take(k + 1).drop_last() =~= d.take(k));
                assert(d[k] == c);
            }
            if '0' <= c && c <= '9' {
                let dv = (c as u32 - 48) as u64;
                assert(d.take(k + 1).last() == c);
                assert(k == 0 ==> d.take(k) =~= Seq::<char>::empty());
                assert(acc == digits_value(d.take(k)));
                assert(digits_value(d.take(k + 1)) == digits_value(d.take(k + 1).drop_last()) * 10 + (
                d.take(k + 1).last() as nat - 48) as nat);
                assert(dv == c as nat - 48);
                assert(digits_value(d.take(k + 1)) == acc * 10 + dv);
                match acc.checked_mul(10) {
                    Some(m) => match m.checked_add(dv) {
                        Some(v) => {
                            if v <= max {
                                acc = v;
                                assert forall|j: int| 0 <= j < k + 1 implies is_digit(
                                    #[trigger] d.take(k + 1)[j],
                                ) by {
                                    if j < k {
                                        assert(d.take(k + 1)[j] == d.take(k)[j]);
                                    } else {
                                        assert(d.take(k + 1)[j] == c);
                                    }
                                }
                            } else {
                                valid = false;
                            }
                        },
                        None => {
                            valid = false;
                        },
                    },
                    None => {
                        valid = false;
                    },
                }
                if !valid {
                    proof {
                        if all_digits(d) {
                            lemma_digits_value_prefix(d, k + 1);
                        }
                    }
                    break;
                }
            } else {
                valid = false;
                assert(!is_digit(d[k]));
                break;
            }
        }
        i = i + 1;
    }
    if valid && from < n {
        assert(d.take(n - from) =~= d);
        Some(acc)
    } else {
        proof {
            if valid {
                assert(d.len() == 0);
            }
        }
        None
    }
}

/// `s.parse::<u64>()`, as an `Option`.
pub fn parse_u64(s: &str) -> (r: Option<u64>)
    ensures
        match parse_unsigned(s@, u64::MAX as nat) {
            Some(v) => r == Some(v as u64),
            None => r is None,
        },
{
    parse_unsigned_to(s, u64::MAX)
}

/// `s.parse::<u8>()`, as an `Option`.
pub fn parse_u8(s: &str) -> (r: Option<u8>)
    ensures
        match parse_unsigned(s@, 255) {
            Some(v) => r == Some(v as u8),
            None => r is None,
        },
{
    match parse_unsigned_to(s, 255) {
        Some(v) => Some(v as u8),
        None => None,
    }
}

/// The unsigned number that `s` writes, where it is at most `max`.
fn parse_unsigned_to(s: &str, max: u64) -> (r: Option<u64>)
    ensures
        match parse_unsigned(s@, max as nat) {
            Some(v) => r == Some(v as u64),
            None => r is None,
        },
{
    if s.is_empty() {
        assert(s@.skip(0) =~= s@);
        parse_digits_from(s, 0, max)
    } else if s.get_char(0) == '+' {
        assert(s@.skip(1) =~= s@.drop_first());
        parse_digits_from(s, 1, max)
    } else {
        assert(s@.skip(0) =~= s@);
        parse_digits_from(s, 0, max)
    }
}

/// `s.parse::<i64>()`, as an `Option`.
pub fn parse_i64(s: &str) -> (r: Option<i64>)
    ensures
        match parse_i64_text(s@) {
            Some(v) => r == Some(v as i64),
            None => r is None,
        },
{
    if !s.is_empty() && s.get_char(0) == '-' {
        assert(s@.skip(1) =~= s@.drop_first());
        match parse_digits_from(s, 1, 0x8000_0000_0000_0000) {
            Some(v) => {
                if v == 0x8000_0000_0000_0000 {
                    Some(i64::MIN)
                } else {
                    Some(-(v as i64))
                }
            },
            None => None,
        }
    } else {
        match parse_unsigned_to(s, 0x7fff_ffff_ffff_ffff) {
            Some(v) => Some(v as i64),
            None => None,
        }
    }
}

/// `s.parse::<bool>()`, as an `Option`.
pub fn parse_bool(s: &str) -> (r: Option<bool>)
    ensures
        r == parse_bool_text(s@),
{
    if str_eq(s, "true") {
        Some(true)
    } else if str_eq(s, "false") {
        Some(false)
    } else {
        None
    }
}

/// `c` with an ASCII capital letter turned into its small letter.
pub open spec fn ascii_lower(c: char) -> char {
    if 'A' <= c && c <= 'Z' {
        ((c as u32) + 32) as char
    } else {
        c
    }
}

/// `a` and `b` are equal up to the case of ASCII letters.
pub open spec fn eq_ignoring_ascii_case(a: Seq<char>, b: Seq<char>) -> bool {
    a.len() == b.len() && forall|i: int| 0 <= i < a.len() ==> ascii_lower(a[i]) == ascii_lower(b[i])
}

fn lower_char(c: char) -> (r: char)
    ensures
        r == ascii_lower(c),
{
    if 'A' <= c && c <= 'Z' {
        ((c as u8) + 32) as char
    } else {
        c
    }
}

/// Whether `a` and `b` are equal up to the case of ASCII letters;
/// `str::eq_ignore_ascii_case`.
pub fn eq_ignore_ascii_case(a: &str, b: &str) -> (r: bool)
    ensures
        r == eq_ignoring_ascii_case(a@, b@),
{
    let nb = b.unicode_len();
    let mut i: usize = 0;
    for c in it: a.chars()
        invariant
            nb == b@.len(),
            it.seq() == a@,
            i == it.index(),
            i <= nb,
            forall|j: int| 0 <= j < i ==> ascii_lower(a@[j]) == ascii_lower(b@[j]),
    {
        if i >= nb {
            return false;
        }
        if lower_char(c) != lower_char(b.get_char(i)) {
            return false;
        }
        i = i + 1;
    }
    i == nb
}

/// How many characters of `s` remain once the trailing characters whose code
/// is below 31 are taken off.
pub open spec fn trimmed_len(s: Seq<char>) -> nat
    decreases s.len(),
{
    if s.len() > 0 && (s.last() as u32) < 31 {
        trimmed_len(s.drop_last())
    } else {
        s.len()
    }
}

pub proof fn lemma_trimmed_len(s: Seq<char>)
    ensures
        trimmed_len(s) <= s.len(),
        trimmed_len(s) > 0 ==> (s[trimmed_len(s) - 1] as u32) >= 31,
        forall|j: int| trimmed_len(s) <= j < s.len() ==> (#[trigger] s[j] as u32) < 31,
    decreases s.len(),
{
    if s.len() > 0 && (s.last() as u32) < 31 {
        lemma_trimmed_len(s.drop_last());
        assert forall|j: int| trimmed_len(s) <= j < s.len() implies (#[trigger] s[j] as u32) < 31 by {
            if j < s.len() - 1 {
                assert(s[j] == s.drop_last()[j]);
            }
        }
    }
}

/// A line as read from the terminal, without the line break and other
/// control characters (code below 31) at its end.
pub fn trim_line_end<'a>(line: &'a str) -> (r: &'a str)
    ensures
        r@ == line@.take(trimmed_len(line@) as int),
{
    let n = line.unicode_len();
    let mut keep: usize = 0;
    let mut i: usize = 0;
    for c in it: line.chars()
        invariant
            n == line@.len(),
            it.seq() == line@,
            i == it.index(),
            i <= n,
            keep == trimmed_len(line@.take(i as int)),
    {
        proof {
            assert(line@.take(i + 1).drop_last() =~= line@.take(i as int));
            assert(line@.take(i + 1).last() == c);
        }
        if (c as u32) >= 31 {
            keep = i + 1;
        }
        i = i + 1;
    }
    proof {
        assert(line@.take(n as int) =~= line@);
        lemma_trimmed_len(line@.take(i as int));
    }
    line.substring_char(0, keep)
}

/// The pieces joined back together, `sep` between each two.
pub open spec fn join(pieces: Seq<Seq<char>>, sep: char) -> Seq<char>
    decreases pieces.len(),
{
    if pieces.len() == 0 {
        Seq::<char>::empty()
    } else if pieces.len() == 1 {
        pieces[0]
    } else {
        join(pieces.drop_last(), sep).push(sep) + pieces.last()
    }
}

/// Splitting loses nothing and adds nothing: no piece holds the separator,
/// and joining the pieces with it gives the text back.
pub proof fn law_split_join(s: Seq<char>, sep: char)
    ensures
        join(split(s, sep), sep) == s,
        forall|i: int| 0 <= i < split(s, sep).len() ==> !(#[trigger] split(s, sep)[i]).contains(sep),
    decreases s.len(),
{
    if s.len() == 0 {
        assert(split(s, sep)[0] =~= Seq::<char>::empty());
        assert(s =~= Seq::<char>::empty());
    } else {
        let t = s.drop_last();
        let c = s.last();
        law_split_join(t, sep);
        lemma_split_len(t, sep);
        let pieces = split(t, sep);
        if c == sep {
            let np = pieces.push(Seq::<char>::empty());
            assert(np.drop_last() =~= pieces);
            assert(join(np, sep) =~= t.push(sep));
            assert(s =~= t.push(sep));
            assert forall|i: int| 0 <= i < np.len() implies !(#[trigger] np[i]).contains(sep) by {
                if i < pieces.len() {
                    assert(np[i] == pieces[i]);
                } else {
                    assert(np[i] =~= Seq::<char>::empty());
                }
            }
        } else {
            let last = pieces.last().push(c);
            let np = pieces.update(pieces.len() - 1, last);
            if pieces.len() == 1 {
                assert(join(pieces, sep) == pieces[0]);
                assert(join(np, sep) == np[0]);
                assert(s =~= t.push(c));
            } else {
                assert(np.drop_last() =~= pieces.drop_last());
                assert(join(pieces, sep) == join(pieces.drop_last(), sep).push(sep) + pieces.last());
                assert(join(np, sep) =~= join(pieces, sep).push(c));
                assert(s =~= t.push(c));
            }
            assert forall|i: int| 0 <= i < np.len() implies !(#[trigger] np[i]).contains(sep) by {
                if i < pieces.len() - 1 {
                    assert(np[i] == pieces[i]);
                } else {
                    assert(np[i] == last);
                    assert(!pieces[pieces.len() - 1].contains(sep));
                    if last.contains(sep) {
                        let k = choose|k: int| 0 <= k < last.len() && last[k] == sep;
                        if k < last.len() - 1 {
                            assert(pieces.last()[k] == sep);
                        }
                    }
                }
            }
        }
    }
}

/// A decimal notation reads back as the number it writes.
pub proof fn law_decimal_parses_back(n: nat, max: nat)
    requires
        n <= max,
    ensures
        parse_unsigned(decimal(n), max) == Some(n),
{
    lemma_decimal(n);
}

/// The decimal notation of `n`: non-empty digits whose value is `n`.
pub proof fn lemma_decimal(n: nat)
    ensures
        decimal(n).len() > 0,
        all_digits(decimal(n)),
        digits_value(decimal(n)) == n,
        !decimal(n).contains(','),
    decreases n,
{
    if n >= 10 {
        lemma_decimal(n / 10);
        let d = decimal(n);
        assert(d.drop_last() =~= decimal(n / 10));
        assert(d.last() == digit_char(n % 10));
        assert(digit_char(n % 10) as nat == n % 10 + 48);
        assert(digits_value(d) == digits_value(decimal(n / 10)) * 10 + (n % 10));
        assert((n / 10) * 10 + n % 10 == n);
        assert(forall|i: int| 0 <= i < d.len() - 1 ==> d[i] == decimal(n / 10)[i]);
        assert(!d.contains(',')) by {
            if d.contains(',') {
                let k = choose|k: int| 0 <= k < d.len() && d[k] == ',';
                if k < d.len() - 1 {
                    assert(decimal(n / 10)[k] == ',');
                }
            }
        }
    } else {
        let d = decimal(n);
        assert(d.drop_last() =~= Seq::<char>::empty());
        assert(digit_char(n) as nat == n + 48);
        assert(digits_value(d.drop_last()) == 0);
        assert(d.last() == digit_char(n));
    }
}

/// Taking the trailing control characters off twice takes off no more than
/// once.
pub proof fn law_trim_idempotent(s: Seq<char>)
    ensures
        trimmed_len(s.take(trimmed_len(s) as int)) == trimmed_len(s),
{
    lemma_trimmed_len(s);
    let t = s.take(trimmed_len(s) as int);
    if t.len() > 0 {
        assert(t.last() == s[trimmed_len(s) - 1]);
    }
}

/// A text without the separator is one piece.
pub proof fn lemma_split_no_sep(a: Seq<char>, sep: char)
    requires
        !a.contains(sep),
    ensures
        split(a, sep) == seq![a],
    decreases a.len(),
{
    if a.len() == 0 {
        assert(a =~= Seq::<char>::empty());
        assert(split(a, sep) =~= seq![a]);
    } else {
        let t = a.drop_last();
        assert(!t.contains(sep)) by {
            if t.contains(sep) {
                let k = choose|k: int| 0 <= k < t.len() && t[k] == sep;
                assert(a[k] == sep);
            }
        }
        lemma_split_no_sep(t, sep);
        assert(a.last() != sep) by {
            assert(a[a.len() - 1] == a.last());
        }
        assert(t.push(a.last()) =~= a);
        assert(split(a, sep) =~= seq![a]);
    }
}

/// Splitting at a separator between two texts splits each of them.
pub proof fn lemma_split_concat(x: Seq<char>, y: Seq<char>, sep: char)
    ensures
        split(x + seq![sep] + y, sep) == split(x, sep) + split(y, sep),
    decreases y.len(),
{
    let s = x + seq![sep] + y;
    lemma_split_len(x, sep);
    if y.len() == 0 {
        assert(s.drop_last() =~= x);
        assert(split(y, sep) =~= seq![Seq::<char>::empty()]);
        assert(split(s, sep) =~= split(x, sep) + split(y, sep));
    } else {
        let y0 = y.drop_last();
        lemma_split_concat(x, y0, sep);
        lemma_split_len(y0, sep);
        assert(s.drop_last() =~= x + seq![sep] + y0);
        assert(s.last() == y.last());
        assert(split(s, sep) =~= split(x, sep) + split(y, sep));
    }
}

/// The first piece of a split is what comes before the first separator.
pub proof fn lemma_split_first(s: Seq<char>, sep: char)
    ensures
        split(s, sep)[0] == s.take(first_index(s, sep) as int),
        (first_index(s, sep) == s.len()) <==> split(s, sep).len() == 1,
    decreases s.len(),
{
    lemma_split_len(s, sep);
    lemma_first_index(s, sep);
    if s.len() == 0 {
        assert(s.take(0) =~= Seq::<char>::empty());
    } else {
        let t = s.drop_last();
        let x = s.last();
        lemma_split_first(t, sep);
        lemma_split_len(t, sep);
        lemma_first_index(t, sep);
        let k = first_index(t, sep);
        if k < t.len() {
            assert forall|j: int| 0 <= j < k implies s[j] != sep by {
                assert(s[j] == t[j]);
            }
            assert(s[k as int] == t[k as int]);
            lemma_first_index_is_first(s, sep, k as int);
            assert(s.take(k as int) =~= t.take(k as int));
        } else {
            assert forall|j: int| 0 <= j < t.len() implies s[j] != sep by {
                assert(s[j] == t[j]);
            }
            assert(t.take(k as int) =~= t);
            if x == sep {
                lemma_first_index_is_first(s, sep, t.len() as int);
                assert(s.take(t.len() as int) =~= t);
            } else {
                lemma_first_index_is_first(s, sep, s.len() as int);
                assert(t.push(x) =~= s);
                assert(s.take(s.len() as int) =~= s);
            }
        }
    }
}

/// `true` and `false` read back as the booleans they write.
pub proof fn law_bool_text_reads_back(b: bool)
    ensures
        parse_bool_text(bool_text(b)) == Some(b),
{
    reveal_strlit("true");
    reveal_strlit("false");
    assert("false"@.len() != "true"@.len());
}

/// What follows the first separator of `p`, the separator and `v`, where `p`
/// holds no separator, is `v`.
pub proof fn lemma_after_first_of(p: Seq<char>, sep: char, v: Seq<char>)
    requires
        !p.contains(sep),
    ensures
        after_first(p + seq![sep] + v, sep) == v,
{
    let s = p + seq![sep] + v;
    assert forall|j: int| 0 <= j < p.len() implies s[j] != sep by {
        assert(s[j] == p[j]);
    }
    assert(s[p.len() as int] == sep);
    lemma_first_index_is_first(s, sep, p.len() as int);
    assert(s.skip(p.len() + 1 as int) =~= v);
}

} // verus!
