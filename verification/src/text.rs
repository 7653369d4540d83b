use vstd::prelude::*;
use vstd::string::*;

verus! {

/// Appends one character to a string (`String::push`).
#[verifier::external_body]
pub(crate) fn push_char(s: &mut String, c: char)
    ensures
        final(s)@ == old(s)@.push(c),
{
    s.push(c);
}

/// Whether two string slices hold the same characters.
pub fn str_eq(a: &str, b: &str) -> (r: bool)
    ensures
        r == (a@ == b@),
{
    let n = a.unicode_len();
    let m = b.unicode_len();
    if n != m {
        return false;
    }
    let mut i: usize = 0;
    while i < n
        invariant
            n == a@.len(),
            m == b@.len(),
            n == m,
            i <= n,
            forall|j: int| 0 <= j < i ==> a@[j] == b@[j],
        decreases n - i,
    {
        if a.get_char(i) != b.get_char(i) {
            return false;
        }
        i = i + 1;
    }
    assert(a@ =~= b@);
    true
}

/// Whether `s` begins with `prefix`.
pub open spec fn spec_starts_with(s: Seq<char>, prefix: Seq<char>) -> bool {
    prefix.len() <= s.len() && s.subrange(0, prefix.len() as int) == prefix
}

/// Whether `s` ends with `suffix`.
pub open spec fn spec_ends_with(s: Seq<char>, suffix: Seq<char>) -> bool {
    suffix.len() <= s.len() && s.subrange(s.len() - suffix.len(), s.len() as int) == suffix
}

/// `str::starts_with` for a string prefix.
pub fn starts_with(s: &str, prefix: &str) -> (r: bool)
    ensures
        r == spec_starts_with(s@, prefix@),
{
    let n = s.unicode_len();
    let m = prefix.unicode_len();
    if m > n {
        return false;
    }
    str_eq(s.substring_char(0, m), prefix)
}

/// `str::ends_with` for a string suffix.
pub fn ends_with(s: &str, suffix: &str) -> (r: bool)
    ensures
        r == spec_ends_with(s@, suffix@),
{
    let n = s.unicode_len();
    let m = suffix.unicode_len();
    if m > n {
        return false;
    }
    str_eq(s.substring_char(n - m, n), suffix)
}

/// The characters of a string slice as a vector.
pub fn str_chars(s: &str) -> (r: Vec<char>)
    ensures
        r@ == s@,
{
    let n = s.unicode_len();
    let mut out: Vec<char> = Vec::new();
    let mut i: usize = 0;
    while i < n
        invariant
            n == s@.len(),
            i <= n,
            out@ == s@.subrange(0, i as int),
        decreases n - i,
    {
        let c = s.get_char(i);
        out.push(c);
        i = i + 1;
        assert(out@ =~= s@.subrange(0, i as int));
    }
    assert(s@.subrange(0, n as int) =~= s@);
    out
}

/// A new string holding the characters of `s`.
pub fn owned(s: &str) -> (r: String)
    ensures
        r@ == s@,
{
    String::from_str(s)
}

/// Appends a string slice.
pub fn push_str(out: &mut String, s: &str)
    ensures
        final(out)@ == old(out)@ + s@,
{
    out.append(s);
}

/// Whether a character has the Unicode White_Space property.
pub open spec fn spec_is_whitespace(c: char) -> bool {
    let u = c as u32;
    (0x09 <= u <= 0x0d) || u == 0x20 || u == 0x85 || u == 0xa0 || u == 0x1680
        || (0x2000 <= u <= 0x200a) || u == 0x2028 || u == 0x2029 || u == 0x202f
        || u == 0x205f || u == 0x3000
}

/// Whether a character has the Unicode White_Space property.
pub fn is_whitespace(c: char) -> (r: bool)
    ensures
        r == spec_is_whitespace(c),
{
    let u = c as u32;
    (0x09 <= u && u <= 0x0d) || u == 0x20 || u == 0x85 || u == 0xa0 || u == 0x1680 || (0x2000
        <= u && u <= 0x200a) || u == 0x2028 || u == 0x2029 || u == 0x202f || u == 0x205f || u
        == 0x3000
}

/// The characters left after dropping leading white space.
pub open spec fn spec_trim_start(s: Seq<char>) -> Seq<char>
    decreases s.len(),
{
    if s.len() > 0 && spec_is_whitespace(s[0]) {
        spec_trim_start(s.drop_first())
    } else {
        s
    }
}

/// The characters left after dropping trailing white space.
pub open spec fn spec_trim_end(s: Seq<char>) -> Seq<char>
    decreases s.len(),
{
    if s.len() > 0 && spec_is_whitespace(s.last()) {
        spec_trim_end(s.drop_last())
    } else {
        s
    }
}

/// The characters left after dropping leading and trailing white space (`str::trim`).
pub open spec fn spec_trim(s: Seq<char>) -> Seq<char> {
    spec_trim_end(spec_trim_start(s))
}

proof fn lemma_trim_start_skip(s: Seq<char>, i: int)
    requires
        0 <= i <= s.len(),
        forall|j: int| 0 <= j < i ==> spec_is_whitespace(s[j]),
    ensures
        spec_trim_start(s) == spec_trim_start(s.subrange(i, s.len() as int)),
    decreases i,
{
    if i > 0 {
        assert(s.drop_first().subrange(i - 1, s.drop_first().len() as int) =~= s.subrange(
            i,
            s.len() as int,
        ));
        lemma_trim_start_skip(s.drop_first(), i - 1);
    } else {
        assert(s.subrange(0, s.len() as int) =~= s);
    }
}

proof fn lemma_trim_end_take(s: Seq<char>, k: int)
    requires
        0 <= k <= s.len(),
        forall|j: int| k <= j < s.len() ==> spec_is_whitespace(s[j]),
    ensures
        spec_trim_end(s) == spec_trim_end(s.subrange(0, k)),
    decreases s.len() - k,
{
    if k < s.len() {
        assert(s.drop_last().subrange(0, k) =~= s.subrange(0, k));
        lemma_trim_end_take(s.drop_last(), k);
    } else {
        assert(s.subrange(0, k) =~= s);
    }
}

/// `str::trim`: the slice without leading and trailing white space.
pub fn trim(s: &str) -> (r: &str)
    ensures
        r@ == spec_trim(s@),
{
    let n = s.unicode_len();
    let mut start: usize = 0;
    while start < n && is_whitespace(s.get_char(start))
        invariant
            n == s@.len(),
            start <= n,
            forall|j: int| 0 <= j < start ==> spec_is_whitespace(s@[j]),
        decreases n - start,
    {
        start = start + 1;
    }
    proof {
        lemma_trim_start_skip(s@, start as int);
    }
    let ghost rest = s@.subrange(start as int, n as int);
    assert(rest.len() == 0 || !spec_is_whitespace(rest[0]));
    assert(spec_trim_start(rest) == rest);
    let mut end: usize = n;
    while end > start && is_whitespace(s.get_char(end - 1))
        invariant
            n == s@.len(),
            start <= end <= n,
            rest == s@.subrange(start as int, n as int),
            forall|j: int| end <= j < n ==> spec_is_whitespace(s@[j]),
        decreases end,
    {
        end = end - 1;
    }
    proof {
        lemma_trim_end_take(rest, end - start);
        assert(rest.subrange(0, end - start) =~= s@.subrange(start as int, end as int));
    }
    s.substring_char(start, end)
}

/// `str::trim_end`: the slice without trailing white space.
pub fn trim_end(s: &str) -> (r: &str)
    ensures
        r@ == spec_trim_end(s@),
{
    let n = s.unicode_len();
    let mut end: usize = n;
    while end > 0 && is_whitespace(s.get_char(end - 1))
        invariant
            n == s@.len(),
            end <= n,
            forall|j: int| end <= j < n ==> spec_is_whitespace(s@[j]),
        decreases end,
    {
        end = end - 1;
    }
    proof {
        lemma_trim_end_take(s@, end as int);
    }
    let r = s.substring_char(0, end);
    assert(spec_trim_end(r@) == r@);
    r
}

/// Whether a slice holds only white space (so that it trims to nothing).
pub fn is_blank(s: &str) -> (r: bool)
    ensures
        r == (spec_trim(s@).len() == 0),
{
    let t = trim(s);
    t.unicode_len() == 0
}

/// ASCII lower-casing of one character (`char::to_ascii_lowercase`).
pub open spec fn spec_ascii_lower(c: char) -> char {
    if 'A' <= c <= 'Z' {
        ((c as u32) + 32) as char
    } else {
        c
    }
}

pub open spec fn spec_ascii_lowercase(s: Seq<char>) -> Seq<char> {
    s.map_values(|c: char| spec_ascii_lower(c))
}

/// `str::to_ascii_lowercase`.
pub fn ascii_lowercase(s: &str) -> (r: String)
    ensures
        r@ == spec_ascii_lowercase(s@),
{
    let n = s.unicode_len();
    let mut out = String::new();
    let mut i: usize = 0;
    while i < n
        invariant
            n == s@.len(),
            i <= n,
            out@ == spec_ascii_lowercase(s@.subrange(0, i as int)),
        decreases n - i,
    {
        let c = s.get_char(i);
        let lc = if 'A' <= c && c <= 'Z' {
            let u: u8 = (c as u8) + 32;
            u as char
        } else {
            c
        };
        push_char(&mut out, lc);
        i = i + 1;
        assert(spec_ascii_lowercase(s@.subrange(0, i as int)) =~= spec_ascii_lowercase(
            s@.subrange(0, i - 1),
        ).push(spec_ascii_lower(c)));
    }
    assert(s@.subrange(0, n as int) =~= s@);
    out
}

/// The decimal digit or lower-case hex digit for `d`.
pub open spec fn spec_digit(d: nat) -> char {
    if d < 10 {
        ((d + 48) as u32) as char
    } else {
        ((d + 87) as u32) as char
    }
}

/// The decimal rendering of `n` (`{}` formatting of an unsigned integer).
pub open spec fn spec_decimal(n: nat) -> Seq<char>
    decreases n,
{
    if n < 10 {
        seq![spec_digit(n)]
    } else {
        spec_decimal(n / 10).push(spec_digit(n % 10))
    }
}

/// The lower-case hexadecimal rendering of `n` (`{:x}`).
pub open spec fn spec_hex(n: nat) -> Seq<char>
    decreases n,
{
    if n < 16 {
        seq![spec_digit(n)]
    } else {
        spec_hex(n / 16).push(spec_digit(n % 16))
    }
}

/// `{:0w$x}`: the lower-case hexadecimal rendering of `n`, zero-padded to `w` characters.
pub open spec fn spec_hex_padded(n: nat, w: nat) -> Seq<char> {
    if spec_hex(n).len() >= w {
        spec_hex(n)
    } else {
        Seq::new((w - spec_hex(n).len()) as nat, |i: int| '0') + spec_hex(n)
    }
}

fn digit_char(d: u64) -> (c: char)
    requires
        d < 16,
    ensures
        c == spec_digit(d as nat),
{
    let u: u8 = if d < 10 {
        (d + 48) as u8
    } else {
        (d + 87) as u8
    };
    u as char
}

/// Appends the decimal rendering of `n`.
pub fn push_decimal(out: &mut String, n: u64)
    ensures
        final(out)@ == old(out)@ + spec_decimal(n as nat),
    decreases n,
{
    if n >= 10 {
        push_decimal(out, n / 10);
    }
    let c = digit_char(n % 10);
    push_char(out, c);
    proof {
        if n >= 10 {
            assert(final(out)@ =~= old(out)@ + spec_decimal(n as nat));
        } else {
            assert(final(out)@ =~= old(out)@ + spec_decimal(n as nat));
        }
    }
}

/// Appends the lower-case hexadecimal rendering of `n`.
pub fn push_hex(out: &mut String, n: u64)
    ensures
        final(out)@ == old(out)@ + spec_hex(n as nat),
    decreases n,
{
    if n >= 16 {
        push_hex(out, n / 16);
    }
    let c = digit_char(n % 16);
    push_char(out, c);
    proof {
        assert(final(out)@ =~= old(out)@ + spec_hex(n as nat));
    }
}

fn hex_len(n: u64) -> (r: u64)
    ensures
        r == spec_hex(n as nat).len(),
        r <= 16,
    decreases n,
{
    if n >= 16 {
        let r = hex_len(n / 16);
        proof {
            lemma_hex_len_bound(n as nat);
        }
        r + 1
    } else {
        1
    }
}

proof fn lemma_hex_len_bound(n: nat)
    requires
        n <= u64::MAX,
    ensures
        spec_hex(n).len() <= 16,
{
    reveal_with_fuel(pow16, 17);
    assert(pow16(16) == 0x1_0000_0000_0000_0000nat);
    lemma_hex_len_pow(n, 16);
}

proof fn lemma_hex_len_pow(n: nat, k: nat)
    requires
        n < pow16(k),
        k >= 1,
    ensures
        spec_hex(n).len() <= k,
    decreases k,
{
    if n >= 16 {
        assert(n / 16 < pow16((k - 1) as nat)) by (nonlinear_arith)
            requires
                n < pow16(k),
                pow16(k) == 16 * pow16((k - 1) as nat),
                k >= 1,
        ;
        if k == 1 {
            assert(pow16(1) == 16) by {
                reveal_with_fuel(pow16, 2);
            }
        } else {
            lemma_hex_len_pow(n / 16, (k - 1) as nat);
        }
    }
}

pub open spec fn pow16(k: nat) -> nat
    decreases k,
{
    if k == 0 {
        1
    } else {
        16 * pow16((k - 1) as nat)
    }
}

/// Appends `n` in lower-case hexadecimal, zero-padded to `w` characters.
pub fn push_hex_padded(out: &mut String, n: u64, w: u64)
    ensures
        final(out)@ == old(out)@ + spec_hex_padded(n as nat, w as nat),
{
    let len = hex_len(n);
    let ghost start = out@;
    if len < w {
        let mut k: u64 = 0;
        while k < w - len
            invariant
                len < w,
                out@ == start + Seq::new(k as nat, |i: int| '0'),
                k <= w - len,
            decreases w - len - k,
        {
            push_char(out, '0');
            k = k + 1;
            assert(out@ =~= start + Seq::new(k as nat, |i: int| '0'));
        }
    }
    let ghost mid = out@;
    push_hex(out, n);
    assert(out@ =~= start + spec_hex_padded(n as nat, w as nat));
}

/// The pieces of `s` between occurrences of `c` (`str::split` with a character pattern): one
/// more piece than there are occurrences, empty pieces included.
pub open spec fn spec_split(s: Seq<char>, c: char) -> Seq<Seq<char>>
    decreases s.len(),
{
    if s.len() == 0 {
        seq![seq![]]
    } else {
        let pieces = spec_split(s.drop_last(), c);
        if s.last() == c {
            pieces.push(seq![])
        } else {
            pieces.update(pieces.len() - 1, pieces.last().push(s.last()))
        }
    }
}

proof fn lemma_split_nonempty(s: Seq<char>, c: char)
    ensures
        spec_split(s, c).len() >= 1,
    decreases s.len(),
{
    if s.len() > 0 {
        lemma_split_nonempty(s.drop_last(), c);
    }
}

/// `str::split` on a character.
pub fn split_char<'a>(s: &'a str, c: char) -> (r: Vec<&'a str>)
    ensures
        r@.len() >= 1,
        r@.len() == spec_split(s@, c).len(),
        forall|i: int| 0 <= i < r@.len() ==> (#[trigger] r@[i])@ == spec_split(s@, c)[i],
{
    let n = s.unicode_len();
    let mut done: Vec<&'a str> = Vec::new();
    let mut start: usize = 0;
    let mut i: usize = 0;
    while i < n
        invariant
            n == s@.len(),
            start <= i <= n,
            spec_split(s@.subrange(0, i as int), c).len() == done@.len() + 1,
            forall|j: int|
                0 <= j < done@.len() ==> (#[trigger] done@[j])@ == spec_split(
                    s@.subrange(0, i as int),
                    c,
                )[j],
            spec_split(s@.subrange(0, i as int), c).last() == s@.subrange(start as int, i as int),
        decreases n - i,
    {
        let ghost before = s@.subrange(0, i as int);
        let ghost after = s@.subrange(0, i + 1);
        assert(after.drop_last() =~= before);
        assert(after.last() == s@[i as int]);
        proof {
            lemma_split_nonempty(before, c);
        }
        if s.get_char(i) == c {
            let piece = s.substring_char(start, i);
            done.push(piece);
            start = i + 1;
        } else {
            assert(s@.subrange(start as int, i + 1) =~= s@.subrange(start as int, i as int).push(
                s@[i as int],
            ));
        }
        i = i + 1;
    }
    assert(s@.subrange(0, n as int) =~= s@);
    let last = s.substring_char(start, n);
    done.push(last);
    done
}

/// The index of the first occurrence of `c` in `s`, if any.
pub open spec fn spec_find(s: Seq<char>, c: char) -> Option<int>
    decreases s.len(),
{
    if s.len() == 0 {
        None
    } else {
        match spec_find(s.drop_last(), c) {
            Some(i) => Some(i),
            None => if s.last() == c {
                Some(s.len() - 1)
            } else {
                None
            },
        }
    }
}

pub proof fn lemma_find(s: Seq<char>, c: char)
    ensures
        match spec_find(s, c) {
            Some(i) => 0 <= i < s.len() && s[i] == c && forall|j: int| 0 <= j < i ==> s[j] != c,
            None => forall|j: int| 0 <= j < s.len() ==> s[j] != c,
        },
    decreases s.len(),
{
    if s.len() > 0 {
        let t = s.drop_last();
        lemma_find(t, c);
        assert(forall|j: int| 0 <= j < t.len() ==> t[j] == s[j]);
    }
}

/// `str::split_once` on a character: the text before and after the first occurrence of `c`.
pub open spec fn spec_split_once(s: Seq<char>, c: char) -> Option<(Seq<char>, Seq<char>)> {
    match spec_find(s, c) {
        Some(i) => Some((s.subrange(0, i), s.subrange(i + 1, s.len() as int))),
        None => None,
    }
}

/// `str::split_once` on a character.
pub fn split_once_char<'a>(s: &'a str, c: char) -> (r: Option<(&'a str, &'a str)>)
    ensures
        match spec_split_once(s@, c) {
            Some((a, b)) => r matches Some((x, y)) && x@ == a && y@ == b,
            None => r is None,
        },
{
    let n = s.unicode_len();
    let mut i: usize = 0;
    while i < n
        invariant
            n == s@.len(),
            i <= n,
            forall|j: int| 0 <= j < i ==> s@[j] != c,
        decreases n - i,
    {
        if s.get_char(i) == c {
            proof {
                lemma_find(s@, c);
            }
            return Some((s.substring_char(0, i), s.substring_char(i + 1, n)));
        }
        i = i + 1;
    }
    proof {
        lemma_find(s@, c);
    }
    None
}

/// The characters left after dropping leading occurrences of `c`.
pub open spec fn spec_trim_start_char(s: Seq<char>, c: char) -> Seq<char>
    decreases s.len(),
{
    if s.len() > 0 && s[0] == c {
        spec_trim_start_char(s.drop_first(), c)
    } else {
        s
    }
}

/// The characters left after dropping trailing occurrences of `c`.
pub open spec fn spec_trim_end_char(s: Seq<char>, c: char) -> Seq<char>
    decreases s.len(),
{
    if s.len() > 0 && s.last() == c {
        spec_trim_end_char(s.drop_last(), c)
    } else {
        s
    }
}

/// `str::trim_matches` on a character: the text without leading and trailing occurrences of `c`.
pub open spec fn spec_trim_matches(s: Seq<char>, c: char) -> Seq<char> {
    spec_trim_end_char(spec_trim_start_char(s, c), c)
}

proof fn lemma_trim_start_char_skip(s: Seq<char>, c: char, i: int)
    requires
        0 <= i <= s.len(),
        forall|j: int| 0 <= j < i ==> s[j] == c,
    ensures
        spec_trim_start_char(s, c) == spec_trim_start_char(s.subrange(i, s.len() as int), c),
    decreases i,
{
    if i > 0 {
        assert(s.drop_first().subrange(i - 1, s.drop_first().len() as int) =~= s.subrange(
            i,
            s.len() as int,
        ));
        lemma_trim_start_char_skip(s.drop_first(), c, i - 1);
    } else {
        assert(s.subrange(0, s.len() as int) =~= s);
    }
}

proof fn lemma_trim_end_char_take(s: Seq<char>, c: char, k: int)
    requires
        0 <= k <= s.len(),
        forall|j: int| k <= j < s.len() ==> s[j] == c,
    ensures
        spec_trim_end_char(s, c) == spec_trim_end_char(s.subrange(0, k), c),
    decreases s.len() - k,
{
    if k < s.len() {
        assert(s.drop_last().subrange(0, k) =~= s.subrange(0, k));
        lemma_trim_end_char_take(s.drop_last(), c, k);
    } else {
        assert(s.subrange(0, k) =~= s);
    }
}

/// `str::trim_matches` on a character.
pub fn trim_matches_char<'a>(s: &'a str, c: char) -> (r: &'a str)
    ensures
        r@ == spec_trim_matches(s@, c),
{
    let n = s.unicode_len();
    let mut start: usize = 0;
    while start < n && s.get_char(start) == c
        invariant
            n == s@.len(),
            start <= n,
            forall|j: int| 0 <= j < start ==> s@[j] == c,
        decreases n - start,
    {
        start = start + 1;
    }
    proof {
        lemma_trim_start_char_skip(s@, c, start as int);
    }
    let ghost rest = s@.subrange(start as int, n as int);
    assert(spec_trim_start_char(rest, c) == rest);
    let mut end: usize = n;
    while end > start && s.get_char(end - 1) == c
        invariant
            n == s@.len(),
            start <= end <= n,
            rest == s@.subrange(start as int, n as int),
            forall|j: int| end <= j < n ==> s@[j] == c,
        decreases end,
    {
        end = end - 1;
    }
    proof {
        lemma_trim_end_char_take(rest, c, end - start);
        assert(rest.subrange(0, end - start) =~= s@.subrange(start as int, end as int));
    }
    s.substring_char(start, end)
}

/// The value of a digit character in bases up to 36 (36 for a character that is no digit).
pub open spec fn spec_digit_value(c: char) -> nat {
    if '0' <= c <= '9' {
        (c as u32 - '0' as u32) as nat
    } else if 'a' <= c <= 'z' {
        (c as u32 - 'a' as u32 + 10) as nat
    } else if 'A' <= c <= 'Z' {
        (c as u32 - 'A' as u32 + 10) as nat
    } else {
        36
    }
}

/// The value of a sequence of digits in base `radix`.
pub open spec fn spec_digits_value(s: Seq<char>, radix: nat) -> nat
    decreases s.len(),
{
    if s.len() == 0 {
        0
    } else {
        spec_digits_value(s.drop_last(), radix) * radix + spec_digit_value(s.last())
    }
}

/// Whether every character is a digit of base `radix`.
pub open spec fn spec_all_digits(s: Seq<char>, radix: nat) -> bool {
    forall|i: int| 0 <= i < s.len() ==> spec_digit_value(#[trigger] s[i]) < radix
}

/// `u32::from_str_radix`: an optional `+` then at least one digit of base `radix`, the value
/// fitting in 32 bits.
pub open spec fn spec_parse_u32(s: Seq<char>, radix: nat) -> Option<u32> {
    let d = if s.len() > 0 && s[0] == '+' {
        s.drop_first()
    } else {
        s
    };
    if d.len() > 0 && spec_all_digits(d, radix) && spec_digits_value(d, radix) <= u32::MAX {
        Some(spec_digits_value(d, radix) as u32)
    } else {
        None
    }
}

proof fn lemma_digits_value_grows(s: Seq<char>, k: int, radix: nat)
    requires
        0 <= k <= s.len(),
        radix >= 1,
    ensures
        spec_digits_value(s.subrange(0, k), radix) <= spec_digits_value(s, radix),
    decreases s.len() - k,
{
    if k < s.len() {
        lemma_digits_value_grows(s.drop_last(), k, radix);
        assert(s.drop_last().subrange(0, k) =~= s.subrange(0, k));
        let v = spec_digits_value(s.drop_last(), radix);
        assert(v * radix >= v) by (nonlinear_arith)
            requires
                radix >= 1,
        ;
    } else {
        assert(s.subrange(0, k) =~= s);
    }
}

fn digit_value(c: char) -> (r: u32)
    ensures
        r == spec_digit_value(c),
{
    if '0' <= c && c <= '9' {
        (c as u32) - ('0' as u32)
    } else if 'a' <= c && c <= 'z' {
        (c as u32) - ('a' as u32) + 10
    } else if 'A' <= c && c <= 'Z' {
        (c as u32) - ('A' as u32) + 10
    } else {
        36
    }
}

/// Parses an unsigned 32-bit number in base `radix` (`u32::from_str_radix`).
pub fn parse_u32_radix(s: &str, radix: u32) -> (r: Option<u32>)
    requires
        2 <= radix <= 36,
    ensures
        r == spec_parse_u32(s@, radix as nat),
{
    let n = s.unicode_len();
    let start: usize = if n > 0 && s.get_char(0) == '+' {
        1
    } else {
        0
    };
    let ghost d = if s@.len() > 0 && s@[0] == '+' {
        s@.drop_first()
    } else {
        s@
    };
    assert(d =~= s@.subrange(start as int, n as int));
    if start == n {
        return None;
    }
    let mut value: u64 = 0;
    let mut i: usize = start;
    while i < n
        invariant
            n == s@.len(),
            start <= i <= n,
            2 <= radix <= 36,
            d == s@.subrange(start as int, n as int),
            d == (if s@.len() > 0 && s@[0] == '+' {
                s@.drop_first()
            } else {
                s@
            }),
            value <= u32::MAX,
            value == spec_digits_value(d.subrange(0, i - start), radix as nat),
            spec_all_digits(d.subrange(0, i - start), radix as nat),
        decreases n - i,
    {
        let c = s.get_char(i);
        let dv = digit_value(c);
        let ghost pre = d.subrange(0, i - start);
        let ghost next = d.subrange(0, i - start + 1);
        assert(next.drop_last() =~= pre);
        assert(next.last() == c);
        if dv >= radix {
            assert(!spec_all_digits(d, radix as nat)) by {
                assert(d[i - start] == c);
            }
            return None;
        }
        assert(value * (radix as u64) <= 36 * 0xffff_ffff) by (nonlinear_arith)
            requires
                value <= 0xffff_ffff,
                radix <= 36,
        ;
        let next_value = value * (radix as u64) + (dv as u64);
        assert(spec_all_digits(next, radix as nat)) by {
            assert forall|j: int| 0 <= j < next.len() implies spec_digit_value(#[trigger] next[j])
                < radix as nat by {
                if j < pre.len() {
                    assert(next[j] == pre[j]);
                }
            }
        }
        if next_value > 0xffff_ffff {
            proof {
                lemma_digits_value_grows(d, i - start + 1, radix as nat);
            }
            return None;
        }
        value = next_value;
        i = i + 1;
    }
    assert(d.subrange(0, n - start) =~= d);
    Some(value as u32)
}

/// The decimal text of a signed number.
pub open spec fn spec_signed_decimal(v: int) -> Seq<char> {
    if v < 0 {
        "-"@ + spec_decimal((-v) as nat)
    } else {
        spec_decimal(v as nat)
    }
}

/// Appends the decimal text of a signed number.
pub fn push_signed_decimal(out: &mut String, v: i32)
    ensures
        final(out)@ == old(out)@ + spec_signed_decimal(v as int),
{
    if v < 0 {
        push_str(out, "-");
        let magnitude: i64 = -(v as i64);
        push_decimal(out, magnitude as u64);
    } else {
        push_decimal(out, v as u64);
    }
}

/// Splitting a text without the separator gives the text itself.
pub proof fn lemma_split_no_sep(a: Seq<char>, c: char)
    requires
        !a.contains(c),
    ensures
        spec_split(a, c) == seq![a],
    decreases a.len(),
{
    if a.len() > 0 {
        let t = a.drop_last();
        assert(!t.contains(c)) by {
            if t.contains(c) {
                let j = choose|j: int| 0 <= j < t.len() && t[j] == c;
                assert(a[j] == c);
            }
        }
        lemma_split_no_sep(t, c);
        assert(a.last() != c) by {
            assert(a[a.len() - 1] == a.last());
        }
        assert(t.push(a.last()) =~= a);
    } else {
        assert(a =~= seq![]);
    }
}

/// Splitting `a`, the separator, then a text `b` without it, gives the pieces of `a`
/// followed by `b`.
pub proof fn lemma_split_join(a: Seq<char>, b: Seq<char>, c: char)
    requires
        !b.contains(c),
    ensures
        spec_split(a + seq![c] + b, c) == spec_split(a, c).push(b),
    decreases b.len(),
{
    let s = a + seq![c] + b;
    if b.len() == 0 {
        assert(s.drop_last() =~= a);
        assert(s.last() == c);
        assert(b =~= seq![]);
    } else {
        let t = b.drop_last();
        assert(!t.contains(c)) by {
            if t.contains(c) {
                let j = choose|j: int| 0 <= j < t.len() && t[j] == c;
                assert(b[j] == c);
            }
        }
        lemma_split_join(a, t, c);
        assert(s.drop_last() =~= a + seq![c] + t);
        assert(s.last() == b.last());
        assert(b.last() != c) by {
            assert(b[b.len() - 1] == b.last());
        }
        lemma_split_nonempty(a, c);
        assert(t.push(b.last()) =~= b);
        assert(spec_split(a, c).push(t).update(spec_split(a, c).len() as int, t.push(b.last()))
            =~= spec_split(a, c).push(b));
    }
}

/// The first occurrence of `c` is at `i` when `s[i]` is `c` and no earlier character is.
pub proof fn lemma_find_first(s: Seq<char>, c: char, i: int)
    requires
        0 <= i < s.len(),
        s[i] == c,
        forall|j: int| 0 <= j < i ==> s[j] != c,
    ensures
        spec_find(s, c) == Some(i),
{
    lemma_find(s, c);
}

/// A text that neither begins nor ends with white space trims to itself.
pub proof fn lemma_trim_unchanged(s: Seq<char>)
    requires
        s.len() > 0,
        !spec_is_whitespace(s[0]),
        !spec_is_whitespace(s.last()),
    ensures
        spec_trim(s) == s,
{
}

} // verus!
