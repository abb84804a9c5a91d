//! Verified string helpers shared by the configuration parser, the
//! registry, and the provisioning script builder: equality, prefix and
//! suffix tests, character search, trimming, token scanning, and decimal
//! conversion for unsigned 32-bit values.

use vstd::prelude::*;

verus! {

/// The blank characters that the line-oriented configuration format
/// treats as separators and trimmable padding.
pub open spec fn is_blank(c: char) -> bool {
    c == ' ' || c == '\t' || c == '\r' || c == '\n'
}

/// Executable counterpart of [`is_blank`].
pub fn blank(c: char) -> (b: bool)
    ensures
        b == is_blank(c),
{
    c == ' ' || c == '\t' || c == '\r' || c == '\n'
}

/// Character-wise string equality.
pub fn str_eq(a: &str, b: &str) -> (r: bool)
    ensures
        r == (a@ == b@),
{
    let la = a.unicode_len();
    let lb = b.unicode_len();
    if la != lb {
        proof {
            assert(a@ != b@);
        }
        return false;
    }
    let mut i: usize = 0;
    while i < la
        invariant
            la == a@.len(),
            la == b@.len(),
            i <= la,
            forall|j: int| 0 <= j < i ==> a@[j] == b@[j],
        decreases la - i,
    {
        if a.get_char(i) != b.get_char(i) {
            return false;
        }
        i = i + 1;
    }
    proof {
        assert(a@ =~= b@);
    }
    true
}

/// Whether `p` is a prefix of `s`.
pub open spec fn spec_starts_with(s: Seq<char>, p: Seq<char>) -> bool {
    s.len() >= p.len() && s.subrange(0, p.len() as int) == p
}

/// Executable prefix test.
pub fn starts_with(s: &str, p: &str) -> (r: bool)
    ensures
        r == spec_starts_with(s@, p@),
{
    let ls = s.unicode_len();
    let lp = p.unicode_len();
    if lp > ls {
        return false;
    }
    let mut i: usize = 0;
    while i < lp
        invariant
            ls == s@.len(),
            lp == p@.len(),
            lp <= ls,
            i <= lp,
            forall|j: int| 0 <= j < i ==> s@[j] == p@[j],
        decreases lp - i,
    {
        if s.get_char(i) != p.get_char(i) {
            proof {
                assert(s@.subrange(0, lp as int)[i as int] == s@[i as int]);
            }
            return false;
        }
        i = i + 1;
    }
    proof {
        assert(s@.subrange(0, lp as int) =~= p@);
    }
    true
}

/// Whether `p` is a suffix of `s`.
pub open spec fn spec_ends_with(s: Seq<char>, p: Seq<char>) -> bool {
    s.len() >= p.len() && s.subrange(s.len() - p.len(), s.len() as int) == p
}

/// Executable suffix test.
pub fn ends_with(s: &str, p: &str) -> (r: bool)
    ensures
        r == spec_ends_with(s@, p@),
{
    let ls = s.unicode_len();
    let lp = p.unicode_len();
    if lp > ls {
        return false;
    }
    let off: usize = ls - lp;
    let mut i: usize = 0;
    while i < lp
        invariant
            ls == s@.len(),
            lp == p@.len(),
            off == ls - lp,
            i <= lp,
            forall|j: int| 0 <= j < i ==> s@[off + j] == p@[j],
        decreases lp - i,
    {
        if s.get_char(off + i) != p.get_char(i) {
            proof {
                assert(s@.subrange(off as int, ls as int)[i as int] == s@[off + i]);
            }
            return false;
        }
        i = i + 1;
    }
    proof {
        assert(s@.subrange(off as int, ls as int) =~= p@);
    }
    true
}

/// Index of the first occurrence of `c` in `s` at or after `from`,
/// or `None` if there is none.
pub open spec fn spec_find(s: Seq<char>, c: char, from: int) -> Option<int>
    decreases s.len() - from,
{
    if from < 0 || from >= s.len() {
        None
    } else if s[from] == c {
        Some(from)
    } else {
        spec_find(s, c, from + 1)
    }
}

/// A found index lies in range, holds `c`, and nothing before it does.
pub proof fn lemma_find_props(s: Seq<char>, c: char, from: int)
    requires
        0 <= from <= s.len(),
    ensures
        match spec_find(s, c, from) {
            Some(i) => from <= i < s.len() && s[i] == c && forall|j: int|
                from <= j < i ==> s[j] != c,
            None => forall|j: int| from <= j < s.len() ==> s[j] != c,
        },
    decreases s.len() - from,
{
    if from < s.len() && s[from] != c {
        lemma_find_props(s, c, from + 1);
    }
}

/// The first occurrence at or after `from` is `k` exactly when `k`
/// holds `c` and nothing in between does.
pub proof fn lemma_find_at(s: Seq<char>, c: char, from: int, k: int)
    requires
        0 <= from <= k < s.len(),
        s[k] == c,
        forall|i: int| from <= i < k ==> s[i] != c,
    ensures
        spec_find(s, c, from) == Some(k),
    decreases k - from,
{
    if from < k {
        lemma_find_at(s, c, from + 1, k);
    }
}

/// Executable counterpart of [`spec_find`].
pub fn find_char(s: &str, c: char, from: usize) -> (r: Option<usize>)
    requires
        from <= s@.len(),
    ensures
        match r {
            Some(i) => from <= i && spec_find(s@, c, from as int) == Some(i as int),
            None => spec_find(s@, c, from as int) is None,
        },
{
    let len = s.unicode_len();
    let mut i: usize = from;
    while i < len
        invariant
            len == s@.len(),
            from <= i <= len,
            spec_find(s@, c, from as int) == spec_find(s@, c, i as int),
        decreases len - i,
    {
        if s.get_char(i) == c {
            return Some(i);
        }
        i = i + 1;
    }
    None
}

/// The input without its leading blanks.
pub open spec fn spec_trim_start(s: Seq<char>) -> Seq<char>
    decreases s.len(),
{
    if s.len() == 0 {
        s
    } else if is_blank(s[0]) {
        spec_trim_start(s.drop_first())
    } else {
        s
    }
}

/// The input without its trailing blanks.
pub open spec fn spec_trim_end(s: Seq<char>) -> Seq<char>
    decreases s.len(),
{
    if s.len() == 0 {
        s
    } else if is_blank(s[s.len() - 1]) {
        spec_trim_end(s.drop_last())
    } else {
        s
    }
}

/// The input without leading and trailing blanks.
pub open spec fn spec_trim(s: Seq<char>) -> Seq<char> {
    spec_trim_end(spec_trim_start(s))
}

pub proof fn lemma_trim_start_at(s: Seq<char>, k: int)
    requires
        0 <= k <= s.len(),
        forall|i: int| 0 <= i < k ==> is_blank(s[i]),
        k == s.len() || !is_blank(s[k]),
    ensures
        spec_trim_start(s) == s.subrange(k, s.len() as int),
    decreases k,
{
    if k == 0 {
        assert(s.subrange(0, s.len() as int) =~= s);
    } else {
        lemma_trim_start_at(s.drop_first(), k - 1);
        assert(s.drop_first().subrange(k - 1, s.drop_first().len() as int) =~= s.subrange(
            k,
            s.len() as int,
        ));
    }
}

pub proof fn lemma_trim_end_at(s: Seq<char>, k: int)
    requires
        0 <= k <= s.len(),
        forall|i: int| k <= i < s.len() ==> is_blank(s[i]),
        k == 0 || !is_blank(s[k - 1]),
    ensures
        spec_trim_end(s) == s.subrange(0, k),
    decreases s.len() - k,
{
    if k == s.len() {
        assert(s.subrange(0, s.len() as int) =~= s);
    } else {
        lemma_trim_end_at(s.drop_last(), k);
        assert(s.drop_last().subrange(0, k) =~= s.subrange(0, k));
    }
}

/// Executable counterpart of [`spec_trim`].
pub fn trim(s: &str) -> (r: &str)
    ensures
        r@ == spec_trim(s@),
{
    let len = s.unicode_len();
    let mut start: usize = 0;
    while start < len && blank(s.get_char(start))
        invariant
            len == s@.len(),
            start <= len,
            forall|i: int| 0 <= i < start ==> is_blank(s@[i]),
        decreases len - start,
    {
        start = start + 1;
    }
    proof {
        lemma_trim_start_at(s@, start as int);
    }
    if start == len {
        let r = s.substring_char(len, len);
        proof {
            assert(spec_trim_start(s@) =~= Seq::<char>::empty());
            assert(spec_trim_end(Seq::<char>::empty()) =~= Seq::<char>::empty());
            assert(r@ =~= Seq::<char>::empty());
        }
        return r;
    }
    let mut end: usize = len;
    while end > start && blank(s.get_char(end - 1))
        invariant
            len == s@.len(),
            start <= end <= len,
            start < len,
            !is_blank(s@[start as int]),
            forall|i: int| end <= i < len ==> is_blank(s@[i]),
        decreases end,
    {
        end = end - 1;
    }
    proof {
        let t = s@.subrange(start as int, len as int);
        assert(end > start) by {
            if end == start {
                assert(is_blank(s@[start as int]));
            }
        }
        assert(forall|i: int|
            (end - start) <= i < t.len() ==> is_blank(#[trigger] t[i]) && t[i] == s@[
                i + start
            ]);
        assert(!is_blank(t[end - start - 1]));
        lemma_trim_end_at(t, end - start);
        assert(t.subrange(0, end - start) =~= s@.subrange(start as int, end as int));
    }
    s.substring_char(start, end)
}

/// Index of the first non-blank character at or after `from`, or the
/// length of the input if all remaining characters are blank.
pub open spec fn spec_skip_blanks(s: Seq<char>, from: int) -> int
    decreases s.len() - from,
{
    if from < 0 || from >= s.len() {
        s.len() as int
    } else if is_blank(s[from]) {
        spec_skip_blanks(s, from + 1)
    } else {
        from
    }
}

/// Executable counterpart of [`spec_skip_blanks`].
pub fn skip_blanks(s: &str, from: usize) -> (r: usize)
    requires
        from <= s@.len(),
    ensures
        r == spec_skip_blanks(s@, from as int),
        from <= r <= s@.len(),
{
    let len = s.unicode_len();
    let mut i: usize = from;
    while i < len && blank(s.get_char(i))
        invariant
            len == s@.len(),
            from <= i <= len,
            spec_skip_blanks(s@, from as int) == spec_skip_blanks(s@, i as int),
        decreases len - i,
    {
        i = i + 1;
    }
    i
}

/// Index of the first blank character at or after `from`, or the length
/// of the input if none follows.
pub open spec fn spec_token_end(s: Seq<char>, from: int) -> int
    decreases s.len() - from,
{
    if from < 0 || from >= s.len() {
        s.len() as int
    } else if is_blank(s[from]) {
        from
    } else {
        spec_token_end(s, from + 1)
    }
}

/// Executable counterpart of [`spec_token_end`].
pub fn token_end(s: &str, from: usize) -> (r: usize)
    requires
        from <= s@.len(),
    ensures
        r == spec_token_end(s@, from as int),
        from <= r <= s@.len(),
{
    let len = s.unicode_len();
    let mut i: usize = from;
    while i < len && !blank(s.get_char(i))
        invariant
            len == s@.len(),
            from <= i <= len,
            spec_token_end(s@, from as int) == spec_token_end(s@, i as int),
        decreases len - i,
    {
        i = i + 1;
    }
    i
}

/// The input is its own trim when it neither starts nor ends blank.
pub proof fn lemma_trim_of_clean(s: Seq<char>)
    requires
        s.len() > 0,
        !is_blank(s[0]),
        !is_blank(s[s.len() - 1]),
    ensures
        spec_trim(s) == s,
{
    lemma_trim_start_at(s, 0);
    assert(s.subrange(0, s.len() as int) =~= s);
    lemma_trim_end_at(s, s.len() as int);
}

/// The blank run starting at `from` ends exactly at `k`.
pub proof fn lemma_skip_blanks_at(s: Seq<char>, from: int, k: int)
    requires
        0 <= from <= k <= s.len(),
        forall|i: int| from <= i < k ==> is_blank(s[i]),
        k == s.len() || !is_blank(s[k]),
    ensures
        spec_skip_blanks(s, from) == k,
    decreases k - from,
{
    if from < k {
        lemma_skip_blanks_at(s, from + 1, k);
    }
}

/// The token starting at `from` ends exactly at `k`.
pub proof fn lemma_token_end_at(s: Seq<char>, from: int, k: int)
    requires
        0 <= from <= k <= s.len(),
        forall|i: int| from <= i < k ==> !is_blank(s[i]),
        k == s.len() || is_blank(s[k]),
    ensures
        spec_token_end(s, from) == k,
    decreases k - from,
{
    if from < k {
        lemma_token_end_at(s, from + 1, k);
    }
}

/// The segments of `s` between occurrences of `c`, starting at `from`:
/// splitting never yields an empty result, and a trailing separator
/// yields a final empty segment.
pub open spec fn spec_split_from(s: Seq<char>, c: char, from: int) -> Seq<Seq<char>>
    decreases s.len() - from,
{
    if from < 0 || from > s.len() {
        Seq::empty()
    } else {
        match spec_find(s, c, from) {
            Some(i) => if from <= i < s.len() {
                seq![s.subrange(from, i)] + spec_split_from(s, c, i + 1)
            } else {
                seq![s.subrange(from, s.len() as int)]
            },
            None => seq![s.subrange(from, s.len() as int)],
        }
    }
}

/// Splitting from `from` is splitting the suffix that starts there.
pub proof fn lemma_split_shift(s: Seq<char>, c: char, from: int)
    requires
        0 <= from <= s.len(),
    ensures
        spec_split_from(s, c, from) == spec_split_from(
            s.subrange(from, s.len() as int),
            c,
            0,
        ),
    decreases s.len() - from,
{
    let suf = s.subrange(from, s.len() as int);
    lemma_find_props(s, c, from);
    lemma_find_props(suf, c, 0);
    match spec_find(s, c, from) {
        Some(k) => {
            assert(suf[k - from] == c);
            lemma_find_at(suf, c, 0, k - from);
            lemma_split_shift(s, c, k + 1);
            lemma_split_shift(suf, c, k - from + 1);
            assert(suf.subrange(k - from + 1, suf.len() as int) =~= s.subrange(
                k + 1,
                s.len() as int,
            ));
            assert(suf.subrange(0, k - from) =~= s.subrange(from, k));
        },
        None => {
            if spec_find(suf, c, 0) is Some {
                let j = spec_find(suf, c, 0)->Some_0;
                assert(s[from + j] == suf[j]);
                assert(false);
            }
            assert(suf.subrange(0, suf.len() as int) =~= suf);
        },
    }
}

/// Peeling the first separated segment off a split.
pub proof fn lemma_split_cons(line: Seq<char>, sep: char, rest: Seq<char>)
    requires
        forall|i: int| 0 <= i < line.len() ==> line[i] != sep,
    ensures
        spec_split_from(line + seq![sep] + rest, sep, 0) == seq![line] + spec_split_from(
            rest,
            sep,
            0,
        ),
{
    let s = line + seq![sep] + rest;
    let k = line.len() as int;
    assert(s[k] == sep);
    assert(forall|i: int| 0 <= i < k ==> s[i] == line[i] && s[i] != sep);
    lemma_find_at(s, sep, 0, k);
    assert(s.subrange(0, k) =~= line);
    lemma_split_shift(s, sep, k + 1);
    assert(s.subrange(k + 1, s.len() as int) =~= rest);
}

/// A text without the separator splits to itself alone.
pub proof fn lemma_split_single(s: Seq<char>, sep: char)
    requires
        forall|i: int| 0 <= i < s.len() ==> s[i] != sep,
    ensures
        spec_split_from(s, sep, 0) == seq![s],
{
    lemma_find_props(s, sep, 0);
    if spec_find(s, sep, 0) is Some {
        assert(false);
    }
    assert(s.subrange(0, s.len() as int) =~= s);
}

/// A decimal digit character.
pub open spec fn is_dec_digit(c: char) -> bool {
    '0' <= c && c <= '9'
}

/// Numeric value of a decimal digit character.
pub open spec fn digit_val(c: char) -> nat {
    (c as nat - '0' as nat) as nat
}

/// The character for a single decimal digit value.
pub open spec fn digit_char(d: nat) -> char {
    if d == 0 {
        '0'
    } else if d == 1 {
        '1'
    } else if d == 2 {
        '2'
    } else if d == 3 {
        '3'
    } else if d == 4 {
        '4'
    } else if d == 5 {
        '5'
    } else if d == 6 {
        '6'
    } else if d == 7 {
        '7'
    } else if d == 8 {
        '8'
    } else {
        '9'
    }
}

/// Whether every character of `s` is a decimal digit.
pub open spec fn all_dec_digits(s: Seq<char>) -> bool {
    forall|i: int| 0 <= i < s.len() ==> is_dec_digit(s[i])
}

/// Value of a digit string read most-significant first.
pub open spec fn digits_val(s: Seq<char>) -> nat
    decreases s.len(),
{
    if s.len() == 0 {
        0
    } else {
        digits_val(s.drop_last()) * 10 + digit_val(s.last())
    }
}

/// Value of a plain digit string, if it is one and fits in 32 bits.
pub open spec fn spec_parse_digits(d: Seq<char>) -> Option<u32> {
    if d.len() > 0 && all_dec_digits(d) && digits_val(d) <= u32::MAX {
        Some(digits_val(d) as u32)
    } else {
        None
    }
}

/// What `str::parse::<u32>` accepts: an optional leading `+`, then at
/// least one decimal digit, with the value fitting in 32 bits.
pub open spec fn spec_parse_u32(s: Seq<char>) -> Option<u32> {
    if s.len() > 0 && s[0] == '+' {
        spec_parse_digits(s.drop_first())
    } else {
        spec_parse_digits(s)
    }
}

proof fn lemma_digits_val_grows(s: Seq<char>, k: int)
    requires
        0 <= k <= s.len(),
    ensures
        digits_val(s) >= digits_val(s.subrange(0, k)),
    decreases s.len() - k,
{
    if k < s.len() {
        lemma_digits_val_grows(s, k + 1);
        let a = s.subrange(0, k);
        let b = s.subrange(0, k + 1);
        assert(b.drop_last() =~= a);
        assert(digits_val(b) == digits_val(a) * 10 + digit_val(b.last()));
    } else {
        assert(s.subrange(0, k) =~= s);
    }
}

/// Parse a decimal `u32` exactly as the standard library does for this
/// radix: optional `+`, one or more digits, no overflow.
pub fn parse_u32(s: &str) -> (r: Option<u32>)
    ensures
        r == spec_parse_u32(s@),
{
    let len = s.unicode_len();
    let start: usize = if len > 0 && s.get_char(0) == '+' {
        1
    } else {
        0
    };
    let ghost d = if s@.len() > 0 && s@[0] == '+' {
        s@.drop_first()
    } else {
        s@
    };
    proof {
        assert(d =~= s@.subrange(start as int, len as int));
    }
    if start == len {
        return None;
    }
    let mut i: usize = start;
    let mut acc: u32 = 0;
    proof {
        assert(s@.subrange(start as int, start as int) =~= Seq::<char>::empty());
        assert(digits_val(Seq::<char>::empty()) == 0);
    }
    while i < len
        invariant
            len == s@.len(),
            start <= i <= len,
            start < len,
            d == s@.subrange(start as int, len as int),
            spec_parse_u32(s@) == spec_parse_digits(d),
            forall|j: int| start <= j < i ==> is_dec_digit(s@[j]),
            acc as nat == digits_val(s@.subrange(start as int, i as int)),
        decreases len - i,
    {
        let c = s.get_char(i);
        if c < '0' || c > '9' {
            proof {
                assert(d[i - start] == s@[i as int]);
                assert(!all_dec_digits(d));
                assert(spec_parse_digits(d) is None);
                assert(spec_parse_u32(s@) == spec_parse_digits(d));
            }
            return None;
        }
        let dv: u32 = (c as u32) - ('0' as u32);
        proof {
            assert(dv as nat == digit_val(s@[i as int]));
        }
        if acc > (u32::MAX - dv) / 10 {
            proof {
                let p = s@.subrange(start as int, i as int + 1);
                assert(p.drop_last() =~= s@.subrange(start as int, i as int));
                assert(digits_val(p) == acc as nat * 10 + dv as nat);
                assert(acc as nat * 10 + dv as nat > u32::MAX as nat) by (nonlinear_arith)
                    requires
                        acc > (u32::MAX - dv) / 10,
                        dv <= 9,
                ;
                assert(p =~= d.subrange(0, i - start + 1));
                lemma_digits_val_grows(d, i - start + 1);
                assert(digits_val(d) > u32::MAX as nat);
                assert(spec_parse_digits(d) is None);
                assert(spec_parse_u32(s@) == spec_parse_digits(d));
            }
            return None;
        }
        proof {
            assert(acc as nat * 10 + dv as nat <= u32::MAX as nat) by (nonlinear_arith)
                requires
                    acc <= (u32::MAX - dv) / 10,
                    dv <= 9,
            ;
            let p = s@.subrange(start as int, i as int + 1);
            assert(p.drop_last() =~= s@.subrange(start as int, i as int));
            assert(p.last() == s@[i as int]);
            assert(digits_val(p) == digits_val(p.drop_last()) * 10 + digit_val(p.last()));
        }
        acc = acc * 10 + dv;
        i = i + 1;
    }
    proof {
        assert(s@.subrange(start as int, len as int) =~= d);
        assert(all_dec_digits(d));
        assert(digits_val(d) == acc as nat);
        assert(spec_parse_digits(d) == Some(acc));
        assert(spec_parse_u32(s@) == spec_parse_digits(d));
    }
    Some(acc)
}

/// Decimal digit string of `n`, most-significant first, no leading zeros
/// except for the value zero itself.
pub open spec fn spec_u32_digits(n: nat) -> Seq<char>
    decreases n,
{
    if n < 10 {
        seq![digit_char(n)]
    } else {
        spec_u32_digits(n / 10).push(digit_char(n % 10))
    }
}

fn digit_str(d: u32) -> (r: &'static str)
    requires
        d < 10,
    ensures
        r@ =~= seq![digit_char(d as nat)],
{
    proof {
        reveal_strlit("0");
        reveal_strlit("1");
        reveal_strlit("2");
        reveal_strlit("3");
        reveal_strlit("4");
        reveal_strlit("5");
        reveal_strlit("6");
        reveal_strlit("7");
        reveal_strlit("8");
        reveal_strlit("9");
    }
    if d == 0 {
        "0"
    } else if d == 1 {
        "1"
    } else if d == 2 {
        "2"
    } else if d == 3 {
        "3"
    } else if d == 4 {
        "4"
    } else if d == 5 {
        "5"
    } else if d == 6 {
        "6"
    } else if d == 7 {
        "7"
    } else if d == 8 {
        "8"
    } else {
        "9"
    }
}

/// Render `n` in decimal.
pub fn u32_to_string(n: u32) -> (r: String)
    ensures
        r@ == spec_u32_digits(n as nat),
    decreases n,
{
    if n < 10 {
        String::from_str(digit_str(n))
    } else {
        let prefix = u32_to_string(n / 10);
        let r = prefix.concat(digit_str(n % 10));
        proof {
            assert(r@ =~= spec_u32_digits(n as nat));
        }
        r
    }
}

/// A rendered decimal string parses back to the value it was made from.
pub proof fn lemma_u32_digits_roundtrip(n: u32)
    ensures
        all_dec_digits(spec_u32_digits(n as nat)),
        digits_val(spec_u32_digits(n as nat)) == n as nat,
        spec_u32_digits(n as nat).len() > 0,
        spec_u32_digits(n as nat)[0] != '+',
        spec_parse_u32(spec_u32_digits(n as nat)) == Some(n),
{
    lemma_u32_digits_val(n as nat);
    let s = spec_u32_digits(n as nat);
    assert(!is_dec_digit('+'));
    assert(is_dec_digit(s[0]));
}

proof fn lemma_u32_digits_val(n: nat)
    ensures
        all_dec_digits(spec_u32_digits(n)),
        digits_val(spec_u32_digits(n)) == n,
        spec_u32_digits(n).len() > 0,
    decreases n,
{
    if n < 10 {
        let s = seq![digit_char(n)];
        assert(s.drop_last() =~= Seq::<char>::empty());
        assert(digits_val(Seq::<char>::empty()) == 0);
        assert(s.last() == digit_char(n));
        assert(digits_val(s) == digits_val(s.drop_last()) * 10 + digit_val(s.last()));
        assert(is_dec_digit(digit_char(n)) && digit_val(digit_char(n)) == n);
    } else {
        lemma_u32_digits_val(n / 10);
        let p = spec_u32_digits(n / 10);
        let s = p.push(digit_char(n % 10));
        assert(s.drop_last() =~= p);
        assert(is_dec_digit(digit_char(n % 10)) && digit_val(digit_char(n % 10)) == n % 10);
        assert(digits_val(s) == digits_val(p) * 10 + (n % 10));
        assert(forall|i: int| 0 <= i < s.len() ==> is_dec_digit(s[i]));
    }
}

} // verus!

