//! Character-level helpers over script text: whitespace, trimming, searching,
//! quoted values and unsigned decimal numbers.
use vstd::prelude::*;

verus! {

/// The characters that Rust's `char::is_whitespace` accepts (Unicode White_Space).
pub open spec fn is_space(c: char) -> bool {
    let u = c as u32;
    ||| 0x09 <= u <= 0x0D
    ||| u == 0x20
    ||| u == 0x85
    ||| u == 0xA0
    ||| u == 0x1680
    ||| 0x2000 <= u <= 0x200A
    ||| u == 0x2028
    ||| u == 0x2029
    ||| u == 0x202F
    ||| u == 0x205F
    ||| u == 0x3000
}

pub open spec fn is_digit(c: char) -> bool {
    0x30 <= c as u32 <= 0x39
}

pub open spec fn trim_start(s: Seq<char>) -> Seq<char>
    decreases s.len(),
{
    if s.len() > 0 && is_space(s[0]) {
        trim_start(s.drop_first())
    } else {
        s
    }
}

pub open spec fn trim_end(s: Seq<char>) -> Seq<char>
    decreases s.len(),
{
    if s.len() > 0 && is_space(s.last()) {
        trim_end(s.drop_last())
    } else {
        s
    }
}

/// `s` without leading and trailing whitespace.
pub open spec fn trim(s: Seq<char>) -> Seq<char> {
    trim_end(trim_start(s))
}

pub open spec fn starts_with(s: Seq<char>, p: Seq<char>) -> bool {
    p.len() <= s.len() && s.subrange(0, p.len() as int) == p
}

pub open spec fn contains_char(s: Seq<char>, c: char) -> bool {
    exists|i: int| 0 <= i < s.len() && s[i] == c
}

/// Index of the first `c` at or after `i`, or -1.
pub open spec fn find_char(s: Seq<char>, c: char, i: int) -> int
    decreases s.len() - i,
{
    if i < 0 || i >= s.len() {
        -1
    } else if s[i] == c {
        i
    } else {
        find_char(s, c, i + 1)
    }
}

/// Index of the first occurrence of `p` starting at or after `i`, or -1.
pub open spec fn find_seq(s: Seq<char>, p: Seq<char>, i: int) -> int
    decreases s.len() + 1 - i,
{
    if i < 0 || i + p.len() > s.len() {
        -1
    } else if s.subrange(i, i + p.len()) == p {
        i
    } else {
        find_seq(s, p, i + 1)
    }
}

/// Index of the first non-digit at or after `i`, or the length.
pub open spec fn digit_run_end(s: Seq<char>, i: int) -> int
    decreases s.len() - i,
{
    if i < 0 || i >= s.len() {
        if i < 0 { 0 } else { s.len() as int }
    } else if !is_digit(s[i]) {
        i
    } else {
        digit_run_end(s, i + 1)
    }
}

/// The text between the first and the second double quote of `s`.
pub open spec fn quoted(s: Seq<char>) -> Option<Seq<char>> {
    let a = find_char(s, '"', 0);
    let b = find_char(s, '"', a + 1);
    if a < 0 || b < 0 {
        None
    } else {
        Some(s.subrange(a + 1, b))
    }
}

pub open spec fn all_digits(s: Seq<char>) -> bool {
    forall|i: int| 0 <= i < s.len() ==> is_digit(#[trigger] s[i])
}

/// The number that a string of decimal digits denotes.
pub open spec fn digits_value(s: Seq<char>) -> nat
    decreases s.len(),
{
    if s.len() == 0 {
        0
    } else {
        digits_value(s.drop_last()) * 10 + (s.last() as u32 - 0x30) as nat
    }
}

/// What `str::parse` gives for an unsigned integer type whose largest value is `max`:
/// an optional `+`, then one or more digits whose value is at most `max`.
pub open spec fn parse_unsigned(s: Seq<char>, max: nat) -> Option<nat> {
    let d = if s.len() > 0 && s[0] == '+' {
        s.drop_first()
    } else {
        s
    };
    if d.len() > 0 && all_digits(d) && digits_value(d) <= max {
        Some(digits_value(d))
    } else {
        None
    }
}

pub proof fn lemma_find_char(s: Seq<char>, c: char, i: int)
    ensures
        find_char(s, c, i) == -1 || (0 <= i <= find_char(s, c, i) < s.len() && s[find_char(
            s,
            c,
            i,
        )] == c),
        find_char(s, c, i) == -1 ==> forall|j: int| 0 <= i <= j < s.len() ==> s[j] != c,
    decreases s.len() - i,
{
    if i < 0 || i >= s.len() {
    } else if s[i] == c {
    } else {
        lemma_find_char(s, c, i + 1);
    }
}

pub proof fn lemma_find_seq(s: Seq<char>, p: Seq<char>, i: int)
    ensures
        find_seq(s, p, i) == -1 || (0 <= i <= find_seq(s, p, i) && find_seq(s, p, i) + p.len()
            <= s.len()),
    decreases s.len() + 1 - i,
{
    if i < 0 || i + p.len() > s.len() {
    } else if s.subrange(i, i + p.len()) == p {
    } else {
        lemma_find_seq(s, p, i + 1);
    }
}

proof fn lemma_prefix_value(s: Seq<char>, k: int)
    requires
        all_digits(s),
        0 <= k <= s.len(),
    ensures
        digits_value(s.subrange(0, k)) <= digits_value(s),
    decreases s.len(),
{
    if k < s.len() {
        let t = s.drop_last();
        assert(all_digits(t)) by {
            assert forall|i: int| 0 <= i < t.len() implies is_digit(#[trigger] t[i]) by {
                assert(t[i] == s[i]);
            }
        }
        lemma_prefix_value(t, k);
        assert(t.subrange(0, k) =~= s.subrange(0, k));
    } else {
        assert(s.subrange(0, k) =~= s);
    }
}

pub fn space(c: char) -> (r: bool)
    ensures
        r == is_space(c),
{
    let u = c as u32;
    (0x09 <= u && u <= 0x0D) || u == 0x20 || u == 0x85 || u == 0xA0 || u == 0x1680 || (0x2000
        <= u && u <= 0x200A) || u == 0x2028 || u == 0x2029 || u == 0x202F || u == 0x205F || u
        == 0x3000
}

pub fn digit(c: char) -> (r: bool)
    ensures
        r == is_digit(c),
{
    let u = c as u32;
    0x30 <= u && u <= 0x39
}

/// The characters of `s`, in order.
pub fn chars_of(s: &str) -> (r: Vec<char>)
    ensures
        r@ == s@,
{
    let n = s.unicode_len();
    let mut r: Vec<char> = Vec::new();
    let mut i: usize = 0;
    while i < n
        invariant
            n == s@.len(),
            i <= n,
            r@ == s@.subrange(0, i as int),
        decreases n - i,
    {
        r.push(s.get_char(i));
        i = i + 1;
        assert(r@ =~= s@.subrange(0, i as int));
    }
    assert(r@ =~= s@);
    r
}

/// The text of `s` between the character indices `lo` and `hi`.
pub fn text_of(s: &str, lo: usize, hi: usize) -> (r: String)
    requires
        lo <= hi <= s@.len(),
    ensures
        r@ == s@.subrange(lo as int, hi as int),
{
    String::from_str(s.substring_char(lo, hi))
}

/// The bounds of `t[lo..hi]` with surrounding whitespace removed.
pub fn trim_bounds(t: &Vec<char>, lo: usize, hi: usize) -> (r: (usize, usize))
    requires
        lo <= hi <= t@.len(),
    ensures
        lo <= r.0 <= r.1 <= hi,
        t@.subrange(r.0 as int, r.1 as int) == trim(t@.subrange(lo as int, hi as int)),
{
    let mut a = lo;
    while a < hi && space(t[a])
        invariant
            lo <= a <= hi <= t@.len(),
            trim_start(t@.subrange(a as int, hi as int)) == trim_start(
                t@.subrange(lo as int, hi as int),
            ),
        decreases hi - a,
    {
        assert(t@.subrange(a as int, hi as int).drop_first() =~= t@.subrange(
            a as int + 1,
            hi as int,
        ));
        a = a + 1;
    }
    let mut b = hi;
    while a < b && space(t[b - 1])
        invariant
            lo <= a <= b <= hi <= t@.len(),
            trim_end(t@.subrange(a as int, b as int)) == trim_end(t@.subrange(a as int, hi as int)),
        decreases b - a,
    {
        assert(t@.subrange(a as int, b as int).drop_last() =~= t@.subrange(
            a as int,
            b as int - 1,
        ));
        b = b - 1;
    }
    (a, b)
}

/// Whether `t[lo..hi]` starts with the characters of `p`.
pub fn starts_with_at(t: &Vec<char>, lo: usize, hi: usize, p: &str) -> (r: bool)
    requires
        lo <= hi <= t@.len(),
    ensures
        r == starts_with(t@.subrange(lo as int, hi as int), p@),
{
    let n = p.unicode_len();
    if n > hi - lo {
        return false;
    }
    let mut i: usize = 0;
    while i < n
        invariant
            n == p@.len(),
            lo + n <= hi <= t@.len(),
            i <= n,
            forall|j: int| 0 <= j < i ==> t@[lo + j] == p@[j],
        decreases n - i,
    {
        if t[lo + i] != p.get_char(i) {
            assert(t@.subrange(lo as int, hi as int).subrange(0, n as int)[i as int] != p@[i as int]);
            return false;
        }
        i = i + 1;
    }
    assert(t@.subrange(lo as int, hi as int).subrange(0, n as int) =~= p@);
    true
}

/// Whether `t[lo..hi]` equals the characters of `p`.
pub fn equals_at(t: &Vec<char>, lo: usize, hi: usize, p: &str) -> (r: bool)
    requires
        lo <= hi <= t@.len(),
    ensures
        r == (t@.subrange(lo as int, hi as int) == p@),
{
    let n = p.unicode_len();
    if n != hi - lo {
        return false;
    }
    let r = starts_with_at(t, lo, hi, p);
    assert(t@.subrange(lo as int, hi as int).subrange(0, n as int) =~= t@.subrange(
        lo as int,
        hi as int,
    ));
    r
}

/// Where the first `c` of `t[lo..hi]` stands, counted from `lo`.
pub fn find_char_at(t: &Vec<char>, lo: usize, hi: usize, c: char, from: usize) -> (r: Option<
    usize,
>)
    requires
        lo <= hi <= t@.len(),
    ensures
        match r {
            Some(k) => k as int == find_char(t@.subrange(lo as int, hi as int), c, from as int),
            None => find_char(t@.subrange(lo as int, hi as int), c, from as int) == -1,
        },
{
    let ghost s = t@.subrange(lo as int, hi as int);
    if from >= hi - lo {
        return None;
    }
    let mut i = from;
    while i < hi - lo
        invariant
            lo <= hi <= t@.len(),
            s == t@.subrange(lo as int, hi as int),
            from <= i <= hi - lo,
            find_char(s, c, i as int) == find_char(s, c, from as int),
        decreases hi - lo - i,
    {
        if t[lo + i] == c {
            return Some(i);
        }
        i = i + 1;
    }
    None
}

/// Whether some character of `t[lo..hi]` is `c`.
pub fn contains_at(t: &Vec<char>, lo: usize, hi: usize, c: char) -> (r: bool)
    requires
        lo <= hi <= t@.len(),
    ensures
        r == contains_char(t@.subrange(lo as int, hi as int), c),
{
    let ghost s = t@.subrange(lo as int, hi as int);
    let r = find_char_at(t, lo, hi, c, 0);
    proof {
        lemma_find_char(s, c, 0);
    }
    match r {
        Some(_) => true,
        None => false,
    }
}

/// Where `p` first occurs in `t[lo..hi]`, counted from `lo`.
pub fn find_seq_at(t: &Vec<char>, lo: usize, hi: usize, p: &Vec<char>) -> (r: Option<usize>)
    requires
        lo <= hi <= t@.len(),
    ensures
        match r {
            Some(k) => k as int == find_seq(t@.subrange(lo as int, hi as int), p@, 0),
            None => find_seq(t@.subrange(lo as int, hi as int), p@, 0) == -1,
        },
{
    let ghost s = t@.subrange(lo as int, hi as int);
    let n = p.len();
    if n > hi - lo {
        return None;
    }
    let mut i: usize = 0;
    while i <= hi - lo - n
        invariant
            lo <= hi <= t@.len(),
            s == t@.subrange(lo as int, hi as int),
            n == p@.len(),
            n <= hi - lo,
            i <= hi - lo - n + 1,
            find_seq(s, p@, i as int) == find_seq(s, p@, 0),
        decreases hi - lo - n + 1 - i,
    {
        let mut j: usize = 0;
        let mut same = true;
        while j < n
            invariant
                lo <= hi <= t@.len(),
                s == t@.subrange(lo as int, hi as int),
                n == p@.len(),
                i + n <= hi - lo,
                j <= n,
                same == (forall|k: int| 0 <= k < j ==> s[i + k] == p@[k]),
            decreases n - j,
        {
            if t[lo + i + j] != p[j] {
                same = false;
            }
            j = j + 1;
        }
        if same {
            assert(s.subrange(i as int, i + n) =~= p@);
            return Some(i);
        } else {
            assert(s.subrange(i as int, i + n) != p@) by {
                let k = choose|k: int| 0 <= k < n && s[i + k] != p@[k];
                assert(s.subrange(i as int, i + n)[k] != p@[k]);
            }
        }
        i = i + 1;
    }
    None
}

/// The value of `t[lo..hi]` read as an unsigned decimal number no larger than `max`.
pub fn parse_unsigned_at(t: &Vec<char>, lo: usize, hi: usize, max: u64) -> (r: Option<u64>)
    requires
        lo <= hi <= t@.len(),
    ensures
        match parse_unsigned(t@.subrange(lo as int, hi as int), max as nat) {
            Some(v) => r == Some(v as u64),
            None => r is None,
        },
{
    let ghost s = t@.subrange(lo as int, hi as int);
    let start = if lo < hi && t[lo] == '+' {
        lo + 1
    } else {
        lo
    };
    let ghost d = t@.subrange(start as int, hi as int);
    assert(s.len() > 0 ==> s[0] == t@[lo as int]);
    assert(d =~= (if s.len() > 0 && s[0] == '+' {
        s.drop_first()
    } else {
        s
    }));
    if start == hi {
        return None;
    }
    let mut v: u64 = 0;
    let mut i = start;
    while i < hi
        invariant
            lo <= start <= i <= hi <= t@.len(),
            d == t@.subrange(start as int, hi as int),
            s == t@.subrange(lo as int, hi as int),
            d == (if s.len() > 0 && s[0] == '+' {
                s.drop_first()
            } else {
                s
            }),
            all_digits(d.subrange(0, i - start)),
            v as nat == digits_value(d.subrange(0, i - start)),
            v <= max,
        decreases hi - i,
    {
        let c = t[i];
        if !digit(c) {
            assert(!all_digits(d)) by {
                assert(d[i - start] == c);
            }
            assert(parse_unsigned(s, max as nat) is None);
            return None;
        }
        let k = (c as u32 - 0x30) as u64;
        let ghost next = d.subrange(0, i - start + 1);
        assert(next.drop_last() =~= d.subrange(0, i - start));
        assert(next.last() == c);
        assert(all_digits(next)) by {
            assert forall|j: int| 0 <= j < next.len() implies is_digit(#[trigger] next[j]) by {
                if j < next.len() - 1 {
                    assert(next[j] == d.subrange(0, i - start)[j]);
                }
            }
        }
        if k > max || v > (max - k) / 10 {
            proof {
                if k <= max {
                    assert(v * 10 + k > max) by (nonlinear_arith)
                        requires
                            v > (max - k) / 10,
                            k <= max,
                    ;
                }
            }
            assert(digits_value(next) > max);
            proof {
                if all_digits(d) {
                    lemma_prefix_value(d, i - start + 1);
                }
            }
            assert(parse_unsigned(s, max as nat) is None);
            return None;
        }
        proof {
            assert(v * 10 + k <= max) by (nonlinear_arith)
                requires
                    v <= (max - k) / 10,
                    k <= max,
            ;
        }
        v = v * 10 + k;
        i = i + 1;
    }
    assert(d.subrange(0, hi - start) =~= d);
    Some(v)
}

/// The bounds of the text between the first two double quotes of `t[lo..hi]`.
pub fn quoted_at(t: &Vec<char>, lo: usize, hi: usize) -> (r: Option<(usize, usize)>)
    requires
        lo <= hi <= t@.len(),
    ensures
        match r {
            Some((a, b)) => lo <= a <= b <= hi && quoted(t@.subrange(lo as int, hi as int))
                == Some(t@.subrange(a as int, b as int)),
            None => quoted(t@.subrange(lo as int, hi as int)) is None,
        },
{
    let ghost s = t@.subrange(lo as int, hi as int);
    proof {
        lemma_find_char(s, '"', 0);
    }
    match find_char_at(t, lo, hi, '"', 0) {
        None => None,
        Some(a) => {
            proof {
                lemma_find_char(s, '"', a + 1);
            }
            match find_char_at(t, lo, hi, '"', a + 1) {
                None => None,
                Some(b) => {
                    assert(s.subrange(a + 1, b as int) =~= t@.subrange(
                        lo + a + 1,
                        lo + b,
                    ));
                    Some((lo + a + 1, lo + b))
                },
            }
        },
    }
}

/// The characters of `name` followed by `=`, and by `"` when `quote` holds.
pub fn key_pattern(name: &str, quote: bool) -> (r: Vec<char>)
    ensures
        r@ == (if quote {
            name@ + seq!['=', '"']
        } else {
            name@ + seq!['=']
        }),
{
    let mut r = chars_of(name);
    r.push('=');
    if quote {
        r.push('"');
    }
    assert(r@ =~= (if quote {
        name@ + seq!['=', '"']
    } else {
        name@ + seq!['=']
    }));
    r
}

/// Where the run of digits that begins at `lo` ends.
pub fn digit_end_at(t: &Vec<char>, lo: usize, hi: usize) -> (r: usize)
    requires
        lo <= hi <= t@.len(),
    ensures
        lo <= r <= hi,
        r - lo == digit_run_end(t@.subrange(lo as int, hi as int), 0),
{
    let ghost s = t@.subrange(lo as int, hi as int);
    let mut i = lo;
    while i < hi && digit(t[i])
        invariant
            lo <= i <= hi <= t@.len(),
            s == t@.subrange(lo as int, hi as int),
            digit_run_end(s, i - lo) == digit_run_end(s, 0),
        decreases hi - i,
    {
        i = i + 1;
    }
    i
}

/// Index of the first whitespace character at or after `i`, or -1.
pub open spec fn find_space(s: Seq<char>, i: int) -> int
    decreases s.len() - i,
{
    if i < 0 || i >= s.len() {
        -1
    } else if is_space(s[i]) {
        i
    } else {
        find_space(s, i + 1)
    }
}

pub proof fn lemma_find_space(s: Seq<char>, i: int)
    requires
        0 <= i,
    ensures
        find_space(s, i) == -1 || i <= find_space(s, i) < s.len(),
    decreases s.len() - i,
{
    if i < s.len() && !is_space(s[i]) {
        lemma_find_space(s, i + 1);
    }
}

/// Where the first whitespace character of `t[lo..hi]` stands, counted from `lo`.
pub fn find_space_at(t: &Vec<char>, lo: usize, hi: usize) -> (r: Option<usize>)
    requires
        lo <= hi <= t@.len(),
    ensures
        match r {
            Some(k) => k as int == find_space(t@.subrange(lo as int, hi as int), 0),
            None => find_space(t@.subrange(lo as int, hi as int), 0) == -1,
        },
{
    let ghost s = t@.subrange(lo as int, hi as int);
    let mut i: usize = 0;
    while i < hi - lo
        invariant
            lo <= hi <= t@.len(),
            s == t@.subrange(lo as int, hi as int),
            i <= hi - lo,
            find_space(s, i as int) == find_space(s, 0),
        decreases hi - lo - i,
    {
        if space(t[lo + i]) {
            return Some(i);
        }
        i = i + 1;
    }
    None
}

/// The first word of a line: what stands before its first whitespace character.
pub open spec fn word_of(line: Seq<char>) -> Seq<char> {
    let k = find_space(line, 0);
    if k < 0 {
        line
    } else {
        line.subrange(0, k)
    }
}

/// What follows the first whitespace character of a line.
pub open spec fn args_of(line: Seq<char>) -> Seq<char> {
    let k = find_space(line, 0);
    if k < 0 {
        seq![]
    } else {
        line.subrange(k + 1, line.len() as int)
    }
}

/// The bounds of the first word of `t[lo..hi]` and of what follows it.
pub fn word_bounds(t: &Vec<char>, lo: usize, hi: usize) -> (r: (usize, usize, usize, usize))
    requires
        lo <= hi <= t@.len(),
    ensures
        lo <= r.0 <= r.1 <= hi,
        lo <= r.2 <= r.3 <= hi,
        t@.subrange(r.0 as int, r.1 as int) == word_of(t@.subrange(lo as int, hi as int)),
        t@.subrange(r.2 as int, r.3 as int) == args_of(t@.subrange(lo as int, hi as int)),
{
    let ghost s = t@.subrange(lo as int, hi as int);
    proof {
        lemma_find_space(s, 0);
    }
    match find_space_at(t, lo, hi) {
        None => {
            assert(t@.subrange(hi as int, hi as int) =~= seq![]);
            (lo, hi, hi, hi)
        },
        Some(k) => {
            assert(s.subrange(0, k as int) =~= t@.subrange(lo as int, lo + k));
            assert(s.subrange(k + 1, s.len() as int) =~= t@.subrange(lo + k + 1, hi as int));
            (lo, lo + k, lo + k + 1, hi)
        },
    }
}

/// Whether `a` and `b` hold the same characters.
pub fn same_text(a: &str, b: &str) -> (r: bool)
    ensures
        r == (a@ == b@),
{
    let n = a.unicode_len();
    if n != b.unicode_len() {
        return false;
    }
    let mut i: usize = 0;
    while i < n
        invariant
            n == a@.len(),
            n == b@.len(),
            i <= n,
            forall|j: int| 0 <= j < i ==> a@[j] == b@[j],
        decreases n - i,
    {
        if a.get_char(i) != b.get_char(i) {
            return false;
        }
        i = i + 1;
    }
    assert(a@ =~= b@);
    true
}

} // verus!
