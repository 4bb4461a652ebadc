use vstd::prelude::*;

verus! {

/// The text an optional string holds.
pub open spec fn opt_text(o: Option<String>) -> Option<Seq<char>> {
    match o {
        Some(s) => Some(s@),
        None => None,
    }
}

/// ASCII whitespace, as trimmed from configured glob patterns.
pub open spec fn is_ws(c: char) -> bool {
    c == ' ' || c == '\t' || c == '\n' || c == '\r'
}

/// The sequence with leading whitespace removed.
pub open spec fn trim_front(s: Seq<char>) -> Seq<char>
    decreases s.len(),
{
    if s.len() > 0 && is_ws(s[0]) {
        trim_front(s.skip(1))
    } else {
        s
    }
}

/// The sequence with trailing whitespace removed.
pub open spec fn trim_back(s: Seq<char>) -> Seq<char>
    decreases s.len(),
{
    if s.len() > 0 && is_ws(s.last()) {
        trim_back(s.drop_last())
    } else {
        s
    }
}

/// The sequence with whitespace removed from both ends.
pub open spec fn trim_text(s: Seq<char>) -> Seq<char> {
    trim_back(trim_front(s))
}

/// A back-trimmed text never ends in whitespace.
pub proof fn lemma_trim_back_end(s: Seq<char>)
    ensures
        trim_back(s).len() == 0 || !is_ws(trim_back(s).last()),
    decreases s.len(),
{
    if s.len() > 0 && is_ws(s.last()) {
        lemma_trim_back_end(s.drop_last());
    }
}

fn is_ws_exec(c: char) -> (r: bool)
    ensures
        r == is_ws(c),
{
    c == ' ' || c == '\t' || c == '\n' || c == '\r'
}

/// Removes ASCII whitespace from both ends of a string.
pub fn trim(s: &str) -> (r: String)
    ensures
        r@ == trim_text(s@),
{
    let len = s.unicode_len();
    let mut start: usize = 0;
    proof {
        assert(s@.skip(0int) =~= s@);
    }
    while start < len && is_ws_exec(s.get_char(start))
        invariant
            len == s@.len(),
            start <= len,
            trim_front(s@) == trim_front(s@.skip(start as int)),
        decreases len - start,
    {
        proof {
            assert(s@.skip(start as int)[0] == s@[start as int]);
            assert(s@.skip(start as int).skip(1) =~= s@.skip(start as int + 1));
        }
        start += 1;
    }
    proof {
        if start < len {
            assert(s@.skip(start as int)[0] == s@[start as int]);
        }
        assert(trim_front(s@) == s@.skip(start as int));
        assert(s@.subrange(start as int, len as int) =~= s@.skip(start as int));
    }
    let mut end: usize = len;
    while end > start && is_ws_exec(s.get_char(end - 1))
        invariant
            len == s@.len(),
            start <= end <= len,
            trim_back(s@.skip(start as int)) == trim_back(
                s@.subrange(start as int, end as int),
            ),
        decreases end,
    {
        proof {
            let sub = s@.subrange(start as int, end as int);
            assert(sub.last() == s@[end - 1]);
            assert(sub.drop_last() =~= s@.subrange(start as int, end as int - 1));
        }
        end -= 1;
    }
    proof {
        let sub = s@.subrange(start as int, end as int);
        if end > start {
            assert(sub.last() == s@[end - 1]);
        }
        assert(trim_back(sub) == sub);
    }
    let piece = s.substring_char(start, end);
    piece.to_owned()
}

/// The code point of a character with ASCII upper case folded to lower case.
pub open spec fn lower_code(c: char) -> u32 {
    if 65 <= (c as u32) && (c as u32) <= 90 {
        ((c as u32) + 32) as u32
    } else {
        c as u32
    }
}

/// Equality of two texts up to ASCII case.
pub open spec fn eq_ci(a: Seq<char>, b: Seq<char>) -> bool {
    a.len() == b.len() && forall|i: int|
        0 <= i < a.len() ==> lower_code(a[i]) == lower_code(#[trigger] b[i])
}

/// Decides equality up to ASCII case.
pub fn str_eq_ci(a: &str, b: &str) -> (r: bool)
    ensures
        r == eq_ci(a@, b@),
{
    let a_len = a.unicode_len();
    let b_len = b.unicode_len();
    if a_len != b_len {
        return false;
    }
    let mut i: usize = 0;
    while i < a_len
        invariant
            a_len == a@.len(),
            b_len == b@.len(),
            a_len == b_len,
            i <= a_len,
            forall|k: int| 0 <= k < i ==> lower_code(a@[k]) == lower_code(#[trigger] b@[k]),
        decreases a_len - i,
    {
        let ca = a.get_char(i) as u32;
        let cb = b.get_char(i) as u32;
        let la = if 65 <= ca && ca <= 90 {
            ca + 32
        } else {
            ca
        };
        let lb = if 65 <= cb && cb <= 90 {
            cb + 32
        } else {
            cb
        };
        if la != lb {
            return false;
        }
        i += 1;
    }
    true
}

/// A digit's place in `0` to `9`, by code point.
pub open spec fn is_digit(c: char) -> bool {
    48 <= (c as u32) && (c as u32) <= 57
}

pub open spec fn digit_val(c: char) -> int {
    (c as u32) - 48
}

/// The shape `YYYY-MM-DD`: four digits, dash, two digits, dash, two digits.
pub open spec fn is_iso_date(s: Seq<char>) -> bool {
    s.len() == 10 && is_digit(s[0]) && is_digit(s[1]) && is_digit(s[2]) && is_digit(s[3])
        && s[4] == '-' && is_digit(s[5]) && is_digit(s[6]) && s[7] == '-' && is_digit(s[8])
        && is_digit(s[9])
}

/// A date's ordering key: later dates give larger keys.
pub open spec fn iso_date_key(s: Seq<char>) -> int {
    digit_val(s[0]) * 10000000 + digit_val(s[1]) * 1000000 + digit_val(s[2]) * 100000
        + digit_val(s[3]) * 10000 + digit_val(s[5]) * 1000 + digit_val(s[6]) * 100 + digit_val(
        s[8],
    ) * 10 + digit_val(s[9])
}

/// Powers of ten, for digit-accumulation bounds.
pub open spec fn pow10(n: int) -> int
    decreases n,
{
    if n <= 0 {
        1
    } else {
        10 * pow10(n - 1)
    }
}

proof fn lemma_pow10_pos(a: int)
    ensures
        pow10(a) >= 1,
    decreases a,
{
    if a > 0 {
        lemma_pow10_pos(a - 1);
    }
}

proof fn lemma_pow10_le(a: int, b: int)
    requires
        a <= b,
    ensures
        pow10(a) <= pow10(b),
        pow10(a) >= 1,
    decreases b - a,
{
    lemma_pow10_pos(a);
    if a < b {
        lemma_pow10_le(a, b - 1);
        lemma_pow10_pos(b - 1);
    }
}

/// How many of the first `i` characters of a date are digit positions.
pub open spec fn digit_count(i: int) -> int {
    i - (if i > 4 {
        1int
    } else {
        0int
    }) - (if i > 7 {
        1int
    } else {
        0int
    })
}

/// Reads a `YYYY-MM-DD` date into its ordering key; `None` exactly when the
/// text does not have that shape.
pub fn parse_date_key(s: &str) -> (r: Option<u64>)
    ensures
        match r {
            Some(k) => is_iso_date(s@) && k == iso_date_key(s@),
            None => !is_iso_date(s@),
        },
{
    if s.unicode_len() != 10 {
        return None;
    }
    let mut key: u64 = 0;
    let mut i: usize = 0;
    while i < 10
        invariant
            s@.len() == 10,
            i <= 10,
            key == key_prefix(s@, i as int),
            key < pow10(digit_count(i as int)),
            forall|k: int|
                0 <= k < i && k != 4 && k != 7 ==> is_digit(#[trigger] s@[k]),
            forall|k: int| 0 <= k < i && (k == 4 || k == 7) ==> s@[k] == '-',
        decreases 10 - i,
    {
        let c = s.get_char(i);
        if i == 4 || i == 7 {
            if c != '-' {
                return None;
            }
        } else {
            let code = c as u32;
            if !(48 <= code && code <= 57) {
                return None;
            }
            proof {
                lemma_pow10_le(digit_count(i as int), 8);
                reveal_with_fuel(pow10, 10);
                assert(key < 100000000);
                assert(pow10(digit_count(i as int) + 1) == 10 * pow10(
                    digit_count(i as int),
                ));
            }
            key = key * 10 + ((code - 48) as u64);
        }
        i += 1;
    }
    proof {
        reveal_with_fuel(key_prefix, 11);
        assert(key == iso_date_key(s@));
    }
    Some(key)
}

/// The date key accumulated over the first `n` characters.
pub open spec fn key_prefix(s: Seq<char>, n: int) -> int
    decreases n,
{
    if n <= 0 {
        0
    } else if n - 1 == 4 || n - 1 == 7 {
        key_prefix(s, n - 1)
    } else {
        key_prefix(s, n - 1) * 10 + digit_val(s[n - 1])
    }
}

/// The file name with its extension replaced: everything after the last dot,
/// or nothing when there is none, gives way to `html`.
pub open spec fn cut_ext(s: Seq<char>) -> Option<Seq<char>>
    decreases s.len(),
{
    if s.len() == 0 {
        None
    } else if s.last() == '.' {
        Some(s.drop_last())
    } else {
        cut_ext(s.drop_last())
    }
}

pub open spec fn stem_of(s: Seq<char>) -> Seq<char> {
    match cut_ext(s) {
        Some(t) => t,
        None => s,
    }
}

pub open spec fn html_name_of(name: Seq<char>) -> Seq<char> {
    stem_of(name) + ".html"@
}

proof fn lemma_cut_ext_take(s: Seq<char>, j: int)
    requires
        0 <= j <= s.len(),
        forall|k: int| j <= k < s.len() ==> (#[trigger] s[k]) != '.',
    ensures
        cut_ext(s) == cut_ext(s.take(j)),
    decreases s.len() - j,
{
    if j == s.len() {
        assert(s.take(j) =~= s);
    } else {
        assert(s.last() != '.');
        assert(s.drop_last() =~= s.take(s.len() - 1));
        lemma_cut_ext_take(s.take(s.len() - 1), j);
        assert(s.take(s.len() - 1).take(j) =~= s.take(j));
    }
}

/// Replaces a file name's extension with `html`.
pub fn html_name(name: &str) -> (r: String)
    ensures
        r@ == html_name_of(name@),
{
    let len = name.unicode_len();
    let mut j: usize = len;
    while j > 0 && name.get_char(j - 1) != '.'
        invariant
            len == name@.len(),
            j <= len,
            forall|k: int| j <= k < len ==> (#[trigger] name@[k]) != '.',
        decreases j,
    {
        j -= 1;
    }
    let mut out: String;
    if j == 0 {
        proof {
            lemma_cut_ext_take(name@, 0int);
            assert(name@.take(0int) =~= Seq::<char>::empty());
            assert(cut_ext(Seq::<char>::empty()) is None);
        }
        out = name.to_owned();
    } else {
        proof {
            lemma_cut_ext_take(name@, j as int);
            let taken = name@.take(j as int);
            assert(taken.last() == name@[j - 1]);
            assert(taken.drop_last() =~= name@.take(j as int - 1));
            assert(name@.subrange(0int, j as int - 1) =~= name@.take(j as int - 1));
        }
        out = name.substring_char(0, j - 1).to_owned();
    }
    out.append(".html");
    proof {
        reveal_strlit(".html");
    }
    out
}

} // verus!
