//! Character-level string utilities.
//!
//! All parsing and formatting in this crate works on `Seq<char>` views of
//! `String` and `&str`.  This module provides the small toolbox those
//! routines share: whitespace trimming, searching, splitting, joining,
//! decimal formatting and lower-casing.

use vstd::prelude::*;

verus! {

/// A character with the Unicode `White_Space` property.  This is the set of
/// characters that trimming removes.
pub open spec fn is_space_char(c: char) -> bool {
    c == '\u{0009}' || c == '\u{000A}' || c == '\u{000B}' || c == '\u{000C}'
        || c == '\u{000D}' || c == '\u{0020}' || c == '\u{0085}' || c == '\u{00A0}'
        || c == '\u{1680}' || c == '\u{2000}' || c == '\u{2001}' || c == '\u{2002}'
        || c == '\u{2003}' || c == '\u{2004}' || c == '\u{2005}' || c == '\u{2006}'
        || c == '\u{2007}' || c == '\u{2008}' || c == '\u{2009}' || c == '\u{200A}'
        || c == '\u{2028}' || c == '\u{2029}' || c == '\u{202F}' || c == '\u{205F}'
        || c == '\u{3000}'
}

/// Decides `is_space_char`.
pub fn is_space(c: char) -> (r: bool)
    ensures
        r == is_space_char(c),
{
    match c {
        '\u{0009}' | '\u{000A}' | '\u{000B}' | '\u{000C}' | '\u{000D}' | '\u{0020}'
        | '\u{0085}' | '\u{00A0}' | '\u{1680}' | '\u{2000}' | '\u{2001}' | '\u{2002}'
        | '\u{2003}' | '\u{2004}' | '\u{2005}' | '\u{2006}' | '\u{2007}' | '\u{2008}'
        | '\u{2009}' | '\u{200A}' | '\u{2028}' | '\u{2029}' | '\u{202F}' | '\u{205F}'
        | '\u{3000}' => true,
        _ => false,
    }
}

/// The sequence without its leading whitespace.
pub open spec fn trim_start_spec(s: Seq<char>) -> Seq<char>
    decreases s.len(),
{
    if s.len() == 0 {
        s
    } else if is_space_char(s[0]) {
        trim_start_spec(s.drop_first())
    } else {
        s
    }
}

/// The sequence without its trailing whitespace.
pub open spec fn trim_end_spec(s: Seq<char>) -> Seq<char>
    decreases s.len(),
{
    if s.len() == 0 {
        s
    } else if is_space_char(s[s.len() - 1]) {
        trim_end_spec(s.drop_last())
    } else {
        s
    }
}

/// The sequence without leading and trailing whitespace.
pub open spec fn trim_spec(s: Seq<char>) -> Seq<char> {
    trim_end_spec(trim_start_spec(s))
}

proof fn lemma_trim_start_at(s: Seq<char>, i: int)
    requires
        0 <= i <= s.len(),
        forall|k: int| 0 <= k < i ==> is_space_char(s[k]),
        i < s.len() ==> !is_space_char(s[i]),
    ensures
        trim_start_spec(s) == s.subrange(i, s.len() as int),
    decreases i,
{
    if i == 0 {
        if s.len() == 0 {
            assert(trim_start_spec(s) =~= s.subrange(0, s.len() as int));
        } else {
            assert(trim_start_spec(s) =~= s.subrange(0, s.len() as int));
        }
    } else {
        assert(is_space_char(s[0]));
        let t = s.drop_first();
        lemma_trim_start_at(t, i - 1);
        assert(t.subrange(i - 1, t.len() as int) =~= s.subrange(i, s.len() as int));
    }
}

proof fn lemma_trim_end_at(s: Seq<char>, j: int)
    requires
        0 <= j <= s.len(),
        forall|k: int| j <= k < s.len() ==> is_space_char(s[k]),
        j > 0 ==> !is_space_char(s[j - 1]),
    ensures
        trim_end_spec(s) == s.subrange(0, j),
    decreases s.len() - j,
{
    if j == s.len() {
        if j == 0 {
            assert(trim_end_spec(s) =~= s.subrange(0, j));
        } else if is_space_char(s[s.len() - 1]) {
            assert(false);
        } else {
            assert(trim_end_spec(s) =~= s.subrange(0, j));
        }
    } else {
        assert(is_space_char(s[s.len() - 1]));
        let t = s.drop_last();
        lemma_trim_end_at(t, j);
        assert(t.subrange(0, j) =~= s.subrange(0, j));
    }
}

/// `str::trim`, at character level: the view of the result is the input view
/// without leading and trailing whitespace.
pub fn trim(s: &str) -> (r: &str)
    ensures
        r@ == trim_spec(s@),
{
    let n = s.unicode_len();
    let mut start: usize = 0;
    while start < n && is_space(s.get_char(start))
        invariant
            n == s@.len(),
            0 <= start <= n,
            forall|k: int| 0 <= k < start ==> is_space_char(s@[k]),
        decreases n - start,
    {
        start = start + 1;
    }
    let mut end: usize = n;
    while end > start && is_space(s.get_char(end - 1))
        invariant
            n == s@.len(),
            start <= end <= n,
            forall|k: int| end <= k < n ==> is_space_char(s@[k]),
        decreases end,
    {
        end = end - 1;
    }
    let r = s.substring_char(start, end);
    proof {
        lemma_trim_start_at(s@, start as int);
        let t = s@.subrange(start as int, s@.len() as int);
        lemma_trim_end_at(t, end - start);
        assert(t.subrange(0, end - start) =~= s@.subrange(start as int, end as int));
    }
    r
}

/// Character-by-character string equality: `r <==> a@ == b@`.
pub fn str_eq(a: &str, b: &str) -> (r: bool)
    ensures
        r == (a@ == b@),
{
    let n = a.unicode_len();
    if n != b.unicode_len() {
        proof {
            assert(a@ != b@);
        }
        return false;
    }
    let mut i: usize = 0;
    while i < n
        invariant
            n == a@.len(),
            n == b@.len(),
            0 <= i <= n,
            forall|k: int| 0 <= k < i ==> a@[k] == b@[k],
        decreases n - i,
    {
        if a.get_char(i) != b.get_char(i) {
            proof {
                assert(a@ != b@);
            }
            return false;
        }
        i = i + 1;
    }
    proof {
        assert(a@ =~= b@);
    }
    true
}

/// The position of the first occurrence of `c` in `s`, if any.
pub open spec fn find_char_spec(s: Seq<char>, c: char) -> Option<int>
    decreases s.len(),
{
    if s.len() == 0 {
        None
    } else if s[0] == c {
        Some(0)
    } else {
        match find_char_spec(s.drop_first(), c) {
            Some(i) => Some(i + 1),
            None => None,
        }
    }
}

proof fn lemma_find_char_at(s: Seq<char>, c: char, i: int)
    requires
        0 <= i <= s.len(),
        forall|k: int| 0 <= k < i ==> s[k] != c,
        i < s.len() ==> s[i] == c,
    ensures
        i < s.len() ==> find_char_spec(s, c) == Some(i),
        i == s.len() ==> find_char_spec(s, c) is None,
    decreases i,
{
    if i == 0 {
    } else {
        lemma_find_char_at(s.drop_first(), c, i - 1);
    }
}

/// Finds the first occurrence of `c` in `s`.
pub fn find_char(s: &str, c: char) -> (r: Option<usize>)
    ensures
        match r {
            Some(i) => find_char_spec(s@, c) == Some(i as int) && i < s@.len(),
            None => find_char_spec(s@, c) is None,
        },
{
    let n = s.unicode_len();
    let mut i: usize = 0;
    while i < n
        invariant
            n == s@.len(),
            0 <= i <= n,
            forall|k: int| 0 <= k < i ==> s@[k] != c,
        decreases n - i,
    {
        if s.get_char(i) == c {
            proof {
                lemma_find_char_at(s@, c, i as int);
            }
            return Some(i);
        }
        i = i + 1;
    }
    proof {
        lemma_find_char_at(s@, c, n as int);
    }
    None
}

/// The decimal digit character for `d` (which must be below ten).
pub open spec fn digit_char(d: nat) -> char {
    if d == 0 {
        '0'
    } else if d == 1 {
        '1'
    } else if d == 2 {
        '2'
    } else if d == 3 {
        '3'
    } else if d == 4 {
        '4'
    } else if d == 5 {
        '5'
    } else if d == 6 {
        '6'
    } else if d == 7 {
        '7'
    } else if d == 8 {
        '8'
    } else {
        '9'
    }
}

/// The decimal rendering of `n`, without sign or padding.
pub open spec fn dec_str(n: nat) -> Seq<char>
    decreases n,
{
    if n < 10 {
        seq![digit_char(n)]
    } else {
        dec_str(n / 10) + seq![digit_char(n % 10)]
    }
}

/// A one-character string for the decimal digit `d`.
fn digit_str(d: u128) -> (r: &'static str)
    requires
        d < 10,
    ensures
        r@ == seq![digit_char(d as nat)],
{
    proof {
        reveal_strlit("0");
        reveal_strlit("1");
        reveal_strlit("2");
        reveal_strlit("3");
        reveal_strlit("4");
        reveal_strlit("5");
        reveal_strlit("6");
        reveal_strlit("7");
        reveal_strlit("8");
        reveal_strlit("9");
    }
    let r = match d {
        0 => "0",
        1 => "1",
        2 => "2",
        3 => "3",
        4 => "4",
        5 => "5",
        6 => "6",
        7 => "7",
        8 => "8",
        _ => "9",
    };
    proof {
        assert(r@ =~= seq![digit_char(d as nat)]);
    }
    r
}

/// Formats `n` in decimal.
pub fn uint_to_string(n: u128) -> (r: String)
    ensures
        r@ == dec_str(n as nat),
    decreases n,
{
    if n < 10 {
        String::from_str(digit_str(n))
    } else {
        let mut s = uint_to_string(n / 10);
        s.append(digit_str(n % 10));
        s
    }
}

/// The decimal rendering of a signed number: a minus sign for negative
/// values, then the digits.
pub open spec fn int_str(n: int) -> Seq<char> {
    if n < 0 {
        seq!['-'] + dec_str((-n) as nat)
    } else {
        dec_str(n as nat)
    }
}

/// Formats `n` in decimal, with a minus sign when negative.
pub fn i64_to_string(n: i64) -> (r: String)
    ensures
        r@ == int_str(n as int),
{
    if n < 0 {
        let mut out = String::new();
        proof {
            reveal_strlit("-");
        }
        out.append("-");
        let mag: u128 = (-(n as i128)) as u128;
        out.append(uint_to_string(mag).as_str());
        proof {
            assert(out@ =~= int_str(n as int));
        }
        out
    } else {
        uint_to_string(n as u128)
    }
}

/// Every space character replaced by an underscore; all other characters kept.
pub open spec fn underscored(s: Seq<char>) -> Seq<char> {
    s.map(|i: int, c: char| if c == ' ' { '_' } else { c })
}

/// `str::replace(" ", "_")`: spaces become underscores.
pub fn spaces_to_underscores(s: &str) -> (r: String)
    ensures
        r@ == underscored(s@),
{
    let n = s.unicode_len();
    let mut out = String::new();
    let mut i: usize = 0;
    while i < n
        invariant
            n == s@.len(),
            0 <= i <= n,
            out@ == underscored(s@.take(i as int)),
        decreases n - i,
    {
        let c = s.get_char(i);
        if c == ' ' {
            proof {
                reveal_strlit("_");
            }
            out.append("_");
        } else {
            out.append(s.substring_char(i, i + 1));
        }
        proof {
            assert(s@.take(i + 1).drop_last() =~= s@.take(i as int));
            assert(out@ =~= underscored(s@.take(i + 1)));
        }
        i = i + 1;
    }
    proof {
        assert(s@.take(n as int) =~= s@);
    }
    out
}

/// `s` split at every occurrence of `c`; the separators are not kept.  The
/// result always has at least one element: a sequence without `c` yields
/// itself as the only part.
pub open spec fn split_on(s: Seq<char>, c: char) -> Seq<Seq<char>>
    decreases s.len(),
{
    match find_char_spec(s, c) {
        None => seq![s],
        Some(i) => if 0 <= i < s.len() {
            seq![s.subrange(0, i)] + split_on(s.subrange(i + 1, s.len() as int), c)
        } else {
            seq![s]
        },
    }
}

proof fn lemma_find_char_bound(s: Seq<char>, c: char)
    ensures
        match find_char_spec(s, c) {
            Some(i) => 0 <= i < s.len() && s[i] == c && forall|k: int| 0 <= k < i ==> s[k] != c,
            None => forall|k: int| 0 <= k < s.len() ==> s[k] != c,
        },
    decreases s.len(),
{
    if s.len() != 0 && s[0] != c {
        let t = s.drop_first();
        lemma_find_char_bound(t, c);
        match find_char_spec(t, c) {
            Some(i) => {
                assert(s[i + 1] == t[i]);
                assert forall|k: int| 0 <= k < i + 1 implies s[k] != c by {
                    if k > 0 {
                        assert(t[k - 1] == s[k]);
                    }
                }
            },
            None => {
                assert forall|k: int| 0 <= k < s.len() implies s[k] != c by {
                    if k > 0 {
                        assert(t[k - 1] == s[k]);
                    }
                }
            },
        }
    }
}

/// Splits `s` at every occurrence of `c`, like `str::split`.
pub fn split_char(s: &str, c: char) -> (r: Vec<String>)
    ensures
        r@.map(|i: int, p: String| p@) == split_on(s@, c),
    decreases s@.len(),
{
    let mut out: Vec<String> = Vec::new();
    let mut rest: String = String::from_str(s);
    loop
        invariant
            out@.map(|i: int, p: String| p@) + split_on(rest@, c) =~= split_on(s@, c),
        decreases rest@.len(),
    {
        let ghost prev = rest@;
        let n = rest.as_str().unicode_len();
        match find_char(rest.as_str(), c) {
            Some(i) => {
                let part = rest.as_str().substring_char(0, i);
                let tail = rest.as_str().substring_char(i + 1, n);
                out.push(String::from_str(part));
                proof {
                    assert(out@.map(|k: int, p: String| p@) =~= out@.drop_last().map(
                        |k: int, p: String| p@,
                    ).push(prev.subrange(0, i as int)));
                }
                rest = String::from_str(tail);
            },
            None => {
                out.push(rest);
                proof {
                    assert(out@.map(|k: int, p: String| p@) =~= out@.drop_last().map(
                        |k: int, p: String| p@,
                    ).push(prev));
                }
                return out;
            },
        }
    }
}

/// The parts joined with the separator between consecutive parts.
pub open spec fn join_with(parts: Seq<Seq<char>>, sep: Seq<char>) -> Seq<char>
    decreases parts.len(),
{
    if parts.len() == 0 {
        Seq::empty()
    } else if parts.len() == 1 {
        parts[0]
    } else {
        parts[0] + sep + join_with(parts.drop_first(), sep)
    }
}

/// Joins the parts with `sep`, like `[String]::join`.
pub fn join_strings(parts: &Vec<String>, sep: &str) -> (r: String)
    ensures
        r@ == join_with(parts@.map(|i: int, p: String| p@), sep@),
{
    let ghost view = parts@.map(|i: int, p: String| p@);
    let mut out = String::new();
    let n = parts.len();
    if n == 0 {
        return out;
    }
    let mut i: usize = 0;
    while i < n
        invariant
            n == parts@.len(),
            view == parts@.map(|k: int, p: String| p@),
            0 <= i <= n,
            i == 0 ==> out@ == Seq::<char>::empty(),
            i > 0 && i < n ==> out@ == join_with(view.take(i as int), sep@) + sep@,
            i > 0 && i == n ==> out@ == join_with(view.take(i as int), sep@),
        decreases n - i,
    {
        out.append(parts[i].as_str());
        if i + 1 < n {
            out.append(sep);
        }
        proof {
            lemma_join_take(view, sep@, i as int);
            assert(view.take(i + 1).drop_last() =~= view.take(i as int));
        }
        i = i + 1;
    }
    proof {
        assert(view.take(n as int) =~= view);
    }
    out
}

proof fn lemma_join_take(parts: Seq<Seq<char>>, sep: Seq<char>, i: int)
    requires
        0 <= i < parts.len(),
    ensures
        i == 0 ==> join_with(parts.take(1), sep) == parts[0],
        i > 0 ==> join_with(parts.take(i + 1), sep) == join_with(parts.take(i), sep) + sep
            + parts[i],
    decreases i,
{
    if i == 0 {
        assert(parts.take(1) =~= seq![parts[0]]);
    } else {
        let p = parts.take(i + 1);
        let q = parts.take(i);
        assert(p.len() >= 2);
        assert(p.drop_first() =~= parts.subrange(1, i + 1));
        assert(q.drop_first() =~= parts.subrange(1, i));
        lemma_join_shift(parts, sep, i);
    }
}

proof fn lemma_join_shift(parts: Seq<Seq<char>>, sep: Seq<char>, i: int)
    requires
        1 <= i < parts.len(),
    ensures
        join_with(parts.take(i + 1), sep) == join_with(parts.take(i), sep) + sep + parts[i],
    decreases i,
{
    let p = parts.take(i + 1);
    let q = parts.take(i);
    if i == 1 {
        assert(p =~= seq![parts[0], parts[1]]);
        assert(q =~= seq![parts[0]]);
        assert(p.drop_first() =~= seq![parts[1]]);
        assert(join_with(seq![parts[1]], sep) == parts[1]);
        assert(join_with(p, sep) == p[0] + sep + join_with(p.drop_first(), sep));
        assert(join_with(p, sep) == parts[0] + sep + parts[1]);
    } else {
        lemma_join_shift(parts.drop_first(), sep, i - 1);
        assert(p.drop_first() =~= parts.drop_first().take(i));
        assert(q.drop_first() =~= parts.drop_first().take(i - 1));
        assert(parts.drop_first()[i - 1] == parts[i]);
        assert(join_with(p, sep) == p[0] + sep + join_with(p.drop_first(), sep));
        assert(join_with(q, sep) == q[0] + sep + join_with(q.drop_first(), sep));
        assert(join_with(p, sep) =~= join_with(q, sep) + sep + parts[i]);
    }
}

/// The boolean a field value denotes: the trimmed text must be exactly
/// `true` or `false`, as `str::parse::<bool>` demands.
pub open spec fn bool_of_field(v: Seq<char>) -> Option<bool> {
    if trim_spec(v) == "true"@ {
        Some(true)
    } else if trim_spec(v) == "false"@ {
        Some(false)
    } else {
        None
    }
}

/// Parses a trimmed `true`/`false` field value.
pub fn parse_bool_field(v: &str) -> (r: Option<bool>)
    ensures
        r == bool_of_field(v@),
{
    let t = trim(v);
    if str_eq(t, "true") {
        Some(true)
    } else if str_eq(t, "false") {
        Some(false)
    } else {
        None
    }
}

/// The text `str::parse::<bool>` accepts for `b`.
pub open spec fn bool_str(b: bool) -> Seq<char> {
    if b {
        "true"@
    } else {
        "false"@
    }
}

/// Renders a boolean as `true` or `false`.
pub fn bool_to_str(b: bool) -> (r: &'static str)
    ensures
        r@ == bool_str(b),
{
    if b {
        "true"
    } else {
        "false"
    }
}

/// The lower-case form of a sequence of characters, as `str::to_lowercase`
/// computes it.  The mapping is involved enough that it is left abstract; it
/// depends on the characters alone.
pub uninterp spec fn lower_of(s: Seq<char>) -> Seq<char>;

/// Relies on `str::to_lowercase`: the result is the Unicode lower-case form
/// of the input and depends on the characters alone; an empty string stays
/// empty.
#[verifier::external_body]
pub(crate) fn lowercase(s: &str) -> (r: String)
    ensures
        r@ == lower_of(s@),
        s@.len() == 0 ==> r@.len() == 0,
{
    s.to_lowercase()
}

/// A line with a single trailing carriage return removed, as `str::lines`
/// does for lines that end in `\r\n`.
pub open spec fn strip_cr(l: Seq<char>) -> Seq<char> {
    if l.len() > 0 && l[l.len() - 1] == '\r' {
        l.drop_last()
    } else {
        l
    }
}

/// The lines of `s`, as `str::lines` yields them: split at `\n`, a carriage
/// return directly before a `\n` is dropped, and a trailing line ending does
/// not produce a final empty line.
pub open spec fn split_lines_spec(s: Seq<char>) -> Seq<Seq<char>>
    decreases s.len(),
{
    if s.len() == 0 {
        Seq::empty()
    } else {
        match find_char_spec(s, '\n') {
            None => seq![s],
            Some(i) => if 0 <= i < s.len() {
                seq![strip_cr(s.subrange(0, i))] + split_lines_spec(
                    s.subrange(i + 1, s.len() as int),
                )
            } else {
                seq![s]
            },
        }
    }
}

/// Splits `s` into its lines, like `str::lines`.
pub fn split_lines(s: &str) -> (r: Vec<String>)
    ensures
        r@.map(|i: int, p: String| p@) == split_lines_spec(s@),
{
    let mut out: Vec<String> = Vec::new();
    let mut rest: String = String::from_str(s);
    loop
        invariant
            out@.map(|i: int, p: String| p@) + split_lines_spec(rest@) =~= split_lines_spec(s@),
        decreases rest@.len(),
    {
        let ghost prev = rest@;
        if rest.as_str().unicode_len() == 0 {
            proof {
                assert(out@.map(|i: int, p: String| p@) + split_lines_spec(rest@) =~= out@.map(
                    |i: int, p: String| p@,
                ));
            }
            return out;
        }
        let n = rest.as_str().unicode_len();
        match find_char(rest.as_str(), '\n') {
            Some(i) => {
                let mut part = rest.as_str().substring_char(0, i);
                if i > 0 && part.get_char(i - 1) == '\r' {
                    part = rest.as_str().substring_char(0, i - 1);
                    proof {
                        assert(part@ =~= strip_cr(prev.subrange(0, i as int)));
                    }
                } else {
                    proof {
                        assert(part@ =~= strip_cr(prev.subrange(0, i as int)));
                    }
                }
                let tail = rest.as_str().substring_char(i + 1, n);
                out.push(String::from_str(part));
                proof {
                    assert(out@.map(|k: int, p: String| p@) =~= out@.drop_last().map(
                        |k: int, p: String| p@,
                    ).push(strip_cr(prev.subrange(0, i as int))));
                }
                rest = String::from_str(tail);
            },
            None => {
                out.push(rest);
                proof {
                    assert(out@.map(|k: int, p: String| p@) =~= out@.drop_last().map(
                        |k: int, p: String| p@,
                    ).push(prev));
                }
                return out;
            },
        }
    }
}

/// Whether `pat` occurs in `s` starting at position `i`.
pub open spec fn has_match_at(s: Seq<char>, pat: Seq<char>, i: int) -> bool {
    0 <= i && i + pat.len() <= s.len() && s.subrange(i, i + pat.len() as int) == pat
}

/// The position of the first occurrence of `pat` in `s`, if any.
pub open spec fn find_sub_spec(s: Seq<char>, pat: Seq<char>) -> Option<int>
    decreases s.len(),
{
    if s.len() < pat.len() {
        None
    } else if has_match_at(s, pat, 0) {
        Some(0)
    } else if s.len() == 0 {
        None
    } else {
        match find_sub_spec(s.drop_first(), pat) {
            Some(i) => Some(i + 1),
            None => None,
        }
    }
}

proof fn lemma_match_shift(s: Seq<char>, pat: Seq<char>, k: int)
    requires
        s.len() > 0,
        0 <= k,
    ensures
        has_match_at(s, pat, k + 1) == has_match_at(s.drop_first(), pat, k),
{
    if k + 1 + pat.len() <= s.len() {
        assert(s.drop_first().subrange(k, k + pat.len() as int) =~= s.subrange(
            k + 1,
            k + 1 + pat.len() as int,
        ));
    }
}

proof fn lemma_find_sub_found(s: Seq<char>, pat: Seq<char>, i: int)
    requires
        has_match_at(s, pat, i),
        forall|k: int| 0 <= k < i ==> !has_match_at(s, pat, k),
    ensures
        find_sub_spec(s, pat) == Some(i),
    decreases i,
{
    if i == 0 {
    } else {
        assert(!has_match_at(s, pat, 0));
        assert(s.len() > 0);
        let t = s.drop_first();
        lemma_match_shift(s, pat, i - 1);
        assert forall|k: int| 0 <= k < i - 1 implies !has_match_at(t, pat, k) by {
            lemma_match_shift(s, pat, k);
        }
        lemma_find_sub_found(t, pat, i - 1);
    }
}

proof fn lemma_find_sub_none(s: Seq<char>, pat: Seq<char>)
    requires
        forall|k: int| 0 <= k ==> !has_match_at(s, pat, k),
    ensures
        find_sub_spec(s, pat) is None,
    decreases s.len(),
{
    if s.len() >= pat.len() && s.len() > 0 {
        let t = s.drop_first();
        assert forall|k: int| 0 <= k implies !has_match_at(t, pat, k) by {
            lemma_match_shift(s, pat, k);
        }
        lemma_find_sub_none(t, pat);
    }
}

/// Whether `pat` occurs in `s` at position `i`.
fn is_match_at(s: &str, pat: &str, i: usize) -> (r: bool)
    requires
        i + pat@.len() <= s@.len(),
    ensures
        r == has_match_at(s@, pat@, i as int),
{
    let n = s.unicode_len();
    let m = pat.unicode_len();
    let mut j: usize = 0;
    while j < m
        invariant
            n == s@.len(),
            m == pat@.len(),
            i + m <= n,
            0 <= j <= m,
            forall|k: int| 0 <= k < j ==> s@[i + k] == pat@[k],
        decreases m - j,
    {
        if s.get_char(i + j) != pat.get_char(j) {
            proof {
                assert(s@.subrange(i as int, i + pat@.len() as int)[j as int] != pat@[j as int]);
            }
            return false;
        }
        j = j + 1;
    }
    proof {
        assert(s@.subrange(i as int, i + pat@.len() as int) =~= pat@);
    }
    true
}

/// Finds the first occurrence of `pat` in `s`.
pub fn find_sub(s: &str, pat: &str) -> (r: Option<usize>)
    ensures
        match r {
            Some(i) => find_sub_spec(s@, pat@) == Some(i as int) && i + pat@.len() <= s@.len(),
            None => find_sub_spec(s@, pat@) is None,
        },
{
    let n = s.unicode_len();
    let m = pat.unicode_len();
    if m > n {
        proof {
            lemma_find_sub_none(s@, pat@);
        }
        return None;
    }
    if m == 0 {
        proof {
            assert(s@.subrange(0, 0) =~= pat@);
            lemma_find_sub_found(s@, pat@, 0);
        }
        return Some(0);
    }
    let mut i: usize = 0;
    while i <= n - m
        invariant
            n == s@.len(),
            m == pat@.len(),
            1 <= m <= n,
            0 <= i <= n - m + 1,
            forall|k: int| 0 <= k < i ==> !has_match_at(s@, pat@, k),
        decreases n - i,
    {
        if is_match_at(s, pat, i) {
            proof {
                lemma_find_sub_found(s@, pat@, i as int);
            }
            return Some(i);
        }
        i = i + 1;
    }
    proof {
        lemma_find_sub_none(s@, pat@);
    }
    None
}

/// `s` with every occurrence of `pat` replaced by `rep`, left to right and
/// without overlap, as `str::replace` does.  An empty pattern leaves `s`
/// unchanged.
pub open spec fn replace_spec(s: Seq<char>, pat: Seq<char>, rep: Seq<char>) -> Seq<char>
    decreases s.len(),
{
    if pat.len() == 0 {
        s
    } else {
        match find_sub_spec(s, pat) {
            None => s,
            Some(i) => if 0 <= i && i + pat.len() <= s.len() {
                s.subrange(0, i) + rep + replace_spec(
                    s.subrange(i + pat.len() as int, s.len() as int),
                    pat,
                    rep,
                )
            } else {
                s
            },
        }
    }
}

/// `str::replace`: every occurrence of `pat` replaced by `rep`.
pub fn replace_all(s: &str, pat: &str, rep: &str) -> (r: String)
    requires
        pat@.len() >= 1,
    ensures
        r@ == replace_spec(s@, pat@, rep@),
{
    let mut out = String::new();
    let mut rest: String = String::from_str(s);
    let m = pat.unicode_len();
    loop
        invariant
            m == pat@.len(),
            m >= 1,
            out@ + replace_spec(rest@, pat@, rep@) =~= replace_spec(s@, pat@, rep@),
        decreases rest@.len(),
    {
        let ghost prev = rest@;
        let n = rest.as_str().unicode_len();
        match find_sub(rest.as_str(), pat) {
            Some(i) => {
                out.append(rest.as_str().substring_char(0, i));
                out.append(rep);
                let tail = rest.as_str().substring_char(i + m, n);
                rest = String::from_str(tail);
            },
            None => {
                out.append(rest.as_str());
                return out;
            },
        }
    }
}

} // verus!
