//! Verified string helpers: comparison, prefixes, trimming, splitting,
//! decimal conversion, and the case mapping the parsers rely on.

use vstd::prelude::*;

verus! {

broadcast use vstd::string::group_string_axioms;

// ---------------------------------------------------------------------------
// Character classes
// ---------------------------------------------------------------------------

/// The characters with the Unicode `White_Space` property, which
/// `char::is_whitespace` answers for: tab, line feed, vertical tab, form
/// feed, carriage return, space, next line, no-break space, ogham space
/// mark, the spaces from en quad to hair space, line and paragraph
/// separators, narrow no-break space, medium mathematical space and
/// ideographic space.
pub open spec fn is_whitespace(c: char) -> bool {
    ||| '\t' <= c <= '\r'
    ||| c == ' '
    ||| c == '\u{85}'
    ||| c == '\u{a0}'
    ||| c == '\u{1680}'
    ||| '\u{2000}' <= c <= '\u{200a}'
    ||| c == '\u{2028}'
    ||| c == '\u{2029}'
    ||| c == '\u{202f}'
    ||| c == '\u{205f}'
    ||| c == '\u{3000}'
}

/// What `str::to_lowercase` returns for a string: its Unicode lowercase
/// mapping.
pub uninterp spec fn lowercase(s: Seq<char>) -> Seq<char>;

/// Whether `c` is whitespace, as `char::is_whitespace` answers.
pub(crate) fn char_is_whitespace(c: char) -> (b: bool)
    ensures
        b == is_whitespace(c),
{
    ('\t' <= c && c <= '\r') || c == ' ' || c == '\u{85}' || c == '\u{a0}' || c == '\u{1680}'
        || ('\u{2000}' <= c && c <= '\u{200a}') || c == '\u{2028}' || c == '\u{2029}'
        || c == '\u{202f}' || c == '\u{205f}' || c == '\u{3000}'
}

/// Calls `str::to_lowercase`. The contract claims that the result depends on
/// the input's characters alone, through the name `lowercase`.
#[verifier::external_body]
pub(crate) fn to_lowercase(s: &str) -> (r: String)
    ensures
        r@ == lowercase(s@),
{
    s.to_lowercase()
}

pub open spec fn is_digit(c: char) -> bool {
    '0' <= c && c <= '9'
}

pub open spec fn digit_value(c: char) -> int {
    c as int - '0' as int
}

pub open spec fn digit_char(d: int) -> char {
    (d + '0' as int) as char
}

// ---------------------------------------------------------------------------
// Basic conversions
// ---------------------------------------------------------------------------

/// The characters of a string, in order.
pub fn chars_of(s: &str) -> (v: Vec<char>)
    ensures
        v@ == s@,
{
    let mut v: Vec<char> = Vec::new();
    for c in it: s.chars()
        invariant
            v@ == it.seq().take(it.index() as int),
            it.seq() == s@,
    {
        v.push(c);
    }
    v
}

/// The characters `from..to` of `s`, as an owned string.
pub fn substring(s: &str, from: usize, to: usize) -> (r: String)
    requires
        from <= to <= s@.len(),
    ensures
        r@ == s@.subrange(from as int, to as int),
{
    s.substring_char(from, to).to_owned()
}

/// String equality by characters.
pub fn str_eq(a: &str, b: &str) -> (r: bool)
    ensures
        r == (a@ == b@),
{
    let x = a.to_owned();
    let y = b.to_owned();
    x == y
}

/// Concatenation of two string slices.
pub fn join2(a: &str, b: &str) -> (r: String)
    ensures
        r@ == a@ + b@,
{
    a.to_owned().concat(b)
}

// ---------------------------------------------------------------------------
// Prefixes
// ---------------------------------------------------------------------------

pub open spec fn has_prefix(s: Seq<char>, p: Seq<char>) -> bool {
    p.len() <= s.len() && s.subrange(0, p.len() as int) == p
}

/// Whether `s` starts with `p`.
pub fn starts_with(s: &str, p: &str) -> (r: bool)
    ensures
        r == has_prefix(s@, p@),
{
    let n = s.unicode_len();
    let m = p.unicode_len();
    if m > n {
        false
    } else {
        str_eq(s.substring_char(0, m), p)
    }
}

/// `s` without its prefix `p`, or `None` when `s` does not start with `p`.
pub fn strip_prefix(s: &str, p: &str) -> (r: Option<String>)
    ensures
        r is Some <==> has_prefix(s@, p@),
        r matches Some(t) ==> t@ == s@.subrange(p@.len() as int, s@.len() as int),
{
    let n = s.unicode_len();
    let m = p.unicode_len();
    if m > n {
        None
    } else if str_eq(s.substring_char(0, m), p) {
        Some(substring(s, m, n))
    } else {
        None
    }
}

/// Index of the first occurrence of `c` in `s`.
pub open spec fn first_index_of(s: Seq<char>, c: char) -> Option<int> {
    if exists|i: int| 0 <= i < s.len() && s[i] == c {
        Some(choose|i: int| 0 <= i < s.len() && s[i] == c && forall|j: int| 0 <= j < i ==> s[j] != c)
    } else {
        None
    }
}

/// Position of the first `c` in `s`, if any.
pub fn find_char(s: &str, c: char) -> (r: Option<usize>)
    ensures
        r is None <==> forall|i: int| 0 <= i < s@.len() ==> s@[i] != c,
        r matches Some(k) ==> k < s@.len() && s@[k as int] == c && forall|j: int| 0 <= j < k ==> s@[j] != c,
{
    let v = chars_of(s);
    let mut i: usize = 0;
    while i < v.len()
        invariant
            v@ == s@,
            i <= v@.len(),
            forall|j: int| 0 <= j < i ==> v@[j] != c,
        decreases v.len() - i,
    {
        if v[i] == c {
            return Some(i);
        }
        i = i + 1;
    }
    None
}

// ---------------------------------------------------------------------------
// Trimming
// ---------------------------------------------------------------------------

pub open spec fn trim_start_spec(s: Seq<char>) -> Seq<char>
    decreases s.len(),
{
    if s.len() > 0 && is_whitespace(s[0]) {
        trim_start_spec(s.drop_first())
    } else {
        s
    }
}

pub open spec fn trim_end_spec(s: Seq<char>) -> Seq<char>
    decreases s.len(),
{
    if s.len() > 0 && is_whitespace(s.last()) {
        trim_end_spec(s.drop_last())
    } else {
        s
    }
}

/// Leading and trailing whitespace removed, as `str::trim` does.
pub open spec fn trim_spec(s: Seq<char>) -> Seq<char> {
    trim_end_spec(trim_start_spec(s))
}

/// `s` with leading and trailing whitespace removed.
pub fn trim(s: &str) -> (r: String)
    ensures
        r@ == trim_spec(s@),
{
    let v = chars_of(s);
    let n = v.len();
    let mut i: usize = 0;
    assert(s@.subrange(0, n as int) =~= s@);
    while i < n && char_is_whitespace(v[i])
        invariant
            v@ == s@,
            n == v@.len(),
            i <= n,
            trim_start_spec(s@) == trim_start_spec(s@.subrange(i as int, n as int)),
        decreases n - i,
    {
        assert(s@.subrange(i as int, n as int).drop_first() =~= s@.subrange(i + 1, n as int));
        i = i + 1;
    }
    assert(trim_start_spec(s@) == s@.subrange(i as int, n as int));
    let mut j: usize = n;
    while j > i && char_is_whitespace(v[j - 1])
        invariant
            v@ == s@,
            n == v@.len(),
            i <= j <= n,
            trim_end_spec(s@.subrange(i as int, n as int)) == trim_end_spec(
                s@.subrange(i as int, j as int),
            ),
        decreases j - i,
    {
        assert(s@.subrange(i as int, j as int).drop_last() =~= s@.subrange(i as int, j - 1));
        j = j - 1;
    }
    substring(s, i, j)
}

// ---------------------------------------------------------------------------
// Splitting
// ---------------------------------------------------------------------------

/// The pieces of `s` between occurrences of `sep`, as `str::split` with a
/// character pattern yields them (at least one piece, possibly empty ones).
pub open spec fn split_spec(s: Seq<char>, sep: char) -> Seq<Seq<char>>
    decreases s.len(),
{
    if s.len() == 0 {
        seq![Seq::<char>::empty()]
    } else {
        let rest = split_spec(s.drop_last(), sep);
        if s.last() == sep {
            rest.push(Seq::<char>::empty())
        } else {
            rest.update(rest.len() - 1, rest.last().push(s.last()))
        }
    }
}

pub proof fn lemma_split_nonempty(s: Seq<char>, sep: char)
    ensures
        split_spec(s, sep).len() >= 1,
    decreases s.len(),
{
    if s.len() > 0 {
        lemma_split_nonempty(s.drop_last(), sep);
    }
}

pub open spec fn views_of(v: Seq<String>) -> Seq<Seq<char>> {
    v.map_values(|x: String| x@)
}

/// The pieces of `s` between occurrences of `sep`.
pub fn split_char(s: &str, sep: char) -> (r: Vec<String>)
    ensures
        views_of(r@) == split_spec(s@, sep),
{
    let v = chars_of(s);
    let n = v.len();
    let mut pieces: Vec<String> = Vec::new();
    let mut start: usize = 0;
    let mut i: usize = 0;
    proof {
        assert(s@.take(0) =~= Seq::<char>::empty());
        assert(views_of(pieces@) =~= Seq::<Seq<char>>::empty());
        assert(s@.subrange(0, 0) =~= Seq::<char>::empty());
        assert(split_spec(s@.take(0), sep) =~= views_of(pieces@).push(s@.subrange(0, 0)));
    }
    while i < n
        invariant
            v@ == s@,
            n == v@.len(),
            start <= i <= n,
            split_spec(s@.take(i as int), sep) == views_of(pieces@).push(
                s@.subrange(start as int, i as int),
            ),
        decreases n - i,
    {
        proof {
            let t = s@.take(i + 1);
            assert(t.drop_last() =~= s@.take(i as int));
            assert(t.last() == s@[i as int]);
        }
        if v[i] == sep {
            let piece = substring(s, start, i);
            let ghost old_pieces = pieces@;
            pieces.push(piece);
            proof {
                assert(views_of(pieces@) =~= views_of(old_pieces).push(piece@));
                assert(s@.subrange((i + 1) as int, (i + 1) as int) =~= Seq::<char>::empty());
            }
            start = i + 1;
        } else {
            proof {
                assert(s@.subrange(start as int, i + 1) =~= s@.subrange(start as int, i as int).push(
                    s@[i as int],
                ));
                let prev = views_of(pieces@).push(s@.subrange(start as int, i as int));
                assert(prev.update(prev.len() - 1, prev.last().push(s@[i as int])) =~= views_of(
                    pieces@,
                ).push(s@.subrange(start as int, i + 1)));
            }
        }
        i = i + 1;
    }
    let last = substring(s, start, n);
    let ghost before = pieces@;
    pieces.push(last);
    proof {
        assert(s@.take(n as int) =~= s@);
        assert(views_of(pieces@) =~= views_of(before).push(last@));
    }
    pieces
}

/// A line with one trailing carriage return removed.
pub open spec fn strip_cr(l: Seq<char>) -> Seq<char> {
    if l.len() > 0 && l.last() == '\r' {
        l.drop_last()
    } else {
        l
    }
}

/// The lines of `s`, as `str::lines` yields them: split at `\n`, a `\r`
/// before a `\n` removed, and no empty line after a final `\n`.
pub open spec fn lines_spec(s: Seq<char>) -> Seq<Seq<char>> {
    let parts = split_spec(s, '\n');
    let n = parts.len();
    if parts[n - 1].len() == 0 {
        parts.take(n - 1).map_values(|l: Seq<char>| strip_cr(l))
    } else {
        parts.take(n - 1).map_values(|l: Seq<char>| strip_cr(l)).push(parts[n - 1])
    }
}

fn strip_cr_exec(l: String) -> (r: String)
    ensures
        r@ == strip_cr(l@),
{
    let s = l.as_str();
    let n = s.unicode_len();
    if n > 0 && s.get_char(n - 1) == '\r' {
        substring(s, 0, n - 1)
    } else {
        l
    }
}

/// The lines of `s`.
pub fn lines(s: &str) -> (r: Vec<String>)
    ensures
        views_of(r@) == lines_spec(s@),
{
    let parts = split_char(s, '\n');
    proof {
        lemma_split_nonempty(s@, '\n');
    }
    let ghost pv = views_of(parts@);
    let n = parts.len();
    let mut out: Vec<String> = Vec::new();
    let mut i: usize = 0;
    while i + 1 < n
        invariant
            pv == views_of(parts@),
            pv == split_spec(s@, '\n'),
            n == parts@.len(),
            n >= 1,
            i + 1 <= n,
            views_of(out@) == pv.take(i as int).map_values(|l: Seq<char>| strip_cr(l)),
        decreases n - i,
    {
        let l = strip_cr_exec(parts[i].clone());
        let ghost before = out@;
        out.push(l);
        proof {
            assert(views_of(out@) =~= views_of(before).push(l@));
            assert(pv.take(i + 1).map_values(|l: Seq<char>| strip_cr(l)) =~= pv.take(
                i as int,
            ).map_values(|l: Seq<char>| strip_cr(l)).push(strip_cr(pv[i as int])));
        }
        i = i + 1;
    }
    let last = parts[n - 1].clone();
    if last.unicode_len() == 0 {
        out
    } else {
        let ghost before = out@;
        out.push(last);
        proof {
            assert(views_of(out@) =~= views_of(before).push(last@));
        }
        out
    }
}

/// The pieces joined with `sep` between consecutive ones.
pub open spec fn join_spec(pieces: Seq<Seq<char>>, sep: Seq<char>) -> Seq<char>
    decreases pieces.len(),
{
    if pieces.len() == 0 {
        Seq::empty()
    } else if pieces.len() == 1 {
        pieces[0]
    } else {
        join_spec(pieces.drop_last(), sep) + sep + pieces.last()
    }
}

/// The strings joined with `sep` between consecutive ones.
pub fn join(pieces: &Vec<String>, sep: &str) -> (r: String)
    ensures
        r@ == join_spec(views_of(pieces@), sep@),
{
    let mut out = String::new();
    let mut i: usize = 0;
    while i < pieces.len()
        invariant
            i <= pieces@.len(),
            out@ == join_spec(views_of(pieces@).take(i as int), sep@),
        decreases pieces.len() - i,
    {
        proof {
            let t = views_of(pieces@).take(i + 1);
            assert(t.drop_last() =~= views_of(pieces@).take(i as int));
            assert(t.last() == pieces@[i as int]@);
            if i == 0 {
                assert(views_of(pieces@).take(0) =~= Seq::<Seq<char>>::empty());
            }
        }
        if i == 0 {
            out = pieces[0].clone();
        } else {
            out = out.concat(sep).concat(pieces[i].as_str());
        }
        i = i + 1;
    }
    proof {
        assert(views_of(pieces@).take(pieces@.len() as int) =~= views_of(pieces@));
    }
    out
}

/// The pieces that are not empty, in order.
pub open spec fn non_empty(pieces: Seq<Seq<char>>) -> Seq<Seq<char>> {
    pieces.filter(|p: Seq<char>| p.len() > 0)
}

/// The strings that are not empty, in order.
pub fn keep_non_empty(pieces: Vec<String>) -> (r: Vec<String>)
    ensures
        views_of(r@) == non_empty(views_of(pieces@)),
{
    let mut out: Vec<String> = Vec::new();
    let mut i: usize = 0;
    while i < pieces.len()
        invariant
            i <= pieces@.len(),
            views_of(out@) == non_empty(views_of(pieces@).take(i as int)),
        decreases pieces.len() - i,
    {
        proof {
            let t = views_of(pieces@).take(i + 1);
            assert(t =~= views_of(pieces@).take(i as int).push(pieces@[i as int]@));
            reveal_with_fuel(Seq::filter, 1);
            assert(t.drop_last() =~= views_of(pieces@).take(i as int));
        }
        if pieces[i].unicode_len() > 0 {
            let ghost before = out@;
            out.push(pieces[i].clone());
            proof {
                assert(views_of(out@) =~= views_of(before).push(pieces@[i as int]@));
            }
        }
        i = i + 1;
    }
    proof {
        assert(views_of(pieces@).take(pieces@.len() as int) =~= views_of(pieces@));
    }
    out
}

// ---------------------------------------------------------------------------
// Decimal numbers
// ---------------------------------------------------------------------------

/// The value of a sequence of decimal digits.
pub open spec fn digits_value(ds: Seq<char>) -> int
    decreases ds.len(),
{
    if ds.len() == 0 {
        0
    } else {
        digits_value(ds.drop_last()) * 10 + digit_value(ds.last())
    }
}

pub open spec fn all_digits(ds: Seq<char>) -> bool {
    forall|i: int| 0 <= i < ds.len() ==> is_digit(#[trigger] ds[i])
}

/// The digits of an unsigned number, after an optional leading `+`.
pub open spec fn unsigned_body(s: Seq<char>) -> Seq<char> {
    if s.len() > 0 && s[0] == '+' {
        s.drop_first()
    } else {
        s
    }
}

/// What parsing `s` as an unsigned integer no larger than `max` gives: an
/// optional `+` and at least one decimal digit, nothing else, and a value in
/// range (the grammar of `str::parse` for unsigned integer types).
pub open spec fn parse_unsigned_spec(s: Seq<char>, max: int) -> Option<int> {
    let ds = unsigned_body(s);
    if ds.len() > 0 && all_digits(ds) && digits_value(ds) <= max {
        Some(digits_value(ds))
    } else {
        None
    }
}

pub proof fn lemma_digits_value_nonneg(ds: Seq<char>)
    requires
        all_digits(ds),
    ensures
        digits_value(ds) >= 0,
    decreases ds.len(),
{
    if ds.len() > 0 {
        assert(all_digits(ds.drop_last()));
        lemma_digits_value_nonneg(ds.drop_last());
        assert(is_digit(ds[ds.len() - 1]));
    }
}

/// A parsed unsigned number is never negative.
pub proof fn lemma_parsed_unsigned_nonneg(s: Seq<char>, max: int)
    ensures
        parse_unsigned_spec(s, max) matches Some(v) ==> 0 <= v <= max,
{
    let ds = unsigned_body(s);
    if ds.len() > 0 && all_digits(ds) {
        lemma_digits_value_nonneg(ds);
    }
}

/// Parses an unsigned decimal integer that must not exceed `max`.
pub fn parse_unsigned(s: &str, max: u64) -> (r: Option<u64>)
    ensures
        r matches Some(v) ==> parse_unsigned_spec(s@, max as int) == Some(v as int),
        r is None ==> parse_unsigned_spec(s@, max as int) is None,
{
    let v = chars_of(s);
    let n = v.len();
    let start: usize = if n > 0 && v[0] == '+' { 1 } else { 0 };
    let ghost ds = unsigned_body(s@);
    assert(ds =~= s@.subrange(start as int, n as int));
    if start >= n {
        return None;
    }
    let mut acc: u64 = 0;
    let mut over = false;
    let mut i: usize = start;
    while i < n
        invariant
            v@ == s@,
            n == v@.len(),
            start <= i <= n,
            ds == s@.subrange(start as int, n as int),
            ds == unsigned_body(s@),
            all_digits(s@.subrange(start as int, i as int)),
            !over ==> acc as int == digits_value(s@.subrange(start as int, i as int)),
            !over ==> acc <= max,
            over ==> digits_value(s@.subrange(start as int, i as int)) > max,
        decreases n - i,
    {
        let c = v[i];
        if !('0' <= c && c <= '9') {
            assert(ds[i - start] == c);
            assert(!is_digit(ds[i - start]));
            assert(!all_digits(ds));
            return None;
        }
        let d: u64 = (c as u32 - '0' as u32) as u64;
        proof {
            let pre = s@.subrange(start as int, i as int);
            let nxt = s@.subrange(start as int, i + 1);
            assert(nxt.drop_last() =~= pre);
            assert(nxt.last() == c);
            assert(all_digits(nxt));
            lemma_digits_value_nonneg(pre);
        }
        if !over {
            let next: u128 = acc as u128 * 10 + d as u128;
            if next > max as u128 {
                over = true;
            } else {
                acc = next as u64;
            }
        }
        i = i + 1;
    }
    assert(s@.subrange(start as int, n as int) == ds);
    if over {
        None
    } else {
        Some(acc)
    }
}

/// The decimal digits of `n`, most significant first, without leading zeros.
pub open spec fn decimal(n: nat) -> Seq<char>
    decreases n,
{
    if n < 10 {
        seq![digit_char(n as int)]
    } else {
        decimal(n / 10).push(digit_char((n % 10) as int))
    }
}

fn digit_str(d: u64) -> (r: &'static str)
    requires
        d < 10,
    ensures
        r@ == seq![digit_char(d as int)],
{
    proof {
        reveal_strlit("0");
        reveal_strlit("1");
        reveal_strlit("2");
        reveal_strlit("3");
        reveal_strlit("4");
        reveal_strlit("5");
        reveal_strlit("6");
        reveal_strlit("7");
        reveal_strlit("8");
        reveal_strlit("9");
    }
    let r = if d == 0 {
        "0"
    } else if d == 1 {
        "1"
    } else if d == 2 {
        "2"
    } else if d == 3 {
        "3"
    } else if d == 4 {
        "4"
    } else if d == 5 {
        "5"
    } else if d == 6 {
        "6"
    } else if d == 7 {
        "7"
    } else if d == 8 {
        "8"
    } else {
        "9"
    };
    assert(r@ =~= seq![digit_char(d as int)]);
    r
}

/// The decimal representation of `n`, as `u64`'s `Display` writes it.
pub fn format_u64(n: u64) -> (r: String)
    ensures
        r@ == decimal(n as nat),
    decreases n,
{
    if n < 10 {
        digit_str(n).to_owned()
    } else {
        let head = format_u64(n / 10);
        head.concat(digit_str(n % 10))
    }
}

/// The decimal representation of a signed number, with a leading `-` when
/// negative, as `i64`'s `Display` writes it.
pub open spec fn decimal_signed(n: int) -> Seq<char> {
    if n < 0 {
        seq!['-'] + decimal((-n) as nat)
    } else {
        decimal(n as nat)
    }
}

/// The decimal representation of `n`.
pub fn format_i64(n: i64) -> (r: String)
    ensures
        r@ == decimal_signed(n as int),
{
    if n < 0 {
        let m: u64 = if n == i64::MIN {
            9223372036854775808u64
        } else {
            (-n) as u64
        };
        proof {
            reveal_strlit("-");
        }
        let r = "-".to_owned().concat(format_u64(m).as_str());
        assert(r@ =~= seq!['-'] + decimal((-n) as nat));
        r
    } else {
        format_u64(n as u64)
    }
}

} // verus!
