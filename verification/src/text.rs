//! Text as sequences of characters: trimming, searching, splitting, joining
//! and ordering.

use vstd::prelude::*;

verus! {

/// `String::push` appends one character.
pub assume_specification[ String::push ](s: &mut String, c: char)
    ensures
        final(s)@ == old(s)@.push(c),
;

/// What the texts of a list say.
pub open spec fn text_views(s: Seq<String>) -> Seq<Seq<char>> {
    Seq::new(s.len(), |i: int| s[i]@)
}

// ---- Characters -------------------------------------------------------------

/// The characters of a text.
pub fn chars_of(s: &str) -> (r: Vec<char>)
    ensures
        r@ == s@,
{
    let mut out: Vec<char> = Vec::new();
    for c in it: s.chars()
        invariant
            out@ == s@.take(it.index()),
            it.seq() == s@,
    {
        out.push(c);
    }
    out
}

/// The text made of a range of characters.
pub fn string_of(cs: &Vec<char>, from: usize, to: usize) -> (r: String)
    requires
        from <= to <= cs.len(),
    ensures
        r@ == cs@.subrange(from as int, to as int),
{
    let mut out = String::new();
    let mut i: usize = from;
    while i < to
        invariant
            from <= i <= to <= cs.len(),
            out@ == cs@.subrange(from as int, i as int),
        decreases to - i,
    {
        out.push(cs[i]);
        i += 1;
        assert(cs@.subrange(from as int, i as int) =~= cs@.subrange(from as int, i - 1).push(
            cs@[i - 1],
        ));
    }
    out
}

/// Whether two texts are the same.
pub fn text_eq(a: &str, b: &str) -> (r: bool)
    ensures
        r == (a@ == b@),
{
    let x = chars_of(a);
    let y = chars_of(b);
    if x.len() != y.len() {
        return false;
    }
    let mut i: usize = 0;
    while i < x.len()
        invariant
            i <= x.len(),
            x.len() == y.len(),
            x@ == a@,
            y@ == b@,
            forall|k: int| 0 <= k < i ==> x@[k] == y@[k],
        decreases x.len() - i,
    {
        if x[i] != y[i] {
            return false;
        }
        i += 1;
    }
    assert(x@ =~= y@);
    true
}

/// What the literals of a list say.
pub open spec fn literal_views(s: Seq<&'static str>) -> Seq<Seq<char>> {
    Seq::new(s.len(), |i: int| s[i]@)
}

/// Whether a text is one of a list.
pub fn is_one_of(s: &str, known: &Vec<&'static str>) -> (r: bool)
    ensures
        r == literal_views(known@).contains(s@),
{
    let mut i: usize = 0;
    while i < known.len()
        invariant
            i <= known.len(),
            forall|k: int| 0 <= k < i ==> (#[trigger] known@[k])@ != s@,
        decreases known.len() - i,
    {
        if text_eq(known[i], s) {
            assert(literal_views(known@)[i as int] == s@);
            return true;
        }
        i += 1;
    }
    assert forall|k: int| 0 <= k < known.len() implies literal_views(known@)[k] != s@ by {
        assert(known@[k]@ != s@);
    }
    false
}

/// Whether some characters stand at a place of a text.
pub open spec fn stands_at(s: Seq<char>, i: int, p: Seq<char>) -> bool {
    0 <= i <= s.len() - p.len() && s.subrange(i, i + p.len()) == p
}

/// Whether a text begins with another.
pub open spec fn begins_with(s: Seq<char>, p: Seq<char>) -> bool {
    stands_at(s, 0, p)
}

/// Whether a text holds another.
pub open spec fn holds(s: Seq<char>, p: Seq<char>) -> bool {
    exists|i: int| stands_at(s, i, p)
}

/// Whether some characters stand at a place.
fn chars_at(s: &Vec<char>, i: usize, p: &Vec<char>) -> (r: bool)
    requires
        i <= s.len(),
    ensures
        r == stands_at(s@, i as int, p@),
{
    if p.len() > s.len() - i {
        return false;
    }
    let mut k: usize = 0;
    while k < p.len()
        invariant
            k <= p.len(),
            i + p.len() <= s.len(),
            forall|j: int| 0 <= j < k ==> s@[i + j] == #[trigger] p@[j],
        decreases p.len() - k,
    {
        if s[i + k] != p[k] {
            assert(s@.subrange(i as int, i + p.len())[k as int] != p@[k as int]);
            return false;
        }
        k += 1;
    }
    assert(s@.subrange(i as int, i + p.len()) =~= p@);
    true
}

/// Whether a text begins with another.
pub fn starts_with(s: &str, p: &str) -> (r: bool)
    ensures
        r == begins_with(s@, p@),
{
    chars_at(&chars_of(s), 0, &chars_of(p))
}

/// Whether a text holds another.
pub fn contains(s: &str, p: &str) -> (r: bool)
    ensures
        r == holds(s@, p@),
{
    let cs = chars_of(s);
    let ps = chars_of(p);
    let mut i: usize = 0;
    while i < cs.len()
        invariant
            i <= cs.len(),
            cs@ == s@,
            ps@ == p@,
            forall|k: int| 0 <= k < i ==> !stands_at(s@, k, p@),
        decreases cs.len() - i,
    {
        if chars_at(&cs, i, &ps) {
            return true;
        }
        i += 1;
    }
    let last = chars_at(&cs, i, &ps);
    assert(last == stands_at(s@, s@.len() as int, p@));
    last
}

// ---- White space ------------------------------------------------------------

/// The characters of Unicode's `White_Space` property.
pub open spec fn is_white(c: char) -> bool {
    ||| '\u{9}' <= c <= '\u{d}'
    ||| c == '\u{20}'
    ||| c == '\u{85}'
    ||| c == '\u{a0}'
    ||| c == '\u{1680}'
    ||| '\u{2000}' <= c <= '\u{200a}'
    ||| c == '\u{2028}'
    ||| c == '\u{2029}'
    ||| c == '\u{202f}'
    ||| c == '\u{205f}'
    ||| c == '\u{3000}'
}

/// Whether a character is white space.
pub fn white(c: char) -> (r: bool)
    ensures
        r == is_white(c),
{
    ('\u{9}' <= c && c <= '\u{d}') || c == '\u{20}' || c == '\u{85}' || c == '\u{a0}' || c
        == '\u{1680}' || ('\u{2000}' <= c && c <= '\u{200a}') || c == '\u{2028}' || c
        == '\u{2029}' || c == '\u{202f}' || c == '\u{205f}' || c == '\u{3000}'
}

/// A text without the white space at its start.
pub open spec fn trim_front(s: Seq<char>) -> Seq<char>
    decreases s.len(),
{
    if s.len() > 0 && is_white(s[0]) {
        trim_front(s.drop_first())
    } else {
        s
    }
}

/// A text without the white space at its end.
pub open spec fn trim_back(s: Seq<char>) -> Seq<char>
    decreases s.len(),
{
    if s.len() > 0 && is_white(s.last()) {
        trim_back(s.drop_last())
    } else {
        s
    }
}

/// A text without the white space at its two ends.
pub open spec fn trimmed(s: Seq<char>) -> Seq<char> {
    trim_back(trim_front(s))
}

/// What is cut at the start of a text is white space, and what is left does not
/// start with any.
pub proof fn lemma_trim_front(s: Seq<char>)
    ensures
        trim_front(s).len() <= s.len(),
        s.skip(s.len() - trim_front(s).len()) == trim_front(s),
        s == s.take(s.len() - trim_front(s).len()) + trim_front(s),
        forall|k: int| 0 <= k < s.len() - trim_front(s).len() ==> is_white(#[trigger] s[k]),
        trim_front(s).len() > 0 ==> !is_white(trim_front(s)[0]),
    decreases s.len(),
{
    let rest = s.drop_first();
    let n = s.len() - trim_front(s).len();
    if s.len() > 0 && is_white(s[0]) {
        lemma_trim_front(rest);
        assert(s.skip(n) =~= rest.skip(n - 1));
        assert forall|k: int| 0 <= k < n implies is_white(#[trigger] s[k]) by {
            if k > 0 {
                assert(s[k] == rest[k - 1]);
            }
        }
    } else {
        assert(s.skip(0) =~= s);
    }
    assert(s =~= s.take(n) + s.skip(n));
}

/// White space before a text that does not start with any is what is cut.
pub proof fn lemma_trim_front_indented(indent: Seq<char>, s: Seq<char>)
    requires
        forall|k: int| 0 <= k < indent.len() ==> is_white(#[trigger] indent[k]),
        s.len() > 0,
        !is_white(s[0]),
    ensures
        trim_front(indent + s) == s,
    decreases indent.len(),
{
    let all = indent + s;
    if indent.len() > 0 {
        assert(all[0] == indent[0]);
        assert(all.drop_first() =~= indent.drop_first() + s);
        lemma_trim_front_indented(indent.drop_first(), s);
    } else {
        assert(all =~= s);
    }
}

/// How many characters of white space a text starts with.
fn white_front(cs: &Vec<char>) -> (n: usize)
    ensures
        n <= cs.len(),
        trim_front(cs@) == cs@.skip(n as int),
        n < cs.len() ==> !is_white(cs@[n as int]),
{
    let mut i: usize = 0;
    assert(cs@.skip(0) =~= cs@);
    while i < cs.len() && white(cs[i])
        invariant
            i <= cs.len(),
            trim_front(cs@) == trim_front(cs@.skip(i as int)),
        decreases cs.len() - i,
    {
        assert(cs@.skip(i as int).drop_first() =~= cs@.skip(i + 1));
        i += 1;
    }
    i
}

/// A text without the white space at its start.
pub fn trim_start(s: &str) -> (r: String)
    ensures
        r@ == trim_front(s@),
{
    let cs = chars_of(s);
    let n = white_front(&cs);
    string_of(&cs, n, cs.len())
}

/// Where a range of characters ends once its trailing white space is cut.
fn white_back(cs: &Vec<char>, from: usize) -> (n: usize)
    requires
        from <= cs.len(),
    ensures
        from <= n <= cs.len(),
        trim_back(cs@.skip(from as int)) == cs@.subrange(from as int, n as int),
{
    let mut i: usize = cs.len();
    assert(cs@.subrange(from as int, i as int) =~= cs@.skip(from as int));
    while i > from && white(cs[i - 1])
        invariant
            from <= i <= cs.len(),
            trim_back(cs@.skip(from as int)) == trim_back(cs@.subrange(from as int, i as int)),
        decreases i,
    {
        assert(cs@.subrange(from as int, i as int).last() == cs@[i - 1]);
        assert(cs@.subrange(from as int, i as int).drop_last() =~= cs@.subrange(
            from as int,
            i - 1,
        ));
        i -= 1;
    }
    if i > from {
        assert(cs@.subrange(from as int, i as int).last() == cs@[i - 1]);
    }
    i
}

/// A text without the white space at its end.
pub fn trim_end(s: &str) -> (r: String)
    ensures
        r@ == trim_back(s@),
{
    let cs = chars_of(s);
    let n = white_back(&cs, 0);
    assert(cs@.skip(0) =~= cs@);
    string_of(&cs, 0, n)
}

/// A text without the white space at its two ends.
pub fn trim(s: &str) -> (r: String)
    ensures
        r@ == trimmed(s@),
{
    let cs = chars_of(s);
    let from = white_front(&cs);
    let to = white_back(&cs, from);
    string_of(&cs, from, to)
}

// ---- Letter case ------------------------------------------------------------

/// An ASCII capital as its small letter; any other character as it is.
pub open spec fn small(c: char) -> char {
    if 'A' <= c <= 'Z' {
        (c as u32 + 32) as char
    } else {
        c
    }
}

/// A text with its ASCII capitals as small letters.
pub open spec fn ascii_lower(s: Seq<char>) -> Seq<char> {
    Seq::new(s.len(), |i: int| small(s[i]))
}

/// A text with its ASCII capitals as small letters.
pub fn to_ascii_lower(s: &str) -> (r: String)
    ensures
        r@ == ascii_lower(s@),
{
    let cs = chars_of(s);
    let mut out = String::new();
    let mut i: usize = 0;
    while i < cs.len()
        invariant
            i <= cs.len(),
            cs@ == s@,
            out@ == ascii_lower(s@).take(i as int),
        decreases cs.len() - i,
    {
        let c = cs[i];
        let low = if 'A' <= c && c <= 'Z' {
            (c as u8 + 32u8) as char
        } else {
            c
        };
        out.push(low);
        i += 1;
        assert(ascii_lower(s@).take(i as int) =~= ascii_lower(s@).take(i - 1).push(small(c)));
    }
    assert(ascii_lower(s@).take(cs@.len() as int) =~= ascii_lower(s@));
    out
}

/// The lowercase form of a text, as `str::to_lowercase` gives it.
pub uninterp spec fn lowercase(s: Seq<char>) -> Seq<char>;

/// `str::to_lowercase`: the lowercase form of a text by Unicode's tables,
/// which [`lowercase`] names.
#[verifier::external_body]
pub(crate) fn to_lowercase(s: &str) -> (r: String)
    ensures
        r@ == lowercase(s@),
{
    s.to_lowercase()
}

// ---- Joining ----------------------------------------------------------------

/// Texts one after the other, with a separator between them.
pub open spec fn joined(parts: Seq<Seq<char>>, sep: Seq<char>) -> Seq<char>
    decreases parts.len(),
{
    if parts.len() == 0 {
        Seq::empty()
    } else if parts.len() == 1 {
        parts[0]
    } else {
        joined(parts.drop_last(), sep) + sep + parts.last()
    }
}

/// Texts one after the other, with a separator between them.
pub fn join(parts: &Vec<String>, sep: &str) -> (r: String)
    ensures
        r@ == joined(text_views(parts@), sep@),
{
    let mut out = String::new();
    let ghost all = text_views(parts@);
    let mut i: usize = 0;
    while i < parts.len()
        invariant
            i <= parts.len(),
            all == text_views(parts@),
            out@ == joined(all.take(i as int), sep@),
        decreases parts.len() - i,
    {
        if i > 0 {
            out.append(sep);
        }
        out.append(parts[i].as_str());
        i += 1;
        assert(all.take(i as int).drop_last() =~= all.take(i - 1));
        assert(all.take(i as int).last() == parts@[i - 1]@);
    }
    assert(all.take(parts.len() as int) =~= all);
    out
}

/// A text after a prefix.
pub fn prefixed(prefix: &str, s: &str) -> (r: String)
    ensures
        r@ == prefix@ + s@,
{
    let mut out: String = prefix.to_owned();
    out.append(s);
    out
}

// ---- Decimal numbers --------------------------------------------------------

/// A decimal digit.
pub open spec fn digit(d: nat) -> char {
    (48 + d) as char
}

/// A number in decimal.
pub open spec fn decimal(n: nat) -> Seq<char>
    decreases n,
{
    if n < 10 {
        seq![digit(n)]
    } else {
        decimal(n / 10).push(digit(n % 10))
    }
}

/// A number in decimal.
pub fn to_decimal(n: u64) -> (r: String)
    ensures
        r@ == decimal(n as nat),
    decreases n,
{
    let mut out = if n < 10 {
        String::new()
    } else {
        to_decimal(n / 10)
    };
    out.push((48u8 + (n % 10) as u8) as char);
    assert(out@ =~= decimal(n as nat));
    out
}

/// A number in decimal, with its sign where it is negative.
pub open spec fn signed(n: int) -> Seq<char> {
    if n < 0 {
        "-"@ + decimal((-n) as nat)
    } else {
        decimal(n as nat)
    }
}

/// A number in decimal, with its sign where it is negative.
pub fn to_signed(n: i64) -> (r: String)
    ensures
        r@ == signed(n as int),
{
    if n < 0 {
        let size: u64 = (-(n + 1)) as u64 + 1;
        prefixed("-", to_decimal(size).as_str())
    } else {
        to_decimal(n as u64)
    }
}

/// A text between quotes, with what cannot be shown escaped, as the debug form
/// of `str` writes it.
pub uninterp spec fn quoted(s: Seq<char>) -> Seq<char>;

/// The debug form of `str`, by `format!`: the text that [`quoted`] names.
#[verifier::external_body]
pub(crate) fn quote(s: &str) -> (r: String)
    ensures
        r@ == quoted(s@),
{
    format!("{s:?}")
}

/// Whether all characters of a text are decimal digits.
pub open spec fn all_digits(s: Seq<char>) -> bool {
    forall|i: int| 0 <= i < s.len() ==> '0' <= #[trigger] s[i] <= '9'
}

/// The number that digits write.
pub open spec fn value_of(s: Seq<char>) -> nat
    decreases s.len(),
{
    if s.len() == 0 {
        0
    } else {
        value_of(s.drop_last()) * 10 + (s.last() as nat - 48) as nat
    }
}

/// The integer of 64 bits that a text writes: digits, with a sign before them
/// or not. Any other text, and one whose number does not fit, writes none.
pub open spec fn integer(s: Seq<char>) -> Option<int> {
    let signed = s.len() > 0 && (s[0] == '-' || s[0] == '+');
    let digits = if signed {
        s.drop_first()
    } else {
        s
    };
    let n = if signed && s[0] == '-' {
        -(value_of(digits) as int)
    } else {
        value_of(digits) as int
    };
    if digits.len() == 0 || !all_digits(digits) || !(i64::MIN <= n <= i64::MAX) {
        None
    } else {
        Some(n)
    }
}

/// The number that digits write, as long as it is not over a bound.
fn read_digits(cs: &Vec<char>, from: usize) -> (r: Option<i128>)
    requires
        from <= cs.len(),
    ensures
        match r {
            Some(n) => all_digits(cs@.skip(from as int)) && n == value_of(cs@.skip(from as int)),
            None => !all_digits(cs@.skip(from as int)) || value_of(cs@.skip(from as int))
                > i64::MAX + 1,
        },
{
    let ghost digits = cs@.skip(from as int);
    let mut n: i128 = 0;
    let mut over: bool = false;
    let mut i: usize = from;
    while i < cs.len()
        invariant
            from <= i <= cs.len(),
            digits == cs@.skip(from as int),
            all_digits(digits.take(i - from)),
            !over ==> n == value_of(digits.take(i - from)) && 0 <= n <= i64::MAX + 1,
            over ==> value_of(digits.take(i - from)) > i64::MAX + 1,
        decreases cs.len() - i,
    {
        let c = cs[i];
        assert(digits[i - from] == c);
        if c < '0' || c > '9' {
            return None;
        }
        proof {
            let next = digits.take(i - from + 1);
            assert(next.drop_last() =~= digits.take(i - from));
            assert(next.last() == c);
            assert forall|k: int| 0 <= k < next.len() implies '0' <= #[trigger] next[k] <= '9' by {
                if k < i - from {
                    assert(digits.take(i - from)[k] == next[k]);
                }
            }
        }
        if !over {
            n = n * 10 + (c as u8 - 48u8) as i128;
            if n > 9223372036854775808i128 {
                over = true;
            }
        }
        i += 1;
    }
    assert(digits.take(cs.len() - from) =~= digits);
    if over {
        None
    } else {
        Some(n)
    }
}

/// The integer of 64 bits that a text writes.
pub fn read_integer(s: &str) -> (r: Option<i64>)
    ensures
        match r {
            Some(n) => integer(s@) == Some(n as int),
            None => integer(s@) is None,
        },
{
    let cs = chars_of(s);
    if cs.len() == 0 {
        return None;
    }
    let negative = cs[0] == '-';
    let from: usize = if negative || cs[0] == '+' {
        1
    } else {
        0
    };
    assert(cs@.skip(1) =~= s@.drop_first());
    assert(cs@.skip(0) =~= s@);
    if from == cs.len() {
        return None;
    }
    match read_digits(&cs, from) {
        Some(n) => {
            let value: i128 = if negative {
                -n
            } else {
                n
            };
            if value > 9223372036854775807i128 || value < -9223372036854775808i128 {
                None
            } else {
                Some(value as i64)
            }
        },
        None => None,
    }
}

// ---- Lines ------------------------------------------------------------------

/// Where a character first stands in a text; the length, where it does not.
pub open spec fn first_index(s: Seq<char>, c: char) -> nat
    decreases s.len(),
{
    if s.len() == 0 || s[0] == c {
        0
    } else {
        1 + first_index(s.drop_first(), c)
    }
}

/// A text without one carriage return at its end.
pub open spec fn without_return(s: Seq<char>) -> Seq<char> {
    if s.len() > 0 && s.last() == '\r' {
        s.drop_last()
    } else {
        s
    }
}

/// The lines of a text: each ends at a line feed, which is cut with a carriage
/// return before it; what follows the last line feed is a line if not empty.
pub open spec fn lines(s: Seq<char>) -> Seq<Seq<char>>
    decreases s.len(),
{
    let n = first_index(s, '\n');
    if s.len() == 0 {
        Seq::empty()
    } else if n >= s.len() {
        seq![s]
    } else {
        seq![without_return(s.take(n as int))] + lines(s.skip(n as int + 1))
    }
}

/// The first place of a character is the one before which it does not stand.
pub proof fn lemma_first_index(s: Seq<char>, c: char, n: nat)
    requires
        n <= s.len(),
        forall|k: int| 0 <= k < n ==> s[k] != c,
        n < s.len() ==> s[n as int] == c,
    ensures
        first_index(s, c) == n,
    decreases s.len(),
{
    if s.len() > 0 && n > 0 {
        assert(s[0] != c);
        assert forall|k: int| 0 <= k < n - 1 implies s.drop_first()[k] != c by {
            assert(s[k + 1] != c);
        }
        lemma_first_index(s.drop_first(), c, (n - 1) as nat);
    }
}

/// Whether a text has neither a line feed nor a carriage return.
pub open spec fn unbroken(s: Seq<char>) -> bool {
    forall|k: int| 0 <= k < s.len() ==> #[trigger] s[k] != '\n' && s[k] != '\r'
}

/// The first of some texts stands first among them joined.
pub proof fn lemma_joined_front(parts: Seq<Seq<char>>, sep: Seq<char>)
    requires
        parts.len() > 1,
    ensures
        joined(parts, sep) == parts[0] + sep + joined(parts.drop_first(), sep),
    decreases parts.len(),
{
    let rest = parts.drop_first();
    if parts.len() == 2 {
        assert(parts.drop_last() =~= seq![parts[0]]);
        assert(rest =~= seq![parts[1]]);
        assert(joined(parts.drop_last(), sep) == parts[0]);
        assert(joined(rest, sep) == parts[1]);
    } else {
        lemma_joined_front(parts.drop_last(), sep);
        assert(parts.drop_last().drop_first() =~= rest.drop_last());
        assert(joined(parts, sep) =~= parts[0] + sep + joined(rest, sep));
    }
}

/// A text before a line feed is the first line.
proof fn lemma_first_line(line: Seq<char>, rest: Seq<char>)
    requires
        unbroken(line),
    ensures
        lines(line + "\n"@ + rest) == seq![line] + lines(rest),
{
    reveal_strlit("\n");
    let all = line + "\n"@ + rest;
    assert forall|k: int| 0 <= k < line.len() implies all[k] != '\n' by {
        assert(all[k] == line[k]);
    }
    assert(all[line.len() as int] == '\n');
    lemma_first_index(all, '\n', line.len());
    assert(all.take(line.len() as int) =~= line);
    assert(all.skip(line.len() as int + 1) =~= rest);
}

/// Joined by line feeds, unbroken texts are the lines of what they make, unless
/// the last is empty.
pub proof fn lemma_lines_of_joined(parts: Seq<Seq<char>>)
    requires
        forall|i: int| 0 <= i < parts.len() ==> unbroken(#[trigger] parts[i]),
        parts.len() > 0 ==> parts.last().len() > 0,
    ensures
        lines(joined(parts, "\n"@)) == parts,
    decreases parts.len(),
{
    if parts.len() == 0 {
        assert(lines(joined(parts, "\n"@)) =~= parts);
    } else if parts.len() == 1 {
        let s = parts[0];
        lemma_first_index(s, '\n', s.len());
        assert(lines(s) =~= parts);
    } else {
        let rest = parts.drop_first();
        assert forall|i: int| 0 <= i < rest.len() implies unbroken(#[trigger] rest[i]) by {
            assert(rest[i] == parts[i + 1]);
        }
        lemma_lines_of_joined(rest);
        lemma_joined_front(parts, "\n"@);
        lemma_first_line(parts[0], joined(rest, "\n"@));
        assert(seq![parts[0]] + rest =~= parts);
    }
}

/// The lines of a text without carriage returns that does not end with a line
/// feed are unbroken, the last is not empty, and joined by line feeds they are
/// the text.
pub proof fn lemma_joined_lines(s: Seq<char>)
    requires
        !s.contains('\r'),
        s.len() > 0 ==> s.last() != '\n',
    ensures
        forall|i: int| 0 <= i < lines(s).len() ==> unbroken(#[trigger] lines(s)[i]),
        lines(s).len() > 0 ==> lines(s).last().len() > 0,
        s.len() > 0 ==> lines(s).len() > 0,
        joined(lines(s), "\n"@) == s,
    decreases s.len(),
{
    let n = first_index(s, '\n');
    lemma_index_found(s, '\n');
    assert forall|k: int| 0 <= k < s.len() implies s[k] != '\r' by {
        assert(s.contains(s[k]));
    }
    if s.len() == 0 {
        assert(joined(lines(s), "\n"@) =~= s);
    } else if n >= s.len() {
        assert(lines(s) =~= seq![s]);
    } else {
        reveal_strlit("\n");
        let head = s.take(n as int);
        let rest = s.skip(n as int + 1);
        assert(n + 1 < s.len());
        assert(rest.last() == s.last());
        assert forall|k: int| 0 <= k < rest.len() implies rest[k] != '\r' by {
            assert(rest[k] == s[n + 1 + k]);
        }
        lemma_joined_lines(rest);
        assert(without_return(head) == head) by {
            if head.len() > 0 {
                assert(head.last() == s[n - 1]);
            }
        }
        let all = lines(s);
        assert(all == seq![head] + lines(rest));
        assert(all.drop_first() =~= lines(rest));
        assert forall|i: int| 0 <= i < all.len() implies unbroken(#[trigger] all[i]) by {
            if i > 0 {
                assert(all[i] == lines(rest)[i - 1]);
            } else {
                assert forall|k: int| 0 <= k < head.len() implies #[trigger] head[k] != '\n'
                    && head[k] != '\r' by {
                    assert(head[k] == s[k]);
                }
            }
        }
        assert(all.last() == lines(rest).last());
        lemma_joined_front(all, "\n"@);
        assert(head + "\n"@ + rest =~= s);
    }
}

/// A character does not stand before its first place.
proof fn lemma_index_found(s: Seq<char>, c: char)
    ensures
        first_index(s, c) <= s.len(),
        forall|k: int| 0 <= k < first_index(s, c) ==> #[trigger] s[k] != c,
        first_index(s, c) < s.len() ==> s[first_index(s, c) as int] == c,
    decreases s.len(),
{
    if s.len() > 0 && s[0] != c {
        let rest = s.drop_first();
        lemma_index_found(rest, c);
        assert forall|k: int| 0 <= k < first_index(s, c) implies #[trigger] s[k] != c by {
            if k > 0 {
                assert(s[k] == rest[k - 1]);
            }
        }
    }
}

/// The lines of a text.
pub fn split_lines(s: &str) -> (r: Vec<String>)
    ensures
        text_views(r@) == lines(s@),
{
    let cs = chars_of(s);
    let mut out: Vec<String> = Vec::new();
    let mut start: usize = 0;
    let mut i: usize = 0;
    assert(s@.skip(0) =~= s@);
    assert(text_views(out@) + lines(s@) =~= lines(s@));
    while i < cs.len()
        invariant
            start <= i <= cs.len(),
            cs@ == s@,
            lines(s@) == text_views(out@) + lines(s@.skip(start as int)),
            forall|k: int| start <= k < i ==> cs@[k] != '\n',
        decreases cs.len() - i,
    {
        if cs[i] == '\n' {
            let ghost rest = s@.skip(start as int);
            let ghost before = text_views(out@);
            let ghost line = rest.take(i - start);
            proof {
                lemma_first_index(rest, '\n', (i - start) as nat);
                assert(rest.skip(i - start + 1) =~= s@.skip(i + 1));
                assert(line =~= cs@.subrange(start as int, i as int));
            }
            let mut end: usize = i;
            if end > start && cs[end - 1] == '\r' {
                end -= 1;
            }
            out.push(string_of(&cs, start, end));
            proof {
                assert(cs@.subrange(start as int, end as int) =~= without_return(line));
                assert(text_views(out@) =~= before.push(without_return(line)));
                assert(before.push(without_return(line)) + lines(s@.skip(i + 1)) =~= before + (
                seq![without_return(line)] + lines(s@.skip(i + 1))));
            }
            start = i + 1;
        }
        i += 1;
    }
    if start < cs.len() {
        let ghost rest = s@.skip(start as int);
        let ghost before = text_views(out@);
        proof {
            lemma_first_index(rest, '\n', rest.len());
        }
        out.push(string_of(&cs, start, cs.len()));
        proof {
            assert(cs@.subrange(start as int, cs@.len() as int) =~= rest);
            assert(text_views(out@) =~= before + seq![rest]);
        }
    } else {
        assert(text_views(out@) + lines(s@.skip(start as int)) =~= text_views(out@));
    }
    out
}

// ---- Order ------------------------------------------------------------------

/// Whether a text comes before another: character by character, where a text
/// comes before those that it begins.
pub open spec fn precedes(a: Seq<char>, b: Seq<char>) -> bool
    decreases a.len(),
{
    if b.len() == 0 {
        false
    } else if a.len() == 0 {
        true
    } else if a[0] == b[0] {
        precedes(a.drop_first(), b.drop_first())
    } else {
        a[0] < b[0]
    }
}

/// No text comes before itself.
pub proof fn lemma_precedes_irreflexive(a: Seq<char>)
    ensures
        !precedes(a, a),
    decreases a.len(),
{
    if a.len() > 0 {
        lemma_precedes_irreflexive(a.drop_first());
    }
}

/// What comes before a text comes before all that follow it.
pub proof fn lemma_precedes_transitive(a: Seq<char>, b: Seq<char>, c: Seq<char>)
    requires
        precedes(a, b),
        precedes(b, c),
    ensures
        precedes(a, c),
    decreases a.len(),
{
    if a.len() > 0 && b.len() > 0 && c.len() > 0 && a[0] == b[0] && b[0] == c[0] {
        lemma_precedes_transitive(a.drop_first(), b.drop_first(), c.drop_first());
    }
}

/// Of two texts, one comes before the other, or they are the same.
pub proof fn lemma_precedes_total(a: Seq<char>, b: Seq<char>)
    ensures
        precedes(a, b) || precedes(b, a) || a == b,
    decreases a.len(),
{
    if a.len() > 0 && b.len() > 0 {
        if a[0] == b[0] {
            lemma_precedes_total(a.drop_first(), b.drop_first());
            if a.drop_first() == b.drop_first() {
                assert(a =~= seq![a[0]] + a.drop_first());
                assert(b =~= seq![b[0]] + b.drop_first());
            }
        }
    } else if a.len() == 0 && b.len() == 0 {
        assert(a =~= b);
    }
}

/// Whether a text comes before another.
pub fn text_less(a: &str, b: &str) -> (r: bool)
    ensures
        r == precedes(a@, b@),
{
    let x = chars_of(a);
    let y = chars_of(b);
    let mut i: usize = 0;
    assert(a@.skip(0) =~= a@);
    assert(b@.skip(0) =~= b@);
    while i < x.len() && i < y.len()
        invariant
            i <= x.len(),
            i <= y.len(),
            x@ == a@,
            y@ == b@,
            precedes(a@, b@) == precedes(a@.skip(i as int), b@.skip(i as int)),
        decreases x.len() - i,
    {
        if x[i] != y[i] {
            return x[i] < y[i];
        }
        assert(a@.skip(i as int).drop_first() =~= a@.skip(i + 1));
        assert(b@.skip(i as int).drop_first() =~= b@.skip(i + 1));
        i += 1;
    }
    i < y.len()
}

/// A text put into an ordered list, unless it is there.
pub open spec fn with_text(s: Seq<Seq<char>>, x: Seq<char>) -> Seq<Seq<char>>
    decreases s.len(),
{
    if s.len() == 0 {
        seq![x]
    } else if s[0] == x {
        s
    } else if precedes(s[0], x) {
        seq![s[0]] + with_text(s.drop_first(), x)
    } else {
        seq![x] + s
    }
}

/// The texts of a list in their order, each once.
pub open spec fn distinct(s: Seq<Seq<char>>) -> Seq<Seq<char>>
    decreases s.len(),
{
    if s.len() == 0 {
        Seq::empty()
    } else {
        with_text(distinct(s.drop_last()), s.last())
    }
}

/// Whether each text of a list comes before those that follow it.
pub open spec fn increasing(s: Seq<Seq<char>>) -> bool {
    forall|i: int, j: int| 0 <= i < j < s.len() ==> #[trigger] precedes(s[i], s[j])
}

/// Puts a text into an ordered list, unless it is there.
pub fn put_text(v: &mut Vec<String>, x: &str)
    ensures
        text_views(final(v)@) == with_text(text_views(old(v)@), x@),
{
    let ghost all = text_views(v@);
    let mut i: usize = 0;
    assert(all.skip(0) =~= all);
    assert(with_text(all, x@) =~= all.take(0) + with_text(all.skip(0), x@));
    while i < v.len() && text_less(v[i].as_str(), x)
        invariant
            i <= v.len(),
            *v == *old(v),
            all == text_views(v@),
            with_text(all, x@) == all.take(i as int) + with_text(all.skip(i as int), x@),
        decreases v.len() - i,
    {
        proof {
            let rest = all.skip(i as int);
            assert(rest[0] == v@[i as int]@);
            lemma_precedes_irreflexive(x@);
            assert(rest.drop_first() =~= all.skip(i + 1));
            assert(all.take(i as int) + (seq![rest[0]] + with_text(all.skip(i + 1), x@))
                =~= all.take(i + 1) + with_text(all.skip(i + 1), x@));
        }
        i += 1;
    }
    let ghost rest = all.skip(i as int);
    if i < v.len() {
        assert(rest[0] == v@[i as int]@);
        if text_eq(v[i].as_str(), x) {
            assert(all.take(i as int) + rest =~= all);
            return ;
        }
    }
    v.insert(i, x.to_owned());
    assert(text_views(v@) =~= all.take(i as int) + (seq![x@] + rest));
    assert(rest.len() == 0 ==> seq![x@] + rest =~= seq![x@]);
}

/// Putting a text into an ordered list keeps the order, and the list then holds
/// what it held and the text.
pub proof fn lemma_with_text(s: Seq<Seq<char>>, x: Seq<char>)
    requires
        increasing(s),
    ensures
        increasing(with_text(s, x)),
        forall|y: Seq<char>|
            #[trigger] with_text(s, x).contains(y) <==> s.contains(y) || y == x,
    decreases s.len(),
{
    let r = with_text(s, x);
    if s.len() == 0 {
        assert(r[0] == x);
    } else if s[0] == x {
        assert(s.contains(x));
    } else if precedes(s[0], x) {
        let rest = s.drop_first();
        assert forall|i: int, j: int| 0 <= i < j < rest.len() implies #[trigger] precedes(
            rest[i],
            rest[j],
        ) by {
            assert(precedes(s[i + 1], s[j + 1]));
        }
        lemma_with_text(rest, x);
        let t = with_text(rest, x);
        assert forall|i: int, j: int| 0 <= i < j < r.len() implies #[trigger] precedes(
            r[i],
            r[j],
        ) by {
            if i == 0 {
                assert(r[j] == t[j - 1]);
                assert(t.contains(t[j - 1]));
                if t[j - 1] != x {
                    let k = choose|k: int| 0 <= k < rest.len() && rest[k] == t[j - 1];
                    assert(precedes(s[0], s[k + 1]));
                }
            } else {
                assert(precedes(t[i - 1], t[j - 1]));
            }
        }
        assert forall|y: Seq<char>| #[trigger] r.contains(y) <==> s.contains(y) || y == x by {
            if s.contains(y) {
                let k = choose|k: int| 0 <= k < s.len() && s[k] == y;
                if k == 0 {
                    assert(r[0] == y);
                } else {
                    assert(rest[k - 1] == y);
                    assert(t.contains(y));
                }
            }
            if t.contains(y) {
                let k = choose|k: int| 0 <= k < t.len() && t[k] == y;
                assert(r[k + 1] == y);
                if rest.contains(y) {
                    let m = choose|m: int| 0 <= m < rest.len() && rest[m] == y;
                    assert(s[m + 1] == y);
                }
            }
            if r.contains(y) {
                let k = choose|k: int| 0 <= k < r.len() && r[k] == y;
                if k > 0 {
                    assert(t[k - 1] == y);
                    assert(t.contains(y));
                }
            }
        }
    } else {
        lemma_precedes_total(s[0], x);
        assert forall|i: int, j: int| 0 <= i < j < r.len() implies #[trigger] precedes(
            r[i],
            r[j],
        ) by {
            if i == 0 {
                if j > 1 {
                    assert(precedes(s[0], s[j - 1]));
                    lemma_precedes_transitive(x, s[0], s[j - 1]);
                }
            } else {
                assert(precedes(s[i - 1], s[j - 1]));
            }
        }
        assert forall|y: Seq<char>| #[trigger] r.contains(y) <==> s.contains(y) || y == x by {
            if s.contains(y) {
                let k = choose|k: int| 0 <= k < s.len() && s[k] == y;
                assert(r[k + 1] == y);
            }
            if r.contains(y) {
                let k = choose|k: int| 0 <= k < r.len() && r[k] == y;
                if k > 0 {
                    assert(s[k - 1] == y);
                }
            }
            assert(r[0] == x);
        }
    }
}

/// The ordered list of the texts of a list is strictly increasing, and holds
/// the same texts.
pub proof fn law_distinct(s: Seq<Seq<char>>)
    ensures
        increasing(distinct(s)),
        forall|y: Seq<char>| #[trigger] distinct(s).contains(y) <==> s.contains(y),
    decreases s.len(),
{
    if s.len() > 0 {
        let rest = s.drop_last();
        law_distinct(rest);
        lemma_with_text(distinct(rest), s.last());
        assert forall|y: Seq<char>| #[trigger] distinct(s).contains(y) <==> s.contains(y) by {
            if rest.contains(y) {
                let k = choose|k: int| 0 <= k < rest.len() && rest[k] == y;
                assert(s[k] == y);
            }
            if s.contains(y) {
                let k = choose|k: int| 0 <= k < s.len() && s[k] == y;
                if k < s.len() - 1 {
                    assert(rest[k] == y);
                }
            }
            assert(s[s.len() - 1] == s.last());
            assert(distinct(rest).contains(y) <==> rest.contains(y));
        }
    }
}

/// No text stands twice in a strictly increasing list.
pub proof fn lemma_increasing_distinct(s: Seq<Seq<char>>, i: int, j: int)
    requires
        increasing(s),
        0 <= i < s.len(),
        0 <= j < s.len(),
        s[i] == s[j],
    ensures
        i == j,
{
    lemma_precedes_irreflexive(s[i]);
    if i < j {
        assert(precedes(s[i], s[j]));
    } else if j < i {
        assert(precedes(s[j], s[i]));
    }
}

/// A text put into an ordered list, after those that are the same.
pub open spec fn with_ordered(s: Seq<Seq<char>>, x: Seq<char>) -> Seq<Seq<char>>
    decreases s.len(),
{
    if s.len() == 0 {
        seq![x]
    } else if precedes(x, s[0]) {
        seq![x] + s
    } else {
        seq![s[0]] + with_ordered(s.drop_first(), x)
    }
}

/// The texts of a list in their order.
pub open spec fn ordered(s: Seq<Seq<char>>) -> Seq<Seq<char>>
    decreases s.len(),
{
    if s.len() == 0 {
        Seq::empty()
    } else {
        with_ordered(ordered(s.drop_last()), s.last())
    }
}

/// Puts a text into an ordered list, after those that are the same.
pub fn put_ordered(v: &mut Vec<String>, x: &str)
    ensures
        text_views(final(v)@) == with_ordered(text_views(old(v)@), x@),
{
    let ghost all = text_views(v@);
    let mut i: usize = 0;
    assert(all.skip(0) =~= all);
    assert(with_ordered(all, x@) =~= all.take(0) + with_ordered(all.skip(0), x@));
    while i < v.len() && !text_less(x, v[i].as_str())
        invariant
            i <= v.len(),
            *v == *old(v),
            all == text_views(v@),
            with_ordered(all, x@) == all.take(i as int) + with_ordered(all.skip(i as int), x@),
        decreases v.len() - i,
    {
        proof {
            let rest = all.skip(i as int);
            assert(rest[0] == v@[i as int]@);
            assert(rest.drop_first() =~= all.skip(i + 1));
            assert(all.take(i as int) + (seq![rest[0]] + with_ordered(all.skip(i + 1), x@))
                =~= all.take(i + 1) + with_ordered(all.skip(i + 1), x@));
        }
        i += 1;
    }
    let ghost rest = all.skip(i as int);
    assert(i < v.len() ==> rest[0] == v@[i as int]@);
    v.insert(i, x.to_owned());
    assert(text_views(v@) =~= all.take(i as int) + (seq![x@] + rest));
    assert(rest.len() == 0 ==> seq![x@] + rest =~= seq![x@]);
}

/// Whether no text of a list comes before one that stands before it.
pub open spec fn in_order(s: Seq<Seq<char>>) -> bool {
    forall|i: int, j: int| 0 <= i < j < s.len() ==> !#[trigger] precedes(s[j], s[i])
}

/// Putting a text into an ordered list keeps the order, and adds that text.
proof fn lemma_with_ordered(s: Seq<Seq<char>>, x: Seq<char>)
    requires
        in_order(s),
    ensures
        in_order(with_ordered(s, x)),
        with_ordered(s, x).to_multiset() == s.to_multiset().insert(x),
    decreases s.len(),
{
    broadcast use vstd::seq_lib::group_to_multiset_ensures;

    let r = with_ordered(s, x);
    if s.len() == 0 {
        assert(s =~= Seq::empty());
        assert(r =~= s.push(x));
    } else if precedes(x, s[0]) {
        assert forall|i: int, j: int| 0 <= i < j < r.len() implies !#[trigger] precedes(
            r[j],
            r[i],
        ) by {
            if i == 0 {
                if precedes(s[j - 1], x) {
                    lemma_precedes_transitive(s[j - 1], x, s[0]);
                    if j == 1 {
                        lemma_precedes_irreflexive(s[0]);
                    } else {
                        assert(!precedes(s[j - 1], s[0]));
                    }
                }
            } else {
                assert(!precedes(s[j - 1], s[i - 1]));
            }
        }
        assert(r =~= s.insert(0, x));
    } else {
        let rest = s.drop_first();
        assert forall|i: int, j: int| 0 <= i < j < rest.len() implies !#[trigger] precedes(
            rest[j],
            rest[i],
        ) by {
            assert(!precedes(s[j + 1], s[i + 1]));
        }
        lemma_with_ordered(rest, x);
        let t = with_ordered(rest, x);
        assert(s =~= rest.insert(0, s[0]));
        assert(r =~= t.insert(0, s[0]));
        assert forall|i: int, j: int| 0 <= i < j < r.len() implies !#[trigger] precedes(
            r[j],
            r[i],
        ) by {
            if i == 0 {
                let y = t[j - 1];
                assert(t.to_multiset().count(y) > 0) by {
                    assert(t.contains(y));
                }
                if y != x {
                    assert(rest.to_multiset().count(y) > 0);
                    assert(rest.contains(y));
                    let k = choose|k: int| 0 <= k < rest.len() && rest[k] == y;
                    assert(!precedes(s[k + 1], s[0]));
                }
            } else {
                assert(!precedes(t[j - 1], t[i - 1]));
            }
        }
        assert(s.to_multiset() =~= rest.to_multiset().insert(s[0]));
        assert(r.to_multiset() =~= t.to_multiset().insert(s[0]));
        assert(r.to_multiset() =~= s.to_multiset().insert(x));
    }
}

/// The ordered list of some texts holds them and no others, in their order.
pub proof fn law_ordered(s: Seq<Seq<char>>)
    ensures
        in_order(ordered(s)),
        ordered(s).to_multiset() == s.to_multiset(),
    decreases s.len(),
{
    broadcast use vstd::seq_lib::group_to_multiset_ensures;

    if s.len() > 0 {
        law_ordered(s.drop_last());
        lemma_with_ordered(ordered(s.drop_last()), s.last());
        assert(s =~= s.drop_last().push(s.last()));
    } else {
        assert(s =~= Seq::empty());
    }
}

// ---- What holds of texts ----------------------------------------------------

/// Joining is piecewise: two lists joined are the first, the separator where
/// both have a part, and the second. One part is itself, and none is nothing.
pub proof fn law_joined_adds_up(a: Seq<Seq<char>>, b: Seq<Seq<char>>, sep: Seq<char>)
    ensures
        joined(Seq::<Seq<char>>::empty(), sep) == Seq::<char>::empty(),
        forall|x: Seq<char>| #[trigger] joined(seq![x], sep) == x,
        joined(a + b, sep) == joined(a, sep) + (if a.len() > 0 && b.len() > 0 {
            sep
        } else {
            Seq::empty()
        }) + joined(b, sep),
    decreases b.len(),
{
    let all = a + b;
    if b.len() == 0 {
        assert(all =~= a);
        assert(joined(a, sep) + Seq::<char>::empty() + joined(b, sep) =~= joined(a, sep));
    } else if a.len() == 0 {
        assert(all =~= b);
        assert(joined(a, sep) + Seq::<char>::empty() + joined(b, sep) =~= joined(b, sep));
    } else {
        assert(all.drop_last() =~= a + b.drop_last());
        assert(all.last() == b.last());
        law_joined_adds_up(a, b.drop_last(), sep);
        if b.len() == 1 {
            assert(a + b.drop_last() =~= a);
            assert(b[0] == b.last());
        } else {
            assert(joined(all, sep) =~= joined(a, sep) + sep + joined(b, sep));
        }
    }
}

/// The characters of a trimmed text are those of the text between the blanks at
/// its ends, and neither end of it is blank.
pub proof fn law_trimmed_is_the_middle(s: Seq<char>)
    ensures
        exists|i: int, j: int|
            #![trigger s.subrange(i, j)]
            0 <= i <= j <= s.len() && trimmed(s) == s.subrange(i, j) && (forall|k: int|
                0 <= k < i || j <= k < s.len() ==> is_white(#[trigger] s[k])),
        trimmed(s).len() > 0 ==> !is_white(trimmed(s)[0]) && !is_white(trimmed(s).last()),
{
    lemma_trim_front(s);
    let t = trim_front(s);
    lemma_trim_back(t);
    let i = s.len() - t.len();
    let j = i + trimmed(s).len();
    assert(trimmed(s) =~= s.subrange(i, j));
    assert forall|k: int| 0 <= k < i || j <= k < s.len() implies is_white(#[trigger] s[k]) by {
        if k >= i {
            assert(t[k - i] == s[k]);
        }
    }
}

/// Trimming the back cuts blanks only, and all of them.
pub proof fn lemma_trim_back(s: Seq<char>)
    ensures
        trim_back(s).len() <= s.len(),
        trim_back(s) == s.take(trim_back(s).len() as int),
        forall|k: int| trim_back(s).len() <= k < s.len() ==> is_white(#[trigger] s[k]),
        trim_back(s).len() > 0 ==> !is_white(trim_back(s).last()),
        trim_back(s).len() > 0 ==> trim_back(s)[0] == s[0],
    decreases s.len(),
{
    if s.len() > 0 && is_white(s.last()) {
        let rest = s.drop_last();
        lemma_trim_back(rest);
        assert(trim_back(s) =~= s.take(trim_back(s).len() as int));
        assert forall|k: int| trim_back(s).len() <= k < s.len() implies is_white(
            #[trigger] s[k],
        ) by {
            if k < rest.len() {
                assert(s[k] == rest[k]);
            }
        }
    } else {
        assert(s.take(s.len() as int) =~= s);
    }
}

/// The blanks of the keyboard are white space; what can be seen in ASCII is not.
pub proof fn law_blanks_are_white(c: char)
    ensures
        c == ' ' || c == '\n' || c == '\t' || c == '\r' ==> is_white(c),
        '!' <= c <= '~' ==> !is_white(c),
{
}

/// One text precedes another exactly if it is a beginning of it, or has the
/// smaller character where they first differ.
pub proof fn law_precedes_by_the_first_difference(a: Seq<char>, b: Seq<char>)
    ensures
        precedes(a, b) <==> exists|k: int|
            #![trigger a.take(k)]
            0 <= k <= a.len() && k < b.len() && a.take(k) == b.take(k) && (k == a.len() || a[k]
                < b[k]),
    decreases a.len(),
{
    if a.len() > 0 && b.len() > 0 && a[0] == b[0] {
        let x = a.drop_first();
        let y = b.drop_first();
        law_precedes_by_the_first_difference(x, y);
        if precedes(x, y) {
            let k = choose|k: int|
                #![trigger x.take(k)]
                0 <= k <= x.len() && k < y.len() && x.take(k) == y.take(k) && (k == x.len() || x[k]
                    < y[k]);
            assert forall|i: int| 0 <= i < k + 1 implies a[i] == b[i] by {
                if i > 0 {
                    assert(x.take(k)[i - 1] == y.take(k)[i - 1]);
                }
            }
            assert(a.take(k + 1) =~= b.take(k + 1));
        }
        if exists|k: int|
            #![trigger a.take(k)]
            0 <= k <= a.len() && k < b.len() && a.take(k) == b.take(k) && (k == a.len() || a[k]
                < b[k]) {
            let k = choose|k: int|
                #![trigger a.take(k)]
                0 <= k <= a.len() && k < b.len() && a.take(k) == b.take(k) && (k == a.len() || a[k]
                    < b[k]);
            assert(k > 0);
            assert forall|i: int| 0 <= i < k - 1 implies x[i] == y[i] by {
                assert(a.take(k)[i + 1] == b.take(k)[i + 1]);
            }
            assert(x.take(k - 1) =~= y.take(k - 1));
        }
    } else if b.len() > 0 {
        assert(a.take(0) =~= b.take(0));
        if a.len() > 0 {
            assert forall|k: int|
                #![trigger a.take(k)]
                0 <= k <= a.len() && k < b.len() && a.take(k) == b.take(k) implies k == 0 by {
                if k > 0 {
                    assert(a.take(k)[0] == b.take(k)[0]);
                }
            }
        }
    }
}

/// A number in decimal is made of digits, the first of which is a zero only in
/// the number zero, and reads as the number.
pub proof fn law_decimal_is_read_back(n: nat)
    ensures
        decimal(n).len() > 0,
        all_digits(decimal(n)),
        decimal(n)[0] == '0' ==> n == 0,
        value_of(decimal(n)) == n,
        n <= i64::MAX ==> integer(decimal(n)) == Some(n as int),
    decreases n,
{
    assert forall|d: nat| d < 10 implies '0' <= #[trigger] digit(d) <= '9' && digit(d) as nat == 48
        + d && (digit(d) == '0' ==> d == 0) by {
    }
    if n < 10 {
        assert(decimal(n).drop_last() =~= Seq::empty());
        assert(value_of(decimal(n).drop_last()) == 0);
        assert(decimal(n).last() == digit(n));
        assert(digit(n) as nat == 48 + n);
    } else {
        law_decimal_is_read_back(n / 10);
        let front = decimal(n / 10);
        assert(decimal(n).drop_last() =~= front);
        assert(decimal(n).last() == digit(n % 10));
        assert(digit(n % 10) as nat == 48 + n % 10);
        assert(decimal(n)[0] == front[0]);
        assert forall|i: int| 0 <= i < decimal(n).len() implies '0' <= #[trigger] decimal(n)[i]
            <= '9' by {
            if i < front.len() {
                assert(decimal(n)[i] == front[i]);
            }
        }
    }
    assert('0' <= decimal(n)[0] <= '9');
}

/// A number is read from its digits: a digit more is ten times as much and the
/// digit.
pub proof fn law_digits_have_their_place(s: Seq<char>, d: nat)
    requires
        d < 10,
    ensures
        value_of(s.push((48 + d) as char)) == value_of(s) * 10 + d,
        value_of(Seq::empty()) == 0,
{
    let t = s.push((48 + d) as char);
    assert(t.drop_last() =~= s);
    assert(t.last() as nat == 48 + d);
}

/// Reading a number needs digits and nothing else behind at most one sign.
pub proof fn law_integers_are_digits(s: Seq<char>)
    ensures
        integer(s) matches Some(n) ==> {
            let digits = if s[0] == '-' || s[0] == '+' {
                s.skip(1)
            } else {
                s
            };
            &&& s.len() > 0 && digits.len() > 0
            &&& forall|i: int| 0 <= i < digits.len() ==> '0' <= #[trigger] digits[i] <= '9'
            &&& n == (if s[0] == '-' {
                -(value_of(digits) as int)
            } else {
                value_of(digits) as int
            })
        },
{
    if s.len() > 0 {
        assert(s.drop_first() =~= s.skip(1));
    }
}

/// In small letters there is no ASCII capital, and nothing but capitals has
/// changed.
pub proof fn law_capitals_become_small(s: Seq<char>, i: int)
    requires
        0 <= i < s.len(),
    ensures
        ascii_lower(s).len() == s.len(),
        !('A' <= ascii_lower(s)[i] <= 'Z'),
        !('A' <= s[i] <= 'Z') ==> ascii_lower(s)[i] == s[i],
        'A' <= s[i] <= 'Z' ==> ascii_lower(s)[i] as u32 == s[i] as u32 + 32,
{
}

/// A text begins with each of its beginnings and holds each of its parts, and
/// no others.
pub proof fn law_parts_are_held(s: Seq<char>, p: Seq<char>)
    ensures
        begins_with(s, p) <==> exists|b: Seq<char>| s == #[trigger] (p + b),
        holds(s, p) <==> exists|a: Seq<char>, b: Seq<char>| s == #[trigger] (a + p + b),
{
    if begins_with(s, p) {
        assert(s =~= p + s.skip(p.len() as int));
    }
    if exists|b: Seq<char>| s == #[trigger] (p + b) {
        let b = choose|b: Seq<char>| s == #[trigger] (p + b);
        assert(s.subrange(0, p.len() as int) =~= p);
    }
    if holds(s, p) {
        let i = choose|i: int| stands_at(s, i, p);
        assert(s =~= s.take(i) + p + s.skip(i + p.len()));
    }
    if exists|a: Seq<char>, b: Seq<char>| s == #[trigger] (a + p + b) {
        let (a, b) = choose|a: Seq<char>, b: Seq<char>| s == #[trigger] (a + p + b);
        assert(s.subrange(a.len() as int, (a.len() + p.len()) as int) =~= p);
        assert(stands_at(s, a.len() as int, p));
    }
}

/// A line break ends a line: what stands before it is a line, without the
/// return at its end, and the lines behind it follow.
pub proof fn law_lines_end_at_breaks(line: Seq<char>, rest: Seq<char>)
    requires
        forall|k: int| 0 <= k < line.len() ==> #[trigger] line[k] != '\n',
        line.len() > 0 ==> line.last() != '\r',
    ensures
        lines(Seq::empty()).len() == 0,
        line.len() > 0 ==> lines(line) == seq![line],
        lines(line.push('\n') + rest) == seq![line] + lines(rest),
        lines(line.push('\r').push('\n') + rest) == seq![line] + lines(rest),
{
    lemma_first_index(line, '\n', line.len());
    let a = line.push('\n') + rest;
    assert forall|k: int| 0 <= k < line.len() implies a[k] != '\n' by {
        assert(a[k] == line[k]);
    }
    assert(a[line.len() as int] == '\n');
    lemma_first_index(a, '\n', line.len());
    assert(a.take(line.len() as int) =~= line);
    assert(a.skip(line.len() as int + 1) =~= rest);
    let b = line.push('\r').push('\n') + rest;
    let n = line.len() + 1;
    assert forall|k: int| 0 <= k < n implies b[k] != '\n' by {
        if k < line.len() {
            assert(b[k] == line[k]);
        }
    }
    assert(b[n as int] == '\n');
    lemma_first_index(b, '\n', n);
    assert(b.take(n as int) =~= line.push('\r'));
    assert(line.push('\r').drop_last() =~= line);
    assert(b.skip(n as int + 1) =~= rest);
}

/// White space is what Unicode counts as such, and nothing else.
pub proof fn law_white_space_is_unicodes(c: char)
    ensures
        is_white(c) <==> {
            let n = c as u32;
            9 <= n <= 13 || n == 32 || n == 0x85 || n == 0xa0 || n == 0x1680 || 0x2000 <= n <= 0x200a
                || n == 0x2028 || n == 0x2029 || n == 0x202f || n == 0x205f || n == 0x3000
        },
{
}

} // verus!
