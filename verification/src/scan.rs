//! Scanning text: characters, surrounding whitespace, lines, fields and
//! decimal numbers.

use vstd::prelude::*;
use vstd::string::StrSliceExecFns;
use vstd::string::StringExecFns;

verus! {

/// The characters of a string, one by one.
pub fn chars_of(s: &str) -> (chars: Vec<char>)
    ensures
        chars@ == s@,
{
    let mut chars: Vec<char> = Vec::new();
    for c in it: s.chars()
        invariant
            it.seq() == s@,
            chars@ == it.seq().take(it.index() as int),
    {
        chars.push(c);
        assert(chars@ =~= it.seq().take(it.index() + 1));
    }
    assert(chars@ =~= s@);
    chars
}

/// The part of a string between two character positions, as a new string.
pub fn text_between(s: &str, from: usize, to: usize) -> (part: String)
    requires
        from <= to <= s@.len(),
    ensures
        part@ == s@.subrange(from as int, to as int),
{
    String::from_str(s.substring_char(from, to))
}

// ---------------------------------------------------------------------------
// Whitespace
// ---------------------------------------------------------------------------
/// The characters with the Unicode property `White_Space`.
pub open spec fn is_whitespace(c: char) -> bool {
    let code = c as u32;
    ||| 0x09 <= code <= 0x0D
    ||| code == 0x20
    ||| code == 0x85
    ||| code == 0xA0
    ||| code == 0x1680
    ||| 0x2000 <= code <= 0x200A
    ||| code == 0x2028
    ||| code == 0x2029
    ||| code == 0x202F
    ||| code == 0x205F
    ||| code == 0x3000
}

/// Whether a character is whitespace.
pub fn is_space(c: char) -> (yes: bool)
    ensures
        yes == is_whitespace(c),
{
    let code: u32 = c as u32;
    (0x09 <= code && code <= 0x0D) || code == 0x20 || code == 0x85 || code == 0xA0 || code
        == 0x1680 || (0x2000 <= code && code <= 0x200A) || code == 0x2028 || code == 0x2029
        || code == 0x202F || code == 0x205F || code == 0x3000
}

/// A text without the whitespace at its start.
pub open spec fn trim_start(s: Seq<char>) -> Seq<char>
    decreases s.len(),
{
    if s.len() > 0 && is_whitespace(s[0]) {
        trim_start(s.drop_first())
    } else {
        s
    }
}

/// A text without the whitespace at its end.
pub open spec fn trim_end(s: Seq<char>) -> Seq<char>
    decreases s.len(),
{
    if s.len() > 0 && is_whitespace(s.last()) {
        trim_end(s.drop_last())
    } else {
        s
    }
}

/// A text without the whitespace around it.
pub open spec fn trimmed(s: Seq<char>) -> Seq<char> {
    trim_end(trim_start(s))
}

/// How many whitespace characters a text starts with.
pub open spec fn leading_whitespace(s: Seq<char>) -> int {
    s.len() - trim_start(s).len()
}

/// Dropping `n` leading whitespace characters, where the next character is
/// none, is trimming the start.
pub proof fn lemma_trim_start(s: Seq<char>, n: int)
    requires
        0 <= n <= s.len(),
        forall|j: int| 0 <= j < n ==> is_whitespace(#[trigger] s[j]),
        n < s.len() ==> !is_whitespace(s[n]),
    ensures
        trim_start(s) == s.skip(n),
    decreases n,
{
    if n == 0 {
        assert(s.skip(0) =~= s);
    } else {
        let rest = s.drop_first();
        assert forall|j: int| 0 <= j < n - 1 implies is_whitespace(#[trigger] rest[j]) by {
            assert(rest[j] == s[j + 1]);
        }
        lemma_trim_start(rest, n - 1);
        assert(rest.skip(n - 1) =~= s.skip(n));
    }
}

/// Keeping all but the trailing whitespace characters is trimming the end.
pub proof fn lemma_trim_end(s: Seq<char>, n: int)
    requires
        0 <= n <= s.len(),
        forall|j: int| n <= j < s.len() ==> is_whitespace(#[trigger] s[j]),
        n > 0 ==> !is_whitespace(s[n - 1]),
    ensures
        trim_end(s) == s.take(n),
    decreases s.len() - n,
{
    if n == s.len() {
        assert(s.take(n) =~= s);
    } else {
        let rest = s.drop_last();
        lemma_trim_end(rest, n);
        assert(rest.take(n) =~= s.take(n));
    }
}

/// What trimming the start leaves is the end of the text, and does not
/// start with whitespace.
pub proof fn lemma_trim_start_result(s: Seq<char>)
    ensures
        trim_start(s).len() <= s.len(),
        trim_start(s) == s.skip(s.len() - trim_start(s).len()),
        trim_start(s).len() > 0 ==> !is_whitespace(trim_start(s)[0]),
    decreases s.len(),
{
    if s.len() > 0 && is_whitespace(s[0]) {
        let rest = s.drop_first();
        lemma_trim_start_result(rest);
        assert(rest.skip(rest.len() - trim_start(rest).len()) =~= s.skip(
            s.len() - trim_start(rest).len(),
        ));
    } else {
        assert(s.skip(0) =~= s);
    }
}

/// What trimming the end leaves is the start of the text, and does not end
/// with whitespace.
pub proof fn lemma_trim_end_result(s: Seq<char>)
    ensures
        trim_end(s).len() <= s.len(),
        trim_end(s) == s.take(trim_end(s).len() as int),
        trim_end(s).len() > 0 ==> !is_whitespace(trim_end(s).last()),
    decreases s.len(),
{
    if s.len() > 0 && is_whitespace(s.last()) {
        let rest = s.drop_last();
        lemma_trim_end_result(rest);
        assert(rest.take(trim_end(rest).len() as int) =~= s.take(trim_end(rest).len() as int));
    } else {
        assert(s.take(s.len() as int) =~= s);
    }
}

/// Trimming a trimmed text changes nothing.
pub proof fn lemma_trimmed_is_idempotent(s: Seq<char>)
    ensures
        trimmed(trimmed(s)) == trimmed(s),
{
    let started = trim_start(s);
    let done = trim_end(started);
    lemma_trim_start_result(s);
    lemma_trim_end_result(started);
    if done.len() > 0 {
        assert(done[0] == started[0]);
    }
}

/// The bounds of the part of `chars[from..to]` that is left when the
/// whitespace around it is taken away.
pub fn trim_range(chars: &[char], from: usize, to: usize) -> (bounds: (usize, usize))
    requires
        from <= to <= chars.len(),
    ensures
        from <= bounds.0 <= bounds.1 <= to,
        bounds.0 - from == leading_whitespace(chars@.subrange(from as int, to as int)),
        chars@.subrange(bounds.0 as int, bounds.1 as int) == trimmed(
            chars@.subrange(from as int, to as int),
        ),
{
    let ghost whole = chars@.subrange(from as int, to as int);
    let mut start: usize = from;
    while start < to && is_space(chars[start])
        invariant
            from <= start <= to <= chars.len(),
            whole == chars@.subrange(from as int, to as int),
            forall|j: int| 0 <= j < start - from ==> is_whitespace(#[trigger] whole[j]),
        decreases to - start,
    {
        start += 1;
    }
    proof {
        lemma_trim_start(whole, start - from);
    }
    let ghost tail = whole.skip(start - from);
    let mut end: usize = to;
    while end > start && is_space(chars[end - 1])
        invariant
            from <= start <= end <= to <= chars.len(),
            whole == chars@.subrange(from as int, to as int),
            tail == whole.skip(start - from),
            forall|j: int| end - start <= j < tail.len() ==> is_whitespace(#[trigger] tail[j]),
        decreases end - start,
    {
        end -= 1;
    }
    proof {
        if end > start {
            assert(tail[end - start - 1] == chars@[end - 1]);
        }
        lemma_trim_end(tail, end - start);
        assert(tail.take(end - start) =~= chars@.subrange(start as int, end as int));
    }
    (start, end)
}

/// A string without the whitespace around it.
pub fn trim(s: &str) -> (out: String)
    ensures
        out@ == trimmed(s@),
{
    let chars = chars_of(s);
    let (start, end) = trim_range(chars.as_slice(), 0, chars.len());
    assert(chars@.subrange(0, chars@.len() as int) =~= s@);
    text_between(s, start, end)
}

// ---------------------------------------------------------------------------
// Searching
// ---------------------------------------------------------------------------
/// Whether `pat` stands in `s` at position `at`.
pub open spec fn occurs_at(s: Seq<char>, pat: Seq<char>, at: int) -> bool {
    0 <= at && at + pat.len() <= s.len() && s.subrange(at, at + pat.len()) == pat
}

/// The first position at or after `from` where `pat` stands in `s`.
pub open spec fn find_from(s: Seq<char>, pat: Seq<char>, from: int) -> Option<int>
    decreases s.len() - from + 1,
{
    if from < 0 || from + pat.len() > s.len() {
        None
    } else if occurs_at(s, pat, from) {
        Some(from)
    } else {
        find_from(s, pat, from + 1)
    }
}

/// The first position where `pat` stands in `s`.
pub open spec fn find(s: Seq<char>, pat: Seq<char>) -> Option<int> {
    find_from(s, pat, 0)
}

/// A search finds the position that no earlier occurrence precedes.
pub proof fn lemma_find_from_some(s: Seq<char>, pat: Seq<char>, from: int, at: int)
    requires
        0 <= from <= at,
        occurs_at(s, pat, at),
        forall|j: int| from <= j < at ==> !occurs_at(s, pat, j),
    ensures
        find_from(s, pat, from) == Some(at),
    decreases at - from,
{
    if from < at {
        lemma_find_from_some(s, pat, from + 1, at);
    }
}

/// A search finds nothing where the pattern stands nowhere.
pub proof fn lemma_find_from_none(s: Seq<char>, pat: Seq<char>, from: int)
    requires
        forall|j: int| from <= j ==> !occurs_at(s, pat, j),
    ensures
        find_from(s, pat, from) is None,
    decreases s.len() - from + 1,
{
    if !(from < 0 || from + pat.len() > s.len()) {
        lemma_find_from_none(s, pat, from + 1);
    }
}

/// What a search returns: an occurrence, with none before it.
pub proof fn lemma_find_from_is_first(s: Seq<char>, pat: Seq<char>, from: int)
    requires
        0 <= from,
    ensures
        match find_from(s, pat, from) {
            Some(at) => from <= at && occurs_at(s, pat, at) && forall|j: int|
                from <= j < at ==> !occurs_at(s, pat, j),
            None => forall|j: int| from <= j ==> !occurs_at(s, pat, j),
        },
    decreases s.len() - from + 1,
{
    if !(from + pat.len() > s.len()) && !occurs_at(s, pat, from) {
        lemma_find_from_is_first(s, pat, from + 1);
    }
}

/// Whether `pat` stands in `chars` at position `at`, within the first `to`
/// characters.
fn matches_at(chars: &[char], at: usize, to: usize, pat: &[char]) -> (yes: bool)
    requires
        at <= to <= chars.len(),
    ensures
        yes == (at + pat.len() <= to && chars@.subrange(at as int, at + pat.len()) == pat@),
{
    if pat.len() > to - at {
        return false;
    }
    let mut k: usize = 0;
    while k < pat.len()
        invariant
            k <= pat.len(),
            at + pat.len() <= to <= chars.len(),
            forall|j: int| 0 <= j < k ==> chars@[at + j] == pat@[j],
        decreases pat.len() - k,
    {
        if chars[at + k] != pat[k] {
            assert(chars@.subrange(at as int, at + pat.len())[k as int] != pat@[k as int]);
            return false;
        }
        k += 1;
    }
    assert(chars@.subrange(at as int, at + pat.len()) =~= pat@);
    true
}

/// The first position in `chars[from..to]` where `pat` stands.
pub fn find_in(chars: &[char], from: usize, to: usize, pat: &[char]) -> (found: Option<usize>)
    requires
        from <= to <= chars.len(),
    ensures
        match found {
            Some(at) => from <= at && at + pat.len() <= to && find(
                chars@.subrange(from as int, to as int),
                pat@,
            ) == Some(at - from),
            None => find(chars@.subrange(from as int, to as int), pat@) is None,
        },
{
    let ghost part = chars@.subrange(from as int, to as int);
    let mut at: usize = from;
    loop
        invariant
            from <= at <= to <= chars.len(),
            part == chars@.subrange(from as int, to as int),
            forall|j: int| 0 <= j < at - from ==> !occurs_at(part, pat@, j),
        decreases to - at,
    {
        if matches_at(chars, at, to, pat) {
            proof {
                assert(part.subrange(at - from, at - from + pat.len()) =~= chars@.subrange(
                    at as int,
                    at + pat.len(),
                ));
                lemma_find_from_some(part, pat@, 0, at - from);
            }
            return Some(at);
        }
        proof {
            if at + pat.len() <= to {
                assert(part.subrange(at - from, at - from + pat.len()) =~= chars@.subrange(
                    at as int,
                    at + pat.len(),
                ));
            }
        }
        if at == to {
            proof {
                lemma_find_from_none(part, pat@, 0);
            }
            return None;
        }
        at += 1;
    }
}

// ---------------------------------------------------------------------------
// Pieces of a text
// ---------------------------------------------------------------------------
/// The parts of `chars` that a list of bounds marks out.
pub open spec fn pieces(chars: Seq<char>, bounds: Seq<(usize, usize)>) -> Seq<Seq<char>> {
    Seq::new(bounds.len(), |i: int| chars.subrange(bounds[i].0 as int, bounds[i].1 as int))
}

/// Every pair of bounds is in order and lies between `from` and `to`.
pub open spec fn bounds_within(bounds: Seq<(usize, usize)>, from: int, to: int) -> bool {
    forall|i: int|
        0 <= i < bounds.len() ==> from <= (#[trigger] bounds[i]).0 <= bounds[i].1 <= to
}

/// The bounds tile the range from `from` to `to`: the first pair starts at
/// `from`, each next one starts `gap` behind the end of the one before, and
/// the last ends at `to`.
pub open spec fn bounds_chained(bounds: Seq<(usize, usize)>, from: int, to: int, gap: int) -> bool {
    &&& bounds.len() > 0
    &&& bounds[0].0 == from
    &&& bounds.last().1 == to
    &&& forall|i: int|
        0 <= i < bounds.len() - 1 ==> (#[trigger] bounds[i + 1]).0 == bounds[i].1 + gap
}

/// The pieces between the occurrences of a separator, found from left to
/// right. A text without the separator is one piece; so is any text where
/// the separator is empty.
pub open spec fn split_on(s: Seq<char>, sep: Seq<char>) -> Seq<Seq<char>>
    decreases s.len(),
{
    match find(s, sep) {
        Some(at) => if sep.len() > 0 && 0 <= at && at + sep.len() <= s.len() {
            seq![s.take(at)] + split_on(s.skip(at + sep.len()), sep)
        } else {
            seq![s]
        },
        None => seq![s],
    }
}

/// The bounds of the pieces of `chars[from..to]` between the occurrences of
/// `sep`.
pub fn split_ranges(chars: &[char], from: usize, to: usize, sep: &[char]) -> (bounds: Vec<
    (usize, usize),
>)
    requires
        from <= to <= chars.len(),
    ensures
        bounds_within(bounds@, from as int, to as int),
        bounds_chained(bounds@, from as int, to as int, sep@.len() as int),
        pieces(chars@, bounds@) == split_on(chars@.subrange(from as int, to as int), sep@),
{
    let ghost whole = chars@.subrange(from as int, to as int);
    let mut bounds: Vec<(usize, usize)> = Vec::new();
    let mut pos: usize = from;
    assert(pieces(chars@, bounds@) + split_on(whole, sep@) =~= split_on(whole, sep@));
    loop
        invariant
            from <= pos <= to <= chars.len(),
            whole == chars@.subrange(from as int, to as int),
            bounds_within(bounds@, from as int, to as int),
            bounds.len() == 0 ==> pos == from,
            bounds.len() > 0 ==> bounds[0].0 == from && pos == bounds@.last().1 + sep.len(),
            forall|i: int|
                0 <= i < bounds.len() - 1 ==> (#[trigger] bounds[i + 1]).0 == bounds[i].1
                    + sep.len(),
            split_on(whole, sep@) == pieces(chars@, bounds@) + split_on(
                chars@.subrange(pos as int, to as int),
                sep@,
            ),
        decreases to - pos,
    {
        let ghost rest = chars@.subrange(pos as int, to as int);
        let ghost before = pieces(chars@, bounds@);
        let found = if sep.len() > 0 {
            find_in(chars, pos, to, sep)
        } else {
            None
        };
        match found {
            Some(at) => {
                bounds.push((pos, at));
                proof {
                    assert(rest.take(at - pos) =~= chars@.subrange(pos as int, at as int));
                    assert(rest.skip(at - pos + sep.len()) =~= chars@.subrange(
                        at + sep.len(),
                        to as int,
                    ));
                    assert(pieces(chars@, bounds@) =~= before + seq![rest.take(at - pos)]);
                }
                pos = at + sep.len();
            },
            None => {
                bounds.push((pos, to));
                proof {
                    if sep.len() == 0 {
                        lemma_find_from_is_first(rest, sep@, 0);
                    }
                    assert(split_on(rest, sep@) =~= seq![rest]);
                    assert(pieces(chars@, bounds@) =~= before + seq![rest]);
                }
                return bounds;
            },
        }
    }
}

/// A line without the carriage return that stood before its line feed.
pub open spec fn without_carriage_return(line: Seq<char>) -> Seq<char> {
    if line.len() > 0 && line.last() == '\r' {
        line.drop_last()
    } else {
        line
    }
}

/// The lines of a text. A line ends at a line feed, or at a carriage return
/// directly followed by one; neither belongs to the line. The last line
/// needs no line ending, and an empty text has no lines.
pub open spec fn lines(s: Seq<char>) -> Seq<Seq<char>>
    decreases s.len(),
{
    if s.len() == 0 {
        Seq::empty()
    } else {
        match find(s, seq!['\n']) {
            Some(at) => if 0 <= at < s.len() {
                seq![without_carriage_return(s.take(at))] + lines(s.skip(at + 1))
            } else {
                seq![s]
            },
            None => seq![s],
        }
    }
}

/// Where the next line starts behind a line that ends at `end`: behind the
/// line feed, or behind the carriage return and the line feed, that stands
/// there; at the end of the text where neither does.
pub open spec fn line_start_after(chars: Seq<char>, end: int) -> int {
    if 0 <= end < chars.len() && chars[end] == '\n' {
        end + 1
    } else if 0 <= end && end + 1 < chars.len() && chars[end] == '\r' && chars[end + 1] == '\n' {
        end + 2
    } else {
        chars.len() as int
    }
}

/// The bounds follow the text line by line: the first pair starts at the
/// start of the text, each next one where the line before it ends, and
/// nothing is left behind the last.
pub open spec fn bounds_follow_lines(chars: Seq<char>, bounds: Seq<(usize, usize)>) -> bool {
    &&& bounds.len() > 0 ==> bounds[0].0 == 0 && line_start_after(chars, bounds.last().1 as int)
        == chars.len()
    &&& forall|i: int|
        0 <= i < bounds.len() - 1 ==> (#[trigger] bounds[i + 1]).0 == line_start_after(
            chars,
            bounds[i].1 as int,
        )
}

/// The bounds of the lines of `chars`.
pub fn line_ranges(chars: &[char]) -> (bounds: Vec<(usize, usize)>)
    ensures
        bounds_within(bounds@, 0, chars.len() as int),
        bounds_follow_lines(chars@, bounds@),
        pieces(chars@, bounds@) == lines(chars@),
{
    let mut newline: Vec<char> = Vec::new();
    newline.push('\n');
    assert(newline@ =~= seq!['\n']);
    let to = chars.len();
    let mut bounds: Vec<(usize, usize)> = Vec::new();
    let mut pos: usize = 0;
    assert(chars@.subrange(0, to as int) =~= chars@);
    assert(pieces(chars@, bounds@) + lines(chars@) =~= lines(chars@));
    while pos < to
        invariant
            pos <= to == chars.len(),
            newline@ == seq!['\n'],
            bounds_within(bounds@, 0, to as int),
            bounds.len() == 0 ==> pos == 0,
            bounds.len() > 0 ==> bounds[0].0 == 0 && pos == line_start_after(
                chars@,
                bounds@.last().1 as int,
            ),
            forall|i: int|
                0 <= i < bounds.len() - 1 ==> (#[trigger] bounds[i + 1]).0 == line_start_after(
                    chars@,
                    bounds[i].1 as int,
                ),
            lines(chars@) == pieces(chars@, bounds@) + lines(chars@.subrange(pos as int, to as int)),
        decreases to - pos,
    {
        let ghost rest = chars@.subrange(pos as int, to as int);
        let ghost before = pieces(chars@, bounds@);
        match find_in(chars, pos, to, newline.as_slice()) {
            Some(at) => {
                let end = if at > pos && chars[at - 1] == '\r' {
                    at - 1
                } else {
                    at
                };
                bounds.push((pos, end));
                proof {
                    lemma_find_from_is_first(rest, newline@, 0);
                    assert(rest.subrange(at - pos, at - pos + 1)[0] == '\n');
                    assert(chars@[at as int] == '\n');
                    let line = rest.take(at - pos);
                    assert(line =~= chars@.subrange(pos as int, at as int));
                    assert(without_carriage_return(line) =~= chars@.subrange(
                        pos as int,
                        end as int,
                    ));
                    assert(rest.skip(at - pos + 1) =~= chars@.subrange(at + 1, to as int));
                    assert(pieces(chars@, bounds@) =~= before + seq![
                        without_carriage_return(line),
                    ]);
                }
                pos = at + 1;
            },
            None => {
                bounds.push((pos, to));
                proof {
                    assert(pieces(chars@, bounds@) =~= before + seq![rest]);
                    assert(chars@.subrange(to as int, to as int) =~= Seq::<char>::empty());
                    assert(lines(chars@) =~= pieces(chars@, bounds@) + lines(
                        chars@.subrange(to as int, to as int),
                    ));
                }
                pos = to;
            },
        }
    }
    assert(chars@.subrange(to as int, to as int) =~= Seq::<char>::empty());
    assert(pieces(chars@, bounds@) + Seq::<Seq<char>>::empty() =~= pieces(chars@, bounds@));
    bounds
}

// ---------------------------------------------------------------------------
// Decimal numbers
// ---------------------------------------------------------------------------
/// The ten decimal digits.
pub open spec fn is_digit(c: char) -> bool {
    0x30 <= c as u32 <= 0x39
}

/// The value of a decimal digit; zero for any other character.
pub open spec fn digit_value(c: char) -> nat {
    if is_digit(c) {
        (c as u32 - 0x30) as nat
    } else {
        0
    }
}

/// Whether a text holds decimal digits only.
pub open spec fn all_digits(s: Seq<char>) -> bool {
    forall|i: int| 0 <= i < s.len() ==> is_digit(#[trigger] s[i])
}

/// The number that a text of decimal digits writes.
pub open spec fn digits_value(s: Seq<char>) -> nat
    decreases s.len(),
{
    if s.len() == 0 {
        0
    } else {
        digits_value(s.drop_last()) * 10 + digit_value(s.last())
    }
}

/// The integer that a text writes in decimal: an optional sign, `+` or,
/// where `signed`, `-`, and then at least one digit and nothing else.
pub open spec fn parse_integer(s: Seq<char>, signed: bool) -> Option<int> {
    if s.len() == 0 {
        None
    } else {
        let negative = signed && s[0] == '-';
        let digits = if s[0] == '+' || negative {
            s.drop_first()
        } else {
            s
        };
        if digits.len() == 0 || !all_digits(digits) {
            None
        } else if negative {
            Some(-(digits_value(digits) as int))
        } else {
            Some(digits_value(digits) as int)
        }
    }
}

/// The integer that a text writes, where it lies between two bounds.
pub open spec fn parse_within(s: Seq<char>, signed: bool, lowest: int, highest: int) -> Option<
    int,
> {
    match parse_integer(s, signed) {
        Some(value) => if lowest <= value <= highest {
            Some(value)
        } else {
            None
        },
        None => None,
    }
}

/// A longer text of digits writes no smaller number than its start.
pub proof fn lemma_digits_value_grows(s: Seq<char>, n: int)
    requires
        0 <= n <= s.len(),
    ensures
        digits_value(s.take(n)) <= digits_value(s),
    decreases s.len() - n,
{
    if n == s.len() {
        assert(s.take(n) =~= s);
    } else {
        lemma_digits_value_grows(s.drop_last(), n);
        assert(s.drop_last().take(n) =~= s.take(n));
    }
}

/// The number that the digits `chars[from..to]` write, where there is at
/// least one digit, nothing but digits, and the number is at most `limit`.
fn parse_magnitude(chars: &[char], from: usize, to: usize, limit: u64) -> (value: Option<u64>)
    requires
        from <= to <= chars.len(),
    ensures
        ({
            let digits = chars@.subrange(from as int, to as int);
            match value {
                Some(v) => digits.len() > 0 && all_digits(digits) && digits_value(digits) == v
                    && v <= limit,
                None => digits.len() == 0 || !all_digits(digits) || digits_value(digits) > limit,
            }
        }),
{
    let ghost digits = chars@.subrange(from as int, to as int);
    if from == to {
        return None;
    }
    let mut total: u64 = 0;
    let mut pos: usize = from;
    assert(digits.take(0) =~= Seq::<char>::empty());
    while pos < to
        invariant
            from <= pos <= to <= chars.len(),
            digits == chars@.subrange(from as int, to as int),
            all_digits(digits.take(pos - from)),
            digits_value(digits.take(pos - from)) == total,
            total <= limit,
        decreases to - pos,
    {
        let code: u32 = chars[pos] as u32;
        if code < 0x30 || code > 0x39 {
            assert(!is_digit(digits[pos - from]));
            return None;
        }
        let next: u128 = total as u128 * 10 + (code - 0x30) as u128;
        proof {
            let longer = digits.take(pos - from + 1);
            assert(longer.drop_last() =~= digits.take(pos - from));
            assert(longer.last() == chars@[pos as int]);
            assert(digits_value(longer) == next);
            assert forall|i: int| 0 <= i < longer.len() implies is_digit(#[trigger] longer[i]) by {
                if i < pos - from {
                    assert(digits.take(pos - from)[i] == longer[i]);
                }
            }
            if next > limit {
                lemma_digits_value_grows(digits, pos - from + 1);
            }
        }
        if next > limit as u128 {
            return None;
        }
        total = next as u64;
        pos += 1;
    }
    assert(digits.take(to - from) =~= digits);
    Some(total)
}

/// Whether the number in `chars[from..to]` starts with a sign to skip, and
/// whether that sign is a minus.
fn sign_of(chars: &[char], from: usize, to: usize, signed: bool) -> (sign: (bool, bool))
    requires
        from < to <= chars.len(),
    ensures
        sign.1 == (signed && chars@[from as int] == '-'),
        sign.0 == (chars@[from as int] == '+' || sign.1),
{
    let first = chars[from];
    let negative = signed && first == '-';
    (first == '+' || negative, negative)
}

/// Reads `chars[from..to]` as a `usize`.
pub fn parse_usize(chars: &[char], from: usize, to: usize) -> (value: Option<usize>)
    requires
        from <= to <= chars.len(),
    ensures
        match value {
            Some(v) => parse_within(chars@.subrange(from as int, to as int), false, 0, usize::MAX as int)
                == Some(v as int),
            None => parse_within(chars@.subrange(from as int, to as int), false, 0, usize::MAX as int)
                is None,
        },
{
    let ghost text = chars@.subrange(from as int, to as int);
    if from == to {
        return None;
    }
    let (skip, negative) = sign_of(chars, from, to, false);
    let start = if skip {
        from + 1
    } else {
        from
    };
    assert(chars@.subrange(start as int, to as int) =~= if skip {
        text.drop_first()
    } else {
        text
    });
    match parse_magnitude(chars, start, to, usize::MAX as u64) {
        Some(v) => Some(v as usize),
        None => None,
    }
}

/// Reads `chars[from..to]` as an `i64`.
pub fn parse_i64(chars: &[char], from: usize, to: usize) -> (value: Option<i64>)
    requires
        from <= to <= chars.len(),
    ensures
        match value {
            Some(v) => parse_within(
                chars@.subrange(from as int, to as int),
                true,
                i64::MIN as int,
                i64::MAX as int,
            ) == Some(v as int),
            None => parse_within(
                chars@.subrange(from as int, to as int),
                true,
                i64::MIN as int,
                i64::MAX as int,
            ) is None,
        },
{
    let ghost text = chars@.subrange(from as int, to as int);
    if from == to {
        return None;
    }
    let (skip, negative) = sign_of(chars, from, to, true);
    let start = if skip {
        from + 1
    } else {
        from
    };
    assert(chars@.subrange(start as int, to as int) =~= if skip {
        text.drop_first()
    } else {
        text
    });
    if negative {
        match parse_magnitude(chars, start, to, 0x8000_0000_0000_0000) {
            Some(v) => if v == 0x8000_0000_0000_0000 {
                Some(i64::MIN)
            } else {
                Some(-(v as i64))
            },
            None => None,
        }
    } else {
        match parse_magnitude(chars, start, to, 0x7fff_ffff_ffff_ffff) {
            Some(v) => Some(v as i64),
            None => None,
        }
    }
}

/// Reads `chars[from..to]` as an `i32`.
pub fn parse_i32(chars: &[char], from: usize, to: usize) -> (value: Option<i32>)
    requires
        from <= to <= chars.len(),
    ensures
        match value {
            Some(v) => parse_within(
                chars@.subrange(from as int, to as int),
                true,
                i32::MIN as int,
                i32::MAX as int,
            ) == Some(v as int),
            None => parse_within(
                chars@.subrange(from as int, to as int),
                true,
                i32::MIN as int,
                i32::MAX as int,
            ) is None,
        },
{
    let ghost text = chars@.subrange(from as int, to as int);
    if from == to {
        return None;
    }
    let (skip, negative) = sign_of(chars, from, to, true);
    let start = if skip {
        from + 1
    } else {
        from
    };
    assert(chars@.subrange(start as int, to as int) =~= if skip {
        text.drop_first()
    } else {
        text
    });
    if negative {
        match parse_magnitude(chars, start, to, 0x8000_0000) {
            Some(v) => if v == 0x8000_0000 {
                Some(i32::MIN)
            } else {
                Some(-(v as i32))
            },
            None => None,
        }
    } else {
        match parse_magnitude(chars, start, to, 0x7fff_ffff) {
            Some(v) => Some(v as i32),
            None => None,
        }
    }
}

} // verus!
