//! Text helpers: the string operations that the bridge needs, each with the sequence of
//! characters it yields.

use vstd::prelude::*;

verus! {

/// `String::push`: the character goes to the end of the string.
pub assume_specification[ String::push ](s: &mut String, c: char)
    ensures
        final(s)@ == old(s)@.push(c),
;

/// The characters of an optional string.
pub open spec fn optional_text(s: Option<String>) -> Option<Seq<char>> {
    match s {
        Some(t) => Some(t@),
        None => None,
    }
}

/// The character sequences of a list of strings.
pub open spec fn texts(list: Seq<String>) -> Seq<Seq<char>> {
    list.map_values(|s: String| s@)
}

/// Whether two strings hold the same characters.
pub fn same(a: &str, b: &str) -> (r: bool)
    ensures
        r == (a@ == b@),
{
    let left: String = a.to_owned();
    let right: String = b.to_owned();
    left == right
}

/// The characters of a string, in order.
pub fn characters(s: &str) -> (r: Vec<char>)
    ensures
        r@ == s@,
{
    let mut out: Vec<char> = Vec::new();
    for c in it: s.chars()
        invariant
            it.seq() == s@,
            out@ == it.seq().take(it.index() as int),
    {
        out.push(c);
    }
    out
}

/// The string made of the characters at positions `from..to`.
pub fn slice_text(chars: &Vec<char>, from: usize, to: usize) -> (r: String)
    requires
        from <= to <= chars@.len(),
    ensures
        r@ == chars@.subrange(from as int, to as int),
{
    let mut out: String = String::new();
    let mut i: usize = from;
    while i < to
        invariant
            from <= i <= to <= chars@.len(),
            out@ == chars@.subrange(from as int, i as int),
        decreases to - i,
    {
        out.push(chars[i]);
        i += 1;
    }
    out
}

/// The concatenation of two strings.
pub fn join_two(a: &str, b: &str) -> (r: String)
    ensures
        r@ == a@ + b@,
{
    let mut out: String = a.to_owned();
    out.append(b);
    out
}

/// The concatenation of three strings.
pub fn join_three(a: &str, b: &str, c: &str) -> (r: String)
    ensures
        r@ == a@ + b@ + c@,
{
    let mut out: String = join_two(a, b);
    out.append(c);
    out
}

/// The members of `parts` in order, with `separator` between neighbours.
pub open spec fn joined(parts: Seq<Seq<char>>, separator: Seq<char>) -> Seq<char>
    decreases parts.len(),
{
    if parts.len() == 0 {
        Seq::empty()
    } else if parts.len() == 1 {
        parts[0]
    } else {
        joined(parts.drop_last(), separator) + separator + parts.last()
    }
}

/// Joins strings with a separator between neighbours.
pub fn join(parts: &Vec<String>, separator: &str) -> (r: String)
    ensures
        r@ == joined(texts(parts@), separator@),
{
    let mut out: String = String::new();
    let mut i: usize = 0;
    while i < parts.len()
        invariant
            i <= parts@.len(),
            out@ == joined(texts(parts@).take(i as int), separator@),
        decreases parts@.len() - i,
    {
        if i > 0 {
            out.append(separator);
        }
        out.append(parts[i].as_str());
        proof {
            let next = texts(parts@).take(i + 1);
            assert(next.drop_last() == texts(parts@).take(i as int));
            assert(next.last() == parts@[i as int]@);
            if i == 0 {
                assert(out@ == parts@[0]@);
            }
        }
        i += 1;
    }
    assert(texts(parts@).take(i as int) == texts(parts@));
    out
}

/// Whether `needle` occurs in `s` at position `at`.
pub open spec fn occurs_at(s: Seq<char>, needle: Seq<char>, at: int) -> bool {
    0 <= at && at + needle.len() <= s.len() && s.subrange(at, at + needle.len()) == needle
}

/// Whether `needle` occurs somewhere in `s`.
pub open spec fn contains_text(s: Seq<char>, needle: Seq<char>) -> bool {
    exists|at: int| #[trigger] occurs_at(s, needle, at)
}

fn found_at(s: &Vec<char>, needle: &Vec<char>, at: usize) -> (r: bool)
    requires
        at + needle@.len() <= s@.len(),
    ensures
        r == occurs_at(s@, needle@, at as int),
{
    let total: usize = s.len();
    let mut i: usize = 0;
    while i < needle.len()
        invariant
            i <= needle@.len(),
            total == s@.len(),
            at + needle@.len() <= total,
            forall|k: int| 0 <= k < i ==> s@[at + k] == needle@[k],
        decreases needle@.len() - i,
    {
        if s[at + i] != needle[i] {
            assert(s@.subrange(at as int, at + needle@.len())[i as int] == s@[at + i]);
            return false;
        }
        i += 1;
    }
    assert(s@.subrange(at as int, at + needle@.len()) == needle@);
    true
}

/// Whether `needle` occurs in `s`.
pub fn contains(s: &str, needle: &str) -> (r: bool)
    ensures
        r == contains_text(s@, needle@),
{
    let hay: Vec<char> = characters(s);
    let pin: Vec<char> = characters(needle);
    if pin.len() > hay.len() {
        return false;
    }
    let last: usize = hay.len() - pin.len();
    let mut at: usize = 0;
    loop
        invariant
            hay@ == s@,
            pin@ == needle@,
            last == hay@.len() - pin@.len(),
            at <= last,
            forall|k: int| 0 <= k < at ==> !#[trigger] occurs_at(s@, needle@, k),
        decreases last - at,
    {
        if found_at(&hay, &pin, at) {
            return true;
        }
        if at == last {
            return false;
        }
        at += 1;
    }
}

/// Whether `s` begins with `prefix`.
pub fn starts_with(s: &str, prefix: &str) -> (r: bool)
    ensures
        r == prefix@.is_prefix_of(s@),
{
    let whole: Vec<char> = characters(s);
    let head: Vec<char> = characters(prefix);
    if head.len() > whole.len() {
        return false;
    }
    found_at(&whole, &head, 0)
}

/// The characters with the Unicode property White_Space.
pub open spec fn white_space(c: char) -> bool {
    ||| 0x9 <= c as u32 <= 0xd
    ||| c as u32 == 0x20
    ||| c as u32 == 0x85
    ||| c as u32 == 0xa0
    ||| c as u32 == 0x1680
    ||| 0x2000 <= c as u32 <= 0x200a
    ||| c as u32 == 0x2028
    ||| c as u32 == 0x2029
    ||| c as u32 == 0x202f
    ||| c as u32 == 0x205f
    ||| c as u32 == 0x3000
}

/// Whether a character is white space.
pub fn is_white_space(c: char) -> (r: bool)
    ensures
        r == white_space(c),
{
    let code: u32 = c as u32;
    (0x9 <= code && code <= 0xd) || code == 0x20 || code == 0x85 || code == 0xa0 || code == 0x1680
        || (0x2000 <= code && code <= 0x200a) || code == 0x2028 || code == 0x2029 || code == 0x202f
        || code == 0x205f || code == 0x3000
}

/// `s` without its leading white space.
pub open spec fn trimmed_start(s: Seq<char>) -> Seq<char>
    decreases s.len(),
{
    if s.len() > 0 && white_space(s[0]) {
        trimmed_start(s.drop_first())
    } else {
        s
    }
}

/// `s` without its trailing white space.
pub open spec fn trimmed_end(s: Seq<char>) -> Seq<char>
    decreases s.len(),
{
    if s.len() > 0 && white_space(s.last()) {
        trimmed_end(s.drop_last())
    } else {
        s
    }
}

/// `s` without its leading and trailing white space.
pub open spec fn trimmed(s: Seq<char>) -> Seq<char> {
    trimmed_end(trimmed_start(s))
}

/// The text at positions `from..to`, without white space at either end.
pub fn trim_slice(chars: &Vec<char>, from: usize, to: usize) -> (r: String)
    requires
        from <= to <= chars@.len(),
    ensures
        r@ == trimmed(chars@.subrange(from as int, to as int)),
{
    let mut start: usize = from;
    while start < to && is_white_space(chars[start])
        invariant
            from <= start <= to <= chars@.len(),
            trimmed_start(chars@.subrange(from as int, to as int)) == trimmed_start(
                chars@.subrange(start as int, to as int),
            ),
        decreases to - start,
    {
        assert(chars@.subrange(start as int, to as int).drop_first() == chars@.subrange(
            start + 1,
            to as int,
        ));
        start += 1;
    }
    let mut end: usize = to;
    while end > start && is_white_space(chars[end - 1])
        invariant
            from <= start <= end <= to <= chars@.len(),
            trimmed_end(chars@.subrange(start as int, to as int)) == trimmed_end(
                chars@.subrange(start as int, end as int),
            ),
        decreases end - start,
    {
        assert(chars@.subrange(start as int, end as int).drop_last() == chars@.subrange(
            start as int,
            end - 1,
        ));
        end -= 1;
    }
    slice_text(chars, start, end)
}

/// `s` without every copy of `suffix` that stands at its end, one after the other.
pub open spec fn without_suffixes(s: Seq<char>, suffix: Seq<char>) -> Seq<char>
    decreases s.len(),
{
    if suffix.len() > 0 && occurs_at(s, suffix, s.len() - suffix.len()) {
        without_suffixes(s.take(s.len() - suffix.len()), suffix)
    } else {
        s
    }
}

/// Removes every copy of `suffix` from the end of a string.
pub fn trim_end_matches(s: &str, suffix: &str) -> (r: String)
    requires
        suffix@.len() > 0,
    ensures
        r@ == without_suffixes(s@, suffix@),
{
    let whole: Vec<char> = characters(s);
    let tail: Vec<char> = characters(suffix);
    let mut end: usize = whole.len();
    assert(whole@.take(end as int) == s@);
    while end >= tail.len() && found_at(&whole, &tail, end - tail.len())
        invariant
            end <= whole@.len(),
            tail@ == suffix@,
            tail@.len() > 0,
            without_suffixes(s@, suffix@) == without_suffixes(whole@.take(end as int), suffix@),
        ensures
            end < tail@.len() || !occurs_at(whole@, tail@, end - tail@.len()),
        decreases end,
    {
        let ghost now = whole@.take(end as int);
        assert(now.subrange(now.len() - tail@.len(), now.len() as int) == whole@.subrange(
            end - tail@.len(),
            end as int,
        ));
        assert(now.take(now.len() - tail@.len()) == whole@.take(end - tail@.len()));
        end -= tail.len();
    }
    proof {
        let now = whole@.take(end as int);
        if end >= tail@.len() {
            assert(now.subrange(now.len() - tail@.len(), now.len() as int) == whole@.subrange(
                end - tail@.len(),
                end as int,
            ));
        }
        assert(without_suffixes(now, suffix@) == now);
        assert(whole@.subrange(0, end as int) == now);
    }
    slice_text(&whole, 0, end)
}

/// The part of `s` in front of the first occurrence of `mark`, or all of it.
pub open spec fn up_to(s: Seq<char>, mark: char) -> Seq<char>
    decreases s.len(),
{
    if s.len() == 0 || s[0] == mark {
        Seq::empty()
    } else {
        seq![s[0]] + up_to(s.drop_first(), mark)
    }
}

/// The part of a string in front of the first occurrence of a character.
pub fn before(s: &str, mark: char) -> (r: String)
    ensures
        r@ == up_to(s@, mark),
{
    let whole: Vec<char> = characters(s);
    let mut end: usize = 0;
    assert(whole@.skip(0) == s@);
    while end < whole.len() && whole[end] != mark
        invariant
            end <= whole@.len(),
            up_to(s@, mark) == whole@.take(end as int) + up_to(whole@.skip(end as int), mark),
        decreases whole@.len() - end,
    {
        let ghost rest = whole@.skip(end as int);
        assert(rest[0] == whole@[end as int]);
        assert(rest.drop_first() == whole@.skip(end + 1));
        assert(whole@.take(end as int) + (seq![rest[0]] + up_to(rest.drop_first(), mark))
            == whole@.take(end + 1) + up_to(rest.drop_first(), mark));
        end += 1;
    }
    assert(up_to(whole@.skip(end as int), mark) == Seq::<char>::empty());
    assert(whole@.subrange(0, end as int) == whole@.take(end as int));
    slice_text(&whole, 0, end)
}

/// The decimal digit with the value `d`.
pub open spec fn digit(d: nat) -> char {
    (('0' as u32) + d) as char
}

/// The decimal notation of a natural number, without leading zeros.
pub open spec fn decimal(n: nat) -> Seq<char>
    decreases n,
{
    if n < 10 {
        seq![digit(n)]
    } else {
        decimal(n / 10).push(digit(n % 10))
    }
}

fn digit_char(d: u64) -> (r: char)
    requires
        d < 10,
    ensures
        r == digit(d as nat),
{
    if d == 0 {
        '0'
    } else if d == 1 {
        '1'
    } else if d == 2 {
        '2'
    } else if d == 3 {
        '3'
    } else if d == 4 {
        '4'
    } else if d == 5 {
        '5'
    } else if d == 6 {
        '6'
    } else if d == 7 {
        '7'
    } else if d == 8 {
        '8'
    } else {
        '9'
    }
}

/// Writes a number in decimal notation.
pub fn decimal_text(n: u64) -> (r: String)
    ensures
        r@ == decimal(n as nat),
    decreases n,
{
    if n < 10 {
        let mut out: String = String::new();
        out.push(digit_char(n));
        assert(out@ == seq![digit(n as nat)]);
        out
    } else {
        let mut out: String = decimal_text(n / 10);
        out.push(digit_char(n % 10));
        out
    }
}

/// Whether a character is a decimal digit.
pub open spec fn is_digit(c: char) -> bool {
    '0' as u32 <= c as u32 <= '9' as u32
}

/// The number that a sequence of digits denotes.
pub open spec fn digits_value(s: Seq<char>) -> nat
    decreases s.len(),
{
    if s.len() == 0 {
        0
    } else {
        digits_value(s.drop_last()) * 10 + (s.last() as u32 - '0' as u32) as nat
    }
}

/// The digits of a number's notation: all of it, or what follows a plus sign.
pub open spec fn unsigned_digits(s: Seq<char>) -> Seq<char> {
    if s.len() > 0 && s[0] == '+' {
        s.drop_first()
    } else {
        s
    }
}

/// The number that a text denotes: one digit or more, perhaps behind a plus sign, with a value
/// of at most `max`.
pub open spec fn unsigned_value(s: Seq<char>, max: nat) -> Option<nat> {
    let digits = unsigned_digits(s);
    if digits.len() > 0 && (forall|i: int| 0 <= i < digits.len() ==> #[trigger] is_digit(digits[i]))
        && digits_value(digits) <= max {
        Some(digits_value(digits))
    } else {
        None
    }
}

/// A longer run of digits denotes no smaller number than the run it starts with.
proof fn lemma_digits_value_grows(s: Seq<char>, n: int)
    requires
        0 <= n <= s.len(),
    ensures
        digits_value(s.take(n)) <= digits_value(s),
    decreases s.len() - n,
{
    if n < s.len() {
        lemma_digits_value_grows(s, n + 1);
        assert(s.take(n + 1).drop_last() == s.take(n));
    } else {
        assert(s.take(n) == s);
    }
}

/// Reads a number of at most `max`, as `u64`'s `FromStr` reads one of at most `u64::MAX`.
pub fn parse_unsigned(s: &str, max: u64) -> (r: Option<u64>)
    ensures
        match r {
            Some(n) => unsigned_value(s@, max as nat) == Some(n as nat),
            None => unsigned_value(s@, max as nat) is None,
        },
{
    let chars: Vec<char> = characters(s);
    let start: usize = if chars.len() > 0 && chars[0] == '+' {
        1
    } else {
        0
    };
    let ghost digits = unsigned_digits(s@);
    assert(digits == chars@.skip(start as int));
    if chars.len() == start {
        return None;
    }
    let mut total: u64 = 0;
    let mut i: usize = start;
    assert(digits.take(0) == Seq::<char>::empty());
    while i < chars.len()
        invariant
            start <= i <= chars@.len(),
            digits == chars@.skip(start as int),
            digits == unsigned_digits(s@),
            digits.len() == chars@.len() - start,
            digits.len() > 0,
            total <= max,
            total == digits_value(digits.take(i - start)),
            forall|k: int| 0 <= k < i - start ==> #[trigger] is_digit(digits[k]),
        decreases chars@.len() - i,
    {
        let c: char = chars[i];
        assert(c == digits[i - start]);
        let code: u32 = c as u32;
        if code < 48 || code > 57 {
            assert(!is_digit(digits[i - start]));
            return None;
        }
        let value: u64 = (code - 48) as u64;
        proof {
            assert(digits.take(i - start + 1).drop_last() == digits.take(i - start));
            lemma_digits_value_grows(digits, i - start + 1);
        }
        if total > max / 10 || value > max - total * 10 {
            return None;
        }
        total = total * 10 + value;
        i += 1;
    }
    assert(digits.take(i - start) == digits);
    Some(total)
}

/// Joining two lists one behind the other puts one separator between them. One text alone comes
/// back as it is, and no text gives none.
pub proof fn joining_puts_separators_between(
    a: Seq<Seq<char>>,
    b: Seq<Seq<char>>,
    one: Seq<char>,
    separator: Seq<char>,
)
    ensures
        joined(Seq::empty(), separator) == Seq::<char>::empty(),
        joined(seq![one], separator) == one,
        a.len() > 0 && b.len() > 0 ==> joined(a + b, separator) == joined(a, separator) + separator
            + joined(b, separator),
    decreases b.len(),
{
    if a.len() > 0 && b.len() > 0 {
        let rest = b.drop_last();
        assert((a + b).drop_last() == a + rest);
        assert((a + b).last() == b.last());
        if b.len() == 1 {
            assert(a + rest == a);
        } else {
            joining_puts_separators_between(a, rest, one, separator);
            assert(joined(a, separator) + separator + joined(rest, separator) + separator + b.last()
                == joined(a, separator) + separator + (joined(rest, separator) + separator
                + b.last()));
        }
    }
}

/// A text holds another just where it is that text with something in front of it and something
/// behind it, either of which may be empty.
pub proof fn holding_is_having_as_a_part(s: Seq<char>, needle: Seq<char>)
    ensures
        contains_text(s, needle) <==> exists|a: Seq<char>, b: Seq<char>|
            s == #[trigger] (a + needle + b),
{
    if contains_text(s, needle) {
        let at = choose|at: int| #[trigger] occurs_at(s, needle, at);
        let a = s.take(at);
        let b = s.skip(at + needle.len());
        assert(s == a + needle + b);
    }
    if exists|a: Seq<char>, b: Seq<char>| s == #[trigger] (a + needle + b) {
        let (a, b) = choose|a: Seq<char>, b: Seq<char>| s == #[trigger] (a + needle + b);
        assert(s.subrange(a.len() as int, a.len() as int + needle.len()) == needle);
        assert(occurs_at(s, needle, a.len() as int));
    }
}

/// Whether all characters are white space.
pub open spec fn all_white(s: Seq<char>) -> bool {
    forall|i: int| 0 <= i < s.len() ==> white_space(#[trigger] s[i])
}

/// How much trimming takes from the start of a text.
proof fn lemma_trimmed_start(s: Seq<char>) -> (k: int)
    ensures
        0 <= k <= s.len(),
        all_white(s.take(k)),
        trimmed_start(s) == s.skip(k),
        k < s.len() ==> !white_space(s[k]),
    decreases s.len(),
{
    if s.len() > 0 && white_space(s[0]) {
        let k = lemma_trimmed_start(s.drop_first()) + 1;
        assert forall|i: int| 0 <= i < k implies white_space(#[trigger] s.take(k)[i]) by {
            if i > 0 {
                assert(s.drop_first().take(k - 1)[i - 1] == s[i]);
            }
        }
        assert(s.drop_first().skip(k - 1) == s.skip(k));
        k
    } else {
        assert(s.skip(0) == s);
        0
    }
}

/// How much trimming leaves of the end of a text.
proof fn lemma_trimmed_end(s: Seq<char>) -> (n: int)
    ensures
        0 <= n <= s.len(),
        all_white(s.skip(n)),
        trimmed_end(s) == s.take(n),
        n > 0 ==> !white_space(s[n - 1]),
    decreases s.len(),
{
    if s.len() > 0 && white_space(s.last()) {
        let n = lemma_trimmed_end(s.drop_last());
        assert forall|i: int| 0 <= i < s.len() - n implies white_space(#[trigger] s.skip(n)[i]) by {
            if i + n < s.len() - 1 {
                assert(s.drop_last().skip(n)[i] == s[i + n]);
            }
        }
        assert(s.drop_last().take(n) == s.take(n));
        n
    } else {
        assert(s.take(s.len() as int) == s);
        s.len() as int
    }
}

/// Trimming takes white space from both ends, all of it and nothing else.
pub proof fn trimming_takes_just_white_space(s: Seq<char>)
    ensures
        exists|a: Seq<char>, b: Seq<char>|
            all_white(a) && all_white(b) && s == #[trigger] (a + trimmed(s) + b),
        trimmed(s).len() > 0 ==> !white_space(trimmed(s)[0]) && !white_space(trimmed(s).last()),
{
    let k = lemma_trimmed_start(s);
    let rest = s.skip(k);
    let n = lemma_trimmed_end(rest);
    let a = s.take(k);
    let b = rest.skip(n);
    assert(s == a + trimmed(s) + b);
    assert(trimmed(s) == rest.take(n));
    if n > 0 {
        assert(rest[0] == s[k]);
    }
}

/// What begins and ends with something other than white space is left by trimming, whatever white
/// space stands around it.
pub proof fn trimming_keeps_what_is_inside(a: Seq<char>, s: Seq<char>, b: Seq<char>)
    requires
        all_white(a),
        all_white(b),
        s.len() > 0,
        !white_space(s[0]),
        !white_space(s.last()),
    ensures
        trimmed(a + s + b) == s,
{
    let all = a + s + b;
    let k = lemma_trimmed_start(all);
    if k > a.len() {
        assert(all.take(k)[a.len() as int] == s[0]);
    } else if k < a.len() {
        assert(all[k] == a[k]);
    }
    let rest = all.skip(k);
    assert(rest == s + b);
    let n = lemma_trimmed_end(rest);
    if n < s.len() {
        assert(rest.skip(n)[s.len() - 1 - n] == s.last());
    } else if n > s.len() {
        assert(rest[n - 1] == b[n - 1 - s.len()]);
    }
    assert(rest.take(n) == s);
}

/// The text, `n` times over.
pub open spec fn repeated(s: Seq<char>, n: nat) -> Seq<char>
    decreases n,
{
    if n == 0 {
        Seq::empty()
    } else {
        s + repeated(s, (n - 1) as nat)
    }
}

/// Removing a suffix takes whole copies of it from the end of a text, until what is left does not
/// end with one.
pub proof fn suffixes_are_removed_whole(s: Seq<char>, suffix: Seq<char>)
    requires
        suffix.len() > 0,
    ensures
        exists|n: nat| s == without_suffixes(s, suffix) + #[trigger] repeated(suffix, n),
        !suffix.is_suffix_of(without_suffixes(s, suffix)),
    decreases s.len(),
{
    let at = s.len() - suffix.len();
    if occurs_at(s, suffix, at) {
        let head = s.take(at);
        suffixes_are_removed_whole(head, suffix);
        let left = without_suffixes(head, suffix);
        let n = choose|n: nat| head == left + #[trigger] repeated(suffix, n);
        lemma_repeated_ends(suffix, n);
        assert(s == head + suffix);
        assert(left + repeated(suffix, n) + suffix == left + (repeated(suffix, n) + suffix));
        assert(s == left + repeated(suffix, n + 1));
    } else {
        assert(s == s + repeated(suffix, 0));
        if suffix.is_suffix_of(s) {
            assert(s.subrange(at, s.len() as int) == suffix);
        }
    }
}

/// A copy at the end is as good as one at the start.
proof fn lemma_repeated_ends(s: Seq<char>, n: nat)
    ensures
        repeated(s, n) + s == repeated(s, n + 1),
    decreases n,
{
    if n == 0 {
        assert(Seq::<char>::empty() + s == s + Seq::<char>::empty());
    } else {
        lemma_repeated_ends(s, (n - 1) as nat);
        assert(s + repeated(s, (n - 1) as nat) + s == s + (repeated(s, (n - 1) as nat) + s));
    }
}

/// The part in front of a mark does not hold it, and behind that part the mark follows, or nothing.
pub proof fn the_first_mark_ends_the_part(s: Seq<char>, mark: char)
    ensures
        up_to(s, mark).is_prefix_of(s),
        !up_to(s, mark).contains(mark),
        up_to(s, mark).len() < s.len() ==> s[up_to(s, mark).len() as int] == mark,
    decreases s.len(),
{
    if s.len() > 0 && s[0] != mark {
        let rest = s.drop_first();
        let tail = up_to(rest, mark);
        the_first_mark_ends_the_part(rest, mark);
        assert forall|k: int| 0 <= k < up_to(s, mark).len() implies up_to(s, mark)[k] != mark by {
            if k > 0 {
                assert(tail.contains(tail[k - 1]));
            }
        }
        assert forall|k: int| 0 <= k < tail.len() implies tail[k] == s[k + 1] by {
            assert(rest[k] == s[k + 1]);
        }
        assert(up_to(s, mark) == s.subrange(0, up_to(s, mark).len() as int));
    } else {
        assert(up_to(s, mark) == s.subrange(0, 0));
    }
}

/// A run of digits counts in tens, and no digits count for nothing.
pub proof fn digits_count_in_tens(s: Seq<char>, c: char)
    ensures
        digits_value(Seq::empty()) == 0,
        is_digit(c) ==> digits_value(s.push(c)) == 10 * digits_value(s) + (c as u32 - '0' as u32),
{
    assert(s.push(c).drop_last() == s);
}

/// The decimal notation of a number is digits, has no zero in front, and denotes the number.
pub proof fn decimal_notation_denotes_the_number(n: nat)
    ensures
        decimal(n).len() > 0,
        forall|i: int| 0 <= i < decimal(n).len() ==> is_digit(#[trigger] decimal(n)[i]),
        digits_value(decimal(n)) == n,
        n > 0 ==> decimal(n)[0] != '0',
        decimal(0) == seq!['0'],
    decreases n,
{
    if n < 10 {
        let d = digit(n);
        assert(d as u32 == '0' as u32 + n);
        assert(seq![d].drop_last() == Seq::<char>::empty());
        assert(digits_value(Seq::<char>::empty()) == 0);
    } else {
        decimal_notation_denotes_the_number(n / 10);
        let d = digit(n % 10);
        assert(d as u32 == '0' as u32 + n % 10);
        assert(decimal(n).drop_last() == decimal(n / 10));
    }
    assert(decimal(0) == seq!['0']);
}

/// The notation of a number is read as that number, with or without a plus sign, as long as it is
/// no greater than it may be.
pub proof fn numbers_are_read_as_written(n: nat, max: nat)
    ensures
        unsigned_value(decimal(n), max) == (if n <= max {
            Some(n)
        } else {
            None
        }),
        unsigned_value(seq!['+'] + decimal(n), max) == unsigned_value(decimal(n), max),
{
    decimal_notation_denotes_the_number(n);
    assert(is_digit(decimal(n)[0]));
    assert((seq!['+'] + decimal(n)).drop_first() == decimal(n));
}

/// What holds anything but digits, apart from a plus sign in front, is no number. Neither is what
/// holds no digit.
pub proof fn nonsense_is_not_a_number(s: Seq<char>, i: int, max: nat)
    requires
        s.len() == 0 || s == seq!['+'] || (0 <= i < s.len() && !is_digit(s[i]) && !(i == 0 && s[0]
            == '+')),
    ensures
        unsigned_value(s, max) is None,
{
    if s.len() > 0 && s != seq!['+'] {
        if s[0] == '+' {
            assert(unsigned_digits(s)[i - 1] == s[i]);
        }
    }
}

/// Lists and optional strings stand for the characters of what they hold.
pub proof fn strings_stand_for_their_characters(list: Seq<String>, s: String)
    ensures
        texts(list).len() == list.len(),
        forall|i: int| 0 <= i < list.len() ==> #[trigger] texts(list)[i] == list[i]@,
        optional_text(Some(s)) == Some(s@),
        optional_text(None) is None,
{
}

} // verus!
