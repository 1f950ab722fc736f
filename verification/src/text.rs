//! Small text helpers on character sequences.

use vstd::prelude::*;
use vstd::string::StrSliceExecFns;
use vstd::string::StringExecFns;

verus! {

/// The characters of `s`, in order.
pub fn chars_of(s: &str) -> (chars: Vec<char>)
    ensures
        chars@ == s@,
{
    let mut out: Vec<char> = Vec::new();
    for c in it: s.chars()
        invariant
            it.seq() == s@,
            out@ == it.seq().subrange(0, it.index() as int),
    {
        out.push(c);
        assert(it.seq().subrange(0, it.index() + 1) =~= it.seq().subrange(
            0,
            it.index() as int,
        ).push(c));
    }
    assert(out@ =~= s@);
    out
}

/// Whether `i` is the first place at or after `from` where `s` holds `c`.
pub open spec fn is_first_at(s: Seq<char>, c: char, from: int, i: int) -> bool {
    &&& from <= i < s.len()
    &&& s[i] == c
    &&& forall|j: int| from <= j < i ==> s[j] != c
}

/// Whether `s` holds `c` nowhere at or after `from`.
pub open spec fn absent_from(s: Seq<char>, c: char, from: int) -> bool {
    forall|j: int| from <= j < s.len() ==> s[j] != c
}

/// A character that is absent from the start on is not contained.
pub proof fn lemma_absent_not_contained(s: Seq<char>, c: char)
    requires
        absent_from(s, c, 0),
    ensures
        !s.contains(c),
{
    if s.contains(c) {
        let k = choose|k: int| 0 <= k < s.len() && s[k] == c;
        assert(s[k] != c);
    }
}

/// There is one first place at most, and a character that has one is
/// contained.
pub proof fn lemma_first_at_unique(s: Seq<char>, c: char, from: int, i: int, j: int)
    requires
        0 <= from,
        is_first_at(s, c, from, i),
    ensures
        s.contains(c),
        is_first_at(s, c, from, j) ==> i == j,
{
    if is_first_at(s, c, from, j) {
        if i < j {
            assert(s[i] != c);
        }
        if j < i {
            assert(s[j] != c);
        }
    }
}

/// The first place at or after `from` where `chars` holds `c`.
pub fn find_char(chars: &Vec<char>, c: char, from: usize) -> (found: Option<usize>)
    ensures
        match found {
            Some(i) => is_first_at(chars@, c, from as int, i as int),
            None => absent_from(chars@, c, from as int),
        },
{
    let mut i: usize = from;
    while i < chars.len()
        invariant
            from <= i,
            forall|j: int| from <= j < i && j < chars@.len() ==> chars@[j] != c,
        decreases chars@.len() - i,
    {
        if chars[i] == c {
            return Some(i);
        }
        i = i + 1;
    }
    None
}

/// Whether two texts hold the same characters.
pub fn same_text(a: &str, b: &str) -> (same: bool)
    ensures
        same == (a@ == b@),
{
    let x = chars_of(a);
    let y = chars_of(b);
    if x.len() != y.len() {
        return false;
    }
    let mut i: usize = 0;
    while i < x.len()
        invariant
            i <= x@.len(),
            x@.len() == y@.len(),
            x@ == a@,
            y@ == b@,
            forall|j: int| 0 <= j < i ==> x@[j] == y@[j],
        decreases x@.len() - i,
    {
        if x[i] != y[i] {
            return false;
        }
        i = i + 1;
    }
    assert(x@ =~= y@);
    true
}

/// The characters of `s` from `from` up to `to`, as a text of their own.
pub fn slice_text(s: &str, from: usize, to: usize) -> (piece: String)
    requires
        from <= to <= s@.len(),
    ensures
        piece@ == s@.subrange(from as int, to as int),
{
    String::from_str(s.substring_char(from, to))
}

/// The texts of a list of strings, in order.
pub open spec fn texts(v: Seq<String>) -> Seq<Seq<char>> {
    v.map_values(|s: String| s@)
}

/// A copy of a list of strings.
pub fn clone_texts(v: &Vec<String>) -> (copy: Vec<String>)
    ensures
        texts(copy@) == texts(v@),
{
    let mut out: Vec<String> = Vec::with_capacity(v.len());
    let mut i: usize = 0;
    while i < v.len()
        invariant
            i <= v@.len(),
            out@.len() == i,
            forall|j: int| 0 <= j < i ==> out@[j]@ == v@[j]@,
        decreases v@.len() - i,
    {
        out.push(v[i].clone());
        i = i + 1;
    }
    assert(texts(out@) =~= texts(v@));
    out
}

/// The lower-case form of an ASCII capital; any other character is itself.
pub open spec fn ascii_lower(c: char) -> char {
    if 'A' <= c <= 'Z' {
        ((c as u8) + 32) as char
    } else {
        c
    }
}

/// Whether two texts are the same once ASCII capitals are made small.
pub open spec fn same_ignoring_ascii_case(a: Seq<char>, b: Seq<char>) -> bool {
    a.len() == b.len() && forall|i: int| 0 <= i < a.len() ==> ascii_lower(a[i]) == ascii_lower(b[i])
}

fn lower(c: char) -> (l: char)
    ensures
        l == ascii_lower(c),
{
    if 'A' <= c && c <= 'Z' {
        ((c as u8) + 32) as char
    } else {
        c
    }
}

/// Compares two texts without regard to the case of ASCII letters.
pub fn eq_ignore_ascii_case(a: &str, b: &str) -> (same: bool)
    ensures
        same == same_ignoring_ascii_case(a@, b@),
{
    let x = chars_of(a);
    let y = chars_of(b);
    if x.len() != y.len() {
        return false;
    }
    let mut i: usize = 0;
    while i < x.len()
        invariant
            i <= x@.len(),
            x@.len() == y@.len(),
            x@ == a@,
            y@ == b@,
            forall|j: int| 0 <= j < i ==> ascii_lower(x@[j]) == ascii_lower(y@[j]),
        decreases x@.len() - i,
    {
        if lower(x[i]) != lower(y[i]) {
            return false;
        }
        i = i + 1;
    }
    true
}

/// Whether `c` is white space, as Unicode defines it.
pub open spec fn is_space(c: char) -> bool {
    ||| c == ' '
    ||| '\t' <= c <= '\r'
    ||| c == '\u{85}'
    ||| c == '\u{a0}'
    ||| c == '\u{1680}'
    ||| '\u{2000}' <= c <= '\u{200a}'
    ||| c == '\u{2028}'
    ||| c == '\u{2029}'
    ||| c == '\u{202f}'
    ||| c == '\u{205f}'
    ||| c == '\u{3000}'
}

/// Where the run of characters other than white space that starts at `from`
/// ends.
pub open spec fn word_end(s: Seq<char>, from: int) -> int
    decreases s.len() - from,
{
    if from < 0 || from >= s.len() || is_space(s[from]) {
        from
    } else {
        word_end(s, from + 1)
    }
}

/// A word ends at or after its start, and within the text.
pub proof fn lemma_word_end_bounds(s: Seq<char>, from: int)
    requires
        0 <= from <= s.len(),
    ensures
        from <= word_end(s, from) <= s.len(),
        from < s.len() && !is_space(s[from]) ==> from < word_end(s, from),
    decreases s.len() - from,
{
    if from < s.len() && !is_space(s[from]) {
        lemma_word_end_bounds(s, from + 1);
    }
}

/// The words of `s` from `from` on: the longest runs of characters other
/// than white space, in order.
pub open spec fn tokens_from(s: Seq<char>, from: int) -> Seq<Seq<char>>
    decreases s.len() - from,
{
    if from < 0 || from >= s.len() {
        Seq::empty()
    } else if is_space(s[from]) {
        tokens_from(s, from + 1)
    } else {
        proof {
            lemma_word_end_bounds(s, from);
        }
        seq![s.subrange(from, word_end(s, from))] + tokens_from(s, word_end(s, from))
    }
}

/// The words of `s`.
pub open spec fn tokens(s: Seq<char>) -> Seq<Seq<char>> {
    tokens_from(s, 0)
}

fn is_space_char(c: char) -> (space: bool)
    ensures
        space == is_space(c),
{
    c == ' ' || ('\t' <= c && c <= '\r') || c == '\u{85}' || c == '\u{a0}' || c == '\u{1680}' || (
    '\u{2000}' <= c && c <= '\u{200a}') || c == '\u{2028}' || c == '\u{2029}' || c == '\u{202f}'
        || c == '\u{205f}' || c == '\u{3000}'
}

/// Splits a text into its words.
pub fn split_whitespace(s: &str) -> (words: Vec<String>)
    ensures
        texts(words@) == tokens(s@),
{
    let chars = chars_of(s);
    let n = chars.len();
    let mut words: Vec<String> = Vec::new();
    let mut i: usize = 0;
    assert(texts(words@) =~= Seq::<Seq<char>>::empty());
    while i < n
        invariant
            i <= n,
            n == s@.len(),
            chars@ == s@,
            tokens(s@) == texts(words@) + tokens_from(s@, i as int),
        decreases n - i,
    {
        if is_space_char(chars[i]) {
            i = i + 1;
        } else {
            let start = i;
            let mut end: usize = i + 1;
            while end < n && !is_space_char(chars[end])
                invariant
                    start < end <= n,
                    n == s@.len(),
                    chars@ == s@,
                    !is_space(s@[start as int]),
                    word_end(s@, start as int) == word_end(s@, end as int),
                decreases n - end,
            {
                end = end + 1;
            }
            assert(word_end(s@, end as int) == end);
            let ghost before = texts(words@);
            words.push(slice_text(s, start, end));
            assert(texts(words@) =~= before.push(s@.subrange(start as int, end as int)));
            assert(before + (seq![s@.subrange(start as int, end as int)] + tokens_from(
                s@,
                end as int,
            )) =~= before.push(s@.subrange(start as int, end as int)) + tokens_from(
                s@,
                end as int,
            ));
            i = end;
        }
    }
    assert(tokens_from(s@, i as int) =~= Seq::<Seq<char>>::empty());
    assert(texts(words@) + Seq::<Seq<char>>::empty() =~= texts(words@));
    words
}

/// The first line of `s`: what stands before the first line feed, or all of
/// `s` where there is none.
pub open spec fn first_line(s: Seq<char>) -> Seq<char>
    decreases s.len(),
{
    if s.len() == 0 || s[0] == '\n' {
        Seq::empty()
    } else {
        seq![s[0]] + first_line(s.drop_first())
    }
}

/// The first line is the text up to the first line feed.
pub proof fn lemma_first_line(s: Seq<char>, i: int)
    requires
        0 <= i <= s.len(),
        i < s.len() ==> s[i] == '\n',
        forall|j: int| 0 <= j < i ==> s[j] != '\n',
    ensures
        first_line(s) == s.subrange(0, i),
    decreases s.len(),
{
    if i == 0 {
        assert(s.subrange(0, 0) =~= Seq::<char>::empty());
    } else {
        let rest = s.drop_first();
        assert forall|j: int| 0 <= j < i - 1 implies rest[j] != '\n' by {
            assert(rest[j] == s[j + 1]);
        }
        lemma_first_line(rest, i - 1);
        assert(seq![s[0]] + rest.subrange(0, i - 1) =~= s.subrange(0, i));
    }
}

/// The first line of a text, without its line feed.
pub fn take_first_line(s: &str) -> (line: String)
    ensures
        line@ == first_line(s@),
{
    let chars = chars_of(s);
    let end = match find_char(&chars, '\n', 0) {
        Some(i) => i,
        None => chars.len(),
    };
    proof {
        lemma_first_line(s@, end as int);
    }
    slice_text(s, 0, end)
}

/// The word that follows the last occurrence of `keyword` among the first
/// `n` words, where that occurrence has a word after it.
pub open spec fn value_after(words: Seq<Seq<char>>, keyword: Seq<char>, n: int) -> Option<Seq<char>>
    decreases n,
{
    if n <= 0 {
        None
    } else if n < words.len() && words[n - 1] == keyword {
        Some(words[n])
    } else {
        value_after(words, keyword, n - 1)
    }
}

/// Looks up the word that follows the last occurrence of `keyword` that has
/// a word after it.
pub fn find_value_after(words: &Vec<String>, keyword: &str) -> (found: Option<usize>)
    ensures
        match found {
            Some(i) => 0 < i < words@.len() && value_after(
                texts(words@),
                keyword@,
                words@.len() as int,
            ) == Some(words@[i as int]@),
            None => value_after(texts(words@), keyword@, words@.len() as int).is_none(),
        },
{
    let mut found: Option<usize> = None;
    let mut i: usize = 0;
    while i < words.len()
        invariant
            i <= words@.len(),
            match found {
                Some(k) => 0 < k < words@.len() && value_after(texts(words@), keyword@, i as int)
                    == Some(words@[k as int]@),
                None => value_after(texts(words@), keyword@, i as int).is_none(),
            },
        decreases words@.len() - i,
    {
        assert(texts(words@)[i as int] == words@[i as int]@);
        if i + 1 < words.len() && same_text(words[i].as_str(), keyword) {
            assert(texts(words@)[i + 1] == words@[i + 1]@);
            found = Some(i + 1);
        }
        i = i + 1;
    }
    found
}

/// The character of a decimal digit.
pub open spec fn digit_char(d: nat) -> char
    recommends
        d < 10,
{
    (48 + d) as u8 as char
}

/// The decimal text of `n`, without leading zeros.
pub open spec fn decimal(n: nat) -> Seq<char>
    decreases n,
{
    if n < 10 {
        seq![digit_char(n)]
    } else {
        decimal(n / 10).push(digit_char(n % 10))
    }
}

fn digit_text(d: u64) -> (text: &'static str)
    requires
        d < 10,
    ensures
        text@ == seq![digit_char(d as nat)],
{
    proof {
        reveal_strlit("0");
        reveal_strlit("1");
        reveal_strlit("2");
        reveal_strlit("3");
        reveal_strlit("4");
        reveal_strlit("5");
        reveal_strlit("6");
        reveal_strlit("7");
        reveal_strlit("8");
        reveal_strlit("9");
    }
    let text = if d == 0 {
        "0"
    } else if d == 1 {
        "1"
    } else if d == 2 {
        "2"
    } else if d == 3 {
        "3"
    } else if d == 4 {
        "4"
    } else if d == 5 {
        "5"
    } else if d == 6 {
        "6"
    } else if d == 7 {
        "7"
    } else if d == 8 {
        "8"
    } else {
        "9"
    };
    assert(text@ =~= seq![digit_char(d as nat)]);
    text
}

/// Writes `n` in decimal.
pub fn decimal_text(n: u64) -> (text: String)
    ensures
        text@ == decimal(n as nat),
    decreases n,
{
    if n < 10 {
        String::from_str(digit_text(n))
    } else {
        let mut text = decimal_text(n / 10);
        text.append(digit_text(n % 10));
        assert(text@ =~= decimal(n as nat));
        text
    }
}

/// Whether `c` is a decimal digit.
pub open spec fn is_digit(c: char) -> bool {
    '0' <= c <= '9'
}

/// The number that a run of decimal digits spells.
pub open spec fn digits_value(s: Seq<char>) -> nat
    decreases s.len(),
{
    if s.len() == 0 {
        0
    } else {
        digits_value(s.drop_last()) * 10 + (s.last() as nat - 48) as nat
    }
}

/// The digits of an unsigned number: the text without one leading `+`.
pub open spec fn digits_part(s: Seq<char>) -> Seq<char> {
    if s.len() > 0 && s[0] == '+' {
        s.skip(1)
    } else {
        s
    }
}

/// The number that `s` spells, if it spells one that is at most `max`: an
/// optional `+`, then one decimal digit or more and nothing else.
pub open spec fn unsigned_value(s: Seq<char>, max: nat) -> Option<nat> {
    let digits = digits_part(s);
    if digits.len() > 0 && (forall|i: int| 0 <= i < digits.len() ==> is_digit(#[trigger] digits[i]))
        && digits_value(digits) <= max {
        Some(digits_value(digits))
    } else {
        None
    }
}

/// More digits never spell a smaller number.
pub proof fn lemma_digits_value_grows(s: Seq<char>, n: int)
    requires
        0 <= n <= s.len(),
        forall|i: int| 0 <= i < s.len() ==> is_digit(#[trigger] s[i]),
    ensures
        digits_value(s.take(n)) <= digits_value(s),
    decreases s.len() - n,
{
    if n < s.len() {
        lemma_digits_value_grows(s, n + 1);
        let longer = s.take(n + 1);
        assert(longer.drop_last() =~= s.take(n));
        assert(is_digit(s[n]));
        assert(longer.last() == s[n]);
    } else {
        assert(s.take(n) =~= s);
    }
}

/// Reads an unsigned decimal number that is at most `max`.
pub fn parse_unsigned(s: &str, max: u64) -> (value: Option<u64>)
    ensures
        match value {
            Some(v) => unsigned_value(s@, max as nat) == Some(v as nat),
            None => unsigned_value(s@, max as nat).is_none(),
        },
{
    let chars = chars_of(s);
    let start: usize = if chars.len() > 0 && chars[0] == '+' {
        1
    } else {
        0
    };
    let ghost digits = digits_part(s@);
    assert(digits =~= s@.subrange(start as int, s@.len() as int));
    if start == chars.len() {
        return None;
    }
    let mut value: u64 = 0;
    let mut i: usize = start;
    assert(digits.take(0) =~= Seq::<char>::empty());
    while i < chars.len()
        invariant
            start <= i <= chars@.len(),
            chars@ == s@,
            digits == s@.subrange(start as int, s@.len() as int),
            digits == digits_part(s@),
            digits.len() > 0,
            forall|j: int| 0 <= j < i - start ==> is_digit(#[trigger] digits[j]),
            value as nat == digits_value(digits.take(i - start)),
            value <= max,
        decreases chars@.len() - i,
    {
        let c = chars[i];
        assert(c == digits[i - start]);
        if !('0' <= c && c <= '9') {
            assert(!is_digit(digits[i - start]));
            return None;
        }
        let d: u64 = (c as u8 - 48) as u64;
        let ghost longer = digits.take(i - start + 1);
        assert(longer.drop_last() =~= digits.take(i - start));
        assert(longer.last() == c);
        assert(digits_value(longer) == value * 10 + d);
        let next: u128 = (value as u128) * 10 + (d as u128);
        if next > max as u128 {
            proof {
                if forall|j: int| 0 <= j < digits.len() ==> is_digit(#[trigger] digits[j]) {
                    lemma_digits_value_grows(digits, i - start + 1);
                }
            }
            return None;
        }
        value = next as u64;
        i = i + 1;
    }
    assert(digits.take(i - start) =~= digits);
    Some(value)
}

/// Where the field that starts at `from` ends: at the next `sep`, or at the
/// end of the text.
pub open spec fn field_end(s: Seq<char>, sep: char, from: int) -> int
    decreases s.len() - from,
{
    if from < 0 || from >= s.len() || s[from] == sep {
        from
    } else {
        field_end(s, sep, from + 1)
    }
}

/// A field ends at or after its start, and within the text.
pub proof fn lemma_field_end_bounds(s: Seq<char>, sep: char, from: int)
    requires
        0 <= from <= s.len(),
    ensures
        from <= field_end(s, sep, from) <= s.len(),
    decreases s.len() - from,
{
    if from < s.len() && s[from] != sep {
        lemma_field_end_bounds(s, sep, from + 1);
    }
}

/// The fields of `s` from `from` on: the runs between one `sep` and the
/// next. A text without `sep` is one field.
pub open spec fn fields_from(s: Seq<char>, sep: char, from: int) -> Seq<Seq<char>>
    decreases s.len() - from,
{
    if from < 0 || from > s.len() {
        Seq::empty()
    } else {
        proof {
            lemma_field_end_bounds(s, sep, from);
        }
        let end = field_end(s, sep, from);
        if end >= s.len() {
            seq![s.subrange(from, end)]
        } else {
            seq![s.subrange(from, end)] + fields_from(s, sep, end + 1)
        }
    }
}

/// Splits a text at every `sep`.
pub fn split_fields(s: &str, sep: char) -> (fields: Vec<String>)
    ensures
        texts(fields@) == fields_from(s@, sep, 0),
{
    let chars = chars_of(s);
    let n = chars.len();
    let mut fields: Vec<String> = Vec::new();
    let mut start: usize = 0;
    assert(texts(fields@) =~= Seq::<Seq<char>>::empty());
    loop
        invariant
            start <= n,
            n == s@.len(),
            chars@ == s@,
            fields_from(s@, sep, 0) == texts(fields@) + fields_from(s@, sep, start as int),
        decreases n - start,
    {
        let mut end: usize = start;
        while end < n && chars[end] != sep
            invariant
                start <= end <= n,
                n == s@.len(),
                chars@ == s@,
                field_end(s@, sep, start as int) == field_end(s@, sep, end as int),
            decreases n - end,
        {
            end = end + 1;
        }
        assert(field_end(s@, sep, end as int) == end);
        let ghost before = texts(fields@);
        let ghost piece = s@.subrange(start as int, end as int);
        fields.push(slice_text(s, start, end));
        assert(texts(fields@) =~= before.push(piece));
        if end >= n {
            assert(before + seq![piece] =~= before.push(piece));
            return fields;
        }
        assert(before + (seq![piece] + fields_from(s@, sep, end + 1)) =~= before.push(piece)
            + fields_from(s@, sep, end + 1));
        start = end + 1;
    }
}

} // verus!
