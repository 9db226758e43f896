//! Text building blocks: appending characters and decimal numbers to strings,
//! and the searching, trimming and line splitting that std's `str` methods do.

use vstd::prelude::*;

verus! {

/// The character of a decimal digit.
pub open spec fn digit_char(d: nat) -> char {
    ((48 + d) as char)
}

/// The decimal representation of `n`, most significant digit first, with no leading zeros.
pub open spec fn decimal(n: nat) -> Seq<char>
    decreases n,
{
    if n < 10 {
        seq![digit_char(n)]
    } else {
        decimal(n / 10).push(digit_char(n % 10))
    }
}

/// A decimal representation is a non-empty string of digits that reads back as its number.
pub proof fn lemma_decimal_digits(n: nat)
    ensures
        decimal(n).len() > 0,
        all_digits(decimal(n)),
        digits_value(decimal(n)) == n,
    decreases n,
{
    assert(digit_char(n % 10) as nat == 48 + n % 10);
    if n < 10 {
        let d = decimal(n);
        assert(d.drop_last() =~= Seq::<char>::empty());
        assert(digits_value(Seq::<char>::empty()) == 0);
        assert(d.last() as nat == 48 + n);
        assert(digits_value(d) == digits_value(d.drop_last()) * 10 + (d.last() as nat - '0' as nat) as nat);
    }
    if n >= 10 {
        lemma_decimal_digits(n / 10);
        let d = decimal(n);
        assert(d.last() == digit_char(n % 10));
        assert('0' as nat == 48);
        assert(digits_value(d) == digits_value(d.drop_last()) * 10 + (d.last() as nat - '0' as nat) as nat);
        assert((n / 10) * 10 + n % 10 == n);
        assert(d.drop_last() =~= decimal(n / 10));
        assert forall|i: int| 0 <= i < d.len() implies #[trigger] is_digit(d[i]) by {
            if i < d.len() - 1 {
                assert(d[i] == decimal(n / 10)[i]);
            }
        }
    }
}

/// Appends one character to a string (std's `String::push`).
#[verifier::external_body]
pub(crate) fn push_char(s: &mut String, c: char)
    ensures
        final(s)@ == old(s)@.push(c),
{
    s.push(c);
}

/// Appends the decimal representation of `n` to `s`.
pub fn push_decimal(s: &mut String, n: u64)
    ensures
        final(s)@ == old(s)@ + decimal(n as nat),
    decreases n,
{
    if n >= 10 {
        push_decimal(s, n / 10);
    }
    let d: u8 = (n % 10) as u8;
    let c = (48u8 + d) as char;
    push_char(s, c);
    assert(s@ =~= old(s)@ + decimal(n as nat));
}


/// The characters of `s`, in order.
pub(crate) fn chars_of(s: &str) -> (r: Vec<char>)
    ensures
        r@ == s@,
{
    broadcast use vstd::string::group_string_axioms;
    let mut v: Vec<char> = Vec::new();
    for c in it: s.chars()
        invariant
            v@ == it.history(),
    {
        v.push(c);
    }
    v
}

/// The string made of the characters `v`, in order.
pub(crate) fn string_from_chars(v: &Vec<char>) -> (r: String)
    ensures
        r@ == v@,
{
    let mut s = String::new();
    let mut i: usize = 0;
    while i < v.len()
        invariant
            i <= v@.len(),
            s@ == v@.subrange(0, i as int),
        decreases v.len() - i,
    {
        push_char(&mut s, v[i]);
        assert(s@ =~= v@.subrange(0, i + 1));
        i = i + 1;
    }
    assert(v@.subrange(0, v@.len() as int) =~= v@);
    s
}

/// Whether `c` is an ASCII digit.
pub open spec fn is_digit(c: char) -> bool {
    '0' <= c && c <= '9'
}

/// Whether `c` is an ASCII letter.
pub open spec fn is_alpha(c: char) -> bool {
    ('a' <= c && c <= 'z') || ('A' <= c && c <= 'Z')
}

/// Whether `c` has the Unicode `White_Space` property (std's `char::is_whitespace`).
pub open spec fn is_white_space(c: char) -> bool {
    let u = c as u32;
    ||| 0x09 <= u && u <= 0x0D
    ||| u == 0x20
    ||| u == 0x85
    ||| u == 0xA0
    ||| u == 0x1680
    ||| 0x2000 <= u && u <= 0x200A
    ||| u == 0x2028
    ||| u == 0x2029
    ||| u == 0x202F
    ||| u == 0x205F
    ||| u == 0x3000
}

/// Whether `c` has the Unicode `White_Space` property.
pub fn char_is_white_space(c: char) -> (r: bool)
    ensures
        r == is_white_space(c),
{
    let u = c as u32;
    (0x09 <= u && u <= 0x0D) || u == 0x20 || u == 0x85 || u == 0xA0 || u == 0x1680 || (0x2000 <= u
        && u <= 0x200A) || u == 0x2028 || u == 0x2029 || u == 0x202F || u == 0x205F || u == 0x3000
}

/// The value of a string of decimal digits (0 for the empty string).
pub open spec fn digits_value(s: Seq<char>) -> nat
    decreases s.len(),
{
    if s.len() == 0 {
        0
    } else {
        digits_value(s.drop_last()) * 10 + (s.last() as nat - '0' as nat) as nat
    }
}

/// Whether every character of `s` is an ASCII digit.
pub open spec fn all_digits(s: Seq<char>) -> bool {
    forall|i: int| 0 <= i < s.len() ==> #[trigger] is_digit(s[i])
}

/// Whether `s` begins with `prefix`.
pub open spec fn starts_with(s: Seq<char>, prefix: Seq<char>) -> bool {
    prefix.len() <= s.len() && s.subrange(0, prefix.len() as int) == prefix
}

/// The first position at or after `from` where `pattern` occurs in `s`.
pub open spec fn find_from(s: Seq<char>, pattern: Seq<char>, from: int) -> Option<int>
    decreases s.len() + 1 - from,
{
    if from < 0 || from + pattern.len() > s.len() {
        None
    } else if s.subrange(from, from + pattern.len()) == pattern {
        Some(from)
    } else {
        find_from(s, pattern, from + 1)
    }
}

/// The first position where `pattern` occurs in `s` (std's `str::find`).
pub open spec fn find(s: Seq<char>, pattern: Seq<char>) -> Option<int> {
    find_from(s, pattern, 0)
}

/// Whether `s` begins with `prefix`.
pub fn chars_start_with(s: &Vec<char>, prefix: &Vec<char>) -> (r: bool)
    ensures
        r == starts_with(s@, prefix@),
{
    if prefix.len() > s.len() {
        return false;
    }
    let mut i: usize = 0;
    while i < prefix.len()
        invariant
            prefix@.len() <= s@.len(),
            i <= prefix@.len(),
            forall|k: int| 0 <= k < i ==> s@[k] == prefix@[k],
        decreases prefix.len() - i,
    {
        if s[i] != prefix[i] {
            assert(s@.subrange(0, prefix@.len() as int)[i as int] != prefix@[i as int]);
            return false;
        }
        i = i + 1;
    }
    assert(s@.subrange(0, prefix@.len() as int) =~= prefix@);
    true
}

/// Whether `pattern` occurs in `s` at position `at`.
fn occurs_at(s: &Vec<char>, pattern: &Vec<char>, at: usize) -> (r: bool)
    requires
        at + pattern@.len() <= s@.len(),
    ensures
        r == (s@.subrange(at as int, at + pattern@.len()) == pattern@),
{
    let n = s.len();
    let mut i: usize = 0;
    while i < pattern.len()
        invariant
            n == s@.len(),
            at + pattern@.len() <= n,
            i <= pattern@.len(),
            forall|k: int| 0 <= k < i ==> s@[at + k] == pattern@[k],
        decreases pattern.len() - i,
    {
        if s[at + i] != pattern[i] {
            assert(s@.subrange(at as int, at + pattern@.len())[i as int] != pattern@[i as int]);
            return false;
        }
        i = i + 1;
    }
    assert(s@.subrange(at as int, at + pattern@.len()) =~= pattern@);
    true
}

/// The first position where `pattern` occurs in `s`.
pub fn find_chars(s: &Vec<char>, pattern: &Vec<char>) -> (r: Option<usize>)
    ensures
        match r {
            Some(i) => find(s@, pattern@) == Some(i as int),
            None => find(s@, pattern@) is None,
        },
{
    if pattern.len() > s.len() {
        return None;
    }
    let last = s.len() - pattern.len();
    let mut at: usize = 0;
    loop
        invariant
            pattern@.len() <= s@.len(),
            last == s@.len() - pattern@.len(),
            at <= last,
            find(s@, pattern@) == find_from(s@, pattern@, at as int),
        decreases last - at,
    {
        if occurs_at(s, pattern, at) {
            return Some(at);
        }
        if at == last {
            assert(find_from(s@, pattern@, at + 1) is None);
            return None;
        }
        at = at + 1;
    }
}

/// `s` without its leading white space.
pub open spec fn trim_start(s: Seq<char>) -> Seq<char>
    decreases s.len(),
{
    if s.len() > 0 && is_white_space(s[0]) {
        trim_start(s.drop_first())
    } else {
        s
    }
}

/// `s` without its trailing white space.
pub open spec fn trim_end(s: Seq<char>) -> Seq<char>
    decreases s.len(),
{
    if s.len() > 0 && is_white_space(s.last()) {
        trim_end(s.drop_last())
    } else {
        s
    }
}

/// `s` without leading and trailing white space (std's `str::trim`).
pub open spec fn trim(s: Seq<char>) -> Seq<char> {
    trim_end(trim_start(s))
}

/// White space in front of a text that starts otherwise is trimmed away.
pub proof fn lemma_trim_start_of_indented(indent: Seq<char>, t: Seq<char>)
    requires
        forall|k: int| 0 <= k < indent.len() ==> is_white_space(#[trigger] indent[k]),
        t.len() > 0,
        !is_white_space(t[0]),
    ensures
        trim_start(indent + t) == t,
    decreases indent.len(),
{
    if indent.len() > 0 {
        assert((indent + t)[0] == indent[0]);
        assert((indent + t).drop_first() =~= indent.drop_first() + t);
        lemma_trim_start_of_indented(indent.drop_first(), t);
    } else {
        assert(indent + t =~= t);
    }
}

/// `s` without leading and trailing white space.
pub fn trim_chars(s: &Vec<char>) -> (r: Vec<char>)
    ensures
        r@ == trim(s@),
{
    let mut start: usize = 0;
    assert(s@.subrange(0, s@.len() as int) =~= s@);
    while start < s.len() && char_is_white_space(s[start])
        invariant
            start <= s@.len(),
            trim_start(s@) == trim_start(s@.subrange(start as int, s@.len() as int)),
        decreases s.len() - start,
    {
        assert(s@.subrange(start as int, s@.len() as int).drop_first() =~= s@.subrange(start + 1, s@.len() as int));
        start = start + 1;
    }
    let ghost t = s@.subrange(start as int, s@.len() as int);
    assert(trim_start(s@) == t);
    let mut end: usize = s.len();
    while end > start && char_is_white_space(s[end - 1])
        invariant
            start <= end <= s@.len(),
            t == s@.subrange(start as int, s@.len() as int),
            trim_end(t) == trim_end(s@.subrange(start as int, end as int)),
        decreases end,
    {
        assert(s@.subrange(start as int, end as int).drop_last() =~= s@.subrange(start as int, end - 1));
        end = end - 1;
    }
    let mut r: Vec<char> = Vec::new();
    let mut i: usize = start;
    while i < end
        invariant
            start <= i <= end <= s@.len(),
            r@ == s@.subrange(start as int, i as int),
        decreases end - i,
    {
        r.push(s[i]);
        assert(r@ =~= s@.subrange(start as int, i + 1));
        i = i + 1;
    }
    r
}

/// Whether `idx` picks the items of `r` out of `s`: one position per item of
/// `r`, in increasing order, each holding that item.
pub open spec fn picks<A>(r: Seq<A>, s: Seq<A>, idx: Seq<int>) -> bool {
    &&& idx.len() == r.len()
    &&& forall|k: int| 0 <= k < idx.len() ==> 0 <= #[trigger] idx[k] < s.len() && s[idx[k]] == r[k]
    &&& forall|k: int, l: int| 0 <= k < l < idx.len() ==> #[trigger] idx[k] < #[trigger] idx[l]
}

/// Whether `r` is a subsequence of `s`: `s` with some items left out.
pub open spec fn is_subsequence<A>(r: Seq<A>, s: Seq<A>) -> bool {
    exists|idx: Seq<int>| #[trigger] picks(r, s, idx)
}

/// The end of the word that runs from `j`: the first white space at or after
/// `j`, or the end of `s`.
pub open spec fn word_end(s: Seq<char>, j: int) -> int
    decreases s.len() - j,
{
    if j >= s.len() {
        s.len() as int
    } else if is_white_space(s[j]) {
        j
    } else {
        word_end(s, j + 1)
    }
}

/// A word ends within the text, after at least its first character, at the
/// first white space that follows it.
pub proof fn lemma_word_end_bounds(s: Seq<char>, j: int)
    requires
        0 <= j <= s.len(),
    ensures
        j <= word_end(s, j) <= s.len(),
        j < s.len() && !is_white_space(s[j]) ==> j < word_end(s, j),
        forall|k: int| j <= k < word_end(s, j) ==> !is_white_space(#[trigger] s[k]),
        word_end(s, j) < s.len() ==> is_white_space(s[word_end(s, j)]),
    decreases s.len() - j,
{
    if j < s.len() && !is_white_space(s[j]) {
        lemma_word_end_bounds(s, j + 1);
    }
}

/// The words of `s` from position `i` on: the maximal runs of characters other
/// than white space, in order.
pub open spec fn words_from(s: Seq<char>, i: int) -> Seq<Seq<char>>
    decreases s.len() - i,
{
    if i < 0 || i >= s.len() {
        Seq::empty()
    } else if is_white_space(s[i]) {
        words_from(s, i + 1)
    } else {
        let e = word_end(s, i);
        proof {
            lemma_word_end_bounds(s, i);
        }
        seq![s.subrange(i, e)] + words_from(s, e)
    }
}

/// The words of `s` (std's `str::split_whitespace`).
pub open spec fn words(s: Seq<char>) -> Seq<Seq<char>> {
    words_from(s, 0)
}

/// The words of `s` (see `words`).
pub fn split_words(s: &Vec<char>) -> (r: Vec<Vec<char>>)
    ensures
        r@.map_values(|w: Vec<char>| w@) == words(s@),
{
    let n = s.len();
    let mut result: Vec<Vec<char>> = Vec::new();
    let mut i: usize = 0;
    assert(result@.map_values(|w: Vec<char>| w@) =~= Seq::<Seq<char>>::empty());
    while i < n
        invariant
            n == s@.len(),
            i <= n,
            words(s@) == result@.map_values(|w: Vec<char>| w@) + words_from(s@, i as int),
        decreases n - i,
    {
        if char_is_white_space(s[i]) {
            i = i + 1;
        } else {
            let mut word: Vec<char> = Vec::new();
            let mut j: usize = i;
            proof {
                lemma_word_end_bounds(s@, i as int);
            }
            while j < n && !char_is_white_space(s[j])
                invariant
                    n == s@.len(),
                    i <= j <= n,
                    word@ == s@.subrange(i as int, j as int),
                    word_end(s@, i as int) == word_end(s@, j as int),
                decreases n - j,
            {
                word.push(s[j]);
                assert(word@ =~= s@.subrange(i as int, j + 1));
                j = j + 1;
            }
            let ghost before = result@.map_values(|w: Vec<char>| w@);
            result.push(word);
            assert(result@.map_values(|w: Vec<char>| w@) =~= before.push(s@.subrange(i as int, j as int)));
            assert(words_from(s@, i as int) == seq![s@.subrange(i as int, j as int)] + words_from(s@, j as int));
            assert(before + words_from(s@, i as int) =~= before.push(s@.subrange(i as int, j as int)) + words_from(s@, j as int));
            i = j;
        }
    }
    assert(result@.map_values(|w: Vec<char>| w@) + words_from(s@, i as int) =~= result@.map_values(|w: Vec<char>| w@));
    result
}

/// The line of `s` that ends at a line feed, without a carriage return before it.
pub open spec fn without_cr(line: Seq<char>) -> Seq<char> {
    if line.len() > 0 && line.last() == '\r' {
        line.drop_last()
    } else {
        line
    }
}

/// The lines of `s` (std's `str::lines`): split at each line feed, a carriage
/// return before a line feed dropped, and no empty line after a final line feed.
pub open spec fn lines(s: Seq<char>) -> Seq<Seq<char>>
    decreases s.len(),
{
    if s.len() == 0 {
        Seq::empty()
    } else {
        match find(s, seq!['\n']) {
            Some(i) => if 0 <= i < s.len() {
                seq![without_cr(s.subrange(0, i))] + lines(s.subrange(i + 1, s.len() as int))
            } else {
                seq![s]
            },
            None => seq![s],
        }
    }
}

/// The first occurrence of a character at or after `from`: `find_from`
/// finds `c` exactly where it first occurs, and nowhere if it does not.
pub proof fn lemma_find_char(s: Seq<char>, c: char, from: int)
    requires
        0 <= from <= s.len(),
    ensures
        match find_from(s, seq![c], from) {
            Some(i) => from <= i < s.len() && s[i] == c && forall|k: int| from <= k < i ==> s[k] != c,
            None => forall|k: int| from <= k < s.len() ==> s[k] != c,
        },
    decreases s.len() - from,
{
    if from + 1 <= s.len() {
        if s.subrange(from, from + 1) == seq![c] {
            assert(s[from] == s.subrange(from, from + 1)[0]);
        } else {
            assert(s[from] != c) by {
                if s[from] == c {
                    assert(s.subrange(from, from + 1) =~= seq![c]);
                }
            }
            lemma_find_char(s, c, from + 1);
        }
    }
}

/// The lines of `s` (see `lines`).
pub fn split_lines(s: &Vec<char>) -> (r: Vec<Vec<char>>)
    ensures
        r@.map_values(|l: Vec<char>| l@) == lines(s@),
{
    let mut result: Vec<Vec<char>> = Vec::new();
    let mut start: usize = 0;
    assert(s@.subrange(0, s@.len() as int) =~= s@);
    assert(result@.map_values(|l: Vec<char>| l@) =~= Seq::<Seq<char>>::empty());
    while start < s.len()
        invariant
            start <= s@.len(),
            lines(s@) == result@.map_values(|l: Vec<char>| l@) + lines(s@.subrange(start as int, s@.len() as int)),
        decreases s.len() - start,
    {
        let ghost rest = s@.subrange(start as int, s@.len() as int);
        let mut end: usize = start;
        while end < s.len() && s[end] != '\n'
            invariant
                start <= end <= s@.len(),
                forall|k: int| start <= k < end ==> s@[k] != '\n',
            decreases s.len() - end,
        {
            end = end + 1;
        }
        proof {
            lemma_find_char(rest, '\n', 0);
        }
        let mut line: Vec<char> = Vec::new();
        let mut i: usize = start;
        while i < end
            invariant
                start <= i <= end <= s@.len(),
                line@ == s@.subrange(start as int, i as int),
            decreases end - i,
        {
            line.push(s[i]);
            assert(line@ =~= s@.subrange(start as int, i + 1));
            i = i + 1;
        }
        if end < s.len() {
            assert(find(rest, seq!['\n']) == Some((end - start) as int)) by {
                match find(rest, seq!['\n']) {
                    Some(j) => {
                        if j < end - start {
                            assert(rest[j] == s@[start + j]);
                        } else if j > end - start {
                            assert(rest[end - start] == s@[end as int]);
                        }
                    },
                    None => {
                        assert(rest[end - start] == s@[end as int]);
                    },
                }
            }
            if line.len() > 0 && line[line.len() - 1] == '\r' {
                line.pop();
            }
            assert(rest.subrange(0, end - start) =~= s@.subrange(start as int, end as int));
            assert(rest.subrange(end - start + 1, rest.len() as int) =~= s@.subrange(end + 1, s@.len() as int));
            let ghost before = result@.map_values(|l: Vec<char>| l@);
            result.push(line);
            assert(result@.map_values(|l: Vec<char>| l@) =~= before.push(without_cr(rest.subrange(0, end - start))));
            assert(lines(rest) =~= seq![without_cr(rest.subrange(0, end - start))] + lines(
                rest.subrange(end - start + 1, rest.len() as int),
            ));
            start = end + 1;
        } else {
            assert(find(rest, seq!['\n']) is None) by {
                match find(rest, seq!['\n']) {
                    Some(j) => {
                        assert(rest[j] == s@[start + j]);
                    },
                    None => {},
                }
            }
            assert(line@ =~= rest);
            let ghost before = result@.map_values(|l: Vec<char>| l@);
            result.push(line);
            assert(result@.map_values(|l: Vec<char>| l@) =~= before.push(rest));
            assert(s@.subrange(s@.len() as int, s@.len() as int) =~= Seq::<char>::empty());
            start = end;
        }
    }
    assert(s@.subrange(start as int, s@.len() as int) =~= Seq::<char>::empty());
    assert(lines(Seq::<char>::empty()) =~= Seq::<Seq<char>>::empty());
    assert(lines(s@) =~= result@.map_values(|l: Vec<char>| l@));
    result
}

} // verus!
