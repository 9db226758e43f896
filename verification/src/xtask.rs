//! The build tool's own logic: reading the core count out of the kernel's
//! source, the QEMU SMP argument, stripping terminal colours from logs, the
//! core and process tags of log lines and the per-core and per-process logs,
//! finding and selecting test kernels, tallying their results, and splitting
//! its command line.

use vstd::prelude::*;
use vstd::slice::slice_subrange;
use vstd::string::StringExecFns;
use crate::text::{
    all_digits, chars_of, char_is_white_space, decimal, digits_value, find, find_chars, is_alpha, is_digit,
    is_white_space, split_words, words, picks, is_subsequence,
    lines, push_char, push_decimal, split_lines, starts_with, chars_start_with, string_from_chars, trim,
    trim_chars,
};

verus! {

/// What Rust's `str::parse` gives for an unsigned integer type whose largest
/// value is `max`: an optional `+`, then one or more ASCII digits, with a value
/// of at most `max`.
pub open spec fn parse_unsigned(s: Seq<char>, max: nat) -> Option<nat> {
    let digits = if s.len() > 0 && s[0] == '+' { s.drop_first() } else { s };
    if digits.len() > 0 && all_digits(digits) && digits_value(digits) <= max {
        Some(digits_value(digits))
    } else {
        None
    }
}

proof fn lemma_digits_value_push(s: Seq<char>, c: char)
    ensures
        digits_value(s.push(c)) == digits_value(s) * 10 + (c as nat - '0' as nat) as nat,
{
    assert(s.push(c).drop_last() =~= s);
}

proof fn lemma_digits_prefix_grows(s: Seq<char>, k: int)
    requires
        0 <= k <= s.len(),
    ensures
        all_digits(s) ==> digits_value(s.subrange(0, k)) <= digits_value(s),
    decreases s.len(),
{
    if k < s.len() && all_digits(s) {
        let t = s.drop_last();
        assert(all_digits(t)) by {
            assert forall|i: int| 0 <= i < t.len() implies #[trigger] is_digit(t[i]) by {
                assert(is_digit(s[i]));
            }
        }
        lemma_digits_prefix_grows(t, k);
        assert(t.subrange(0, k) =~= s.subrange(0, k));
        assert(is_digit(s[s.len() - 1]));
    } else if k == s.len() {
        assert(s.subrange(0, k) =~= s);
    }
}

/// The value of the characters `v[lo..hi]` read as an unsigned integer of
/// largest value `max`, as `str::parse` reads it.
pub fn parse_unsigned_range(v: &Vec<char>, lo: usize, hi: usize, max: u64) -> (r: Option<u64>)
    requires
        lo <= hi <= v@.len(),
    ensures
        match parse_unsigned(v@.subrange(lo as int, hi as int), max as nat) {
            Some(n) => r == Some(n as u64),
            None => r is None,
        },
{
    let ghost s = v@.subrange(lo as int, hi as int);
    let mut start = lo;
    if lo < hi && v[lo] == '+' {
        start = lo + 1;
    }
    let ghost digits = v@.subrange(start as int, hi as int);
    assert(digits =~= (if s.len() > 0 && s[0] == '+' { s.drop_first() } else { s }));
    if start == hi {
        return None;
    }
    let mut value: u64 = 0;
    let mut i = start;
    assert(v@.subrange(start as int, start as int) =~= Seq::<char>::empty());
    while i < hi
        invariant
            lo <= start < hi <= v@.len(),
            start <= i <= hi,
            s == v@.subrange(lo as int, hi as int),
            digits == (if s.len() > 0 && s[0] == '+' { s.drop_first() } else { s }),
            digits.len() > 0,
            digits == v@.subrange(start as int, hi as int),
            all_digits(v@.subrange(start as int, i as int)),
            value as nat == digits_value(v@.subrange(start as int, i as int)),
            value <= max,
        decreases hi - i,
    {
        let c = v[i];
        if !('0' <= c && c <= '9') {
            assert(digits[i - start] == c);
            assert(!is_digit(digits[i - start]));
            return None;
        }
        let d = (c as u32 - '0' as u32) as u64;
        proof {
            lemma_digits_value_push(v@.subrange(start as int, i as int), c);
            assert(v@.subrange(start as int, i + 1) =~= v@.subrange(start as int, i as int).push(c));
        }
        if d > max || value > (max - d) / 10 {
            proof {
                assert(value * 10 + d > max) by (nonlinear_arith)
                    requires
                        d > max || value > (max - d) / 10,
                ;
                lemma_digits_prefix_grows(digits, (i - start + 1) as int);
                assert(digits.subrange(0, (i - start + 1) as int) =~= v@.subrange(start as int, i + 1));
            }
            return None;
        }
        proof {
            assert(value * 10 + d <= max) by (nonlinear_arith)
                requires
                    value <= (max - d) / 10,
                    d <= max,
            ;
        }
        value = value * 10 + d;
        i = i + 1;
    }
    assert(v@.subrange(start as int, i as int) =~= digits);
    Some(value)
}


/// The ASCII digits of `s`, in order.
pub open spec fn digit_chars(s: Seq<char>) -> Seq<char>
    decreases s.len(),
{
    if s.len() == 0 {
        Seq::empty()
    } else if is_digit(s.last()) {
        digit_chars(s.drop_last()).push(s.last())
    } else {
        digit_chars(s.drop_last())
    }
}

/// The core count that a line of the kernel's source declares: a line that,
/// trimmed, starts with `pub const MAX_CORES` and holds an `=`, whose digits
/// after the first `=` read as a `u8` between 1 and 64.
pub open spec fn max_cores_decl(line: Seq<char>) -> Option<nat> {
    let t = trim(line);
    if starts_with(t, "pub const MAX_CORES"@) {
        match find(t, seq!['=']) {
            Some(eq) => match parse_unsigned(digit_chars(t.subrange(eq + 1, t.len() as int)), 255) {
                Some(v) => if 1 <= v && v <= 64 {
                    Some(v)
                } else {
                    None
                },
                None => None,
            },
            None => None,
        }
    } else {
        None
    }
}

/// The core count of the first line that declares one, or 4.
pub open spec fn max_cores_of_lines(lines: Seq<Seq<char>>) -> nat
    decreases lines.len(),
{
    if lines.len() == 0 {
        4
    } else {
        match max_cores_decl(lines[0]) {
            Some(v) => v,
            None => max_cores_of_lines(lines.drop_first()),
        }
    }
}

fn digits_after(t: &Vec<char>, from: usize) -> (r: Vec<char>)
    requires
        from <= t@.len(),
    ensures
        r@ == digit_chars(t@.subrange(from as int, t@.len() as int)),
{
    let mut out: Vec<char> = Vec::new();
    let mut j = from;
    assert(t@.subrange(from as int, from as int) =~= Seq::<char>::empty());
    while j < t.len()
        invariant
            from <= j <= t@.len(),
            out@ == digit_chars(t@.subrange(from as int, j as int)),
        decreases t.len() - j,
    {
        let c = t[j];
        assert(t@.subrange(from as int, j + 1).drop_last() =~= t@.subrange(from as int, j as int));
        if '0' <= c && c <= '9' {
            out.push(c);
        }
        j = j + 1;
    }
    out
}

fn max_cores_in_line(line: &Vec<char>) -> (r: Option<u8>)
    ensures
        match max_cores_decl(line@) {
            Some(v) => r == Some(v as u8),
            None => r is None,
        },
{
    let t = trim_chars(line);
    let prefix = chars_of("pub const MAX_CORES");
    if !chars_start_with(&t, &prefix) {
        return None;
    }
    let eq_sign = chars_of("=");
    assert(eq_sign@ =~= seq!['=']) by {
        reveal_strlit("=");
    }
    match find_chars(&t, &eq_sign) {
        None => None,
        Some(eq) => {
            proof {
                lemma_find_in_bounds(t@, eq_sign@, 0);
                assert(find(t@, eq_sign@) == Some(eq as int));
                assert(eq + 1 <= t@.len());
            }
            let n = t.len();
            assert(eq + 1 <= n);
            let digits = digits_after(&t, eq + 1);
            match parse_unsigned_range(&digits, 0, digits.len(), 255) {
                Some(v) => {
                    assert(digits@.subrange(0, digits@.len() as int) =~= digits@);
                    if 1 <= v && v <= 64 {
                        Some(v as u8)
                    } else {
                        None
                    }
                },
                None => {
                    assert(digits@.subrange(0, digits@.len() as int) =~= digits@);
                    None
                },
            }
        },
    }
}

proof fn lemma_find_in_bounds(s: Seq<char>, p: Seq<char>, from: int)
    ensures
        match crate::text::find_from(s, p, from) {
            Some(i) => from <= i && i + p.len() <= s.len() && s.subrange(i, i + p.len()) == p,
            None => true,
        },
    decreases s.len() + 1 - from,
{
    if from >= 0 && from + p.len() <= s.len() && s.subrange(from, from + p.len()) != p {
        lemma_find_in_bounds(s, p, from + 1);
    }
}

/// The number of cores that the kernel's source (`kernel/src/lib.rs`) declares
/// in `MAX_CORES`, or 4 when no line declares a count between 1 and 64.
pub fn kernel_max_cores(source: &str) -> (r: u8)
    ensures
        r == max_cores_of_lines(lines(source@)),
{
    let text = chars_of(source);
    let all = split_lines(&text);
    let ghost ls = lines(source@);
    let mut k: usize = 0;
    assert(ls.subrange(0, ls.len() as int) =~= ls);
    while k < all.len()
        invariant
            all@.map_values(|l: Vec<char>| l@) == ls,
            ls == lines(source@),
            k <= all@.len(),
            max_cores_of_lines(ls) == max_cores_of_lines(ls.subrange(k as int, ls.len() as int)),
        decreases all.len() - k,
    {
        assert(ls[k as int] == all@[k as int]@);
        let ghost rest = ls.subrange(k as int, ls.len() as int);
        assert(rest[0] == ls[k as int]);
        assert(rest.drop_first() =~= ls.subrange(k + 1, ls.len() as int));
        match max_cores_in_line(&all[k]) {
            Some(v) => {
                assert(max_cores_of_lines(rest) == max_cores_decl(rest[0])->0);
                assert(max_cores_decl(rest[0])->0 <= 64);
                return v;
            },
            None => {},
        }
        k = k + 1;
    }
    4
}

proof fn lemma_digit_chars_append_digits(pre: Seq<char>, d: Seq<char>)
    requires
        all_digits(d),
    ensures
        digit_chars(pre + d) == digit_chars(pre) + d,
    decreases d.len(),
{
    if d.len() == 0 {
        assert(pre + d =~= pre);
        assert(digit_chars(pre) + d =~= digit_chars(pre));
    } else {
        let init = d.drop_last();
        assert(all_digits(init)) by {
            assert forall|i: int| 0 <= i < init.len() implies #[trigger] is_digit(init[i]) by {
                assert(init[i] == d[i]);
            }
        }
        lemma_digit_chars_append_digits(pre, init);
        assert((pre + d).drop_last() =~= pre + init);
        assert((pre + d).last() == d.last());
        assert(is_digit(d[d.len() - 1]));
        assert(digit_chars(pre) + d =~= (digit_chars(pre) + init).push(d.last()));
    }
}

/// The build tool reads back the core count that the kernel declares: the
/// line `pub const MAX_CORES: u8 = N;`, indented by any white space, with `N`
/// between 1 and 64, declares `N` cores.
pub proof fn lemma_declared_core_count_read(indent: Seq<char>, n: u8)
    requires
        1 <= n <= 64,
        forall|k: int| 0 <= k < indent.len() ==> is_white_space(#[trigger] indent[k]),
    ensures
        max_cores_decl(indent + "pub const MAX_CORES: u8 = "@ + decimal(n as nat) + ";"@) == Some(n as nat),
{
    reveal_strlit("pub const MAX_CORES: u8 = ");
    reveal_strlit(";");
    reveal_strlit("pub const MAX_CORES");
    let head = "pub const MAX_CORES: u8 = "@;
    let d = decimal(n as nat);
    crate::text::lemma_decimal_digits(n as nat);
    let decl = head + d + ";"@;
    let line = indent + head + d + ";"@;
    assert(line =~= indent + decl);
    assert(decl[0] == 'p');
    crate::text::lemma_trim_start_of_indented(indent, decl);
    assert(decl.last() == ';');
    assert(decl.drop_last() =~= head + d);
    assert(trim(line) == decl);
    assert(decl.subrange(0, 19) =~= "pub const MAX_CORES"@);
    crate::text::lemma_find_char(decl, '=', 0);
    assert(decl[24] == '=');
    assert forall|k: int| 0 <= k < 24 implies decl[k] != '=' by {
        assert(decl[k] == head[k]);
    }
    assert(find(decl, seq!['=']) == Some(24int));
    let after = decl.subrange(25, decl.len() as int);
    assert(after =~= seq![' '] + d + seq![';']);
    lemma_digit_chars_append_digits(seq![' '], d);
    assert((seq![' '] + d + seq![';']).drop_last() =~= seq![' '] + d);
    assert(digit_chars(seq![' ']) =~= Seq::<char>::empty()) by {
        let e = Seq::<char>::empty();
        assert(seq![' '].drop_last() =~= e);
        assert(digit_chars(e) == e);
        assert(seq![' '].last() == ' ');
    }
    assert(digit_chars(after) =~= d);
    assert(d[0] != '+') by {
        assert(is_digit(d[0]));
    }
}

/// The SMP argument that QEMU is given for `cores` cores of one thread each.
pub open spec fn smp_arg(cores: u8) -> Seq<char> {
    "cores="@ + decimal(cores as nat) + ",threads=1"@
}

/// The SMP argument that QEMU is given for `cores` cores of one thread each.
pub fn qemu_smp_arg(cores: u8) -> (r: String)
    ensures
        r@ == smp_arg(cores),
{
    let mut s = String::from_str("cores=");
    push_decimal(&mut s, cores as u64);
    s.append(",threads=1");
    s
}


/// The escape character that starts a terminal control sequence.
pub open spec fn esc() -> char {
    '\x1b'
}

/// The position right after the first ASCII letter at or after `j` (a control
/// sequence ends with its first letter), or the end of `s` when none follows.
pub open spec fn sequence_end(s: Seq<char>, j: int) -> int
    decreases s.len() - j,
{
    if j >= s.len() {
        s.len() as int
    } else if is_alpha(s[j]) {
        j + 1
    } else {
        sequence_end(s, j + 1)
    }
}

proof fn lemma_sequence_end_bounds(s: Seq<char>, j: int)
    requires
        0 <= j <= s.len(),
    ensures
        j <= sequence_end(s, j) <= s.len(),
    decreases s.len() - j,
{
    if j < s.len() && !is_alpha(s[j]) {
        lemma_sequence_end_bounds(s, j + 1);
    }
}

/// `s` from position `i` on, without its terminal control sequences: each
/// escape character followed by `[` is dropped together with everything up to
/// and including the next ASCII letter.
pub open spec fn strip_ansi_from(s: Seq<char>, i: int) -> Seq<char>
    decreases s.len() - i,
{
    if i < 0 || i >= s.len() {
        Seq::empty()
    } else if s[i] == esc() && i + 1 < s.len() && s[i + 1] == '[' {
        let next = sequence_end(s, i + 2);
        if i < next <= s.len() {
            strip_ansi_from(s, next)
        } else {
            Seq::empty()
        }
    } else {
        seq![s[i]] + strip_ansi_from(s, i + 1)
    }
}

/// `s` without its terminal control sequences (colours and the like).
pub open spec fn ansi_stripped(s: Seq<char>) -> Seq<char> {
    strip_ansi_from(s, 0)
}

/// `s` without its terminal control sequences (see `ansi_stripped`).
pub fn strip_ansi(s: &str) -> (r: String)
    ensures
        r@ == ansi_stripped(s@),
{
    let v = chars_of(s);
    let n = v.len();
    let mut out: Vec<char> = Vec::new();
    let mut i: usize = 0;
    while i < n
        invariant
            n == v@.len(),
            i <= n,
            ansi_stripped(v@) == out@ + strip_ansi_from(v@, i as int),
        decreases n - i,
    {
        let c = v[i];
        if c == '\x1b' && i + 1 < n && v[i + 1] == '[' {
            let mut j = i + 2;
            while j < n && !(('a' <= v[j] && v[j] <= 'z') || ('A' <= v[j] && v[j] <= 'Z'))
                invariant
                    n == v@.len(),
                    i + 2 <= j <= n,
                    sequence_end(v@, i + 2) == sequence_end(v@, j as int),
                decreases n - j,
            {
                j = j + 1;
            }
            let next = if j < n { j + 1 } else { n };
            proof {
                lemma_sequence_end_bounds(v@, i + 2);
            }
            assert(next == sequence_end(v@, i + 2));
            i = next;
        } else {
            out.push(c);
            assert(out@ + strip_ansi_from(v@, i + 1) =~= out@.drop_last() + (seq![c] + strip_ansi_from(v@, i + 1)));
            i = i + 1;
        }
    }
    assert(out@ =~= out@ + Seq::<char>::empty());
    string_from_chars(&out)
}

proof fn lemma_sequence_end_shift(a: Seq<char>, b: Seq<char>, j: int)
    requires
        a.len() <= j <= a.len() + b.len(),
    ensures
        sequence_end(a + b, j) == a.len() + sequence_end(b, j - a.len()),
    decreases a.len() + b.len() - j,
{
    let s = a + b;
    if j < s.len() {
        assert(s[j] == b[j - a.len()]);
        if !is_alpha(s[j]) {
            lemma_sequence_end_shift(a, b, j + 1);
        }
    }
}

proof fn lemma_strip_from_shift(a: Seq<char>, b: Seq<char>, i: int)
    requires
        a.len() <= i <= a.len() + b.len(),
    ensures
        strip_ansi_from(a + b, i) == strip_ansi_from(b, i - a.len()),
    decreases a.len() + b.len() - i,
{
    let s = a + b;
    let k = i - a.len();
    if i < s.len() {
        assert(s[i] == b[k]);
        if i + 1 < s.len() {
            assert(s[i + 1] == b[k + 1]);
        }
        if s[i] == esc() && i + 1 < s.len() && s[i + 1] == '[' {
            lemma_sequence_end_shift(a, b, i + 2);
            lemma_sequence_end_bounds(b, k + 2);
            lemma_strip_from_shift(a, b, sequence_end(s, i + 2));
        } else {
            lemma_strip_from_shift(a, b, i + 1);
        }
    }
}

proof fn lemma_plain_prefix(plain: Seq<char>, rest: Seq<char>, i: int)
    requires
        0 <= i <= plain.len(),
        forall|k: int| 0 <= k < plain.len() ==> plain[k] != esc(),
    ensures
        strip_ansi_from(plain + rest, i) == plain.subrange(i, plain.len() as int) + strip_ansi_from(
            plain + rest,
            plain.len() as int,
        ),
    decreases plain.len() - i,
{
    let s = plain + rest;
    if i < plain.len() {
        assert(s[i] == plain[i]);
        lemma_plain_prefix(plain, rest, i + 1);
        assert(plain.subrange(i, plain.len() as int) =~= seq![plain[i]] + plain.subrange(i + 1, plain.len() as int));
    } else {
        assert(plain.subrange(i, plain.len() as int) =~= Seq::<char>::empty());
    }
}

/// Stripping leaves text without escape characters as it is, also in front
/// of what follows it.
pub proof fn lemma_plain_text_kept(plain: Seq<char>, rest: Seq<char>)
    requires
        forall|k: int| 0 <= k < plain.len() ==> plain[k] != esc(),
    ensures
        ansi_stripped(plain + rest) == plain + ansi_stripped(rest),
        ansi_stripped(plain) == plain,
{
    lemma_plain_prefix(plain, rest, 0);
    lemma_strip_from_shift(plain, rest, plain.len() as int);
    assert(plain.subrange(0, plain.len() as int) =~= plain);
    lemma_plain_prefix(plain, Seq::empty(), 0);
    lemma_strip_from_shift(plain, Seq::empty(), plain.len() as int);
    assert(plain + Seq::<char>::empty() =~= plain);
}

proof fn lemma_sequence_end_at_letter(s: Seq<char>, from: int, letter: int, j: int)
    requires
        0 <= from <= j <= letter < s.len(),
        is_alpha(s[letter]),
        forall|k: int| from <= k < letter ==> !is_alpha(#[trigger] s[k]),
    ensures
        sequence_end(s, j) == letter + 1,
    decreases letter - j,
{
    if j < letter {
        lemma_sequence_end_at_letter(s, from, letter, j + 1);
    }
}

/// A control sequence, an escape character and `[` followed by characters
/// other than letters and ended by a letter (such as a colour code), is
/// dropped whole.
pub proof fn lemma_control_sequence_dropped(params: Seq<char>, last: char, rest: Seq<char>)
    requires
        forall|k: int| 0 <= k < params.len() ==> !is_alpha(#[trigger] params[k]),
        is_alpha(last),
    ensures
        ansi_stripped(seq![esc(), '['] + params + seq![last] + rest) == ansi_stripped(rest),
{
    let pre = seq![esc(), '['] + params + seq![last];
    let s = pre + rest;
    assert(seq![esc(), '['] + params + seq![last] + rest =~= s);
    let letter: int = params.len() as int + 2;
    assert(s[letter] == last);
    assert forall|k: int| 2 <= k < letter implies !is_alpha(#[trigger] s[k]) by {
        assert(s[k] == params[k - 2]);
    }
    lemma_sequence_end_at_letter(s, 2, letter, 2);
    assert(s[0] == esc() && s[1] == '[');
    lemma_strip_from_shift(pre, rest, pre.len() as int);
}

proof fn lemma_strip_from_no_longer(s: Seq<char>, i: int)
    requires
        0 <= i <= s.len(),
    ensures
        strip_ansi_from(s, i).len() <= s.len() - i,
    decreases s.len() - i,
{
    if i < s.len() {
        if s[i] == esc() && i + 1 < s.len() && s[i + 1] == '[' {
            lemma_sequence_end_bounds(s, i + 2);
            lemma_strip_from_no_longer(s, sequence_end(s, i + 2));
        } else {
            lemma_strip_from_no_longer(s, i + 1);
        }
    }
}

proof fn lemma_strip_from_picks(s: Seq<char>, i: int) -> (idx: Seq<int>)
    requires
        0 <= i <= s.len(),
    ensures
        picks(strip_ansi_from(s, i), s, idx),
        forall|k: int| 0 <= k < idx.len() ==> i <= #[trigger] idx[k],
    decreases s.len() - i,
{
    if i >= s.len() {
        Seq::empty()
    } else if s[i] == esc() && i + 1 < s.len() && s[i + 1] == '[' {
        lemma_sequence_end_bounds(s, i + 2);
        lemma_strip_from_picks(s, sequence_end(s, i + 2))
    } else {
        let rest = lemma_strip_from_picks(s, i + 1);
        let idx = seq![i] + rest;
        let r = strip_ansi_from(s, i);
        assert(r == seq![s[i]] + strip_ansi_from(s, i + 1));
        assert forall|k: int| 0 <= k < idx.len() implies 0 <= #[trigger] idx[k] < s.len() && s[idx[k]] == r[k] by {
            if k > 0 {
                assert(idx[k] == rest[k - 1]);
            }
        }
        assert forall|k: int, l: int| 0 <= k < l < idx.len() implies #[trigger] idx[k] < #[trigger] idx[l] by {
            assert(idx[l] == rest[l - 1]);
            if k > 0 {
                assert(idx[k] == rest[k - 1]);
            }
        }
        assert forall|k: int| 0 <= k < idx.len() implies i <= #[trigger] idx[k] by {
            if k > 0 {
                assert(idx[k] == rest[k - 1]);
            }
        }
        idx
    }
}

/// Stripping only leaves characters out: what comes back is a subsequence
/// of the text.
pub proof fn lemma_stripped_is_subsequence(s: Seq<char>)
    ensures
        is_subsequence(ansi_stripped(s), s),
{
    let idx = lemma_strip_from_picks(s, 0);
    assert(picks(ansi_stripped(s), s, idx));
}

proof fn lemma_strip_from_without_sequences(s: Seq<char>, i: int)
    requires
        0 <= i <= s.len(),
        forall|j: int| 0 <= j < s.len() - 1 ==> !(#[trigger] s[j] == esc() && s[j + 1] == '['),
    ensures
        strip_ansi_from(s, i) == s.subrange(i, s.len() as int),
    decreases s.len() - i,
{
    if i < s.len() {
        lemma_strip_from_without_sequences(s, i + 1);
        assert(s.subrange(i, s.len() as int) =~= seq![s[i]] + s.subrange(i + 1, s.len() as int));
    } else {
        assert(s.subrange(i, s.len() as int) =~= Seq::<char>::empty());
    }
}

/// A text in which no escape character is followed by `[` comes back unchanged.
pub proof fn lemma_text_without_sequences_kept(s: Seq<char>)
    requires
        forall|j: int| 0 <= j < s.len() - 1 ==> !(#[trigger] s[j] == esc() && s[j + 1] == '['),
    ensures
        ansi_stripped(s) == s,
{
    lemma_strip_from_without_sequences(s, 0);
    assert(s.subrange(0, s.len() as int) =~= s);
}

/// Stripping never makes a text longer.
pub proof fn lemma_stripped_no_longer(s: Seq<char>)
    ensures
        ansi_stripped(s).len() <= s.len(),
{
    lemma_strip_from_no_longer(s, 0);
}

/// The prefix with which the kernel tags a line printed by core `core_id`.
pub open spec fn core_tag(core_id: nat) -> Seq<char> {
    "[Core "@ + decimal(core_id) + "] "@
}

/// The position of the first character of `s` that is not an ASCII digit.
pub open spec fn first_non_digit(s: Seq<char>, from: int) -> Option<int>
    decreases s.len() - from,
{
    if from < 0 || from >= s.len() {
        None
    } else if !is_digit(s[from]) {
        Some(from)
    } else {
        first_non_digit(s, from + 1)
    }
}

/// The core id of a log line that starts with `[Core ` and a number: the digits
/// after the tag up to the first other character (there must be one), read as a `usize`.
pub open spec fn core_id_of(line: Seq<char>) -> Option<nat> {
    if starts_with(line, "[Core "@) {
        let rest = line.subrange(6, line.len() as int);
        match first_non_digit(rest, 0) {
            Some(end) => parse_unsigned(rest.subrange(0, end), usize::MAX as nat),
            None => None,
        }
    } else {
        None
    }
}

/// The core id of a log line (see `core_id_of`).
pub fn parse_core_id(line: &str) -> (r: Option<usize>)
    ensures
        match core_id_of(line@) {
            Some(n) => r == Some(n as usize),
            None => r is None,
        },
{
    let v = chars_of(line);
    core_id_in(&v)
}

fn core_id_in(v: &Vec<char>) -> (r: Option<usize>)
    ensures
        match core_id_of(v@) {
            Some(n) => r == Some(n as usize),
            None => r is None,
        },
{
    let tag = chars_of("[Core ");
    proof {
        reveal_strlit("[Core ");
    }
    if !chars_start_with(v, &tag) {
        return None;
    }
    let n = v.len();
    let ghost rest = v@.subrange(6, v@.len() as int);
    let mut end: usize = 6;
    while end < n && '0' <= v[end] && v[end] <= '9'
        invariant
            n == v@.len(),
            6 <= end <= n,
            rest == v@.subrange(6, v@.len() as int),
            first_non_digit(rest, 0) == first_non_digit(rest, end - 6),
        decreases n - end,
    {
        end = end + 1;
    }
    if end == n {
        return None;
    }
    let r = parse_unsigned_range(v, 6, end, usize::MAX as u64);
    assert(rest.subrange(0, end - 6) =~= v@.subrange(6, end as int));
    match r {
        Some(x) => Some(x as usize),
        None => None,
    }
}

/// The process id of a log line: the text between the first `[pid=` and the
/// next `]`, read as a `u32`.
pub open spec fn pid_of(line: Seq<char>) -> Option<nat> {
    match find(line, "[pid="@) {
        Some(start) => {
            let rest = line.subrange(start + 5, line.len() as int);
            match find(rest, "]"@) {
                Some(end) => parse_unsigned(rest.subrange(0, end), u32::MAX as nat),
                None => None,
            }
        },
        None => None,
    }
}

/// The process id of a log line (see `pid_of`).
pub fn parse_pid(line: &str) -> (r: Option<u32>)
    ensures
        match pid_of(line@) {
            Some(n) => r == Some(n as u32),
            None => r is None,
        },
{
    let v = chars_of(line);
    pid_in(&v)
}

fn pid_in(v: &Vec<char>) -> (r: Option<u32>)
    ensures
        match pid_of(v@) {
            Some(n) => r == Some(n as u32),
            None => r is None,
        },
{
    let tag = chars_of("[pid=");
    proof {
        reveal_strlit("[pid=");
    }
    match find_chars(v, &tag) {
        None => None,
        Some(start) => {
            proof {
                lemma_find_in_bounds(v@, tag@, 0);
            }
            let n = v.len();
            let mut rest: Vec<char> = Vec::new();
            let mut i = start + 5;
            while i < n
                invariant
                    n == v@.len(),
                    start + 5 <= i <= n,
                    rest@ == v@.subrange(start + 5, i as int),
                decreases n - i,
            {
                rest.push(v[i]);
                assert(rest@ =~= v@.subrange(start + 5, i + 1));
                i = i + 1;
            }
            let close = chars_of("]");
            match find_chars(&rest, &close) {
                None => None,
                Some(end) => {
                    proof {
                        lemma_find_in_bounds(rest@, close@, 0);
                    }
                    match parse_unsigned_range(&rest, 0, end, u32::MAX as u64) {
                        Some(x) => Some(x as u32),
                        None => None,
                    }
                },
            }
        },
    }
}


/// The texts of a list of arguments.
pub open spec fn arg_views(args: Seq<String>) -> Seq<Seq<char>> {
    args.map_values(|a: String| a@)
}

/// The position of the first `--` among the arguments.
pub open spec fn separator_position(args: Seq<Seq<char>>, from: int) -> Option<int>
    decreases args.len() - from,
{
    if from < 0 || from >= args.len() {
        None
    } else if args[from] == "--"@ {
        Some(from)
    } else {
        separator_position(args, from + 1)
    }
}

/// Splits the extra arguments at the first `--`: those before go to cargo,
/// those after to the linter; without `--`, all go to cargo.
pub fn split_extra(extra: &[String]) -> (r: (&[String], &[String]))
    ensures
        match separator_position(arg_views(extra@), 0) {
            Some(p) => r.0@ == extra@.subrange(0, p) && r.1@ == extra@.subrange(p + 1, extra@.len() as int),
            None => r.0@ == extra@ && r.1@ == Seq::<String>::empty(),
        },
{
    let sep = String::from_str("--");
    let n = extra.len();
    let mut i: usize = 0;
    while i < n
        invariant
            n == extra@.len(),
            i <= n,
            sep@ == "--"@,
            separator_position(arg_views(extra@), 0) == separator_position(arg_views(extra@), i as int),
        decreases n - i,
    {
        if extra[i] == sep {
            assert(arg_views(extra@)[i as int] == extra@[i as int]@);
            return (slice_subrange(extra, 0, i), slice_subrange(extra, i + 1, n));
        }
        assert(arg_views(extra@)[i as int] == extra@[i as int]@);
        i = i + 1;
    }
    assert(extra@.subrange(0, n as int) =~= extra@);
    (slice_subrange(extra, 0, n), slice_subrange(extra, n, n))
}

/// The flags with which the user programs are compiled: freestanding 64-bit
/// ELF code without the standard library, red zone or stack protector.
pub fn cflags() -> (r: Vec<&'static str>)
    ensures
        r@.map_values(|f: &'static str| f@) == seq![
            "--target=x86_64-unknown-elf"@, "-ffreestanding"@, "-nostdlib"@, "-nostdinc"@,
            "-fno-builtin"@, "-fno-stack-protector"@, "-fno-pie"@, "-mno-red-zone"@, "-m64"@,
            "-Wall"@, "-Wextra"@, "-I."@, "-g"@,
        ],
{
    let r = vec![
        "--target=x86_64-unknown-elf", "-ffreestanding", "-nostdlib", "-nostdinc",
        "-fno-builtin", "-fno-stack-protector", "-fno-pie", "-mno-red-zone", "-m64",
        "-Wall", "-Wextra", "-I.", "-g",
    ];
    assert(r@.map_values(|f: &'static str| f@) =~= seq![
        "--target=x86_64-unknown-elf"@, "-ffreestanding"@, "-nostdlib"@, "-nostdinc"@,
        "-fno-builtin"@, "-fno-stack-protector"@, "-fno-pie"@, "-mno-red-zone"@, "-m64"@,
        "-Wall"@, "-Wextra"@, "-I."@, "-g"@,
    ]);
    r
}

/// The path of the kernel binary under the workspace root, as its components.
pub fn kernel_bin(release: bool) -> (r: Vec<&'static str>)
    ensures
        r@.map_values(|c: &'static str| c@) == seq![
            "target"@,
            "x86_64-unknown-none"@,
            if release { "release"@ } else { "debug"@ },
            "kernel"@,
        ],
{
    let profile_dir = if release { "release" } else { "debug" };
    let r = vec!["target", "x86_64-unknown-none", profile_dir, "kernel"];
    assert(r@.map_values(|c: &'static str| c@) =~= seq![
        "target"@,
        "x86_64-unknown-none"@,
        if release { "release"@ } else { "debug"@ },
        "kernel"@,
    ]);
    r
}

/// The tasks of the build tool.
#[derive(Clone, Copy, Debug, PartialEq, Eq, Structural)]
pub enum Task {
    Build,
    Iso,
    Hdd,
    Run,
    RunHdd,
    RunFs,
    RunBios,
    Test,
    Fat32Image,
    Clean,
    Fmt,
    Clippy,
}

/// The task that the first command-line argument names: the ISO image when
/// there is none, and no task for a name the tool does not know.
pub open spec fn task_named(arg: Option<Seq<char>>) -> Option<Task> {
    match arg {
        None => Some(Task::Iso),
        Some(a) => if a == "build"@ {
            Some(Task::Build)
        } else if a == "iso"@ {
            Some(Task::Iso)
        } else if a == "hdd"@ {
            Some(Task::Hdd)
        } else if a == "run"@ {
            Some(Task::Run)
        } else if a == "run-hdd"@ {
            Some(Task::RunHdd)
        } else if a == "run-fs"@ {
            Some(Task::RunFs)
        } else if a == "run-bios"@ {
            Some(Task::RunBios)
        } else if a == "test"@ {
            Some(Task::Test)
        } else if a == "fat32-image"@ {
            Some(Task::Fat32Image)
        } else if a == "clean"@ {
            Some(Task::Clean)
        } else if a == "fmt"@ {
            Some(Task::Fmt)
        } else if a == "clippy"@ {
            Some(Task::Clippy)
        } else {
            None
        },
    }
}

/// The word with which the command line asks for a task, as the usage text lists it.
pub open spec fn task_word(t: Task) -> Seq<char> {
    match t {
        Task::Build => "build"@,
        Task::Iso => "iso"@,
        Task::Hdd => "hdd"@,
        Task::Run => "run"@,
        Task::RunHdd => "run-hdd"@,
        Task::RunFs => "run-fs"@,
        Task::RunBios => "run-bios"@,
        Task::Test => "test"@,
        Task::Fat32Image => "fat32-image"@,
        Task::Clean => "clean"@,
        Task::Fmt => "fmt"@,
        Task::Clippy => "clippy"@,
    }
}

/// Each task has its own word: the command-line argument `a` selects task
/// `t` exactly when `a` is `t`'s word, so distinct words give distinct tasks
/// and every task can be asked for; without an argument the ISO image is built.
pub proof fn lemma_task_words(a: Seq<char>, t: Task)
    ensures
        task_named(Some(a)) == Some(t) <==> a == task_word(t),
        task_named(None) == Some(Task::Iso),
{
    reveal_strlit("build");
    reveal_strlit("iso");
    reveal_strlit("hdd");
    reveal_strlit("run");
    reveal_strlit("run-hdd");
    reveal_strlit("run-fs");
    reveal_strlit("run-bios");
    reveal_strlit("test");
    reveal_strlit("fat32-image");
    reveal_strlit("clean");
    reveal_strlit("fmt");
    reveal_strlit("clippy");
    assert forall|x: Task, y: Task| x != y implies #[trigger] task_word(x) != #[trigger] task_word(y) by {
        let wx = task_word(x);
        let wy = task_word(y);
        assert(wx.len() != wy.len() || wx[0] != wy[0]);
    }
    assert(task_named(Some(a)) is Some ==> a == task_word(task_named(Some(a))->0));
}

fn text_is(v: &Vec<char>, name: &str) -> (r: bool)
    ensures
        r == (v@ == name@),
{
    let n = chars_of(name);
    if v.len() != n.len() {
        return false;
    }
    let mut i: usize = 0;
    while i < v.len()
        invariant
            v@.len() == n@.len(),
            n@ == name@,
            i <= v@.len(),
            forall|k: int| 0 <= k < i ==> v@[k] == n@[k],
        decreases v.len() - i,
    {
        if v[i] != n[i] {
            return false;
        }
        i = i + 1;
    }
    assert(v@ =~= n@);
    true
}

/// The task that the first command-line argument names (see `task_named`).
pub fn parse_task(arg: Option<&str>) -> (r: Option<Task>)
    ensures
        r == task_named(match arg {
            Some(a) => Some(a@),
            None => None,
        }),
{
    match arg {
        None => Some(Task::Iso),
        Some(a) => {
            let v = chars_of(a);
            if text_is(&v, "build") {
                Some(Task::Build)
            } else if text_is(&v, "iso") {
                Some(Task::Iso)
            } else if text_is(&v, "hdd") {
                Some(Task::Hdd)
            } else if text_is(&v, "run") {
                Some(Task::Run)
            } else if text_is(&v, "run-hdd") {
                Some(Task::RunHdd)
            } else if text_is(&v, "run-fs") {
                Some(Task::RunFs)
            } else if text_is(&v, "run-bios") {
                Some(Task::RunBios)
            } else if text_is(&v, "test") {
                Some(Task::Test)
            } else if text_is(&v, "fat32-image") {
                Some(Task::Fat32Image)
            } else if text_is(&v, "clean") {
                Some(Task::Clean)
            } else if text_is(&v, "fmt") {
                Some(Task::Fmt)
            } else if text_is(&v, "clippy") {
                Some(Task::Clippy)
            } else {
                None
            }
        },
    }
}

/// Where the build tool looks for an LLVM tool that it finds neither in the
/// environment nor on the path: `/usr/lib/llvm<version>/bin/<tool>`.
pub open spec fn llvm_tool_path(version: nat, tool: Seq<char>) -> Seq<char> {
    "/usr/lib/llvm"@ + decimal(version) + "/bin/"@ + tool
}

/// The places to look for `tool`, in order: the LLVM installations of
/// versions 30 down to 10.
pub fn llvm_tool_candidates(tool: &str) -> (r: Vec<String>)
    ensures
        r@.len() == 21,
        forall|i: int| 0 <= i < 21 ==> #[trigger] r@[i]@ == llvm_tool_path((30 - i) as nat, tool@),
{
    let mut paths: Vec<String> = Vec::new();
    let mut version: u64 = 30;
    while version >= 10
        invariant
            version <= 30,
            version >= 9,
            paths@.len() == 30 - version,
            forall|i: int| 0 <= i < paths@.len() ==> #[trigger] paths@[i]@ == llvm_tool_path((30 - i) as nat, tool@),
        decreases version,
    {
        let mut p = String::from_str("/usr/lib/llvm");
        push_decimal(&mut p, version);
        p.append("/bin/");
        p.append(tool);
        proof {
            reveal_strlit("/usr/lib/llvm");
            reveal_strlit("/bin/");
        }
        assert(p@ =~= llvm_tool_path(version as nat, tool@));
        paths.push(p);
        version = version - 1;
    }
    paths
}

/// The flags that the run commands pass to QEMU: the words of the
/// `QEMUFLAGS` setting, or of `-m 2G` when it is not set.
pub open spec fn qemu_flag_words(setting: Option<Seq<char>>) -> Seq<Seq<char>> {
    match setting {
        Some(s) => words(s),
        None => words("-m 2G"@),
    }
}

/// The flags that the run commands pass to QEMU (see `qemu_flag_words`).
pub fn qemu_flags(setting: Option<&str>) -> (r: Vec<String>)
    ensures
        arg_views(r@) == qemu_flag_words(match setting {
            Some(s) => Some(s@),
            None => None,
        }),
{
    let text = match setting {
        Some(s) => chars_of(s),
        None => chars_of("-m 2G"),
    };
    let split = split_words(&text);
    let mut flags: Vec<String> = Vec::new();
    let mut i: usize = 0;
    while i < split.len()
        invariant
            i <= split@.len(),
            arg_views(flags@) == split@.map_values(|w: Vec<char>| w@).subrange(0, i as int),
        decreases split.len() - i,
    {
        let f = string_from_chars(&split[i]);
        let ghost before = arg_views(flags@);
        flags.push(f);
        assert(arg_views(flags@) =~= before.push(split@[i as int]@));
        assert(split@.map_values(|w: Vec<char>| w@)[i as int] == split@[i as int]@);
        assert(arg_views(flags@) =~= split@.map_values(|w: Vec<char>| w@).subrange(0, i + 1));
        i = i + 1;
    }
    assert(split@.map_values(|w: Vec<char>| w@).subrange(0, i as int) =~= split@.map_values(|w: Vec<char>| w@));
    flags
}

/// QEMU's exit status when the kernel reports success (`(0x10 << 1) | 1`).
pub const TEST_SUCCESS_EXIT: i32 = 33;

/// QEMU's exit status when the kernel reports failure (`(0x11 << 1) | 1`).
pub const TEST_FAILED_EXIT: i32 = 35;

/// QEMU's exit status after an unexpected reset (with `-no-reboot`).
pub const UNEXPECTED_EXIT: i32 = 0;

/// Seconds that a test kernel may run before it is stopped.
pub const TEST_TIMEOUT_SECS: u32 = 15;

/// Whether a test run passed: QEMU exited with the kernel's success status.
pub fn test_passed(exit_code: Option<i32>) -> (r: bool)
    ensures
        r == (exit_code == Some(TEST_SUCCESS_EXIT)),
{
    match exit_code {
        Some(c) => c == TEST_SUCCESS_EXIT,
        None => false,
    }
}

/// The output of a test run: what QEMU printed on the first serial port, and,
/// when the log of the second serial port holds more than white space, a line
/// feed and that log.
pub open spec fn merged_serial(serial: Seq<char>, com2: Seq<char>) -> Seq<char> {
    if trim(com2).len() == 0 {
        serial
    } else {
        serial + seq!['\n'] + com2
    }
}

/// Appends the second serial port's log to a run's output (see `merged_serial`).
pub fn merge_serial_output(serial: String, com2: &str) -> (r: String)
    ensures
        r@ == merged_serial(serial@, com2@),
{
    let trimmed = trim_chars(&chars_of(com2));
    if trimmed.len() == 0 {
        serial
    } else {
        let mut out = serial;
        push_char(&mut out, '\n');
        out.append(com2);
        out
    }
}

/// The tests of a run that passed and those that failed, with their exit codes.
pub struct TestTally {
    pub passed: Vec<String>,
    pub failed: Vec<(String, Option<i32>)>,
}

/// The names of the failed tests of a tally, and their exit codes.
pub open spec fn failure_views(failed: Seq<(String, Option<i32>)>) -> Seq<(Seq<char>, Option<i32>)> {
    failed.map_values(|f: (String, Option<i32>)| (f.0@, f.1))
}

/// The tally of a run whose tests ended as `results` says, in order: the names
/// of those that exited with the success status, and the others with their codes.
pub open spec fn tally_of(results: Seq<(Seq<char>, Option<i32>)>) -> (Seq<Seq<char>>, Seq<(Seq<char>, Option<i32>)>)
    decreases results.len(),
{
    if results.len() == 0 {
        (Seq::empty(), Seq::empty())
    } else {
        let t = tally_of(results.drop_last());
        let last = results.last();
        if last.1 == Some(TEST_SUCCESS_EXIT) {
            (t.0.push(last.0), t.1)
        } else {
            (t.0, t.1.push(last))
        }
    }
}

impl TestTally {
    /// The tally of a run in which no test has ended yet.
    pub fn new() -> (r: TestTally)
        ensures
            arg_views(r.passed@) == tally_of(Seq::empty()).0,
            failure_views(r.failed@) == tally_of(Seq::empty()).1,
    {
        let r = TestTally { passed: Vec::new(), failed: Vec::new() };
        assert(arg_views(r.passed@) =~= Seq::empty());
        assert(failure_views(r.failed@) =~= Seq::empty());
        r
    }

    /// Counts a test that ended with `exit_code`; returns whether it passed.
    pub fn record(&mut self, name: String, exit_code: Option<i32>) -> (r: bool)
        ensures
            r == (exit_code == Some(TEST_SUCCESS_EXIT)),
            r ==> arg_views(final(self).passed@) == arg_views(old(self).passed@).push(name@)
                && failure_views(final(self).failed@) == failure_views(old(self).failed@),
            !r ==> arg_views(final(self).passed@) == arg_views(old(self).passed@)
                && failure_views(final(self).failed@) == failure_views(old(self).failed@).push((name@, exit_code)),
    {
        let ghost name_view = name@;
        if test_passed(exit_code) {
            self.passed.push(name);
            assert(arg_views(self.passed@) =~= arg_views(old(self).passed@).push(name_view));
            true
        } else {
            self.failed.push((name, exit_code));
            assert(failure_views(self.failed@) =~= failure_views(old(self).failed@).push((name_view, exit_code)));
            false
        }
    }

    /// Whether every test of the run passed.
    pub fn all_passed(&self) -> (r: bool)
        ensures
            r == (self.failed@.len() == 0),
    {
        self.failed.len() == 0
    }
}

/// A run passes exactly when every one of its tests exited with the kernel's
/// success status, and the tally keeps every test, once, in one of its lists.
pub proof fn lemma_tally_passes_iff_all_passed(results: Seq<(Seq<char>, Option<i32>)>)
    ensures
        (tally_of(results).1.len() == 0) <==> (forall|i: int|
            0 <= i < results.len() ==> #[trigger] results[i].1 == Some(TEST_SUCCESS_EXIT)),
        tally_of(results).0.len() + tally_of(results).1.len() == results.len(),
    decreases results.len(),
{
    if results.len() > 0 {
        let init = results.drop_last();
        lemma_tally_passes_iff_all_passed(init);
        if tally_of(results).1.len() == 0 {
            assert forall|i: int| 0 <= i < results.len() implies #[trigger] results[i].1 == Some(TEST_SUCCESS_EXIT) by {
                if i < results.len() - 1 {
                    assert(results[i] == init[i]);
                }
            }
        }
        if forall|i: int| 0 <= i < results.len() ==> #[trigger] results[i].1 == Some(TEST_SUCCESS_EXIT) {
            assert forall|i: int| 0 <= i < init.len() implies #[trigger] init[i].1 == Some(TEST_SUCCESS_EXIT) by {
                assert(results[i] == init[i]);
            }
            assert(results[results.len() - 1].1 == Some(TEST_SUCCESS_EXIT));
        }
    }
}

/// The decimal text of a signed number.
pub open spec fn signed_decimal(n: int) -> Seq<char> {
    if n < 0 {
        seq!['-'] + decimal((-n) as nat)
    } else {
        decimal(n as nat)
    }
}

fn push_signed(s: &mut String, n: i32)
    ensures
        final(s)@ == old(s)@ + signed_decimal(n as int),
{
    if n < 0 {
        push_char(s, '-');
        let m: u64 = (0i64 - n as i64) as u64;
        push_decimal(s, m);
        assert(final(s)@ =~= old(s)@ + signed_decimal(n as int)) by {
            assert(s@ =~= old(s)@ + (seq!['-'] + decimal((-n) as nat)));
        }
    } else {
        push_decimal(s, n as u64);
    }
}

/// How a failed test run's exit is described.
pub open spec fn exit_description(exit_code: Option<i32>) -> Seq<char> {
    match exit_code {
        None => "none (timeout)"@,
        Some(c) => if c == UNEXPECTED_EXIT {
            signed_decimal(c as int) + " (unexpected exit)"@
        } else if c == TEST_FAILED_EXIT {
            signed_decimal(c as int) + " (kernel reported failure)"@
        } else {
            signed_decimal(c as int)
        },
    }
}

/// How a failed test run's exit is described (see `exit_description`).
pub fn describe_exit_code(exit_code: Option<i32>) -> (r: String)
    ensures
        r@ == exit_description(exit_code),
{
    match exit_code {
        None => String::from_str("none (timeout)"),
        Some(c) => {
            let mut s = String::new();
            push_signed(&mut s, c);
            if c == UNEXPECTED_EXIT {
                s.append(" (unexpected exit)");
            } else if c == TEST_FAILED_EXIT {
                s.append(" (kernel reported failure)");
            }
            s
        },
    }
}

/// Whether `pattern` occurs somewhere in `s` (std's `str::contains`).
pub open spec fn contains_text(s: Seq<char>, pattern: Seq<char>) -> bool {
    find(s, pattern) is Some
}

/// Whether some filter occurs in `name`.
pub open spec fn matches_any(name: Seq<char>, filters: Seq<Seq<char>>) -> bool {
    exists|i: int| 0 <= i < filters.len() && #[trigger] contains_text(name, filters[i])
}

/// The test binaries that a `test` run selects: all of them without filters,
/// else those whose name contains one of the filters, in their order.
pub open spec fn selected_tests(names: Seq<Seq<char>>, filters: Seq<Seq<char>>) -> Seq<Seq<char>> {
    if filters.len() == 0 {
        names
    } else {
        names.filter(|n: Seq<char>| matches_any(n, filters))
    }
}

fn matches_some_filter(name: &String, filters: &Vec<String>) -> (r: bool)
    ensures
        r == matches_any(name@, arg_views(filters@)),
{
    let v = chars_of(name.as_str());
    let mut i: usize = 0;
    while i < filters.len()
        invariant
            i <= filters@.len(),
            v@ == name@,
            forall|k: int| 0 <= k < i ==> !#[trigger] contains_text(name@, arg_views(filters@)[k]),
        decreases filters.len() - i,
    {
        let f = chars_of(filters[i].as_str());
        if find_chars(&v, &f).is_some() {
            assert(contains_text(name@, arg_views(filters@)[i as int]));
            return true;
        }
        i = i + 1;
    }
    false
}

/// The test binaries that a `test` run selects (see `selected_tests`).
pub fn select_tests(names: Vec<String>, filters: &Vec<String>) -> (r: Vec<String>)
    ensures
        arg_views(r@) == selected_tests(arg_views(names@), arg_views(filters@)),
{
    if filters.len() == 0 {
        return names;
    }
    let ghost pred = |n: Seq<char>| matches_any(n, arg_views(filters@));
    let mut out: Vec<String> = Vec::new();
    assert(arg_views(names@).subrange(0, 0).filter(pred) =~= Seq::<Seq<char>>::empty()) by {
        reveal(Seq::filter);
    }
    let mut i: usize = 0;
    while i < names.len()
        invariant
            i <= names@.len(),
            filters@.len() > 0,
            pred == (|n: Seq<char>| matches_any(n, arg_views(filters@))),
            arg_views(out@) == arg_views(names@).subrange(0, i as int).filter(pred),
        decreases names.len() - i,
    {
        let ghost before = arg_views(out@);
        let ghost s1 = arg_views(names@).subrange(0, i + 1);
        assert(s1.drop_last() =~= arg_views(names@).subrange(0, i as int));
        assert(s1.last() == names@[i as int]@);
        let keep = matches_some_filter(&names[i], filters);
        assert(keep == pred(s1.last()));
        assert(s1.filter(pred) == (if pred(s1.last()) {
            s1.drop_last().filter(pred).push(s1.last())
        } else {
            s1.drop_last().filter(pred)
        })) by {
            reveal(Seq::filter);
        }
        if keep {
            out.push(names[i].clone());
            assert(arg_views(out@) =~= before.push(names@[i as int]@));
        }
        i = i + 1;
    }
    assert(arg_views(names@).subrange(0, names@.len() as int) =~= arg_views(names@));
    out
}


/// Whether a log line belongs to the log of core `core`.
pub open spec fn is_core_line(line: Seq<char>, core: nat) -> bool {
    starts_with(line, "[Core "@) && core_id_of(line) == Some(core)
}

/// The lines of the log of core `core`, in order.
pub open spec fn core_log(lines: Seq<Seq<char>>, core: nat) -> Seq<Seq<char>>
    decreases lines.len(),
{
    if lines.len() == 0 {
        Seq::empty()
    } else {
        let prev = core_log(lines.drop_last(), core);
        if is_core_line(lines.last(), core) {
            prev.push(lines.last())
        } else {
            prev
        }
    }
}

/// The tag with which a line of process `pid` is marked.
pub open spec fn pid_tag(pid: nat) -> Seq<char> {
    "[pid="@ + decimal(pid) + "]"@
}

/// `s` with the first occurrence of `pattern` removed.
pub open spec fn remove_first(s: Seq<char>, pattern: Seq<char>) -> Seq<char> {
    match find(s, pattern) {
        Some(i) => s.subrange(0, i) + s.subrange(i + pattern.len(), s.len() as int),
        None => s,
    }
}

/// A line of process `pid` as its log keeps it: without its tag, trimmed.
pub open spec fn cleaned_pid_line(line: Seq<char>, pid: nat) -> Seq<char> {
    trim(remove_first(line, pid_tag(pid)))
}

/// The log of process `pid`: its lines, cleaned, in order.
pub open spec fn pid_log(lines: Seq<Seq<char>>, pid: nat) -> Seq<Seq<char>>
    decreases lines.len(),
{
    if lines.len() == 0 {
        Seq::empty()
    } else {
        let prev = pid_log(lines.drop_last(), pid);
        if pid_of(lines.last()) == Some(pid) {
            prev.push(cleaned_pid_line(lines.last(), pid))
        } else {
            prev
        }
    }
}

/// The processes that the lines name, in the order of their first line.
pub open spec fn pids_in_order(lines: Seq<Seq<char>>) -> Seq<nat>
    decreases lines.len(),
{
    if lines.len() == 0 {
        Seq::empty()
    } else {
        let prev = pids_in_order(lines.drop_last());
        match pid_of(lines.last()) {
            Some(p) => if prev.contains(p) {
                prev
            } else {
                prev.push(p)
            },
            None => prev,
        }
    }
}

/// The log of one process.
pub struct PidLog {
    pub pid: u32,
    pub lines: Vec<String>,
}

/// How the build tool splits a test's log: one log per core, one per process.
pub struct LogRouting {
    pub core_logs: Vec<Vec<String>>,
    pub pid_logs: Vec<PidLog>,
}

proof fn lemma_find_at_start(s: Seq<char>, p: Seq<char>)
    requires
        starts_with(s, p),
    ensures
        find(s, p) == Some(0int),
{
}

proof fn lemma_find_after_digits(s: Seq<char>, d: Seq<char>, k: int)
    requires
        0 <= k <= d.len(),
        all_digits(d),
        d.len() < s.len(),
        s.subrange(0, d.len() as int) == d,
        s[d.len() as int] == ']',
    ensures
        crate::text::find_from(s, seq![']'], k) == Some(d.len() as int),
    decreases d.len() - k,
{
    if k < d.len() {
        assert(s[k] == d[k]);
        assert(is_digit(d[k]));
        assert(s.subrange(k, k + 1)[0] == s[k]);
        lemma_find_after_digits(s, d, k + 1);
    } else {
        assert(s.subrange(k, k + 1) =~= seq![']']);
    }
}

/// The build tool reads back the process tag that starts a line: whatever
/// follows the tag `[pid=N]`, the line's process id is `N`, and the process's
/// log keeps the rest of the line, trimmed.
#[verifier::spinoff_prover]
pub proof fn lemma_pid_tag_parses(pid: u32, rest: Seq<char>)
    ensures
        pid_of(pid_tag(pid as nat) + rest) == Some(pid as nat),
        cleaned_pid_line(pid_tag(pid as nat) + rest, pid as nat) == trim(rest),
{
    reveal_strlit("[pid=");
    reveal_strlit("]");
    let d = decimal(pid as nat);
    crate::text::lemma_decimal_digits(pid as nat);
    let tag = pid_tag(pid as nat);
    let line = tag + rest;
    assert(line.subrange(0, 5) =~= "[pid="@);
    lemma_find_at_start(line, "[pid="@);
    let after = line.subrange(5, line.len() as int);
    assert(after =~= d + (seq![']'] + rest));
    assert(after.subrange(0, d.len() as int) =~= d);
    assert("]"@ =~= seq![']']);
    lemma_find_after_digits(after, d, 0);
    assert(after.subrange(0, d.len() as int) =~= d);
    assert(d[0] != '+') by {
        assert(is_digit(d[0]));
    }
    assert(line.subrange(0, tag.len() as int) =~= tag);
    lemma_find_at_start(line, tag);
    assert(line.subrange(0, 0) + line.subrange(tag.len() as int, line.len() as int) =~= rest);
}

fn remove_first_chars(s: &Vec<char>, pattern: &Vec<char>) -> (r: Vec<char>)
    ensures
        r@ == remove_first(s@, pattern@),
{
    match find_chars(s, pattern) {
        None => s.clone(),
        Some(at) => {
            proof {
                lemma_find_in_bounds(s@, pattern@, 0);
            }
            let mut out: Vec<char> = Vec::new();
            let mut i: usize = 0;
            while i < at
                invariant
                    at + pattern@.len() <= s@.len(),
                    i <= at,
                    out@ == s@.subrange(0, i as int),
                decreases at - i,
            {
                out.push(s[i]);
                assert(out@ =~= s@.subrange(0, i + 1));
                i = i + 1;
            }
            let n = s.len();
            assert(at + pattern@.len() <= n);
            let mut j: usize = at + pattern.len();
            while j < s.len()
                invariant
                    at + pattern@.len() <= j <= s@.len(),
                    out@ == s@.subrange(0, at as int) + s@.subrange(at + pattern@.len(), j as int),
                decreases s.len() - j,
            {
                out.push(s[j]);
                assert(out@ =~= s@.subrange(0, at as int) + s@.subrange(at + pattern@.len(), j + 1));
                j = j + 1;
            }
            out
        },
    }
}

fn pid_tag_chars(pid: u32) -> (r: Vec<char>)
    ensures
        r@ == pid_tag(pid as nat),
{
    let mut s = String::from_str("[pid=");
    push_decimal(&mut s, pid as u64);
    s.append("]");
    chars_of(s.as_str())
}

/// Splits a test's log (colours already stripped) into the log of each of the
/// `max_cores` cores (lines tagged with that core) and the log of each process
/// (lines with a process tag, the tag removed), processes in the order of
/// their first line.
pub fn route_log_lines(text: &str, max_cores: usize) -> (r: LogRouting)
    ensures
        r.core_logs@.len() == max_cores,
        forall|c: int| 0 <= c < max_cores ==> arg_views(#[trigger] r.core_logs@[c]@) == core_log(lines(text@), c as nat),
        r.pid_logs@.len() == pids_in_order(lines(text@)).len(),
        forall|i: int| 0 <= i < r.pid_logs@.len() ==> (#[trigger] r.pid_logs@[i]).pid == pids_in_order(lines(text@))[i]
            && arg_views(r.pid_logs@[i].lines@) == pid_log(lines(text@), pids_in_order(lines(text@))[i]),
{
    let chars = chars_of(text);
    let all = split_lines(&chars);
    let ghost ls = lines(text@);
    let n = all.len();
    let mut core_ids: Vec<Option<usize>> = Vec::new();
    let mut pids: Vec<Option<u32>> = Vec::new();
    let mut k: usize = 0;
    while k < n
        invariant
            n == all@.len(),
            all@.map_values(|l: Vec<char>| l@) == ls,
            k <= n,
            core_ids@.len() == k,
            pids@.len() == k,
            forall|j: int| 0 <= j < k ==> (match core_id_of(#[trigger] ls[j]) {
                Some(c) => core_ids@[j] == Some(c as usize),
                None => core_ids@[j] is None,
            }),
            forall|j: int| 0 <= j < k ==> (match pid_of(#[trigger] ls[j]) {
                Some(p) => pids@[j] == Some(p as u32),
                None => pids@[j] is None,
            }),
        decreases n - k,
    {
        assert(ls[k as int] == all@[k as int]@);
        core_ids.push(core_id_in(&all[k]));
        pids.push(pid_in(&all[k]));
        k = k + 1;
    }
    let mut core_logs: Vec<Vec<String>> = Vec::new();
    let mut c: usize = 0;
    while c < max_cores
        invariant
            n == all@.len(),
            all@.map_values(|l: Vec<char>| l@) == ls,
            core_ids@.len() == n,
            forall|j: int| 0 <= j < n ==> (match core_id_of(#[trigger] ls[j]) {
                Some(c) => core_ids@[j] == Some(c as usize),
                None => core_ids@[j] is None,
            }),
            c <= max_cores,
            core_logs@.len() == c,
            forall|d: int| 0 <= d < c ==> arg_views(#[trigger] core_logs@[d]@) == core_log(ls, d as nat),
        decreases max_cores - c,
    {
        let mut log: Vec<String> = Vec::new();
        let mut j: usize = 0;
        while j < n
            invariant
                n == all@.len(),
                all@.map_values(|l: Vec<char>| l@) == ls,
                core_ids@.len() == n,
                forall|j: int| 0 <= j < n ==> (match core_id_of(#[trigger] ls[j]) {
                    Some(c) => core_ids@[j] == Some(c as usize),
                    None => core_ids@[j] is None,
                }),
                j <= n,
                arg_views(log@) == core_log(ls.subrange(0, j as int), c as nat),
            decreases n - j,
        {
            let ghost prefix = ls.subrange(0, j + 1);
            assert(prefix.drop_last() =~= ls.subrange(0, j as int));
            assert(prefix.last() == ls[j as int]);
            assert(ls[j as int] == all@[j as int]@);
            if core_ids[j] == Some(c) {
                assert(is_core_line(ls[j as int], c as nat)) by {
                    assert(core_id_of(ls[j as int]) is Some);
                }
                let ghost before = arg_views(log@);
                log.push(string_from_chars(&all[j]));
                assert(arg_views(log@) =~= before.push(ls[j as int]));
            } else {
                assert(!is_core_line(ls[j as int], c as nat));
            }
            j = j + 1;
        }
        assert(ls.subrange(0, n as int) =~= ls);
        core_logs.push(log);
        c = c + 1;
    }
    let mut order: Vec<u32> = Vec::new();
    let mut j: usize = 0;
    while j < n
        invariant
            n == all@.len(),
            pids@.len() == n,
            all@.map_values(|l: Vec<char>| l@) == ls,
            forall|j: int| 0 <= j < n ==> (match pid_of(#[trigger] ls[j]) {
                Some(p) => pids@[j] == Some(p as u32),
                None => pids@[j] is None,
            }),
            j <= n,
            order@.map_values(|p: u32| p as nat) == pids_in_order(ls.subrange(0, j as int)),
        decreases n - j,
    {
        let ghost prefix = ls.subrange(0, j + 1);
        assert(prefix.drop_last() =~= ls.subrange(0, j as int));
        assert(prefix.last() == ls[j as int]);
        match pids[j] {
            Some(p) => {
                let mut seen = false;
                let mut q: usize = 0;
                while q < order.len()
                    invariant
                        q <= order@.len(),
                        seen == exists|t: int| 0 <= t < q && order@[t] == p,
                    decreases order.len() - q,
                {
                    if order[q] == p {
                        seen = true;
                    }
                    q = q + 1;
                }
                let ghost prev = pids_in_order(ls.subrange(0, j as int));
                assert(prev.contains(p as nat) == seen) by {
                    if seen {
                        let t = choose|t: int| 0 <= t < order@.len() && order@[t] == p;
                        assert(prev[t] == p as nat);
                    }
                    if prev.contains(p as nat) {
                        let t = choose|t: int| 0 <= t < prev.len() && prev[t] == p as nat;
                        assert(order@.map_values(|p: u32| p as nat)[t] == p as nat);
                    }
                }
                if !seen {
                    order.push(p);
                    assert(order@.map_values(|p: u32| p as nat) =~= prev.push(p as nat));
                }
            },
            None => {},
        }
        j = j + 1;
    }
    assert(ls.subrange(0, n as int) =~= ls);
    let mut pid_logs: Vec<PidLog> = Vec::new();
    let mut i: usize = 0;
    while i < order.len()
        invariant
            n == all@.len(),
            pids@.len() == n,
            all@.map_values(|l: Vec<char>| l@) == ls,
            forall|j: int| 0 <= j < n ==> (match pid_of(#[trigger] ls[j]) {
                Some(p) => pids@[j] == Some(p as u32),
                None => pids@[j] is None,
            }),
            order@.map_values(|p: u32| p as nat) == pids_in_order(ls),
            i <= order@.len(),
            pid_logs@.len() == i,
            forall|t: int| 0 <= t < i ==> (#[trigger] pid_logs@[t]).pid == order@[t]
                && arg_views(pid_logs@[t].lines@) == pid_log(ls, order@[t] as nat),
        decreases order.len() - i,
    {
        let p = order[i];
        let tag = pid_tag_chars(p);
        let mut log: Vec<String> = Vec::new();
        let mut j: usize = 0;
        while j < n
            invariant
                n == all@.len(),
                pids@.len() == n,
                all@.map_values(|l: Vec<char>| l@) == ls,
                forall|j: int| 0 <= j < n ==> (match pid_of(#[trigger] ls[j]) {
                    Some(p) => pids@[j] == Some(p as u32),
                    None => pids@[j] is None,
                }),
                tag@ == pid_tag(p as nat),
                j <= n,
                arg_views(log@) == pid_log(ls.subrange(0, j as int), p as nat),
            decreases n - j,
        {
            let ghost prefix = ls.subrange(0, j + 1);
            assert(prefix.drop_last() =~= ls.subrange(0, j as int));
            assert(prefix.last() == ls[j as int]);
            assert(ls[j as int] == all@[j as int]@);
            if pids[j] == Some(p) {
                let removed = remove_first_chars(&all[j], &tag);
                let cleaned = trim_chars(&removed);
                let ghost before = arg_views(log@);
                log.push(string_from_chars(&cleaned));
                assert(arg_views(log@) =~= before.push(cleaned_pid_line(ls[j as int], p as nat)));
            }
            j = j + 1;
        }
        assert(ls.subrange(0, n as int) =~= ls);
        pid_logs.push(PidLog { pid: p, lines: log });
        i = i + 1;
    }
    LogRouting { core_logs, pid_logs }
}


/// The test binary that a file of `kernel/src/bin` holds: the stem of a `.rs`
/// file whose stem starts with `test_`.
pub open spec fn test_bin_stem(file: Seq<char>) -> Option<Seq<char>> {
    if file.len() >= 3 && file.subrange(file.len() - 3, file.len() as int) == ".rs"@ {
        let stem = file.subrange(0, file.len() - 3);
        if starts_with(stem, "test_"@) {
            Some(stem)
        } else {
            None
        }
    } else {
        None
    }
}

/// The test binaries that the files hold, in the files' order.
pub open spec fn test_bin_stems(files: Seq<Seq<char>>) -> Seq<Seq<char>>
    decreases files.len(),
{
    if files.len() == 0 {
        Seq::empty()
    } else {
        let prev = test_bin_stems(files.drop_last());
        match test_bin_stem(files.last()) {
            Some(stem) => prev.push(stem),
            None => prev,
        }
    }
}

/// The order of strings: lexicographic by code point, which is the byte order
/// of their UTF-8 encodings (std's `Ord` for `String`).
pub open spec fn lex_le(a: Seq<char>, b: Seq<char>) -> bool
    decreases a.len(),
{
    if a.len() == 0 {
        true
    } else if b.len() == 0 {
        false
    } else if (a[0] as u32) != (b[0] as u32) {
        (a[0] as u32) < (b[0] as u32)
    } else {
        lex_le(a.drop_first(), b.drop_first())
    }
}

/// Whether a list of strings is in increasing order.
pub open spec fn sorted_names(s: Seq<Seq<char>>) -> bool {
    forall|i: int, j: int| 0 <= i < j < s.len() ==> lex_le(#[trigger] s[i], #[trigger] s[j])
}

proof fn lemma_lex_total(a: Seq<char>, b: Seq<char>)
    ensures
        lex_le(a, b) || lex_le(b, a),
    decreases a.len(),
{
    if a.len() > 0 && b.len() > 0 {
        if (a[0] as u32) == (b[0] as u32) {
            lemma_lex_total(a.drop_first(), b.drop_first());
        }
    }
}

proof fn lemma_lex_trans(a: Seq<char>, b: Seq<char>, c: Seq<char>)
    requires
        lex_le(a, b),
        lex_le(b, c),
    ensures
        lex_le(a, c),
    decreases a.len(),
{
    if a.len() > 0 && b.len() > 0 && c.len() > 0 && (a[0] as u32) == (b[0] as u32) && (b[0] as u32) == (c[0] as u32) {
        lemma_lex_trans(a.drop_first(), b.drop_first(), c.drop_first());
    }
}

fn chars_le(a: &Vec<char>, b: &Vec<char>) -> (r: bool)
    ensures
        r == lex_le(a@, b@),
{
    let mut i: usize = 0;
    assert(a@.subrange(0, a@.len() as int) =~= a@);
    assert(b@.subrange(0, b@.len() as int) =~= b@);
    while i < a.len() && i < b.len() && (a[i] as u32) == (b[i] as u32)
        invariant
            i <= a@.len(),
            i <= b@.len(),
            lex_le(a@, b@) == lex_le(a@.subrange(i as int, a@.len() as int), b@.subrange(i as int, b@.len() as int)),
        decreases a.len() - i,
    {
        assert(a@.subrange(i as int, a@.len() as int).drop_first() =~= a@.subrange(i + 1, a@.len() as int));
        assert(b@.subrange(i as int, b@.len() as int).drop_first() =~= b@.subrange(i + 1, b@.len() as int));
        i = i + 1;
    }
    if i == a.len() {
        true
    } else if i == b.len() {
        false
    } else {
        (a[i] as u32) < (b[i] as u32)
    }
}

proof fn lemma_insert_multiset(s: Seq<Seq<char>>, p: int, x: Seq<char>)
    requires
        0 <= p <= s.len(),
    ensures
        s.insert(p, x).to_multiset() =~= s.to_multiset().insert(x),
{
    broadcast use vstd::seq_lib::group_to_multiset_ensures;

    let t = s.insert(p, x);
    assert(t.remove(p) =~= s);
    assert(t[p] == x);
    assert(t.to_multiset().count(x) > 0);
}

fn file_stem(file: &Vec<char>) -> (r: Option<Vec<char>>)
    ensures
        match test_bin_stem(file@) {
            Some(stem) => r is Some && r->0@ == stem,
            None => r is None,
        },
{
    let n = file.len();
    if n < 3 {
        return None;
    }
    let suffix = chars_of(".rs");
    proof {
        reveal_strlit(".rs");
    }
    assert(suffix@.len() == 3);
    let mut k: usize = 0;
    while k < 3
        invariant
            n == file@.len(),
            n >= 3,
            suffix@ == ".rs"@,
            suffix@.len() == 3,
            k <= 3,
            forall|t: int| 0 <= t < k ==> file@[n - 3 + t] == suffix@[t],
        decreases 3 - k,
    {
        if file[n - 3 + k] != suffix[k] {
            assert(file@.subrange(n - 3, n as int)[k as int] != suffix@[k as int]);
            return None;
        }
        k = k + 1;
    }
    assert(file@.subrange(n - 3, n as int) =~= ".rs"@);
    let mut stem: Vec<char> = Vec::new();
    let mut i: usize = 0;
    while i < n - 3
        invariant
            n == file@.len(),
            n >= 3,
            i <= n - 3,
            stem@ == file@.subrange(0, i as int),
        decreases n - 3 - i,
    {
        stem.push(file[i]);
        assert(stem@ =~= file@.subrange(0, i + 1));
        i = i + 1;
    }
    let prefix = chars_of("test_");
    if chars_start_with(&stem, &prefix) {
        Some(stem)
    } else {
        None
    }
}

/// The test binaries among the files of `kernel/src/bin`, in increasing order.
pub fn discover_test_bins(files: &Vec<String>) -> (r: Vec<String>)
    ensures
        sorted_names(arg_views(r@)),
        arg_views(r@).to_multiset() == test_bin_stems(arg_views(files@)).to_multiset(),
{
    broadcast use vstd::seq_lib::group_to_multiset_ensures;

    let mut sorted: Vec<Vec<char>> = Vec::new();
    let mut f: usize = 0;
    assert(sorted@.map_values(|v: Vec<char>| v@) =~= Seq::<Seq<char>>::empty());
    assert(test_bin_stems(arg_views(files@).subrange(0, 0)) =~= Seq::<Seq<char>>::empty());
    while f < files.len()
        invariant
            f <= files@.len(),
            sorted_names(sorted@.map_values(|v: Vec<char>| v@)),
            sorted@.map_values(|v: Vec<char>| v@).to_multiset()
                == test_bin_stems(arg_views(files@).subrange(0, f as int)).to_multiset(),
        decreases files.len() - f,
    {
        let ghost prefix = arg_views(files@).subrange(0, f + 1);
        assert(prefix.drop_last() =~= arg_views(files@).subrange(0, f as int));
        assert(prefix.last() == files@[f as int]@);
        let file = chars_of(files[f].as_str());
        let ghost before = test_bin_stems(arg_views(files@).subrange(0, f as int));
        assert(test_bin_stems(prefix) == match test_bin_stem(prefix.last()) {
            Some(stem) => before.push(stem),
            None => before,
        });
        match file_stem(&file) {
            Some(stem) => {
                let ghost old_views = sorted@.map_values(|v: Vec<char>| v@);
                let mut p: usize = 0;
                while p < sorted.len() && chars_le(&sorted[p], &stem)
                    invariant
                        p <= sorted@.len(),
                        old_views == sorted@.map_values(|v: Vec<char>| v@),
                        forall|i: int| 0 <= i < p ==> lex_le(#[trigger] old_views[i], stem@),
                    decreases sorted.len() - p,
                {
                    p = p + 1;
                }
                let ghost x = stem@;
                sorted.insert(p, stem);
                let ghost new_views = sorted@.map_values(|v: Vec<char>| v@);
                assert(new_views =~= old_views.insert(p as int, x));
                proof {
                    lemma_insert_multiset(old_views, p as int, x);
                    assert(file@ == prefix.last());
                    assert(test_bin_stem(prefix.last()) == Some(x));
                    assert(test_bin_stems(prefix) == before.push(x));
                    before.to_multiset_ensures();
                    assert(before.push(x).to_multiset() =~= before.to_multiset().insert(x));
                    assert(new_views.to_multiset() =~= test_bin_stems(prefix).to_multiset());
                    assert forall|i: int, j: int| 0 <= i < j < new_views.len() implies lex_le(
                        #[trigger] new_views[i],
                        #[trigger] new_views[j],
                    ) by {
                        if j < p {
                            assert(new_views[i] == old_views[i] && new_views[j] == old_views[j]);
                        } else if j == p {
                            assert(new_views[i] == old_views[i]);
                        } else if i == p {
                            assert(new_views[j] == old_views[j - 1]);
                            assert(!lex_le(old_views[p as int], x));
                            lemma_lex_total(old_views[p as int], x);
                            if j - 1 > p {
                                lemma_lex_trans(x, old_views[p as int], old_views[j - 1]);
                            }
                        } else if i < p {
                            assert(new_views[i] == old_views[i] && new_views[j] == old_views[j - 1]);
                        } else {
                            assert(new_views[i] == old_views[i - 1] && new_views[j] == old_views[j - 1]);
                        }
                    }
                }
            },
            None => {
                assert(file@ == prefix.last());
                assert(test_bin_stems(prefix) == before);
            },
        }
        f = f + 1;
    }
    assert(arg_views(files@).subrange(0, files@.len() as int) =~= arg_views(files@));
    let mut r: Vec<String> = Vec::new();
    let mut i: usize = 0;
    while i < sorted.len()
        invariant
            i <= sorted@.len(),
            arg_views(r@) == sorted@.map_values(|v: Vec<char>| v@).subrange(0, i as int),
        decreases sorted.len() - i,
    {
        let ghost before = arg_views(r@);
        let s = string_from_chars(&sorted[i]);
        assert(s@ == sorted@[i as int]@);
        r.push(s);
        assert(arg_views(r@) =~= before.push(sorted@[i as int]@));
        assert(arg_views(r@) =~= sorted@.map_values(|v: Vec<char>| v@).subrange(0, i + 1));
        i = i + 1;
    }
    assert(sorted@.map_values(|v: Vec<char>| v@).subrange(0, i as int) =~= sorted@.map_values(|v: Vec<char>| v@));
    r
}

} // verus!
