//! Text operations over Unicode scalar values.
//!
//! A text is modelled by the sequence of its characters. Positions are
//! character positions; the only byte counts are those of [`byte_len`] and
//! [`byte_prefix`].

use vstd::prelude::*;
use vstd::string::*;
use vstd::utf8::*;

verus! {

/// The characters with the Unicode property `White_Space`.
pub open spec fn is_white_space(c: char) -> bool {
    ||| '\u{9}' <= c <= '\u{d}'
    ||| c == '\u{20}'
    ||| c == '\u{85}'
    ||| c == '\u{a0}'
    ||| c == '\u{1680}'
    ||| '\u{2000}' <= c <= '\u{200a}'
    ||| c == '\u{2028}'
    ||| c == '\u{2029}'
    ||| c == '\u{202f}'
    ||| c == '\u{205f}'
    ||| c == '\u{3000}'
}

/// `s` without its leading white space.
pub open spec fn trimmed_start(s: Seq<char>) -> Seq<char>
    decreases s.len(),
{
    if s.len() > 0 && is_white_space(s[0]) {
        trimmed_start(s.drop_first())
    } else {
        s
    }
}

/// `s` without its trailing white space.
pub open spec fn trimmed_end(s: Seq<char>) -> Seq<char>
    decreases s.len(),
{
    if s.len() > 0 && is_white_space(s.last()) {
        trimmed_end(s.drop_last())
    } else {
        s
    }
}

/// `s` without the white space at both of its ends.
pub open spec fn trimmed(s: Seq<char>) -> Seq<char> {
    trimmed_end(trimmed_start(s))
}

/// Whether `s` holds nothing but white space.
pub open spec fn is_blank(s: Seq<char>) -> bool {
    forall|i: int| 0 <= i < s.len() ==> is_white_space(#[trigger] s[i])
}

/// `s` without the run of `c` at its start.
pub open spec fn without_leading(s: Seq<char>, c: char) -> Seq<char>
    decreases s.len(),
{
    if s.len() > 0 && s[0] == c {
        without_leading(s.drop_first(), c)
    } else {
        s
    }
}

/// `s` without the run of `c` at its end.
pub open spec fn without_trailing(s: Seq<char>, c: char) -> Seq<char>
    decreases s.len(),
{
    if s.len() > 0 && s.last() == c {
        without_trailing(s.drop_last(), c)
    } else {
        s
    }
}

/// Whether `pat` stands in `s` at position `i`.
pub open spec fn occurs_at(s: Seq<char>, pat: Seq<char>, i: int) -> bool {
    &&& 0 <= i
    &&& i + pat.len() <= s.len()
    &&& s.subrange(i, i + pat.len()) =~= pat
}

/// Whether `s` begins with `pat`.
pub open spec fn begins_with(s: Seq<char>, pat: Seq<char>) -> bool {
    occurs_at(s, pat, 0)
}

/// Whether `s` ends with `pat`.
pub open spec fn finishes_with(s: Seq<char>, pat: Seq<char>) -> bool {
    occurs_at(s, pat, s.len() - pat.len())
}

/// Whether `pat` stands anywhere in `s`.
pub open spec fn holds_text(s: Seq<char>, pat: Seq<char>) -> bool {
    exists|i: int| occurs_at(s, pat, i)
}

/// The first position from `from` on at which `pat` stands in `s`.
pub open spec fn first_match(s: Seq<char>, pat: Seq<char>, from: int) -> Option<int>
    decreases s.len() - from + 1,
{
    if from < 0 || from + pat.len() > s.len() {
        None
    } else if occurs_at(s, pat, from) {
        Some(from)
    } else {
        first_match(s, pat, from + 1)
    }
}

/// `s` with `with` put before its first character, between each two
/// neighbours and behind its last.
pub open spec fn interleaved(s: Seq<char>, with: Seq<char>) -> Seq<char>
    decreases s.len(),
{
    if s.len() == 0 {
        with
    } else {
        with + seq![s[0]] + interleaved(s.drop_first(), with)
    }
}

/// `s` with each occurrence of `pat` replaced by `with`. Occurrences are taken
/// from the left and do not overlap; the empty text occurs at every position.
pub open spec fn replaced(s: Seq<char>, pat: Seq<char>, with: Seq<char>) -> Seq<char>
    decreases s.len(),
{
    if pat.len() == 0 {
        interleaved(s, with)
    } else if s.len() < pat.len() {
        s
    } else if begins_with(s, pat) {
        with + replaced(s.skip(pat.len() as int), pat, with)
    } else {
        seq![s[0]] + replaced(s.drop_first(), pat, with)
    }
}

/// A letter from `A` to `Z` in lower case; any other character unchanged.
pub open spec fn ascii_lower(c: char) -> char {
    if 'A' <= c <= 'Z' {
        (c as u8 + 32) as char
    } else {
        c
    }
}

/// `s` with its ASCII letters in lower case.
pub open spec fn ascii_lowered(s: Seq<char>) -> Seq<char> {
    s.map_values(|c: char| ascii_lower(c))
}

/// The first `n` characters of `s`, or all of a shorter `s`.
pub open spec fn at_most(s: Seq<char>, n: nat) -> Seq<char> {
    if s.len() <= n {
        s
    } else {
        s.take(n as int)
    }
}

/// Whether cutting `s` down to `n` bytes leaves whole characters.
pub open spec fn cuts_cleanly(s: Seq<char>, n: int) -> bool {
    is_char_boundary(encode_utf8(s), n)
}

/// The characters that the first `n` bytes of `s` encode.
pub open spec fn byte_cut(s: Seq<char>, n: int) -> Seq<char> {
    decode_utf8(encode_utf8(s).subrange(0, n))
}

/// An optional text, over views.
pub open spec fn opt_view(t: Option<String>) -> Option<Seq<char>> {
    match t {
        Some(t) => Some(t@),
        None => None,
    }
}

/// Whether `c` is white space.
pub fn white_space(c: char) -> (b: bool)
    ensures
        b == is_white_space(c),
{
    ('\u{9}' <= c && c <= '\u{d}') || c == '\u{20}' || c == '\u{85}' || c == '\u{a0}' || c
        == '\u{1680}' || ('\u{2000}' <= c && c <= '\u{200a}') || c == '\u{2028}' || c == '\u{2029}'
        || c == '\u{202f}' || c == '\u{205f}' || c == '\u{3000}'
}

/// The characters of `s`.
pub fn chars_of(s: &str) -> (v: Vec<char>)
    ensures
        v@ == s@,
{
    let mut v: Vec<char> = Vec::new();
    for c in it: s.chars()
        invariant
            v@ == it.seq().take(it.index()),
            it.seq() == s@,
    {
        v.push(c);
    }
    v
}

/// `s` without the white space at both of its ends.
pub fn trim<'a>(s: &'a str) -> (t: &'a str)
    ensures
        t@ == trimmed(s@),
{
    let v = chars_of(s);
    let mut i: usize = 0;
    assert(v@.skip(0) =~= v@);
    while i < v.len() && white_space(v[i])
        invariant
            i <= v@.len(),
            v@ == s@,
            trimmed_start(s@) == trimmed_start(s@.skip(i as int)),
        decreases v@.len() - i,
    {
        assert(s@.skip(i as int).drop_first() =~= s@.skip(i + 1));
        i = i + 1;
    }
    let mut j: usize = v.len();
    assert(s@.skip(i as int) =~= s@.subrange(i as int, j as int));
    while i < j && white_space(v[j - 1])
        invariant
            i <= j <= v@.len(),
            v@ == s@,
            trimmed(s@) == trimmed_end(s@.subrange(i as int, j as int)),
        decreases j,
    {
        assert(s@.subrange(i as int, j as int).drop_last() =~= s@.subrange(i as int, j - 1));
        j = j - 1;
    }
    s.substring_char(i, j)
}

/// `s` without the run of `c` at its start.
pub fn trim_start_matches<'a>(s: &'a str, c: char) -> (t: &'a str)
    ensures
        t@ == without_leading(s@, c),
{
    let v = chars_of(s);
    let mut i: usize = 0;
    assert(v@.skip(0) =~= v@);
    while i < v.len() && v[i] == c
        invariant
            i <= v@.len(),
            v@ == s@,
            without_leading(s@, c) == without_leading(s@.skip(i as int), c),
        decreases v@.len() - i,
    {
        assert(s@.skip(i as int).drop_first() =~= s@.skip(i + 1));
        i = i + 1;
    }
    assert(s@.skip(i as int) =~= s@.subrange(i as int, s@.len() as int));
    s.substring_char(i, v.len())
}

/// `s` without the run of `c` at its end.
pub fn trim_end_matches<'a>(s: &'a str, c: char) -> (t: &'a str)
    ensures
        t@ == without_trailing(s@, c),
{
    let v = chars_of(s);
    let mut j: usize = v.len();
    assert(v@.take(j as int) =~= v@);
    while 0 < j && v[j - 1] == c
        invariant
            j <= v@.len(),
            v@ == s@,
            without_trailing(s@, c) == without_trailing(s@.take(j as int), c),
        decreases j,
    {
        assert(s@.take(j as int).drop_last() =~= s@.take(j - 1));
        j = j - 1;
    }
    assert(s@.take(j as int) =~= s@.subrange(0, j as int));
    s.substring_char(0, j)
}

/// Whether `pat` stands in `s` at position `i`.
pub fn matches_at(s: &Vec<char>, pat: &Vec<char>, i: usize) -> (b: bool)
    ensures
        b == occurs_at(s@, pat@, i as int),
{
    let n: usize = s.len();
    if n < pat.len() || n - pat.len() < i {
        return false;
    }
    let mut k: usize = 0;
    while k < pat.len()
        invariant
            k <= pat@.len(),
            n == s@.len(),
            i + pat@.len() <= n,
            forall|j: int| 0 <= j < k ==> s@[i + j] == pat@[j],
        decreases pat@.len() - k,
    {
        if s[i + k] != pat[k] {
            assert(s@.subrange(i as int, i + pat@.len())[k as int] != pat@[k as int]);
            return false;
        }
        k = k + 1;
    }
    true
}

/// The first position from `from` on at which `pat` stands in `s`.
pub fn find_from(s: &Vec<char>, pat: &Vec<char>, from: usize) -> (r: Option<usize>)
    ensures
        r is Some <==> first_match(s@, pat@, from as int) is Some,
        r matches Some(i) ==> first_match(s@, pat@, from as int) == Some(i as int),
        r matches Some(i) ==> from <= i && i + pat@.len() <= s@.len(),
{
    let mut i: usize = from;
    while pat.len() <= s.len() && i <= s.len() - pat.len()
        invariant
            from <= i,
            first_match(s@, pat@, from as int) == first_match(s@, pat@, i as int),
        decreases s@.len() + 1 - i,
    {
        if matches_at(s, pat, i) {
            return Some(i);
        }
        if i == s.len() {
            assert(s@.subrange(i as int, i + pat@.len()) =~= pat@);
        }
        i = i + 1;
    }
    None
}

/// Whether `s` begins with `pat`.
pub fn starts_with(s: &str, pat: &str) -> (b: bool)
    ensures
        b == begins_with(s@, pat@),
{
    matches_at(&chars_of(s), &chars_of(pat), 0)
}

/// Whether `s` ends with `pat`.
pub fn ends_with(s: &str, pat: &str) -> (b: bool)
    ensures
        b == finishes_with(s@, pat@),
{
    let v = chars_of(s);
    let p = chars_of(pat);
    p.len() <= v.len() && matches_at(&v, &p, v.len() - p.len())
}

/// Whether `pat` stands anywhere in `s`.
pub fn contains(s: &Vec<char>, pat: &Vec<char>) -> (b: bool)
    ensures
        b == holds_text(s@, pat@),
{
    proof {
        first_match_is_least(s@, pat@, 0);
    }
    find_from(s, pat, 0).is_some()
}

/// `s` with its ASCII letters in lower case.
pub fn lower_ascii(s: &str) -> (v: Vec<char>)
    ensures
        v@ == ascii_lowered(s@),
{
    let chars = chars_of(s);
    let mut v: Vec<char> = Vec::new();
    let mut i: usize = 0;
    while i < chars.len()
        invariant
            i <= chars@.len(),
            v@ =~= ascii_lowered(chars@.take(i as int)),
        decreases chars@.len() - i,
    {
        let c: char = chars[i];
        if 'A' <= c && c <= 'Z' {
            v.push((c as u8 + 32) as char);
        } else {
            v.push(c);
        }
        i = i + 1;
    }
    assert(chars@.take(i as int) =~= chars@);
    v
}

/// `s` with each occurrence of `pat` replaced by `with`.
pub fn replace(s: &str, pat: &str, with: &str) -> (r: String)
    ensures
        r@ == replaced(s@, pat@, with@),
{
    let v = chars_of(s);
    let p = chars_of(pat);
    let mut out = String::new();
    let mut i: usize = 0;
    assert(s@.skip(0) =~= s@);
    if p.len() == 0 {
        while i < v.len()
            invariant
                i <= v@.len(),
                v@ == s@,
                interleaved(s@, with@) =~= out@ + interleaved(s@.skip(i as int), with@),
            decreases v@.len() - i,
        {
            assert(s@.skip(i as int).drop_first() =~= s@.skip(i + 1));
            assert(s@.subrange(i as int, i + 1) =~= seq![s@[i as int]]);
            out.append(with);
            out.append(s.substring_char(i, i + 1));
            i = i + 1;
        }
        assert(s@.skip(i as int).len() == 0);
        out.append(with);
        return out;
    }
    while p.len() <= v.len() && i <= v.len() - p.len()
        invariant
            i <= v@.len(),
            v@ == s@,
            p@ == pat@,
            p@.len() > 0,
            replaced(s@, pat@, with@) =~= out@ + replaced(s@.skip(i as int), pat@, with@),
        decreases v@.len() - i,
    {
        let ghost rest = s@.skip(i as int);
        assert(rest.subrange(0, pat@.len() as int) =~= s@.subrange(i as int, i + pat@.len())) by {
            assert(pat@.len() <= rest.len());
        }
        if matches_at(&v, &p, i) {
            assert(rest.skip(pat@.len() as int) =~= s@.skip(i + pat@.len()));
            out.append(with);
            i = i + p.len();
        } else {
            assert(rest.drop_first() =~= s@.skip(i + 1));
            assert(s@.subrange(i as int, i + 1) =~= seq![s@[i as int]]);
            out.append(s.substring_char(i, i + 1));
            i = i + 1;
        }
    }
    assert(s@.skip(i as int) =~= s@.subrange(i as int, s@.len() as int));
    out.append(s.substring_char(i, v.len()));
    out
}

/// The first `n` characters of `s`, or all of a shorter `s`.
pub fn take_chars<'a>(s: &'a str, n: usize) -> (t: &'a str)
    ensures
        t@ == at_most(s@, n as nat),
{
    let v = chars_of(s);
    if v.len() <= n {
        s
    } else {
        assert(s@.take(n as int) =~= s@.subrange(0, n as int));
        s.substring_char(0, n)
    }
}

/// The number of bytes that encode `s`.
pub fn byte_len(s: &str) -> (n: usize)
    ensures
        n == encode_utf8(s@).len(),
{
    s.as_bytes().len()
}

/// Whether cutting `s` down to `n` bytes leaves whole characters.
pub fn splits_at(s: &str, n: usize) -> (b: bool)
    ensures
        b == cuts_cleanly(s@, n as int),
{
    s.is_char_boundary(n)
}

/// The text that the first `n` bytes of `s` encode.
pub fn byte_prefix<'a>(s: &'a str, n: usize) -> (t: &'a str)
    requires
        cuts_cleanly(s@, n as int),
    ensures
        t@ == byte_cut(s@, n as int),
{
    let (head, _tail) = s.split_at(n);
    proof {
        encode_utf8_decode_utf8(head@);
    }
    head
}

/// Whether `a` and `b` are the same text.
pub fn same_text(a: &str, b: &str) -> (same: bool)
    ensures
        same == (a@ == b@),
{
    a.to_owned() == b.to_owned()
}

/// `first_match` finds the least position from `from` on, and finds none only
/// where there is none.
pub proof fn first_match_is_least(s: Seq<char>, pat: Seq<char>, from: int)
    requires
        0 <= from,
    ensures
        first_match(s, pat, from) matches Some(i) ==> from <= i && occurs_at(s, pat, i),
        first_match(s, pat, from) matches Some(i) ==> forall|j: int|
            from <= j < i ==> !occurs_at(s, pat, j),
        first_match(s, pat, from) is None ==> forall|j: int| from <= j ==> !occurs_at(s, pat, j),
    decreases s.len() - from + 1,
{
    if from + pat.len() <= s.len() && !occurs_at(s, pat, from) {
        first_match_is_least(s, pat, from + 1);
    }
}

/// A place before which a text does not stand is its first one.
pub proof fn least_place_is_found(s: Seq<char>, pat: Seq<char>, i: int)
    requires
        occurs_at(s, pat, i),
        forall|j: int| 0 <= j < i ==> !occurs_at(s, pat, j),
    ensures
        first_match(s, pat, 0) == Some(i),
{
    first_match_is_least(s, pat, 0);
}

/// The encoding of two texts put together is that of the first, then that of
/// the second.
pub proof fn encoding_of_concat(a: Seq<char>, b: Seq<char>)
    ensures
        encode_utf8(a + b) == encode_utf8(a) + encode_utf8(b),
    decreases a.len(),
{
    if a.len() == 0 {
        assert(a + b =~= b);
        assert(encode_utf8(a) + encode_utf8(b) =~= encode_utf8(b));
    } else {
        assert((a + b).drop_first() =~= a.drop_first() + b);
        encoding_of_concat(a.drop_first(), b);
    }
}

/// A clean cut to `n` bytes keeps the first `n` bytes, and its characters are
/// the first ones of the text.
pub proof fn clean_cut_is_a_prefix(s: Seq<char>, n: int)
    requires
        cuts_cleanly(s, n),
    ensures
        encode_utf8(byte_cut(s, n)) == encode_utf8(s).subrange(0, n),
        0 <= n <= encode_utf8(s).len(),
        byte_cut(s, n).is_prefix_of(s),
{
    let all = encode_utf8(s);
    encode_utf8_valid_utf8(s);
    valid_utf8_split(all, n);
    decode_utf8_encode_utf8(all.subrange(0, n));
    decode_utf8_split(all, n);
    encode_utf8_decode_utf8(s);
}

/// What trimming leaves is blank nowhere at its ends, and trimming twice is
/// trimming once.
pub proof fn trimming_is_idempotent(s: Seq<char>)
    ensures
        trimmed(trimmed(s)) == trimmed(s),
        trimmed(s).len() > 0 ==> !is_white_space(trimmed(s)[0]) && !is_white_space(
            trimmed(s).last(),
        ),
{
    trimmed_start_first(s);
    trimmed_end_last(trimmed_start(s));
}

/// A text trims to nothing exactly where it is blank.
pub proof fn blank_trims_to_nothing(s: Seq<char>)
    ensures
        trimmed(s).len() == 0 <==> is_blank(s),
{
    trimmed_start_first(s);
    trimmed_end_last(trimmed_start(s));
    trimmed_start_is_blank(s);
}

/// White space around a text is trimmed away with its own.
pub proof fn padding_is_trimmed(before: Seq<char>, s: Seq<char>, after: Seq<char>)
    requires
        is_blank(before),
        is_blank(after),
    ensures
        trimmed(before + s + after) == trimmed(s),
{
    assert(before + s + after =~= before + (s + after));
    blank_start_is_trimmed(before, s + after);
    if is_blank(s) {
        assert(is_blank(s + after));
        blank_trims_to_nothing(s);
        blank_trims_to_nothing(s + after);
        assert(trimmed(s) =~= trimmed(s + after));
    } else {
        start_of_longer(s, after);
        blank_end_is_trimmed(trimmed_start(s), after);
    }
}

/// A run of `c` at the end of a text is taken off with the one that it has.
pub proof fn trailing_run_is_taken_off(s: Seq<char>, run: Seq<char>, c: char)
    requires
        forall|i: int| 0 <= i < run.len() ==> run[i] == c,
    ensures
        without_trailing(s + run, c) == without_trailing(s, c),
    decreases run.len(),
{
    if run.len() == 0 {
        assert(s + run =~= s);
    } else {
        assert((s + run).drop_last() =~= s + run.drop_last());
        trailing_run_is_taken_off(s, run.drop_last(), c);
    }
}

/// A run of `c` at the start of a text is taken off with the one that it has.
pub proof fn leading_run_is_taken_off(run: Seq<char>, s: Seq<char>, c: char)
    requires
        forall|i: int| 0 <= i < run.len() ==> run[i] == c,
    ensures
        without_leading(run + s, c) == without_leading(s, c),
    decreases run.len(),
{
    if run.len() == 0 {
        assert(run + s =~= s);
    } else {
        assert((run + s).drop_first() =~= run.drop_first() + s);
        leading_run_is_taken_off(run.drop_first(), s, c);
    }
}

proof fn blank_start_is_trimmed(blank: Seq<char>, s: Seq<char>)
    requires
        is_blank(blank),
    ensures
        trimmed_start(blank + s) == trimmed_start(s),
    decreases blank.len(),
{
    if blank.len() == 0 {
        assert(blank + s =~= s);
    } else {
        assert(is_white_space(blank[0]));
        assert((blank + s).drop_first() =~= blank.drop_first() + s);
        blank_start_is_trimmed(blank.drop_first(), s);
    }
}

proof fn blank_end_is_trimmed(s: Seq<char>, blank: Seq<char>)
    requires
        is_blank(blank),
    ensures
        trimmed_end(s + blank) == trimmed_end(s),
    decreases blank.len(),
{
    if blank.len() == 0 {
        assert(s + blank =~= s);
    } else {
        assert(is_white_space(blank[blank.len() - 1]));
        assert((s + blank).drop_last() =~= s + blank.drop_last());
        blank_end_is_trimmed(s, blank.drop_last());
    }
}

proof fn start_of_longer(s: Seq<char>, more: Seq<char>)
    requires
        !is_blank(s),
    ensures
        trimmed_start(s + more) == trimmed_start(s) + more,
    decreases s.len(),
{
    if is_white_space(s[0]) {
        let rest = s.drop_first();
        let i = choose|i: int| 0 <= i < s.len() && !is_white_space(#[trigger] s[i]);
        assert(!is_white_space(rest[i - 1]));
        assert((s + more).drop_first() =~= rest + more);
        start_of_longer(rest, more);
    }
}

/// Replacing a text that does not occur changes nothing.
pub proof fn replacing_nothing(s: Seq<char>, pat: Seq<char>, with: Seq<char>)
    requires
        !holds_text(s, pat),
    ensures
        replaced(s, pat, with) == s,
    decreases s.len(),
{
    if pat.len() == 0 {
        assert(s.subrange(0, 0) =~= pat);
        assert(occurs_at(s, pat, 0));
    } else if s.len() >= pat.len() {
        assert(!occurs_at(s, pat, 0));
        let rest = s.drop_first();
        assert forall|i: int| !occurs_at(rest, pat, i) by {
            if occurs_at(rest, pat, i) {
                assert(s.subrange(i + 1, i + 1 + pat.len()) =~= rest.subrange(i, i + pat.len()));
                assert(occurs_at(s, pat, i + 1));
            }
        }
        replacing_nothing(rest, pat, with);
        assert(seq![s[0]] + rest =~= s);
    }
}

/// Putting ASCII letters in lower case changes nothing about white space.
pub proof fn lowering_keeps_trimmed(s: Seq<char>)
    requires
        trimmed(s) == s,
    ensures
        trimmed(ascii_lowered(s)) == ascii_lowered(s),
{
    trimming_is_idempotent(s);
}

proof fn trimmed_start_first(s: Seq<char>)
    ensures
        trimmed_start(s).len() > 0 ==> !is_white_space(trimmed_start(s)[0]),
    decreases s.len(),
{
    if s.len() > 0 && is_white_space(s[0]) {
        trimmed_start_first(s.drop_first());
    }
}

proof fn trimmed_start_is_blank(s: Seq<char>)
    ensures
        trimmed_start(s).len() == 0 <==> is_blank(s),
    decreases s.len(),
{
    if s.len() > 0 && is_white_space(s[0]) {
        let rest = s.drop_first();
        trimmed_start_is_blank(rest);
        if is_blank(rest) {
            assert forall|i: int| 0 <= i < s.len() implies is_white_space(#[trigger] s[i]) by {
                if i > 0 {
                    assert(rest[i - 1] == s[i]);
                }
            }
        } else {
            let i = choose|i: int| 0 <= i < rest.len() && !is_white_space(#[trigger] rest[i]);
            assert(s[i + 1] == rest[i]);
        }
    }
}

proof fn trimmed_end_last(s: Seq<char>)
    ensures
        trimmed_end(s).len() > 0 ==> !is_white_space(trimmed_end(s).last()),
        trimmed_end(s).len() > 0 ==> s.len() > 0 && trimmed_end(s)[0] == s[0],
        s.len() > 0 && !is_white_space(s[0]) ==> trimmed_end(s).len() > 0,
    decreases s.len(),
{
    if s.len() > 0 && is_white_space(s.last()) {
        trimmed_end_last(s.drop_last());
    }
}

/// Trimming takes white space off the two ends of a text, and nothing else.
pub proof fn trimming_takes_off_white_space_alone(s: Seq<char>)
    ensures
        exists|i: int, j: int|
            0 <= i <= j <= s.len() && trimmed(s) == #[trigger] s.subrange(i, j) && (forall|k: int|
                0 <= k < i || j <= k < s.len() ==> is_white_space(#[trigger] s[k])),
{
    let i = start_cut(s);
    let j = end_cut(s.skip(i)) + i;
    assert(trimmed(s) =~= s.subrange(i, j));
    assert forall|k: int| 0 <= k < i || j <= k < s.len() implies is_white_space(
        #[trigger] s[k],
    ) by {
        if j <= k {
            assert(s.skip(i)[k - i] == s[k]);
        }
    }
}

/// How many characters trimming takes off the start of `s`.
proof fn start_cut(s: Seq<char>) -> (i: int)
    ensures
        0 <= i <= s.len(),
        trimmed_start(s) == s.skip(i),
        forall|k: int| 0 <= k < i ==> is_white_space(#[trigger] s[k]),
    decreases s.len(),
{
    if s.len() > 0 && is_white_space(s[0]) {
        let rest = s.drop_first();
        let i = start_cut(rest);
        assert(rest.skip(i) =~= s.skip(i + 1));
        assert forall|k: int| 0 <= k < i + 1 implies is_white_space(#[trigger] s[k]) by {
            if k > 0 {
                assert(rest[k - 1] == s[k]);
            }
        }
        i + 1
    } else {
        assert(s.skip(0) =~= s);
        0
    }
}

/// How many characters trimming leaves of `s` when it takes off its end.
proof fn end_cut(s: Seq<char>) -> (j: int)
    ensures
        0 <= j <= s.len(),
        trimmed_end(s) == s.take(j),
        forall|k: int| j <= k < s.len() ==> is_white_space(#[trigger] s[k]),
    decreases s.len(),
{
    if s.len() > 0 && is_white_space(s.last()) {
        let rest = s.drop_last();
        let j = end_cut(rest);
        assert(rest.take(j) =~= s.take(j));
        assert forall|k: int| j <= k < s.len() implies is_white_space(#[trigger] s[k]) by {
            if k < rest.len() {
                assert(rest[k] == s[k]);
            }
        }
        j
    } else {
        assert(s.take(s.len() as int) =~= s);
        s.len() as int
    }
}

/// What is left without a run of `c` at the start is the text from its first
/// other character on.
pub proof fn leading_run_ends_at_another(s: Seq<char>, c: char)
    ensures
        exists|i: int|
            0 <= i <= s.len() && without_leading(s, c) == #[trigger] s.skip(i) && (forall|k: int|
                0 <= k < i ==> s[k] == c) && (i < s.len() ==> s[i] != c),
    decreases s.len(),
{
    if s.len() > 0 && s[0] == c {
        let rest = s.drop_first();
        leading_run_ends_at_another(rest, c);
        let i = choose|i: int|
            0 <= i <= rest.len() && without_leading(rest, c) == #[trigger] rest.skip(i) && (forall|
                k: int,
            |
                0 <= k < i ==> rest[k] == c) && (i < rest.len() ==> rest[i] != c);
        assert(rest.skip(i) =~= s.skip(i + 1));
        assert forall|k: int| 0 <= k < i + 1 implies s[k] == c by {
            if k > 0 {
                assert(rest[k - 1] == s[k]);
            }
        }
        assert(i + 1 < s.len() ==> s[i + 1] == rest[i]);
    } else {
        assert(s.skip(0) =~= s);
    }
}

/// What is left without a run of `c` at the end is the text up to its last
/// other character.
pub proof fn trailing_run_begins_behind_another(s: Seq<char>, c: char)
    ensures
        exists|j: int|
            0 <= j <= s.len() && without_trailing(s, c) == #[trigger] s.take(j) && (forall|k: int|
                j <= k < s.len() ==> s[k] == c) && (j > 0 ==> s[j - 1] != c),
    decreases s.len(),
{
    if s.len() > 0 && s.last() == c {
        let rest = s.drop_last();
        trailing_run_begins_behind_another(rest, c);
        let j = choose|j: int|
            0 <= j <= rest.len() && without_trailing(rest, c) == #[trigger] rest.take(j) && (forall|
                k: int,
            |
                j <= k < rest.len() ==> rest[k] == c) && (j > 0 ==> rest[j - 1] != c);
        assert(rest.take(j) =~= s.take(j));
        assert forall|k: int| j <= k < s.len() implies s[k] == c by {
            if k < rest.len() {
                assert(rest[k] == s[k]);
            }
        }
    } else {
        assert(s.take(s.len() as int) =~= s);
    }
}

/// A text stands in another where what comes before it, it itself and what
/// comes behind it make up the other one.
pub proof fn occurrences_part_the_text(before: Seq<char>, pat: Seq<char>, after: Seq<char>, i: int)
    ensures
        occurs_at(before + pat + after, pat, before.len() as int),
        holds_text(before + pat + after, pat),
        begins_with(pat + after, pat),
        finishes_with(before + pat, pat),
        occurs_at(before, pat, i) ==> 0 <= i && i + pat.len() <= before.len() && before.take(i)
            + pat + before.skip(i + pat.len()) == before,
        begins_with(before, pat) <==> pat.is_prefix_of(before),
        finishes_with(before, pat) <==> pat.is_suffix_of(before),
        holds_text(before, pat) <==> exists|k: int|
            0 <= k <= before.len() - pat.len() && #[trigger] before.subrange(k, k + pat.len())
                == pat,
{
    let all = before + pat + after;
    let n = before.len() as int;
    assert(all.subrange(n, n + pat.len()) =~= pat);
    assert(occurs_at(all, pat, n));
    assert((pat + after).subrange(0, pat.len() as int) =~= pat);
    assert((before + pat).subrange(n, n + pat.len()) =~= pat);
    if occurs_at(before, pat, i) {
        assert(before.take(i) + before.subrange(i, i + pat.len()) + before.skip(i + pat.len())
            =~= before);
    }
    if holds_text(before, pat) {
        let k = choose|k: int| occurs_at(before, pat, k);
        assert(before.subrange(k, k + pat.len()) == pat);
    }
    if exists|k: int|
        0 <= k <= before.len() - pat.len() && #[trigger] before.subrange(k, k + pat.len()) == pat {
        let k = choose|k: int|
            0 <= k <= before.len() - pat.len() && #[trigger] before.subrange(k, k + pat.len())
                == pat;
        assert(occurs_at(before, pat, k));
    }
    if pat.len() <= before.len() {
        let at = before.len() - pat.len();
        assert(before.subrange(at, at + pat.len()) =~= before.skip(at));
    }
}

/// The first occurrence of a text is replaced, what stands before it is kept,
/// and what stands behind it is gone through in the same way.
pub proof fn replacing_goes_from_the_left(s: Seq<char>, pat: Seq<char>, with: Seq<char>, i: int)
    requires
        pat.len() > 0,
        occurs_at(s, pat, i),
        forall|j: int| 0 <= j < i ==> !occurs_at(s, pat, j),
    ensures
        replaced(s, pat, with) == s.take(i) + with + replaced(s.skip(i + pat.len()), pat, with),
    decreases i,
{
    if i == 0 {
        assert(s.take(0) + with =~= with);
    } else {
        assert(!occurs_at(s, pat, 0));
        let rest = s.drop_first();
        assert(rest.subrange(i - 1, i - 1 + pat.len()) =~= s.subrange(i, i + pat.len()));
        assert forall|j: int| 0 <= j < i - 1 implies !occurs_at(rest, pat, j) by {
            assert(!occurs_at(s, pat, j + 1));
            if occurs_at(rest, pat, j) {
                assert(rest.subrange(j, j + pat.len()) =~= s.subrange(j + 1, j + 1 + pat.len()));
            }
        }
        replacing_goes_from_the_left(rest, pat, with, i - 1);
        assert(rest.skip(i - 1 + pat.len()) =~= s.skip(i + pat.len()));
        assert(seq![s[0]] + rest.take(i - 1) =~= s.take(i));
        assert(replaced(s, pat, with) =~= s.take(i) + with + replaced(
            s.skip(i + pat.len()),
            pat,
            with,
        ));
    }
}

/// The empty text stands before each character and at the end.
pub proof fn replacing_the_empty_text(c: char, s: Seq<char>, with: Seq<char>)
    ensures
        replaced(seq![c] + s, Seq::empty(), with) == with + seq![c] + replaced(
            s,
            Seq::empty(),
            with,
        ),
        replaced(Seq::empty(), Seq::empty(), with) == with,
{
    assert((seq![c] + s).drop_first() =~= s);
}

/// Lower case moves the 26 letters from `A` on to those from `a` on and leaves
/// every other character alone.
pub proof fn lowering_moves_capitals_alone(s: Seq<char>)
    ensures
        ascii_lowered(s).len() == s.len(),
        forall|i: int|
            0 <= i < s.len() ==> #[trigger] ascii_lowered(s)[i] as int == (if 65 <= s[i] as int
                && s[i] as int <= 90 {
                s[i] as int + 32
            } else {
                s[i] as int
            }),
{
}

/// A limit keeps the beginning of a text, all of it where it fits.
pub proof fn limits_keep_the_beginning(s: Seq<char>, n: nat)
    ensures
        at_most(s, n).is_prefix_of(s),
        s.len() <= n ==> at_most(s, n) == s,
        s.len() > n ==> at_most(s, n).len() == n,
{
}

/// A cut behind whole characters leaves whole characters: those before it.
pub proof fn whole_characters_cut_cleanly(a: Seq<char>, b: Seq<char>)
    ensures
        cuts_cleanly(a + b, encode_utf8(a).len() as int),
        byte_cut(a + b, encode_utf8(a).len() as int) == a,
    decreases a.len(),
{
    encoding_of_concat(a, b);
    assert(encode_utf8(a + b).subrange(0, encode_utf8(a).len() as int) =~= encode_utf8(a));
    encode_utf8_decode_utf8(a);
    encode_utf8_valid_utf8(a + b);
    if a.len() > 0 {
        let rest = a.drop_first();
        assert((a + b).drop_first() =~= rest + b);
        encode_utf8_first_scalar(a + b);
        encode_utf8_valid_utf8(rest + b);
        whole_characters_cut_cleanly(rest, b);
        let first = encode_scalar((a + b)[0] as u32);
        assert(pop_first_scalar(encode_utf8(a + b)) =~= encode_utf8(rest + b));
        assert(encode_utf8(a).len() == first.len() + encode_utf8(rest).len());
    }
}

/// Every text but the empty one takes bytes.
pub proof fn texts_take_bytes(s: Seq<char>)
    ensures
        s.len() <= encode_utf8(s).len(),
        s.len() > 0 ==> encode_utf8(s).len() > 0,
    decreases s.len(),
{
    if s.len() > 0 {
        texts_take_bytes(s.drop_first());
        assert(encode_scalar(s[0] as u32).len() > 0);
    }
}

}
