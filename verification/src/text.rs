//! Character-sequence utilities shared by the text parsers.
//!
//! Every operation works on `&[char]` and is specified over `Seq<char>`.
//! The semantics match the corresponding `str` operations for the ASCII
//! patterns that the parsers use.
use vstd::prelude::*;

use vstd::utf8::{decode_utf8, valid_utf8};

verus! {

/// Copies the characters of `s` into a vector.
pub fn chars_of(s: &str) -> (v: Vec<char>)
    ensures
        v@ == s@,
{
    let mut v: Vec<char> = Vec::new();
    let chars = s.chars();
    for c in it: chars
        invariant
            v@ == it.seq().take(it.index()),
            it.seq() == s@,
    {
        v.push(c);
    }
    v
}

/// Appends one character to a string (`String::push`).
#[verifier::external_body]
pub(crate) fn push_char(s: &mut String, c: char)
    ensures
        final(s)@ == old(s)@.push(c),
{
    s.push(c);
}

/// Builds an owned string holding exactly the given characters.
pub fn string_of(cs: &[char]) -> (s: String)
    ensures
        s@ == cs@,
{
    let mut s = String::new();
    let mut i: usize = 0;
    while i < cs.len()
        invariant
            0 <= i <= cs.len(),
            s@ == cs@.take(i as int),
        decreases cs.len() - i,
    {
        push_char(&mut s, cs[i]);
        i = i + 1;
        assert(cs@.take(i as int) == cs@.take(i - 1).push(cs@[i - 1]));
    }
    assert(cs@.take(cs.len() as int) == cs@);
    s
}

/// Builds an owned string from a string literal.
pub fn owned(s: &str) -> (r: String)
    ensures
        r@ == s@,
{
    s.to_owned()
}

/// `pat` occurs in `s` at index `i`.
pub open spec fn occurs_at(s: Seq<char>, pat: Seq<char>, i: int) -> bool {
    0 <= i && i + pat.len() <= s.len() && s.subrange(i, i + pat.len()) == pat
}

/// `i` is the first index at which `pat` occurs in `s`.
pub open spec fn is_first_occurrence(s: Seq<char>, pat: Seq<char>, i: int) -> bool {
    occurs_at(s, pat, i) && forall|j: int| 0 <= j < i ==> !occurs_at(s, pat, j)
}

/// `i` is the last index at which `pat` occurs in `s`.
pub open spec fn is_last_occurrence(s: Seq<char>, pat: Seq<char>, i: int) -> bool {
    occurs_at(s, pat, i) && forall|j: int| i < j <= s.len() ==> !occurs_at(s, pat, j)
}

/// The index of the first occurrence of `pat` in `s`, as `str::find` gives it.
pub open spec fn spec_find(s: Seq<char>, pat: Seq<char>) -> Option<int> {
    if exists|i: int| is_first_occurrence(s, pat, i) {
        Some(choose|i: int| is_first_occurrence(s, pat, i))
    } else {
        None
    }
}

/// The index of the last occurrence of `pat` in `s`, as `str::rfind` gives it.
pub open spec fn spec_rfind(s: Seq<char>, pat: Seq<char>) -> Option<int> {
    if exists|i: int| is_last_occurrence(s, pat, i) {
        Some(choose|i: int| is_last_occurrence(s, pat, i))
    } else {
        None
    }
}

/// Splits `s` around the first occurrence of `pat` (`str::split_once`).
pub open spec fn spec_split_once(s: Seq<char>, pat: Seq<char>) -> Option<(Seq<char>, Seq<char>)> {
    match spec_find(s, pat) {
        Some(i) => Some((s.subrange(0, i), s.subrange(i + pat.len(), s.len() as int))),
        None => None,
    }
}

/// Splits `s` around the last occurrence of `pat` (`str::rsplit_once`).
pub open spec fn spec_rsplit_once(s: Seq<char>, pat: Seq<char>) -> Option<(Seq<char>, Seq<char>)> {
    match spec_rfind(s, pat) {
        Some(i) => Some((s.subrange(0, i), s.subrange(i + pat.len(), s.len() as int))),
        None => None,
    }
}

/// `str::strip_prefix`.
pub open spec fn spec_strip_prefix(s: Seq<char>, p: Seq<char>) -> Option<Seq<char>> {
    if p.len() <= s.len() && s.subrange(0, p.len() as int) == p {
        Some(s.subrange(p.len() as int, s.len() as int))
    } else {
        None
    }
}

/// `str::strip_suffix`.
pub open spec fn spec_strip_suffix(s: Seq<char>, p: Seq<char>) -> Option<Seq<char>> {
    if p.len() <= s.len() && s.subrange(s.len() - p.len(), s.len() as int) == p {
        Some(s.subrange(0, s.len() - p.len()))
    } else {
        None
    }
}

/// Views an optional slice pair as an optional pair of sequences.
pub open spec fn pair_view(r: Option<(&[char], &[char])>) -> Option<(Seq<char>, Seq<char>)> {
    match r {
        Some((a, b)) => Some((a@, b@)),
        None => None,
    }
}

/// Views an optional slice as an optional sequence.
pub open spec fn opt_view(r: Option<&[char]>) -> Option<Seq<char>> {
    match r {
        Some(a) => Some(a@),
        None => None,
    }
}

proof fn lemma_first_occurrence_unique(s: Seq<char>, pat: Seq<char>, i: int)
    requires
        is_first_occurrence(s, pat, i),
    ensures
        spec_find(s, pat) == Some(i),
{
    let k = choose|k: int| is_first_occurrence(s, pat, k);
    assert(is_first_occurrence(s, pat, k));
    if k < i {
        assert(!occurs_at(s, pat, k));
    }
    if i < k {
        assert(!occurs_at(s, pat, i));
    }
}

proof fn lemma_last_occurrence_unique(s: Seq<char>, pat: Seq<char>, i: int)
    requires
        is_last_occurrence(s, pat, i),
    ensures
        spec_rfind(s, pat) == Some(i),
{
    let k = choose|k: int| is_last_occurrence(s, pat, k);
    assert(is_last_occurrence(s, pat, k));
    if k < i {
        assert(!occurs_at(s, pat, i));
    }
    if i < k {
        assert(!occurs_at(s, pat, k));
    }
}

/// Character-wise equality of two slices.
pub fn slice_eq(a: &[char], b: &[char]) -> (r: bool)
    ensures
        r == (a@ == b@),
{
    if a.len() != b.len() {
        return false;
    }
    let mut i: usize = 0;
    while i < a.len()
        invariant
            a.len() == b.len(),
            0 <= i <= a.len(),
            forall|j: int| 0 <= j < i ==> a@[j] == b@[j],
        decreases a.len() - i,
    {
        if a[i] != b[i] {
            return false;
        }
        i = i + 1;
    }
    assert(a@ =~= b@);
    true
}

/// Whether `pat` occurs in `s` at index `i`.
fn matches_at(s: &[char], pat: &[char], i: usize) -> (r: bool)
    ensures
        r == occurs_at(s@, pat@, i as int),
{
    if i > s.len() || pat.len() > s.len() - i {
        return false;
    }
    let mut k: usize = 0;
    while k < pat.len()
        invariant
            i + pat.len() <= s.len(),
            0 <= k <= pat.len(),
            forall|j: int| 0 <= j < k ==> s@[i + j] == pat@[j],
        decreases pat.len() - k,
    {
        if s[i + k] != pat[k] {
            assert(s@.subrange(i as int, i + pat.len())[k as int] != pat@[k as int]);
            return false;
        }
        k = k + 1;
    }
    assert(s@.subrange(i as int, i + pat.len()) =~= pat@);
    true
}

/// `str::find`: the first index at which `pat` occurs in `s`.
pub fn find(s: &[char], pat: &[char]) -> (r: Option<usize>)
    ensures
        match r {
            Some(i) => spec_find(s@, pat@) == Some(i as int) && i + pat.len() <= s.len(),
            None => spec_find(s@, pat@) is None,
        },
{
    if pat.len() > s.len() {
        assert forall|k: int| !is_first_occurrence(s@, pat@, k) by {}
        return None;
    }
    let last = s.len() - pat.len();
    let mut i: usize = 0;
    loop
        invariant
            last == s.len() - pat.len(),
            0 <= i <= last,
            forall|j: int| 0 <= j < i ==> !occurs_at(s@, pat@, j),
        ensures
            forall|j: int| 0 <= j <= last ==> !occurs_at(s@, pat@, j),
        decreases last - i,
    {
        if matches_at(s, pat, i) {
            proof {
                lemma_first_occurrence_unique(s@, pat@, i as int);
            }
            return Some(i);
        }
        if i == last {
            break;
        }
        i = i + 1;
    }
    assert forall|k: int| !is_first_occurrence(s@, pat@, k) by {
        if 0 <= k && k <= last {
        } else {
            assert(!occurs_at(s@, pat@, k));
        }
    }
    None
}

/// `str::rfind`: the last index at which `pat` occurs in `s`.
pub fn rfind(s: &[char], pat: &[char]) -> (r: Option<usize>)
    ensures
        match r {
            Some(i) => spec_rfind(s@, pat@) == Some(i as int) && i + pat.len() <= s.len(),
            None => spec_rfind(s@, pat@) is None,
        },
{
    if pat.len() > s.len() {
        assert forall|k: int| !is_last_occurrence(s@, pat@, k) by {}
        return None;
    }
    let mut i: usize = s.len() - pat.len();
    loop
        invariant
            0 <= i <= s.len() - pat.len(),
            forall|j: int| i < j <= s.len() ==> !occurs_at(s@, pat@, j),
        ensures
            forall|j: int| 0 <= j <= s.len() ==> !occurs_at(s@, pat@, j),
        decreases i,
    {
        if matches_at(s, pat, i) {
            proof {
                lemma_last_occurrence_unique(s@, pat@, i as int);
            }
            return Some(i);
        }
        if i == 0 {
            break;
        }
        i = i - 1;
    }
    assert forall|k: int| !is_last_occurrence(s@, pat@, k) by {
        if 0 <= k && k <= s.len() {
        } else {
            assert(!occurs_at(s@, pat@, k));
        }
    }
    None
}

/// `str::split_once`.
pub fn split_once<'a>(s: &'a [char], pat: &[char]) -> (r: Option<(&'a [char], &'a [char])>)
    ensures
        pair_view(r) == spec_split_once(s@, pat@),
{
    match find(s, pat) {
        Some(i) => {
            let a = &s[0..i];
            let b = &s[i + pat.len()..s.len()];
            Some((a, b))
        },
        None => None,
    }
}

/// `str::rsplit_once`.
pub fn rsplit_once<'a>(s: &'a [char], pat: &[char]) -> (r: Option<(&'a [char], &'a [char])>)
    ensures
        pair_view(r) == spec_rsplit_once(s@, pat@),
{
    match rfind(s, pat) {
        Some(i) => {
            let a = &s[0..i];
            let b = &s[i + pat.len()..s.len()];
            Some((a, b))
        },
        None => None,
    }
}

/// `str::strip_prefix`.
pub fn strip_prefix<'a>(s: &'a [char], p: &[char]) -> (r: Option<&'a [char]>)
    ensures
        opt_view(r) == spec_strip_prefix(s@, p@),
{
    if p.len() <= s.len() && slice_eq(&s[0..p.len()], p) {
        Some(&s[p.len()..s.len()])
    } else {
        None
    }
}

/// `str::strip_suffix`.
pub fn strip_suffix<'a>(s: &'a [char], p: &[char]) -> (r: Option<&'a [char]>)
    ensures
        opt_view(r) == spec_strip_suffix(s@, p@),
{
    if p.len() <= s.len() && slice_eq(&s[s.len() - p.len()..s.len()], p) {
        Some(&s[0..s.len() - p.len()])
    } else {
        None
    }
}

/// `char::is_whitespace`: the Unicode `White_Space` property.
pub open spec fn spec_is_whitespace(c: char) -> bool {
    ||| c == ' '
    ||| ('\u{9}' <= c && c <= '\u{d}')
    ||| c == '\u{85}'
    ||| c == '\u{a0}'
    ||| c == '\u{1680}'
    ||| ('\u{2000}' <= c && c <= '\u{200a}')
    ||| c == '\u{2028}'
    ||| c == '\u{2029}'
    ||| c == '\u{202f}'
    ||| c == '\u{205f}'
    ||| c == '\u{3000}'
}

/// `char::is_whitespace`.
pub fn is_whitespace(c: char) -> (r: bool)
    ensures
        r == spec_is_whitespace(c),
{
    c == ' ' || ('\u{9}' <= c && c <= '\u{d}') || c == '\u{85}' || c == '\u{a0}' || c
        == '\u{1680}' || ('\u{2000}' <= c && c <= '\u{200a}') || c == '\u{2028}' || c
        == '\u{2029}' || c == '\u{202f}' || c == '\u{205f}' || c == '\u{3000}'
}

/// `str::trim_start`.
pub open spec fn spec_trim_start(s: Seq<char>) -> Seq<char>
    decreases s.len(),
{
    if s.len() > 0 && spec_is_whitespace(s[0]) {
        spec_trim_start(s.drop_first())
    } else {
        s
    }
}

/// `str::trim_end`.
pub open spec fn spec_trim_end(s: Seq<char>) -> Seq<char>
    decreases s.len(),
{
    if s.len() > 0 && spec_is_whitespace(s.last()) {
        spec_trim_end(s.drop_last())
    } else {
        s
    }
}

/// `str::trim`.
pub open spec fn spec_trim(s: Seq<char>) -> Seq<char> {
    spec_trim_end(spec_trim_start(s))
}

/// `str::trim_start`.
pub fn trim_start(s: &[char]) -> (r: &[char])
    ensures
        r@ == spec_trim_start(s@),
{
    let mut i: usize = 0;
    assert(s@.subrange(0, s.len() as int) =~= s@);
    while i < s.len() && is_whitespace(s[i])
        invariant
            0 <= i <= s.len(),
            spec_trim_start(s@) == spec_trim_start(s@.subrange(i as int, s.len() as int)),
        decreases s.len() - i,
    {
        assert(s@.subrange(i as int, s.len() as int).drop_first() =~= s@.subrange(
            i + 1,
            s.len() as int,
        ));
        i = i + 1;
    }
    &s[i..s.len()]
}

/// `str::trim_end`.
pub fn trim_end(s: &[char]) -> (r: &[char])
    ensures
        r@ == spec_trim_end(s@),
{
    let mut i: usize = s.len();
    assert(s@.subrange(0, s.len() as int) =~= s@);
    while i > 0 && is_whitespace(s[i - 1])
        invariant
            0 <= i <= s.len(),
            spec_trim_end(s@) == spec_trim_end(s@.subrange(0, i as int)),
        decreases i,
    {
        assert(s@.subrange(0, i as int).drop_last() =~= s@.subrange(0, i - 1));
        i = i - 1;
    }
    assert(s@.subrange(0, i as int) == s@.subrange(0, i as int));
    &s[0..i]
}

/// `str::trim`.
pub fn trim(s: &[char]) -> (r: &[char])
    ensures
        r@ == spec_trim(s@),
{
    trim_end(trim_start(s))
}

/// `str::starts_with`.
pub fn starts_with(s: &[char], p: &[char]) -> (r: bool)
    ensures
        r == (spec_strip_prefix(s@, p@) is Some),
{
    p.len() <= s.len() && slice_eq(&s[0..p.len()], p)
}

/// `str::ends_with`.
pub fn ends_with(s: &[char], p: &[char]) -> (r: bool)
    ensures
        r == (spec_strip_suffix(s@, p@) is Some),
{
    p.len() <= s.len() && slice_eq(&s[s.len() - p.len()..s.len()], p)
}

/// `i` is the index of the last whitespace character of `s`.
pub open spec fn is_last_whitespace(s: Seq<char>, i: int) -> bool {
    0 <= i < s.len() && spec_is_whitespace(s[i]) && forall|j: int|
        i < j < s.len() ==> !spec_is_whitespace(#[trigger] s[j])
}

/// `str::rsplit_once(char::is_whitespace)`.
pub open spec fn spec_rsplit_once_whitespace(s: Seq<char>) -> Option<(Seq<char>, Seq<char>)> {
    if exists|i: int| is_last_whitespace(s, i) {
        let i = choose|i: int| is_last_whitespace(s, i);
        Some((s.subrange(0, i), s.subrange(i + 1, s.len() as int)))
    } else {
        None
    }
}

/// `str::rsplit_once(char::is_whitespace)`.
pub fn rsplit_once_whitespace<'a>(s: &'a [char]) -> (r: Option<(&'a [char], &'a [char])>)
    ensures
        pair_view(r) == spec_rsplit_once_whitespace(s@),
{
    let mut i: usize = s.len();
    while i > 0
        invariant
            0 <= i <= s.len(),
            forall|j: int| i <= j < s.len() ==> !spec_is_whitespace(#[trigger] s@[j]),
        decreases i,
    {
        if is_whitespace(s[i - 1]) {
            let k = i - 1;
            proof {
                assert(is_last_whitespace(s@, k as int));
                let c = choose|c: int| is_last_whitespace(s@, c);
                assert(is_last_whitespace(s@, c));
                if c < k {
                    assert(!spec_is_whitespace(s@[k as int]));
                }
                if k < c {
                    assert(!spec_is_whitespace(s@[c]));
                }
            }
            return Some((&s[0..k], &s[k + 1..s.len()]));
        }
        i = i - 1;
    }
    assert forall|c: int| !is_last_whitespace(s@, c) by {
        if 0 <= c < s.len() {
            assert(!spec_is_whitespace(s@[c]));
        }
    }
    None
}

/// Length of the leading run of non-whitespace characters.
pub open spec fn spec_token_len(t: Seq<char>) -> nat
    decreases t.len(),
{
    if t.len() == 0 || spec_is_whitespace(t[0]) {
        0
    } else {
        1 + spec_token_len(t.drop_first())
    }
}

/// `str::split_whitespace`: the maximal runs of non-whitespace characters.
pub open spec fn spec_tokens(s: Seq<char>) -> Seq<Seq<char>>
    decreases s.len(),
{
    let t = spec_trim_start(s);
    if t.len() == 0 {
        seq![]
    } else {
        let k = spec_token_len(t);
        if 0 < k <= t.len() <= s.len() {
            seq![t.subrange(0, k as int)] + spec_tokens(t.subrange(k as int, t.len() as int))
        } else {
            seq![]
        }
    }
}

proof fn lemma_trim_start_len(s: Seq<char>)
    ensures
        spec_trim_start(s).len() <= s.len(),
        spec_trim_start(s).len() > 0 ==> !spec_is_whitespace(spec_trim_start(s)[0]),
    decreases s.len(),
{
    if s.len() > 0 && spec_is_whitespace(s[0]) {
        lemma_trim_start_len(s.drop_first());
    }
}

proof fn lemma_token_len(t: Seq<char>)
    ensures
        spec_token_len(t) <= t.len(),
        t.len() > 0 && !spec_is_whitespace(t[0]) ==> spec_token_len(t) > 0,
    decreases t.len(),
{
    if t.len() > 0 && !spec_is_whitespace(t[0]) {
        lemma_token_len(t.drop_first());
    }
}

/// Views a vector of slices as a sequence of sequences.
pub open spec fn slices_view(v: Seq<&[char]>) -> Seq<Seq<char>> {
    v.map_values(|t: &[char]| t@)
}

/// `str::split_whitespace`.
pub fn split_whitespace<'a>(s: &'a [char]) -> (r: Vec<&'a [char]>)
    ensures
        slices_view(r@) == spec_tokens(s@),
{
    let mut out: Vec<&'a [char]> = Vec::new();
    let mut rest: &'a [char] = s;
    loop
        invariant
            slices_view(out@) + spec_tokens(rest@) == spec_tokens(s@),
        ensures
            slices_view(out@) == spec_tokens(s@),
        decreases rest.len(),
    {
        let t = trim_start(rest);
        proof {
            lemma_trim_start_len(rest@);
        }
        if t.len() == 0 {
            assert(spec_tokens(rest@) =~= seq![]);
            assert(slices_view(out@) + seq![] =~= slices_view(out@));
            break;
        }
        let mut k: usize = 0;
        assert(t@.subrange(0, t.len() as int) =~= t@);
        while k < t.len() && !is_whitespace(t[k])
            invariant
                0 <= k <= t.len(),
                spec_token_len(t@) == k + spec_token_len(t@.subrange(k as int, t.len() as int)),
            decreases t.len() - k,
        {
            assert(t@.subrange(k as int, t.len() as int).drop_first() =~= t@.subrange(
                k + 1,
                t.len() as int,
            ));
            k = k + 1;
        }
        proof {
            assert(t@.subrange(0, t.len() as int) =~= t@);
            lemma_token_len(t@);
            assert(spec_token_len(t@) == k);
        }
        let token = &t[0..k];
        let ghost old_out = out@;
        out.push(token);
        proof {
            assert(slices_view(out@) =~= slices_view(old_out).push(token@));
            assert(spec_tokens(rest@) == seq![t@.subrange(0, k as int)] + spec_tokens(
                t@.subrange(k as int, t.len() as int),
            ));
            assert(slices_view(old_out) + spec_tokens(rest@) =~= slices_view(out@) + spec_tokens(
                t@.subrange(k as int, t.len() as int),
            ));
        }
        rest = &t[k..t.len()];
    }
    out
}

/// Character-wise equality of a slice and a string.
pub fn eq_str(a: &[char], b: &str) -> (r: bool)
    ensures
        r == (a@ == b@),
{
    let bv = chars_of(b);
    slice_eq(a, bv.as_slice())
}

/// Appends the characters of `t` to `s`.
pub fn append(s: &mut String, t: &str)
    ensures
        final(s)@ == old(s)@ + t@,
{
    let tv = chars_of(t);
    append_chars(s, tv.as_slice());
}

/// Appends the characters of `t` to `s`.
pub fn append_chars(s: &mut String, t: &[char])
    ensures
        final(s)@ == old(s)@ + t@,
{
    let ghost start = s@;
    let mut i: usize = 0;
    while i < t.len()
        invariant
            0 <= i <= t.len(),
            s@ == start + t@.take(i as int),
        decreases t.len() - i,
    {
        push_char(s, t[i]);
        i = i + 1;
        assert(t@.take(i as int) =~= t@.take(i - 1).push(t@[i - 1]));
    }
    assert(t@.take(t.len() as int) =~= t@);
}

/// The `Debug` rendering of a string: quoted, with escapes.
pub uninterp spec fn debug_quoted(s: Seq<char>) -> Seq<char>;

/// Renders the characters of `s` as `format!("{:?}", s)` renders a `str`.
#[verifier::external_body]
pub(crate) fn debug_string(s: &[char]) -> (r: String)
    ensures
        r@ == debug_quoted(s@),
{
    let text: String = s.iter().collect();
    format!("{:?}", text)
}

/// Lexicographic order of character sequences by code point; for strings
/// this is the order of their UTF-8 bytes, the order of `String`'s `Ord`.
pub open spec fn name_less(a: Seq<char>, b: Seq<char>) -> bool
    decreases a.len(),
{
    if a.len() == 0 {
        b.len() > 0
    } else if b.len() == 0 {
        false
    } else if a[0] == b[0] {
        name_less(a.drop_first(), b.drop_first())
    } else {
        a[0] < b[0]
    }
}

pub proof fn lemma_name_less_irreflexive(a: Seq<char>)
    ensures
        !name_less(a, a),
    decreases a.len(),
{
    if a.len() > 0 {
        lemma_name_less_irreflexive(a.drop_first());
    }
}

pub proof fn lemma_name_less_total(a: Seq<char>, b: Seq<char>)
    ensures
        a == b || name_less(a, b) || name_less(b, a),
        !(name_less(a, b) && name_less(b, a)),
    decreases a.len(),
{
    if a.len() > 0 && b.len() > 0 {
        lemma_name_less_total(a.drop_first(), b.drop_first());
        if a[0] == b[0] && a.drop_first() == b.drop_first() {
            assert(a =~= seq![a[0]] + a.drop_first());
            assert(b =~= seq![b[0]] + b.drop_first());
        }
    } else if a.len() == 0 && b.len() == 0 {
        assert(a =~= b);
    }
}

pub proof fn lemma_name_less_transitive(a: Seq<char>, b: Seq<char>, c: Seq<char>)
    requires
        name_less(a, b),
        name_less(b, c),
    ensures
        name_less(a, c),
    decreases a.len(),
{
    if a.len() > 0 && b.len() > 0 && c.len() > 0 {
        if a[0] == b[0] && b[0] == c[0] {
            lemma_name_less_transitive(a.drop_first(), b.drop_first(), c.drop_first());
        }
    }
}

/// Compares two character slices in [`name_less`] order.
pub fn compare_names(a: &[char], b: &[char]) -> (r: bool)
    ensures
        r == name_less(a@, b@),
{
    let mut i: usize = 0;
    assert(a@.skip(0) =~= a@ && b@.skip(0) =~= b@);
    while i < a.len() && i < b.len() && a[i] == b[i]
        invariant
            0 <= i <= a.len(),
            i <= b.len(),
            name_less(a@, b@) == name_less(a@.skip(i as int), b@.skip(i as int)),
        decreases a.len() - i,
    {
        assert(a@.skip(i as int).drop_first() =~= a@.skip(i + 1));
        assert(b@.skip(i as int).drop_first() =~= b@.skip(i + 1));
        i = i + 1;
    }
    if i == a.len() {
        i < b.len()
    } else if i == b.len() {
        false
    } else {
        a[i] < b[i]
    }
}

/// `std::str::from_utf8`: succeeds exactly on well-formed UTF-8, and then
/// holds the characters that the bytes encode.
#[verifier::external_body]
pub(crate) fn utf8_text(bytes: &[u8]) -> (r: Option<String>)
    ensures
        match r {
            Some(s) => valid_utf8(bytes@) && s@ == decode_utf8(bytes@),
            None => !valid_utf8(bytes@),
        },
{
    match std::str::from_utf8(bytes) {
        Ok(s) => Some(s.to_owned()),
        Err(_) => None,
    }
}

} // verus!
