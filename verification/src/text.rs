//! Character-level string helpers with specifications over `Seq<char>`.

use vstd::prelude::*;

verus! {

/// Unicode `White_Space` code points, as used by `char::is_whitespace` and `str::trim`.
pub open spec fn spec_is_ws(c: char) -> bool {
    let u = c as u32;
    ||| (0x09 <= u && u <= 0x0d)
    ||| u == 0x20
    ||| u == 0x85
    ||| u == 0xa0
    ||| u == 0x1680
    ||| (0x2000 <= u && u <= 0x200a)
    ||| u == 0x2028
    ||| u == 0x2029
    ||| u == 0x202f
    ||| u == 0x205f
    ||| u == 0x3000
}

pub fn is_whitespace(c: char) -> (r: bool)
    ensures
        r == spec_is_ws(c),
{
    let u = c as u32;
    (0x09 <= u && u <= 0x0d) || u == 0x20 || u == 0x85 || u == 0xa0 || u == 0x1680 || (0x2000
        <= u && u <= 0x200a) || u == 0x2028 || u == 0x2029 || u == 0x202f || u == 0x205f || u
        == 0x3000
}

/// The characters of a string.
#[verifier::external_body]
pub fn chars_of(s: &str) -> (v: Vec<char>)
    ensures
        v@ == s@,
{
    s.chars().collect()
}

/// A string made of the given characters.
#[verifier::external_body]
pub fn string_from_chars(v: &[char]) -> (s: String)
    ensures
        s@ == v@,
{
    v.iter().collect()
}

/// A string holds only white space (or nothing).
pub open spec fn spec_is_blank(s: Seq<char>) -> bool {
    forall|i: int| 0 <= i < s.len() ==> spec_is_ws(#[trigger] s[i])
}

pub fn is_blank(s: &str) -> (r: bool)
    ensures
        r == spec_is_blank(s@),
{
    let v = chars_of(s);
    let mut i: usize = 0;
    while i < v.len()
        invariant
            v@ == s@,
            i <= v.len(),
            forall|j: int| 0 <= j < i ==> spec_is_ws(#[trigger] v@[j]),
        decreases v.len() - i,
    {
        if !is_whitespace(v[i]) {
            return false;
        }
        i += 1;
    }
    true
}

/// Index of the first character that is not white space (or the length).
pub open spec fn spec_trim_start_index(s: Seq<char>) -> int
    decreases s.len(),
{
    if s.len() == 0 {
        0
    } else if spec_is_ws(s[0]) {
        1 + spec_trim_start_index(s.drop_first())
    } else {
        0
    }
}

/// Index one past the last character that is not white space (or 0).
pub open spec fn spec_trim_end_index(s: Seq<char>) -> int
    decreases s.len(),
{
    if s.len() == 0 {
        0
    } else if spec_is_ws(s.last()) {
        spec_trim_end_index(s.drop_last())
    } else {
        s.len() as int
    }
}

/// `str::trim`: leading and trailing white space removed.
pub open spec fn spec_trim(s: Seq<char>) -> Seq<char> {
    let a = spec_trim_start_index(s);
    let b = spec_trim_end_index(s);
    if a < b {
        s.subrange(a, b)
    } else {
        Seq::empty()
    }
}

pub proof fn lemma_trim_start_index(s: Seq<char>)
    ensures
        0 <= spec_trim_start_index(s) <= s.len(),
        forall|j: int| 0 <= j < spec_trim_start_index(s) ==> spec_is_ws(#[trigger] s[j]),
        spec_trim_start_index(s) < s.len() ==> !spec_is_ws(s[spec_trim_start_index(s)]),
    decreases s.len(),
{
    if s.len() > 0 && spec_is_ws(s[0]) {
        lemma_trim_start_index(s.drop_first());
        assert forall|j: int| 0 <= j < spec_trim_start_index(s) implies spec_is_ws(
            #[trigger] s[j],
        ) by {
            if j > 0 {
                assert(s[j] == s.drop_first()[j - 1]);
            }
        }
    }
}

pub proof fn lemma_trim_end_index(s: Seq<char>)
    ensures
        0 <= spec_trim_end_index(s) <= s.len(),
        forall|j: int| spec_trim_end_index(s) <= j < s.len() ==> spec_is_ws(#[trigger] s[j]),
        spec_trim_end_index(s) > 0 ==> !spec_is_ws(s[spec_trim_end_index(s) - 1]),
    decreases s.len(),
{
    if s.len() > 0 && spec_is_ws(s.last()) {
        lemma_trim_end_index(s.drop_last());
        assert forall|j: int| spec_trim_end_index(s) <= j < s.len() implies spec_is_ws(
            #[trigger] s[j],
        ) by {
            if j < s.len() - 1 {
                assert(s[j] == s.drop_last()[j]);
            }
        }
    }
}

/// A string trims to nothing exactly when it is blank.
pub proof fn lemma_trim_empty_iff_blank(s: Seq<char>)
    ensures
        (spec_trim(s).len() == 0) == spec_is_blank(s),
{
    lemma_trim_start_index(s);
    lemma_trim_end_index(s);
    let a = spec_trim_start_index(s);
    let b = spec_trim_end_index(s);
    if a < b {
        assert(!spec_is_ws(s[a]));
    } else {
        assert forall|i: int| 0 <= i < s.len() implies spec_is_ws(#[trigger] s[i]) by {
            if i >= a {
                assert(i >= b);
            }
        }
    }
}

/// Trimming twice trims nothing more.
pub proof fn lemma_trim_idempotent(s: Seq<char>)
    ensures
        spec_trim(spec_trim(s)) == spec_trim(s),
{
    lemma_trim_start_index(s);
    lemma_trim_end_index(s);
    let t = spec_trim(s);
    let a = spec_trim_start_index(s);
    let b = spec_trim_end_index(s);
    if a < b {
        assert(t[0] == s[a]);
        assert(t.last() == s[b - 1]);
        assert(spec_trim_start_index(t) == 0);
        assert(spec_trim_end_index(t) == t.len());
        assert(t.subrange(0, t.len() as int) =~= t);
    } else {
        assert(spec_trim_start_index(t) == 0);
        assert(spec_trim_end_index(t) == 0);
    }
}

/// A copy of the characters `v[a..b]`.
pub fn sub_chars(v: &[char], a: usize, b: usize) -> (r: Vec<char>)
    requires
        a <= b <= v.len(),
    ensures
        r@ == v@.subrange(a as int, b as int),
{
    let mut out: Vec<char> = Vec::new();
    let mut i: usize = a;
    while i < b
        invariant
            a <= i <= b,
            b <= v.len(),
            out@ == v@.subrange(a as int, i as int),
        decreases b - i,
    {
        out.push(v[i]);
        i += 1;
        assert(out@ =~= v@.subrange(a as int, i as int));
    }
    out
}

/// `str::trim` on characters.
pub fn trim_chars(v: &[char]) -> (r: Vec<char>)
    ensures
        r@ == spec_trim(v@),
{
    proof {
        lemma_trim_start_index(v@);
        lemma_trim_end_index(v@);
    }
    let mut a: usize = 0;
    while a < v.len() && is_whitespace(v[a])
        invariant
            a <= v.len(),
            a <= spec_trim_start_index(v@),
            0 <= spec_trim_start_index(v@) <= v@.len(),
            forall|j: int| 0 <= j < spec_trim_start_index(v@) ==> spec_is_ws(#[trigger] v@[j]),
            spec_trim_start_index(v@) < v@.len() ==> !spec_is_ws(v@[spec_trim_start_index(v@)]),
        decreases v.len() - a,
    {
        a += 1;
    }
    let mut b: usize = v.len();
    while b > 0 && is_whitespace(v[b - 1])
        invariant
            b <= v.len(),
            b >= spec_trim_end_index(v@),
            0 <= spec_trim_end_index(v@) <= v@.len(),
            forall|j: int| spec_trim_end_index(v@) <= j < v@.len() ==> spec_is_ws(#[trigger] v@[j]),
            spec_trim_end_index(v@) > 0 ==> !spec_is_ws(v@[spec_trim_end_index(v@) - 1]),
        decreases b,
    {
        b -= 1;
    }
    if a < b {
        sub_chars(v, a, b)
    } else {
        Vec::new()
    }
}

/// `str::trim`, returning an owned string.
pub fn trim(s: &str) -> (r: String)
    ensures
        r@ == spec_trim(s@),
{
    let v = chars_of(s);
    let t = trim_chars(v.as_slice());
    string_from_chars(t.as_slice())
}

/// The pieces of `rest` between occurrences of `sep`, the first one continuing `cur`.
pub open spec fn spec_split_acc(cur: Seq<char>, rest: Seq<char>, sep: char) -> Seq<Seq<char>>
    decreases rest.len(),
{
    if rest.len() == 0 {
        seq![cur]
    } else if rest[0] == sep {
        seq![cur] + spec_split_acc(Seq::empty(), rest.drop_first(), sep)
    } else {
        spec_split_acc(cur.push(rest[0]), rest.drop_first(), sep)
    }
}

/// `str::split` with a single-character separator.
pub open spec fn spec_split(s: Seq<char>, sep: char) -> Seq<Seq<char>> {
    spec_split_acc(Seq::empty(), s, sep)
}

pub proof fn lemma_split_acc_nonempty(cur: Seq<char>, rest: Seq<char>, sep: char)
    ensures
        spec_split_acc(cur, rest, sep).len() >= 1,
    decreases rest.len(),
{
    if rest.len() > 0 {
        if rest[0] == sep {
            lemma_split_acc_nonempty(Seq::empty(), rest.drop_first(), sep);
        } else {
            lemma_split_acc_nonempty(cur.push(rest[0]), rest.drop_first(), sep);
        }
    }
}

pub open spec fn char_views(v: Seq<Vec<char>>) -> Seq<Seq<char>> {
    v.map_values(|p: Vec<char>| p@)
}

pub fn split_chars(s: &[char], sep: char) -> (r: Vec<Vec<char>>)
    ensures
        char_views(r@) == spec_split(s@, sep),
        r@.len() >= 1,
{
    let mut out: Vec<Vec<char>> = Vec::new();
    let mut cur: Vec<char> = Vec::new();
    let mut i: usize = 0;
    assert(s@.skip(0) =~= s@);
    assert(char_views(out@) =~= Seq::<Seq<char>>::empty());
    while i < s.len()
        invariant
            i <= s.len(),
            char_views(out@) + spec_split_acc(cur@, s@.skip(i as int), sep) == spec_split(s@, sep),
        decreases s.len() - i,
    {
        let ghost before = char_views(out@);
        let ghost rest = s@.skip(i as int);
        assert(rest.drop_first() =~= s@.skip(i + 1));
        assert(rest[0] == s@[i as int]);
        if s[i] == sep {
            let done = cur;
            cur = Vec::new();
            out.push(done);
            assert(char_views(out@) =~= before.push(done@));
            assert(before + (seq![done@] + spec_split_acc(Seq::empty(), rest.drop_first(), sep))
                =~= before.push(done@) + spec_split_acc(Seq::empty(), rest.drop_first(), sep));
            assert(cur@ =~= Seq::<char>::empty());
        } else {
            cur.push(s[i]);
        }
        i += 1;
    }
    let ghost before = char_views(out@);
    assert(s@.skip(i as int) =~= Seq::<char>::empty());
    out.push(cur);
    assert(char_views(out@) =~= before + seq![cur@]);
    proof {
        lemma_split_acc_nonempty(Seq::empty(), s@, sep);
    }
    out
}

/// Index of the first white-space character at or after `from` (or the length).
pub open spec fn spec_ws_index_from(s: Seq<char>, from: int) -> int
    decreases s.len() - from,
{
    if from >= s.len() {
        s.len() as int
    } else if spec_is_ws(s[from]) {
        from
    } else {
        spec_ws_index_from(s, from + 1)
    }
}

pub proof fn lemma_ws_index_from(s: Seq<char>, from: int)
    requires
        0 <= from <= s.len(),
    ensures
        from <= spec_ws_index_from(s, from) <= s.len(),
        spec_ws_index_from(s, from) < s.len() ==> spec_is_ws(s[spec_ws_index_from(s, from)]),
        forall|k: int| from <= k < spec_ws_index_from(s, from) ==> !spec_is_ws(#[trigger] s[k]),
    decreases s.len() - from,
{
    if from < s.len() && !spec_is_ws(s[from]) {
        lemma_ws_index_from(s, from + 1);
    }
}

/// The characters before the first white space (the first word of a trimmed string).
pub open spec fn spec_first_word(s: Seq<char>) -> Seq<char> {
    s.take(spec_ws_index_from(s, 0))
}

pub fn first_word(s: &[char]) -> (r: Vec<char>)
    ensures
        r@ == spec_first_word(s@),
{
    proof {
        lemma_ws_index_from(s@, 0);
    }
    let mut i: usize = 0;
    while i < s.len() && !is_whitespace(s[i])
        invariant
            i <= s.len(),
            spec_ws_index_from(s@, i as int) == spec_ws_index_from(s@, 0),
        decreases s.len() - i,
    {
        i += 1;
    }
    sub_chars(s, 0, i)
}

/// Index of the first character other than `c` (or the length).
pub open spec fn spec_strip_start_index(s: Seq<char>, c: char) -> int
    decreases s.len(),
{
    if s.len() == 0 {
        0
    } else if s[0] == c {
        1 + spec_strip_start_index(s.drop_first(), c)
    } else {
        0
    }
}

/// Index one past the last character other than `c` (or 0).
pub open spec fn spec_strip_end_index(s: Seq<char>, c: char) -> int
    decreases s.len(),
{
    if s.len() == 0 {
        0
    } else if s.last() == c {
        spec_strip_end_index(s.drop_last(), c)
    } else {
        s.len() as int
    }
}

/// `str::trim_matches` with a single character: every leading and trailing `c` removed.
pub open spec fn spec_trim_matches(s: Seq<char>, c: char) -> Seq<char> {
    let a = spec_strip_start_index(s, c);
    let b = spec_strip_end_index(s, c);
    if a < b {
        s.subrange(a, b)
    } else {
        Seq::empty()
    }
}

pub proof fn lemma_strip_start_index(s: Seq<char>, c: char)
    ensures
        0 <= spec_strip_start_index(s, c) <= s.len(),
        forall|j: int| 0 <= j < spec_strip_start_index(s, c) ==> #[trigger] s[j] == c,
        spec_strip_start_index(s, c) < s.len() ==> s[spec_strip_start_index(s, c)] != c,
    decreases s.len(),
{
    if s.len() > 0 && s[0] == c {
        lemma_strip_start_index(s.drop_first(), c);
        assert forall|j: int| 0 <= j < spec_strip_start_index(s, c) implies #[trigger] s[j] == c by {
            if j > 0 {
                assert(s[j] == s.drop_first()[j - 1]);
            }
        }
    }
}

pub proof fn lemma_strip_end_index(s: Seq<char>, c: char)
    ensures
        0 <= spec_strip_end_index(s, c) <= s.len(),
        forall|j: int| spec_strip_end_index(s, c) <= j < s.len() ==> #[trigger] s[j] == c,
        spec_strip_end_index(s, c) > 0 ==> s[spec_strip_end_index(s, c) - 1] != c,
    decreases s.len(),
{
    if s.len() > 0 && s.last() == c {
        lemma_strip_end_index(s.drop_last(), c);
        assert forall|j: int| spec_strip_end_index(s, c) <= j < s.len() implies #[trigger] s[j]
            == c by {
            if j < s.len() - 1 {
                assert(s[j] == s.drop_last()[j]);
            }
        }
    }
}

pub fn trim_matches(v: &[char], c: char) -> (r: Vec<char>)
    ensures
        r@ == spec_trim_matches(v@, c),
{
    proof {
        lemma_strip_start_index(v@, c);
        lemma_strip_end_index(v@, c);
    }
    let mut a: usize = 0;
    while a < v.len() && v[a] == c
        invariant
            a <= v.len(),
            a <= spec_strip_start_index(v@, c),
            0 <= spec_strip_start_index(v@, c) <= v@.len(),
            forall|j: int| 0 <= j < spec_strip_start_index(v@, c) ==> #[trigger] v@[j] == c,
            spec_strip_start_index(v@, c) < v@.len() ==> v@[spec_strip_start_index(v@, c)] != c,
        decreases v.len() - a,
    {
        a += 1;
    }
    let mut b: usize = v.len();
    while b > 0 && v[b - 1] == c
        invariant
            b <= v.len(),
            b >= spec_strip_end_index(v@, c),
            0 <= spec_strip_end_index(v@, c) <= v@.len(),
            forall|j: int| spec_strip_end_index(v@, c) <= j < v@.len() ==> #[trigger] v@[j] == c,
            spec_strip_end_index(v@, c) > 0 ==> v@[spec_strip_end_index(v@, c) - 1] != c,
        decreases b,
    {
        b -= 1;
    }
    if a < b {
        sub_chars(v, a, b)
    } else {
        Vec::new()
    }
}

/// `char::to_ascii_lowercase`.
pub open spec fn spec_lower_char(c: char) -> char {
    if 'A' <= c && c <= 'Z' {
        ((c as u32) + 32) as char
    } else {
        c
    }
}

pub open spec fn spec_lower(s: Seq<char>) -> Seq<char> {
    Seq::new(s.len(), |i: int| spec_lower_char(s[i]))
}

pub fn lower_char(c: char) -> (r: char)
    ensures
        r == spec_lower_char(c),
{
    if 'A' <= c && c <= 'Z' {
        let u = (c as u32) + 32;
        char_from_ascii(u)
    } else {
        c
    }
}

fn char_from_ascii(u: u32) -> (c: char)
    requires
        u < 128,
    ensures
        c == u as char,
{
    assert(u < 128);
    let b: u8 = u as u8;
    b as char
}

/// `str::to_ascii_lowercase`, as characters.
pub fn lower_chars(v: &[char]) -> (r: Vec<char>)
    ensures
        r@ == spec_lower(v@),
{
    let mut out: Vec<char> = Vec::new();
    let mut i: usize = 0;
    while i < v.len()
        invariant
            i <= v.len(),
            out@ == spec_lower(v@.subrange(0, i as int)),
        decreases v.len() - i,
    {
        out.push(lower_char(v[i]));
        i += 1;
        assert(spec_lower(v@.subrange(0, i as int)) =~= spec_lower(v@.subrange(0, i - 1)).push(
            spec_lower_char(v@[i - 1]),
        ));
    }
    assert(v@.subrange(0, v.len() as int) =~= v@);
    out
}

/// Every occurrence of one character replaced by another (`str::replace` with single characters).
pub open spec fn spec_replace_char(s: Seq<char>, from: char, to: char) -> Seq<char> {
    Seq::new(s.len(), |i: int| if s[i] == from { to } else { s[i] })
}

pub fn replace_char(v: &[char], from: char, to: char) -> (r: Vec<char>)
    ensures
        r@ == spec_replace_char(v@, from, to),
{
    let mut out: Vec<char> = Vec::new();
    let mut i: usize = 0;
    while i < v.len()
        invariant
            i <= v.len(),
            out@ == spec_replace_char(v@.subrange(0, i as int), from, to),
        decreases v.len() - i,
    {
        let c = if v[i] == from {
            to
        } else {
            v[i]
        };
        out.push(c);
        i += 1;
        assert(spec_replace_char(v@.subrange(0, i as int), from, to) =~= spec_replace_char(
            v@.subrange(0, i - 1),
            from,
            to,
        ).push(c));
    }
    assert(v@.subrange(0, v.len() as int) =~= v@);
    out
}

/// `pat` occurs in `s` at position `i`.
pub open spec fn spec_occurs_at(s: Seq<char>, pat: Seq<char>, i: int) -> bool {
    0 <= i && i + pat.len() <= s.len() && s.subrange(i, i + pat.len()) == pat
}

/// `str::contains` with a string pattern.
pub open spec fn spec_contains(s: Seq<char>, pat: Seq<char>) -> bool {
    exists|i: int| spec_occurs_at(s, pat, i)
}

pub open spec fn spec_starts_with(s: Seq<char>, pat: Seq<char>) -> bool {
    spec_occurs_at(s, pat, 0)
}

pub open spec fn spec_ends_with(s: Seq<char>, pat: Seq<char>) -> bool {
    spec_occurs_at(s, pat, s.len() - pat.len())
}

pub fn occurs_at(s: &[char], pat: &[char], i: usize) -> (r: bool)
    ensures
        r == spec_occurs_at(s@, pat@, i as int),
{
    if i > s.len() || pat.len() > s.len() - i {
        return false;
    }
    let mut k: usize = 0;
    while k < pat.len()
        invariant
            i + pat.len() <= s.len(),
            k <= pat.len(),
            forall|j: int| 0 <= j < k ==> s@[i + j] == pat@[j],
        decreases pat.len() - k,
    {
        if s[i + k] != pat[k] {
            assert(s@.subrange(i as int, i + pat.len())[k as int] != pat@[k as int]);
            return false;
        }
        k += 1;
    }
    assert(s@.subrange(i as int, i + pat.len()) =~= pat@);
    true
}

pub fn contains(s: &[char], pat: &[char]) -> (r: bool)
    ensures
        r == spec_contains(s@, pat@),
{
    if pat.len() > s.len() {
        return false;
    }
    let last = s.len() - pat.len();
    let mut i: usize = 0;
    while i < last
        invariant
            pat.len() <= s.len(),
            last == s.len() - pat.len(),
            i <= last,
            forall|j: int| 0 <= j < i ==> !#[trigger] spec_occurs_at(s@, pat@, j),
        decreases last - i,
    {
        if occurs_at(s, pat, i) {
            return true;
        }
        i += 1;
    }
    if occurs_at(s, pat, last) {
        return true;
    }
    assert forall|j: int| !#[trigger] spec_occurs_at(s@, pat@, j) by {
        if 0 <= j < i {
        }
    }
    false
}

pub fn starts_with(s: &[char], pat: &[char]) -> (r: bool)
    ensures
        r == spec_starts_with(s@, pat@),
{
    occurs_at(s, pat, 0)
}

pub fn ends_with(s: &[char], pat: &[char]) -> (r: bool)
    ensures
        r == spec_ends_with(s@, pat@),
{
    if pat.len() > s.len() {
        return false;
    }
    occurs_at(s, pat, s.len() - pat.len())
}

/// Character sequences are equal.
pub fn chars_eq(a: &[char], b: &[char]) -> (r: bool)
    ensures
        r == (a@ == b@),
{
    if a.len() != b.len() {
        return false;
    }
    let r = occurs_at(a, b, 0);
    proof {
        if r {
            assert(a@.subrange(0, b@.len() as int) =~= a@);
        } else {
            if a@ == b@ {
                assert(a@.subrange(0, b@.len() as int) =~= a@);
            }
        }
    }
    r
}

/// Two strings hold the same characters.
pub fn str_eq(a: &str, b: &str) -> (r: bool)
    ensures
        r == (a@ == b@),
{
    let va = chars_of(a);
    let vb = chars_of(b);
    chars_eq(va.as_slice(), vb.as_slice())
}

/// Decimal digits of a natural number, most significant first (`u64::to_string`).
pub open spec fn spec_decimal(n: nat) -> Seq<char>
    decreases n,
{
    if n < 10 {
        seq![spec_digit(n)]
    } else {
        spec_decimal(n / 10).push(spec_digit(n % 10))
    }
}

pub open spec fn spec_digit(d: nat) -> char {
    if d == 0 {
        '0'
    } else if d == 1 {
        '1'
    } else if d == 2 {
        '2'
    } else if d == 3 {
        '3'
    } else if d == 4 {
        '4'
    } else if d == 5 {
        '5'
    } else if d == 6 {
        '6'
    } else if d == 7 {
        '7'
    } else if d == 8 {
        '8'
    } else {
        '9'
    }
}

pub proof fn lemma_decimal_nonempty(n: nat)
    ensures
        spec_decimal(n).len() >= 1,
        (spec_decimal(n).len() == 1) == (n < 10),
    decreases n,
{
    if n >= 10 {
        lemma_decimal_nonempty(n / 10);
    }
}

pub proof fn lemma_digit_injective(a: nat, b: nat)
    requires
        a < 10,
        b < 10,
        spec_digit(a) == spec_digit(b),
    ensures
        a == b,
{
}

/// Different numbers have different decimal representations.
pub proof fn lemma_decimal_injective(a: nat, b: nat)
    requires
        spec_decimal(a) == spec_decimal(b),
    ensures
        a == b,
    decreases a,
{
    lemma_decimal_nonempty(a);
    lemma_decimal_nonempty(b);
    if a < 10 && b < 10 {
        assert(spec_decimal(a) == seq![spec_digit(a)]);
        assert(spec_decimal(b) == seq![spec_digit(b)]);
        assert(seq![spec_digit(a)][0] == spec_digit(a));
        assert(seq![spec_digit(b)][0] == spec_digit(b));
        lemma_digit_injective(a, b);
    } else if a >= 10 && b >= 10 {
        let da = spec_decimal(a);
        let db = spec_decimal(b);
        assert(da.last() == db.last());
        assert(da.drop_last() =~= spec_decimal(a / 10));
        assert(db.drop_last() =~= spec_decimal(b / 10));
        lemma_decimal_injective(a / 10, b / 10);
        lemma_digit_injective(a % 10, b % 10);
    } else {
        lemma_decimal_nonempty(a / 10);
        lemma_decimal_nonempty(b / 10);
    }
}

fn digit_char(d: u64) -> (c: char)
    requires
        d < 10,
    ensures
        c == spec_digit(d as nat),
{
    if d == 0 {
        '0'
    } else if d == 1 {
        '1'
    } else if d == 2 {
        '2'
    } else if d == 3 {
        '3'
    } else if d == 4 {
        '4'
    } else if d == 5 {
        '5'
    } else if d == 6 {
        '6'
    } else if d == 7 {
        '7'
    } else if d == 8 {
        '8'
    } else {
        '9'
    }
}

/// `u64::to_string` as characters.
pub fn decimal_chars(n: u64) -> (r: Vec<char>)
    ensures
        r@ == spec_decimal(n as nat),
    decreases n,
{
    if n < 10 {
        let mut v: Vec<char> = Vec::new();
        v.push(digit_char(n));
        assert(v@ =~= seq![spec_digit(n as nat)]);
        v
    } else {
        let mut v = decimal_chars(n / 10);
        v.push(digit_char(n % 10));
        v
    }
}

/// Two texts one after the other.
pub fn concat_strs(a: &str, b: &str) -> (r: String)
    ensures
        r@ == a@ + b@,
{
    let x = chars_of(a);
    let y = chars_of(b);
    let v = concat_chars(x.as_slice(), y.as_slice());
    string_from_chars(v.as_slice())
}

/// Concatenation of character vectors.
pub fn concat_chars(a: &[char], b: &[char]) -> (r: Vec<char>)
    ensures
        r@ == a@ + b@,
{
    let mut out: Vec<char> = Vec::new();
    let mut i: usize = 0;
    while i < a.len()
        invariant
            i <= a.len(),
            out@ == a@.subrange(0, i as int),
        decreases a.len() - i,
    {
        out.push(a[i]);
        i += 1;
        assert(out@ =~= a@.subrange(0, i as int));
    }
    let mut k: usize = 0;
    while k < b.len()
        invariant
            k <= b.len(),
            i == a.len(),
            out@ == a@ + b@.subrange(0, k as int),
        decreases b.len() - k,
    {
        out.push(b[k]);
        k += 1;
        assert(out@ =~= a@ + b@.subrange(0, k as int));
    }
    assert(a@.subrange(0, a.len() as int) =~= a@);
    assert(b@.subrange(0, b.len() as int) =~= b@);
    out
}


/// An ASCII decimal digit.
pub open spec fn spec_is_digit(c: char) -> bool {
    '0' <= c && c <= '9'
}

pub open spec fn spec_digit_value(c: char) -> nat {
    ((c as u32) - ('0' as u32)) as nat
}

/// The number a string of decimal digits denotes.
pub open spec fn spec_digits_value(d: Seq<char>) -> nat
    decreases d.len(),
{
    if d.len() == 0 {
        0
    } else {
        spec_digits_value(d.drop_last()) * 10 + spec_digit_value(d.last())
    }
}

/// Every character is an ASCII decimal digit.
pub open spec fn spec_all_digits(d: Seq<char>) -> bool {
    forall|i: int| 0 <= i < d.len() ==> spec_is_digit(#[trigger] d[i])
}

/// The digits part of an unsigned number: the text after an optional leading `+`.
pub open spec fn spec_unsigned_digits(s: Seq<char>) -> Seq<char> {
    if s.len() > 0 && s[0] == '+' {
        s.drop_first()
    } else {
        s
    }
}

/// `str::parse` for an unsigned integer type whose largest value is `max`: an optional `+`,
/// then at least one ASCII digit, denoting a number no larger than `max`.
pub open spec fn spec_parse_unsigned(s: Seq<char>, max: nat) -> Option<nat> {
    let d = spec_unsigned_digits(s);
    if d.len() > 0 && spec_all_digits(d) && spec_digits_value(d) <= max {
        Some(spec_digits_value(d))
    } else {
        None
    }
}

/// A longer run of digits never denotes a smaller number.
pub proof fn lemma_digits_value_grows(d: Seq<char>, i: int, j: int)
    requires
        0 <= i <= j <= d.len(),
    ensures
        spec_digits_value(d.take(i)) <= spec_digits_value(d.take(j)),
    decreases j - i,
{
    if i < j {
        lemma_digits_value_grows(d, i, j - 1);
        assert(d.take(j).drop_last() =~= d.take(j - 1));
    }
}

pub fn parse_unsigned(s: &[char], max: u64) -> (r: Option<u64>)
    ensures
        match r {
            Some(v) => spec_parse_unsigned(s@, max as nat) == Some(v as nat),
            None => spec_parse_unsigned(s@, max as nat) is None,
        },
{
    let start: usize = if s.len() > 0 && s[0] == '+' {
        1
    } else {
        0
    };
    let ghost d = spec_unsigned_digits(s@);
    assert(d =~= s@.subrange(start as int, s@.len() as int));
    if start == s.len() {
        return None;
    }
    let mut acc: u64 = 0;
    let mut i: usize = start;
    assert(d.take(0) =~= Seq::<char>::empty());
    while i < s.len()
        invariant
            start <= i <= s.len(),
            d == spec_unsigned_digits(s@),
            d =~= s@.subrange(start as int, s@.len() as int),
            acc as nat == spec_digits_value(d.take(i - start)),
            acc <= max,
            forall|k: int| 0 <= k < i - start ==> spec_is_digit(#[trigger] d[k]),
        decreases s.len() - i,
    {
        let c = s[i];
        assert(d[i - start] == c);
        if !('0' <= c && c <= '9') {
            assert(!spec_is_digit(d[i - start]));
            assert(!spec_all_digits(d));
            return None;
        }
        let dv: u64 = ((c as u32) - ('0' as u32)) as u64;
        let next: u128 = (acc as u128) * 10 + (dv as u128);
        assert(d.take(i - start + 1).drop_last() =~= d.take(i - start));
        assert(next == spec_digits_value(d.take(i - start + 1)));
        if next > max as u128 {
            proof {
                if spec_all_digits(d) {
                    lemma_digits_value_grows(d, i - start + 1, d.len() as int);
                    assert(d.take(d.len() as int) =~= d);
                }
            }
            return None;
        }
        acc = next as u64;
        i += 1;
    }
    assert(d.take(i - start) =~= d);
    Some(acc)
}

} // verus!
