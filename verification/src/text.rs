//! Character-level string helpers shared by the library.
use vstd::prelude::*;

verus! {

/// `String::push` appends one character at the end of the string.
pub assume_specification[ String::push ](s: &mut String, ch: char)
    ensures
        final(s)@ == old(s)@.push(ch),
;

/// The Unicode `White_Space` property: the 25 code points that carry it.
pub open spec fn is_white_space(c: char) -> bool {
    let u = c as u32;
    ||| 0x09 <= u <= 0x0D
    ||| u == 0x20
    ||| u == 0x85
    ||| u == 0xA0
    ||| u == 0x1680
    ||| 0x2000 <= u <= 0x200A
    ||| u == 0x2028
    ||| u == 0x2029
    ||| u == 0x202F
    ||| u == 0x205F
    ||| u == 0x3000
}

/// Whether `c` has the Unicode `White_Space` property, as
/// `char::is_whitespace` answers.
pub fn is_whitespace(c: char) -> (b: bool)
    ensures
        b == is_white_space(c),
{
    let u = c as u32;
    (0x09 <= u && u <= 0x0D) || u == 0x20 || u == 0x85 || u == 0xA0 || u == 0x1680 || (0x2000 <= u
        && u <= 0x200A) || u == 0x2028 || u == 0x2029 || u == 0x202F || u == 0x205F || u == 0x3000
}

/// ASCII letters and digits.
pub open spec fn is_ascii_alnum(c: char) -> bool {
    ('a' <= c <= 'z') || ('A' <= c <= 'Z') || ('0' <= c <= '9')
}

/// What `char::is_alphanumeric` answers: the Unicode `Alphabetic` or
/// `Numeric` property of `c`.
pub uninterp spec fn char_is_alphanumeric(c: char) -> bool;

/// `char::is_alphanumeric`. Its result is the named property; within ASCII
/// that property holds exactly for letters and digits.
#[verifier::external_body]
pub fn is_alphanumeric(c: char) -> (b: bool)
    ensures
        b == char_is_alphanumeric(c),
        (c as u32) < 128 ==> (b <==> is_ascii_alnum(c)),
{
    c.is_alphanumeric()
}

/// The ASCII lower-case form of one character (other characters unchanged).
pub open spec fn ascii_lower_char(c: char) -> char {
    if 'A' <= c <= 'Z' {
        ((c as u32) + 32) as char
    } else {
        c
    }
}

/// The ASCII lower-case form of a whole sequence.
pub open spec fn ascii_lower(s: Seq<char>) -> Seq<char> {
    Seq::new(s.len(), |i: int| ascii_lower_char(s[i]))
}

/// All characters are ASCII.
pub open spec fn all_ascii(s: Seq<char>) -> bool {
    forall|i: int| 0 <= i < s.len() ==> (s[i] as u32) < 128
}

/// What `str::to_lowercase` returns for a string: its Unicode lower-case form.
pub uninterp spec fn lower_case(s: Seq<char>) -> Seq<char>;

/// What `char::to_lowercase` yields for a character: its Unicode lower-case
/// mapping, one or more characters.
pub uninterp spec fn char_lower(c: char) -> Seq<char>;

/// `p` is how `str::to_lowercase` may render the character `c`: a capital
/// sigma becomes `σ`, or `ς` at the end of a word; every other character
/// becomes its own lower-case mapping.
pub open spec fn lower_part_ok(c: char, p: Seq<char>) -> bool {
    if c == 'Σ' {
        p == seq!['σ'] || p == seq!['ς']
    } else {
        p == char_lower(c)
    }
}

/// `parts` renders `s` character by character in lower case.
pub open spec fn lower_parts(s: Seq<char>, parts: Seq<Seq<char>>) -> bool {
    parts.len() == s.len() && forall|k: int|
        0 <= k < s.len() ==> #[trigger] lower_part_ok(s[k], parts[k])
}

/// Every character of `s` lower-cases to exactly one character.
pub open spec fn single_lower(s: Seq<char>) -> bool {
    forall|k: int| 0 <= k < s.len() ==> (#[trigger] char_lower(s[k])).len() == 1
}

/// The character `c` lower-cases to the single character `l`.
pub open spec fn lowers_to(c: char, l: char) -> bool {
    lower_part_ok(c, seq![l])
}

/// `r` renders `s` in lower case character by character: each character by
/// its lower-case mapping, a capital sigma by `σ` or `ς`.
pub open spec fn is_lower_rendering(s: Seq<char>, r: Seq<char>) -> bool {
    exists|parts: Seq<Seq<char>>|
        r == parts.flatten() && parts.len() == s.len() && forall|k: int|
            0 <= k < s.len() ==> if s[k] == 'Σ' {
                #[trigger] parts[k] == seq!['σ'] || parts[k] == seq!['ς']
            } else {
                parts[k] == char_lower(s[k])
            }
}

/// A character-by-character lower-case rendering of a text whose characters
/// each lower-case to one character has the text's length, and each of its
/// characters is the lower case of the text's character at the same place.
pub proof fn lemma_lower_rendering_single(s: Seq<char>, r: Seq<char>)
    requires
        is_lower_rendering(s, r),
        single_lower(s),
    ensures
        r.len() == s.len(),
        forall|k: int| 0 <= k < s.len() ==> lowers_to(s[k], #[trigger] r[k]),
{
    let parts = choose|parts: Seq<Seq<char>>|
        r == parts.flatten() && parts.len() == s.len() && forall|k: int|
            0 <= k < s.len() ==> if s[k] == 'Σ' {
                #[trigger] parts[k] == seq!['σ'] || parts[k] == seq!['ς']
            } else {
                parts[k] == char_lower(s[k])
            };
    assert forall|k: int| 0 <= k < s.len() implies #[trigger] lower_part_ok(s[k], parts[k]) by {
        let _ = parts[k];
    }
    lemma_single_lower(s, parts);
}

/// `str::to_lowercase`. The result is the named lower-case form. It is the
/// concatenation, character by character, of each character's lower-case
/// mapping (`char::to_lowercase`), except that a capital sigma becomes `σ`
/// or, at the end of a word, `ς` (which of the two, the word context decides
/// and is not stated). On an ASCII string it is the ASCII lower-case form.
#[verifier::external_body]
pub fn to_lowercase(s: &str) -> (r: String)
    ensures
        r@ == lower_case(s@),
        exists|parts: Seq<Seq<char>>|
            r@ == parts.flatten() && parts.len() == s@.len() && forall|k: int|
                0 <= k < s@.len() ==> if s@[k] == 'Σ' {
                    #[trigger] parts[k] == seq!['σ'] || parts[k] == seq!['ς']
                } else {
                    parts[k] == char_lower(s@[k])
                },
        all_ascii(s@) ==> r@ == ascii_lower(s@),
{
    s.to_lowercase()
}

proof fn lemma_flatten_singles(parts: Seq<Seq<char>>)
    requires
        forall|k: int| 0 <= k < parts.len() ==> (#[trigger] parts[k]).len() == 1,
    ensures
        parts.flatten().len() == parts.len(),
        forall|k: int| 0 <= k < parts.len() ==> parts.flatten()[k] == (#[trigger] parts[k])[0],
    decreases parts.len(),
{
    if parts.len() > 0 {
        let rest = parts.drop_first();
        assert forall|k: int| 0 <= k < rest.len() implies (#[trigger] rest[k]).len() == 1 by {
            assert(rest[k] == parts[k + 1]);
        }
        lemma_flatten_singles(rest);
        assert forall|k: int| 0 <= k < parts.len() implies parts.flatten()[k] == (
        #[trigger] parts[k])[0] by {
            if k > 0 {
                assert(rest[k - 1] == parts[k]);
            }
        }
    }
}

/// When every character of `s` lower-cases to one character, a
/// character-by-character lower-casing keeps the length, and each of its
/// characters is the lower case of the character at the same place.
pub proof fn lemma_single_lower(s: Seq<char>, parts: Seq<Seq<char>>)
    requires
        lower_parts(s, parts),
        single_lower(s),
    ensures
        parts.flatten().len() == s.len(),
        forall|k: int| 0 <= k < s.len() ==> lowers_to(s[k], #[trigger] parts.flatten()[k]),
{
    assert forall|k: int| 0 <= k < parts.len() implies (#[trigger] parts[k]).len() == 1 by {
        assert(lower_part_ok(s[k], parts[k]));
        assert(char_lower(s[k]).len() == 1);
    }
    lemma_flatten_singles(parts);
    assert forall|k: int| 0 <= k < s.len() implies lowers_to(s[k], #[trigger] parts.flatten()[k]) by {
        assert(lower_part_ok(s[k], parts[k]));
        assert(parts[k].len() == 1);
        assert(parts[k] =~= seq![parts[k][0]]);
    }
}

/// The characters of `s`, in order.
pub fn chars_of(s: &str) -> (r: Vec<char>)
    ensures
        r@ == s@,
{
    let mut out: Vec<char> = Vec::new();
    for c in it: s.chars()
        invariant
            out@ == it.seq().take(it.index() as int),
    {
        out.push(c);
    }
    out
}

/// A `String` holding exactly the characters of `cs`.
pub fn string_of(cs: &[char]) -> (r: String)
    ensures
        r@ == cs@,
{
    let mut out = String::new();
    let n = cs.len();
    for i in 0..n
        invariant
            n == cs@.len(),
            out@ == cs@.take(i as int),
    {
        out.push(cs[i]);
        assert(cs@.take(i + 1) == cs@.take(i as int).push(cs@[i as int]));
    }
    assert(cs@.take(n as int) == cs@);
    out
}

/// Appends the characters of `s` to `out`.
pub fn push_str(out: &mut Vec<char>, s: &str)
    ensures
        final(out)@ == old(out)@ + s@,
{
    let mut cs = chars_of(s);
    out.append(&mut cs);
}

/// Concatenation of `a`, `b` and `c` as a new `String`.
pub fn concat3(a: &str, b: &str, c: &str) -> (r: String)
    ensures
        r@ == a@ + b@ + c@,
{
    let mut out: Vec<char> = Vec::new();
    push_str(&mut out, a);
    push_str(&mut out, b);
    push_str(&mut out, c);
    string_of(&out)
}

/// Whether two strings hold the same characters.
pub fn str_eq(a: &str, b: &str) -> (r: bool)
    ensures
        r == (a@ == b@),
{
    let ac = chars_of(a);
    let bc = chars_of(b);
    if ac.len() != bc.len() {
        return false;
    }
    let n = ac.len();
    for i in 0..n
        invariant
            n == ac@.len(),
            n == bc@.len(),
            ac@ == a@,
            bc@ == b@,
            forall|k: int| 0 <= k < i ==> ac@[k] == bc@[k],
    {
        if ac[i] != bc[i] {
            assert(ac@[i as int] != bc@[i as int]);
            return false;
        }
    }
    assert(ac@ =~= bc@);
    true
}

/// `p` is a prefix of `s`.
pub open spec fn has_prefix(s: Seq<char>, p: Seq<char>) -> bool {
    p.len() <= s.len() && s.subrange(0, p.len() as int) == p
}

/// Whether `s` starts with `p`.
pub fn starts_with(s: &[char], p: &str) -> (b: bool)
    ensures
        b == has_prefix(s@, p@),
{
    let pc = chars_of(p);
    if pc.len() > s.len() {
        return false;
    }
    let n = pc.len();
    for i in 0..n
        invariant
            n == pc@.len(),
            pc@ == p@,
            n <= s@.len(),
            forall|j: int| 0 <= j < i ==> s@[j] == pc@[j],
    {
        if s[i] != pc[i] {
            return false;
        }
    }
    assert(s@.subrange(0, n as int) =~= p@);
    true
}

/// Index of the first character at or after `i` that is not white space
/// (the length when there is none).
pub open spec fn skip_ws(s: Seq<char>, i: int) -> int
    decreases s.len() - i,
{
    if i < 0 || i >= s.len() {
        s.len() as int
    } else if is_white_space(s[i]) {
        skip_ws(s, i + 1)
    } else {
        i
    }
}

/// One past the last character before `j` that is not white space
/// (0 when there is none).
pub open spec fn back_ws(s: Seq<char>, j: int) -> int
    decreases j,
{
    if j <= 0 || j > s.len() {
        0
    } else if is_white_space(s[j - 1]) {
        back_ws(s, j - 1)
    } else {
        j
    }
}

/// `s` without leading and trailing white space, as `str::trim` gives it.
pub open spec fn trim_ws(s: Seq<char>) -> Seq<char> {
    let a = skip_ws(s, 0);
    let b = back_ws(s, s.len() as int);
    if a < b {
        s.subrange(a, b)
    } else {
        Seq::empty()
    }
}

/// `skip_ws` stops at the first character that is not white space.
pub proof fn lemma_skip_ws_bounds(s: Seq<char>, i: int)
    requires
        0 <= i <= s.len(),
    ensures
        i <= skip_ws(s, i) <= s.len(),
        skip_ws(s, i) < s.len() ==> !is_white_space(s[skip_ws(s, i)]),
        forall|k: int| i <= k < skip_ws(s, i) ==> is_white_space(#[trigger] s[k]),
    decreases s.len() - i,
{
    if i < s.len() && is_white_space(s[i]) {
        lemma_skip_ws_bounds(s, i + 1);
    }
}

/// `back_ws` stops after the last character that is not white space.
pub proof fn lemma_back_ws_bounds(s: Seq<char>, j: int)
    requires
        0 <= j <= s.len(),
    ensures
        0 <= back_ws(s, j) <= j,
        back_ws(s, j) > 0 ==> !is_white_space(s[back_ws(s, j) - 1]),
        forall|k: int| back_ws(s, j) <= k < j ==> is_white_space(#[trigger] s[k]),
    decreases j,
{
    if j > 0 && is_white_space(s[j - 1]) {
        lemma_back_ws_bounds(s, j - 1);
    }
}

/// `str::trim` on a character sequence.
pub fn trim(s: &[char]) -> (r: Vec<char>)
    ensures
        r@ == trim_ws(s@),
{
    let n = s.len();
    let mut a: usize = 0;
    while a < n && is_whitespace(s[a])
        invariant
            a <= n,
            n == s@.len(),
            skip_ws(s@, a as int) == skip_ws(s@, 0),
        decreases n - a,
    {
        a = a + 1;
    }
    let mut b: usize = n;
    while b > 0 && is_whitespace(s[b - 1])
        invariant
            b <= n,
            n == s@.len(),
            back_ws(s@, b as int) == back_ws(s@, n as int),
        decreases b,
    {
        b = b - 1;
    }
    let mut out: Vec<char> = Vec::new();
    if a < b {
        let mut i = a;
        while i < b
            invariant
                a <= i <= b <= n,
                n == s@.len(),
                out@ == s@.subrange(a as int, i as int),
            decreases b - i,
        {
            out.push(s[i]);
            i = i + 1;
        }
    }
    out
}

/// `s` with no white space at either end stays the same under `trim_ws`.
pub proof fn lemma_trim_ws_fixed(s: Seq<char>)
    requires
        s.len() > 0,
        !is_white_space(s[0]),
        !is_white_space(s[s.len() - 1]),
    ensures
        trim_ws(s) == s,
{
    assert(s.subrange(0, s.len() as int) == s);
}

/// Index of the first character at or after `i` that differs from `c`.
pub open spec fn skip_char(s: Seq<char>, i: int, c: char) -> int
    decreases s.len() - i,
{
    if i < 0 || i >= s.len() {
        s.len() as int
    } else if s[i] == c {
        skip_char(s, i + 1, c)
    } else {
        i
    }
}

/// One past the last character before `j` that differs from `c`.
pub open spec fn back_char(s: Seq<char>, j: int, c: char) -> int
    decreases j,
{
    if j <= 0 || j > s.len() {
        0
    } else if s[j - 1] == c {
        back_char(s, j - 1, c)
    } else {
        j
    }
}

/// `s` without any leading or trailing `c`, as `str::trim_matches(c)` gives it.
pub open spec fn trim_char(s: Seq<char>, c: char) -> Seq<char> {
    let a = skip_char(s, 0, c);
    let b = back_char(s, s.len() as int, c);
    if a < b {
        s.subrange(a, b)
    } else {
        Seq::empty()
    }
}

/// `skip_char` stops at the first character that differs from `c`.
pub proof fn lemma_skip_char_bounds(s: Seq<char>, i: int, c: char)
    requires
        0 <= i <= s.len(),
    ensures
        i <= skip_char(s, i, c) <= s.len(),
        skip_char(s, i, c) < s.len() ==> s[skip_char(s, i, c)] != c,
    decreases s.len() - i,
{
    if i < s.len() && s[i] == c {
        lemma_skip_char_bounds(s, i + 1, c);
    }
}

/// `back_char` stops after the last character that differs from `c`.
pub proof fn lemma_back_char_bounds(s: Seq<char>, j: int, c: char)
    requires
        0 <= j <= s.len(),
    ensures
        0 <= back_char(s, j, c) <= j,
        back_char(s, j, c) > 0 ==> s[back_char(s, j, c) - 1] != c,
    decreases j,
{
    if j > 0 && s[j - 1] == c {
        lemma_back_char_bounds(s, j - 1, c);
    }
}

/// A non-empty sequence with trimmed ends neither starts nor ends with `c`.
pub proof fn lemma_trim_char_ends(s: Seq<char>, c: char)
    ensures
        trim_char(s, c).len() > 0 ==> trim_char(s, c)[0] != c && trim_char(s, c)[trim_char(s, c).len()
            - 1] != c,
{
    lemma_skip_char_bounds(s, 0, c);
    lemma_back_char_bounds(s, s.len() as int, c);
}

/// Trimming `c` from `c` + `t` + `c`, where `t` neither starts nor ends with
/// `c`, gives `t`; when `t` is empty it gives nothing.
pub proof fn lemma_trim_char_wrapped(t: Seq<char>, c: char)
    requires
        t.len() > 0 ==> t[0] != c && t[t.len() - 1] != c,
    ensures
        trim_char(seq![c] + t + seq![c], c) == t,
{
    let u = seq![c] + t + seq![c];
    let n = u.len() as int;
    if t.len() > 0 {
        assert(u[1] == t[0]);
        assert(skip_char(u, 1, c) == 1);
        assert(skip_char(u, 0, c) == 1);
        assert(u[n - 2] == t[t.len() - 1]);
        assert(back_char(u, n - 1, c) == n - 1);
        assert(back_char(u, n, c) == n - 1);
        assert(u.subrange(1, n - 1) =~= t);
    } else {
        assert(skip_char(u, 2, c) == 2);
        assert(skip_char(u, 1, c) == 2);
        assert(skip_char(u, 0, c) == 2);
        assert(back_char(u, 0, c) == 0);
        assert(back_char(u, 1, c) == 0);
        assert(back_char(u, 2, c) == 0);
        assert(t =~= Seq::<char>::empty());
    }
}

/// `str::trim_matches` with a single character, on a character sequence.
pub fn trim_matches(s: &[char], c: char) -> (r: Vec<char>)
    ensures
        r@ == trim_char(s@, c),
{
    let n = s.len();
    let mut a: usize = 0;
    while a < n && s[a] == c
        invariant
            a <= n,
            n == s@.len(),
            skip_char(s@, a as int, c) == skip_char(s@, 0, c),
        decreases n - a,
    {
        a = a + 1;
    }
    let mut b: usize = n;
    while b > 0 && s[b - 1] == c
        invariant
            b <= n,
            n == s@.len(),
            back_char(s@, b as int, c) == back_char(s@, n as int, c),
        decreases b,
    {
        b = b - 1;
    }
    let mut out: Vec<char> = Vec::new();
    if a < b {
        let mut i = a;
        while i < b
            invariant
                a <= i <= b <= n,
                n == s@.len(),
                out@ == s@.subrange(a as int, i as int),
            decreases b - i,
        {
            out.push(s[i]);
            i = i + 1;
        }
    }
    out
}

/// Index of the first white-space character at or after `i` (the length when
/// there is none).
pub open spec fn word_end(s: Seq<char>, i: int) -> int
    decreases s.len() - i,
{
    if i < 0 || i >= s.len() {
        s.len() as int
    } else if is_white_space(s[i]) {
        i
    } else {
        word_end(s, i + 1)
    }
}

/// `word_end` lies between `i` and the end, past `i` when `s[i]` is not
/// white space.
pub proof fn lemma_word_end_bounds(s: Seq<char>, i: int)
    requires
        0 <= i <= s.len(),
    ensures
        i <= word_end(s, i) <= s.len(),
        i < s.len() && !is_white_space(s[i]) ==> i < word_end(s, i),
    decreases s.len() - i,
{
    if i < s.len() && !is_white_space(s[i]) {
        lemma_word_end_bounds(s, i + 1);
    }
}

/// `a` and `b` joined by one space, leaving out the space when either is
/// empty.
pub open spec fn join_nonempty(a: Seq<char>, b: Seq<char>) -> Seq<char> {
    if a.len() == 0 {
        b
    } else if b.len() == 0 {
        a
    } else {
        a + seq![' '] + b
    }
}

/// The white-space separated words of `s` from index `i` on, joined by single
/// spaces.
pub open spec fn collapse_from(s: Seq<char>, i: int) -> Seq<char>
    decreases s.len() - i,
{
    if i < 0 || i > s.len() {
        Seq::empty()
    } else {
        let j = skip_ws(s, i);
        if j >= s.len() {
            Seq::empty()
        } else {
            proof {
                lemma_skip_ws_bounds(s, i);
                lemma_word_end_bounds(s, j);
            }
            let k = word_end(s, j);
            join_nonempty(s.subrange(j, k), collapse_from(s, k))
        }
    }
}

/// The words of `s` (as `str::split_whitespace` finds them) joined by single
/// spaces.
pub open spec fn collapse_ws(s: Seq<char>) -> Seq<char> {
    collapse_from(s, 0)
}

/// No white space at either end, and inside only single spaces between
/// characters that are not white space.
pub open spec fn is_collapsed(t: Seq<char>) -> bool {
    forall|k: int|
        0 <= k < t.len() && is_white_space(#[trigger] t[k]) ==> t[k] == ' ' && 0 < k < t.len() - 1
            && !is_white_space(t[k - 1]) && !is_white_space(t[k + 1])
}

proof fn lemma_word_is_solid(s: Seq<char>, i: int)
    requires
        0 <= i <= s.len(),
    ensures
        forall|k: int| i <= k < word_end(s, i) ==> !is_white_space(#[trigger] s[k]),
    decreases s.len() - i,
{
    lemma_word_end_bounds(s, i);
    if i < s.len() && !is_white_space(s[i]) {
        lemma_word_is_solid(s, i + 1);
    }
}

/// The collapsed text has single spaces between words and no white space at
/// its ends.
pub proof fn lemma_collapse_shape(s: Seq<char>, i: int)
    ensures
        is_collapsed(collapse_from(s, i)),
    decreases s.len() - i,
{
    if 0 <= i <= s.len() {
        let j = skip_ws(s, i);
        lemma_skip_ws_bounds(s, i);
        if j < s.len() {
            lemma_word_end_bounds(s, j);
            lemma_word_is_solid(s, j);
            let k = word_end(s, j);
            lemma_collapse_shape(s, k);
            let w = s.subrange(j, k);
            let rest = collapse_from(s, k);
            let c = collapse_from(s, i);
            assert(c == join_nonempty(w, rest));
            if rest.len() == 0 {
                assert(c == w);
                assert forall|m: int| 0 <= m < c.len() implies !is_white_space(#[trigger] c[m]) by {
                    assert(c[m] == s[j + m]);
                }
            } else {
                assert forall|m: int|
                    0 <= m < c.len() && is_white_space(#[trigger] c[m]) implies c[m] == ' ' && 0 < m
                    < c.len() - 1 && !is_white_space(c[m - 1]) && !is_white_space(c[m + 1]) by {
                    if m < w.len() {
                        assert(c[m] == s[j + m]);
                    } else if m == w.len() {
                        assert(c[m - 1] == s[k - 1]);
                        assert(c[m + 1] == rest[0]);
                        assert(!is_white_space(rest[0]));
                    } else {
                        let r = m - w.len() - 1;
                        assert(c[m] == rest[r]);
                        if r == 0 {
                            assert(!is_white_space(rest[0]));
                        }
                        assert(c[m - 1] == if r == 0 { ' ' } else { rest[r - 1] });
                        assert(c[m + 1] == rest[r + 1]);
                    }
                }
            }
        }
    }
}

/// Collapses every run of white space to one space and drops white space at
/// both ends.
pub fn collapse_whitespace(s: &[char]) -> (r: Vec<char>)
    ensures
        r@ == collapse_ws(s@),
{
    let n = s.len();
    let mut out: Vec<char> = Vec::new();
    let mut i: usize = 0;
    while i < n
        invariant
            i <= n,
            n == s@.len(),
            join_nonempty(out@, collapse_from(s@, i as int)) == collapse_ws(s@),
        decreases n - i,
    {
        let ghost i0 = i as int;
        while i < n && is_whitespace(s[i])
            invariant
                i0 <= i <= n,
                n == s@.len(),
                skip_ws(s@, i as int) == skip_ws(s@, i0),
            decreases n - i,
        {
            i = i + 1;
        }
        if i < n {
            let j = i;
            proof {
                lemma_skip_ws_bounds(s@, i0);
                lemma_word_end_bounds(s@, j as int);
            }
            while i < n && !is_whitespace(s[i])
                invariant
                    j <= i <= n,
                    n == s@.len(),
                    word_end(s@, i as int) == word_end(s@, j as int),
                decreases n - i,
            {
                i = i + 1;
            }
            let ghost w = s@.subrange(j as int, i as int);
            let ghost rest = collapse_from(s@, i as int);
            let ghost before = out@;
            if out.len() > 0 {
                out.push(' ');
            }
            let mut k = j;
            let ghost mid = out@;
            while k < i
                invariant
                    j <= k <= i <= n,
                    n == s@.len(),
                    out@ == mid + s@.subrange(j as int, k as int),
                decreases i - k,
            {
                out.push(s[k]);
                k = k + 1;
            }
            proof {
                assert(collapse_from(s@, i0) == join_nonempty(w, rest));
                assert(w.len() > 0);
                if before.len() == 0 {
                    assert(out@ =~= w);
                } else {
                    assert(out@ =~= before + seq![' '] + w);
                    if rest.len() > 0 {
                        assert(before + seq![' '] + (w + seq![' '] + rest) =~= out@ + seq![' ']
                            + rest);
                    }
                }
            }
        } else {
            proof {
                lemma_skip_ws_bounds(s@, i0);
                assert(collapse_from(s@, i as int) =~= Seq::<char>::empty());
            }
        }
    }
    proof {
        assert(collapse_from(s@, n as int) =~= Seq::<char>::empty());
        lemma_skip_ws_bounds(s@, n as int);
    }
    out
}

/// The pieces joined by single spaces (no space is left out).
pub open spec fn join_with_space(ts: Seq<Seq<char>>) -> Seq<char>
    decreases ts.len(),
{
    if ts.len() == 0 {
        Seq::empty()
    } else if ts.len() == 1 {
        ts[0]
    } else {
        join_with_space(ts.drop_last()) + seq![' '] + ts.last()
    }
}

/// The pieces of `ts` joined by single spaces.
pub fn join_space(ts: &Vec<String>) -> (r: Vec<char>)
    ensures
        r@ == join_with_space(ts@.map_values(|t: String| t@)),
{
    let ghost vs = ts@.map_values(|t: String| t@);
    let n = ts.len();
    let mut out: Vec<char> = Vec::new();
    for i in 0..n
        invariant
            n == ts@.len(),
            vs == ts@.map_values(|t: String| t@),
            out@ == join_with_space(vs.take(i as int)),
    {
        let ghost before = out@;
        if i > 0 {
            out.push(' ');
        }
        push_str(&mut out, ts[i].as_str());
        proof {
            assert(vs.take(i + 1).drop_last() =~= vs.take(i as int));
            if i == 0 {
                assert(out@ =~= vs.take(1)[0]);
            }
        }
    }
    proof {
        assert(vs.take(n as int) =~= vs);
    }
    out
}

/// `w` occurs in `t` starting at index `i`.
pub open spec fn occurs_at(t: Seq<char>, w: Seq<char>, i: int) -> bool {
    0 <= i && i + w.len() <= t.len() && t.subrange(i, i + w.len()) == w
}

/// The first index at or after `from` where `w` occurs in `t`, or -1.
pub open spec fn next_occurrence(t: Seq<char>, w: Seq<char>, from: int) -> int
    decreases t.len() + 1 - from,
{
    if from < 0 || from + w.len() > t.len() {
        -1
    } else if occurs_at(t, w, from) {
        from
    } else {
        next_occurrence(t, w, from + 1)
    }
}

/// Whether `w` occurs in `t` at index `i`.
pub fn occurs_at_exec(t: &Vec<char>, w: &Vec<char>, i: usize) -> (b: bool)
    ensures
        b == occurs_at(t@, w@, i as int),
{
    if w.len() > t.len() || i > t.len() - w.len() {
        return false;
    }
    let m = w.len();
    for k in 0..m
        invariant
            m == w@.len(),
            i + m <= t@.len(),
            t@.len() <= usize::MAX,
            forall|j: int| 0 <= j < k ==> t@[i + j] == w@[j],
    {
        assert(i + k < t@.len());
        if t[i + k] != w[k] {
            assert(t@.subrange(i as int, i + m)[k as int] != w@[k as int]);
            return false;
        }
    }
    assert(t@.subrange(i as int, i + m) =~= w@);
    true
}

/// The first index at or after `from` where `w` occurs in `t`.
pub fn next_occurrence_exec(t: &Vec<char>, w: &Vec<char>, from: usize) -> (r: Option<usize>)
    requires
        from <= t@.len(),
    ensures
        match r {
            Some(i) => i as int == next_occurrence(t@, w@, from as int),
            None => next_occurrence(t@, w@, from as int) == -1,
        },
{
    if w.len() > t.len() {
        return None;
    }
    if w.len() == 0 {
        assert(t@.subrange(from as int, from as int) =~= w@);
        return Some(from);
    }
    let last = t.len() - w.len();
    let mut i = from;
    while i <= last
        invariant
            from <= i,
            last + w@.len() == t@.len(),
            w@.len() > 0,
            t@.len() <= usize::MAX,
            next_occurrence(t@, w@, i as int) == next_occurrence(t@, w@, from as int),
        decreases last + 1 - i,
    {
        if occurs_at_exec(t, w, i) {
            return Some(i);
        }
        i = i + 1;
    }
    None
}

/// The next occurrence found is an occurrence, at or after `from`.
pub proof fn lemma_next_occurrence(t: Seq<char>, w: Seq<char>, from: int)
    requires
        0 <= from,
    ensures
        next_occurrence(t, w, from) == -1 || (from <= next_occurrence(t, w, from) && occurs_at(
            t,
            w,
            next_occurrence(t, w, from),
        )),
    decreases t.len() + 1 - from,
{
    if from + w.len() <= t.len() && !occurs_at(t, w, from) {
        lemma_next_occurrence(t, w, from + 1);
    }
}

/// `p` occurs somewhere in `s`.
pub open spec fn contains_seq(s: Seq<char>, p: Seq<char>) -> bool {
    next_occurrence(s, p, 0) >= 0
}

/// Whether `p` occurs in `s`, as `str::contains` answers for a string pattern.
pub fn contains_str(s: &str, p: &str) -> (b: bool)
    ensures
        b == contains_seq(s@, p@),
        b ==> exists|i: int| occurs_at(s@, p@, i),
{
    let sc = chars_of(s);
    let pc = chars_of(p);
    if pc.len() > sc.len() {
        return false;
    }
    proof {
        lemma_next_occurrence(s@, p@, 0);
    }
    next_occurrence_exec(&sc, &pc, 0).is_some()
}

/// The decimal digit for `d` (below ten).
pub open spec fn digit_char(d: int) -> char {
    ((48 + d) as u32) as char
}

/// The decimal numeral of `n`, without leading zeros.
pub open spec fn decimal(n: nat) -> Seq<char>
    decreases n,
{
    if n < 10 {
        seq![digit_char(n as int)]
    } else {
        decimal(n / 10) + seq![digit_char((n % 10) as int)]
    }
}

/// Appends the decimal numeral of `n` to `out`.
pub fn push_decimal(out: &mut Vec<char>, n: usize)
    ensures
        final(out)@ == old(out)@ + decimal(n as nat),
    decreases n,
{
    if n >= 10 {
        push_decimal(out, n / 10);
    }
    let d = (n % 10) as u8;
    let c = (48u8 + d) as char;
    out.push(c);
}

/// A non-empty trimmed sequence starts and ends with a character that is not
/// white space.
pub proof fn lemma_trim_ws_ends(s: Seq<char>)
    ensures
        trim_ws(s).len() > 0 ==> !is_white_space(trim_ws(s)[0]) && !is_white_space(
            trim_ws(s)[trim_ws(s).len() - 1],
        ),
        trim_ws(s).len() <= s.len(),
{
    lemma_skip_ws_bounds(s, 0);
    lemma_back_ws_bounds(s, s.len() as int);
}

/// Trimming twice is trimming once.
pub proof fn lemma_trim_ws_idempotent(s: Seq<char>)
    ensures
        trim_ws(trim_ws(s)) == trim_ws(s),
{
    lemma_skip_ws_bounds(s, 0);
    lemma_back_ws_bounds(s, s.len() as int);
    let t = trim_ws(s);
    if t.len() > 0 {
        lemma_trim_ws_fixed(t);
    }
}

} // verus!
