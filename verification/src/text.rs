//! Character and substring utilities shared by the naming, configuration,
//! and help-text modules: substring search, case mapping, repetition, and
//! leftmost non-overlapping replacement, all specified over character
//! sequences.

use vstd::prelude::*;

verus! {

/// The needle occurs in the haystack starting at index `i`.
pub open spec fn occurs_at(hay: Seq<char>, needle: Seq<char>, i: int) -> bool {
    0 <= i && i + needle.len() <= hay.len() && hay.subrange(i, i + needle.len()) == needle
}

/// The haystack contains the needle somewhere.
pub open spec fn contains_seq(hay: Seq<char>, needle: Seq<char>) -> bool {
    exists|i: int| occurs_at(hay, needle, i)
}

/// Appends one character to a string.
///
/// Relies on `String::push`: appends the given char to the end of the string.
#[verifier::external_body]
pub fn push_char(s: &mut String, c: char)
    ensures
        final(s)@ == old(s)@ + seq![c],
{
    s.push(c);
}

/// Character-wise string equality.
pub fn str_eq(a: &str, b: &str) -> (r: bool)
    ensures
        r == (a@ == b@),
{
    let al = a.unicode_len();
    let bl = b.unicode_len();
    if al != bl {
        proof {
            assert(a@ != b@);
        }
        return false;
    }
    let mut i: usize = 0;
    while i < al
        invariant
            0 <= i <= al,
            al == a@.len(),
            al == b@.len(),
            forall|k: int| 0 <= k < i ==> a@[k] == b@[k],
        decreases al - i,
    {
        if a.get_char(i) != b.get_char(i) {
            proof {
                assert(a@ != b@);
            }
            return false;
        }
        i = i + 1;
    }
    proof {
        assert(a@ =~= b@);
    }
    true
}

/// Whether the needle occurs at position `i` of the haystack.
fn matches_at(hay: &str, needle: &str, i: usize) -> (r: bool)
    requires
        i + needle@.len() <= hay@.len(),
    ensures
        r == occurs_at(hay@, needle@, i as int),
{
    let nl = needle.unicode_len();
    let hl = hay.unicode_len();
    let mut k: usize = 0;
    while k < nl
        invariant
            0 <= k <= nl,
            nl == needle@.len(),
            hl == hay@.len(),
            i + nl <= hl,
            forall|j: int| 0 <= j < k ==> hay@[i + j] == needle@[j],
        decreases nl - k,
    {
        if hay.get_char(i + k) != needle.get_char(k) {
            proof {
                assert(hay@.subrange(i as int, i + needle@.len())[k as int] == hay@[i + k]);
                assert(hay@.subrange(i as int, i + needle@.len()) != needle@);
            }
            return false;
        }
        k = k + 1;
    }
    proof {
        assert(hay@.subrange(i as int, i + needle@.len()) =~= needle@);
    }
    true
}

/// Index of the first occurrence of the needle in the haystack, if any.
pub fn find_sub(hay: &str, needle: &str) -> (r: Option<usize>)
    ensures
        match r {
            Some(i) => occurs_at(hay@, needle@, i as int) && forall|j: int|
                0 <= j < i ==> !occurs_at(hay@, needle@, j),
            None => !contains_seq(hay@, needle@),
        },
{
    let hl = hay.unicode_len();
    let nl = needle.unicode_len();
    if nl > hl {
        return None;
    }
    let mut i: usize = 0;
    loop
        invariant
            0 <= i <= hl - nl,
            nl <= hl,
            hl == hay@.len(),
            nl == needle@.len(),
            forall|j: int| 0 <= j < i ==> !occurs_at(hay@, needle@, j),
        decreases hl - nl - i,
    {
        if matches_at(hay, needle, i) {
            return Some(i);
        }
        if i == hl - nl {
            return None;
        }
        i = i + 1;
    }
}

/// Index of the last occurrence of the needle in the haystack, if any.
pub fn rfind_sub(hay: &str, needle: &str) -> (r: Option<usize>)
    ensures
        match r {
            Some(i) => occurs_at(hay@, needle@, i as int) && forall|j: int|
                i < j ==> !occurs_at(hay@, needle@, j),
            None => !contains_seq(hay@, needle@),
        },
{
    let hl = hay.unicode_len();
    let nl = needle.unicode_len();
    if nl > hl {
        return None;
    }
    let mut i: usize = hl - nl;
    loop
        invariant
            0 <= i <= hl - nl,
            nl <= hl,
            hl == hay@.len(),
            nl == needle@.len(),
            forall|j: int| i < j ==> !occurs_at(hay@, needle@, j),
        decreases i,
    {
        if matches_at(hay, needle, i) {
            return Some(i);
        }
        if i == 0 {
            return None;
        }
        i = i - 1;
    }
}

/// Whether the haystack contains the needle.
pub fn contains_sub(hay: &str, needle: &str) -> (r: bool)
    ensures
        r == contains_seq(hay@, needle@),
{
    match find_sub(hay, needle) {
        Some(_) => true,
        None => false,
    }
}

/// Index of the first occurrence of the character, if any.
pub fn find_char(s: &str, c: char) -> (r: Option<usize>)
    ensures
        match r {
            Some(i) => i < s@.len() && s@[i as int] == c && forall|j: int|
                0 <= j < i ==> s@[j] != c,
            None => forall|j: int| 0 <= j < s@.len() ==> s@[j] != c,
        },
{
    let l = s.unicode_len();
    let mut i: usize = 0;
    while i < l
        invariant
            0 <= i <= l,
            l == s@.len(),
            forall|j: int| 0 <= j < i ==> s@[j] != c,
        decreases l - i,
    {
        if s.get_char(i) == c {
            return Some(i);
        }
        i = i + 1;
    }
    None
}

/// Index of the last occurrence of the character, if any.
pub fn rfind_char(s: &str, c: char) -> (r: Option<usize>)
    ensures
        match r {
            Some(i) => i < s@.len() && s@[i as int] == c && forall|j: int|
                i < j < s@.len() ==> s@[j] != c,
            None => forall|j: int| 0 <= j < s@.len() ==> s@[j] != c,
        },
{
    let l = s.unicode_len();
    if l == 0 {
        return None;
    }
    let mut i: usize = l - 1;
    loop
        invariant
            0 <= i <= l - 1,
            l == s@.len(),
            forall|j: int| i < j < l ==> s@[j] != c,
        decreases i,
    {
        if s.get_char(i) == c {
            return Some(i);
        }
        if i == 0 {
            return None;
        }
        i = i - 1;
    }
}

/// Index of the first occurrence of the needle in the haystack, `-1` when
/// it never occurs.
pub open spec fn first_occur(hay: Seq<char>, needle: Seq<char>) -> int
    decreases hay.len(),
{
    if hay.len() < needle.len() {
        -1
    } else if hay.subrange(0, needle.len() as int) == needle {
        0
    } else if hay.len() == 0 {
        -1
    } else {
        let r = first_occur(hay.skip(1), needle);
        if r < 0 {
            -1
        } else {
            r + 1
        }
    }
}

/// Index of the last occurrence of the needle in the haystack, `-1` when
/// it never occurs.
pub open spec fn last_occur(hay: Seq<char>, needle: Seq<char>) -> int
    decreases hay.len(),
{
    if hay.len() < needle.len() {
        -1
    } else if hay.subrange(hay.len() - needle.len(), hay.len() as int) == needle {
        hay.len() - needle.len()
    } else if hay.len() == 0 {
        -1
    } else {
        last_occur(hay.drop_last(), needle)
    }
}

/// The suffix after the last occurrence of the character; the whole string
/// when the character never occurs.
pub open spec fn after_last_char(s: Seq<char>, c: char) -> Seq<char>
    decreases s.len(),
{
    if s.len() == 0 {
        s
    } else if s.last() == c {
        Seq::empty()
    } else {
        after_last_char(s.drop_last(), c).push(s.last())
    }
}

/// The prefix before the first occurrence of the character; the whole
/// string when the character never occurs.
pub open spec fn before_first_char(s: Seq<char>, c: char) -> Seq<char>
    decreases s.len(),
{
    if s.len() == 0 {
        s
    } else if s[0] == c {
        Seq::empty()
    } else {
        seq![s[0]] + before_first_char(s.skip(1), c)
    }
}

/// Index of the first occurrence of the character, `-1` when it never
/// occurs.
pub open spec fn char_first(s: Seq<char>, c: char) -> int
    decreases s.len(),
{
    if s.len() == 0 {
        -1
    } else if s[0] == c {
        0
    } else {
        let r = char_first(s.skip(1), c);
        if r < 0 {
            -1
        } else {
            r + 1
        }
    }
}

/// The suffix after the first occurrence of the character; the whole
/// string when the character never occurs.
pub open spec fn after_first_char(s: Seq<char>, c: char) -> Seq<char> {
    if char_first(s, c) < 0 {
        s
    } else {
        s.skip(char_first(s, c) + 1)
    }
}

/// Ties a witnessed first position of `c` to `char_first`.
pub proof fn lemma_char_first_at(s: Seq<char>, c: char, i: int)
    requires
        0 <= i < s.len(),
        s[i] == c,
        forall|j: int| 0 <= j < i ==> s[j] != c,
    ensures
        char_first(s, c) == i,
    decreases s.len(),
{
    if i == 0 {
    } else {
        assert(s[0] != c);
        lemma_char_first_at(s.skip(1), c, i - 1);
    }
}

/// Without any occurrence of `c`, `char_first` is `-1`.
pub proof fn lemma_char_first_none(s: Seq<char>, c: char)
    requires
        forall|j: int| 0 <= j < s.len() ==> s[j] != c,
    ensures
        char_first(s, c) == -1,
    decreases s.len(),
{
    if s.len() > 0 {
        assert(s[0] != c);
        lemma_char_first_none(s.skip(1), c);
    }
}

/// The suffix of the string after the first occurrence of the character,
/// or the whole string when the character never occurs.
pub fn after_first_char_str<'a>(s: &'a str, c: char) -> (r: &'a str)
    ensures
        r@ == after_first_char(s@, c),
{
    let l = s.unicode_len();
    match find_char(s, c) {
        Some(i) => {
            proof {
                lemma_char_first_at(s@, c, i as int);
            }
            let r = s.substring_char(i + 1, l);
            proof {
                assert(s@.subrange(i as int + 1, l as int) =~= s@.skip(i as int + 1));
            }
            r
        },
        None => {
            proof {
                lemma_char_first_none(s@, c);
            }
            s
        },
    }
}

/// ASCII whitespace, as configuration files use it.
pub open spec fn is_space(c: char) -> bool {
    c == ' ' || c == '\t' || c == '\n' || c == '\r'
}

/// The string without its leading ASCII whitespace.
pub open spec fn trim_start(s: Seq<char>) -> Seq<char>
    decreases s.len(),
{
    if s.len() > 0 && is_space(s[0]) {
        trim_start(s.skip(1))
    } else {
        s
    }
}

/// The string without its trailing ASCII whitespace.
pub open spec fn trim_end(s: Seq<char>) -> Seq<char>
    decreases s.len(),
{
    if s.len() > 0 && is_space(s.last()) {
        trim_end(s.drop_last())
    } else {
        s
    }
}

/// The string without leading or trailing ASCII whitespace.
pub open spec fn spec_trim(s: Seq<char>) -> Seq<char> {
    trim_end(trim_start(s))
}

/// Ties a witnessed first non-space position to `trim_start`.
proof fn lemma_trim_start_at(s: Seq<char>, i: int)
    requires
        0 <= i <= s.len(),
        forall|j: int| 0 <= j < i ==> is_space(s[j]),
        i < s.len() ==> !is_space(s[i]),
    ensures
        trim_start(s) == s.skip(i),
    decreases s.len(),
{
    if i == 0 {
        assert(s.skip(0) =~= s);
    } else {
        assert(is_space(s[0]));
        lemma_trim_start_at(s.skip(1), i - 1);
        assert(s.skip(1).skip(i - 1) =~= s.skip(i));
    }
}

/// Ties a witnessed last non-space position to `trim_end`.
proof fn lemma_trim_end_at(s: Seq<char>, i: int)
    requires
        0 <= i <= s.len(),
        forall|j: int| i <= j < s.len() ==> is_space(s[j]),
        i > 0 ==> !is_space(s[i - 1]),
    ensures
        trim_end(s) == s.take(i),
    decreases s.len(),
{
    if i == s.len() {
        assert(s.take(i) =~= s);
    } else {
        assert(is_space(s.last()));
        lemma_trim_end_at(s.drop_last(), i);
        assert(s.drop_last().take(i) =~= s.take(i));
    }
}

/// Checks ASCII whitespace.
fn is_space_char(c: char) -> (r: bool)
    ensures
        r == is_space(c),
{
    c == ' ' || c == '\t' || c == '\n' || c == '\r'
}

/// Index of the first non-whitespace character, or the length when the
/// string is all whitespace.
fn first_non_space(s: &str) -> (a: usize)
    ensures
        a <= s@.len(),
        forall|j: int| 0 <= j < a ==> is_space(s@[j]),
        (a as int) < s@.len() ==> !is_space(s@[a as int]),
{
    let l = s.unicode_len();
    let mut a: usize = 0;
    while a < l
        invariant
            0 <= a <= l,
            l == s@.len(),
            forall|j: int| 0 <= j < a ==> is_space(s@[j]),
        decreases l - a,
    {
        if !is_space_char(s.get_char(a)) {
            return a;
        }
        a = a + 1;
    }
    a
}

/// One past the last non-whitespace character at or after `from`, or
/// `from` when everything from there on is whitespace.
fn last_non_space_end(s: &str, from: usize) -> (b: usize)
    requires
        from <= s@.len(),
    ensures
        from <= b <= s@.len(),
        forall|j: int| b <= j < s@.len() ==> is_space(s@[j]),
        b > from ==> !is_space(s@[b as int - 1]),
{
    let l = s.unicode_len();
    let mut b: usize = l;
    while b > from
        invariant
            from <= b <= l,
            l == s@.len(),
            forall|j: int| b <= j < l ==> is_space(s@[j]),
        decreases b,
    {
        if !is_space_char(s.get_char(b - 1)) {
            return b;
        }
        b = b - 1;
    }
    b
}

/// The string without leading or trailing ASCII whitespace.
pub fn trim_ascii<'a>(s: &'a str) -> (r: &'a str)
    ensures
        r@ == spec_trim(s@),
{
    let a = first_non_space(s);
    proof {
        lemma_trim_start_at(s@, a as int);
    }
    let b = last_non_space_end(s, a);
    proof {
        let t = s@.skip(a as int);
        assert forall|j: int| b - a <= j < t.len() implies is_space(t[j]) by {
            assert(t[j] == s@[a + j]);
        }
        if b > a {
            assert(t[b - a - 1] == s@[b as int - 1]);
        }
        lemma_trim_end_at(t, b - a as int);
        assert(t.take(b - a as int) =~= s@.subrange(a as int, b as int));
    }
    s.substring_char(a, b)
}

/// Ties a witnessed last position of `c` to `after_last_char`.
proof fn lemma_after_last_char_at(s: Seq<char>, c: char, i: int)
    requires
        0 <= i < s.len(),
        s[i] == c,
        forall|j: int| i < j < s.len() ==> s[j] != c,
    ensures
        after_last_char(s, c) == s.skip(i + 1),
    decreases s.len(),
{
    if i == s.len() - 1 {
        assert(s.last() == c);
        assert(after_last_char(s, c) =~= s.skip(i + 1));
    } else {
        assert(s.last() != c);
        lemma_after_last_char_at(s.drop_last(), c, i);
        assert(after_last_char(s, c) =~= s.skip(i + 1)) by {
            assert(after_last_char(s, c) == s.drop_last().skip(i + 1).push(s.last()));
        }
    }
}

/// Without any occurrence of `c`, `after_last_char` is the whole string.
proof fn lemma_after_last_char_none(s: Seq<char>, c: char)
    requires
        forall|j: int| 0 <= j < s.len() ==> s[j] != c,
    ensures
        after_last_char(s, c) == s,
    decreases s.len(),
{
    if s.len() > 0 {
        lemma_after_last_char_none(s.drop_last(), c);
        assert(after_last_char(s, c) =~= s);
    }
}

/// Ties a witnessed first position of `c` to `before_first_char`.
proof fn lemma_before_first_char_at(s: Seq<char>, c: char, i: int)
    requires
        0 <= i < s.len(),
        s[i] == c,
        forall|j: int| 0 <= j < i ==> s[j] != c,
    ensures
        before_first_char(s, c) == s.take(i),
    decreases s.len(),
{
    if i == 0 {
        assert(before_first_char(s, c) =~= s.take(0));
    } else {
        assert(s[0] != c);
        lemma_before_first_char_at(s.skip(1), c, i - 1);
        assert(before_first_char(s, c) =~= s.take(i)) by {
            assert(before_first_char(s, c) == seq![s[0]] + s.skip(1).take(i - 1));
        }
    }
}

/// Without any occurrence of `c`, `before_first_char` is the whole string.
proof fn lemma_before_first_char_none(s: Seq<char>, c: char)
    requires
        forall|j: int| 0 <= j < s.len() ==> s[j] != c,
    ensures
        before_first_char(s, c) == s,
    decreases s.len(),
{
    if s.len() > 0 {
        assert(s[0] != c);
        lemma_before_first_char_none(s.skip(1), c);
        assert(before_first_char(s, c) =~= s);
    }
}

/// The suffix of the string after the last occurrence of the character,
/// or the whole string when the character never occurs.
pub fn after_last_char_str<'a>(s: &'a str, c: char) -> (r: &'a str)
    ensures
        r@ == after_last_char(s@, c),
{
    let l = s.unicode_len();
    match rfind_char(s, c) {
        Some(i) => {
            proof {
                lemma_after_last_char_at(s@, c, i as int);
            }
            let r = s.substring_char(i + 1, l);
            proof {
                assert(s@.subrange(i as int + 1, l as int) =~= s@.skip(i as int + 1));
            }
            r
        },
        None => {
            proof {
                lemma_after_last_char_none(s@, c);
            }
            s
        },
    }
}

/// The prefix of the string before the first occurrence of the character,
/// or the whole string when the character never occurs.
pub fn before_first_char_str<'a>(s: &'a str, c: char) -> (r: &'a str)
    ensures
        r@ == before_first_char(s@, c),
{
    match find_char(s, c) {
        Some(i) => {
            proof {
                lemma_before_first_char_at(s@, c, i as int);
            }
            let r = s.substring_char(0, i);
            proof {
                assert(s@.subrange(0, i as int) =~= s@.take(i as int));
            }
            r
        },
        None => {
            proof {
                lemma_before_first_char_none(s@, c);
            }
            s
        },
    }
}

/// Ties a witnessed first occurrence of the needle to `first_occur`.
pub proof fn lemma_first_occur_at(hay: Seq<char>, needle: Seq<char>, i: int)
    requires
        occurs_at(hay, needle, i),
        forall|j: int| 0 <= j < i ==> !occurs_at(hay, needle, j),
    ensures
        first_occur(hay, needle) == i,
    decreases hay.len(),
{
    if i == 0 {
        assert(hay.subrange(0, needle.len() as int) == needle);
    } else {
        assert(hay.subrange(0, needle.len() as int) != needle) by {
            assert(!occurs_at(hay, needle, 0));
        }
        assert(occurs_at(hay.skip(1), needle, i - 1)) by {
            assert(hay.skip(1).subrange(i - 1, i - 1 + needle.len()) =~= hay.subrange(
                i,
                i + needle.len(),
            ));
        }
        assert forall|j: int| 0 <= j < i - 1 implies !occurs_at(hay.skip(1), needle, j) by {
            if occurs_at(hay.skip(1), needle, j) {
                assert(hay.subrange(j + 1, j + 1 + needle.len()) =~= hay.skip(1).subrange(
                    j,
                    j + needle.len(),
                ));
                assert(occurs_at(hay, needle, j + 1));
            }
        }
        lemma_first_occur_at(hay.skip(1), needle, i - 1);
    }
}

/// When the haystack contains the needle, `first_occur` names a real
/// occurrence, and the earliest one.
pub proof fn lemma_first_occur_when_contains(hay: Seq<char>, needle: Seq<char>)
    requires
        contains_seq(hay, needle),
    ensures
        first_occur(hay, needle) >= 0,
        occurs_at(hay, needle, first_occur(hay, needle)),
        forall|j: int| 0 <= j < first_occur(hay, needle) ==> !occurs_at(hay, needle, j),
    decreases hay.len(),
{
    let w = choose|j: int| occurs_at(hay, needle, j);
    assert(hay.len() >= needle.len());
    if hay.subrange(0, needle.len() as int) == needle {
        assert(occurs_at(hay, needle, 0));
    } else {
        assert(w != 0) by {
            if w == 0 {
                assert(hay.subrange(0, needle.len() as int) == needle);
            }
        }
        assert(occurs_at(hay.skip(1), needle, w - 1)) by {
            assert(hay.skip(1).subrange(w - 1, w - 1 + needle.len()) =~= hay.subrange(
                w,
                w + needle.len(),
            ));
        }
        lemma_first_occur_when_contains(hay.skip(1), needle);
        let r = first_occur(hay.skip(1), needle);
        assert(first_occur(hay, needle) == r + 1);
        assert(occurs_at(hay, needle, r + 1)) by {
            assert(hay.subrange(r + 1, r + 1 + needle.len()) =~= hay.skip(1).subrange(
                r,
                r + needle.len(),
            ));
        }
        assert forall|j: int| 0 <= j < r + 1 implies !occurs_at(hay, needle, j) by {
            if j > 0 && occurs_at(hay, needle, j) {
                assert(hay.skip(1).subrange(j - 1, j - 1 + needle.len()) =~= hay.subrange(
                    j,
                    j + needle.len(),
                ));
                assert(occurs_at(hay.skip(1), needle, j - 1));
            }
        }
    }
}

/// Without any occurrence of the needle, `first_occur` is `-1`.
pub proof fn lemma_first_occur_none(hay: Seq<char>, needle: Seq<char>)
    requires
        !contains_seq(hay, needle),
    ensures
        first_occur(hay, needle) == -1,
    decreases hay.len(),
{
    if needle.len() == 0 {
        assert(occurs_at(hay, needle, 0)) by {
            assert(hay.subrange(0, 0) =~= needle);
        }
    } else if hay.len() >= needle.len() {
        assert(hay.subrange(0, needle.len() as int) != needle) by {
            assert(!occurs_at(hay, needle, 0));
        }
        assert(!contains_seq(hay.skip(1), needle)) by {
            if exists|j: int| occurs_at(hay.skip(1), needle, j) {
                let j = choose|j: int| occurs_at(hay.skip(1), needle, j);
                assert(hay.subrange(j + 1, j + 1 + needle.len()) =~= hay.skip(1).subrange(
                    j,
                    j + needle.len(),
                ));
                assert(occurs_at(hay, needle, j + 1));
            }
        }
        lemma_first_occur_none(hay.skip(1), needle);
    }
}

/// Ties a witnessed last occurrence of the needle to `last_occur`.
pub proof fn lemma_last_occur_at(hay: Seq<char>, needle: Seq<char>, i: int)
    requires
        occurs_at(hay, needle, i),
        forall|j: int| i < j ==> !occurs_at(hay, needle, j),
    ensures
        last_occur(hay, needle) == i,
    decreases hay.len(),
{
    if i == hay.len() - needle.len() {
        assert(hay.subrange(hay.len() - needle.len(), hay.len() as int) == needle);
    } else {
        assert(hay.subrange(hay.len() - needle.len(), hay.len() as int) != needle) by {
            assert(!occurs_at(hay, needle, hay.len() - needle.len()));
        }
        assert(occurs_at(hay.drop_last(), needle, i)) by {
            assert(hay.drop_last().subrange(i, i + needle.len()) =~= hay.subrange(
                i,
                i + needle.len(),
            ));
        }
        assert forall|j: int| i < j implies !occurs_at(hay.drop_last(), needle, j) by {
            if occurs_at(hay.drop_last(), needle, j) {
                assert(hay.subrange(j, j + needle.len()) =~= hay.drop_last().subrange(
                    j,
                    j + needle.len(),
                ));
                assert(occurs_at(hay, needle, j));
            }
        }
        lemma_last_occur_at(hay.drop_last(), needle, i);
    }
}

/// Without any occurrence of the needle, `last_occur` is `-1`.
pub proof fn lemma_last_occur_none(hay: Seq<char>, needle: Seq<char>)
    requires
        !contains_seq(hay, needle),
    ensures
        last_occur(hay, needle) == -1,
    decreases hay.len(),
{
    if needle.len() == 0 {
        assert(occurs_at(hay, needle, 0)) by {
            assert(hay.subrange(0, 0) =~= needle);
        }
    } else if hay.len() >= needle.len() {
        assert(hay.subrange(hay.len() - needle.len(), hay.len() as int) != needle) by {
            assert(!occurs_at(hay, needle, hay.len() - needle.len()));
        }
        assert(!contains_seq(hay.drop_last(), needle)) by {
            if exists|j: int| occurs_at(hay.drop_last(), needle, j) {
                let j = choose|j: int| occurs_at(hay.drop_last(), needle, j);
                assert(hay.subrange(j, j + needle.len()) =~= hay.drop_last().subrange(
                    j,
                    j + needle.len(),
                ));
                assert(occurs_at(hay, needle, j));
            }
        }
        lemma_last_occur_none(hay.drop_last(), needle);
    }
}

/// A string of `n` copies of one character.
pub open spec fn char_repeat(c: char, n: int) -> Seq<char> {
    Seq::new(n as nat, |i: int| c)
}

/// Builds a string of `n` copies of one character.
pub fn repeat_char(c: char, n: usize) -> (r: String)
    ensures
        r@ == char_repeat(c, n as int),
{
    let mut r = String::new();
    let mut i: usize = 0;
    while i < n
        invariant
            0 <= i <= n,
            r@ == char_repeat(c, i as int),
        decreases n - i,
    {
        push_char(&mut r, c);
        proof {
            assert(char_repeat(c, i as int) + seq![c] =~= char_repeat(c, i as int + 1));
        }
        i = i + 1;
    }
    r
}

/// An ASCII upper-case letter mapped to lower case; anything else
/// unchanged.
pub open spec fn lower_char(c: char) -> char {
    if 'A' <= c && c <= 'Z' {
        (((c as int + 32) as u8) as char)
    } else {
        c
    }
}

/// An ASCII lower-case letter mapped to upper case; anything else
/// unchanged.
pub open spec fn upper_char(c: char) -> char {
    if 'a' <= c && c <= 'z' {
        (((c as int - 32) as u8) as char)
    } else {
        c
    }
}

/// Maps one character to ASCII lower case.
pub fn char_to_lower(c: char) -> (r: char)
    ensures
        r == lower_char(c),
{
    let cv: u32 = c as u32;
    if 65 <= cv && cv <= 90 {
        ((cv as u8) + 32) as char
    } else {
        c
    }
}

/// Maps one character to ASCII upper case.
pub fn char_to_upper(c: char) -> (r: char)
    ensures
        r == upper_char(c),
{
    let cv: u32 = c as u32;
    if 97 <= cv && cv <= 122 {
        ((cv as u8) - 32) as char
    } else {
        c
    }
}

/// The string mapped to ASCII lower case, character by character.
pub fn ascii_lowercase(s: &str) -> (r: String)
    ensures
        r@.len() == s@.len(),
        forall|i: int| 0 <= i < s@.len() ==> r@[i] == lower_char(s@[i]),
{
    let l = s.unicode_len();
    let mut r = String::new();
    let mut i: usize = 0;
    while i < l
        invariant
            0 <= i <= l,
            l == s@.len(),
            r@.len() == i as int,
            forall|k: int| 0 <= k < i ==> r@[k] == lower_char(s@[k]),
        decreases l - i,
    {
        push_char(&mut r, char_to_lower(s.get_char(i)));
        i = i + 1;
    }
    r
}

/// Leftmost non-overlapping replacement of every occurrence of `from` by
/// `to`, scanning left to right.
pub open spec fn spec_replace(s: Seq<char>, from: Seq<char>, to: Seq<char>) -> Seq<char>
    recommends
        from.len() >= 1,
    decreases s.len(),
{
    if from.len() == 0 || s.len() < from.len() {
        s
    } else if s.subrange(0, from.len() as int) == from {
        to + spec_replace(s.skip(from.len() as int), from, to)
    } else {
        seq![s[0]] + spec_replace(s.skip(1), from, to)
    }
}

/// Replaces every occurrence of `from` in `s` by `to`, leftmost first,
/// non-overlapping.
pub fn replace_all(s: &str, from: &str, to: &str) -> (r: String)
    requires
        from@.len() >= 1,
    ensures
        r@ == spec_replace(s@, from@, to@),
    decreases s@.len(),
{
    let sl = s.unicode_len();
    let fl = from.unicode_len();
    if sl < fl {
        return String::from_str(s);
    }
    if str_eq(s.substring_char(0, fl), from) {
        let rest = replace_all(s.substring_char(fl, sl), from, to);
        proof {
            assert(s@.subrange(fl as int, sl as int) =~= s@.skip(fl as int));
        }
        String::from_str(to).concat(rest.as_str())
    } else {
        proof {
            assert(s@.subrange(0, fl as int) != from@);
        }
        let rest = replace_all(s.substring_char(1, sl), from, to);
        proof {
            assert(s@.subrange(1, sl as int) =~= s@.skip(1));
            assert(s@.subrange(0, 1) =~= seq![s@[0]]);
        }
        String::from_str(s.substring_char(0, 1)).concat(rest.as_str())
    }
}

} // verus!
