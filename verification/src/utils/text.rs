//! White space in names: which characters count, and what is left of a text
//! once the white space around it is taken off.

use vstd::prelude::*;
use vstd::string::StrSliceExecFns;

verus! {

/// Whether Unicode counts `c` as white space (`White_Space`).
pub uninterp spec fn white_space(c: char) -> bool;

/// `char::is_whitespace` of std answers whether Unicode counts the character
/// as white space; which characters those are is not spelled out here.
pub assume_specification[ char::is_whitespace ](c: char) -> (r: bool)
    ensures
        r == white_space(c),
;

/// Every character of `s` is white space (so is the empty text).
pub open spec fn blank(s: Seq<char>) -> bool {
    forall|i: int| 0 <= i < s.len() ==> white_space(#[trigger] s[i])
}

/// Some character of `s` is white space.
pub open spec fn has_white_space(s: Seq<char>) -> bool {
    exists|i: int| 0 <= i < s.len() && white_space(#[trigger] s[i])
}

/// Where the text proper starts: the number of white-space characters in
/// front of the first other character; the length of `s` where it is blank.
pub open spec fn lead(s: Seq<char>) -> int
    decreases s.len(),
{
    if s.len() == 0 || !white_space(s[0]) {
        0
    } else {
        1 + lead(s.drop_first())
    }
}

/// Where the text proper ends: one past the last character that is no white
/// space; zero where `s` is blank.
pub open spec fn tail(s: Seq<char>) -> int
    decreases s.len(),
{
    if s.len() == 0 || !white_space(s.last()) {
        s.len() as int
    } else {
        tail(s.drop_last())
    }
}

/// `s` without the white space in front of it and behind it.
pub open spec fn trimmed(s: Seq<char>) -> Seq<char> {
    if lead(s) < tail(s) {
        s.subrange(lead(s), tail(s))
    } else {
        Seq::empty()
    }
}

/// `lead` counts exactly the white space in front: everything before it is
/// white space, and the character at it, if any, is not.
pub proof fn lemma_lead(s: Seq<char>)
    ensures
        0 <= lead(s) <= s.len(),
        forall|i: int| 0 <= i < lead(s) ==> white_space(#[trigger] s[i]),
        lead(s) < s.len() ==> !white_space(s[lead(s)]),
    decreases s.len(),
{
    if s.len() == 0 || !white_space(s[0]) {
    } else {
        let rest = s.drop_first();
        lemma_lead(rest);
        assert forall|i: int| 0 <= i < lead(s) implies white_space(#[trigger] s[i]) by {
            if i > 0 {
                assert(s[i] == rest[i - 1]);
            }
        }
        if lead(s) < s.len() {
            assert(s[lead(s)] == rest[lead(rest)]);
        }
    }
}

/// `tail` stops exactly behind the last character that is no white space.
pub proof fn lemma_tail(s: Seq<char>)
    ensures
        0 <= tail(s) <= s.len(),
        forall|i: int| tail(s) <= i < s.len() ==> white_space(#[trigger] s[i]),
        0 < tail(s) ==> !white_space(s[tail(s) - 1]),
    decreases s.len(),
{
    if s.len() == 0 || !white_space(s.last()) {
    } else {
        let rest = s.drop_last();
        lemma_tail(rest);
        assert forall|i: int| tail(s) <= i < s.len() implies white_space(#[trigger] s[i]) by {
            if i < s.len() - 1 {
                assert(s[i] == rest[i]);
            }
        }
        if 0 < tail(s) {
            assert(s[tail(s) - 1] == rest[tail(rest) - 1]);
        }
    }
}

/// A cut of `s` at `a` and `b` that leaves only white space outside and
/// starts and ends on other characters is the trimmed text.
pub proof fn lemma_trim_is_unique(s: Seq<char>, a: int, b: int)
    requires
        0 <= a <= s.len(),
        0 <= b <= s.len(),
        forall|i: int| 0 <= i < a ==> white_space(#[trigger] s[i]),
        forall|i: int| b <= i < s.len() ==> white_space(#[trigger] s[i]),
        a < s.len() ==> !white_space(s[a]),
        0 < b ==> !white_space(s[b - 1]),
    ensures
        a == lead(s),
        b == tail(s),
{
    lemma_lead(s);
    lemma_tail(s);
    let l = lead(s);
    let t = tail(s);
    if l < a {
        assert(white_space(s[l]));
    }
    if a < l {
        assert(white_space(s[a]));
    }
    if t < b {
        assert(white_space(s[b - 1]));
    }
    if b < t {
        assert(white_space(s[t - 1]));
    }
}

/// The trimmed text is empty exactly where the text is blank.
pub proof fn lemma_trimmed_empty_iff_blank(s: Seq<char>)
    ensures
        trimmed(s).len() == 0 <==> blank(s),
{
    lemma_lead(s);
    lemma_tail(s);
    let l = lead(s);
    let t = tail(s);
    if blank(s) {
        if l < s.len() {
            assert(white_space(s[l]));
        }
    } else {
        let k = choose|k: int| 0 <= k < s.len() && !white_space(#[trigger] s[k]);
        if k < l {
            assert(white_space(s[k]));
        }
        if t <= k {
            assert(white_space(s[k]));
        }
    }
}

/// The characters of `s`, in order.
pub fn chars_of(s: &str) -> (v: Vec<char>)
    ensures
        v@ == s@,
{
    let mut v: Vec<char> = Vec::new();
    for c in it: s.chars()
        invariant
            v@ == it.seq().take(it.index() as int),
    {
        v.push(c);
    }
    v
}

/// Whether the text is empty once the white space around it is taken off.
pub fn is_blank(s: &str) -> (r: bool)
    ensures
        r == (trimmed(s@).len() == 0),
        r == blank(s@),
{
    let chars = chars_of(s);
    proof {
        lemma_trimmed_empty_iff_blank(s@);
    }
    let mut i: usize = 0;
    while i < chars.len()
        invariant
            i <= chars.len(),
            chars@ == s@,
            trimmed(s@).len() == 0 <==> blank(s@),
            forall|k: int| 0 <= k < i ==> white_space(#[trigger] chars@[k]),
        decreases chars.len() - i,
    {
        if !chars[i].is_whitespace() {
            assert(!white_space(s@[i as int]));
            return false;
        }
        i = i + 1;
    }
    true
}

/// Whether the text holds a white-space character anywhere.
pub fn contains_whitespace(s: &str) -> (r: bool)
    ensures
        r == has_white_space(s@),
{
    let chars = chars_of(s);
    let mut i: usize = 0;
    while i < chars.len()
        invariant
            i <= chars.len(),
            chars@ == s@,
            forall|k: int| 0 <= k < i ==> !white_space(#[trigger] chars@[k]),
        decreases chars.len() - i,
    {
        if chars[i].is_whitespace() {
            assert(white_space(s@[i as int]));
            return true;
        }
        i = i + 1;
    }
    false
}

/// The text without the white space in front of it and behind it.
pub fn trim(s: &str) -> (r: String)
    ensures
        r@ == trimmed(s@),
{
    let chars = chars_of(s);
    let n = chars.len();
    let mut a: usize = 0;
    while a < n && chars[a].is_whitespace()
        invariant
            a <= n,
            n == chars.len(),
            forall|k: int| 0 <= k < a ==> white_space(#[trigger] chars@[k]),
        decreases n - a,
    {
        a = a + 1;
    }
    let mut b: usize = n;
    while b > 0 && chars[b - 1].is_whitespace()
        invariant
            b <= n,
            n == chars.len(),
            forall|k: int| b <= k < n ==> white_space(#[trigger] chars@[k]),
        decreases b,
    {
        b = b - 1;
    }
    proof {
        lemma_trim_is_unique(s@, a as int, b as int);
    }
    if a < b {
        s.substring_char(a, b).to_owned()
    } else {
        String::new()
    }
}

} // verus!
