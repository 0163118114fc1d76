//! Character-level utilities shared by the parser and the formatter:
//! character classes, end-trimming, ASCII lower-casing, and helpers for
//! walking strings as sequences of characters.

use vstd::prelude::*;
use vstd::string::StrSliceExecFns;

verus! {

/// A decimal digit. Only base 10 is recognized: alphabetic hexadecimal
/// digits would collide with unit-suffix letters such as the `b` in `bytes`.
pub open spec fn is_digit_char(c: char) -> bool {
    '0' <= c && c <= '9'
}

/// A character that may make up a unit token: an ASCII letter or the micro
/// sign (`\u{b5}`), which the microseconds alias uses.
pub open spec fn is_unit_char(c: char) -> bool {
    ('a' <= c && c <= 'z') || ('A' <= c && c <= 'Z') || c == '\u{b5}'
}

/// The characters the number extractor strips from the ends of the input.
pub open spec fn non_digit_pred() -> spec_fn(char) -> bool {
    |c: char| !is_digit_char(c)
}

/// The characters the unit extractor strips from the ends of the input.
pub open spec fn non_unit_pred() -> spec_fn(char) -> bool {
    |c: char| !is_unit_char(c)
}

/// ASCII case folding: upper-case letters map to lower case, every other
/// character is left alone.
pub open spec fn lower_char(c: char) -> char {
    if 'A' <= c && c <= 'Z' {
        ((c as u8) + 32) as char
    } else {
        c
    }
}

pub open spec fn lower_seq(s: Seq<char>) -> Seq<char> {
    s.map_values(|c: char| lower_char(c))
}

/// A non-empty run of lower-case ASCII letters, as unit display names are.
pub open spec fn is_lower_word(s: Seq<char>) -> bool {
    forall|i: int| 0 <= i < s.len() ==> 'a' <= #[trigger] s[i] && s[i] <= 'z'
}

/// Everything removed from the front of `s` for as long as `p` holds.
pub open spec fn drop_leading(s: Seq<char>, p: spec_fn(char) -> bool) -> Seq<char>
    decreases s.len(),
{
    if s.len() > 0 && p(s[0]) {
        drop_leading(s.drop_first(), p)
    } else {
        s
    }
}

/// Everything removed from the back of `s` for as long as `p` holds.
pub open spec fn drop_trailing(s: Seq<char>, p: spec_fn(char) -> bool) -> Seq<char>
    decreases s.len(),
{
    if s.len() > 0 && p(s.last()) {
        drop_trailing(s.drop_last(), p)
    } else {
        s
    }
}

/// Characters satisfying `p` removed from both ends of `s`, as
/// `str::trim_matches` does.
pub open spec fn trim_matching(s: Seq<char>, p: spec_fn(char) -> bool) -> Seq<char> {
    drop_trailing(drop_leading(s, p), p)
}

/// The numeric token of an input string: the run left over when every
/// non-digit is stripped from both ends.
pub open spec fn number_token_of(s: Seq<char>) -> Seq<char> {
    trim_matching(s, non_digit_pred())
}

/// The unit token of an input string: the run left over when every
/// non-unit character is stripped from both ends, folded to lower case.
pub open spec fn unit_token_of(s: Seq<char>) -> Seq<char> {
    lower_seq(trim_matching(s, non_unit_pred()))
}

proof fn lemma_drop_leading_skip(s: Seq<char>, p: spec_fn(char) -> bool, i: int)
    requires
        0 <= i <= s.len(),
        forall|k: int| 0 <= k < i ==> p(#[trigger] s[k]),
    ensures
        drop_leading(s, p) == drop_leading(s.subrange(i, s.len() as int), p),
    decreases i,
{
    if i > 0 {
        assert(s.len() > 0 && p(s[0]));
        let t = s.drop_first();
        assert(t =~= s.subrange(1, s.len() as int));
        assert(forall|k: int| 0 <= k < i - 1 ==> p(#[trigger] t[k]));
        lemma_drop_leading_skip(t, p, i - 1);
        assert(t.subrange(i - 1, t.len() as int) =~= s.subrange(i, s.len() as int));
    } else {
        assert(s.subrange(0, s.len() as int) =~= s);
    }
}

proof fn lemma_drop_trailing_cut(s: Seq<char>, p: spec_fn(char) -> bool, i: int)
    requires
        0 <= i <= s.len(),
        forall|k: int| i <= k < s.len() ==> p(#[trigger] s[k]),
    ensures
        drop_trailing(s, p) == drop_trailing(s.subrange(0, i), p),
    decreases s.len() - i,
{
    if i < s.len() {
        assert(p(s.last()));
        let t = s.drop_last();
        assert(t =~= s.subrange(0, s.len() - 1));
        assert(forall|k: int| i <= k < t.len() ==> p(#[trigger] t[k]));
        lemma_drop_trailing_cut(t, p, i);
        assert(t.subrange(0, i) =~= s.subrange(0, i));
    } else {
        assert(s.subrange(0, s.len() as int) =~= s);
    }
}

/// What trimming leaves when the characters before `lo` and from `hi` on
/// satisfy `p`, while the boundary characters (if any) do not.
pub proof fn lemma_trim_bounds(s: Seq<char>, p: spec_fn(char) -> bool, lo: int, hi: int)
    requires
        0 <= lo <= hi <= s.len(),
        forall|k: int| 0 <= k < lo ==> p(#[trigger] s[k]),
        forall|k: int| hi <= k < s.len() ==> p(#[trigger] s[k]),
        lo == hi || (!p(s[lo]) && !p(s[hi - 1])),
    ensures
        trim_matching(s, p) == s.subrange(lo, hi),
{
    lemma_drop_leading_skip(s, p, lo);
    let t = s.subrange(lo, s.len() as int);
    assert(drop_leading(s, p) == drop_leading(t, p));
    if lo == hi {
        // everything satisfies p, so both directions strip the whole string
        assert(forall|k: int| 0 <= k < t.len() ==> p(#[trigger] t[k]));
        lemma_drop_leading_skip(t, p, t.len() as int);
        assert(t.subrange(t.len() as int, t.len() as int) =~= Seq::<char>::empty());
        assert(drop_leading(t, p) == Seq::<char>::empty());
        assert(drop_trailing(Seq::<char>::empty(), p) == Seq::<char>::empty());
        assert(s.subrange(lo, hi) =~= Seq::<char>::empty());
    } else {
        assert(!p(t[0]));
        assert(drop_leading(t, p) == t);
        assert(forall|k: int| hi - lo <= k < t.len() ==> p(#[trigger] t[k]));
        lemma_drop_trailing_cut(t, p, hi - lo);
        let u = t.subrange(0, hi - lo);
        assert(u =~= s.subrange(lo, hi));
        assert(u.len() > 0 && !p(u.last()));
        assert(drop_trailing(u, p) == u);
    }
}

/// Lower-casing a word of lower-case letters leaves it unchanged.
pub proof fn lemma_lower_fixed(s: Seq<char>)
    requires
        is_lower_word(s),
    ensures
        lower_seq(s) == s,
{
    assert(lower_seq(s) =~= s);
}

/// The characters of a string, in order.
pub fn chars_of(s: &str) -> (v: Vec<char>)
    ensures
        v@ == s@,
{
    let n = s.unicode_len();
    let mut v: Vec<char> = Vec::new();
    let mut i: usize = 0;
    while i < n
        invariant
            n == s@.len(),
            i <= n,
            v@ == s@.subrange(0, i as int),
        decreases n - i,
    {
        let c = s.get_char(i);
        v.push(c);
        assert(v@ =~= s@.subrange(0, i + 1));
        i += 1;
    }
    assert(v@ =~= s@);
    v
}

/// Whether the characters of `v` spell exactly the string `s`.
pub fn eq_chars_str(v: &Vec<char>, s: &str) -> (r: bool)
    ensures
        r == (v@ == s@),
{
    let n = s.unicode_len();
    if v.len() != n {
        return false;
    }
    let mut i: usize = 0;
    while i < n
        invariant
            n == s@.len(),
            v@.len() == n,
            i <= n,
            forall|k: int| 0 <= k < i ==> v@[k] == s@[k],
        decreases n - i,
    {
        if v[i] != s.get_char(i) {
            return false;
        }
        i += 1;
    }
    proof {
        assert(v@ =~= s@);
    }
    true
}

/// Whether two strings hold the same characters.
pub fn eq_str(a: &str, b: &str) -> (r: bool)
    ensures
        r == (a@ == b@),
{
    let n = a.unicode_len();
    if b.unicode_len() != n {
        return false;
    }
    let mut i: usize = 0;
    while i < n
        invariant
            n == a@.len(),
            b@.len() == n,
            i <= n,
            forall|k: int| 0 <= k < i ==> a@[k] == b@[k],
        decreases n - i,
    {
        if a.get_char(i) != b.get_char(i) {
            return false;
        }
        i += 1;
    }
    proof {
        assert(a@ =~= b@);
    }
    true
}

fn is_digit_exec(c: char) -> (r: bool)
    ensures
        r == is_digit_char(c),
{
    '0' <= c && c <= '9'
}

fn is_unit_exec(c: char) -> (r: bool)
    ensures
        r == is_unit_char(c),
{
    ('a' <= c && c <= 'z') || ('A' <= c && c <= 'Z') || c == '\u{b5}'
}

fn lower_exec(c: char) -> (r: char)
    ensures
        r == lower_char(c),
{
    if 'A' <= c && c <= 'Z' {
        ((c as u8) + 32) as char
    } else {
        c
    }
}

/// The numeric token of the input, as `number_token_of` describes.
pub fn number_token(v: &Vec<char>) -> (t: Vec<char>)
    ensures
        t@ == number_token_of(v@),
{
    let n = v.len();
    let mut lo: usize = 0;
    while lo < n && !is_digit_exec(v[lo])
        invariant
            n == v@.len(),
            lo <= n,
            forall|k: int| 0 <= k < lo ==> !is_digit_char(#[trigger] v@[k]),
        decreases n - lo,
    {
        lo += 1;
    }
    let mut hi: usize = n;
    while hi > lo && !is_digit_exec(v[hi - 1])
        invariant
            n == v@.len(),
            lo <= hi <= n,
            forall|k: int| hi <= k < n ==> !is_digit_char(#[trigger] v@[k]),
        decreases hi,
    {
        hi -= 1;
    }
    proof {
        let p = non_digit_pred();
        assert(forall|k: int| 0 <= k < lo ==> p(#[trigger] v@[k]));
        assert(forall|k: int| hi <= k < n ==> p(#[trigger] v@[k]));
        if lo < hi {
            assert(!p(v@[lo as int]) && !p(v@[hi - 1]));
        }
        lemma_trim_bounds(v@, p, lo as int, hi as int);
    }
    copy_range(v, lo, hi)
}

/// The unit token of the input, as `unit_token_of` describes.
pub fn unit_token(v: &Vec<char>) -> (t: Vec<char>)
    ensures
        t@ == unit_token_of(v@),
{
    let n = v.len();
    let mut lo: usize = 0;
    while lo < n && !is_unit_exec(v[lo])
        invariant
            n == v@.len(),
            lo <= n,
            forall|k: int| 0 <= k < lo ==> !is_unit_char(#[trigger] v@[k]),
        decreases n - lo,
    {
        lo += 1;
    }
    let mut hi: usize = n;
    while hi > lo && !is_unit_exec(v[hi - 1])
        invariant
            n == v@.len(),
            lo <= hi <= n,
            forall|k: int| hi <= k < n ==> !is_unit_char(#[trigger] v@[k]),
        decreases hi,
    {
        hi -= 1;
    }
    proof {
        let p = non_unit_pred();
        assert(forall|k: int| 0 <= k < lo ==> p(#[trigger] v@[k]));
        assert(forall|k: int| hi <= k < n ==> p(#[trigger] v@[k]));
        if lo < hi {
            assert(!p(v@[lo as int]) && !p(v@[hi - 1]));
        }
        lemma_trim_bounds(v@, p, lo as int, hi as int);
    }
    let ghost trimmed = trim_matching(v@, non_unit_pred());
    let mut t: Vec<char> = Vec::new();
    let mut i: usize = lo;
    while i < hi
        invariant
            lo <= i <= hi <= v@.len(),
            trimmed == v@.subrange(lo as int, hi as int),
            t@ == lower_seq(trimmed.subrange(0, i - lo)),
        decreases hi - i,
    {
        let c = lower_exec(v[i]);
        t.push(c);
        assert(t@ =~= lower_seq(trimmed.subrange(0, i + 1 - lo)));
        i += 1;
    }
    assert(t@ =~= lower_seq(trimmed));
    t
}

/// The characters of `v` between `lo` and `hi`.
fn copy_range(v: &Vec<char>, lo: usize, hi: usize) -> (t: Vec<char>)
    requires
        lo <= hi <= v@.len(),
    ensures
        t@ == v@.subrange(lo as int, hi as int),
{
    let mut t: Vec<char> = Vec::new();
    let mut i: usize = lo;
    while i < hi
        invariant
            lo <= i <= hi <= v@.len(),
            t@ == v@.subrange(lo as int, i as int),
        decreases hi - i,
    {
        let c = v[i];
        t.push(c);
        assert(t@ =~= v@.subrange(lo as int, i + 1));
        i += 1;
    }
    t
}

/// Lower-casing is idempotent.
pub proof fn lemma_lower_idempotent(s: Seq<char>)
    ensures
        lower_seq(lower_seq(s)) == lower_seq(s),
{
    assert forall|i: int| 0 <= i < s.len() implies lower_char(lower_char(s[i])) == lower_char(
        s[i],
    ) by {
    }
    assert(lower_seq(lower_seq(s)) =~= lower_seq(s));
}

proof fn lemma_drop_leading_lower(s: Seq<char>, p: spec_fn(char) -> bool)
    requires
        forall|c: char| #[trigger] p(lower_char(c)) == p(c),
    ensures
        drop_leading(lower_seq(s), p) == lower_seq(drop_leading(s, p)),
    decreases s.len(),
{
    if s.len() > 0 {
        assert(lower_seq(s)[0] == lower_char(s[0]));
        assert(lower_seq(s).drop_first() =~= lower_seq(s.drop_first()));
        if p(s[0]) {
            lemma_drop_leading_lower(s.drop_first(), p);
        }
    } else {
        assert(lower_seq(s) =~= Seq::<char>::empty());
    }
}

proof fn lemma_drop_trailing_lower(s: Seq<char>, p: spec_fn(char) -> bool)
    requires
        forall|c: char| #[trigger] p(lower_char(c)) == p(c),
    ensures
        drop_trailing(lower_seq(s), p) == lower_seq(drop_trailing(s, p)),
    decreases s.len(),
{
    if s.len() > 0 {
        assert(lower_seq(s).last() == lower_char(s.last()));
        assert(lower_seq(s).drop_last() =~= lower_seq(s.drop_last()));
        if p(s.last()) {
            lemma_drop_trailing_lower(s.drop_last(), p);
        }
    } else {
        assert(lower_seq(s) =~= Seq::<char>::empty());
    }
}

/// Trimming commutes with lower-casing whenever the trimming predicate
/// cannot tell a letter from its lower-case form.
pub proof fn lemma_trim_lower(s: Seq<char>, p: spec_fn(char) -> bool)
    requires
        forall|c: char| #[trigger] p(lower_char(c)) == p(c),
    ensures
        trim_matching(lower_seq(s), p) == lower_seq(trim_matching(s, p)),
{
    lemma_drop_leading_lower(s, p);
    lemma_drop_trailing_lower(drop_leading(s, p), p);
}

/// Lower-casing the input changes neither extracted token, beyond
/// lower-casing the numeric one.
pub proof fn lemma_tokens_lower(s: Seq<char>)
    ensures
        number_token_of(lower_seq(s)) == lower_seq(number_token_of(s)),
        unit_token_of(lower_seq(s)) == unit_token_of(s),
{
    assert(forall|c: char| #[trigger] non_digit_pred()(lower_char(c)) == non_digit_pred()(c)) by {
        assert forall|c: char| #[trigger] non_digit_pred()(lower_char(c)) == non_digit_pred()(
            c,
        ) by {
            assert(is_digit_char(lower_char(c)) == is_digit_char(c));
        }
    }
    assert(forall|c: char| #[trigger] non_unit_pred()(lower_char(c)) == non_unit_pred()(c)) by {
        assert forall|c: char| #[trigger] non_unit_pred()(lower_char(c)) == non_unit_pred()(c) by {
            assert(is_unit_char(lower_char(c)) == is_unit_char(c));
        }
    }
    lemma_trim_lower(s, non_digit_pred());
    lemma_trim_lower(s, non_unit_pred());
    lemma_lower_idempotent(trim_matching(s, non_unit_pred()));
}

proof fn lemma_drop_leading_append(s: Seq<char>, t: Seq<char>, p: spec_fn(char) -> bool)
    ensures
        drop_leading(s + t, p) == (if drop_leading(s, p).len() > 0 {
            drop_leading(s, p) + t
        } else {
            drop_leading(t, p)
        }),
    decreases s.len(),
{
    if s.len() == 0 {
        assert(s + t =~= t);
    } else {
        assert((s + t)[0] == s[0]);
        assert((s + t).len() > 0);
        if p(s[0]) {
            assert((s + t).drop_first() =~= s.drop_first() + t);
            lemma_drop_leading_append(s.drop_first(), t, p);
        }
    }
}

/// A character the trimming predicate strips may be added at either end
/// of the input without changing what trimming leaves.
pub proof fn lemma_trim_padding(s: Seq<char>, c: char, p: spec_fn(char) -> bool)
    requires
        p(c),
    ensures
        trim_matching(seq![c] + s, p) == trim_matching(s, p),
        trim_matching(s + seq![c], p) == trim_matching(s, p),
{
    // leading: the first character is stripped at once
    assert((seq![c] + s)[0] == c);
    assert((seq![c] + s).len() > 0);
    assert((seq![c] + s).drop_first() =~= s);
    assert(drop_leading(seq![c] + s, p) == drop_leading(s, p));

    // trailing: the last character survives front-trimming, and is then
    // stripped at once
    lemma_drop_leading_append(s, seq![c], p);
    let u = drop_leading(s, p);
    if u.len() > 0 {
        assert(drop_leading(s + seq![c], p) == u + seq![c]);
        assert((u + seq![c]).last() == c);
        assert((u + seq![c]).drop_last() =~= u);
        assert(drop_trailing(u + seq![c], p) == drop_trailing(u, p));
    } else {
        assert(drop_leading(seq![c], p) == drop_leading(Seq::<char>::empty(), p)) by {
            assert(seq![c].drop_first() =~= Seq::<char>::empty());
        }
        assert(drop_leading(s + seq![c], p) == Seq::<char>::empty());
        assert(drop_trailing(Seq::<char>::empty(), p) == Seq::<char>::empty());
        assert(drop_trailing(u, p) == Seq::<char>::empty());
    }
}

/// A character that can be part of neither token — whitespace, say — may
/// be added at either end of the input without changing either token.
pub proof fn lemma_tokens_padding(s: Seq<char>, c: char)
    requires
        !is_digit_char(c),
        !is_unit_char(c),
    ensures
        number_token_of(seq![c] + s) == number_token_of(s),
        number_token_of(s + seq![c]) == number_token_of(s),
        unit_token_of(seq![c] + s) == unit_token_of(s),
        unit_token_of(s + seq![c]) == unit_token_of(s),
{
    assert(non_digit_pred()(c));
    assert(non_unit_pred()(c));
    lemma_trim_padding(s, c, non_digit_pred());
    lemma_trim_padding(s, c, non_unit_pred());
}

} // verus!
