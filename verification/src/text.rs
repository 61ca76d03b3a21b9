//! Character-level string helpers shared by the parsers and renderers.

use vstd::prelude::*;

verus! {

/// The Unicode `White_Space` property, which `char::is_whitespace` reports.
pub open spec fn is_ws(c: char) -> bool {
    ||| ('\u{9}' <= c && c <= '\u{d}')
    ||| c == ' '
    ||| c == '\u{85}'
    ||| c == '\u{a0}'
    ||| c == '\u{1680}'
    ||| ('\u{2000}' <= c && c <= '\u{200a}')
    ||| c == '\u{2028}'
    ||| c == '\u{2029}'
    ||| c == '\u{202f}'
    ||| c == '\u{205f}'
    ||| c == '\u{3000}'
}

/// Whether `c` is whitespace in the sense of `char::is_whitespace`.
pub fn is_whitespace(c: char) -> (r: bool)
    ensures
        r == is_ws(c),
{
    ('\u{9}' <= c && c <= '\u{d}') || c == ' ' || c == '\u{85}' || c == '\u{a0}' || c == '\u{1680}'
        || ('\u{2000}' <= c && c <= '\u{200a}') || c == '\u{2028}' || c == '\u{2029}' || c
        == '\u{202f}' || c == '\u{205f}' || c == '\u{3000}'
}

/// `s` without its leading whitespace.
pub open spec fn trim_start_spec(s: Seq<char>) -> Seq<char>
    decreases s.len(),
{
    if s.len() > 0 && is_ws(s[0]) {
        trim_start_spec(s.drop_first())
    } else {
        s
    }
}

/// `s` without its trailing whitespace.
pub open spec fn trim_end_spec(s: Seq<char>) -> Seq<char>
    decreases s.len(),
{
    if s.len() > 0 && is_ws(s.last()) {
        trim_end_spec(s.drop_last())
    } else {
        s
    }
}

/// `s` without leading and trailing whitespace, as `str::trim` gives it.
pub open spec fn trim_spec(s: Seq<char>) -> Seq<char> {
    trim_end_spec(trim_start_spec(s))
}

/// ASCII lowercase of one character; other characters are unchanged.
pub open spec fn ascii_lower(c: char) -> char {
    if 'A' <= c && c <= 'Z' {
        ((c as u32) + 32) as char
    } else {
        c
    }
}

/// ASCII lowercase of a character sequence, as `str::to_ascii_lowercase` gives it.
pub open spec fn ascii_lower_seq(s: Seq<char>) -> Seq<char> {
    Seq::new(s.len(), |i: int| ascii_lower(s[i]))
}

/// `String::push`.
#[verifier::external_body]
pub(crate) fn push_char(s: &mut String, c: char)
    ensures
        final(s)@ == old(s)@.push(c),
{
    s.push(c);
}

/// The characters of `s`, in order.
pub fn str_chars(s: &str) -> (r: Vec<char>)
    ensures
        r@ == s@,
{
    let n = s.unicode_len();
    let mut out: Vec<char> = Vec::new();
    let mut i: usize = 0;
    while i < n
        invariant
            n == s@.len(),
            i <= n,
            out@ == s@.take(i as int),
        decreases n - i,
    {
        out.push(s.get_char(i));
        i = i + 1;
        assert(out@ =~= s@.take(i as int));
    }
    assert(out@ =~= s@);
    out
}

/// A `String` holding exactly the characters of `cs`.
pub fn string_from_chars(cs: &[char]) -> (r: String)
    ensures
        r@ == cs@,
{
    let mut out = String::new();
    let mut i: usize = 0;
    while i < cs.len()
        invariant
            i <= cs@.len(),
            out@ == cs@.take(i as int),
        decreases cs@.len() - i,
    {
        push_char(&mut out, cs[i]);
        i = i + 1;
        assert(out@ =~= cs@.take(i as int));
    }
    assert(out@ =~= cs@);
    out
}

/// An owned copy of `s`.
pub fn owned(s: &str) -> (r: String)
    ensures
        r@ == s@,
{
    String::from_str(s)
}

/// Whether `a` and `b` hold the same characters.
pub fn str_eq(a: &str, b: &str) -> (r: bool)
    ensures
        r == (a@ == b@),
{
    let n = a.unicode_len();
    let m = b.unicode_len();
    if n != m {
        return false;
    }
    let mut i: usize = 0;
    while i < n
        invariant
            n == a@.len(),
            m == b@.len(),
            n == m,
            i <= n,
            a@.take(i as int) == b@.take(i as int),
        decreases n - i,
    {
        if a.get_char(i) != b.get_char(i) {
            assert(a@[i as int] != b@[i as int]);
            return false;
        }
        assert(a@.take(i + 1) =~= a@.take(i as int).push(a@[i as int]));
        assert(b@.take(i + 1) =~= b@.take(i as int).push(b@[i as int]));
        i = i + 1;
    }
    assert(a@ =~= a@.take(n as int));
    assert(b@ =~= b@.take(n as int));
    true
}

proof fn lemma_trim_start_skip(s: Seq<char>, i: int)
    requires
        0 <= i <= s.len(),
        forall|j: int| 0 <= j < i ==> is_ws(#[trigger] s[j]),
    ensures
        trim_start_spec(s) == trim_start_spec(s.skip(i)),
    decreases i,
{
    if i > 0 {
        assert(s.skip(1) =~= s.drop_first());
        lemma_trim_start_skip(s.drop_first(), i - 1);
        assert(s.drop_first().skip(i - 1) =~= s.skip(i));
    } else {
        assert(s.skip(0) =~= s);
    }
}

proof fn lemma_trim_end_take(s: Seq<char>, k: int)
    requires
        0 <= k <= s.len(),
        forall|j: int| k <= j < s.len() ==> is_ws(#[trigger] s[j]),
    ensures
        trim_end_spec(s) == trim_end_spec(s.take(k)),
    decreases s.len() - k,
{
    if k < s.len() {
        lemma_trim_end_take(s.drop_last(), k);
        assert(s.drop_last().take(k) =~= s.take(k));
    } else {
        assert(s.take(k) =~= s);
    }
}

/// `s` with leading and trailing whitespace removed.
pub fn trim(s: &str) -> (r: String)
    ensures
        r@ == trim_spec(s@),
{
    let cs = str_chars(s);
    let n = cs.len();
    let mut lo: usize = 0;
    while lo < n && is_whitespace(cs[lo])
        invariant
            n == cs@.len(),
            lo <= n,
            forall|j: int| 0 <= j < lo ==> is_ws(#[trigger] cs@[j]),
        decreases n - lo,
    {
        lo = lo + 1;
    }
    proof {
        lemma_trim_start_skip(cs@, lo as int);
        if lo < n {
            assert(trim_start_spec(cs@.skip(lo as int)) == cs@.skip(lo as int));
        } else {
            assert(cs@.skip(lo as int).len() == 0);
        }
    }
    let ghost t = cs@.skip(lo as int);
    let mut hi: usize = n;
    while hi > lo && is_whitespace(cs[hi - 1])
        invariant
            n == cs@.len(),
            lo <= hi <= n,
            t == cs@.skip(lo as int),
            forall|j: int| hi - lo <= j < t.len() ==> is_ws(#[trigger] t[j]),
        decreases hi - lo,
    {
        hi = hi - 1;
    }
    proof {
        lemma_trim_end_take(t, (hi - lo) as int);
        let u = t.take((hi - lo) as int);
        if hi > lo {
            assert(u.last() == cs@[hi - 1]);
            assert(trim_end_spec(u) == u);
        } else {
            assert(u.len() == 0);
        }
    }
    let mut out = String::new();
    let mut i: usize = lo;
    while i < hi
        invariant
            n == cs@.len(),
            lo <= i <= hi <= n,
            out@ == cs@.subrange(lo as int, i as int),
        decreases hi - i,
    {
        push_char(&mut out, cs[i]);
        i = i + 1;
        assert(out@ =~= cs@.subrange(lo as int, i as int));
    }
    assert(out@ =~= t.take((hi - lo) as int));
    out
}

/// ASCII lowercase copy of `s`.
pub fn to_ascii_lowercase(s: &str) -> (r: String)
    ensures
        r@ == ascii_lower_seq(s@),
{
    let cs = str_chars(s);
    let mut out = String::new();
    let mut i: usize = 0;
    while i < cs.len()
        invariant
            i <= cs@.len(),
            out@ == ascii_lower_seq(cs@.take(i as int)),
        decreases cs@.len() - i,
    {
        let c = cs[i];
        let l = if 'A' <= c && c <= 'Z' {
            char_from_u32_unchecked_ascii((c as u32) + 32)
        } else {
            c
        };
        push_char(&mut out, l);
        i = i + 1;
        assert(out@ =~= ascii_lower_seq(cs@.take(i as int)));
    }
    assert(cs@.take(cs@.len() as int) =~= cs@);
    out
}

/// The ASCII character with code `v`.
fn char_from_u32_unchecked_ascii(v: u32) -> (c: char)
    requires
        v < 128,
    ensures
        c as u32 == v,
{
    (v as u8) as char
}

} // verus!

verus! {

/// `list` joined with `sep` between consecutive items.
pub open spec fn seq_join(list: Seq<Seq<char>>, sep: Seq<char>) -> Seq<char>
    decreases list.len(),
{
    if list.len() == 0 {
        Seq::empty()
    } else if list.len() == 1 {
        list[0]
    } else {
        seq_join(list.drop_last(), sep) + sep + list.last()
    }
}

/// The views of a list of strings.
pub open spec fn views(list: Seq<String>) -> Seq<Seq<char>> {
    Seq::new(list.len(), |i: int| list[i]@)
}

/// The items of `list` joined with `sep`, as `[String]::join` gives it.
pub fn join_strings(list: &[String], sep: &str) -> (r: String)
    ensures
        r@ == seq_join(views(list@), sep@),
{
    let mut out = String::new();
    let mut i: usize = 0;
    while i < list.len()
        invariant
            i <= list@.len(),
            out@ == seq_join(views(list@).take(i as int), sep@),
        decreases list@.len() - i,
    {
        assert(views(list@).take(i + 1).drop_last() =~= views(list@).take(i as int));
        if i > 0 {
            out.append(sep);
        }
        out.append(list[i].as_str());
        i = i + 1;
        assert(i == 1 ==> out@ =~= seq_join(views(list@).take(i as int), sep@));
    }
    assert(views(list@).take(list@.len() as int) =~= views(list@));
    out
}

} // verus!

verus! {

/// A `String` holding the characters of `cs` from `lo` up to `hi`.
pub fn string_from_range(cs: &[char], lo: usize, hi: usize) -> (r: String)
    requires
        lo <= hi <= cs@.len(),
    ensures
        r@ == cs@.subrange(lo as int, hi as int),
{
    let mut out = String::new();
    let mut i: usize = lo;
    while i < hi
        invariant
            lo <= i <= hi <= cs@.len(),
            out@ == cs@.subrange(lo as int, i as int),
        decreases hi - i,
    {
        push_char(&mut out, cs[i]);
        i = i + 1;
        assert(out@ =~= cs@.subrange(lo as int, i as int));
    }
    out
}

/// Position of the first `c` in `t`, or `t.len()` when `t` holds none.
pub open spec fn first_idx(t: Seq<char>, c: char) -> int
    decreases t.len(),
{
    if t.len() == 0 {
        0
    } else if t[0] == c {
        0
    } else {
        1 + first_idx(t.drop_first(), c)
    }
}

pub proof fn lemma_first_idx(t: Seq<char>, c: char)
    ensures
        0 <= first_idx(t, c) <= t.len(),
        first_idx(t, c) < t.len() ==> t[first_idx(t, c)] == c,
        forall|k: int| 0 <= k < first_idx(t, c) ==> t[k] != c,
    decreases t.len(),
{
    if t.len() > 0 && t[0] != c {
        lemma_first_idx(t.drop_first(), c);
        assert forall|k: int| 0 <= k < first_idx(t, c) implies t[k] != c by {
            if k > 0 {
                assert(t[k] == t.drop_first()[k - 1]);
            }
        }
    }
}

/// A position `r` with no `c` before it and a `c` (or the end) at it is
/// the first position of `c`.
pub proof fn lemma_first_idx_at(t: Seq<char>, c: char, r: int)
    requires
        0 <= r <= t.len(),
        forall|k: int| 0 <= k < r ==> t[k] != c,
        r == t.len() || t[r] == c,
    ensures
        first_idx(t, c) == r,
{
    lemma_first_idx(t, c);
}

/// `s` with its first `c` replaced by `with`, as `str::replacen(c, with, 1)`
/// gives it.
pub open spec fn replace_first(s: Seq<char>, c: char, with: Seq<char>) -> Seq<char> {
    let i = first_idx(s, c);
    if i < s.len() {
        s.take(i) + with + s.skip(i + 1)
    } else {
        s
    }
}

/// `s` with its first `c` replaced by `with`.
pub fn replace_first_char(s: &str, c: char, with: &str) -> (r: String)
    ensures
        r@ == replace_first(s@, c, with@),
{
    let cs = str_chars(s);
    let mut out = String::new();
    let mut i: usize = 0;
    let mut found = false;
    let ghost mut at: int = 0;
    proof {
        lemma_first_idx(s@, c);
    }
    while i < cs.len()
        invariant
            cs@ == s@,
            i <= cs@.len(),
            0 <= first_idx(s@, c) <= s@.len(),
            first_idx(s@, c) < s@.len() ==> s@[first_idx(s@, c)] == c,
            forall|k: int| 0 <= k < first_idx(s@, c) ==> s@[k] != c,
            !found ==> first_idx(s@, c) >= i && out@ == s@.take(i as int),
            found ==> at == first_idx(s@, c) && at < i && out@ == s@.take(at) + with@ + s@.subrange(
                at + 1,
                i as int,
            ),
        decreases cs@.len() - i,
    {
        if !found && cs[i] == c {
            out.append(with);
            found = true;
            proof {
                at = i as int;
                assert(s@.subrange(at + 1, i + 1) =~= Seq::<char>::empty());
            }
        } else {
            let ghost before = out@;
            push_char(&mut out, cs[i]);
            proof {
                if found {
                    assert(s@.subrange(at + 1, i + 1) =~= s@.subrange(at + 1, i as int).push(s@[i as int]));
                } else {
                    assert(s@.take(i + 1) =~= s@.take(i as int).push(s@[i as int]));
                }
            }
        }
        i = i + 1;
    }
    proof {
        if found {
            assert(s@.skip(at + 1) =~= s@.subrange(at + 1, s@.len() as int));
        } else {
            assert(s@.take(i as int) =~= s@);
        }
    }
    out
}

/// What follows `p` in `s`, when `s` starts with `p`.
pub fn strip_prefix(s: &str, p: &str) -> (r: Option<String>)
    ensures
        r is Some <==> p@.is_prefix_of(s@),
        r matches Some(rest) ==> rest@ == s@.skip(p@.len() as int),
{
    let cs = str_chars(s);
    let ps = str_chars(p);
    if ps.len() > cs.len() {
        return None;
    }
    let mut i: usize = 0;
    while i < ps.len()
        invariant
            cs@ == s@,
            ps@ == p@,
            ps@.len() <= cs@.len(),
            i <= ps@.len(),
            forall|k: int| 0 <= k < i ==> cs@[k] == ps@[k],
        decreases ps@.len() - i,
    {
        if cs[i] != ps[i] {
            return None;
        }
        i = i + 1;
    }
    assert(p@ =~= s@.subrange(0, p@.len() as int));
    Some(string_from_range(cs.as_slice(), ps.len(), cs.len()))
}

/// Owned copies of `list`, in order.
pub fn copy_strings(list: &[String]) -> (r: Vec<String>)
    ensures
        views(r@) == views(list@),
{
    let mut out: Vec<String> = Vec::new();
    let mut i: usize = 0;
    while i < list.len()
        invariant
            i <= list@.len(),
            views(out@) == views(list@).take(i as int),
        decreases list@.len() - i,
    {
        let ghost prev = out@;
        out.push(owned(list[i].as_str()));
        assert(views(out@) =~= views(prev).push(list@[i as int]@));
        i = i + 1;
        assert(views(out@) =~= views(list@).take(i as int));
    }
    assert(views(list@).take(list@.len() as int) =~= views(list@));
    out
}

/// Whether `list` holds a string equal to `s`.
pub fn list_contains(list: &[String], s: &str) -> (r: bool)
    ensures
        r == views(list@).contains(s@),
{
    let mut i: usize = 0;
    while i < list.len()
        invariant
            i <= list@.len(),
            forall|j: int| 0 <= j < i ==> list@[j]@ != s@,
        decreases list@.len() - i,
    {
        if str_eq(list[i].as_str(), s) {
            assert(views(list@)[i as int] == s@);
            return true;
        }
        i = i + 1;
    }
    assert forall|x: Seq<char>| views(list@).contains(x) implies x != s@ by {
        let j = choose|j: int| 0 <= j < views(list@).len() && views(list@)[j] == x;
        assert(list@[j]@ != s@);
    }
    false
}

/// `l` without one trailing carriage return.
pub open spec fn strip_cr(l: Seq<char>) -> Seq<char> {
    if l.len() > 0 && l.last() == '\r' {
        l.drop_last()
    } else {
        l
    }
}

/// The lines of `t`, given that the current line so far is `cur`.
pub open spec fn lines_acc(t: Seq<char>, cur: Seq<char>) -> Seq<Seq<char>>
    decreases t.len(),
{
    if t.len() == 0 {
        if cur.len() == 0 {
            Seq::empty()
        } else {
            seq![cur]
        }
    } else if t[0] == '\n' {
        seq![strip_cr(cur)] + lines_acc(t.drop_first(), Seq::empty())
    } else {
        lines_acc(t.drop_first(), cur.push(t[0]))
    }
}

/// The lines of `s` as `str::lines` yields them: split at `\n`, a `\r`
/// before the `\n` dropped, and no empty line after a final `\n`.
pub open spec fn lines_of(s: Seq<char>) -> Seq<Seq<char>> {
    lines_acc(s, Seq::empty())
}

/// The lines of `s`, as `str::lines` yields them.
pub fn split_lines(s: &str) -> (r: Vec<String>)
    ensures
        views(r@) == lines_of(s@),
{
    let cs = str_chars(s);
    let mut out: Vec<String> = Vec::new();
    let mut cur: Vec<char> = Vec::new();
    let mut i: usize = 0;
    assert(cs@.skip(0) =~= cs@);
    assert(views(out@) + lines_acc(cs@.skip(0), cur@) =~= lines_of(s@));
    while i < cs.len()
        invariant
            i <= cs@.len(),
            cs@ == s@,
            lines_of(s@) == views(out@) + lines_acc(cs@.skip(i as int), cur@),
        decreases cs@.len() - i,
    {
        let c = cs[i];
        let ghost t = cs@.skip(i as int);
        assert(t[0] == c);
        assert(t.drop_first() =~= cs@.skip(i + 1));
        if c == '\n' {
            let ghost before = views(out@);
            let ghost line = strip_cr(cur@);
            let n = cur.len();
            let hi = if n > 0 && cur[n - 1] == '\r' { n - 1 } else { n };
            let l = string_from_range(cur.as_slice(), 0, hi);
            assert(l@ =~= line);
            out.push(l);
            assert(views(out@) =~= before.push(line));
            cur = Vec::new();
            assert(before + (seq![line] + lines_acc(cs@.skip(i + 1), cur@)) =~= before.push(line)
                + lines_acc(cs@.skip(i + 1), cur@));
        } else {
            cur.push(c);
        }
        i = i + 1;
    }
    assert(cs@.skip(i as int).len() == 0);
    if cur.len() > 0 {
        let ghost before = views(out@);
        let l = string_from_range(cur.as_slice(), 0, cur.len());
        assert(l@ =~= cur@);
        out.push(l);
        assert(views(out@) =~= before.push(cur@));
        assert(before + seq![cur@] =~= before.push(cur@));
    } else {
        assert(views(out@) + Seq::<Seq<char>>::empty() =~= views(out@));
    }
    out
}

} // verus!

verus! {

/// The decimal digits of `n`.
pub open spec fn decimal(n: nat) -> Seq<char>
    decreases n,
{
    if n < 10 {
        seq![(48 + n) as char]
    } else {
        decimal(n / 10) + seq![(48 + n % 10) as char]
    }
}

/// The digit character for `d`.
fn digit_char(d: usize) -> (c: char)
    requires
        d < 10,
    ensures
        c == (48 + d) as char,
{
    let b: u8 = 48u8 + d as u8;
    b as char
}

/// `n` written in decimal, as `format!("{n}")` writes it.
pub fn decimal_string(n: usize) -> (r: String)
    ensures
        r@ == decimal(n as nat),
    decreases n,
{
    if n < 10 {
        let mut s = String::new();
        push_char(&mut s, digit_char(n));
        assert(s@ =~= decimal(n as nat));
        s
    } else {
        let mut s = decimal_string(n / 10);
        push_char(&mut s, digit_char(n % 10));
        assert(s@ =~= decimal(n as nat));
        s
    }
}

} // verus!

verus! {

/// The whitespace-separated words of `s`, with `cur` the part of a word
/// already read.
pub open spec fn words_acc(s: Seq<char>, cur: Seq<char>) -> Seq<Seq<char>>
    decreases s.len(),
{
    if s.len() == 0 {
        if cur.len() == 0 {
            Seq::empty()
        } else {
            seq![cur]
        }
    } else if is_ws(s[0]) {
        (if cur.len() == 0 {
            Seq::empty()
        } else {
            seq![cur]
        }) + words_acc(s.drop_first(), Seq::empty())
    } else {
        words_acc(s.drop_first(), cur.push(s[0]))
    }
}

/// The words of `s`, as `str::split_whitespace` yields them.
pub open spec fn words(s: Seq<char>) -> Seq<Seq<char>> {
    words_acc(s, Seq::empty())
}

/// The words of `s`, as `str::split_whitespace` yields them.
pub fn split_whitespace(s: &str) -> (r: Vec<String>)
    ensures
        views(r@) == words(s@),
{
    let cs = str_chars(s);
    let mut out: Vec<String> = Vec::new();
    let mut cur: Vec<char> = Vec::new();
    let mut i: usize = 0;
    assert(cs@.skip(0) =~= cs@);
    assert(views(out@) + words_acc(cs@.skip(0), cur@) =~= words(s@));
    while i < cs.len()
        invariant
            i <= cs@.len(),
            cs@ == s@,
            words(s@) == views(out@) + words_acc(cs@.skip(i as int), cur@),
        decreases cs@.len() - i,
    {
        let c = cs[i];
        let ghost t = cs@.skip(i as int);
        assert(t[0] == c);
        assert(t.drop_first() =~= cs@.skip(i + 1));
        if is_whitespace(c) {
            let ghost before = views(out@);
            if cur.len() > 0 {
                let w = string_from_range(cur.as_slice(), 0, cur.len());
                assert(w@ =~= cur@);
                out.push(w);
                assert(views(out@) =~= before.push(cur@));
                assert(before + (seq![cur@] + words_acc(cs@.skip(i + 1), Seq::empty())) =~= before.push(
                    cur@,
                ) + words_acc(cs@.skip(i + 1), Seq::empty()));
            } else {
                assert(before + (Seq::<Seq<char>>::empty() + words_acc(cs@.skip(i + 1), Seq::empty()))
                    =~= before + words_acc(cs@.skip(i + 1), Seq::empty()));
            }
            cur = Vec::new();
        } else {
            cur.push(c);
        }
        i = i + 1;
    }
    assert(cs@.skip(i as int).len() == 0);
    if cur.len() > 0 {
        let ghost before = views(out@);
        let w = string_from_range(cur.as_slice(), 0, cur.len());
        assert(w@ =~= cur@);
        out.push(w);
        assert(views(out@) =~= before.push(cur@));
        assert(before + seq![cur@] =~= before.push(cur@));
    } else {
        assert(views(out@) + Seq::<Seq<char>>::empty() =~= views(out@));
    }
    out
}


/// `s` without its trailing newlines.
pub open spec fn trim_newlines_end(s: Seq<char>) -> Seq<char>
    decreases s.len(),
{
    if s.len() > 0 && s.last() == '\n' {
        trim_newlines_end(s.drop_last())
    } else {
        s
    }
}

/// `s.trim_end_matches('\n')`.
pub fn trim_end_newlines(s: &str) -> (r: String)
    ensures
        r@ == trim_newlines_end(s@),
{
    let cs = str_chars(s);
    let mut n: usize = cs.len();
    assert(cs@.take(n as int) =~= cs@);
    while n > 0 && cs[n - 1] == '\n'
        invariant
            n <= cs@.len(),
            cs@ == s@,
            trim_newlines_end(cs@.take(n as int)) == trim_newlines_end(s@),
        decreases n,
    {
        assert(cs@.take(n as int).drop_last() =~= cs@.take(n - 1));
        n = n - 1;
    }
    assert(cs@.subrange(0, n as int) =~= cs@.take(n as int));
    string_from_range(cs.as_slice(), 0, n)
}

/// Trimming leaves no whitespace at either end.
proof fn lemma_trim_start_head(s: Seq<char>)
    ensures
        trim_start_spec(s).len() > 0 ==> !is_ws(trim_start_spec(s)[0]),
    decreases s.len(),
{
    if s.len() > 0 && is_ws(s[0]) {
        lemma_trim_start_head(s.drop_first());
    }
}

proof fn lemma_trim_end_keeps_head(s: Seq<char>)
    requires
        s.len() > 0 ==> !is_ws(s[0]),
    ensures
        trim_end_spec(s).len() > 0 ==> !is_ws(trim_end_spec(s)[0]) && !is_ws(trim_end_spec(s).last()),
    decreases s.len(),
{
    if s.len() > 0 && is_ws(s.last()) {
        if s.len() > 1 {
            assert(s.drop_last()[0] == s[0]);
        }
        lemma_trim_end_keeps_head(s.drop_last());
    }
}

/// Lowercasing keeps whitespace whitespace and anything else not.
proof fn lemma_lower_ws(c: char)
    ensures
        is_ws(ascii_lower(c)) == is_ws(c),
        ascii_lower(ascii_lower(c)) == ascii_lower(c),
{
    if 'A' <= c && c <= 'Z' {
        let l = ((c as u32) + 32) as char;
        assert('a' <= l && l <= 'z');
    }
}

/// Trimming and lowercasing a line twice is doing it once.
pub proof fn lemma_trim_lower_idempotent(line: Seq<char>)
    ensures
        ascii_lower_seq(trim_spec(ascii_lower_seq(trim_spec(line)))) == ascii_lower_seq(trim_spec(line)),
{
    let t = trim_spec(line);
    lemma_trim_start_head(line);
    lemma_trim_end_keeps_head(trim_start_spec(line));
    let l = ascii_lower_seq(t);
    if l.len() > 0 {
        lemma_lower_ws(t[0]);
        lemma_lower_ws(t.last());
        assert(l[0] == ascii_lower(t[0]));
        assert(l.last() == ascii_lower(t.last()));
    }
    assert(trim_start_spec(l) == l);
    assert(trim_end_spec(l) == l);
    assert forall|i: int| 0 <= i < l.len() implies ascii_lower(l[i]) == l[i] by {
        lemma_lower_ws(t[i]);
    }
    assert(ascii_lower_seq(l) =~= l);
}

} // verus!
