//! Character-level helpers on string slices, stated over `Seq<char>`.
use vstd::prelude::*;

verus! {

broadcast use vstd::string::group_string_axioms;

/// `p` is a prefix of `s`.
pub open spec fn seq_starts_with(s: Seq<char>, p: Seq<char>) -> bool {
    p.len() <= s.len() && s.subrange(0, p.len() as int) == p
}

/// `p` is a suffix of `s`.
pub open spec fn seq_ends_with(s: Seq<char>, p: Seq<char>) -> bool {
    p.len() <= s.len() && s.subrange(s.len() - p.len(), s.len() as int) == p
}

/// `p` occurs somewhere in `s` as a contiguous block.
pub open spec fn seq_contains(s: Seq<char>, p: Seq<char>) -> bool {
    exists|i: int| 0 <= i && i + p.len() <= s.len() && #[trigger] s.subrange(i, i + p.len()) == p
}

/// `s` with every occurrence of `from` replaced by the characters of `to`.
pub open spec fn seq_replace_char(s: Seq<char>, from: char, to: Seq<char>) -> Seq<char>
    decreases s.len(),
{
    if s.len() == 0 {
        Seq::empty()
    } else {
        let head = if s[0] == from { to } else { seq![s[0]] };
        head + seq_replace_char(s.drop_first(), from, to)
    }
}

/// The characters of `s`, in order.
pub fn chars_of(s: &str) -> (v: Vec<char>)
    ensures
        v@ == s@,
{
    let mut v: Vec<char> = Vec::new();
    for c in it: s.chars()
        invariant
            v@ == it.seq().take(it.index() as int),
            it.seq() == s@,
    {
        v.push(c);
    }
    v
}

/// An owned copy of `s`.
pub fn owned(s: &str) -> (r: String)
    ensures
        r@ == s@,
{
    s.to_string()
}

/// Appends one character to `s` (`String::push`).
#[verifier::external_body]
pub(crate) fn push_char(s: &mut String, c: char)
    ensures
        final(s)@ == old(s)@.push(c),
{
    s.push(c)
}

/// The string made of the characters of `v`.
pub fn string_from_chars(v: &Vec<char>) -> (r: String)
    ensures
        r@ == v@,
{
    let mut r = String::new();
    let mut i: usize = 0;
    while i < v.len()
        invariant
            i <= v.len(),
            r@ == v@.take(i as int),
        decreases v.len() - i,
    {
        push_char(&mut r, v[i]);
        i = i + 1;
        assert(r@ == v@.take(i as int));
    }
    assert(v@.take(v.len() as int) == v@);
    r
}

/// `a` followed by `b`.
pub fn concat(a: &str, b: &str) -> (r: String)
    ensures
        r@ == a@ + b@,
{
    let mut r = owned(a);
    r.append(b);
    r
}

/// Whether `s[start..start + p.len()]` equals `p`.
fn block_equals(s: &Vec<char>, start: usize, p: &Vec<char>) -> (r: bool)
    requires
        start + p.len() <= s.len(),
    ensures
        r == (s@.subrange(start as int, start + p.len()) == p@),
{
    let mut i: usize = 0;
    while i < p.len()
        invariant
            i <= p.len(),
            start + p.len() <= s.len(),
            forall|j: int| 0 <= j < i ==> s@[start + j] == p@[j],
        decreases p.len() - i,
    {
        if s[start + i] != p[i] {
            assert(s@.subrange(start as int, start + p.len())[i as int] != p@[i as int]);
            return false;
        }
        i = i + 1;
    }
    assert(s@.subrange(start as int, start + p.len()) =~= p@);
    true
}

/// Whether the two strings hold the same characters.
pub fn str_eq(a: &str, b: &str) -> (r: bool)
    ensures
        r == (a@ == b@),
{
    let va = chars_of(a);
    let vb = chars_of(b);
    if va.len() != vb.len() {
        return false;
    }
    let r = block_equals(&va, 0, &vb);
    assert(va@.subrange(0, vb@.len() as int) =~= va@);
    r
}

/// Whether `s` begins with `p`.
pub fn starts_with(s: &str, p: &str) -> (r: bool)
    ensures
        r == seq_starts_with(s@, p@),
{
    let vs = chars_of(s);
    let vp = chars_of(p);
    if vp.len() > vs.len() {
        return false;
    }
    block_equals(&vs, 0, &vp)
}

/// Whether `s` ends with `p`.
pub fn ends_with(s: &str, p: &str) -> (r: bool)
    ensures
        r == seq_ends_with(s@, p@),
{
    let vs = chars_of(s);
    let vp = chars_of(p);
    if vp.len() > vs.len() {
        return false;
    }
    block_equals(&vs, vs.len() - vp.len(), &vp)
}

/// Whether `p` occurs in `s`.
pub fn contains(s: &str, p: &str) -> (r: bool)
    ensures
        r == seq_contains(s@, p@),
{
    let vs = chars_of(s);
    let vp = chars_of(p);
    if vp.len() > vs.len() {
        return false;
    }
    let last = vs.len() - vp.len();
    let mut i: usize = 0;
    loop
        invariant
            last + vp.len() == vs.len(),
            vs@ == s@,
            vp@ == p@,
            i <= last,
            forall|k: int| 0 <= k < i ==> #[trigger] vs@.subrange(k, k + vp@.len()) != vp@,
        ensures
            forall|k: int| 0 <= k <= last ==> #[trigger] vs@.subrange(k, k + vp@.len()) != vp@,
        decreases last - i,
    {
        if block_equals(&vs, i, &vp) {
            assert(vs@.subrange(i as int, i + vp@.len()) == vp@);
            assert(seq_contains(vs@, vp@));
            return true;
        }
        if i == last {
            break;
        }
        i = i + 1;
    }
    assert forall|k: int| 0 <= k && k + vp@.len() <= vs@.len() implies #[trigger] vs@.subrange(k, k + vp@.len()) != vp@ by {
        assert(k <= last);
    }
    false
}

/// `s` with every `from` replaced by `to`.
pub fn replace_char(s: &str, from: char, to: &str) -> (r: String)
    ensures
        r@ == seq_replace_char(s@, from, to@),
{
    let vs = chars_of(s);
    let vt = chars_of(to);
    let mut out: Vec<char> = Vec::new();
    let mut k: usize = 0;
    while k < vs.len()
        invariant
            k <= vs.len(),
            out@ == seq_replace_char(vs@.take(k as int), from, vt@),
        decreases vs.len() - k,
    {
        proof {
            lemma_replace_char_push(vs@.take(k as int), vs@[k as int], from, vt@);
            assert(vs@.take(k as int).push(vs@[k as int]) =~= vs@.take(k + 1));
        }
        if vs[k] == from {
            let mut j: usize = 0;
            let ghost before = out@;
            while j < vt.len()
                invariant
                    j <= vt.len(),
                    out@ == before + vt@.take(j as int),
                decreases vt.len() - j,
            {
                out.push(vt[j]);
                j = j + 1;
                assert(out@ =~= before + vt@.take(j as int));
            }
            assert(vt@.take(vt.len() as int) =~= vt@);
        } else {
            out.push(vs[k]);
        }
        k = k + 1;
    }
    assert(vs@.take(vs.len() as int) =~= vs@);
    string_from_chars(&out)
}

/// Replacing in `s.push(c)` appends the expansion of `c` to the replacement of `s`.
pub proof fn lemma_replace_char_push(s: Seq<char>, c: char, from: char, to: Seq<char>)
    ensures
        seq_replace_char(s.push(c), from, to) == seq_replace_char(s, from, to) + (if c == from {
            to
        } else {
            seq![c]
        }),
    decreases s.len(),
{
    if s.len() == 0 {
        assert(s.push(c).drop_first() =~= Seq::<char>::empty());
        assert(seq_replace_char(Seq::<char>::empty(), from, to) =~= Seq::<char>::empty());
        let tail: Seq<char> = seq_replace_char(s.push(c), from, to);
        assert(tail =~= (if c == from { to } else { seq![c] }));
    } else {
        lemma_replace_char_push(s.drop_first(), c, from, to);
        assert(s.push(c).drop_first() =~= s.drop_first().push(c));
        let head = if s[0] == from { to } else { seq![s[0]] };
        assert(seq_replace_char(s.push(c), from, to) =~= head + seq_replace_char(s.drop_first().push(c), from, to));
    }
}

/// When the replacement has no `from`, the result has none either.
pub proof fn lemma_replace_char_removes(s: Seq<char>, from: char, to: Seq<char>)
    requires
        forall|i: int| 0 <= i < to.len() ==> to[i] != from,
    ensures
        forall|i: int|
            0 <= i < seq_replace_char(s, from, to).len() ==> #[trigger] seq_replace_char(s, from, to)[i]
                != from,
    decreases s.len(),
{
    if s.len() > 0 {
        lemma_replace_char_removes(s.drop_first(), from, to);
        let head = if s[0] == from { to } else { seq![s[0]] };
        let rest = seq_replace_char(s.drop_first(), from, to);
        let r = seq_replace_char(s, from, to);
        assert(r == head + rest);
        assert forall|i: int| 0 <= i < r.len() implies #[trigger] r[i] != from by {
            if i < head.len() {
                assert(r[i] == head[i]);
            } else {
                assert(r[i] == rest[i - head.len()]);
            }
        }
    }
}

/// Whether `c` has the Unicode White_Space property, the set that
/// `char::is_whitespace` tests and `str::trim` strips.
pub open spec fn is_unicode_whitespace(c: char) -> bool {
    let n = c as u32;
    ||| 0x09 <= n <= 0x0D
    ||| n == 0x20
    ||| n == 0x85
    ||| n == 0xA0
    ||| n == 0x1680
    ||| 0x2000 <= n <= 0x200A
    ||| n == 0x2028
    ||| n == 0x2029
    ||| n == 0x202F
    ||| n == 0x205F
    ||| n == 0x3000
}

/// `s` without its leading whitespace.
pub open spec fn seq_trim_start(s: Seq<char>) -> Seq<char>
    decreases s.len(),
{
    if s.len() > 0 && is_unicode_whitespace(s[0]) {
        seq_trim_start(s.drop_first())
    } else {
        s
    }
}

/// `s` without its trailing whitespace.
pub open spec fn seq_trim_end(s: Seq<char>) -> Seq<char>
    decreases s.len(),
{
    if s.len() > 0 && is_unicode_whitespace(s.last()) {
        seq_trim_end(s.drop_last())
    } else {
        s
    }
}

/// `s` without its leading and trailing whitespace.
pub open spec fn seq_trim(s: Seq<char>) -> Seq<char> {
    seq_trim_end(seq_trim_start(s))
}

/// Whether `c` is Unicode whitespace.
pub fn is_whitespace_char(c: char) -> (r: bool)
    ensures
        r == is_unicode_whitespace(c),
{
    let n = c as u32;
    (0x09 <= n && n <= 0x0D) || n == 0x20 || n == 0x85 || n == 0xA0 || n == 0x1680 || (0x2000
        <= n && n <= 0x200A) || n == 0x2028 || n == 0x2029 || n == 0x202F || n == 0x205F || n
        == 0x3000
}

/// `s` without leading and trailing whitespace, as `str::trim` gives it.
pub fn trim(s: &str) -> (r: String)
    ensures
        r@ == seq_trim(s@),
{
    let v = chars_of(s);
    let len = v.len();
    assert(v@.subrange(0, len as int) =~= v@);
    let mut i: usize = 0;
    while i < len && is_whitespace_char(v[i])
        invariant
            i <= len,
            len == v.len(),
            seq_trim_start(v@) == seq_trim_start(v@.subrange(i as int, len as int)),
        decreases len - i,
    {
        assert(v@.subrange(i as int, len as int).drop_first() =~= v@.subrange(
            i + 1,
            len as int,
        ));
        i = i + 1;
    }
    let mut j: usize = len;
    while j > i && is_whitespace_char(v[j - 1])
        invariant
            i <= j <= len,
            len == v.len(),
            seq_trim_end(v@.subrange(i as int, len as int)) == seq_trim_end(
                v@.subrange(i as int, j as int),
            ),
        decreases j - i,
    {
        assert(v@.subrange(i as int, j as int).drop_last() =~= v@.subrange(
            i as int,
            j - 1,
        ));
        j = j - 1;
    }
    let mut r = String::new();
    let mut k: usize = i;
    while k < j
        invariant
            i <= k <= j <= len,
            len == v.len(),
            r@ == v@.subrange(i as int, k as int),
        decreases j - k,
    {
        push_char(&mut r, v[k]);
        k = k + 1;
        assert(r@ =~= v@.subrange(i as int, k as int));
    }
    r
}

/// The lowercase form of `s` as `str::to_lowercase` computes it.
pub uninterp spec fn str_to_lowercase(s: Seq<char>) -> Seq<char>;

/// Calls `str::to_lowercase`; the contract claims only that the result is
/// `str_to_lowercase` of the input's characters.
#[verifier::external_body]
pub(crate) fn to_lowercase(s: &str) -> (r: String)
    ensures
        r@ == str_to_lowercase(s@),
{
    s.to_lowercase()
}

} // verus!
