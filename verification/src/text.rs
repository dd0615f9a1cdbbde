//! Verified text helpers shared by the validators: character sequences,
//! containment, prefix/suffix tests and decimal rendering.
use vstd::prelude::*;

verus! {

/// The character views of a sequence of strings.
pub open spec fn views(v: Seq<String>) -> Seq<Seq<char>> {
    v.map_values(|s: String| s@)
}

/// `needle` occurs in `hay` as a contiguous block.
pub open spec fn has_sub(hay: Seq<char>, needle: Seq<char>) -> bool {
    exists|i: int| 0 <= i && i + needle.len() <= hay.len() && #[trigger] hay.subrange(i, i + needle.len()) == needle
}

/// `prefix` is a prefix of `s`.
pub open spec fn has_prefix(s: Seq<char>, prefix: Seq<char>) -> bool {
    prefix.len() <= s.len() && s.subrange(0, prefix.len() as int) == prefix
}

/// `suffix` is a suffix of `s`.
pub open spec fn has_suffix(s: Seq<char>, suffix: Seq<char>) -> bool {
    suffix.len() <= s.len() && s.subrange(s.len() - suffix.len(), s.len() as int) == suffix
}

/// The decimal digit for `d` (0..=9).
pub open spec fn digit_char(d: nat) -> char {
    if d == 0 { '0' } else if d == 1 { '1' } else if d == 2 { '2' } else if d == 3 { '3' }
    else if d == 4 { '4' } else if d == 5 { '5' } else if d == 6 { '6' } else if d == 7 { '7' }
    else if d == 8 { '8' } else { '9' }
}

/// Decimal rendering of a natural number, without leading zeros.
pub open spec fn decimal(n: nat) -> Seq<char>
    decreases n,
{
    if n < 10 {
        seq![digit_char(n)]
    } else {
        decimal(n / 10).push(digit_char(n % 10))
    }
}

/// Appends one character to a string (`String::push`).
#[verifier::external_body]
pub fn push_char(s: &mut String, c: char)
    ensures
        final(s)@ == old(s)@.push(c),
{
    s.push(c)
}

/// The characters of `s`, in order.
pub fn chars_of(s: &str) -> (r: Vec<char>)
    ensures
        r@ == s@,
{
    let n = s.unicode_len();
    let mut r: Vec<char> = Vec::new();
    let mut i: usize = 0;
    while i < n
        invariant
            n == s@.len(),
            i <= n,
            r@ == s@.subrange(0, i as int),
        decreases n - i,
    {
        let c = s.get_char(i);
        r.push(c);
        i = i + 1;
        proof {
            assert(r@ =~= s@.subrange(0, i as int));
        }
    }
    proof {
        assert(r@ =~= s@);
    }
    r
}

/// A string holding exactly the characters `cs`.
pub fn string_of(cs: &Vec<char>) -> (r: String)
    ensures
        r@ == cs@,
{
    let mut r = String::new();
    let mut i: usize = 0;
    while i < cs.len()
        invariant
            i <= cs.len(),
            r@ == cs@.subrange(0, i as int),
        decreases cs.len() - i,
    {
        push_char(&mut r, cs[i]);
        i = i + 1;
        proof {
            assert(r@ =~= cs@.subrange(0, i as int));
        }
    }
    proof {
        assert(r@ =~= cs@);
    }
    r
}

/// Whether two character sequences are equal.
pub fn chars_eq(a: &Vec<char>, b: &Vec<char>) -> (r: bool)
    ensures
        r == (a@ == b@),
{
    if a.len() != b.len() {
        return false;
    }
    let mut i: usize = 0;
    while i < a.len()
        invariant
            a.len() == b.len(),
            i <= a.len(),
            forall|j: int| 0 <= j < i ==> a@[j] == b@[j],
        decreases a.len() - i,
    {
        if a[i] != b[i] {
            return false;
        }
        i = i + 1;
    }
    proof {
        assert(a@ =~= b@);
    }
    true
}

/// Whether two strings are equal.
pub fn str_eq(a: &str, b: &str) -> (r: bool)
    ensures
        r == (a@ == b@),
{
    let ca = chars_of(a);
    let cb = chars_of(b);
    chars_eq(&ca, &cb)
}

/// Whether `v` holds a string equal to `s`.
pub fn contains_string(v: &Vec<String>, s: &str) -> (r: bool)
    ensures
        r == views(v@).contains(s@),
{
    let mut i: usize = 0;
    while i < v.len()
        invariant
            i <= v.len(),
            forall|j: int| 0 <= j < i ==> v@[j]@ != s@,
        decreases v.len() - i,
    {
        if str_eq(v[i].as_str(), s) {
            proof {
                assert(views(v@)[i as int] == s@);
            }
            return true;
        }
        i = i + 1;
    }
    proof {
        if views(v@).contains(s@) {
            let k = choose|k: int| 0 <= k < views(v@).len() && views(v@)[k] == s@;
            assert(v@[k]@ == s@);
        }
    }
    false
}

/// A copy of a vector of strings.
pub fn clone_strings(v: &Vec<String>) -> (r: Vec<String>)
    ensures
        r@ == v@,
{
    let mut r: Vec<String> = Vec::new();
    let mut i: usize = 0;
    while i < v.len()
        invariant
            i <= v.len(),
            r@ == v@.subrange(0, i as int),
        decreases v.len() - i,
    {
        r.push(v[i].clone());
        i = i + 1;
        proof {
            assert(r@ =~= v@.subrange(0, i as int));
        }
    }
    proof {
        assert(r@ =~= v@);
    }
    r
}

/// Whether `needle` occurs at position `i` of `hay`.
fn occurs_at(hay: &Vec<char>, needle: &Vec<char>, i: usize) -> (r: bool)
    requires
        i + needle.len() <= hay.len(),
    ensures
        r == (hay@.subrange(i as int, i + needle.len()) == needle@),
{
    let mut j: usize = 0;
    while j < needle.len()
        invariant
            i + needle.len() <= hay.len(),
            j <= needle.len(),
            forall|k: int| 0 <= k < j ==> hay@[i + k] == needle@[k],
        decreases needle.len() - j,
    {
        if hay[i + j] != needle[j] {
            proof {
                assert(hay@.subrange(i as int, i + needle.len())[j as int] != needle@[j as int]);
            }
            return false;
        }
        j = j + 1;
    }
    proof {
        assert(hay@.subrange(i as int, i + needle.len()) =~= needle@);
    }
    true
}

/// Whether `needle` occurs anywhere in `hay`.
pub fn chars_contain(hay: &Vec<char>, needle: &Vec<char>) -> (r: bool)
    ensures
        r == has_sub(hay@, needle@),
{
    if needle.len() > hay.len() {
        return false;
    }
    if needle.len() == 0 {
        proof {
            assert(hay@.subrange(0int, 0int + needle@.len()) =~= needle@);
        }
        return true;
    }
    let last = hay.len() - needle.len();
    let mut i: usize = 0;
    while i <= last
        invariant
            last + needle.len() == hay.len(),
            needle.len() > 0,
            i <= last + 1,
            forall|k: int| 0 <= k < i ==> #[trigger] hay@.subrange(k, k + needle.len()) != needle@,
        decreases last + 1 - i,
    {
        if occurs_at(hay, needle, i) {
            return true;
        }
        i = i + 1;
    }
    proof {
        if has_sub(hay@, needle@) {
            let k = choose|k: int| 0 <= k && k + needle@.len() <= hay@.len() && #[trigger] hay@.subrange(k, k + needle@.len()) == needle@;
            assert(hay@.subrange(k, k + needle.len()) == needle@);
        }
    }
    false
}

/// Whether the string `hay` contains `needle`.
pub fn str_contains(hay: &str, needle: &str) -> (r: bool)
    ensures
        r == has_sub(hay@, needle@),
{
    let h = chars_of(hay);
    let n = chars_of(needle);
    chars_contain(&h, &n)
}

/// Whether `s` starts with `prefix`.
pub fn str_starts_with(s: &str, prefix: &str) -> (r: bool)
    ensures
        r == has_prefix(s@, prefix@),
{
    let cs = chars_of(s);
    let cp = chars_of(prefix);
    if cp.len() > cs.len() {
        return false;
    }
    occurs_at(&cs, &cp, 0)
}

/// Whether `s` ends with `suffix`.
pub fn str_ends_with(s: &str, suffix: &str) -> (r: bool)
    ensures
        r == has_suffix(s@, suffix@),
{
    let cs = chars_of(s);
    let cp = chars_of(suffix);
    if cp.len() > cs.len() {
        return false;
    }
    occurs_at(&cs, &cp, cs.len() - cp.len())
}

/// The decimal digit character for `d < 10`.
fn digit(d: u64) -> (c: char)
    requires
        d < 10,
    ensures
        c == digit_char(d as nat),
{
    if d == 0 { '0' } else if d == 1 { '1' } else if d == 2 { '2' } else if d == 3 { '3' }
    else if d == 4 { '4' } else if d == 5 { '5' } else if d == 6 { '6' } else if d == 7 { '7' }
    else if d == 8 { '8' } else { '9' }
}

/// Appends the decimal rendering of `n` to `s`.
pub fn push_decimal(s: &mut String, n: u64)
    ensures
        final(s)@ == old(s)@ + decimal(n as nat),
    decreases n,
{
    if n < 10 {
        push_char(s, digit(n));
        proof {
            assert(decimal(n as nat) =~= seq![digit_char(n as nat)]);
        }
    } else {
        push_decimal(s, n / 10);
        push_char(s, digit(n % 10));
        proof {
            assert(decimal(n as nat) == decimal((n / 10) as nat).push(digit_char((n % 10) as nat)));
        }
    }
}

/// The decimal rendering of `n`.
pub fn decimal_string(n: u64) -> (r: String)
    ensures
        r@ == decimal(n as nat),
{
    let mut s = String::new();
    push_decimal(&mut s, n);
    proof {
        assert(s@ =~= decimal(n as nat));
    }
    s
}


/// `acc` followed by the items of `items` that are not yet present, each
/// taken at its first occurrence.
pub open spec fn append_new<A>(acc: Seq<A>, items: Seq<A>) -> Seq<A>
    decreases items.len(),
{
    if items.len() == 0 {
        acc
    } else {
        let prev = append_new(acc, items.drop_last());
        if prev.contains(items.last()) {
            prev
        } else {
            prev.push(items.last())
        }
    }
}

proof fn lemma_append_new_step<A>(acc: Seq<A>, items: Seq<A>, j: int)
    requires
        0 <= j < items.len(),
    ensures
        append_new(acc, items.take(j + 1)) == if append_new(acc, items.take(j)).contains(items[j]) {
            append_new(acc, items.take(j))
        } else {
            append_new(acc, items.take(j)).push(items[j])
        },
{
    assert(items.take(j + 1).drop_last() =~= items.take(j));
}

/// `append_new` keeps a list free of repeats.
pub proof fn lemma_append_new_no_duplicates<A>(acc: Seq<A>, items: Seq<A>)
    requires
        acc.no_duplicates(),
    ensures
        append_new(acc, items).no_duplicates(),
    decreases items.len(),
{
    if items.len() > 0 {
        lemma_append_new_no_duplicates(acc, items.drop_last());
        let prev = append_new(acc, items.drop_last());
        let l = items.last();
        if !prev.contains(l) {
            let p2 = prev.push(l);
            assert forall|a: int, b: int| 0 <= a < p2.len() && 0 <= b < p2.len() && a != b implies p2[a] != p2[b] by {
                if a < prev.len() && b < prev.len() {
                    assert(p2[a] == prev[a] && p2[b] == prev[b]);
                } else if a < prev.len() {
                    assert(p2[a] == prev[a]);
                    assert(p2[b] == l);
                } else {
                    assert(p2[b] == prev[b]);
                    assert(p2[a] == l);
                }
            }
        }
    }
}

/// An element is in `append_new(acc, items)` exactly when it is in `acc` or
/// in `items`.
pub proof fn lemma_append_new_contains<A>(acc: Seq<A>, items: Seq<A>, x: A)
    ensures
        append_new(acc, items).contains(x) <==> acc.contains(x) || items.contains(x),
    decreases items.len(),
{
    if items.len() > 0 {
        let init = items.drop_last();
        lemma_append_new_contains(acc, init, x);
        let prev = append_new(acc, init);
        let l = items.last();
        assert(items[items.len() - 1] == l);
        if items.contains(x) {
            let j = choose|j: int| 0 <= j < items.len() && items[j] == x;
            if j < init.len() {
                assert(init[j] == x);
            }
        }
        if init.contains(x) {
            let j = choose|j: int| 0 <= j < init.len() && init[j] == x;
            assert(items[j] == x);
        }
        if !prev.contains(l) {
            let p2 = prev.push(l);
            assert(p2[p2.len() - 1] == l);
            if p2.contains(x) {
                let j = choose|j: int| 0 <= j < p2.len() && p2[j] == x;
                if j < prev.len() {
                    assert(prev[j] == x);
                }
            }
            if prev.contains(x) {
                let j = choose|j: int| 0 <= j < prev.len() && prev[j] == x;
                assert(p2[j] == x);
            }
        }
    }
}


/// Appends to `acc` every string of `items` that it does not hold yet.
pub fn extend_unique(acc: &mut Vec<String>, items: &Vec<String>)
    ensures
        views(final(acc)@) == append_new(views(old(acc)@), views(items@)),
{
    let ghost start = views(acc@);
    let mut j: usize = 0;
    while j < items.len()
        invariant
            j <= items.len(),
            views(acc@) == append_new(start, views(items@).take(j as int)),
        decreases items.len() - j,
    {
        proof {
            lemma_append_new_step(start, views(items@), j as int);
        }
        if !contains_string(acc, items[j].as_str()) {
            let ghost before = acc@;
            acc.push(items[j].clone());
            proof {
                assert(views(acc@) =~= views(before).push(items@[j as int]@));
            }
        }
        j = j + 1;
    }
    proof {
        assert(views(items@).take(items.len() as int) =~= views(items@));
    }
}

/// The `Debug` rendering of a list of strings (`["a", "b"]`).
pub uninterp spec fn debug_list(items: Seq<Seq<char>>) -> Seq<char>;

/// Renders a list of strings as `Debug` prints a `Vec<String>`.
#[verifier::external_body]
pub fn debug_string_list(items: &Vec<String>) -> (r: String)
    ensures
        r@ == debug_list(views(items@)),
{
    format!("{:?}", items)
}

/// `s` with every `{id}` replaced by `w`, scanning left to right.
pub open spec fn replace_id(s: Seq<char>, w: Seq<char>) -> Seq<char>
    decreases s.len(),
{
    if s.len() == 0 {
        s
    } else if 4 <= s.len() && s.subrange(0, 4) == "{id}"@ {
        w + replace_id(s.skip(4), w)
    } else {
        seq![s[0]] + replace_id(s.drop_first(), w)
    }
}

/// `s` with every `{id}` replaced by `w`.
pub fn replace_id_marker(s: &str, w: &str) -> (r: String)
    ensures
        r@ == replace_id(s@, w@),
{
    proof {
        reveal_strlit("{id}");
    }
    let cs = chars_of(s);
    let n = cs.len();
    let mut out = String::new();
    let mut i: usize = 0;
    assert(cs@.skip(0) =~= cs@);
    while i < n
        invariant
            n == cs@.len(),
            cs@ == s@,
            i <= n,
            out@ + replace_id(cs@.skip(i as int), w@) == replace_id(s@, w@),
        decreases n - i,
    {
        let ghost rest = cs@.skip(i as int);
        proof {
            reveal_strlit("{id}");
            }
        if 4 <= n - i && cs[i] == '{' && cs[i + 1] == 'i' && cs[i + 2] == 'd' && cs[i + 3] == '}' {
            proof {
                assert(rest.subrange(0, 4) =~= "{id}"@);
                assert(rest.skip(4) =~= cs@.skip(i + 4));
            }
            let ghost before = out@;
            out.append(w);
            proof {
                assert(out@ + replace_id(cs@.skip(i + 4), w@) =~= before + (w@ + replace_id(rest.skip(4), w@)));
            }
            i = i + 4;
        } else {
            proof {
                if 4 <= rest.len() {
                    assert(rest.subrange(0, 4) != "{id}"@) by {
                        if rest.subrange(0, 4) == "{id}"@ {
                            assert(rest.subrange(0, 4)[0] == '{');
                            assert(rest.subrange(0, 4)[1] == 'i');
                            assert(rest.subrange(0, 4)[2] == 'd');
                            assert(rest.subrange(0, 4)[3] == '}');
                        }
                    }
                }
                assert(rest.drop_first() =~= cs@.skip(i + 1));
            }
            let ghost before = out@;
            push_char(&mut out, cs[i]);
            proof {
                assert(out@ + replace_id(cs@.skip(i + 1), w@) =~= before + (seq![rest[0]] + replace_id(rest.drop_first(), w@)));
            }
            i = i + 1;
        }
    }
    proof {
        assert(cs@.skip(n as int) =~= Seq::<char>::empty());
        assert(out@ + replace_id(cs@.skip(n as int), w@) =~= out@);
    }
    out
}

/// `s` with every occurrence of `pat` replaced by `w`, scanning left to
/// right without overlaps (`str::replace`, for a non-empty `pat`).
pub open spec fn replace_all(s: Seq<char>, pat: Seq<char>, w: Seq<char>) -> Seq<char>
    decreases s.len(),
{
    if s.len() == 0 {
        s
    } else if pat.len() > 0 && pat.len() <= s.len() && s.subrange(0, pat.len() as int) == pat {
        w + replace_all(s.skip(pat.len() as int), pat, w)
    } else {
        seq![s[0]] + replace_all(s.drop_first(), pat, w)
    }
}

/// `s` with every occurrence of `pat` replaced by `w`.
pub fn replace_text(s: &str, pat: &str, w: &str) -> (r: String)
    ensures
        r@ == replace_all(s@, pat@, w@),
{
    let cs = chars_of(s);
    let ps = chars_of(pat);
    let ws = chars_of(w);
    let n = cs.len();
    let m = ps.len();
    let mut out: Vec<char> = Vec::new();
    let mut i: usize = 0;
    assert(cs@.skip(0) =~= cs@);
    while i < n
        invariant
            n == cs@.len(),
            m == ps@.len(),
            cs@ == s@,
            ps@ == pat@,
            ws@ == w@,
            i <= n,
            out@ + replace_all(cs@.skip(i as int), ps@, ws@) == replace_all(s@, pat@, w@),
        decreases n - i,
    {
        let ghost rest = cs@.skip(i as int);
        let matched = m > 0 && m <= n - i && {
            let mut k: usize = 0;
            let mut ok = true;
            while k < m
                invariant
                    m <= n - i,
                    n == cs@.len(),
                    m == ps@.len(),
                    k <= m,
                    ok == (forall|t: int| 0 <= t < k ==> cs@[i + t] == ps@[t]),
                decreases m - k,
            {
                if cs[i + k] != ps[k] {
                    ok = false;
                }
                k = k + 1;
            }
            ok
        };
        if matched {
            let ghost before = out@;
            let mut j: usize = 0;
            while j < ws.len()
                invariant
                    j <= ws@.len(),
                    out@ == before + ws@.take(j as int),
                decreases ws@.len() - j,
            {
                out.push(ws[j]);
                assert(ws@.take(j + 1) =~= ws@.take(j as int).push(ws@[j as int]));
                j = j + 1;
            }
            proof {
                assert(ws@.take(ws@.len() as int) =~= ws@);
                assert(rest.subrange(0, m as int) =~= ps@);
                assert(rest.skip(m as int) =~= cs@.skip(i + m));
                assert(out@ + replace_all(cs@.skip(i + m), ps@, ws@) =~= before + (ws@ + replace_all(rest.skip(m as int), ps@, ws@)));
            }
            i = i + m;
        } else {
            proof {
                if m > 0 && m <= n - i {
                    assert(!(rest.subrange(0, m as int) =~= ps@));
                }
                assert(rest.drop_first() =~= cs@.skip(i + 1));
                assert(out@.push(cs@[i as int]) + replace_all(cs@.skip(i + 1), ps@, ws@) =~= out@ + (seq![rest[0]] + replace_all(rest.drop_first(), ps@, ws@)));
            }
            out.push(cs[i]);
            i = i + 1;
        }
    }
    proof {
        assert(cs@.skip(n as int) =~= Seq::<char>::empty());
        assert(out@ + replace_all(cs@.skip(n as int), ps@, ws@) =~= out@);
    }
    string_of(&out)
}

/// The lowercase form of `s`, as `str::to_lowercase` computes it.
pub uninterp spec fn lowercase(s: Seq<char>) -> Seq<char>;

/// `str::to_lowercase`.
#[verifier::external_body]
pub(crate) fn to_lowercase(s: &str) -> (r: String)
    ensures
        r@ == lowercase(s@),
{
    s.to_lowercase()
}

/// Whether `char::is_alphanumeric` holds of `c` (Unicode letters and numbers).
pub uninterp spec fn alphanumeric(c: char) -> bool;

/// `char::is_alphanumeric`.
#[verifier::external_body]
pub(crate) fn is_alphanumeric(c: char) -> (r: bool)
    ensures
        r == alphanumeric(c),
{
    c.is_alphanumeric()
}

} // verus!
