use vstd::prelude::*;

verus! {

broadcast use vstd::string::group_string_axioms;

/// The characters of `s`, in order.
pub fn chars_of(s: &str) -> (out: Vec<char>)
    ensures
        out@ == s@,
{
    let mut out: Vec<char> = Vec::new();
    for c in it: s.chars()
        invariant
            out@ == it.seq().take(it.index() as int),
            it.seq() == s@,
    {
        out.push(c);
    }
    out
}

/// Appends one character to a `String` (`String::push`).
#[verifier::external_body]
fn push_char(s: &mut String, c: char)
    ensures
        final(s)@ == old(s)@.push(c),
{
    s.push(c);
}

/// A `String` holding exactly the characters of `v`.
pub fn string_from(v: &[char]) -> (out: String)
    ensures
        out@ == v@,
{
    let mut out = String::new();
    let mut i: usize = 0;
    while i < v.len()
        invariant
            i <= v@.len(),
            out@ == v@.take(i as int),
        decreases v@.len() - i,
    {
        push_char(&mut out, v[i]);
        i = i + 1;
        assert(v@.take(i as int) =~= v@.take(i - 1 as int).push(v@[i - 1]));
    }
    assert(v@.take(i as int) =~= v@);
    out
}

/// An owned copy of `s`.
pub fn owned(s: &str) -> (out: String)
    ensures
        out@ == s@,
{
    string_from(&chars_of(s))
}

/// `a` followed by `b`.
pub fn joined(a: &str, b: &str) -> (out: String)
    ensures
        out@ == a@ + b@,
{
    let mut v = chars_of(a);
    extend(&mut v, &chars_of(b));
    string_from(&v)
}

/// `a`, `b` and `c` one after the other.
pub fn joined3(a: &str, b: &str, c: &str) -> (out: String)
    ensures
        out@ == a@ + b@ + c@,
{
    let mut v = chars_of(a);
    extend(&mut v, &chars_of(b));
    extend(&mut v, &chars_of(c));
    string_from(&v)
}


/// `pat` occurs in `s` starting at index `i`.
pub open spec fn occurs_at(s: Seq<char>, pat: Seq<char>, i: int) -> bool {
    0 <= i && i + pat.len() <= s.len() && s.subrange(i, i + pat.len()) == pat
}

/// The first index `i >= from` at which `pat` occurs in `s` (what `s[from..].find(pat)`
/// gives, shifted by `from`).
pub open spec fn find_from(s: Seq<char>, pat: Seq<char>, from: int) -> Option<int>
    decreases s.len() + 1 - from,
{
    if from < 0 || from + pat.len() > s.len() {
        None
    } else if occurs_at(s, pat, from) {
        Some(from)
    } else {
        find_from(s, pat, from + 1)
    }
}

/// `s` contains `pat` somewhere.
pub open spec fn contains(s: Seq<char>, pat: Seq<char>) -> bool {
    find_from(s, pat, 0) is Some
}

pub proof fn lemma_find_from(s: Seq<char>, pat: Seq<char>, from: int)
    requires
        0 <= from,
    ensures
        find_from(s, pat, from) matches Some(i) ==> from <= i && occurs_at(s, pat, i) && i
            + pat.len() <= s.len() && forall|j: int| from <= j < i ==> !occurs_at(s, pat, j),
        find_from(s, pat, from) is None ==> forall|j: int| from <= j ==> !occurs_at(s, pat, j),
    decreases s.len() + 1 - from,
{
    if from + pat.len() > s.len() {
    } else if occurs_at(s, pat, from) {
    } else {
        lemma_find_from(s, pat, from + 1);
    }
}

/// `pat` occurs at `i` in `s`, checked by comparing characters.
pub fn matches_at(s: &[char], pat: &[char], i: usize) -> (b: bool)
    ensures
        b == occurs_at(s@, pat@, i as int),
{
    let n = s.len();
    if i > n || pat.len() > n - i {
        return false;
    }
    let mut k: usize = 0;
    while k < pat.len()
        invariant
            n == s@.len(),
            i + pat@.len() <= n,
            k <= pat@.len(),
            forall|m: int| 0 <= m < k ==> s@[i + m] == pat@[m],
        decreases pat@.len() - k,
    {
        if s[i + k] != pat[k] {
            assert(s@.subrange(i as int, i + pat@.len())[k as int] != pat@[k as int]);
            return false;
        }
        k = k + 1;
    }
    assert(s@.subrange(i as int, i + pat@.len()) =~= pat@);
    true
}

/// The first occurrence of `pat` in `s` at or after `from`.
pub fn find(s: &[char], pat: &[char], from: usize) -> (r: Option<usize>)
    ensures
        r matches Some(i) ==> find_from(s@, pat@, from as int) == Some(i as int),
        r is None ==> find_from(s@, pat@, from as int) is None,
{
    let mut i = from;
    while i <= s.len() && pat.len() <= s.len() - i
        invariant
            from <= i,
            find_from(s@, pat@, from as int) == find_from(s@, pat@, i as int),
        decreases s@.len() + 1 - i,
    {
        if matches_at(s, pat, i) {
            return Some(i);
        }
        if i == s.len() {
            assert(pat@.len() > 0) by {
                if pat@.len() == 0 {
                    assert(s@.subrange(i as int, i as int) =~= pat@);
                }
            }
            return None;
        }
        i = i + 1;
    }
    None
}

/// Whether `pat` occurs in `s`.
pub fn contains_exec(s: &[char], pat: &[char]) -> (b: bool)
    ensures
        b == contains(s@, pat@),
{
    find(s, pat, 0).is_some()
}

/// The last start index below `i` at which `pat` occurs.
pub open spec fn rfind_below(s: Seq<char>, pat: Seq<char>, i: int) -> Option<int>
    decreases i,
{
    if i <= 0 {
        None
    } else if occurs_at(s, pat, i - 1) {
        Some(i - 1)
    } else {
        rfind_below(s, pat, i - 1)
    }
}

/// The last index at which `pat` occurs in `s` (`str::rfind`).
pub open spec fn rfind(s: Seq<char>, pat: Seq<char>) -> Option<int> {
    rfind_below(s, pat, s.len() as int + 1)
}

/// The last occurrence of `pat` in `s`.
pub fn rfind_exec(s: &[char], pat: &[char]) -> (r: Option<usize>)
    ensures
        r matches Some(i) ==> rfind(s@, pat@) == Some(i as int) && i + pat@.len() <= s@.len(),
        r is None ==> rfind(s@, pat@) is None,
{
    if pat.len() == 0 {
        assert(s@.subrange(s@.len() as int, s@.len() as int) =~= pat@);
        return Some(s.len());
    }
    let mut i: usize = s.len();
    while i > 0
        invariant
            i <= s@.len() + 1,
            rfind(s@, pat@) == rfind_below(s@, pat@, i as int),
        decreases i,
    {
        if matches_at(s, pat, i - 1) {
            return Some(i - 1);
        }
        i = i - 1;
    }
    None
}


/// `s` with every non-overlapping occurrence of `pat`, scanning from `pos`, replaced by
/// `val`; the part of `s` before `pos` is left out.
pub open spec fn replace_from(s: Seq<char>, pat: Seq<char>, val: Seq<char>, pos: int) -> Seq<char>
    decreases s.len() + 1 - pos,
{
    if pat.len() == 0 || pos < 0 || pos > s.len() {
        Seq::empty()
    } else {
        match find_from(s, pat, pos) {
            None => s.subrange(pos, s.len() as int),
            Some(i) => if i < pos || i + pat.len() > s.len() {
                Seq::empty()
            } else {
                s.subrange(pos, i) + val + replace_from(s, pat, val, i + pat.len())
            },
        }
    }
}

/// `str::replace`: every non-overlapping occurrence of `pat`, leftmost first, replaced by
/// `val`.
pub open spec fn replace(s: Seq<char>, pat: Seq<char>, val: Seq<char>) -> Seq<char> {
    replace_from(s, pat, val, 0)
}

/// Replaces every occurrence of the non-empty pattern `pat` in `s` by `val`.
pub fn replace_exec(s: &[char], pat: &[char], val: &[char]) -> (out: Vec<char>)
    requires
        pat@.len() > 0,
    ensures
        out@ == replace(s@, pat@, val@),
{
    let mut out: Vec<char> = Vec::new();
    let mut pos: usize = 0;
    loop
        invariant
            pat@.len() > 0,
            pos <= s@.len(),
            out@ + replace_from(s@, pat@, val@, pos as int) == replace(s@, pat@, val@),
        decreases s@.len() + 1 - pos,
    {
        proof {
            lemma_find_from(s@, pat@, pos as int);
        }
        match find(s, pat, pos) {
            None => {
                let mut k = pos;
                let ghost out0 = out@;
                while k < s.len()
                    invariant
                        pos <= k <= s@.len(),
                        out@ == out0 + s@.subrange(pos as int, k as int),
                    decreases s@.len() - k,
                {
                    out.push(s[k]);
                    k = k + 1;
                    assert(s@.subrange(pos as int, k as int) =~= s@.subrange(
                        pos as int,
                        k - 1 as int,
                    ).push(s@[k - 1]));
                }
                return out;
            },
            Some(i) => {
                assert(occurs_at(s@, pat@, i as int));
                let n = s.len();
                let ghost out0 = out@;
                let mut k = pos;
                while k < i
                    invariant
                        pos <= k <= i,
                        i <= s@.len(),
                        out@ == out0 + s@.subrange(pos as int, k as int),
                    decreases i - k,
                {
                    out.push(s[k]);
                    k = k + 1;
                    assert(s@.subrange(pos as int, k as int) =~= s@.subrange(
                        pos as int,
                        k - 1 as int,
                    ).push(s@[k - 1]));
                }
                let ghost out1 = out@;
                let mut m: usize = 0;
                while m < val.len()
                    invariant
                        m <= val@.len(),
                        out@ == out1 + val@.take(m as int),
                    decreases val@.len() - m,
                {
                    out.push(val[m]);
                    m = m + 1;
                    assert(val@.take(m as int) =~= val@.take(m - 1 as int).push(val@[m - 1]));
                }
                assert(val@.take(m as int) =~= val@);
                assert(out@ + replace_from(s@, pat@, val@, (i + pat.len()) as int) =~= out0
                    + replace_from(s@, pat@, val@, pos as int));
                pos = i + pat.len();
            },
        }
    }
}

/// Appends all of `t` to `out`.
pub fn extend(out: &mut Vec<char>, t: &[char])
    ensures
        final(out)@ == old(out)@ + t@,
{
    let mut m: usize = 0;
    while m < t.len()
        invariant
            m <= t@.len(),
            out@ == old(out)@ + t@.take(m as int),
        decreases t@.len() - m,
    {
        out.push(t[m]);
        m = m + 1;
        assert(t@.take(m as int) =~= t@.take(m - 1 as int).push(t@[m - 1]));
    }
    assert(t@.take(m as int) =~= t@);
}

/// The characters `s[a..b]` as a new vector.
pub fn slice_of(s: &[char], a: usize, b: usize) -> (out: Vec<char>)
    requires
        a <= b <= s@.len(),
    ensures
        out@ == s@.subrange(a as int, b as int),
{
    let mut out: Vec<char> = Vec::new();
    let mut k = a;
    while k < b
        invariant
            a <= k <= b,
            b <= s@.len(),
            out@ == s@.subrange(a as int, k as int),
        decreases b - k,
    {
        out.push(s[k]);
        k = k + 1;
        assert(s@.subrange(a as int, k as int) =~= s@.subrange(a as int, k - 1 as int).push(
            s@[k - 1],
        ));
    }
    out
}

/// Two character sequences are equal.
pub fn eq_chars(a: &[char], b: &[char]) -> (r: bool)
    ensures
        r == (a@ == b@),
{
    if a.len() != b.len() {
        return false;
    }
    let mut k: usize = 0;
    while k < a.len()
        invariant
            a@.len() == b@.len(),
            k <= a@.len(),
            forall|m: int| 0 <= m < k ==> a@[m] == b@[m],
        decreases a@.len() - k,
    {
        if a[k] != b[k] {
            return false;
        }
        k = k + 1;
    }
    assert(a@ =~= b@);
    true
}

/// Whether a string equals a literal.
pub fn str_eq(s: &str, lit: &str) -> (b: bool)
    ensures
        b == (s@ == lit@),
{
    eq_chars(&chars_of(s), &chars_of(lit))
}

/// `s` starts with `p`.
pub open spec fn starts_with(s: Seq<char>, p: Seq<char>) -> bool {
    p.len() <= s.len() && s.subrange(0, p.len() as int) == p
}

/// Unicode's White_Space property, which `char::is_whitespace` tests.
pub open spec fn is_ws(c: char) -> bool {
    let u = c as u32;
    (0x9 <= u <= 0xd) || u == 0x20 || u == 0x85 || u == 0xa0 || u == 0x1680 || (0x2000 <= u
        <= 0x200a) || u == 0x2028 || u == 0x2029 || u == 0x202f || u == 0x205f || u == 0x3000
}

/// Whether `c` is whitespace (`char::is_whitespace`).
pub fn is_ws_exec(c: char) -> (b: bool)
    ensures
        b == is_ws(c),
{
    let u = c as u32;
    (0x9 <= u && u <= 0xd) || u == 0x20 || u == 0x85 || u == 0xa0 || u == 0x1680 || (0x2000 <= u
        && u <= 0x200a) || u == 0x2028 || u == 0x2029 || u == 0x202f || u == 0x205f || u == 0x3000
}

/// The first index at or after `i` that is not whitespace (or the length).
pub open spec fn first_non_ws(s: Seq<char>, i: int) -> int
    decreases s.len() - i,
{
    if i < 0 || i >= s.len() {
        i
    } else if is_ws(s[i]) {
        first_non_ws(s, i + 1)
    } else {
        i
    }
}

/// One past the last index below `j` that is not whitespace (or 0).
pub open spec fn end_non_ws(s: Seq<char>, j: int) -> int
    decreases j,
{
    if j <= 0 || j > s.len() {
        j
    } else if is_ws(s[j - 1]) {
        end_non_ws(s, j - 1)
    } else {
        j
    }
}

/// `str::trim`: `s` without leading and trailing whitespace.
pub open spec fn trim(s: Seq<char>) -> Seq<char> {
    let a = first_non_ws(s, 0);
    let b = end_non_ws(s, s.len() as int);
    if b <= a {
        Seq::empty()
    } else {
        s.subrange(a, b)
    }
}

/// Every character of `s` is whitespace.
pub open spec fn is_blank(s: Seq<char>) -> bool {
    forall|i: int| 0 <= i < s.len() ==> is_ws(#[trigger] s[i])
}

pub proof fn lemma_first_non_ws(s: Seq<char>, i: int)
    requires
        0 <= i <= s.len(),
    ensures
        i <= first_non_ws(s, i) <= s.len(),
        forall|k: int| i <= k < first_non_ws(s, i) ==> is_ws(#[trigger] s[k]),
        first_non_ws(s, i) < s.len() ==> !is_ws(s[first_non_ws(s, i)]),
    decreases s.len() - i,
{
    if i < s.len() && is_ws(s[i]) {
        lemma_first_non_ws(s, i + 1);
    }
}

pub proof fn lemma_end_non_ws(s: Seq<char>, j: int)
    requires
        0 <= j <= s.len(),
    ensures
        0 <= end_non_ws(s, j) <= j,
        forall|k: int| end_non_ws(s, j) <= k < j ==> is_ws(#[trigger] s[k]),
        end_non_ws(s, j) > 0 ==> !is_ws(s[end_non_ws(s, j) - 1]),
    decreases j,
{
    if j > 0 && is_ws(s[j - 1]) {
        lemma_end_non_ws(s, j - 1);
    }
}

/// Whether every character of `s` is whitespace.
pub fn is_blank_exec(s: &[char]) -> (b: bool)
    ensures
        b == is_blank(s@),
{
    let mut k: usize = 0;
    while k < s.len()
        invariant
            k <= s@.len(),
            forall|m: int| 0 <= m < k ==> is_ws(#[trigger] s@[m]),
        decreases s@.len() - k,
    {
        if !is_ws_exec(s[k]) {
            return false;
        }
        k = k + 1;
    }
    true
}

/// `s` without leading and trailing whitespace.
pub fn trim_exec(s: &[char]) -> (out: Vec<char>)
    ensures
        out@ == trim(s@),
{
    let mut a: usize = 0;
    while a < s.len() && is_ws_exec(s[a])
        invariant
            a <= s@.len(),
            first_non_ws(s@, 0) == first_non_ws(s@, a as int),
        decreases s@.len() - a,
    {
        a = a + 1;
    }
    let mut b: usize = s.len();
    while b > 0 && is_ws_exec(s[b - 1])
        invariant
            b <= s@.len(),
            end_non_ws(s@, s@.len() as int) == end_non_ws(s@, b as int),
        decreases b,
    {
        b = b - 1;
    }
    if b <= a {
        Vec::new()
    } else {
        slice_of(s, a, b)
    }
}


/// The character sequences held by a sequence of vectors.
pub open spec fn views(v: Seq<Vec<char>>) -> Seq<Seq<char>> {
    v.map_values(|x: Vec<char>| x@)
}

/// `s` up to the first `c` (`s.split(c).next()`).
pub open spec fn before_first(s: Seq<char>, c: char) -> Seq<char> {
    match find_from(s, seq![c], 0) {
        None => s,
        Some(i) => if 0 <= i <= s.len() {
            s.subrange(0, i)
        } else {
            s
        },
    }
}

/// `s` up to the first `c`.
pub fn before_first_exec(s: &[char], c: char) -> (out: Vec<char>)
    ensures
        out@ == before_first(s@, c),
{
    match find_char(s, c, 0) {
        None => {
            assert(s@.subrange(0, s@.len() as int) =~= s@);
            slice_of(s, 0, s.len())
        },
        Some(i) => slice_of(s, 0, i),
    }
}

/// The character sequences of a sequence of string slices.
pub open spec fn str_views(v: Seq<&str>) -> Seq<Seq<char>> {
    v.map_values(|x: &str| x@)
}

/// The character sequences held by a sequence of strings.
pub open spec fn string_views(v: Seq<String>) -> Seq<Seq<char>> {
    v.map_values(|x: String| x@)
}

/// The strings holding the given character vectors.
pub fn strings_of(v: &Vec<Vec<char>>) -> (out: Vec<String>)
    ensures
        string_views(out@) == views(v@),
{
    let mut out: Vec<String> = Vec::new();
    let mut k: usize = 0;
    while k < v.len()
        invariant
            k <= v@.len(),
            string_views(out@) == views(v@).take(k as int),
        decreases v@.len() - k,
    {
        let ghost before = string_views(out@);
        let x = string_from(&v[k]);
        out.push(x);
        assert(string_views(out@) =~= before.push(x@));
        assert(views(v@).take(k + 1 as int) =~= views(v@).take(k as int).push(v@[k as int]@));
        k = k + 1;
    }
    assert(views(v@).take(k as int) =~= views(v@));
    out
}

/// Whether one of the vectors holds `x`.
pub fn contains_chars(v: &Vec<Vec<char>>, x: &[char]) -> (b: bool)
    ensures
        b == views(v@).contains(x@),
{
    let mut k: usize = 0;
    while k < v.len()
        invariant
            k <= v@.len(),
            forall|m: int| 0 <= m < k ==> views(v@)[m] != x@,
        decreases v@.len() - k,
    {
        if eq_chars(&v[k], x) {
            assert(views(v@)[k as int] == x@);
            return true;
        }
        k = k + 1;
    }
    false
}

/// `str::split(c)`: the pieces of `s` between occurrences of `c`.
pub open spec fn split_char(s: Seq<char>, c: char) -> Seq<Seq<char>>
    decreases s.len(),
{
    match find_from(s, seq![c], 0) {
        None => seq![s],
        Some(i) => if i < 0 || i + 1 > s.len() {
            seq![s]
        } else {
            seq![s.subrange(0, i)] + split_char(s.subrange(i + 1, s.len() as int), c)
        },
    }
}

pub proof fn lemma_split_nonempty(s: Seq<char>, c: char)
    ensures
        split_char(s, c).len() >= 1,
{
}

/// The first index at or after `from` holding `c`.
pub fn find_char(s: &[char], c: char, from: usize) -> (r: Option<usize>)
    ensures
        r matches Some(i) ==> find_from(s@, seq![c], from as int) == Some(i as int) && from <= i
            < s@.len() && s@[i as int] == c,
        r is None ==> find_from(s@, seq![c], from as int) is None,
{
    let pat = [c];
    proof {
        assert(pat@ =~= seq![c]);
    }
    let r = find(s, &pat, from);
    proof {
        lemma_find_from(s@, seq![c], from as int);
        if let Some(i) = r {
            assert(s@.subrange(i as int, i + 1) == seq![c]);
            assert(s@.subrange(i as int, i + 1)[0] == s@[i as int]);
        }
    }
    r
}

/// The pieces of `s` between occurrences of `c`.
pub fn split_char_exec(s: &[char], c: char) -> (out: Vec<Vec<char>>)
    ensures
        views(out@) == split_char(s@, c),
    decreases s@.len(),
{
    match find_char(s, c, 0) {
        None => {
            let v = slice_of(s, 0, s.len());
            assert(s@.subrange(0, s@.len() as int) =~= s@);
            let out = vec![v];
            assert(views(out@) =~= seq![s@]);
            out
        },
        Some(i) => {
            let n = s.len();
            let first = slice_of(s, 0, i);
            let rest = slice_of(s, i + 1, n);
            let mut out = split_char_exec(&rest, c);
            out.insert(0, first);
            assert(views(out@) =~= seq![s@.subrange(0, i as int)] + split_char(
                s@.subrange(i + 1, s@.len() as int),
                c,
            ));
            out
        },
    }
}

/// The pieces joined with `sep` between neighbours (`[..].join(sep)`).
pub open spec fn join(parts: Seq<Seq<char>>, sep: Seq<char>) -> Seq<char>
    decreases parts.len(),
{
    if parts.len() == 0 {
        Seq::empty()
    } else if parts.len() == 1 {
        parts[0]
    } else {
        join(parts.drop_last(), sep) + sep + parts.last()
    }
}

/// The pieces joined with `sep` between neighbours.
pub fn join_exec(parts: &Vec<Vec<char>>, sep: &[char]) -> (out: Vec<char>)
    ensures
        out@ == join(views(parts@), sep@),
{
    let mut out: Vec<char> = Vec::new();
    let mut k: usize = 0;
    while k < parts.len()
        invariant
            k <= parts@.len(),
            out@ == join(views(parts@).take(k as int), sep@),
        decreases parts@.len() - k,
    {
        if k > 0 {
            extend(&mut out, sep);
        }
        extend(&mut out, &parts[k]);
        k = k + 1;
        assert(views(parts@).take(k as int).drop_last() =~= views(parts@).take(k - 1 as int));
    }
    assert(views(parts@).take(k as int) =~= views(parts@));
    out
}

/// A line without one trailing carriage return.
pub open spec fn strip_cr(s: Seq<char>) -> Seq<char> {
    if s.len() > 0 && s.last() == '\r' {
        s.drop_last()
    } else {
        s
    }
}

/// `str::lines`: the lines of `s`, split at `\n`, each without a `\r` that ends it before
/// the `\n`; a final line ending adds no empty line.
pub open spec fn lines(s: Seq<char>) -> Seq<Seq<char>>
    decreases s.len(),
{
    if s.len() == 0 {
        Seq::empty()
    } else {
        match find_from(s, seq!['\n'], 0) {
            None => seq![s],
            Some(i) => if i < 0 || i + 1 > s.len() {
                seq![s]
            } else {
                seq![strip_cr(s.subrange(0, i))] + lines(s.subrange(i + 1, s.len() as int))
            },
        }
    }
}

/// The lines of `s`.
pub fn lines_exec(s: &[char]) -> (out: Vec<Vec<char>>)
    ensures
        views(out@) == lines(s@),
    decreases s@.len(),
{
    if s.len() == 0 {
        let out: Vec<Vec<char>> = Vec::new();
        assert(views(out@) =~= Seq::<Seq<char>>::empty());
        return out;
    }
    match find_char(s, '\n', 0) {
        None => {
            let v = slice_of(s, 0, s.len());
            assert(s@.subrange(0, s@.len() as int) =~= s@);
            let out = vec![v];
            assert(views(out@) =~= seq![s@]);
            out
        },
        Some(i) => {
            let mut first = slice_of(s, 0, i);
            if first.len() > 0 && first[first.len() - 1] == '\r' {
                first.pop();
            }
            assert(first@ =~= strip_cr(s@.subrange(0, i as int)));
            let n = s.len();
            let rest = slice_of(s, i + 1, n);
            let mut out = lines_exec(&rest);
            out.insert(0, first);
            assert(views(out@) =~= seq![strip_cr(s@.subrange(0, i as int))] + lines(
                s@.subrange(i + 1, s@.len() as int),
            ));
            out
        },
    }
}


/// `s` with `s[a..b]` replaced by `t`.
pub fn splice(s: &[char], a: usize, b: usize, t: &[char]) -> (out: Vec<char>)
    requires
        a <= b <= s@.len(),
    ensures
        out@ == s@.subrange(0, a as int) + t@ + s@.subrange(b as int, s@.len() as int),
{
    let n = s.len();
    let mut out = slice_of(s, 0, a);
    extend(&mut out, t);
    extend(&mut out, &slice_of(s, b, n));
    out
}

} // verus!
