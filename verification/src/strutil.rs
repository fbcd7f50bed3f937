use vstd::prelude::*;

verus! {

// Character- and string-level helpers shared by the parser, the graph
// builder and the statistics code.  Everything here works over `Seq<char>`
// models; the few places where std itself must be taken on trust are the
// small wrappers marked `external_body` below.

/// Relies on String::push: appends the given character to the end of the string.
#[verifier::external_body]
pub fn push_char(s: &mut String, c: char)
    ensures
        final(s)@ == old(s)@.push(c),
{
    s.push(c);
}

/// Relies on str's PartialEq: two string slices are equal exactly when their
/// character sequences are equal.
#[verifier::external_body]
pub fn str_eq(a: &str, b: &str) -> (r: bool)
    ensures
        r == (a@ == b@),
{
    a == b
}

/// The Unicode lowercase mapping of a character sequence; it depends on the
/// characters alone.
pub uninterp spec fn lower_of(s: Seq<char>) -> Seq<char>;

/// Relies on str::to_lowercase: returns the Unicode lowercase mapping of the
/// string, a function of its characters alone.
#[verifier::external_body]
pub fn to_lowercase(s: &str) -> (r: String)
    ensures
        r@ == lower_of(s@),
{
    s.to_lowercase()
}

/// Whether a character has the Unicode White_Space property.
pub uninterp spec fn unicode_white(c: char) -> bool;

/// Relies on char::is_whitespace: true exactly when the character has the
/// Unicode White_Space property.  The space and tab characters do.
#[verifier::external_body]
pub fn char_is_space(c: char) -> (r: bool)
    ensures
        r == unicode_white(c),
        c == ' ' ==> r,
        c == '\t' ==> r,
{
    c.is_whitespace()
}

/// The characters of a string, one vector element per `char`.
pub fn chars_of(s: &str) -> (v: Vec<char>)
    ensures
        v@ == s@,
{
    let n = s.unicode_len();
    let mut v: Vec<char> = Vec::new();
    let mut i: usize = 0;
    while i < n
        invariant
            i <= n,
            n == s@.len(),
            v@ == s@.subrange(0, i as int),
        decreases n - i,
    {
        let c = s.get_char(i);
        v.push(c);
        i = i + 1;
        proof {
            assert(v@ =~= s@.subrange(0, i as int));
        }
    }
    proof {
        assert(s@.subrange(0, n as int) =~= s@);
    }
    v
}

/// A string holding exactly the characters `v[from..to]`.
pub fn string_range(v: &Vec<char>, from: usize, to: usize) -> (s: String)
    requires
        from <= to <= v@.len(),
    ensures
        s@ == v@.subrange(from as int, to as int),
{
    let mut s = String::new();
    let mut i: usize = from;
    while i < to
        invariant
            from <= i <= to <= v@.len(),
            s@ == v@.subrange(from as int, i as int),
        decreases to - i,
    {
        push_char(&mut s, v[i]);
        i = i + 1;
        proof {
            assert(s@ =~= v@.subrange(from as int, i as int));
        }
    }
    s
}

/// A string holding exactly the characters of `v`.
pub fn string_from_chars(v: &Vec<char>) -> (s: String)
    ensures
        s@ == v@,
{
    let n = v.len();
    let s = string_range(v, 0, n);
    proof {
        assert(v@.subrange(0, n as int) =~= v@);
    }
    s
}

/// Whether `needle` occurs at position `k` of `hay`.
pub open spec fn is_sub_at(hay: Seq<char>, needle: Seq<char>, k: int) -> bool {
    &&& 0 <= k
    &&& k + needle.len() <= hay.len()
    &&& hay.subrange(k, k + needle.len() as int) == needle
}

/// Whether `needle` occurs anywhere in `hay`.
pub open spec fn has_sub(hay: Seq<char>, needle: Seq<char>) -> bool {
    exists|k: int| is_sub_at(hay, needle, k)
}

/// Whether the characters `hay[k..k+needle.len()]` equal `needle`.
fn sub_at(hay: &Vec<char>, needle: &Vec<char>, k: usize) -> (r: bool)
    requires
        k + needle@.len() <= hay@.len(),
    ensures
        r == is_sub_at(hay@, needle@, k as int),
{
    let n = needle.len();
    let hl = hay.len();
    let mut j: usize = 0;
    while j < n
        invariant
            j <= n,
            n == needle@.len(),
            hl == hay@.len(),
            k + n <= hl,
            forall|t: int| 0 <= t < j ==> hay@[k + t] == needle@[t],
        decreases n - j,
    {
        if hay[k + j] != needle[j] {
            proof {
                assert(hay@.subrange(k as int, k + n as int)[j as int] != needle@[j as int]);
            }
            return false;
        }
        j = j + 1;
    }
    proof {
        assert(hay@.subrange(k as int, k + n as int) =~= needle@);
    }
    true
}

/// Substring search: whether `needle` occurs anywhere in `hay`.
pub fn contains_chars(hay: &Vec<char>, needle: &Vec<char>) -> (r: bool)
    ensures
        r == has_sub(hay@, needle@),
{
    let hn = hay.len();
    let nn = needle.len();
    if nn > hn {
        proof {
            assert(forall|k: int| !is_sub_at(hay@, needle@, k));
        }
        return false;
    }
    let mut k: usize = 0;
    loop
        invariant
            nn <= hn,
            hn == hay@.len(),
            nn == needle@.len(),
            k <= hn - nn,
            forall|t: int| 0 <= t < k ==> !is_sub_at(hay@, needle@, t),
        decreases hn - nn - k,
    {
        if sub_at(hay, needle, k) {
            return true;
        }
        if k == hn - nn {
            proof {
                assert(forall|t: int| !is_sub_at(hay@, needle@, t));
            }
            return false;
        }
        k = k + 1;
    }
}

/// Substring search on a string against a literal needle.
pub fn contains_str(hay: &str, needle: &str) -> (r: bool)
    ensures
        r == has_sub(hay@, needle@),
{
    let h = chars_of(hay);
    let n = chars_of(needle);
    contains_chars(&h, &n)
}

/// The first index at or after `from` where `c` occurs, or `s.len()` if it
/// does not occur there.
pub open spec fn find_ch(s: Seq<char>, c: char, from: int) -> int
    decreases s.len() - from,
{
    if from < 0 || from >= s.len() {
        s.len() as int
    } else if s[from] == c {
        from
    } else {
        find_ch(s, c, from + 1)
    }
}

pub proof fn lemma_find_ch(s: Seq<char>, c: char, from: int, i: int)
    requires
        0 <= from <= i <= s.len(),
        forall|j: int| from <= j < i ==> s[j] != c,
        i == s.len() || s[i] == c,
    ensures
        find_ch(s, c, from) == i,
    decreases i - from,
{
    if from < i {
        lemma_find_ch(s, c, from + 1, i);
    }
}

/// The last index where `c` occurs in `s`, or -1 if it does not occur.
pub open spec fn rfind_ch(s: Seq<char>, c: char) -> int
    decreases s.len(),
{
    if s.len() == 0 {
        -1
    } else if s[s.len() - 1] == c {
        s.len() - 1
    } else {
        rfind_ch(s.drop_last(), c)
    }
}

pub proof fn lemma_rfind_ch(s: Seq<char>, c: char, i: int)
    requires
        -1 <= i < s.len(),
        forall|j: int| i < j < s.len() ==> s[j] != c,
        i == -1 || s[i] == c,
    ensures
        rfind_ch(s, c) == i,
    decreases s.len(),
{
    if s.len() > 0 {
        if i == s.len() - 1 {
        } else {
            assert(s.drop_last() =~= s.subrange(0, s.len() - 1));
            lemma_rfind_ch(s.drop_last(), c, i);
        }
    }
}

/// The last index where `c` occurs in `s`, encoded as `None` when absent.
pub fn rfind_char(v: &Vec<char>, c: char) -> (r: Option<usize>)
    ensures
        match r {
            Some(i) => rfind_ch(v@, c) == i as int && i < v@.len(),
            None => rfind_ch(v@, c) == -1,
        },
{
    let n = v.len();
    let mut i: usize = n;
    while i > 0
        invariant
            i <= n,
            n == v@.len(),
            forall|j: int| i <= j < n ==> v@[j] != c,
        decreases i,
    {
        i = i - 1;
        if v[i] == c {
            proof {
                lemma_rfind_ch(v@, c, i as int);
            }
            return Some(i);
        }
    }
    proof {
        lemma_rfind_ch(v@, c, -1);
    }
    None
}

/// The prefix of `s` that precedes the first occurrence of `c` (all of `s`
/// when `c` does not occur).
pub open spec fn take_until(s: Seq<char>, c: char) -> Seq<char> {
    s.subrange(0, find_ch(s, c, 0))
}

/// The characters of `v` preceding the first occurrence of `c`.
pub fn take_until_char(v: &Vec<char>, c: char) -> (r: Vec<char>)
    ensures
        r@ == take_until(v@, c),
{
    let n = v.len();
    let mut i: usize = 0;
    while i < n
        invariant
            i <= n,
            n == v@.len(),
            forall|j: int| 0 <= j < i ==> v@[j] != c,
        decreases n - i,
    {
        if v[i] == c {
            proof {
                lemma_find_ch(v@, c, 0, i as int);
            }
            let mut r: Vec<char> = Vec::new();
            let mut t: usize = 0;
            while t < i
                invariant
                    t <= i <= v@.len(),
                    r@ == v@.subrange(0, t as int),
                decreases i - t,
            {
                r.push(v[t]);
                t = t + 1;
                proof {
                    assert(r@ =~= v@.subrange(0, t as int));
                }
            }
            return r;
        }
        i = i + 1;
    }
    proof {
        lemma_find_ch(v@, c, 0, n as int);
    }
    let r = v.clone();
    proof {
        assert(r@ =~= v@.subrange(0, n as int));
    }
    r
}

/// `s` with leading white space characters removed.
pub open spec fn trim_start(s: Seq<char>) -> Seq<char>
    decreases s.len(),
{
    if s.len() > 0 && unicode_white(s[0]) {
        trim_start(s.drop_first())
    } else {
        s
    }
}

/// `s` with trailing white space characters removed.
pub open spec fn trim_end(s: Seq<char>) -> Seq<char>
    decreases s.len(),
{
    if s.len() > 0 && unicode_white(s[s.len() - 1]) {
        trim_end(s.drop_last())
    } else {
        s
    }
}

/// `s` with leading and trailing white space removed.
pub open spec fn spec_trim(s: Seq<char>) -> Seq<char> {
    trim_end(trim_start(s))
}

proof fn lemma_trim_start_skip(s: Seq<char>, i: int)
    requires
        0 <= i <= s.len(),
        forall|j: int| 0 <= j < i ==> unicode_white(s[j]),
        i == s.len() || !unicode_white(s[i]),
    ensures
        trim_start(s) == s.subrange(i, s.len() as int),
    decreases i,
{
    if i == 0 {
        assert(s.subrange(0, s.len() as int) =~= s);
    } else {
        let t = s.drop_first();
        assert(t =~= s.subrange(1, s.len() as int));
        lemma_trim_start_skip(t, i - 1);
        assert(t.subrange(i - 1, t.len() as int) =~= s.subrange(i, s.len() as int));
    }
}

proof fn lemma_trim_end_take(s: Seq<char>, i: int)
    requires
        0 <= i <= s.len(),
        forall|j: int| i <= j < s.len() ==> unicode_white(s[j]),
        i == 0 || !unicode_white(s[i - 1]),
    ensures
        trim_end(s) == s.subrange(0, i),
    decreases s.len(),
{
    if i == s.len() {
        assert(s.subrange(0, s.len() as int) =~= s);
    } else {
        let t = s.drop_last();
        assert(t =~= s.subrange(0, s.len() - 1));
        lemma_trim_end_take(t, i);
        assert(t.subrange(0, i) =~= s.subrange(0, i));
    }
}

/// The characters of `v` with leading and trailing white space removed.
pub fn trim_chars(v: &Vec<char>) -> (r: Vec<char>)
    ensures
        r@ == spec_trim(v@),
{
    let n = v.len();
    let mut lo: usize = 0;
    while lo < n && char_is_space(v[lo])
        invariant
            lo <= n,
            n == v@.len(),
            forall|j: int| 0 <= j < lo ==> unicode_white(v@[j]),
        decreases n - lo,
    {
        lo = lo + 1;
    }
    proof {
        lemma_trim_start_skip(v@, lo as int);
    }
    let ghost st = v@.subrange(lo as int, n as int);
    let mut hi: usize = n;
    while hi > lo && char_is_space(v[hi - 1])
        invariant
            lo <= hi <= n,
            n == v@.len(),
            trim_start(v@) == st,
            st == v@.subrange(lo as int, n as int),
            forall|j: int| hi <= j < n ==> unicode_white(v@[j]),
        decreases hi,
    {
        hi = hi - 1;
    }
    proof {
        assert(forall|j: int| hi - lo <= j < st.len() ==> unicode_white(#[trigger] st[j]));
        if hi > lo {
            assert(st[hi - lo - 1] == v@[hi - 1]);
        }
        lemma_trim_end_take(st, hi - lo);
    }
    let mut r: Vec<char> = Vec::new();
    let mut t: usize = lo;
    while t < hi
        invariant
            lo <= t <= hi <= v@.len(),
            r@ == v@.subrange(lo as int, t as int),
        decreases hi - t,
    {
        r.push(v[t]);
        t = t + 1;
        proof {
            assert(r@ =~= v@.subrange(lo as int, t as int));
        }
    }
    proof {
        assert(st.subrange(0, hi - lo) =~= v@.subrange(lo as int, hi as int));
    }
    r
}

/// The character-sequence views of a vector of strings.
pub open spec fn strings_view(s: Seq<String>) -> Seq<Seq<char>> {
    s.map_values(|x: String| x@)
}

/// The character-sequence views of a vector of character vectors.
pub open spec fn charss_view(s: Seq<Vec<char>>) -> Seq<Seq<char>> {
    s.map_values(|x: Vec<char>| x@)
}

/// The characters `v[from..to]` as a new vector.
pub fn chars_range(v: &Vec<char>, from: usize, to: usize) -> (r: Vec<char>)
    requires
        from <= to <= v@.len(),
    ensures
        r@ == v@.subrange(from as int, to as int),
{
    let mut r: Vec<char> = Vec::new();
    let mut t: usize = from;
    while t < to
        invariant
            from <= t <= to <= v@.len(),
            r@ == v@.subrange(from as int, t as int),
        decreases to - t,
    {
        r.push(v[t]);
        t = t + 1;
        proof {
            assert(r@ =~= v@.subrange(from as int, t as int));
        }
    }
    r
}

/// The lines of a text, split at newline characters, a carriage return
/// before a newline stripped, the final line ending optional.
pub open spec fn spec_lines(s: Seq<char>) -> Seq<Seq<char>>
    decreases s.len(),
{
    if s.len() == 0 {
        Seq::empty()
    } else {
        let i = find_ch(s, '\n', 0);
        let raw = s.subrange(0, i);
        let line = if i < s.len() && raw.len() > 0 && raw[raw.len() - 1] == '\r' {
            raw.drop_last()
        } else {
            raw
        };
        if 0 <= i < s.len() {
            seq![line] + spec_lines(s.subrange(i + 1, s.len() as int))
        } else {
            seq![line]
        }
    }
}

/// The lines of a text, 0-indexed in the result, each line a `String`.
pub fn split_lines(content: &str) -> (r: Vec<String>)
    ensures
        strings_view(r@) == spec_lines(content@),
{
    let v = chars_of(content);
    let n = v.len();
    let ghost full = content@;
    let mut lines: Vec<String> = Vec::new();
    let mut start: usize = 0;
    let mut i: usize = 0;
    proof {
        assert(full.subrange(0, n as int) =~= full);
        assert(strings_view(lines@) =~= Seq::<Seq<char>>::empty());
    }
    while i < n
        invariant
            start <= i <= n,
            n == v@.len(),
            v@ == full,
            forall|j: int| start <= j < i ==> full[j] != '\n',
            spec_lines(full) == strings_view(lines@) + spec_lines(
                full.subrange(start as int, n as int),
            ),
        decreases n - i,
    {
        if v[i] == '\n' {
            let end = if i > start && v[i - 1] == '\r' {
                i - 1
            } else {
                i
            };
            let line = string_range(&v, start, end);
            proof {
                let rem = full.subrange(start as int, n as int);
                let k = i - start;
                assert(forall|j: int| 0 <= j < k ==> rem[j] != '\n');
                lemma_find_ch(rem, '\n', 0, k as int);
                let raw = rem.subrange(0, k as int);
                assert(raw =~= full.subrange(start as int, i as int));
                assert(line@ =~= (if k < rem.len() && raw.len() > 0 && raw[raw.len() - 1] == '\r' {
                    raw.drop_last()
                } else {
                    raw
                }));
                assert(rem.subrange(k + 1, rem.len() as int) =~= full.subrange(
                    i + 1,
                    n as int,
                ));
                assert(spec_lines(rem) == seq![line@] + spec_lines(
                    full.subrange(i + 1, n as int),
                ));
                assert(strings_view(lines@.push(line)) =~= strings_view(lines@).push(line@));
                assert(strings_view(lines@).push(line@) + spec_lines(full.subrange(i + 1, n as int))
                    =~= strings_view(lines@) + spec_lines(rem));
            }
            lines.push(line);
            start = i + 1;
        }
        i = i + 1;
    }
    if start < n {
        let line = string_range(&v, start, n);
        proof {
            let rem = full.subrange(start as int, n as int);
            assert(forall|j: int| 0 <= j < rem.len() ==> rem[j] != '\n');
            lemma_find_ch(rem, '\n', 0, rem.len() as int);
            assert(rem.subrange(0, rem.len() as int) =~= rem);
            assert(spec_lines(rem) == seq![rem]);
            assert(line@ =~= rem);
            assert(strings_view(lines@.push(line)) =~= strings_view(lines@).push(line@));
            assert(strings_view(lines@).push(line@) =~= strings_view(lines@) + seq![rem]);
        }
        lines.push(line);
    } else {
        proof {
            assert(full.subrange(start as int, n as int).len() == 0);
            assert(spec_lines(full.subrange(start as int, n as int)) == Seq::<Seq<char>>::empty());
            assert(strings_view(lines@) + Seq::<Seq<char>>::empty() =~= strings_view(lines@));
        }
    }
    lines
}

/// The pieces of `s` split at every occurrence of `sep`; there is always at
/// least one piece, and a trailing separator yields a trailing empty piece.
pub open spec fn spec_split(s: Seq<char>, sep: char) -> Seq<Seq<char>>
    decreases s.len(),
{
    let i = find_ch(s, sep, 0);
    if 0 <= i < s.len() {
        seq![s.subrange(0, i)] + spec_split(s.subrange(i + 1, s.len() as int), sep)
    } else {
        seq![s]
    }
}

/// The pieces of `v` split at every occurrence of `sep`.
pub fn split_chars(v: &Vec<char>, sep: char) -> (r: Vec<Vec<char>>)
    ensures
        charss_view(r@) == spec_split(v@, sep),
{
    let n = v.len();
    let mut pieces: Vec<Vec<char>> = Vec::new();
    let mut start: usize = 0;
    let mut i: usize = 0;
    proof {
        assert(v@.subrange(0, n as int) =~= v@);
        assert(charss_view(pieces@) =~= Seq::<Seq<char>>::empty());
    }
    while i < n
        invariant
            start <= i <= n,
            n == v@.len(),
            forall|j: int| start <= j < i ==> v@[j] != sep,
            spec_split(v@, sep) == charss_view(pieces@) + spec_split(
                v@.subrange(start as int, n as int),
                sep,
            ),
        decreases n - i,
    {
        if v[i] == sep {
            let piece = chars_range(v, start, i);
            proof {
                let rem = v@.subrange(start as int, n as int);
                let k = i - start;
                assert(forall|j: int| 0 <= j < k ==> rem[j] != sep);
                lemma_find_ch(rem, sep, 0, k as int);
                assert(rem.subrange(0, k as int) =~= piece@);
                assert(rem.subrange(k + 1, rem.len() as int) =~= v@.subrange(i + 1, n as int));
                assert(spec_split(rem, sep) == seq![piece@] + spec_split(
                    v@.subrange(i + 1, n as int),
                    sep,
                ));
                assert(charss_view(pieces@.push(piece)) =~= charss_view(pieces@).push(piece@));
                assert(charss_view(pieces@).push(piece@) + spec_split(
                    v@.subrange(i + 1, n as int),
                    sep,
                ) =~= charss_view(pieces@) + spec_split(rem, sep));
            }
            pieces.push(piece);
            start = i + 1;
        }
        i = i + 1;
    }
    let last = chars_range(v, start, n);
    proof {
        let rem = v@.subrange(start as int, n as int);
        assert(forall|j: int| 0 <= j < rem.len() ==> rem[j] != sep);
        lemma_find_ch(rem, sep, 0, rem.len() as int);
        assert(spec_split(rem, sep) == seq![rem]);
        assert(last@ =~= rem);
        assert(charss_view(pieces@.push(last)) =~= charss_view(pieces@).push(last@));
        assert(charss_view(pieces@).push(last@) =~= charss_view(pieces@) + seq![rem]);
    }
    pieces.push(last);
    pieces
}

/// A copy of a vector of strings, character for character.
pub fn clone_strings(v: &Vec<String>) -> (r: Vec<String>)
    ensures
        strings_view(r@) == strings_view(v@),
{
    let n = v.len();
    let mut r: Vec<String> = Vec::new();
    let mut i: usize = 0;
    proof {
        assert(strings_view(r@) =~= strings_view(v@).take(0));
    }
    while i < n
        invariant
            i <= n,
            n == v@.len(),
            strings_view(r@) == strings_view(v@).take(i as int),
        decreases n - i,
    {
        let s = v[i].clone();
        proof {
            assert(strings_view(v@)[i as int] == v@[i as int]@);
            assert(strings_view(r@.push(s)) =~= strings_view(r@).push(s@));
            assert(strings_view(r@).push(s@) =~= strings_view(v@).take(i + 1));
        }
        r.push(s);
        i = i + 1;
    }
    proof {
        assert(strings_view(v@).take(n as int) =~= strings_view(v@));
    }
    r
}

/// Whether `s` ends with `t`.
pub open spec fn ends_with(s: Seq<char>, t: Seq<char>) -> bool {
    t.len() <= s.len() && s.subrange(s.len() - t.len(), s.len() as int) == t
}

/// Whether the characters of `v` end with the characters of `t`.
pub fn ends_with_chars(v: &Vec<char>, t: &Vec<char>) -> (r: bool)
    ensures
        r == ends_with(v@, t@),
{
    let n = v.len();
    let m = t.len();
    if m > n {
        return false;
    }
    let mut j: usize = 0;
    while j < m
        invariant
            j <= m <= n,
            n == v@.len(),
            m == t@.len(),
            forall|x: int| 0 <= x < j ==> v@[n - m + x] == t@[x],
        decreases m - j,
    {
        if v[n - m + j] != t[j] {
            proof {
                assert(v@.subrange(n - m, n as int)[j as int] != t@[j as int]);
            }
            return false;
        }
        j = j + 1;
    }
    proof {
        assert(v@.subrange(n - m, n as int) =~= t@);
    }
    true
}

/// Whether two character vectors hold the same characters.
pub fn chars_eq(a: &Vec<char>, b: &Vec<char>) -> (r: bool)
    ensures
        r == (a@ == b@),
{
    let n = a.len();
    if n != b.len() {
        return false;
    }
    let mut j: usize = 0;
    while j < n
        invariant
            j <= n,
            n == a@.len(),
            n == b@.len(),
            forall|x: int| 0 <= x < j ==> a@[x] == b@[x],
        decreases n - j,
    {
        if a[j] != b[j] {
            return false;
        }
        j = j + 1;
    }
    proof {
        assert(a@ =~= b@);
    }
    true
}

/// Whether `c` occurs in `s`.
pub open spec fn has_ch(s: Seq<char>, c: char) -> bool {
    exists|j: int| 0 <= j < s.len() && s[j] == c
}

/// Whether `c` occurs among the characters of `v`.
pub fn contains_char(v: &Vec<char>, c: char) -> (r: bool)
    ensures
        r == has_ch(v@, c),
{
    let n = v.len();
    let mut j: usize = 0;
    while j < n
        invariant
            j <= n,
            n == v@.len(),
            forall|x: int| 0 <= x < j ==> v@[x] != c,
        decreases n - j,
    {
        if v[j] == c {
            return true;
        }
        j = j + 1;
    }
    false
}

/// `s` with every occurrence of `c` replaced by `rep`, from index `i` on.
pub open spec fn replace_from(s: Seq<char>, c: char, rep: Seq<char>, i: int) -> Seq<char>
    decreases s.len() - i,
{
    if i < 0 || i >= s.len() {
        Seq::empty()
    } else {
        (if s[i] == c {
            rep
        } else {
            seq![s[i]]
        }) + replace_from(s, c, rep, i + 1)
    }
}

/// `s` with every occurrence of `c` replaced by `rep`.
pub open spec fn replace_all(s: Seq<char>, c: char, rep: Seq<char>) -> Seq<char> {
    replace_from(s, c, rep, 0)
}

/// The characters of `v` with every occurrence of `c` replaced by the
/// characters of `rep`.
pub fn replace_char(v: &Vec<char>, c: char, rep: &str) -> (r: String)
    ensures
        r@ == replace_all(v@, c, rep@),
{
    let n = v.len();
    let mut out: Vec<char> = Vec::new();
    let repc = chars_of(rep);
    let mut i: usize = 0;
    proof {
        assert(out@ + replace_from(v@, c, rep@, 0) =~= replace_from(v@, c, rep@, 0));
    }
    while i < n
        invariant
            i <= n,
            n == v@.len(),
            repc@ == rep@,
            replace_all(v@, c, rep@) == out@ + replace_from(v@, c, rep@, i as int),
        decreases n - i,
    {
        let ghost opre = out@;
        if v[i] == c {
            let m = repc.len();
            let mut t: usize = 0;
            while t < m
                invariant
                    t <= m,
                    m == repc@.len(),
                    out@ == opre + repc@.subrange(0, t as int),
                decreases m - t,
            {
                out.push(repc[t]);
                t = t + 1;
                proof {
                    assert(out@ =~= opre + repc@.subrange(0, t as int));
                }
            }
            proof {
                assert(repc@.subrange(0, m as int) =~= rep@);
                assert(replace_from(v@, c, rep@, i as int) == rep@ + replace_from(
                    v@,
                    c,
                    rep@,
                    i + 1,
                ));
                assert(opre + (rep@ + replace_from(v@, c, rep@, i + 1)) =~= out@ + replace_from(
                    v@,
                    c,
                    rep@,
                    i + 1,
                ));
            }
        } else {
            out.push(v[i]);
            proof {
                assert(replace_from(v@, c, rep@, i as int) == seq![v@[i as int]] + replace_from(
                    v@,
                    c,
                    rep@,
                    i + 1,
                ));
                assert(opre + (seq![v@[i as int]] + replace_from(v@, c, rep@, i + 1)) =~= out@
                    + replace_from(v@, c, rep@, i + 1));
            }
        }
        i = i + 1;
    }
    proof {
        assert(replace_from(v@, c, rep@, n as int) =~= Seq::<char>::empty());
        assert(out@ + Seq::<char>::empty() =~= out@);
    }
    string_from_chars(&out)
}

/// How many entries of `s` equal `key`.
pub open spec fn count_eq(s: Seq<Seq<char>>, key: Seq<char>) -> int
    decreases s.len(),
{
    if s.len() == 0 {
        0
    } else {
        count_eq(s.drop_last(), key) + if s.last() == key {
            1int
        } else {
            0int
        }
    }
}

pub proof fn lemma_count_eq_le(s: Seq<Seq<char>>, key: Seq<char>)
    ensures
        0 <= count_eq(s, key) <= s.len(),
    decreases s.len(),
{
    if s.len() > 0 {
        lemma_count_eq_le(s.drop_last(), key);
    }
}

pub proof fn lemma_count_eq_zero(s: Seq<Seq<char>>, key: Seq<char>)
    requires
        forall|j: int| 0 <= j < s.len() ==> s[j] != key,
    ensures
        count_eq(s, key) == 0,
    decreases s.len(),
{
    if s.len() > 0 {
        assert(forall|j: int| 0 <= j < s.drop_last().len() ==> s.drop_last()[j] == s[j]);
        lemma_count_eq_zero(s.drop_last(), key);
    }
}

pub proof fn lemma_count_eq_pos(s: Seq<Seq<char>>, key: Seq<char>)
    requires
        count_eq(s, key) >= 1,
    ensures
        exists|j: int| 0 <= j < s.len() && s[j] == key,
    decreases s.len(),
{
    if s.len() > 0 {
        if s.last() == key {
            assert(s[s.len() - 1] == key);
        } else {
            lemma_count_eq_pos(s.drop_last(), key);
            let j = choose|j: int| 0 <= j < s.drop_last().len() && s.drop_last()[j] == key;
            assert(s[j] == key);
        }
    }
}

/// The first index at or after `from` where `key` occurs, or `s.len()`.
pub open spec fn find_key(s: Seq<Seq<char>>, key: Seq<char>, from: int) -> int
    decreases s.len() - from,
{
    if from < 0 || from >= s.len() {
        s.len() as int
    } else if s[from] == key {
        from
    } else {
        find_key(s, key, from + 1)
    }
}

pub proof fn lemma_find_key(s: Seq<Seq<char>>, key: Seq<char>, from: int, i: int)
    requires
        0 <= from <= i <= s.len(),
        forall|j: int| from <= j < i ==> s[j] != key,
        i == s.len() || s[i] == key,
    ensures
        find_key(s, key, from) == i,
    decreases i - from,
{
    if from < i {
        lemma_find_key(s, key, from + 1, i);
    }
}

/// Some entry carries exactly this key.
pub open spec fn covered(entries: Seq<(Seq<char>, int)>, key: Seq<char>) -> bool {
    exists|a: int| 0 <= a < entries.len() && (#[trigger] entries[a]).0 == key
}

/// The entries are a histogram of `keys`: every key once, counted exactly,
/// ordered by first occurrence.
pub open spec fn is_histogram(entries: Seq<(Seq<char>, int)>, keys: Seq<Seq<char>>) -> bool {
    &&& forall|a: int|
        0 <= a < entries.len() ==> (#[trigger] entries[a]).1 == count_eq(keys, entries[a].0)
            && count_eq(keys, entries[a].0) >= 1
    &&& forall|a: int, b: int|
        0 <= a < b < entries.len() ==> (#[trigger] entries[a]).0 != (#[trigger] entries[b]).0
    &&& forall|k: int| 0 <= k < keys.len() ==> covered(entries, #[trigger] keys[k])
    &&& forall|a: int, b: int|
        0 <= a < b < entries.len() ==> find_key(keys, (#[trigger] entries[a]).0, 0) < find_key(
            keys,
            (#[trigger] entries[b]).0,
            0,
        )
}

/// The view of a vector of (string, count) pairs.
pub open spec fn pairs_view(s: Seq<(String, usize)>) -> Seq<(Seq<char>, int)> {
    s.map_values(|e: (String, usize)| (e.0@, e.1 as int))
}

fn find_entry(r: &Vec<(String, usize)>, key: &String) -> (o: Option<usize>)
    ensures
        match o {
            Option::Some(a) => a < r@.len() && pairs_view(r@)[a as int].0 == key@,
            Option::None => forall|t: int|
                0 <= t < r@.len() ==> (#[trigger] pairs_view(r@)[t]).0 != key@,
        },
{
    let m = r.len();
    let mut a: usize = 0;
    while a < m
        invariant
            a <= m,
            m == r@.len(),
            forall|t: int| 0 <= t < a ==> (#[trigger] pairs_view(r@)[t]).0 != key@,
        decreases m - a,
    {
        proof {
            assert(pairs_view(r@)[a as int].0 == r@[a as int].0@);
        }
        if r[a].0.eq(key) {
            return Option::Some(a);
        }
        a = a + 1;
    }
    Option::None
}

/// Counts the occurrences of each distinct string of `keys`, entries in
/// first-occurrence order.
pub fn histogram(keys: &Vec<String>) -> (r: Vec<(String, usize)>)
    ensures
        is_histogram(pairs_view(r@), strings_view(keys@)),
{
    let ghost kv = strings_view(keys@);
    let n = keys.len();
    let mut r: Vec<(String, usize)> = Vec::new();
    let mut i: usize = 0;
    while i < n
        invariant
            i <= n,
            n == keys@.len(),
            kv == strings_view(keys@),
            forall|a: int|
                0 <= a < r@.len() ==> (#[trigger] pairs_view(r@)[a]).1 == count_eq(
                    kv.take(i as int),
                    pairs_view(r@)[a].0,
                ) && count_eq(kv.take(i as int), pairs_view(r@)[a].0) >= 1,
            forall|a: int, b: int|
                0 <= a < b < r@.len() ==> (#[trigger] pairs_view(r@)[a]).0 != (#[trigger] pairs_view(
                    r@,
                )[b]).0,
            forall|k: int| 0 <= k < i ==> covered(pairs_view(r@), #[trigger] kv[k]),
            forall|a: int|
                0 <= a < r@.len() ==> find_key(kv, (#[trigger] pairs_view(r@)[a]).0, 0) < i,
            forall|a: int, b: int|
                0 <= a < b < r@.len() ==> find_key(kv, (#[trigger] pairs_view(r@)[a]).0, 0)
                    < find_key(kv, (#[trigger] pairs_view(r@)[b]).0, 0),
        decreases n - i,
    {
        let key = &keys[i];
        proof {
            assert(kv[i as int] == keys@[i as int]@);
            assert(kv.take(i + 1).drop_last() =~= kv.take(i as int));
        }
        let found = find_entry(&r, key);
        let ghost rpre = pairs_view(r@);
        if let Option::Some(a) = found {
            let count = r[a].1;
            proof {
                lemma_count_eq_le(kv.take(i as int), rpre[a as int].0);
                assert(count as int <= i);
            }
            let nk = r[a].0.clone();
            r.set(a, (nk, count + 1));
            proof {
                let rv = pairs_view(r@);
                assert(rv =~= rpre.update(a as int, (rpre[a as int].0, count + 1)));
                assert forall|t: int| 0 <= t < rv.len() implies (#[trigger] rv[t]).1 == count_eq(
                    kv.take(i + 1),
                    rv[t].0,
                ) && count_eq(kv.take(i + 1), rv[t].0) >= 1 by {
                    if t == a as int {
                        assert(kv.take(i + 1).last() == rv[t].0);
                        assert(count_eq(kv.take(i + 1), rv[t].0) == count_eq(
                            kv.take(i as int),
                            rv[t].0,
                        ) + 1);
                    } else {
                        assert(rv[t] == rpre[t]);
                        assert(rv[t].0 != rv[a as int].0);
                        assert(kv.take(i + 1).last() != rv[t].0);
                        assert(count_eq(kv.take(i + 1), rv[t].0) == count_eq(
                            kv.take(i as int),
                            rv[t].0,
                        ));
                    }
                }
                assert forall|k: int| 0 <= k < i + 1 implies covered(rv, #[trigger] kv[k]) by {
                    if k < i {
                        assert(covered(rpre, kv[k]));
                        let t = choose|t: int|
                            0 <= t < rpre.len() && (#[trigger] rpre[t]).0 == kv[k];
                        assert(rv[t].0 == rpre[t].0);
                    } else {
                        assert(rv[a as int].0 == kv[i as int]);
                    }
                }
            }
        } else {
            proof {
                assert(forall|t: int|
                    0 <= t < rpre.len() ==> (#[trigger] rpre[t]).0 != kv[i as int]);
                assert forall|j: int| 0 <= j < i implies kv[j] != kv[i as int] by {
                    let t = choose|t: int| 0 <= t < rpre.len() && (#[trigger] rpre[t]).0 == kv[j];
                    assert(rpre[t].0 != kv[i as int]);
                }
                assert(forall|j: int|
                    0 <= j < i ==> kv.take(i as int)[j] == kv[j]);
                lemma_count_eq_zero(kv.take(i as int), kv[i as int]);
                lemma_find_key(kv, kv[i as int], 0, i as int);
            }
            let nk = key.clone();
            r.push((nk, 1));
            proof {
                let rv = pairs_view(r@);
                assert(rv =~= rpre.push((kv[i as int], 1int)));
                assert forall|t: int| 0 <= t < rv.len() implies (#[trigger] rv[t]).1 == count_eq(
                    kv.take(i + 1),
                    rv[t].0,
                ) && count_eq(kv.take(i + 1), rv[t].0) >= 1 by {
                    if t < rpre.len() {
                        assert(rv[t] == rpre[t]);
                        assert(kv.take(i + 1).last() != rv[t].0);
                        assert(count_eq(kv.take(i + 1), rv[t].0) == count_eq(
                            kv.take(i as int),
                            rv[t].0,
                        ));
                    } else {
                        assert(rv[t].0 == kv[i as int]);
                        assert(kv.take(i + 1).last() == kv[i as int]);
                        assert(count_eq(kv.take(i + 1), kv[i as int]) == count_eq(
                            kv.take(i as int),
                            kv[i as int],
                        ) + 1);
                    }
                }
                assert forall|k: int| 0 <= k < i + 1 implies covered(rv, #[trigger] kv[k]) by {
                    if k < i {
                        assert(covered(rpre, kv[k]));
                        let t = choose|t: int|
                            0 <= t < rpre.len() && (#[trigger] rpre[t]).0 == kv[k];
                        assert(rv[t].0 == rpre[t].0);
                    } else {
                        assert(rv[rv.len() - 1].0 == kv[i as int]);
                    }
                }
            }
        }
        i = i + 1;
    }
    proof {
        assert(kv.take(n as int) =~= kv);
        assert(kv.len() == n as int);
        let rv = pairs_view(r@);
        assert forall|a: int| 0 <= a < rv.len() implies (#[trigger] rv[a]).1 == count_eq(
            kv,
            rv[a].0,
        ) by {
            assert(rv[a].1 == count_eq(kv.take(n as int), rv[a].0));
        }
        assert(forall|a: int, b: int|
            0 <= a < b < rv.len() ==> (#[trigger] rv[a]).0 != (#[trigger] rv[b]).0);
        assert forall|k: int| 0 <= k < kv.len() implies covered(rv, #[trigger] kv[k]) by {
            assert(0 <= k < n as int);
        }
        assert(forall|a: int, b: int|
            0 <= a < b < rv.len() ==> find_key(kv, (#[trigger] rv[a]).0, 0) < find_key(
                kv,
                (#[trigger] rv[b]).0,
                0,
            ));
        assert(is_histogram(rv, kv));
    }
    r
}

/// The decimal digit character for a value in 0..=9.
pub open spec fn digit_char(d: int) -> char {
    if d == 0 { '0' }
    else if d == 1 { '1' }
    else if d == 2 { '2' }
    else if d == 3 { '3' }
    else if d == 4 { '4' }
    else if d == 5 { '5' }
    else if d == 6 { '6' }
    else if d == 7 { '7' }
    else if d == 8 { '8' }
    else { '9' }
}

/// The decimal digit string of a non-negative number, most significant
/// digit first.
pub open spec fn dec_digits(n: int) -> Seq<char>
    decreases n,
{
    if n < 10 {
        seq![digit_char(n)]
    } else {
        dec_digits(n / 10).push(digit_char(n % 10))
    }
}

fn digit_of(d: u64) -> (c: char)
    requires
        d < 10,
    ensures
        c == digit_char(d as int),
{
    if d == 0 { '0' }
    else if d == 1 { '1' }
    else if d == 2 { '2' }
    else if d == 3 { '3' }
    else if d == 4 { '4' }
    else if d == 5 { '5' }
    else if d == 6 { '6' }
    else if d == 7 { '7' }
    else if d == 8 { '8' }
    else { '9' }
}

fn push_digits(m: u64, out: &mut Vec<char>)
    ensures
        final(out)@ == old(out)@ + dec_digits(m as int),
    decreases m,
{
    if m < 10 {
        out.push(digit_of(m));
        proof {
            assert(out@ =~= old(out)@ + seq![digit_char(m as int)]);
        }
    } else {
        let ghost mid = old(out)@ + dec_digits((m / 10) as int);
        push_digits(m / 10, out);
        out.push(digit_of(m % 10));
        proof {
            assert(dec_digits(m as int) == dec_digits((m as int) / 10).push(
                digit_char((m as int) % 10)));
            assert((m / 10) as int == (m as int) / 10);
            assert((m % 10) as int == (m as int) % 10);
            assert(out@ =~= mid.push(digit_char((m as int) % 10)));
            assert(mid.push(digit_char((m as int) % 10)) =~= old(out)@ + dec_digits(m as int));
        }
    }
}

/// The decimal rendering of a number.
pub fn u64_to_string(n: u64) -> (s: String)
    ensures
        s@ == dec_digits(n as int),
{
    let mut v: Vec<char> = Vec::new();
    push_digits(n, &mut v);
    proof {
        assert(v@ =~= dec_digits(n as int));
    }
    string_from_chars(&v)
}

/// The decimal rendering of a machine-sized number.
pub fn usize_to_string(n: usize) -> (s: String)
    ensures
        s@ == dec_digits(n as int),
{
    u64_to_string(n as u64)
}

} // verus!
