//! Character and string primitives shared by the normalizer and the
//! session inspector: whitespace trimming, ASCII case folding, line
//! splitting and joining, all specified over `Seq<char>` views.

use vstd::prelude::*;

verus! {

/// Whitespace, by the Unicode `White_Space` property (the set `str::trim`
/// and `char::is_whitespace` use).
pub open spec fn is_space(c: char) -> bool {
    let u = c as u32;
    u == 0x09 || u == 0x0A || u == 0x0B || u == 0x0C || u == 0x0D || u == 0x20
        || u == 0x85 || u == 0xA0 || u == 0x1680
        || (0x2000 <= u && u <= 0x200A)
        || u == 0x2028 || u == 0x2029 || u == 0x202F || u == 0x205F || u == 0x3000
}

pub fn is_space_char(c: char) -> (r: bool)
    ensures
        r == is_space(c),
{
    let u = c as u32;
    u == 0x09 || u == 0x0A || u == 0x0B || u == 0x0C || u == 0x0D || u == 0x20
        || u == 0x85 || u == 0xA0 || u == 0x1680
        || (0x2000 <= u && u <= 0x200A)
        || u == 0x2028 || u == 0x2029 || u == 0x202F || u == 0x205F || u == 0x3000
}

/// ASCII lowercase of one character; other characters are unchanged.
pub open spec fn lower_char(c: char) -> char {
    if 'A' <= c && c <= 'Z' {
        ((c as u32) + 32) as char
    } else {
        c
    }
}

/// ASCII lowercase of a character sequence; non-ASCII characters are kept
/// as they are.
pub open spec fn lower(s: Seq<char>) -> Seq<char> {
    Seq::new(s.len(), |i: int| lower_char(s[i]))
}

/// Relies on `String::push`: appends exactly one character.
#[verifier::external_body]
pub fn push_char(s: &mut String, c: char)
    ensures
        final(s)@ == old(s)@.push(c),
{
    s.push(c)
}

/// Character-wise string equality; `==` on views.
pub fn str_eq(a: &str, b: &str) -> (r: bool)
    ensures
        r == (a@ == b@),
{
    let na = a.unicode_len();
    let nb = b.unicode_len();
    if na != nb {
        proof {
            assert(a@ != b@);
        }
        return false;
    }
    let mut i: usize = 0;
    while i < na
        invariant
            na == a@.len(),
            na == b@.len(),
            i <= na,
            forall|k: int| 0 <= k < i ==> a@[k] == b@[k],
        decreases na - i,
    {
        if a.get_char(i) != b.get_char(i) {
            return false;
        }
        i += 1;
    }
    proof {
        assert(a@ =~= b@);
    }
    true
}

/// Index of the first occurrence of `c` in `s` at or after `i`, or `s.len()`.
pub open spec fn find_char(s: Seq<char>, c: char, i: int) -> int
    decreases s.len() - i,
{
    if i < 0 || i >= s.len() {
        s.len() as int
    } else if s[i] == c {
        i
    } else {
        find_char(s, c, i + 1)
    }
}

proof fn lemma_find_char(s: Seq<char>, c: char, i: int, j: int)
    requires
        0 <= i <= j <= s.len(),
        forall|k: int| i <= k < j ==> s[k] != c,
        j == s.len() || s[j] == c,
    ensures
        find_char(s, c, i) == j,
    decreases j - i,
{
    if i < j {
        lemma_find_char(s, c, i + 1, j);
    }
}

/// Finds the first occurrence of `c` at or after `from`, returning `s.len()`
/// when there is none.
pub fn find_char_from(s: &str, c: char, from: usize) -> (r: usize)
    requires
        from <= s@.len(),
    ensures
        r == find_char(s@, c, from as int),
        from <= r <= s@.len(),
        r < s@.len() ==> s@[r as int] == c,
        forall|k: int| from <= k < r ==> s@[k] != c,
{
    let n = s.unicode_len();
    let mut j: usize = from;
    while j < n
        invariant
            from <= j <= n,
            n == s@.len(),
            forall|k: int| from <= k < j ==> s@[k] != c,
        decreases n - j,
    {
        if s.get_char(j) == c {
            proof {
                lemma_find_char(s@, c, from as int, j as int);
            }
            return j;
        }
        j += 1;
    }
    proof {
        lemma_find_char(s@, c, from as int, n as int);
    }
    n
}

/// Index of the last occurrence of `c` strictly before `j`, or `-1`.
pub open spec fn rfind_char(s: Seq<char>, c: char, j: int) -> int
    decreases j,
{
    if j <= 0 {
        -1
    } else if 0 < j <= s.len() && s[j - 1] == c {
        j - 1
    } else {
        rfind_char(s, c, j - 1)
    }
}

proof fn lemma_rfind_char(s: Seq<char>, c: char, j: int, w: int)
    requires
        -1 <= w < j <= s.len(),
        forall|k: int| w < k < j ==> s[k] != c,
        w == -1 || s[w] == c,
    ensures
        rfind_char(s, c, j) == w,
    decreases j,
{
    if w < j - 1 {
        lemma_rfind_char(s, c, j - 1, w);
    }
}

/// Finds the last occurrence of `c` in `s`.
pub fn rfind_char_from(s: &str, c: char) -> (r: Option<usize>)
    ensures
        match r {
            Some(w) => rfind_char(s@, c, s@.len() as int) == w && w < s@.len(),
            None => rfind_char(s@, c, s@.len() as int) == -1,
        },
{
    let n = s.unicode_len();
    let mut j: usize = n;
    while j > 0
        invariant
            j <= n,
            n == s@.len(),
            forall|k: int| j <= k < n ==> s@[k] != c,
        decreases j,
    {
        if s.get_char(j - 1) == c {
            proof {
                lemma_rfind_char(s@, c, n as int, j - 1);
            }
            return Some(j - 1);
        }
        j -= 1;
    }
    proof {
        lemma_rfind_char(s@, c, n as int, -1);
    }
    None
}

/// Index of the first non-whitespace character at or after `i`, or `s.len()`.
pub open spec fn scan_non_space(s: Seq<char>, i: int) -> int
    decreases s.len() - i,
{
    if i < 0 || i >= s.len() {
        s.len() as int
    } else if !is_space(s[i]) {
        i
    } else {
        scan_non_space(s, i + 1)
    }
}

/// One past the last non-whitespace character strictly before `j`, or `0`.
pub open spec fn scan_non_space_back(s: Seq<char>, j: int) -> int
    decreases j,
{
    if j <= 0 {
        0
    } else if !is_space(s[j - 1]) {
        j
    } else {
        scan_non_space_back(s, j - 1)
    }
}

/// `s` with leading and trailing whitespace removed, as `str::trim` does.
pub open spec fn spec_trim(s: Seq<char>) -> Seq<char> {
    let a = scan_non_space(s, 0);
    if a == s.len() {
        Seq::empty()
    } else {
        s.subrange(a, scan_non_space_back(s, s.len() as int))
    }
}

pub proof fn lemma_scan_non_space(s: Seq<char>, i: int, j: int)
    requires
        0 <= i <= j <= s.len(),
        forall|k: int| i <= k < j ==> is_space(s[k]),
        j == s.len() || !is_space(s[j]),
    ensures
        scan_non_space(s, i) == j,
    decreases j - i,
{
    if i < j {
        lemma_scan_non_space(s, i + 1, j);
    }
}

proof fn lemma_scan_non_space_back(s: Seq<char>, j: int, b: int)
    requires
        0 <= b <= j <= s.len(),
        forall|k: int| b <= k < j ==> is_space(s[k]),
        b == 0 || !is_space(s[b - 1]),
    ensures
        scan_non_space_back(s, j) == b,
    decreases j - b,
{
    if b < j {
        lemma_scan_non_space_back(s, j - 1, b);
    }
}

/// A borrowed slice of `s` with surrounding whitespace removed.
pub fn trim_of<'a>(s: &'a str) -> (r: &'a str)
    ensures
        r@ == spec_trim(s@),
{
    let n = s.unicode_len();
    let mut a: usize = 0;
    while a < n && is_space_char(s.get_char(a))
        invariant
            a <= n,
            n == s@.len(),
            forall|k: int| 0 <= k < a ==> is_space(s@[k]),
        decreases n - a,
    {
        a += 1;
    }
    proof {
        lemma_scan_non_space(s@, 0, a as int);
    }
    if a == n {
        let r = s.substring_char(0, 0);
        proof {
            assert(r@ =~= spec_trim(s@));
        }
        return r;
    }
    let mut b: usize = n;
    while b > a && is_space_char(s.get_char(b - 1))
        invariant
            a <= b <= n,
            n == s@.len(),
            forall|k: int| b <= k < n ==> is_space(s@[k]),
        decreases b,
    {
        b -= 1;
    }
    proof {
        if b == a {
            assert(!is_space(s@[a as int]));
            assert(false);
        }
        lemma_scan_non_space_back(s@, n as int, b as int);
    }
    s.substring_char(a, b)
}

/// True when `s` is empty or all whitespace.
pub fn is_blank(s: &str) -> (r: bool)
    ensures
        r == (spec_trim(s@).len() == 0),
{
    let n = s.unicode_len();
    let mut a: usize = 0;
    while a < n && is_space_char(s.get_char(a))
        invariant
            a <= n,
            n == s@.len(),
            forall|k: int| 0 <= k < a ==> is_space(s@[k]),
        decreases n - a,
    {
        a += 1;
    }
    proof {
        lemma_scan_non_space(s@, 0, a as int);
        if a < n {
            assert(!is_space(s@[a as int]));
            lemma_scan_back_bound(s@, a as int, n as int);
            lemma_scan_back_le(s@, n as int);
            assert(spec_trim(s@).len() == scan_non_space_back(s@, n as int) - a);
        }
    }
    a == n
}

proof fn lemma_scan_back_le(s: Seq<char>, j: int)
    requires
        0 <= j <= s.len(),
    ensures
        0 <= scan_non_space_back(s, j) <= j,
    decreases j,
{
    if j > 0 && is_space(s[j - 1]) {
        lemma_scan_back_le(s, j - 1);
    }
}

/// Scanning back from `j` cannot pass a non-whitespace character at `a`.
proof fn lemma_scan_back_bound(s: Seq<char>, a: int, j: int)
    requires
        0 <= a < j <= s.len(),
        !is_space(s[a]),
    ensures
        scan_non_space_back(s, j) > a,
    decreases j,
{
    if is_space(s[j - 1]) {
        lemma_scan_back_bound(s, a, j - 1);
    }
}

pub fn to_lower_char(c: char) -> (r: char)
    ensures
        r == lower_char(c),
{
    if 'A' <= c && c <= 'Z' {
        let u = (c as u32) + 32;
        proof {
            assert(0x61 <= u && u <= 0x7A);
        }
        match c {
            'A' => 'a', 'B' => 'b', 'C' => 'c', 'D' => 'd', 'E' => 'e',
            'F' => 'f', 'G' => 'g', 'H' => 'h', 'I' => 'i', 'J' => 'j',
            'K' => 'k', 'L' => 'l', 'M' => 'm', 'N' => 'n', 'O' => 'o',
            'P' => 'p', 'Q' => 'q', 'R' => 'r', 'S' => 's', 'T' => 't',
            'U' => 'u', 'V' => 'v', 'W' => 'w', 'X' => 'x', 'Y' => 'y',
            _ => 'z',
        }
    } else {
        c
    }
}

/// ASCII-lowercases every character of `s`.
pub fn to_lower_str(s: &str) -> (r: String)
    ensures
        r@ == lower(s@),
{
    let n = s.unicode_len();
    let mut r = String::new();
    let mut i: usize = 0;
    while i < n
        invariant
            i <= n,
            n == s@.len(),
            r@ =~= lower(s@).take(i as int),
        decreases n - i,
    {
        push_char(&mut r, to_lower_char(s.get_char(i)));
        proof {
            assert(r@ =~= lower(s@).take(i + 1));
        }
        i += 1;
    }
    proof {
        assert(r@ =~= lower(s@));
    }
    r
}

/// True when `p` is a prefix of `s`.
pub fn starts_with_str(s: &str, p: &str) -> (r: bool)
    ensures
        r == (s@.len() >= p@.len() && s@.take(p@.len() as int) == p@),
{
    let ns = s.unicode_len();
    let np = p.unicode_len();
    if ns < np {
        return false;
    }
    let mut i: usize = 0;
    while i < np
        invariant
            i <= np,
            np == p@.len(),
            ns == s@.len(),
            np <= ns,
            forall|k: int| 0 <= k < i ==> s@[k] == p@[k],
        decreases np - i,
    {
        if s.get_char(i) != p.get_char(i) {
            proof {
                assert(s@.take(np as int)[i as int] != p@[i as int]);
            }
            return false;
        }
        i += 1;
    }
    proof {
        assert(s@.take(np as int) =~= p@);
    }
    true
}

/// A line ending stripped of one trailing carriage return, as `str::lines`
/// strips it.
pub open spec fn strip_cr(l: Seq<char>) -> Seq<char> {
    if l.len() > 0 && l.last() == '\r' {
        l.drop_last()
    } else {
        l
    }
}

/// The lines of `s`: maximal runs separated by `'\n'`, each stripped of one
/// trailing `'\r'`; a final newline ends the last line rather than opening
/// an empty one (the behaviour of `str::lines`).
pub open spec fn spec_lines(s: Seq<char>) -> Seq<Seq<char>>
    decreases s.len(),
    via spec_lines_decreases
{
    if s.len() == 0 {
        Seq::empty()
    } else {
        let i = find_char(s, '\n', 0);
        if i == s.len() {
            seq![strip_cr(s)]
        } else {
            seq![strip_cr(s.take(i))] + spec_lines(s.skip(i + 1))
        }
    }
}

#[via_fn]
proof fn spec_lines_decreases(s: Seq<char>) {
    lemma_find_char_le(s, '\n', 0);
}

pub proof fn lemma_find_char_le(s: Seq<char>, c: char, i: int)
    requires
        0 <= i <= s.len(),
    ensures
        i <= find_char(s, c, i) <= s.len(),
    decreases s.len() - i,
{
    if i < s.len() && s[i] != c {
        lemma_find_char_le(s, c, i + 1);
    }
}

/// One step of `spec_lines`, phrased over an absolute cut position.
proof fn lemma_lines_step(s: Seq<char>, pos: int, j: int)
    requires
        0 <= pos <= j <= s.len(),
        pos < s.len(),
        forall|k: int| pos <= k < j ==> s[k] != '\n',
        j == s.len() || s[j] == '\n',
    ensures
        j == s.len() ==> spec_lines(s.skip(pos)) == seq![strip_cr(s.subrange(pos, j))],
        j < s.len() ==> spec_lines(s.skip(pos)) == seq![strip_cr(s.subrange(pos, j))]
            + spec_lines(s.skip(j + 1)),
{
    let t = s.skip(pos);
    assert forall|k: int| 0 <= k < j - pos implies #[trigger] t[k] != '\n' by {
        assert(t[k] == s[k + pos]);
    }
    lemma_find_char(t, '\n', 0, j - pos);
    assert(t.take(j - pos) =~= s.subrange(pos, j));
    if j == s.len() {
        assert(t =~= s.subrange(pos, j));
    } else {
        assert(t.skip(j - pos + 1) =~= s.skip(j + 1));
    }
}

/// Splits `s` into its lines, as `str::lines` does.
pub fn split_lines(s: &str) -> (r: Vec<String>)
    ensures
        r.deep_view() == spec_lines(s@),
{
    let n = s.unicode_len();
    let mut r: Vec<String> = Vec::new();
    let mut pos: usize = 0;
    proof {
        assert(s@.skip(0) =~= s@);
        assert(r.deep_view() =~= Seq::<Seq<char>>::empty());
        assert(r.deep_view() + spec_lines(s@) =~= spec_lines(s@));
    }
    while pos < n
        invariant
            pos <= n,
            n == s@.len(),
            spec_lines(s@) == r.deep_view() + spec_lines(s@.skip(pos as int)),
        decreases n - pos,
    {
        let j = find_char_from(s, '\n', pos);
        let end = if j > pos && s.get_char(j - 1) == '\r' {
            j - 1
        } else {
            j
        };
        let line = s.substring_char(pos, end).to_owned();
        proof {
            assert(line@ =~= strip_cr(s@.subrange(pos as int, j as int)));
            lemma_lines_step(s@, pos as int, j as int);
        }
        let ghost prev = r.deep_view();
        r.push(line);
        proof {
            assert(r.deep_view() =~= prev.push(line@));
            if j < n {
                assert(prev.push(line@) + spec_lines(s@.skip(j + 1))
                    =~= prev + (seq![line@] + spec_lines(s@.skip(j + 1))));
            } else {
                assert(prev.push(line@) =~= prev + seq![line@]);
                assert(spec_lines(s@.skip(n as int)) =~= Seq::<Seq<char>>::empty());
                assert(prev.push(line@) + spec_lines(s@.skip(n as int)) =~= prev + seq![line@]);
            }
        }
        pos = if j < n {
            j + 1
        } else {
            n
        };
    }
    proof {
        assert(spec_lines(s@.skip(n as int)) =~= Seq::<Seq<char>>::empty());
        assert(r.deep_view() =~= r.deep_view() + spec_lines(s@.skip(n as int)));
    }
    r
}

/// The lines joined with `'\n'` between them.
pub open spec fn join_nl(parts: Seq<Seq<char>>) -> Seq<char>
    decreases parts.len(),
{
    if parts.len() == 0 {
        Seq::empty()
    } else if parts.len() == 1 {
        parts[0]
    } else {
        parts[0] + seq!['\n'] + join_nl(parts.drop_first())
    }
}

pub proof fn lemma_join_push(parts: Seq<Seq<char>>, x: Seq<char>)
    ensures
        parts.len() == 0 ==> join_nl(parts.push(x)) == x,
        parts.len() > 0 ==> join_nl(parts.push(x)) == join_nl(parts) + seq!['\n'] + x,
    decreases parts.len(),
{
    if parts.len() == 0 {
        assert(parts.push(x)[0] == x);
        assert(parts.push(x).len() == 1);
    } else if parts.len() == 1 {
        assert(parts.push(x).drop_first() =~= seq![x]);
        assert(join_nl(seq![x]) == seq![x][0]);
        assert(parts.push(x)[0] == parts[0]);
        assert(join_nl(parts) == parts[0]);
    } else {
        lemma_join_push(parts.drop_first(), x);
        assert(parts.push(x).drop_first() =~= parts.drop_first().push(x));
        assert(parts[0] + seq!['\n'] + (join_nl(parts.drop_first()) + seq!['\n'] + x)
            =~= (parts[0] + seq!['\n'] + join_nl(parts.drop_first())) + seq!['\n'] + x);
    }
}

/// Joins `parts` with a newline between consecutive entries.
pub fn join_lines(parts: &Vec<String>) -> (r: String)
    ensures
        r@ == join_nl(parts.deep_view()),
{
    let mut r = String::new();
    let mut i: usize = 0;
    proof {
        assert(parts.deep_view().take(0) =~= Seq::<Seq<char>>::empty());
    }
    while i < parts.len()
        invariant
            i <= parts.len(),
            r@ == join_nl(parts.deep_view().take(i as int)),
        decreases parts.len() - i,
    {
        if i > 0 {
            r.append("\n");
            proof {
                reveal_strlit("\n");
                assert("\n"@ =~= seq!['\n']);
            }
        }
        r.append(parts[i].as_str());
        proof {
            let dv = parts.deep_view();
            assert(dv.take(i + 1) =~= dv.take(i as int).push(dv[i as int]));
            lemma_join_push(dv.take(i as int), dv[i as int]);
            assert(dv[i as int] == parts@[i as int]@);
        }
        i += 1;
    }
    proof {
        assert(parts.deep_view().take(parts@.len() as int) =~= parts.deep_view());
    }
    r
}

} // verus!
