//! Small shared helpers: home-directory expansion for `~` paths, display
//! compaction of long text, and the search role-filter default.

use vstd::prelude::*;

use crate::text::{
    is_space, lower, push_char, spec_trim, starts_with_str, str_eq, to_lower_str, trim_of,
};

verus! {

/// `~` and `~/…` expanded against a home directory, when one is known;
/// other paths, and `~` paths without a home, are unchanged.
pub open spec fn spec_expand_home(path: Seq<char>, home: Option<Seq<char>>) -> Seq<char> {
    if path == "~"@ {
        match home {
            Some(h) => h,
            None => path,
        }
    } else if path.len() >= 2 && path.take(2) == "~/"@ {
        match home {
            Some(h) => h + seq!['/'] + path.skip(2),
            None => path,
        }
    } else {
        path
    }
}

/// Expands `~` and `~/…` against the given home directory.
pub fn expand_home(path: &str, home: Option<&str>) -> (r: String)
    ensures
        r@ == spec_expand_home(
            path@,
            match home {
                Some(h) => Some(h@),
                None => None,
            },
        ),
{
    if str_eq(path, "~") {
        return match home {
            Some(h) => h.to_owned(),
            None => path.to_owned(),
        };
    }
    if starts_with_str(path, "~/") {
        proof {
            reveal_strlit("~/");
            assert("~/"@.len() == 2);
        }
        match home {
            Some(h) => {
                let n = path.unicode_len();
                let mut s = h.to_owned();
                push_char(&mut s, '/');
                s.append(path.substring_char(2, n));
                proof {
                    assert(path@.subrange(2, n as int) =~= path@.skip(2));
                    assert(s@ =~= h@ + seq!['/'] + path@.skip(2));
                }
                return s;
            },
            None => {
                return path.to_owned();
            },
        }
    }
    path.to_owned()
}

/// Index of the first whitespace character at or after `i`, or `s.len()`.
pub open spec fn scan_space(s: Seq<char>, i: int) -> int
    decreases s.len() - i,
{
    if i < 0 || i >= s.len() {
        s.len() as int
    } else if is_space(s[i]) {
        i
    } else {
        scan_space(s, i + 1)
    }
}

proof fn lemma_scan_space(s: Seq<char>, i: int, j: int)
    requires
        0 <= i <= j <= s.len(),
        forall|k: int| i <= k < j ==> !is_space(s[k]),
        j == s.len() || is_space(s[j]),
    ensures
        scan_space(s, i) == j,
    decreases j - i,
{
    if i < j {
        lemma_scan_space(s, i + 1, j);
    }
}

proof fn lemma_scan_space_le(s: Seq<char>, i: int)
    requires
        0 <= i <= s.len(),
    ensures
        i <= scan_space(s, i) <= s.len(),
    decreases s.len() - i,
{
    if i < s.len() && !is_space(s[i]) {
        lemma_scan_space_le(s, i + 1);
    }
}

/// The whitespace-separated words of `s`, in order.
pub open spec fn spec_words(s: Seq<char>) -> Seq<Seq<char>>
    decreases s.len(),
    via spec_words_decreases
{
    if s.len() == 0 {
        Seq::empty()
    } else if is_space(s[0]) {
        spec_words(s.drop_first())
    } else {
        let j = scan_space(s, 0);
        seq![s.take(j)] + spec_words(s.skip(j))
    }
}

#[via_fn]
proof fn spec_words_decreases(s: Seq<char>) {
    if s.len() > 0 && !is_space(s[0]) {
        lemma_scan_space_le(s, 1);
        assert(scan_space(s, 0) == scan_space(s, 1));
    }
}

/// One step of `spec_words`, phrased over absolute positions: a word runs
/// from the non-space at `pos` to the next space at `j`.
proof fn lemma_words_step(s: Seq<char>, pos: int, j: int)
    requires
        0 <= pos < s.len(),
        pos < j <= s.len(),
        !is_space(s[pos]),
        forall|k: int| pos <= k < j ==> !is_space(s[k]),
        j == s.len() || is_space(s[j]),
    ensures
        spec_words(s.skip(pos)) == seq![s.subrange(pos, j)] + spec_words(s.skip(j)),
{
    let t = s.skip(pos);
    assert(!is_space(t[0]));
    assert forall|k: int| 0 <= k < j - pos implies !is_space(#[trigger] t[k]) by {
        assert(t[k] == s[k + pos]);
    }
    lemma_scan_space(t, 0, j - pos);
    assert(t.take(j - pos) =~= s.subrange(pos, j));
    assert(t.skip(j - pos) =~= s.skip(j));
}

/// Words joined by one space.
pub open spec fn join_sp(parts: Seq<Seq<char>>) -> Seq<char>
    decreases parts.len(),
{
    if parts.len() == 0 {
        Seq::empty()
    } else if parts.len() == 1 {
        parts[0]
    } else {
        parts[0] + seq![' '] + join_sp(parts.drop_first())
    }
}

proof fn lemma_join_sp_push(parts: Seq<Seq<char>>, x: Seq<char>)
    ensures
        parts.len() == 0 ==> join_sp(parts.push(x)) == x,
        parts.len() > 0 ==> join_sp(parts.push(x)) == join_sp(parts) + seq![' '] + x,
    decreases parts.len(),
{
    if parts.len() == 0 {
        assert(parts.push(x)[0] == x);
        assert(parts.push(x).len() == 1);
    } else if parts.len() == 1 {
        assert(parts.push(x).drop_first() =~= seq![x]);
        assert(join_sp(seq![x]) == seq![x][0]);
        assert(parts.push(x)[0] == parts[0]);
        assert(join_sp(parts) == parts[0]);
    } else {
        lemma_join_sp_push(parts.drop_first(), x);
        assert(parts.push(x).drop_first() =~= parts.drop_first().push(x));
        assert(parts[0] + seq![' '] + (join_sp(parts.drop_first()) + seq![' '] + x) =~= (parts[0]
            + seq![' '] + join_sp(parts.drop_first())) + seq![' '] + x);
    }
}

/// The ceiling on compacted display text, in characters.
pub const MAX_OUTPUT_LEN: usize = 160;

/// Display compaction: whitespace runs collapse to single spaces, and the
/// result is cut to the display ceiling.
pub open spec fn spec_trim_output(s: Seq<char>) -> Seq<char> {
    let joined = join_sp(spec_words(s));
    if joined.len() <= MAX_OUTPUT_LEN {
        joined
    } else {
        joined.take(MAX_OUTPUT_LEN as int)
    }
}

/// Compacts text for one display line.
pub fn trim_output(text: &str) -> (r: String)
    ensures
        r@ == spec_trim_output(text@),
{
    let n = text.unicode_len();
    let mut words: Vec<String> = Vec::new();
    let mut pos: usize = 0;
    proof {
        assert(text@.skip(0) =~= text@);
        assert(words.deep_view() =~= Seq::<Seq<char>>::empty());
    }
    while pos < n
        invariant
            pos <= n,
            n == text@.len(),
            spec_words(text@) == words.deep_view() + spec_words(text@.skip(pos as int)),
        decreases n - pos,
    {
        if crate::text::is_space_char(text.get_char(pos)) {
            proof {
                assert(text@.skip(pos as int)[0] == text@[pos as int]);
                assert(text@.skip(pos as int).drop_first() =~= text@.skip(pos + 1));
            }
            pos += 1;
        } else {
            let mut j: usize = pos;
            while j < n && !crate::text::is_space_char(text.get_char(j))
                invariant
                    pos <= j <= n,
                    n == text@.len(),
                    forall|k: int| pos <= k < j ==> !is_space(text@[k]),
                decreases n - j,
            {
                j += 1;
            }
            let word = text.substring_char(pos, j).to_owned();
            let ghost prev = words.deep_view();
            words.push(word);
            proof {
                lemma_words_step(text@, pos as int, j as int);
                assert(words.deep_view() =~= prev.push(text@.subrange(pos as int, j as int)));
                assert(prev.push(text@.subrange(pos as int, j as int)) + spec_words(
                    text@.skip(j as int),
                ) =~= prev + (seq![text@.subrange(pos as int, j as int)] + spec_words(
                    text@.skip(j as int),
                )));
            }
            pos = j;
        }
    }
    proof {
        assert(spec_words(text@.skip(n as int)) =~= Seq::<Seq<char>>::empty());
        assert(words.deep_view() + Seq::<Seq<char>>::empty() =~= words.deep_view());
    }
    let mut joined = String::new();
    let mut i: usize = 0;
    proof {
        assert(words.deep_view().take(0) =~= Seq::<Seq<char>>::empty());
    }
    while i < words.len()
        invariant
            i <= words@.len(),
            joined@ == join_sp(words.deep_view().take(i as int)),
        decreases words@.len() - i,
    {
        if i > 0 {
            joined.append(" ");
            proof {
                reveal_strlit(" ");
                assert(" "@ =~= seq![' ']);
            }
        }
        joined.append(words[i].as_str());
        proof {
            let dv = words.deep_view();
            assert(dv.take(i + 1) =~= dv.take(i as int).push(dv[i as int]));
            lemma_join_sp_push(dv.take(i as int), dv[i as int]);
            assert(dv[i as int] == words@[i as int]@);
        }
        i += 1;
    }
    proof {
        assert(words.deep_view().take(words@.len() as int) =~= words.deep_view());
    }
    let jn = joined.as_str().unicode_len();
    if jn <= MAX_OUTPUT_LEN {
        joined
    } else {
        joined.as_str().substring_char(0, MAX_OUTPUT_LEN).to_owned()
    }
}

/// The effective role filter of a search: the requested role trimmed and
/// ASCII-lowercased (matching how stored roles are normalized; non-ASCII
/// characters pass through unfolded); when assistant messages are not
/// included, an absent or blank role defaults to filtering for user
/// messages.
pub open spec fn spec_normalize_role_filter(
    role: Option<Seq<char>>,
    include_assistant: bool,
) -> Option<Seq<char>> {
    let cleaned: Option<Seq<char>> = match role {
        Some(r) => if lower(spec_trim(r)).len() == 0 {
            None
        } else {
            Some(lower(spec_trim(r)))
        },
        None => None,
    };
    if include_assistant {
        cleaned
    } else {
        match cleaned {
            Some(c) => Some(c),
            None => Some("user"@),
        }
    }
}

/// Cleans the requested role filter and applies the user-only default.
pub fn normalize_role_filter(role: Option<&str>, include_assistant: bool) -> (r: Option<String>)
    ensures
        r.deep_view() == spec_normalize_role_filter(
            match role {
                Some(x) => Some(x@),
                None => None,
            },
            include_assistant,
        ),
{
    let cleaned: Option<String> = match role {
        Some(x) => {
            let c = to_lower_str(trim_of(x));
            if c.as_str().is_empty() {
                None
            } else {
                Some(c)
            }
        },
        None => None,
    };
    if include_assistant {
        cleaned
    } else {
        match cleaned {
            Some(c) => Some(c),
            None => Some("user".to_owned()),
        }
    }
}

} // verus!

