//! Path classification: the pure predicates that drive traversal pruning
//! and match filtering. A path is *dangerous* (sensitive) when it lies
//! under a hidden or system-like location; a match is *nested* when the
//! target name occurs more than once along its path; a path is *excluded*
//! when it contains one of the configured substrings.

use vstd::prelude::*;

use crate::text::{
    contains_chars, contains_seq, ends_with_chars, ends_with_seq, matches_at, to_chars,
};

verus! {

/// A path-separator character; both forms are recognized for portability.
pub open spec fn is_sep(c: char) -> bool {
    c == '/' || c == '\\'
}

/// A (non-empty) path segment begins at offset `i`.
pub open spec fn seg_start(s: Seq<char>, i: int) -> bool {
    0 <= i < s.len() && (i == 0 || is_sep(s[i - 1]))
}

/// The segment beginning at `i` is exactly `"."`.
pub open spec fn dot_seg_at(s: Seq<char>, i: int) -> bool {
    s[i] == '.' && (i + 1 == s.len() || is_sep(s[i + 1]))
}

/// The segment beginning at `i` is exactly `".."`.
pub open spec fn dotdot_seg_at(s: Seq<char>, i: int) -> bool {
    s[i] == '.' && i + 1 < s.len() && s[i + 1] == '.' && (i + 2 == s.len() || is_sep(s[i + 2]))
}

/// A hidden segment begins at `i`: it starts with `'.'` and is neither
/// `"."` nor `".."`.
pub open spec fn hidden_seg_at(s: Seq<char>, i: int) -> bool {
    seg_start(s, i) && s[i] == '.' && !dot_seg_at(s, i) && !dotdot_seg_at(s, i)
}

/// Some segment of the path is hidden.
pub open spec fn has_hidden_segment(s: Seq<char>) -> bool {
    exists|i: int| hidden_seg_at(s, i)
}

/// The path lies under a hidden or system-like location: a hidden
/// segment, a macOS application bundle, or a Windows per-user
/// application-data directory.
pub open spec fn spec_is_dangerous(s: Seq<char>) -> bool {
    has_hidden_segment(s) || contains_seq(s, ".app/"@) || ends_with_seq(s, ".app"@)
        || contains_seq(s, "\\AppData\\"@)
}

/// Whether the character at offset `i` starts a hidden segment.
fn hidden_at(cs: &Vec<char>, i: usize) -> (r: bool)
    requires
        i < cs@.len(),
    ensures
        r == hidden_seg_at(cs@, i as int),
{
    let n: usize = cs.len();
    let starts: bool = i == 0 || cs[i - 1] == '/' || cs[i - 1] == '\\';
    if !starts {
        return false;
    }
    if cs[i] != '.' {
        return false;
    }
    let is_dot: bool = i + 1 == n || cs[i + 1] == '/' || cs[i + 1] == '\\';
    if is_dot {
        return false;
    }
    let is_dotdot: bool = cs[i + 1] == '.' && (i + 2 == n || cs[i + 2] == '/' || cs[i + 2]
        == '\\');
    !is_dotdot
}

/// True if the path lies under a hidden or system-like location.
///
/// A segment that is exactly `"."` or `".."` does not count as hidden;
/// any other segment beginning with `'.'` does, as do macOS application
/// bundles (`.app`) and Windows `AppData` locations.
pub fn is_dangerous(path: &str) -> (r: bool)
    ensures
        r == spec_is_dangerous(path@),
{
    let cs: Vec<char> = to_chars(path);
    let n: usize = cs.len();
    let mut hidden: bool = false;
    let mut i: usize = 0;
    while i < n
        invariant
            i <= n,
            n == cs@.len(),
            cs@ == path@,
            hidden == exists|k: int| 0 <= k < i && hidden_seg_at(cs@, k),
        decreases n - i,
    {
        if hidden_at(&cs, i) {
            hidden = true;
        }
        i = i + 1;
    }
    assert(hidden == has_hidden_segment(path@)) by {
        if has_hidden_segment(path@) {
            let k = choose|k: int| hidden_seg_at(path@, k);
            assert(0 <= k < n);
        }
    }
    if hidden {
        return true;
    }
    let mac_sub: Vec<char> = to_chars(".app/");
    if contains_chars(&cs, &mac_sub) {
        return true;
    }
    let mac_end: Vec<char> = to_chars(".app");
    if ends_with_chars(&cs, &mac_end) {
        return true;
    }
    let win: Vec<char> = to_chars("\\AppData\\");
    contains_chars(&cs, &win)
}

/// How often `t` occurs in `s`, counting non-overlapping occurrences
/// from the left, as a textual scan finds them. An empty `t` occurs at
/// every boundary.
pub open spec fn count_occurrences(s: Seq<char>, t: Seq<char>) -> nat
    decreases s.len(),
{
    if t.len() == 0 {
        s.len() + 1
    } else if s.len() < t.len() {
        0
    } else if s.subrange(0, t.len() as int) == t {
        1 + count_occurrences(s.skip(t.len() as int), t)
    } else {
        count_occurrences(s.skip(1), t)
    }
}

/// A match is nested when the target name occurs more than once along
/// its path.
pub open spec fn spec_is_nested(path: Seq<char>, target: Seq<char>) -> bool {
    count_occurrences(path, target) > 1
}

/// True if `target` occurs more than once in `path`: the match lies
/// inside an already-matched ancestor.
pub fn is_nested_module(path: &str, target: &str) -> (r: bool)
    ensures
        r == spec_is_nested(path@, target@),
{
    let cs: Vec<char> = to_chars(path);
    let ts: Vec<char> = to_chars(target);
    let n: usize = cs.len();
    let m: usize = ts.len();
    if m == 0 {
        return n >= 1;
    }
    if m > n {
        return false;
    }
    let mut cnt: usize = 0;
    let mut i: usize = 0;
    proof {
        assert(cs@.skip(0) =~= cs@);
    }
    while i <= n - m
        invariant
            0 < m <= n,
            i <= n,
            cnt <= i,
            n == cs@.len(),
            m == ts@.len(),
            cs@ == path@,
            ts@ == target@,
            count_occurrences(cs@, ts@) == cnt + count_occurrences(cs@.skip(i as int), ts@),
        decreases n - i,
    {
        let ghost u = cs@.skip(i as int);
        if matches_at(&cs, &ts, i) {
            proof {
                assert(u.subrange(0, m as int) =~= cs@.subrange(i as int, i + m));
                assert(u.subrange(0, m as int) == ts@);
                assert(u.skip(m as int) =~= cs@.skip(i + m));
                assert(count_occurrences(u, ts@) == 1 + count_occurrences(
                    cs@.skip(i + m),
                    ts@,
                ));
            }
            cnt = cnt + 1;
            i = i + m;
        } else {
            proof {
                assert(u.subrange(0, m as int) =~= cs@.subrange(i as int, i + m));
                assert(u.subrange(0, m as int) != ts@);
                assert(u.skip(1) =~= cs@.skip(i + 1));
                assert(count_occurrences(u, ts@) == count_occurrences(cs@.skip(i + 1), ts@));
            }
            i = i + 1;
        }
    }
    assert(count_occurrences(cs@.skip(i as int), ts@) == 0);
    cnt > 1
}

/// The path's textual form contains one of the configured exclusion
/// substrings.
pub open spec fn spec_is_excluded(path: Seq<char>, exclusions: Seq<Seq<char>>) -> bool {
    exists|k: int| 0 <= k < exclusions.len() && contains_seq(path, exclusions[k])
}

/// True if any configured substring is literally contained in the path.
pub fn is_excluded(path: &str, exclusions: &Vec<String>) -> (r: bool)
    ensures
        r == spec_is_excluded(path@, exclusions.deep_view()),
{
    let cs: Vec<char> = to_chars(path);
    let len: usize = exclusions.len();
    let mut k: usize = 0;
    while k < len
        invariant
            k <= len,
            len == exclusions@.len(),
            cs@ == path@,
            forall|j: int| 0 <= j < k ==> !contains_seq(path@, exclusions.deep_view()[j]),
        decreases len - k,
    {
        let e: Vec<char> = to_chars(exclusions[k].as_str());
        if contains_chars(&cs, &e) {
            assert(contains_seq(path@, exclusions.deep_view()[k as int]));
            return true;
        }
        k = k + 1;
    }
    false
}

/// The traversal-prune predicate: whether discovery should descend into
/// an entry. A matching entry is entered only when it is not nested and
/// not excluded; any other entry is entered unless it is excluded or,
/// when hidden exclusion is on, sensitive.
pub open spec fn spec_should_descend(
    path: Seq<char>,
    file_name: Seq<char>,
    target: Seq<char>,
    exclude_hidden: bool,
    exclusions: Seq<Seq<char>>,
) -> bool {
    if file_name == target {
        !spec_is_nested(path, target) && !spec_is_excluded(path, exclusions)
    } else {
        (!exclude_hidden || !spec_is_dangerous(path)) && !spec_is_excluded(path, exclusions)
    }
}

/// Decides whether the walk may descend into the entry at `path` whose
/// final name is `file_name`.
pub fn should_descend(
    path: &str,
    file_name: &str,
    target: &str,
    exclude_hidden: bool,
    exclusions: &Vec<String>,
) -> (r: bool)
    ensures
        r == spec_should_descend(
            path@,
            file_name@,
            target@,
            exclude_hidden,
            exclusions.deep_view(),
        ),
{
    let excluded: bool = is_excluded(path, exclusions);
    if crate::text::str_eq(file_name, target) {
        !is_nested_module(path, target) && !excluded
    } else {
        (!exclude_hidden || !is_dangerous(path)) && !excluded
    }
}

/// The segments of `s` between commas, in order. Splitting the empty
/// sequence gives one empty segment, as a textual split does.
pub open spec fn split_csv(s: Seq<char>) -> Seq<Seq<char>>
    decreases s.len(),
{
    if s.len() == 0 {
        seq![Seq::<char>::empty()]
    } else {
        let rest = split_csv(s.drop_first());
        if s[0] == ',' {
            seq![Seq::<char>::empty()] + rest
        } else {
            seq![seq![s[0]] + rest[0]] + rest.drop_first()
        }
    }
}

/// Splitting a comma-free sequence gives that sequence alone.
proof fn lemma_split_csv_free(a: Seq<char>)
    requires
        forall|k: int| 0 <= k < a.len() ==> a[k] != ',',
    ensures
        split_csv(a) == seq![a],
    decreases a.len(),
{
    if a.len() == 0 {
        assert(split_csv(a) =~~= seq![a]);
    } else {
        lemma_split_csv_free(a.drop_first());
        assert(a[0] != ',');
        assert(seq![a[0]] + a.drop_first() =~= a);
        assert(split_csv(a) =~~= seq![a]);
    }
}

/// Splitting past a leading comma-free segment: the segment comes first,
/// then the split of what follows the comma.
proof fn lemma_split_csv_prefix(a: Seq<char>, b: Seq<char>)
    requires
        forall|k: int| 0 <= k < a.len() ==> a[k] != ',',
    ensures
        split_csv(a + seq![','] + b) == seq![a] + split_csv(b),
    decreases a.len(),
{
    let s = a + seq![','] + b;
    if a.len() == 0 {
        assert(s[0] == ',');
        assert(s.drop_first() =~= b);
        assert(split_csv(s) =~~= seq![a] + split_csv(b));
    } else {
        lemma_split_csv_prefix(a.drop_first(), b);
        assert(s[0] == a[0]);
        assert(s[0] != ',');
        assert(s.drop_first() =~= a.drop_first() + seq![','] + b);
        let rest = split_csv(s.drop_first());
        assert(rest == seq![a.drop_first()] + split_csv(b));
        assert(rest[0] == a.drop_first());
        assert(seq![s[0]] + rest[0] =~= a);
        assert(rest.drop_first() =~= split_csv(b));
        assert(split_csv(s) =~~= seq![a] + split_csv(b));
    }
}

/// Splits a comma-separated exclusion list into its substrings, without
/// trimming.
pub fn split_exclusions(s: &str) -> (r: Vec<String>)
    ensures
        r.deep_view() == split_csv(s@),
{
    let cs: Vec<char> = to_chars(s);
    let n: usize = cs.len();
    let mut parts: Vec<String> = Vec::new();
    let mut start: usize = 0;
    let mut j: usize = 0;
    proof {
        assert(parts.deep_view() =~= Seq::<Seq<char>>::empty());
        assert(s@.skip(0) =~= s@);
        assert(parts.deep_view() + split_csv(s@) =~= split_csv(s@));
    }
    while j < n
        invariant
            start <= j <= n,
            n == cs@.len(),
            n == s@.len(),
            cs@ == s@,
            forall|k: int| start <= k < j ==> cs@[k] != ',',
            split_csv(s@) == parts.deep_view() + split_csv(s@.skip(start as int)),
        decreases n - j,
    {
        if cs[j] == ',' {
            let seg: &str = s.substring_char(start, j);
            let segs: String = seg.to_owned();
            let ghost pdv = parts.deep_view();
            let ghost a = s@.subrange(start as int, j as int);
            proof {
                let tail = s@.skip(start as int);
                let b = s@.skip(j + 1);
                assert(tail =~= a + seq![','] + b);
                lemma_split_csv_prefix(a, b);
            }
            parts.push(segs);
            proof {
                assert(parts.deep_view() =~= pdv.push(segs@));
                assert(pdv.push(segs@) =~= pdv + seq![a]);
                assert(pdv + seq![a] + split_csv(s@.skip(j + 1)) =~= pdv + (seq![a] + split_csv(
                    s@.skip(j + 1),
                )));
            }
            start = j + 1;
        }
        j = j + 1;
    }
    let last: &str = s.substring_char(start, n);
    let lasts: String = last.to_owned();
    let ghost pdv = parts.deep_view();
    proof {
        let tail = s@.skip(start as int);
        assert(tail =~= s@.subrange(start as int, n as int));
        lemma_split_csv_free(tail);
    }
    parts.push(lasts);
    proof {
        let tail = s@.skip(start as int);
        assert(parts.deep_view() =~= pdv.push(lasts@));
        assert(pdv.push(lasts@) =~= pdv + seq![tail]);
        assert(pdv + split_csv(tail) =~= pdv + seq![tail]);
    }
    parts
}

/// Hidden-segment law, one direction: a path with a segment that begins
/// with `'.'` and is neither `"."` nor `".."` is sensitive.
pub proof fn lemma_hidden_segment_is_sensitive(p: Seq<char>, i: int)
    requires
        hidden_seg_at(p, i),
    ensures
        spec_is_dangerous(p),
{
}

/// Hidden-segment law, other direction: a path none of whose segments is
/// hidden — every segment that begins with `'.'` is exactly `"."` or
/// `".."` — is not sensitive, unless an application-bundle or
/// application-data pattern makes it so.
pub proof fn lemma_dot_segments_not_sensitive(p: Seq<char>)
    requires
        forall|i: int| seg_start(p, i) && p[i] == '.' ==> dot_seg_at(p, i) || dotdot_seg_at(p, i),
        !contains_seq(p, ".app/"@),
        !ends_with_seq(p, ".app"@),
        !contains_seq(p, "\\AppData\\"@),
    ensures
        !spec_is_dangerous(p),
{
    assert forall|i: int| !hidden_seg_at(p, i) by {
        if seg_start(p, i) && p[i] == '.' {
            assert(dot_seg_at(p, i) || dotdot_seg_at(p, i));
        }
    }
}

/// Nesting law: a path in which the target occurs exactly once is not
/// nested; one in which it occurs two or more times is nested.
pub proof fn lemma_nested_iff_repeated(path: Seq<char>, target: Seq<char>)
    ensures
        count_occurrences(path, target) == 1 ==> !spec_is_nested(path, target),
        count_occurrences(path, target) >= 2 ==> spec_is_nested(path, target),
{
}

} // verus!
