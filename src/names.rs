//! Workspace names: which are accepted, and what to suggest instead.
use vstd::prelude::*;
use vstd::string::StringSliceAdditionalSpecFns;
use crate::text::{
    chars_of, collapse_dashes, collapse_dashes_of, lemma_lex_total, lex_less, lex_lt, lower_of,
    lowercase, string_of, trim_dashes, trim_dashes_of,
};

verus! {

/// A workspace name that was refused, with the names suggested instead:
/// sorted, without repeats, never empty.
#[derive(Debug, Clone, PartialEq, Eq)]
pub struct InvalidWorkspaceName {
    pub name: String,
    /// Byte offset of the part of the name marked as invalid: its start.
    pub span_offset: usize,
    /// Byte length of the part marked as invalid: the whole name.
    pub span_len: usize,
    pub suggestions: Vec<String>,
}

/// Lowercase ASCII letters, digits, dashes and underscores.
pub open spec fn is_name_char(c: char) -> bool {
    ('a' <= c && c <= 'z') || ('0' <= c && c <= '9') || c == '-' || c == '_'
}

pub open spec fn ascii_alnum_or_dash(c: char) -> bool {
    ('a' <= c && c <= 'z') || ('A' <= c && c <= 'Z') || ('0' <= c && c <= '9') || c == '-'
}

/// Every character that is no ASCII letter, digit or dash turned into a dash.
pub open spec fn dashed(s: Seq<char>) -> Seq<char> {
    Seq::new(s.len(), |i: int| if ascii_alnum_or_dash(s[i]) { s[i] } else { '-' })
}

pub open spec fn only_name_chars(s: Seq<char>) -> bool {
    forall|i: int| 0 <= i < s.len() ==> is_name_char(#[trigger] s[i])
}

pub open spec fn dash_at_edge(s: Seq<char>) -> bool {
    s.len() > 0 && (s[0] == '-' || s.last() == '-')
}

pub open spec fn has_double_dash(s: Seq<char>) -> bool {
    exists|i: int| 0 <= i && i + 1 < s.len() && #[trigger] s[i] == '-' && s[i + 1] == '-'
}

/// Longer than a hundred bytes.
pub open spec fn too_long(byte_len: int) -> bool {
    byte_len > 100
}

/// A name with any of the four problems.
pub open spec fn name_has_issues(s: Seq<char>, byte_len: int) -> bool {
    !only_name_chars(s) || dash_at_edge(s) || has_double_dash(s) || too_long(byte_len)
}

/// The candidate suggestions, one for each problem found, in this order:
/// the name lowercased with other characters made dashes, the name without
/// dashes at its ends, the name with `--` made `-`, its first fifty characters.
pub open spec fn name_candidates(s: Seq<char>, byte_len: int) -> Seq<Seq<char>> {
    let fixed = trim_dashes(dashed(lower_of(s)));
    (if !only_name_chars(s) && fixed.len() > 0 && fixed != s {
        seq![fixed]
    } else {
        Seq::empty()
    }) + (if dash_at_edge(s) {
        seq![trim_dashes(s)]
    } else {
        Seq::empty()
    }) + (if has_double_dash(s) {
        seq![collapse_dashes(s)]
    } else {
        Seq::empty()
    }) + (if too_long(byte_len) {
        seq![first_chars(s, 50)]
    } else {
        Seq::empty()
    })
}

/// The first `k` characters, or all where there are fewer.
pub open spec fn first_chars(s: Seq<char>, k: int) -> Seq<char> {
    if s.len() <= k {
        s
    } else {
        s.take(k)
    }
}

/// A candidate worth suggesting: not empty, and not the name itself.
pub open spec fn worth_suggesting(s: Seq<char>, c: Seq<char>) -> bool {
    c.len() > 0 && c != s
}

pub open spec fn strictly_sorted(s: Seq<Seq<char>>) -> bool {
    forall|i: int| 0 <= i && i + 1 < s.len() ==> lex_lt(#[trigger] s[i], s[i + 1])
}

/// The suggestions for a refused name: the candidates worth suggesting,
/// sorted and without repeats; `my-project` where none is.
pub open spec fn suggestions_for(s: Seq<char>, byte_len: int, out: Seq<Seq<char>>) -> bool {
    let cands = name_candidates(s, byte_len);
    if exists|j: int| 0 <= j < cands.len() && worth_suggesting(s, #[trigger] cands[j]) {
        &&& strictly_sorted(out)
        &&& out.no_duplicates()
        &&& forall|x: Seq<char>|
            #[trigger] out.contains(x) <==> (exists|j: int| 0 <= j < cands.len() && #[trigger] cands[j] == x)
                && worth_suggesting(s, x)
    } else {
        out == seq!["my-project"@]
    }
}

/// The texts of some character vectors.
pub open spec fn texts_of(v: Seq<Vec<char>>) -> Seq<Seq<char>> {
    v.map_values(|c: Vec<char>| c@)
}

fn same_chars(a: &Vec<char>, b: &Vec<char>) -> (r: bool)
    ensures
        r == (a@ == b@),
{
    if a.len() != b.len() {
        return false;
    }
    let mut i: usize = 0;
    while i < a.len()
        invariant
            a.len() == b.len(),
            i <= a.len(),
            a@.subrange(0, i as int) == b@.subrange(0, i as int),
        decreases a.len() - i,
    {
        if a[i] != b[i] {
            return false;
        }
        assert(a@.subrange(0, i + 1) == a@.subrange(0, i as int).push(a@[i as int]));
        assert(b@.subrange(0, i + 1) == b@.subrange(0, i as int).push(b@[i as int]));
        i = i + 1;
    }
    assert(a@ == a@.subrange(0, i as int) && b@ == b@.subrange(0, i as int));
    true
}

/// Adds `c` to a sorted list without repeats, in its place.
fn insert_sorted(out: &mut Vec<Vec<char>>, c: Vec<char>)
    requires
        strictly_sorted(texts_of(old(out)@)),
        texts_of(old(out)@).no_duplicates(),
    ensures
        strictly_sorted(texts_of(final(out)@)),
        texts_of(final(out)@).no_duplicates(),
        forall|x: Seq<char>|
            #[trigger] texts_of(final(out)@).contains(x) <==> texts_of(old(out)@).contains(x) || x == c@,
{
    let ghost before = texts_of(out@);
    let mut k: usize = 0;
    while k < out.len()
        invariant
            k <= out.len(),
            out@ == old(out)@,
            strictly_sorted(texts_of(old(out)@)),
            texts_of(old(out)@).no_duplicates(),
            texts_of(out@) == before,
            forall|i: int| 0 <= i < k ==> before[i] != c@,
        decreases out.len() - k,
    {
        if same_chars(&out[k], &c) {
            assert(before[k as int] == c@);
            assert(before.contains(c@));
            assert(texts_of(out@) == texts_of(old(out)@));
            return;
        }
        k = k + 1;
    }
    let mut p: usize = 0;
    while p < out.len() && !lex_less(&c, &out[p])
        invariant
            p <= out.len(),
            texts_of(out@) == before,
            forall|i: int| 0 <= i < p ==> !lex_lt(c@, #[trigger] before[i]),
        decreases out.len() - p,
    {
        p = p + 1;
    }
    proof {
        if p > 0 {
            assert(before[p - 1] != c@);
            lemma_lex_total(before[p - 1], c@);
        }
    }
    out.insert(p, c);
    let ghost after = texts_of(out@);
    assert(after == before.insert(p as int, c@));
    assert forall|i: int| 0 <= i && i + 1 < after.len() implies lex_lt(#[trigger] after[i], after[i + 1]) by {
        if i + 1 < p {
            assert(after[i] == before[i] && after[i + 1] == before[i + 1]);
        } else if i + 1 == p {
            assert(after[i] == before[i]);
        } else if i == p {
            assert(after[i + 1] == before[i]);
        } else {
            assert(after[i] == before[i - 1] && after[i + 1] == before[i]);
        }
    }
    assert forall|x: Seq<char>| after.contains(x) <==> before.contains(x) || x == c@ by {
        if after.contains(x) {
            let j = choose|j: int| 0 <= j < after.len() && after[j] == x;
            if j < p {
                assert(before[j] == x);
            } else if j > p {
                assert(before[j - 1] == x);
            }
        }
        if before.contains(x) {
            let j = choose|j: int| 0 <= j < before.len() && before[j] == x;
            if j < p {
                assert(after[j] == x);
            } else {
                assert(after[j + 1] == x);
            }
        }
        if x == c@ {
            assert(after[p as int] == x);
        }
    }
    assert forall|i: int, j: int| 0 <= i < after.len() && 0 <= j < after.len() && i != j implies after[i]
        != after[j] by {
        let bi = if i < p { i } else { i - 1 };
        let bj = if j < p { j } else { j - 1 };
        if i != p && j != p {
            assert(after[i] == before[bi] && after[j] == before[bj]);
        } else if i == p {
            assert(after[j] == before[bj]);
        } else {
            assert(after[i] == before[bi]);
        }
    }
}

/// Checks a workspace name: lowercase ASCII letters, digits, dashes and
/// underscores only, no dash at either end, no `--`, at most a hundred bytes.
/// A refused name comes back with what to use instead.
pub fn validate_workspace_name(name: &str) -> (r: Result<(), InvalidWorkspaceName>)
    ensures
        name@.len() == 0 ==> (r matches Err(e) && e.name@ == name@ && e.suggestions@.map_values(
            |x: String| x@,
        ) == seq!["my-app"@]),
        name@.len() > 0 ==> (r is Ok <==> !name_has_issues(name@, name.len() as int)),
        r matches Err(e) ==> e.span_offset == 0 && e.span_len == name.len(),
        name@.len() > 0 ==> (r matches Err(e) ==> e.name@ == name@ && suggestions_for(
            name@,
            name.len() as int,
            e.suggestions@.map_values(|x: String| x@),
        )),
{
    let s = chars_of(name);
    let n = s.len();
    if n == 0 {
        let mut suggestions: Vec<String> = Vec::new();
        suggestions.push(String::from_str("my-app"));
        assert(suggestions@.map_values(|x: String| x@) == seq!["my-app"@]);
        return Err(InvalidWorkspaceName { name: name.to_owned(), span_offset: 0, span_len: name.len(), suggestions });
    }
    let mut valid = true;
    let mut doubled = false;
    let mut i: usize = 0;
    while i < n
        invariant
            n == s@.len(),
            s@ == name@,
            i <= n,
            valid <==> forall|j: int| 0 <= j < i ==> is_name_char(#[trigger] s@[j]),
            doubled <==> exists|j: int| 0 <= j && j + 1 < s@.len() && j < i && #[trigger] s@[j] == '-'
                && s@[j + 1] == '-',
        decreases n - i,
    {
        let c = s[i];
        if !(('a' <= c && c <= 'z') || ('0' <= c && c <= '9') || c == '-' || c == '_') {
            valid = false;
        }
        if i + 1 < n && c == '-' && s[i + 1] == '-' {
            doubled = true;
        }
        i = i + 1;
    }
    let edge = s[0] == '-' || s[n - 1] == '-';
    let long = name.len() > 100;
    assert(valid == only_name_chars(name@));
    assert(doubled == has_double_dash(name@));
    assert(edge == dash_at_edge(name@));
    if valid && !edge && !doubled && !long {
        return Ok(());
    }
    let mut candidates: Vec<Vec<char>> = Vec::new();
    let ghost fixed_spec = trim_dashes(dashed(lower_of(name@)));
    let ghost part1: Seq<Seq<char>> = if !only_name_chars(name@) && fixed_spec.len() > 0 && fixed_spec
        != name@ {
        seq![fixed_spec]
    } else {
        Seq::empty()
    };
    let ghost byte_len = name.len() as int;
    if !valid {
        let lowered = chars_of(lowercase(name).as_str());
        let mut mapped: Vec<char> = Vec::new();
        let mut k: usize = 0;
        while k < lowered.len()
            invariant
                k <= lowered.len(),
                mapped@ == dashed(lowered@).subrange(0, k as int),
            decreases lowered.len() - k,
        {
            let c = lowered[k];
            if ('a' <= c && c <= 'z') || ('A' <= c && c <= 'Z') || ('0' <= c && c <= '9') || c == '-' {
                mapped.push(c);
            } else {
                mapped.push('-');
            }
            assert(dashed(lowered@).subrange(0, k + 1) == dashed(lowered@).subrange(0, k as int).push(
                dashed(lowered@)[k as int],
            ));
            k = k + 1;
        }
        assert(mapped@ == dashed(lowered@));
        let fixed = trim_dashes_of(&mapped);
        assert(fixed@ == fixed_spec);
        if fixed.len() > 0 && !same_chars(&fixed, &s) {
            candidates.push(fixed);
        }
    }
    assert(texts_of(candidates@) == part1);
    if edge {
        candidates.push(trim_dashes_of(&s));
    }
    let ghost c2 = texts_of(candidates@);
    if doubled {
        candidates.push(collapse_dashes_of(&s));
    }
    let ghost c3 = texts_of(candidates@);
    if long {
        let mut head: Vec<char> = Vec::new();
        let mut k: usize = 0;
        while k < n && k < 50
            invariant
                k <= n,
                k <= 50,
                n == s@.len(),
                head@ == s@.subrange(0, k as int),
            decreases n - k,
        {
            head.push(s[k]);
            assert(s@.subrange(0, k + 1) == s@.subrange(0, k as int).push(s@[k as int]));
            k = k + 1;
        }
        proof {
            if n <= 50 {
                assert(s@.subrange(0, n as int) == s@);
            }
        }
        assert(head@ == first_chars(s@, 50));
        candidates.push(head);
        assert(texts_of(candidates@) == c3.push(head@));
    }
    let ghost cands = texts_of(candidates@);
    assert(cands == name_candidates(name@, byte_len));
    assert(texts_of(candidates@).subrange(0, cands.len() as int) == cands);
    let mut sorted: Vec<Vec<char>> = Vec::new();
    let mut rest = candidates;
    let mut j: usize = 0;
    assert(cands.len() == rest.len());
    while rest.len() > 0
        invariant
            cands.len() <= usize::MAX,
            j + rest@.len() == cands.len(),
            texts_of(rest@) == cands.subrange(j as int, cands.len() as int),
            s@ == name@,
            strictly_sorted(texts_of(sorted@)),
            texts_of(sorted@).no_duplicates(),
            forall|x: Seq<char>|
                #[trigger] texts_of(sorted@).contains(x) <==> (exists|m: int|
                    0 <= m < j && #[trigger] cands[m] == x) && worth_suggesting(name@, x),
        decreases rest.len(),
    {
        let ghost old_rest = rest@;
        let c = rest.remove(0);
        assert(texts_of(old_rest)[0] == old_rest[0]@);
        assert(cands.subrange(j as int, cands.len() as int)[0] == cands[j as int]);
        assert(c@ == cands[j as int]);
        assert(texts_of(rest@) =~= texts_of(old_rest).skip(1));
        assert(texts_of(rest@) =~= cands.subrange(j + 1, cands.len() as int));
        if c.len() > 0 && !same_chars(&c, &s) {
            insert_sorted(&mut sorted, c);
            assert forall|x: Seq<char>|
                #[trigger] texts_of(sorted@).contains(x) <==> (exists|m: int|
                    0 <= m < j + 1 && #[trigger] cands[m] == x) && worth_suggesting(name@, x) by {
                if x == cands[j as int] {
                    assert(cands[j as int] == x);
                }
                if (exists|m: int| 0 <= m < j + 1 && #[trigger] cands[m] == x) {
                    let m = choose|m: int| 0 <= m < j + 1 && #[trigger] cands[m] == x;
                    if m < j {
                        assert(exists|m: int| 0 <= m < j && #[trigger] cands[m] == x);
                    }
                }
            }
        } else {
            assert forall|x: Seq<char>|
                #[trigger] texts_of(sorted@).contains(x) <==> (exists|m: int|
                    0 <= m < j + 1 && #[trigger] cands[m] == x) && worth_suggesting(name@, x) by {
                if (exists|m: int| 0 <= m < j + 1 && #[trigger] cands[m] == x) && worth_suggesting(name@, x) {
                    let m = choose|m: int| 0 <= m < j + 1 && #[trigger] cands[m] == x;
                    assert(m != j);
                    assert(exists|m: int| 0 <= m < j && #[trigger] cands[m] == x);
                }
            }
        }
        j = j + 1;
    }
    let mut suggestions: Vec<String> = Vec::new();
    if sorted.len() == 0 {
        assert(!exists|m: int| 0 <= m < cands.len() && worth_suggesting(name@, #[trigger] cands[m])) by {
            if exists|m: int| 0 <= m < cands.len() && worth_suggesting(name@, #[trigger] cands[m]) {
                let m = choose|m: int| 0 <= m < cands.len() && worth_suggesting(name@, #[trigger] cands[m]);
                assert(!texts_of(sorted@).contains(cands[m]));
            }
        }
        suggestions.push(String::from_str("my-project"));
        assert(suggestions@.map_values(|x: String| x@) == seq!["my-project"@]);
    } else {
        let ghost sv = texts_of(sorted@);
        let mut k: usize = 0;
        while k < sorted.len()
            invariant
                k <= sorted.len(),
                sv == texts_of(sorted@),
                suggestions@.map_values(|x: String| x@) == sv.subrange(0, k as int),
            decreases sorted.len() - k,
        {
            let t = string_of(&sorted[k]);
            suggestions.push(t);
            assert(suggestions@.map_values(|x: String| x@) == sv.subrange(0, k as int).push(sv[k as int]));
            assert(sv.subrange(0, k + 1) == sv.subrange(0, k as int).push(sv[k as int]));
            k = k + 1;
        }
        assert(sv.subrange(0, sv.len() as int) == sv);
        assert(sv.contains(sv[0]));
    }
    Err(InvalidWorkspaceName { name: name.to_owned(), span_offset: 0, span_len: name.len(), suggestions })
}

} // verus!
