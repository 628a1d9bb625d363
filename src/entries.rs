//! The `deps` and `inputs` lists of a manifest task, treated as sets of strings.
use vstd::prelude::*;
use crate::yaml::{as_text, string_value, yaml_str};

verus! {

/// Some item of the list is the string `t`.
pub open spec fn has_text(s: Seq<serde_yaml::Value>, t: Seq<char>) -> bool {
    exists|i: int| 0 <= i < s.len() && yaml_str(#[trigger] s[i]) == Some(t)
}

/// No string occurs twice in the list.
pub open spec fn distinct_texts(s: Seq<serde_yaml::Value>) -> bool {
    forall|i: int, j: int|
        0 <= i < j < s.len() && (#[trigger] yaml_str(s[i])) is Some ==> yaml_str(s[i])
            != #[trigger] yaml_str(s[j])
}

/// The list with each repeated string dropped after its first occurrence;
/// items that are not strings all stay, in their order.
pub open spec fn deduped(s: Seq<serde_yaml::Value>) -> Seq<serde_yaml::Value>
    decreases s.len(),
{
    if s.len() == 0 {
        s
    } else {
        let d = deduped(s.drop_last());
        match yaml_str(s.last()) {
            Some(t) => if has_text(d, t) {
                d
            } else {
                d.push(s.last())
            },
            None => d.push(s.last()),
        }
    }
}

/// The list already holds `t` once and no string twice: merging changes nothing.
pub open spec fn settled(s: Seq<serde_yaml::Value>, t: Seq<char>) -> bool {
    distinct_texts(s) && has_text(s, t)
}

/// `r` is `s` without repeated strings, with `t` appended where it was absent.
pub open spec fn merged(s: Seq<serde_yaml::Value>, t: Seq<char>, r: Seq<serde_yaml::Value>) -> bool {
    let d = deduped(s);
    if has_text(d, t) {
        r == d
    } else {
        r.len() == d.len() + 1 && r.drop_last() == d && yaml_str(r.last()) == Some(t)
    }
}

pub proof fn lemma_deduped_texts(s: Seq<serde_yaml::Value>)
    ensures
        distinct_texts(deduped(s)),
        forall|t: Seq<char>| has_text(deduped(s), t) <==> has_text(s, t),
    decreases s.len(),
{
    if s.len() > 0 {
        let p = s.drop_last();
        lemma_deduped_texts(p);
        let d = deduped(p);
        assert forall|t: Seq<char>| has_text(s, t) implies has_text(deduped(s), t) by {
            {
                let i = choose|i: int| 0 <= i < s.len() && yaml_str(#[trigger] s[i]) == Some(t);
                if i < s.len() - 1 {
                    assert(p[i] == s[i]);
                    assert(has_text(p, t));
                    let j = choose|j: int| 0 <= j < d.len() && yaml_str(#[trigger] d[j]) == Some(t);
                    assert(deduped(s)[j] == d[j]);
                } else {
                    if !has_text(d, t) {
                        assert(deduped(s)[d.len() as int] == s.last());
                    }
                }
            }
        }
        assert forall|t: Seq<char>| has_text(deduped(s), t) implies has_text(s, t) by {
            {
                let j = choose|j: int|
                    0 <= j < deduped(s).len() && yaml_str(#[trigger] deduped(s)[j]) == Some(t);
                if j < d.len() {
                    assert(deduped(s)[j] == d[j]);
                    assert(has_text(p, t));
                    let i = choose|i: int| 0 <= i < p.len() && yaml_str(#[trigger] p[i]) == Some(t);
                    assert(s[i] == p[i]);
                } else {
                    assert(s[s.len() - 1] == s.last());
                }
            }
        }
    }
}

/// Merging twice is merging once, and a merged list is settled.
pub proof fn lemma_merged_settled(s: Seq<serde_yaml::Value>, t: Seq<char>, r: Seq<serde_yaml::Value>)
    requires
        merged(s, t, r),
    ensures
        settled(r, t),
{
    lemma_deduped_texts(s);
    let d = deduped(s);
    if !has_text(d, t) {
        assert(r.drop_last() == d);
        assert forall|i: int, j: int|
            0 <= i < j < r.len() && (#[trigger] yaml_str(r[i])) is Some implies yaml_str(r[i])
                != #[trigger] yaml_str(r[j]) by {
            assert(r[i] == d[i]);
            if j < d.len() {
                assert(r[j] == d[j]);
            } else {
                assert(r[j] == r.last());
            }
        }
        assert(yaml_str(r[r.len() - 1]) == Some(t));
    }
}

/// A list that was settled is left as it is.
pub proof fn lemma_settled_deduped(s: Seq<serde_yaml::Value>)
    requires
        distinct_texts(s),
    ensures
        deduped(s) == s,
    decreases s.len(),
{
    if s.len() > 0 {
        let p = s.drop_last();
        assert(distinct_texts(p)) by {
            assert forall|i: int, j: int|
                0 <= i < j < p.len() && (#[trigger] yaml_str(p[i])) is Some implies yaml_str(p[i])
                    != #[trigger] yaml_str(p[j]) by {
                assert(p[i] == s[i] && p[j] == s[j]);
            }
        }
        lemma_settled_deduped(p);
        if let Some(t) = yaml_str(s.last()) {
            if has_text(p, t) {
                let i = choose|i: int| 0 <= i < p.len() && yaml_str(#[trigger] p[i]) == Some(t);
                assert(s[i] == p[i]);
                assert(yaml_str(s[i]) != yaml_str(s[s.len() - 1]));
            }
        }
        assert(p.push(s.last()) == s);
    }
}

/// Whether `texts` holds `t`.
fn holds_text(texts: &Vec<String>, t: &String) -> (r: bool)
    ensures
        r <==> exists|i: int| 0 <= i < texts.len() && (#[trigger] texts[i])@ == t@,
{
    let mut k: usize = 0;
    while k < texts.len()
        invariant
            k <= texts.len(),
            forall|i: int| 0 <= i < k ==> (#[trigger] texts[i])@ != t@,
        decreases texts.len() - k,
    {
        if texts[k] == *t {
            return true;
        }
        k = k + 1;
    }
    false
}

/// The list with `t` merged in, or `None` where it is already settled.
pub fn merge_entry(items: Vec<serde_yaml::Value>, t: &str) -> (r: Option<Vec<serde_yaml::Value>>)
    ensures
        r is None <==> settled(items@, t@),
        r matches Some(v) ==> merged(items@, t@, v@),
{
    let ghost orig = items@;
    let n = items.len();
    assert(orig.len() == n);
    let mut rest = items;
    let mut out: Vec<serde_yaml::Value> = Vec::new();
    let mut seen: Vec<String> = Vec::new();
    let mut changed = false;
    let mut k: usize = 0;
    while rest.len() > 0
        invariant
            orig.len() <= usize::MAX,
            k + rest@.len() == orig.len(),
            rest@ == orig.subrange(k as int, orig.len() as int),
            out@ == deduped(orig.subrange(0, k as int)),
            out@.len() <= k,
            forall|u: Seq<char>|
                has_text(out@, u) <==> exists|i: int| 0 <= i < seen.len() && (#[trigger] seen[i])@ == u,
            !changed ==> out@ == orig.subrange(0, k as int),
            changed ==> out@.len() < k,
        decreases rest.len(),
    {
        let ghost pre = orig.subrange(0, k as int);
        let ghost before = out@;
        let ghost seen_before = seen@;
        let item = rest.remove(0);
        assert(orig.subrange(0, k + 1).drop_last() == pre);
        assert(orig.subrange(0, k + 1).last() == item);
        match as_text(&item) {
            Some(s) => {
                if holds_text(&seen, &s) {
                    changed = true;
                    assert(has_text(before, s@));
                } else {
                    out.push(item);
                    seen.push(s);
                    proof {
                        assert forall|u: Seq<char>| has_text(out@, u) <==> exists|i: int|
                            0 <= i < seen.len() && (#[trigger] seen[i])@ == u by {
                            if has_text(out@, u) {
                                let j = choose|j: int|
                                    0 <= j < out.len() && yaml_str(#[trigger] out@[j]) == Some(u);
                                if j < before.len() {
                                    assert(out@[j] == before[j]);
                                    assert(has_text(before, u));
                                    let i = choose|i: int|
                                        0 <= i < seen_before.len() && (#[trigger] seen_before[i])@ == u;
                                    assert(seen[i] == seen_before[i]);
                                } else {
                                    assert(seen[seen.len() - 1]@ == u);
                                }
                            }
                            if exists|i: int| 0 <= i < seen.len() && (#[trigger] seen[i])@ == u {
                                let i = choose|i: int| 0 <= i < seen.len() && (#[trigger] seen[i])@ == u;
                                if i < seen.len() - 1 {
                                    assert(seen_before[i] == seen[i]);
                                    assert(has_text(before, u));
                                    let j = choose|j: int|
                                        0 <= j < before.len() && yaml_str(#[trigger] before[j]) == Some(u);
                                    assert(out@[j] == before[j]);
                                } else {
                                    assert(out@[out.len() - 1] == item);
                                }
                            }
                        }
                        assert(!has_text(before, s@));
                    }
                }
            },
            None => {
                out.push(item);
                proof {
                    assert forall|u: Seq<char>| has_text(out@, u) <==> has_text(before, u) by {
                        if has_text(out@, u) {
                            let j = choose|j: int|
                                0 <= j < out.len() && yaml_str(#[trigger] out@[j]) == Some(u);
                            assert(out@[j] == before[j]);
                        }
                        if has_text(before, u) {
                            let j = choose|j: int|
                                0 <= j < before.len() && yaml_str(#[trigger] before[j]) == Some(u);
                            assert(out@[j] == before[j]);
                        }
                    }
                    assert forall|u: Seq<char>| has_text(out@, u) <==> exists|i: int|
                        0 <= i < seen.len() && (#[trigger] seen[i])@ == u by {
                        assert(has_text(out@, u) <==> has_text(before, u));
                    }
                }
            },
        }
        k = k + 1;
    }
    assert(orig.subrange(0, orig.len() as int) == orig);
    proof {
        lemma_deduped_texts(orig);
    }
    let present = holds_text(&seen, &t.to_owned());
    assert(present <==> has_text(out@, t@));
    if present {
        if !changed {
            return None;
        }
        proof {
            if distinct_texts(orig) {
                lemma_settled_deduped(orig);
            }
        }
        Some(out)
    } else {
        let ghost d = out@;
        out.push(string_value(t));
        assert(out@.drop_last() == d);
        Some(out)
    }
}

} // verus!
