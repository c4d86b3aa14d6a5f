//! Which services the agent knows: the names behind `services/{name}.json`
//! and `pids/{name}.pid.json`, merged, sorted and each listed once.
use vstd::prelude::*;
use crate::text::{
    chars_of, ends_with, lemma_seq_less_irreflexive, lemma_seq_less_total, lemma_seq_less_trans,
    seq_less, str_eq, str_less, string_of,
};

verus! {

/// Index of the last `.` in `s`, if any.
pub open spec fn last_dot(s: Seq<char>, k: int) -> bool {
    0 <= k < s.len() && s[k] == '.' && forall|j: int| k < j < s.len() ==> s[j] != '.'
}

/// The `(stem, extension)` that `Path::file_stem` / `Path::extension` see
/// in a file name: split at the last dot unless that dot starts the name.
pub open spec fn json_stem(name: Seq<char>) -> Option<Seq<char>> {
    if exists|k: int| last_dot(name, k) && k > 0 {
        let k = choose|k: int| last_dot(name, k) && k > 0;
        if name.subrange(k + 1, name.len() as int) == "json"@ {
            Some(name.subrange(0, k))
        } else {
            None
        }
    } else {
        None
    }
}

/// `s.trim_end_matches(".pid")`.
pub open spec fn strip_pid(s: Seq<char>) -> Seq<char>
    decreases s.len(),
{
    if s.len() >= 4 && ends_with(s, ".pid"@) {
        strip_pid(s.subrange(0, s.len() - 4))
    } else {
        s
    }
}

pub open spec fn name_of_file(in_pids: bool, file_name: Seq<char>) -> Option<Seq<char>> {
    match json_stem(file_name) {
        Some(stem) => {
            let n = if in_pids {
                strip_pid(stem)
            } else {
                stem
            };
            if n.len() > 0 {
                Some(n)
            } else {
                None
            }
        },
        None => None,
    }
}

proof fn lemma_last_dot_unique(s: Seq<char>, a: int, b: int)
    requires
        last_dot(s, a),
        last_dot(s, b),
    ensures
        a == b,
{
}

/// The service named by a file of `services/` (or of `pids/` when
/// `in_pids`): a `.json` file's stem, without trailing `.pid` in `pids/`;
/// none when that leaves nothing.
pub fn service_name_from_file(in_pids: bool, file_name: &str) -> (r: Option<String>)
    ensures
        match name_of_file(in_pids, file_name@) {
            Some(n) => r matches Some(x) && x@ == n,
            None => r is None,
        },
{
    let v = chars_of(file_name);
    let mut k: usize = v.len();
    while k > 0 && v[k - 1] != '.'
        invariant
            k <= v.len(),
            v@ == file_name@,
            forall|j: int| k <= j < v.len() ==> v@[j] != '.',
        decreases k,
    {
        k = k - 1;
    }
    if k <= 1 {
        proof {
            assert forall|m: int| !(last_dot(v@, m) && m > 0) by {
                if last_dot(v@, m) && m > 0 {
                    if k == 1 {
                        assert(v@[0] == '.');
                    }
                }
            }
        }
        return None;
    }
    let dot = k - 1;
    proof {
        assert(last_dot(v@, dot as int));
        assert forall|m: int| last_dot(v@, m) && m > 0 implies m == dot by {
            lemma_last_dot_unique(v@, m, dot as int);
        }
    }
    let ext = string_of(&v, k, v.len());
    if !str_eq(ext.as_str(), "json") {
        return None;
    }
    let mut end: usize = dot;
    let ghost stem = v@.subrange(0, dot as int);
    if in_pids {
        while end >= 4 && v[end - 4] == '.' && v[end - 3] == 'p' && v[end - 2] == 'i' && v[end - 1] == 'd'
            invariant
                end <= dot <= v.len(),
                v@ == file_name@,
                strip_pid(stem) == strip_pid(v@.subrange(0, end as int)),
            decreases end,
        {
            proof {
                let s = v@.subrange(0, end as int);
                assert(s.subrange(s.len() - 4, s.len() as int) =~= ".pid"@) by {
                    reveal_strlit(".pid");
                }
                assert(s.subrange(0, s.len() - 4) =~= v@.subrange(0, end - 4));
            }
            end = end - 4;
        }
        proof {
            let s = v@.subrange(0, end as int);
            if s.len() >= 4 && ends_with(s, ".pid"@) {
                reveal_strlit(".pid");
                assert(s[s.len() - 4] == s.subrange(s.len() - 4, s.len() as int)[0]);
                assert(s[s.len() - 3] == s.subrange(s.len() - 4, s.len() as int)[1]);
                assert(s[s.len() - 2] == s.subrange(s.len() - 4, s.len() as int)[2]);
                assert(s[s.len() - 1] == s.subrange(s.len() - 4, s.len() as int)[3]);
            }
            assert(strip_pid(s) == s);
        }
    }
    if end == 0 {
        return None;
    }
    Some(string_of(&v, 0, end))
}

pub open spec fn names_sorted(v: Seq<String>) -> bool {
    forall|i: int, j: int| 0 <= i < j < v.len() ==> seq_less(v[i]@, v[j]@)
}

pub open spec fn has_name(v: Seq<String>, n: Seq<char>) -> bool {
    exists|i: int| 0 <= i < v.len() && (#[trigger] v[i])@ == n
}

/// Adds `name` to a sorted list of names unless it is there already.
pub fn add_name(names: &mut Vec<String>, name: &str)
    requires
        names_sorted(old(names)@),
    ensures
        names_sorted(final(names)@),
        forall|n: Seq<char>| has_name(final(names)@, n) <==> (has_name(old(names)@, n) || n == name@),
{
    let mut i: usize = 0;
    while i < names.len() && str_less(names[i].as_str(), name)
        invariant
            i <= names@.len(),
            names@ == old(names)@,
            forall|j: int| 0 <= j < i ==> seq_less(names@[j]@, name@),
        decreases names.len() - i,
    {
        i = i + 1;
    }
    if i < names.len() && str_eq(names[i].as_str(), name) {
        assert(names@[i as int]@ == name@);
        return;
    }
    let ghost before = names@;
    let ghost nv = name@;
    assert(before == old(names)@);
    proof {
        if i < before.len() {
            lemma_seq_less_total(before[i as int]@, nv);
            assert forall|j: int| i < j < before.len() implies seq_less(nv, before[j]@) by {
                lemma_seq_less_trans(nv, before[i as int]@, before[j]@);
            }
        }
    }
    let owned_name = crate::text::owned(name);
    names.insert(i, owned_name);
    proof {
        assert forall|a: int, b: int| 0 <= a < b < names@.len() implies seq_less(names@[a]@, names@[b]@) by {
            if b < i {
            } else if a < i && b == i {
            } else if a < i {
                assert(names@[b] == before[b - 1]);
                lemma_seq_less_trans(before[a]@, nv, before[b - 1]@);
            } else if a == i {
                assert(names@[b] == before[b - 1]);
            } else {
                assert(names@[a] == before[a - 1] && names@[b] == before[b - 1]);
            }
        }
        assert forall|n: Seq<char>| has_name(names@, n) <==> (has_name(before, n) || n == nv) by {
            if has_name(names@, n) {
                let k = choose|k: int| 0 <= k < names@.len() && (#[trigger] names@[k])@ == n;
                if k < i {
                    assert(before[k]@ == n);
                    assert(has_name(before, n));
                } else if k > i {
                    assert(before[k - 1]@ == n);
                    assert(has_name(before, n));
                } else {
                    assert(n == nv);
                }
            }
            if has_name(before, n) {
                let k = choose|k: int| 0 <= k < before.len() && (#[trigger] before[k])@ == n;
                if k < i {
                    assert(names@[k]@ == n);
                } else {
                    assert(names@[k + 1]@ == n);
                }
                assert(has_name(names@, n));
            }
            if n == nv {
                assert(names@[i as int]@ == n);
                assert(has_name(names@, n));
            }
        }
    }
}

/// The service names found, sorted, each once.
pub fn sorted_names(found: &Vec<String>) -> (r: Vec<String>)
    ensures
        names_sorted(r@),
        forall|n: Seq<char>| has_name(r@, n) <==> has_name(found@, n),
{
    let mut r: Vec<String> = Vec::new();
    let mut i: usize = 0;
    while i < found.len()
        invariant
            i <= found.len(),
            names_sorted(r@),
            forall|n: Seq<char>| has_name(r@, n) <==> (exists|k: int| 0 <= k < i && (#[trigger] found@[k])@ == n),
        decreases found.len() - i,
    {
        add_name(&mut r, found[i].as_str());
        proof {
            assert forall|n: Seq<char>| has_name(r@, n) <==> (exists|k: int| 0 <= k < i + 1 && (#[trigger] found@[k])@ == n) by {
                if n == found@[i as int]@ {
                    assert(found@[i as int]@ == n);
                }
            }
        }
        i = i + 1;
    }
    r
}

/// Names are listed in strictly increasing order, so no name is listed twice.
pub proof fn law_names_unique(v: Seq<String>, i: int, j: int)
    requires
        names_sorted(v),
        0 <= i < v.len(),
        0 <= j < v.len(),
        i != j,
    ensures
        v[i]@ != v[j]@,
{
    if i < j {
        lemma_seq_less_irreflexive(v[i]@);
    } else {
        lemma_seq_less_irreflexive(v[j]@);
    }
}

} // verus!
