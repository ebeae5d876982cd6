use vstd::prelude::*;
use vstd::string::*;

verus! {

/// One metadata entry as the contracts see it: a keyword and its text.
pub type EntryView = (Seq<char>, Seq<char>);

/// The view of a list of entries.
pub open spec fn entries_view(v: Seq<(String, String)>) -> Seq<EntryView> {
    v.map_values(|p: (String, String)| (p.0@, p.1@))
}

/// The list without any entry whose keyword is `k`, in the original order.
pub open spec fn drop_key(e: Seq<EntryView>, k: Seq<char>) -> Seq<EntryView>
    decreases e.len(),
{
    if e.len() == 0 {
        Seq::empty()
    } else {
        let rest = drop_key(e.drop_last(), k);
        if e.last().0 == k {
            rest
        } else {
            rest.push(e.last())
        }
    }
}

/// Replace policy: every entry for `k` is removed and one entry `(k, v)` is appended.
pub open spec fn replace_entry(e: Seq<EntryView>, k: Seq<char>, v: Seq<char>) -> Seq<EntryView> {
    drop_key(e, k).push((k, v))
}

/// The text that joins an existing value and a new one under the append policy.
pub open spec fn value_separator() -> Seq<char> {
    Seq::empty().push(';').push(' ')
}

pub open spec fn has_key(e: Seq<EntryView>, k: Seq<char>) -> bool {
    exists|i: int| 0 <= i < e.len() && e[i].0 == k
}

pub open spec fn is_first_of_key(e: Seq<EntryView>, k: Seq<char>, i: int) -> bool {
    &&& 0 <= i < e.len()
    &&& e[i].0 == k
    &&& forall|j: int| 0 <= j < i ==> e[j].0 != k
}

/// A keyword that occurs in a list has a first occurrence.
pub proof fn lemma_first_of_key_exists(e: Seq<EntryView>, k: Seq<char>)
    requires
        has_key(e, k),
    ensures
        exists|c: int| is_first_of_key(e, k, c),
    decreases e.len(),
{
    if e[0].0 == k {
        assert(is_first_of_key(e, k, 0));
    } else {
        let t = e.drop_first();
        let w = choose|i: int| 0 <= i < e.len() && e[i].0 == k;
        assert(t[w - 1] == e[w]);
        lemma_first_of_key_exists(t, k);
        let c = choose|c: int| is_first_of_key(t, k, c);
        assert forall|j: int| 0 <= j < c + 1 implies e[j].0 != k by {
            if j > 0 {
                assert(e[j] == t[j - 1]);
            }
        }
        assert(is_first_of_key(e, k, c + 1));
    }
}

/// Append policy: the first entry for `k` gets `old + "; " + v`; with none, `(k, v)` is appended.
pub open spec fn merge_entry(e: Seq<EntryView>, k: Seq<char>, v: Seq<char>) -> Seq<EntryView> {
    if has_key(e, k) {
        let i = choose|i: int| is_first_of_key(e, k, i);
        e.update(i, (k, e[i].1 + value_separator() + v))
    } else {
        e.push((k, v))
    }
}

/// The value of the first entry for `k`, if any.
pub open spec fn first_value_of(e: Seq<EntryView>, k: Seq<char>) -> Option<Seq<char>> {
    if has_key(e, k) {
        Some(e[choose|i: int| is_first_of_key(e, k, i)].1)
    } else {
        None
    }
}

/// The value of the first entry whose keyword is `key`.
pub fn first_value(entries: &Vec<(String, String)>, key: &String) -> (r: Option<String>)
    ensures
        (match r {
            Some(v) => Some(v@),
            None => None,
        }) == first_value_of(entries_view(entries@), key@),
{
    let ghost e = entries_view(entries@);
    let mut i: usize = 0;
    while i < entries.len()
        invariant
            i <= entries.len(),
            e == entries_view(entries@),
            forall|j: int| 0 <= j < i ==> e[j].0 != key@,
        decreases entries.len() - i,
    {
        if entries[i].0 == *key {
            proof {
                assert(is_first_of_key(e, key@, i as int));
                let c = choose|c: int| is_first_of_key(e, key@, c);
                assert(c == i as int);
            }
            return Some(entries[i].1.clone());
        }
        i = i + 1;
    }
    None
}

/// How a new value for a keyword composes with entries that already carry that keyword.
#[derive(Debug, Clone, Copy, PartialEq, Eq, Structural)]
pub enum EditPolicy {
    /// Every entry for the keyword is removed, then one new entry is appended.
    Replace,
    /// The first entry for the keyword has the new value appended after "; ".
    Append,
}

/// The entry list that results from setting `k` to `v` under `policy`.
pub open spec fn edited(e: Seq<EntryView>, k: Seq<char>, v: Seq<char>, policy: EditPolicy) -> Seq<
    EntryView,
> {
    match policy {
        EditPolicy::Replace => replace_entry(e, k, v),
        EditPolicy::Append => merge_entry(e, k, v),
    }
}

fn clone_entry(p: &(String, String)) -> (r: (String, String))
    ensures
        r.0@ == p.0@,
        r.1@ == p.1@,
{
    (p.0.clone(), p.1.clone())
}

/// Copies `existing` without the entries whose keyword is `key`.
pub fn remove_key(existing: &Vec<(String, String)>, key: &String) -> (r: Vec<(String, String)>)
    ensures
        entries_view(r@) == drop_key(entries_view(existing@), key@),
{
    let ghost e = entries_view(existing@);
    let mut out: Vec<(String, String)> = Vec::new();
    let mut i: usize = 0;
    while i < existing.len()
        invariant
            i <= existing.len(),
            e == entries_view(existing@),
            entries_view(out@) == drop_key(e.subrange(0, i as int), key@),
        decreases existing.len() - i,
    {
        proof {
            assert(e.subrange(0, i + 1).drop_last() =~= e.subrange(0, i as int));
        }
        if existing[i].0 != *key {
            let p = clone_entry(&existing[i]);
            out.push(p);
            proof {
                assert(entries_view(out@) =~= drop_key(e.subrange(0, i as int), key@).push(e[i as int]));
            }
        }
        i = i + 1;
    }
    proof {
        assert(e.subrange(0, existing.len() as int) =~= e);
    }
    out
}

/// Sets `key` to `value` in `existing` under the chosen policy.
pub fn apply_edit(
    existing: &Vec<(String, String)>,
    key: &String,
    value: &String,
    policy: EditPolicy,
) -> (r: Vec<(String, String)>)
    ensures
        entries_view(r@) == edited(entries_view(existing@), key@, value@, policy),
{
    let ghost e = entries_view(existing@);
    match policy {
        EditPolicy::Replace => {
            let mut out = remove_key(existing, key);
            out.push((key.clone(), value.clone()));
            proof {
                assert(entries_view(out@) =~= replace_entry(e, key@, value@));
            }
            out
        },
        EditPolicy::Append => {
            let mut i: usize = 0;
            while i < existing.len()
                invariant
                    i <= existing.len(),
                    e == entries_view(existing@),
                    forall|j: int| 0 <= j < i ==> e[j].0 != key@,
                ensures
                    i <= existing.len(),
                    forall|j: int| 0 <= j < i ==> e[j].0 != key@,
                    i < existing.len() ==> e[i as int].0 == key@,
                decreases existing.len() - i,
            {
                if existing[i].0 == *key {
                    break;
                }
                i = i + 1;
            }
            let mut out: Vec<(String, String)> = Vec::new();
            let mut j: usize = 0;
            while j < existing.len()
                invariant
                    j <= existing.len(),
                    e == entries_view(existing@),
                    entries_view(out@) =~= e.subrange(0, j as int),
                decreases existing.len() - j,
            {
                let p = clone_entry(&existing[j]);
                let ghost prev = out@;
                out.push(p);
                proof {
                    assert(out@ == prev.push(p));
                    assert(entries_view(out@) =~= entries_view(prev).push(e[j as int]));
                    assert(e.subrange(0, j + 1) =~= e.subrange(0, j as int).push(e[j as int]));
                }
                j = j + 1;
            }
            proof {
                assert(e.subrange(0, existing.len() as int) =~= e);
            }
            if i < existing.len() {
                let mut joined = existing[i].1.clone();
                proof {
                    reveal_strlit("; ");
                }
                joined.append("; ");
                joined.append(value.as_str());
                proof {
                    assert("; "@ =~= value_separator());
                    assert(joined@ == e[i as int].1 + value_separator() + value@);
                }
                let ghost prev = out@;
                out.set(i, (key.clone(), joined));
                proof {
                    assert(entries_view(out@) =~= entries_view(prev).update(
                        i as int,
                        (key@, e[i as int].1 + value_separator() + value@),
                    ));
                    assert(is_first_of_key(e, key@, i as int));
                    assert(has_key(e, key@));
                    let c = choose|c: int| is_first_of_key(e, key@, c);
                    assert(c == i as int);
                    assert(entries_view(out@) =~= merge_entry(e, key@, value@));
                }
            } else {
                out.push((key.clone(), value.clone()));
                proof {
                    assert(entries_view(out@) =~= merge_entry(e, key@, value@));
                }
            }
            out
        },
    }
}

proof fn lemma_drop_key_absent(e: Seq<EntryView>, k: Seq<char>)
    ensures
        forall|i: int| 0 <= i < drop_key(e, k).len() ==> #[trigger] drop_key(e, k)[i].0 != k,
    decreases e.len(),
{
    if e.len() > 0 {
        let rest = drop_key(e.drop_last(), k);
        lemma_drop_key_absent(e.drop_last(), k);
        if e.last().0 != k {
            assert forall|i: int| 0 <= i < drop_key(e, k).len() implies #[trigger] drop_key(
                e,
                k,
            )[i].0 != k by {
                if i < rest.len() {
                    assert(drop_key(e, k)[i] == rest[i]);
                }
            }
        }
    }
}

proof fn lemma_drop_key_idempotent(e: Seq<EntryView>, k: Seq<char>)
    ensures
        drop_key(drop_key(e, k), k) == drop_key(e, k),
    decreases e.len(),
{
    if e.len() > 0 {
        let rest = drop_key(e.drop_last(), k);
        lemma_drop_key_idempotent(e.drop_last(), k);
        if e.last().0 != k {
            let d = rest.push(e.last());
            assert(d.drop_last() =~= rest);
        }
    }
}

/// Setting the same keyword to the same value twice under the replace policy gives the
/// same list as setting it once, and that list holds exactly one entry for the keyword:
/// the last one, carrying the value.
pub proof fn lemma_replace_idempotent(e: Seq<EntryView>, k: Seq<char>, v: Seq<char>)
    ensures
        replace_entry(replace_entry(e, k, v), k, v) == replace_entry(e, k, v),
        replace_entry(e, k, v).last() == (k, v),
        forall|i: int|
            0 <= i < replace_entry(e, k, v).len() && #[trigger] replace_entry(e, k, v)[i].0 == k
                ==> i == replace_entry(e, k, v).len() - 1,
{
    let d = drop_key(e, k);
    let r = d.push((k, v));
    lemma_drop_key_idempotent(e, k);
    lemma_drop_key_absent(e, k);
    assert(r.drop_last() =~= d);
    assert forall|i: int| 0 <= i < r.len() && #[trigger] r[i].0 == k implies i == r.len() - 1 by {
        if i < r.len() - 1 {
            assert(r[i] == d[i]);
        }
    }
}

} // verus!
