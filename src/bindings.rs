use vstd::prelude::*;

verus! {

/// What `name` is bound to in a list of bindings: the last entry with that name wins.
pub open spec fn find_in<T>(entries: Seq<(String, T)>, name: Seq<char>) -> Option<T>
    decreases entries.len(),
{
    if entries.len() == 0 {
        None
    } else if entries.last().0@ == name {
        Some(entries.last().1)
    } else {
        find_in(entries.drop_last(), name)
    }
}

/// Appending a binding makes it the one found for its name and leaves the others.
pub proof fn lemma_find_push<T>(entries: Seq<(String, T)>, e: (String, T), m: Seq<char>)
    ensures
        find_in(entries.push(e), m) == if m == e.0@ { Some(e.1) } else { find_in(entries, m) },
{
    assert(entries.push(e).drop_last() =~= entries);
}

/// Replacing the last binding of a name rebinds that name and leaves the others.
pub proof fn lemma_find_update<T>(entries: Seq<(String, T)>, k: int, e: (String, T), m: Seq<char>)
    requires
        0 <= k < entries.len(),
        entries[k].0@ == e.0@,
        forall|j: int| k < j < entries.len() ==> entries[j].0@ != e.0@,
    ensures
        find_in(entries.update(k, e), m) == if m == e.0@ { Some(e.1) } else { find_in(entries, m) },
    decreases entries.len(),
{
    let u = entries.update(k, e);
    if k < entries.len() - 1 {
        assert(u.drop_last() =~= entries.drop_last().update(k, e));
        lemma_find_update(entries.drop_last(), k, e, m);
    } else {
        assert(u.drop_last() =~= entries.drop_last());
    }
}

/// Where the last binding of `name` stands, if there is one.
pub fn last_index<T>(entries: &Vec<(String, T)>, name: &String) -> (r: Option<usize>)
    ensures
        match r {
            Some(k) => k < entries@.len() && entries@[k as int].0@ == name@
                && (forall|j: int| k < j < entries@.len() ==> entries@[j].0@ != name@)
                && find_in(entries@, name@) == Some(entries@[k as int].1),
            None => (forall|j: int| 0 <= j < entries@.len() ==> entries@[j].0@ != name@)
                && find_in(entries@, name@) == None::<T>,
        },
{
    let mut k = entries.len();
    assert(entries@.take(k as int) =~= entries@);
    while k > 0
        invariant
            k <= entries@.len(),
            forall|j: int| k <= j < entries@.len() ==> entries@[j].0@ != name@,
            find_in(entries@, name@) == find_in(entries@.take(k as int), name@),
        decreases k,
    {
        let ghost prefix = entries@.take(k as int);
        assert(prefix.drop_last() =~= entries@.take(k - 1));
        if entries[k - 1].0.eq(name) {
            return Some(k - 1);
        }
        k = k - 1;
    }
    None
}

/// Dropping a binding of another name does not change what `m` is bound to.
pub proof fn lemma_find_remove_other<T>(entries: Seq<(String, T)>, k: int, m: Seq<char>)
    requires
        0 <= k < entries.len(),
        entries[k].0@ != m,
    ensures
        find_in(entries.remove(k), m) == find_in(entries, m),
    decreases entries.len(),
{
    let r = entries.remove(k);
    if k < entries.len() - 1 {
        assert(r.last() == entries.last());
        assert(r.drop_last() =~= entries.drop_last().remove(k));
        lemma_find_remove_other(entries.drop_last(), k, m);
    } else {
        assert(r =~= entries.drop_last());
    }
}

/// Binds `name` to `value` in place: the last binding of `name` is replaced, or a new one
/// is appended.
pub fn bind<T>(entries: &mut Vec<(String, T)>, name: String, value: T)
    ensures
        final(entries)@.len() == old(entries)@.len() || final(entries)@.len() == old(entries)@.len() + 1,
        forall|j: int| 0 <= j < final(entries)@.len() ==> #[trigger] final(entries)@[j] == (name, value)
            || (j < old(entries)@.len() && final(entries)@[j] == old(entries)@[j]),
        forall|m: Seq<char>| #[trigger] find_in(final(entries)@, m)
            == if m == name@ { Some(value) } else { find_in(old(entries)@, m) },
{
    match last_index(entries, &name) {
        Some(k) => {
            let ghost before = entries@;
            let ghost e = (name, value);
            entries.set(k, (name, value));
            proof {
                assert forall|m: Seq<char>| #[trigger] find_in(entries@, m)
                    == if m == e.0@ { Some(e.1) } else { find_in(before, m) } by {
                    lemma_find_update(before, k as int, e, m);
                }
            }
        },
        None => {
            let ghost before = entries@;
            let ghost e = (name, value);
            entries.push((name, value));
            proof {
                assert forall|m: Seq<char>| #[trigger] find_in(entries@, m)
                    == if m == e.0@ { Some(e.1) } else { find_in(before, m) } by {
                    lemma_find_push(before, e, m);
                }
            }
        },
    }
}

/// Drops every binding of `name`.
pub fn unbind<T>(entries: &mut Vec<(String, T)>, name: &String)
    ensures
        forall|m: Seq<char>| #[trigger] find_in(final(entries)@, m)
            == if m == name@ { None } else { find_in(old(entries)@, m) },
{
    let ghost start = entries@;
    loop
        invariant
            start == old(entries)@,
            forall|m: Seq<char>| m != name@ ==> #[trigger] find_in(entries@, m) == find_in(start, m),
        ensures
            find_in(entries@, name@) == None::<T>,
            forall|m: Seq<char>| m != name@ ==> #[trigger] find_in(entries@, m) == find_in(start, m),
        decreases entries@.len(),
    {
        match last_index(entries, name) {
            Some(k) => {
                let ghost before = entries@;
                entries.remove(k);
                proof {
                    assert forall|m: Seq<char>| m != name@ implies #[trigger] find_in(entries@, m) == find_in(start, m) by {
                        lemma_find_remove_other(before, k as int, m);
                    }
                }
            },
            None => break,
        }
    }
}

/// A name that is found is bound by one of the entries.
pub proof fn lemma_find_some<T>(entries: Seq<(String, T)>, m: Seq<char>)
    ensures
        find_in(entries, m) is Some ==> exists|j: int| 0 <= j < entries.len() && #[trigger] entries[j].1 == find_in(entries, m)->Some_0,
    decreases entries.len(),
{
    if entries.len() > 0 && entries.last().0@ != m {
        lemma_find_some(entries.drop_last(), m);
        if find_in(entries, m) is Some {
            let j = choose|j: int| 0 <= j < entries.drop_last().len() && #[trigger] entries.drop_last()[j].1 == find_in(entries, m)->Some_0;
            assert(entries[j] == entries.drop_last()[j]);
        }
    } else if entries.len() > 0 {
        assert(entries[entries.len() - 1].1 == find_in(entries, m)->Some_0);
    }
}

} // verus!
