use vstd::prelude::*;

verus! {

/// The text of each string of a list, in order.
pub open spec fn strings_view(v: Seq<String>) -> Seq<Seq<char>> {
    v.map_values(|s: String| s@)
}

/// The text of each string of each list, in order.
pub open spec fn lists_view(l: Seq<Vec<String>>) -> Seq<Seq<Seq<char>>> {
    l.map_values(|v: Vec<String>| strings_view(v@))
}

/// The position of the first occurrence of `name` in `names`.
pub open spec fn find_name(names: Seq<Seq<char>>, name: Seq<char>) -> Option<int>
    decreases names.len(),
{
    if names.len() == 0 {
        None
    } else {
        match find_name(names.drop_last(), name) {
            Some(i) => Some(i),
            None => if names.last() == name { Some(names.len() - 1) } else { None },
        }
    }
}

/// The lists joined end to end.
pub open spec fn flatten_names(lists: Seq<Seq<Seq<char>>>) -> Seq<Seq<char>>
    decreases lists.len(),
{
    if lists.len() == 0 {
        seq![]
    } else {
        flatten_names(lists.drop_last()) + lists.last()
    }
}

/// The names in order of first appearance, each once.
pub open spec fn first_seen(s: Seq<Seq<char>>) -> Seq<Seq<char>>
    decreases s.len(),
{
    if s.len() == 0 {
        seq![]
    } else {
        let p = first_seen(s.drop_last());
        if p.contains(s.last()) {
            p
        } else {
            p.push(s.last())
        }
    }
}

/// Viewing a list with one more string adds that string's text.
pub proof fn lemma_strings_view_push(a: Seq<String>, x: String)
    ensures
        strings_view(a.push(x)) == strings_view(a).push(x@),
{
    assert forall|k: int| 0 <= k < a.len() + 1 implies #[trigger] strings_view(a.push(x))[k] == strings_view(
        a,
    ).push(x@)[k] by {
        if k < a.len() {
            assert(a.push(x)[k] == a[k]);
        }
    }
    assert(strings_view(a.push(x)) =~= strings_view(a).push(x@));
}

/// Mapping one more element of a prefix adds its image.
pub proof fn lemma_map_take_push<A, B>(s: Seq<A>, f: spec_fn(A) -> B, j: int)
    requires
        0 <= j < s.len(),
    ensures
        s.take(j + 1).map_values(f) == s.take(j).map_values(f).push(f(s[j])),
{
    assert forall|k: int| 0 <= k < j + 1 implies #[trigger] s.take(j + 1).map_values(f)[k] == s.take(
        j,
    ).map_values(f).push(f(s[j]))[k] by {
        if k < j {
            assert(s.take(j + 1)[k] == s.take(j)[k]);
        }
    }
    assert(s.take(j + 1).map_values(f) =~= s.take(j).map_values(f).push(f(s[j])));
}

/// A match found in a prefix is the first match of the whole list.
pub proof fn lemma_find_name_prefix(s: Seq<Seq<char>>, k: int, name: Seq<char>)
    requires
        0 <= k <= s.len(),
        find_name(s.take(k), name) is Some,
    ensures
        find_name(s, name) == find_name(s.take(k), name),
    decreases s.len() - k,
{
    if k < s.len() {
        assert(s.take(k + 1).drop_last() =~= s.take(k));
        lemma_find_name_prefix(s, k + 1, name);
    } else {
        assert(s.take(k) =~= s);
    }
}

/// What `find_name` returns is a position of the name, and no earlier one holds it;
/// `None` means the name is absent.
pub proof fn lemma_find_name(s: Seq<Seq<char>>, name: Seq<char>)
    ensures
        find_name(s, name) matches Some(i) ==> 0 <= i < s.len() && s[i] == name
            && forall|j: int| 0 <= j < i ==> s[j] != name,
        find_name(s, name) is None <==> !s.contains(name),
    decreases s.len(),
{
    if s.len() > 0 {
        lemma_find_name(s.drop_last(), name);
        if find_name(s.drop_last(), name) is None && s.last() == name {
            assert(s[s.len() - 1] == name);
        }
        if s.contains(name) {
            let j = choose|j: int| 0 <= j < s.len() && s[j] == name;
            if j < s.len() - 1 {
                assert(s.drop_last()[j] == name);
            }
        }
        assert forall|j: int| 0 <= j < s.len() - 1 implies s[j] == s.drop_last()[j] by {}
    }
}

/// The names that `first_seen` keeps are distinct, and are exactly the names given.
pub proof fn lemma_first_seen(s: Seq<Seq<char>>)
    ensures
        first_seen(s).no_duplicates(),
        forall|x: Seq<char>| first_seen(s).contains(x) <==> s.contains(x),
    decreases s.len(),
{
    if s.len() > 0 {
        lemma_first_seen(s.drop_last());
        let p = first_seen(s.drop_last());
        assert forall|x: Seq<char>| first_seen(s).contains(x) <==> s.contains(x) by {
            if s.contains(x) && x != s.last() {
                let j = choose|j: int| 0 <= j < s.len() && s[j] == x;
                assert(s.drop_last()[j] == x);
            }
            if s.drop_last().contains(x) {
                let j = choose|j: int| 0 <= j < s.len() - 1 && s.drop_last()[j] == x;
                assert(s[j] == x);
            }
            if !p.contains(s.last()) && first_seen(s).contains(x) && x != s.last() {
                let j = choose|j: int| 0 <= j < p.len() + 1 && p.push(s.last())[j] == x;
                assert(p[j] == x);
            }
            if !p.contains(s.last()) && p.contains(x) {
                let j = choose|j: int| 0 <= j < p.len() && p[j] == x;
                assert(p.push(s.last())[j] == x);
            }
            if !p.contains(s.last()) && x == s.last() {
                assert(p.push(s.last())[p.len() as int] == x);
            }
        }
    }
}

/// A name occurs in the joined lists exactly when some list holds it.
pub proof fn lemma_flatten_contains(lists: Seq<Seq<Seq<char>>>, x: Seq<char>)
    ensures
        flatten_names(lists).contains(x) <==> exists|i: int| 0 <= i < lists.len() && #[trigger] lists[i].contains(x),
    decreases lists.len(),
{
    if lists.len() > 0 {
        let init = lists.drop_last();
        let last = lists.last();
        lemma_flatten_contains(init, x);
        let f = flatten_names(lists);
        let fi = flatten_names(init);
        assert(f == fi + last);
        if f.contains(x) {
            let j = choose|j: int| 0 <= j < f.len() && f[j] == x;
            if j < fi.len() {
                assert(fi[j] == x);
                let i = choose|i: int| 0 <= i < init.len() && #[trigger] init[i].contains(x);
                assert(lists[i] == init[i]);
            } else {
                assert(last[j - fi.len()] == x);
                assert(lists[lists.len() - 1].contains(x));
            }
        }
        if exists|i: int| 0 <= i < lists.len() && #[trigger] lists[i].contains(x) {
            let i = choose|i: int| 0 <= i < lists.len() && #[trigger] lists[i].contains(x);
            if i < lists.len() - 1 {
                assert(init[i] == lists[i]);
                let j = choose|j: int| 0 <= j < fi.len() && fi[j] == x;
                assert(f[j] == x);
            } else {
                let j = choose|j: int| 0 <= j < last.len() && last[j] == x;
                assert(f[fi.len() + j] == x);
            }
        }
    }
}

/// The union of lists of names holds each name once, and exactly the names
/// that some list holds.
pub proof fn lemma_union_of_lists(lists: Seq<Seq<Seq<char>>>)
    ensures
        first_seen(flatten_names(lists)).no_duplicates(),
        forall|x: Seq<char>| #[trigger] first_seen(flatten_names(lists)).contains(x) <==> exists|i: int|
            0 <= i < lists.len() && #[trigger] lists[i].contains(x),
{
    lemma_first_seen(flatten_names(lists));
    assert forall|x: Seq<char>| #[trigger] first_seen(flatten_names(lists)).contains(x) <==> exists|i: int|
        0 <= i < lists.len() && #[trigger] lists[i].contains(x) by {
        lemma_flatten_contains(lists, x);
    }
}

/// Whether a list of strings holds the given text.
pub fn contains_name(v: &Vec<String>, name: &String) -> (r: bool)
    ensures
        r == strings_view(v@).contains(name@),
{
    let mut i: usize = 0;
    while i < v.len()
        invariant
            i <= v@.len(),
            forall|j: int| 0 <= j < i ==> v@[j]@ != name@,
        decreases v@.len() - i,
    {
        if v[i].eq(name) {
            assert(strings_view(v@)[i as int] == name@);
            return true;
        }
        i = i + 1;
    }
    proof {
        if strings_view(v@).contains(name@) {
            let j = choose|j: int| 0 <= j < v@.len() && strings_view(v@)[j] == name@;
            assert(v@[j]@ == name@);
        }
    }
    false
}

/// Every name of every list, in order of first appearance, each once.
pub fn names_union(lists: &Vec<Vec<String>>) -> (r: Vec<String>)
    ensures
        strings_view(r@) == first_seen(flatten_names(lists_view(lists@))),
{
    let mut r: Vec<String> = Vec::new();
    let mut i: usize = 0;
    while i < lists.len()
        invariant
            i <= lists@.len(),
            strings_view(r@) == first_seen(flatten_names(lists_view(lists@).take(i as int))),
        decreases lists@.len() - i,
    {
        let inner = &lists[i];
        let ghost base = flatten_names(lists_view(lists@).take(i as int));
        let mut j: usize = 0;
        proof {
            assert(strings_view(inner@).take(0) =~= seq![]);
            assert(base + strings_view(inner@).take(0) =~= base);
        }
        while j < inner.len()
            invariant
                i < lists@.len(),
                *inner == lists@[i as int],
                j <= inner@.len(),
                base == flatten_names(lists_view(lists@).take(i as int)),
                strings_view(r@) == first_seen(base + strings_view(inner@).take(j as int)),
            decreases inner@.len() - j,
        {
            let ghost before = base + strings_view(inner@).take(j as int);
            let ghost after = base + strings_view(inner@).take(j + 1);
            proof {
                assert(after.drop_last() =~= before);
                assert(after.last() == inner@[j as int]@);
            }
            if !contains_name(&r, &inner[j]) {
                r.push(inner[j].clone());
                proof {
                    assert(strings_view(r@) =~= first_seen(before).push(inner@[j as int]@));
                }
            }
            j = j + 1;
        }
        proof {
            let lv = lists_view(lists@);
            assert(lv.take(i + 1).drop_last() =~= lv.take(i as int));
            assert(lv.take(i + 1).last() == strings_view(inner@));
            assert(strings_view(inner@).take(j as int) =~= strings_view(inner@));
        }
        i = i + 1;
    }
    proof {
        assert(lists_view(lists@).take(i as int) =~= lists_view(lists@));
    }
    r
}

} // verus!
