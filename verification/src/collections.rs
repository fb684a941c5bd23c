use vstd::prelude::*;
use crate::settings::{synonym_map, distinct_keys};
use crate::text::{
    lemma_insert_keeps_sorted, lemma_strictly_sorted_no_duplicates, lemma_text_lt_irreflexive,
    lemma_text_lt_total, lemma_text_lt_transitive, strictly_sorted, text_less, text_lt,
};

verus! {

/// Whether `items` holds a string equal to `s`.
pub fn contains_string(items: &Vec<String>, s: &String) -> (res: bool)
    ensures
        res == items.deep_view().contains(s@),
{
    let n = items.len();
    for i in 0..n
        invariant
            n == items@.len(),
            forall|j: int| 0 <= j < i ==> items.deep_view()[j] != s@,
    {
        if items[i] == *s {
            assert(items.deep_view()[i as int] == s@);
            return true;
        }
    }
    false
}

/// The items of `s`, each at its first occurrence.
pub open spec fn first_occurrences(s: Seq<Seq<char>>) -> Seq<Seq<char>>
    decreases s.len(),
{
    if s.len() == 0 {
        Seq::empty()
    } else {
        let init = first_occurrences(s.drop_last());
        if init.contains(s.last()) {
            init
        } else {
            init.push(s.last())
        }
    }
}

/// The strings of `items`, each once: the set that `items` denotes, in the
/// order of first occurrence.
pub fn distinct_strings(items: &Vec<String>) -> (res: Vec<String>)
    ensures
        res.deep_view() == first_occurrences(items.deep_view()),
        res.deep_view().no_duplicates(),
        res.deep_view().to_set() == items.deep_view().to_set(),
{
    let ghost all = items.deep_view();
    let mut res: Vec<String> = Vec::new();
    let n = items.len();
    assert(all.take(0) =~= Seq::<Seq<char>>::empty());
    assert(res.deep_view() =~= Seq::<Seq<char>>::empty());
    for i in 0..n
        invariant
            n == items@.len(),
            all == items.deep_view(),
            res.deep_view() == first_occurrences(all.take(i as int)),
            res.deep_view().no_duplicates(),
            res.deep_view().to_set() == all.take(i as int).to_set(),
    {
        let ghost before = res.deep_view();
        let found = contains_string(&res, &items[i]);
        if !found {
            res.push(items[i].clone());
            assert(res.deep_view() =~= before.push(all[i as int]));
        }
        proof {
            assert(all.take(i + 1) =~= all.take(i as int).push(all[i as int]));
            assert(all.take(i + 1).drop_last() =~= all.take(i as int));
            all.take(i as int).lemma_push_to_set_commute(all[i as int]);
            before.lemma_push_to_set_commute(all[i as int]);
            if found {
                assert(before.to_set().contains(all[i as int]));
            }
            assert(res.deep_view().to_set() =~= all.take(i + 1).to_set());
        }
    }
    assert(all.take(n as int) =~= all);
    res
}

/// For entries with distinct words, the map they denote holds exactly their
/// words, each with the synonyms of its entry.
pub proof fn lemma_synonym_map_of_distinct(entries: Seq<(Seq<char>, Seq<Seq<char>>)>)
    requires
        distinct_keys(entries),
    ensures
        forall|w: Seq<char>|
            #[trigger] synonym_map(entries).contains_key(w) <==> exists|i: int|
                0 <= i < entries.len() && #[trigger] entries[i].0 == w,
        forall|i: int|
            0 <= i < entries.len() ==> #[trigger] synonym_map(entries)[entries[i].0]
                == entries[i].1,
    decreases entries.len(),
{
    if entries.len() > 0 {
        let init = entries.drop_last();
        lemma_synonym_map_of_distinct(init);
        assert forall|w: Seq<char>|
            #[trigger] synonym_map(entries).contains_key(w) <==> exists|i: int|
                0 <= i < entries.len() && #[trigger] entries[i].0 == w by {
            if synonym_map(init).contains_key(w) {
                let i = choose|i: int| 0 <= i < init.len() && #[trigger] init[i].0 == w;
                assert(entries[i].0 == w);
            }
            if exists|i: int| 0 <= i < entries.len() && #[trigger] entries[i].0 == w {
                let i = choose|i: int| 0 <= i < entries.len() && #[trigger] entries[i].0 == w;
                if i < entries.len() - 1 {
                    assert(init[i].0 == w);
                }
            }
        }
        assert forall|i: int|
            0 <= i < entries.len() implies #[trigger] synonym_map(entries)[entries[i].0]
            == entries[i].1 by {
            if i < entries.len() - 1 {
                assert(init[i] == entries[i]);
                assert(entries[i].0 != entries[entries.len() - 1].0);
                assert(synonym_map(init)[init[i].0] == init[i].1);
            }
        }
    }
}

/// Replacing the entry of a word in entries with distinct words is inserting
/// the new entry into the map they denote.
pub proof fn lemma_synonym_map_replace(
    entries: Seq<(Seq<char>, Seq<Seq<char>>)>,
    k: int,
    e: (Seq<char>, Seq<Seq<char>>),
)
    requires
        distinct_keys(entries),
        0 <= k < entries.len(),
        entries[k].0 == e.0,
    ensures
        distinct_keys(entries.update(k, e)),
        synonym_map(entries.update(k, e)) == synonym_map(entries).insert(e.0, e.1),
{
    let updated = entries.update(k, e);
    assert(distinct_keys(updated)) by {
        assert forall|i: int, j: int|
            0 <= i < updated.len() && 0 <= j < updated.len() && i != j implies #[trigger] updated[i].0
            != #[trigger] updated[j].0 by {
            assert(updated[i].0 == entries[i].0);
            assert(updated[j].0 == entries[j].0);
        }
    }
    lemma_synonym_map_of_distinct(entries);
    lemma_synonym_map_of_distinct(updated);
    let lhs = synonym_map(updated);
    let rhs = synonym_map(entries).insert(e.0, e.1);
    assert forall|w: Seq<char>| lhs.contains_key(w) <==> rhs.contains_key(w) by {
        if lhs.contains_key(w) {
            let i = choose|i: int| 0 <= i < updated.len() && #[trigger] updated[i].0 == w;
            assert(entries[i].0 == w);
        }
        if rhs.contains_key(w) && w != e.0 {
            let i = choose|i: int| 0 <= i < entries.len() && #[trigger] entries[i].0 == w;
            assert(updated[i].0 == w);
        }
        if w == e.0 {
            assert(updated[k].0 == w);
        }
    }
    assert forall|w: Seq<char>| lhs.contains_key(w) implies lhs[w] == rhs[w] by {
        let i = choose|i: int| 0 <= i < updated.len() && #[trigger] updated[i].0 == w;
        if i != k {
            assert(entries[i] == updated[i]);
        }
    }
    assert(lhs =~= rhs);
}

/// The words of a list of (word, synonyms) entries, in order.
pub open spec fn words_of(entries: Seq<(Seq<char>, Seq<Seq<char>>)>) -> Seq<Seq<char>> {
    entries.map_values(|e: (Seq<char>, Seq<Seq<char>>)| e.0)
}

/// Entries whose words are strictly sorted have distinct words.
pub proof fn lemma_sorted_words_distinct(entries: Seq<(Seq<char>, Seq<Seq<char>>)>)
    requires
        strictly_sorted(words_of(entries)),
    ensures
        distinct_keys(entries),
{
    lemma_strictly_sorted_no_duplicates(words_of(entries));
    assert forall|i: int, j: int|
        0 <= i < entries.len() && 0 <= j < entries.len() && i != j implies #[trigger] entries[i].0
        != #[trigger] entries[j].0 by {
        assert(words_of(entries)[i] == entries[i].0);
        assert(words_of(entries)[j] == entries[j].0);
    }
}

/// Inserting an entry for a word that the entries do not hold, into entries
/// with distinct words, inserts it into the map they denote.
pub proof fn lemma_synonym_map_insert_new(
    entries: Seq<(Seq<char>, Seq<Seq<char>>)>,
    p: int,
    e: (Seq<char>, Seq<Seq<char>>),
)
    requires
        distinct_keys(entries),
        0 <= p <= entries.len(),
        forall|i: int| 0 <= i < entries.len() ==> #[trigger] entries[i].0 != e.0,
    ensures
        distinct_keys(entries.insert(p, e)),
        synonym_map(entries.insert(p, e)) == synonym_map(entries).insert(e.0, e.1),
{
    let t = entries.insert(p, e);
    assert(distinct_keys(t)) by {
        assert forall|i: int, j: int|
            0 <= i < t.len() && 0 <= j < t.len() && i != j implies #[trigger] t[i].0
            != #[trigger] t[j].0 by {
            if i != p && j != p {
                let si = if i < p { i } else { i - 1 };
                let sj = if j < p { j } else { j - 1 };
                assert(t[i] == entries[si]);
                assert(t[j] == entries[sj]);
            } else if i == p {
                let sj = if j < p { j } else { j - 1 };
                assert(t[j] == entries[sj]);
            } else {
                let si = if i < p { i } else { i - 1 };
                assert(t[i] == entries[si]);
            }
        }
    }
    lemma_synonym_map_of_distinct(entries);
    lemma_synonym_map_of_distinct(t);
    let lhs = synonym_map(t);
    let rhs = synonym_map(entries).insert(e.0, e.1);
    assert forall|w: Seq<char>| lhs.contains_key(w) <==> rhs.contains_key(w) by {
        if lhs.contains_key(w) {
            let i = choose|i: int| 0 <= i < t.len() && #[trigger] t[i].0 == w;
            if i < p {
                assert(entries[i].0 == w);
            } else if i > p {
                assert(entries[i - 1].0 == w);
            }
        }
        if rhs.contains_key(w) && w != e.0 {
            let i = choose|i: int| 0 <= i < entries.len() && #[trigger] entries[i].0 == w;
            if i < p {
                assert(t[i].0 == w);
            } else {
                assert(t[i + 1].0 == w);
            }
        }
        if w == e.0 {
            assert(t[p].0 == w);
        }
    }
    assert forall|w: Seq<char>| lhs.contains_key(w) implies lhs[w] == rhs[w] by {
        let i = choose|i: int| 0 <= i < t.len() && #[trigger] t[i].0 == w;
        if i < p {
            assert(t[i] == entries[i]);
        } else if i > p {
            assert(t[i] == entries[i - 1]);
        }
    }
    assert(lhs =~= rhs);
}

/// The first place in the entries, whose words are strictly sorted, where the
/// word does not come before `word`.
pub fn word_position(entries: &Vec<(String, Vec<String>)>, word: &String) -> (p: usize)
    ensures
        p <= entries@.len(),
        forall|j: int| 0 <= j < p ==> text_lt(#[trigger] entries.deep_view()[j].0, word@),
        p < entries@.len() ==> !text_lt(entries.deep_view()[p as int].0, word@),
{
    let n = entries.len();
    let mut p: usize = 0;
    while p < n
        invariant
            n == entries@.len(),
            p <= n,
            forall|j: int| 0 <= j < p ==> text_lt(#[trigger] entries.deep_view()[j].0, word@),
        decreases n - p,
    {
        if !text_less(&entries[p].0, word) {
            return p;
        }
        p = p + 1;
    }
    p
}

/// The first place in the strictly sorted `items` whose string does not come
/// before `x`.
pub fn sorted_position(items: &Vec<String>, x: &String) -> (p: usize)
    ensures
        p <= items@.len(),
        forall|j: int| 0 <= j < p ==> text_lt(#[trigger] items.deep_view()[j], x@),
        p < items@.len() ==> !text_lt(items.deep_view()[p as int], x@),
{
    let n = items.len();
    let mut p: usize = 0;
    while p < n
        invariant
            n == items@.len(),
            p <= n,
            forall|j: int| 0 <= j < p ==> text_lt(#[trigger] items.deep_view()[j], x@),
        decreases n - p,
    {
        if !text_less(&items[p], x) {
            return p;
        }
        p = p + 1;
    }
    p
}

/// Where a new string `x` goes in a strictly sorted sequence: before it only
/// smaller strings, from it on only larger ones.
proof fn lemma_place_of_new(s: Seq<Seq<char>>, p: int, x: Seq<char>)
    requires
        strictly_sorted(s),
        0 <= p <= s.len(),
        p < s.len() ==> !text_lt(s[p], x) && s[p] != x,
    ensures
        forall|j: int| p <= j < s.len() ==> text_lt(x, #[trigger] s[j]),
{
    if p < s.len() {
        lemma_text_lt_total(s[p], x);
        assert forall|j: int| p <= j < s.len() implies text_lt(x, #[trigger] s[j]) by {
            if j > p {
                assert(text_lt(s[p], s[j]));
                lemma_text_lt_transitive(x, s[p], s[j]);
            }
        }
    }
}

/// The strings of `items`, each once and in ascending order: the sorted set
/// that `items` denotes.
pub fn sorted_strings(items: &Vec<String>) -> (res: Vec<String>)
    ensures
        strictly_sorted(res.deep_view()),
        res.deep_view().no_duplicates(),
        res.deep_view().to_set() == items.deep_view().to_set(),
{
    let ghost all = items.deep_view();
    let mut res: Vec<String> = Vec::new();
    let n = items.len();
    assert(all.take(0) =~= Seq::<Seq<char>>::empty());
    assert(res.deep_view() =~= Seq::<Seq<char>>::empty());
    for i in 0..n
        invariant
            n == items@.len(),
            all == items.deep_view(),
            strictly_sorted(res.deep_view()),
            res.deep_view().to_set() == all.take(i as int).to_set(),
    {
        let ghost before = res.deep_view();
        let p = sorted_position(&res, &items[i]);
        let present = p < res.len() && res[p] == items[i];
        if !present {
            proof {
                lemma_place_of_new(before, p as int, all[i as int]);
                lemma_insert_keeps_sorted(before, p as int, all[i as int]);
            }
            res.insert(p, items[i].clone());
            assert(res.deep_view() =~= before.insert(p as int, all[i as int]));
        }
        proof {
            assert(all.take(i + 1) =~= all.take(i as int).push(all[i as int]));
            all.take(i as int).lemma_push_to_set_commute(all[i as int]);
            if present {
                assert(before[p as int] == all[i as int]);
                assert(before.to_set().contains(all[i as int]));
                assert(res.deep_view().to_set() =~= all.take(i + 1).to_set());
            } else {
                assert(res.deep_view().to_set() =~= all.take(i + 1).to_set()) by {
                    assert forall|w: Seq<char>| #[trigger]
                        res.deep_view().contains(w) <==> before.contains(w) || w == all[i as int] by {
                        if res.deep_view().contains(w) {
                            let k = choose|k: int|
                                0 <= k < res.deep_view().len() && res.deep_view()[k] == w;
                            if k < p {
                                assert(before[k] == w);
                            } else if k > p {
                                assert(before[k - 1] == w);
                            }
                        }
                        if before.contains(w) {
                            let k = choose|k: int| 0 <= k < before.len() && before[k] == w;
                            if k < p {
                                assert(res.deep_view()[k] == w);
                            } else {
                                assert(res.deep_view()[k + 1] == w);
                            }
                        }
                        if w == all[i as int] {
                            assert(res.deep_view()[p as int] == w);
                        }
                    }
                }
            }
        }
    }
    assert(all.take(n as int) =~= all);
    proof {
        lemma_strictly_sorted_no_duplicates(res.deep_view());
    }
    res
}

/// The entries of `entries` with one entry per word, the words in ascending
/// order, taken in order so that a later entry for a word replaces an earlier
/// one: the sorted map that the given list denotes.
pub fn collect_synonyms(entries: &Vec<(String, Vec<String>)>) -> (res: Vec<(String, Vec<String>)>)
    ensures
        strictly_sorted(words_of(res.deep_view())),
        distinct_keys(res.deep_view()),
        synonym_map(res.deep_view()) == synonym_map(entries.deep_view()),
{
    let ghost all = entries.deep_view();
    let mut res: Vec<(String, Vec<String>)> = Vec::new();
    let n = entries.len();
    assert(all.take(0) =~= Seq::<(Seq<char>, Seq<Seq<char>>)>::empty());
    assert(res.deep_view() =~= Seq::<(Seq<char>, Seq<Seq<char>>)>::empty());
    assert(words_of(res.deep_view()) =~= Seq::<Seq<char>>::empty());
    for i in 0..n
        invariant
            n == entries@.len(),
            all == entries.deep_view(),
            strictly_sorted(words_of(res.deep_view())),
            distinct_keys(res.deep_view()),
            synonym_map(res.deep_view()) == synonym_map(all.take(i as int)),
    {
        let ghost before = res.deep_view();
        let word = entries[i].0.clone();
        let list = entries[i].1.clone();
        assert(list.deep_view() =~= entries@[i as int].1.deep_view());
        let ghost e = (word@, list.deep_view());
        assert(e == all[i as int]);
        let p = word_position(&res, &word);
        if p < res.len() && res[p].0 == word {
            res.set(p, (word, list));
            assert(res.deep_view() =~= before.update(p as int, e));
            assert(words_of(res.deep_view()) =~= words_of(before));
            proof {
                lemma_synonym_map_replace(before, p as int, e);
            }
        } else {
            proof {
                let ws = words_of(before);
                assert forall|j: int| 0 <= j < p implies text_lt(#[trigger] ws[j], e.0) by {
                    assert(ws[j] == before[j].0);
                }
                if p < before.len() {
                    assert(ws[p as int] == before[p as int].0);
                }
                lemma_place_of_new(ws, p as int, e.0);
                lemma_insert_keeps_sorted(ws, p as int, e.0);
                assert(words_of(before.insert(p as int, e)) =~= ws.insert(p as int, e.0));
                assert forall|j: int| 0 <= j < before.len() implies #[trigger] before[j].0
                    != e.0 by {
                    assert(ws[j] == before[j].0);
                    if j < p {
                        lemma_text_lt_irreflexive(e.0);
                    } else {
                        assert(text_lt(e.0, ws[j]));
                        lemma_text_lt_irreflexive(e.0);
                    }
                }
                lemma_synonym_map_insert_new(before, p as int, e);
            }
            res.insert(p, (word, list));
            assert(res.deep_view() =~= before.insert(p as int, e));
        }
        assert(all.take(i + 1).drop_last() =~= all.take(i as int));
    }
    assert(all.take(n as int) =~= all);
    res
}

} // verus!
