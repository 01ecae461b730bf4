//! The operations that the engine offers, by model, as a client generator reads them.

use vstd::prelude::*;
use vstd::std_specs::iter::IteratorSpec;
use vstd::string::*;

verus! {

/// Whether `a` comes before `b` in the order of strings: at the first place where they differ,
/// `a` ends or has the lesser character.
pub open spec fn key_less(a: Seq<char>, b: Seq<char>) -> bool
    decreases a.len(),
{
    if b.len() == 0 {
        false
    } else if a.len() == 0 {
        true
    } else if a[0] != b[0] {
        (a[0] as int) < (b[0] as int)
    } else {
        key_less(a.drop_first(), b.drop_first())
    }
}

/// No string comes before itself.
pub proof fn lemma_key_less_irreflexive(a: Seq<char>)
    ensures
        !key_less(a, a),
    decreases a.len(),
{
    if a.len() > 0 {
        lemma_key_less_irreflexive(a.drop_first());
    }
}

/// Of two different strings one comes before the other.
pub proof fn lemma_key_less_total(a: Seq<char>, b: Seq<char>)
    ensures
        a == b || key_less(a, b) || key_less(b, a),
    decreases a.len(),
{
    if a.len() > 0 && b.len() > 0 {
        if a[0] == b[0] {
            lemma_key_less_total(a.drop_first(), b.drop_first());
            if a.drop_first() == b.drop_first() {
                assert(a =~= seq![a[0]] + a.drop_first());
                assert(b =~= seq![b[0]] + b.drop_first());
            }
        } else {
            assert((a[0] as int) != (b[0] as int));
        }
    } else if a.len() == 0 && b.len() == 0 {
        assert(a =~= b);
    }
}

/// What comes before a string comes before all that the string comes before.
pub proof fn lemma_key_less_transitive(a: Seq<char>, b: Seq<char>, c: Seq<char>)
    requires
        key_less(a, b),
        key_less(b, c),
    ensures
        key_less(a, c),
    decreases a.len(),
{
    if a.len() > 0 && a[0] == b[0] && b[0] == c[0] {
        lemma_key_less_transitive(a.drop_first(), b.drop_first(), c.drop_first());
    }
}

/// Whether `a` comes before `b` in the order of strings.
pub fn string_less(a: &str, b: &str) -> (r: bool)
    ensures
        r == key_less(a@, b@),
{
    broadcast use {axiom_spec_iter, next_postcondition};

    let mut xs = a.chars();
    let mut ys = b.chars();
    loop
        invariant
            key_less(a@, b@) == key_less(xs.remaining(), ys.remaining()),
            xs.decrease() is Some,
        decreases xs.decrease()->0,
    {
        let x = xs.next();
        let y = ys.next();
        match (x, y) {
            (_, None) => {
                return false;
            },
            (None, Some(_)) => {
                return true;
            },
            (Some(c), Some(d)) => {
                if c != d {
                    return c < d;
                }
            },
        }
    }
}

/// Whether the keys of the entries ascend strictly in the order of strings.
pub open spec fn sorted_keys(entries: Seq<(Seq<char>, Seq<char>)>) -> bool {
    forall|i: int, j: int|
        0 <= i < j < entries.len() ==> key_less((#[trigger] entries[i]).0, (#[trigger] entries[j]).0)
}

/// The map that the entries spell out; of two entries with one key the later counts.
pub open spec fn entries_map(entries: Seq<(Seq<char>, Seq<char>)>) -> Map<Seq<char>, Seq<char>>
    decreases entries.len(),
{
    if entries.len() == 0 {
        Map::empty()
    } else {
        entries_map(entries.drop_last()).insert(entries.last().0, entries.last().1)
    }
}

/// The map of entries with ascending keys holds exactly the entries.
pub proof fn lemma_entries_map(entries: Seq<(Seq<char>, Seq<char>)>)
    requires
        sorted_keys(entries),
    ensures
        forall|i: int|
            0 <= i < entries.len() ==> entries_map(entries).contains_pair(
                (#[trigger] entries[i]).0,
                entries[i].1,
            ),
        forall|k: Seq<char>| #[trigger]
            entries_map(entries).dom().contains(k) ==> exists|i: int|
                0 <= i < entries.len() && (#[trigger] entries[i]).0 == k,
    decreases entries.len(),
{
    if entries.len() > 0 {
        let before = entries.drop_last();
        assert(sorted_keys(before)) by {
            assert(forall|i: int| 0 <= i < before.len() ==> before[i] == entries[i]);
        }
        lemma_entries_map(before);
        assert forall|i: int| 0 <= i < entries.len() implies entries_map(entries).contains_pair(
            (#[trigger] entries[i]).0,
            entries[i].1,
        ) by {
            if i < entries.len() - 1 {
                assert(before[i] == entries[i]);
                assert(key_less(entries[i].0, entries.last().0));
                lemma_key_less_irreflexive(entries[i].0);
            }
        }
        assert forall|k: Seq<char>| #[trigger]
            entries_map(entries).dom().contains(k) implies exists|i: int|
            0 <= i < entries.len() && (#[trigger] entries[i]).0 == k by {
            if k == entries.last().0 {
                assert(entries[entries.len() - 1].0 == k);
            } else {
                assert(entries_map(before).dom().contains(k));
                let i = choose|i: int| 0 <= i < before.len() && (#[trigger] before[i]).0 == k;
                assert(entries[i].0 == k);
            }
        }
    }
}

/// Entries with ascending keys spell out the map that holds exactly them.
pub proof fn lemma_same_entries_same_map(
    b: Seq<(Seq<char>, Seq<char>)>,
    expected: Map<Seq<char>, Seq<char>>,
)
    requires
        sorted_keys(b),
        forall|i: int| 0 <= i < b.len() ==> expected.contains_pair((#[trigger] b[i]).0, b[i].1),
        forall|k: Seq<char>| #[trigger]
            expected.dom().contains(k) ==> exists|i: int|
                0 <= i < b.len() && (#[trigger] b[i]).0 == k,
    ensures
        entries_map(b) == expected,
{
    lemma_entries_map(b);
    assert forall|k: Seq<char>| entries_map(b).dom().contains(k) implies expected.dom().contains(
        k,
    ) by {
        let i = choose|i: int| 0 <= i < b.len() && (#[trigger] b[i]).0 == k;
        assert(expected.contains_pair(b[i].0, b[i].1));
    }
    assert forall|k: Seq<char>| expected.dom().contains(k) implies entries_map(b).dom().contains(
        k,
    ) && entries_map(b)[k] == expected[k] by {
        let i = choose|i: int| 0 <= i < b.len() && (#[trigger] b[i]).0 == k;
        assert(entries_map(b).contains_pair(b[i].0, b[i].1));
        assert(expected.contains_pair(b[i].0, b[i].1));
    }
    assert(entries_map(b) =~= expected);
}

/// Puts an entry into entries with ascending keys, in place of the entry with its key if there
/// is one.
pub fn insert_sorted(entries: &mut Vec<(String, String)>, key: String, value: String)
    requires
        sorted_keys(old(entries).deep_view()),
    ensures
        sorted_keys(final(entries).deep_view()),
        entries_map(final(entries).deep_view()) == entries_map(old(entries).deep_view()).insert(
            key@,
            value@,
        ),
{
    let ghost before = entries.deep_view();
    let ghost expected = entries_map(before).insert(key@, value@);
    proof {
        lemma_entries_map(before);
    }
    let mut at: usize = 0;
    while at < entries.len() && string_less(entries[at].0.as_str(), key.as_str())
        invariant
            at <= entries.len(),
            entries.deep_view() == before,
            forall|j: int| 0 <= j < at ==> key_less(before[j].0, key@),
        decreases entries.len() - at,
    {
        at += 1;
    }
    let replace = at < entries.len() && entries[at].0 == key;
    if replace {
        entries.set(at, (key, value));
        let ghost after = entries.deep_view();
        assert(after =~= before.update(at as int, (key@, value@)));
        assert(sorted_keys(after)) by {
            assert forall|i: int, j: int| 0 <= i < j < after.len() implies key_less(
                (#[trigger] after[i]).0,
                (#[trigger] after[j]).0,
            ) by {
                assert(key_less(before[i].0, before[j].0));
            }
        }
        proof {
            assert forall|k: Seq<char>| #[trigger] expected.dom().contains(k) implies exists|
                i: int,
            |
                0 <= i < after.len() && (#[trigger] after[i]).0 == k by {
                if k == key@ {
                    assert(after[at as int].0 == k);
                } else {
                    let i = choose|i: int| 0 <= i < before.len() && (#[trigger] before[i]).0 == k;
                    assert(after[i].0 == k);
                }
            }
            assert forall|i: int| 0 <= i < after.len() implies expected.contains_pair(
                (#[trigger] after[i]).0,
                after[i].1,
            ) by {
                if i != at {
                    assert(entries_map(before).contains_pair(before[i].0, before[i].1));
                    if i < at {
                        assert(key_less(before[i].0, before[at as int].0));
                    } else {
                        assert(key_less(before[at as int].0, before[i].0));
                    }
                    lemma_key_less_irreflexive(key@);
                }
            }
            lemma_same_entries_same_map(after, expected);
        }
    } else {
        entries.insert(at, (key, value));
        let ghost after = entries.deep_view();
        assert(after =~= before.insert(at as int, (key@, value@)));
        proof {
            // Every entry from `at` on comes after the key.
            assert forall|j: int| at <= j < before.len() implies key_less(key@, before[j].0) by {
                lemma_key_less_total(key@, before[at as int].0);
                if j > at {
                    assert(key_less(before[at as int].0, before[j].0));
                    lemma_key_less_transitive(key@, before[at as int].0, before[j].0);
                }
            }
            assert forall|i: int, j: int| 0 <= i < j < after.len() implies key_less(
                (#[trigger] after[i]).0,
                (#[trigger] after[j]).0,
            ) by {
                let oi = if i < at { i } else { i - 1 };
                let oj = if j < at { j } else { j - 1 };
                if i != at && j != at {
                    assert(after[i] == before[oi]);
                    assert(after[j] == before[oj]);
                    assert(key_less(before[oi].0, before[oj].0));
                } else if i == at {
                    assert(after[j] == before[oj]);
                } else {
                    assert(after[i] == before[oi]);
                }
            }
            assert forall|k: Seq<char>| #[trigger] expected.dom().contains(k) implies exists|
                i: int,
            |
                0 <= i < after.len() && (#[trigger] after[i]).0 == k by {
                if k == key@ {
                    assert(after[at as int].0 == k);
                } else {
                    let i = choose|i: int| 0 <= i < before.len() && (#[trigger] before[i]).0 == k;
                    let ni = if i < at { i } else { i + 1 };
                    assert(after[ni] == before[i]);
                }
            }
            assert forall|i: int| 0 <= i < after.len() implies expected.contains_pair(
                (#[trigger] after[i]).0,
                after[i].1,
            ) by {
                if i != at {
                    let oi = if i < at { i } else { i - 1 };
                    assert(after[i] == before[oi]);
                    assert(entries_map(before).contains_pair(before[oi].0, before[oi].1));
                    lemma_key_less_irreflexive(key@);
                }
            }
            lemma_same_entries_same_map(after, expected);
        }
    }
}

/// The read and write operations that belong to no model.
#[derive(Debug, PartialEq, Eq)]
pub struct DmmfNonModelOperations {
    pub read: Vec<String>,
    pub write: Vec<String>,
}

impl Default for DmmfNonModelOperations {
    fn default() -> (r: Self)
        ensures
            r.read@.len() == 0,
            r.write@.len() == 0,
    {
        DmmfNonModelOperations { read: Vec::new(), write: Vec::new() }
    }
}

/// The operations of one model: under the name of each kind of operation, the name of the
/// operation that the engine offers for the model.
#[derive(Debug, PartialEq, Eq)]
pub struct DmmfModelOperations {
    pub model_name: String,
    pub operations: Vec<(String, String)>,
}

/// The mathematical model of a [`DmmfModelOperations`].
pub struct DmmfModelOperationsView {
    pub model_name: Seq<char>,
    pub operations: Map<Seq<char>, Seq<char>>,
}

impl View for DmmfModelOperations {
    type V = DmmfModelOperationsView;

    open spec fn view(&self) -> DmmfModelOperationsView {
        DmmfModelOperationsView {
            model_name: self.model_name@,
            operations: entries_map(self.operations.deep_view()),
        }
    }
}

impl Default for DmmfModelOperations {
    fn default() -> (r: Self)
        ensures
            r@.model_name.len() == 0,
            r@.operations == Map::<Seq<char>, Seq<char>>::empty(),
            r.wf(),
    {
        let r = DmmfModelOperations { model_name: String::new(), operations: Vec::new() };
        assert(r.operations.deep_view() =~= Seq::empty());
        r
    }
}

impl DmmfModelOperations {
    /// The operations are held in the ascending order of their keys.
    pub open spec fn wf(&self) -> bool {
        sorted_keys(self.operations.deep_view())
    }

    /// The operations of a model, none yet.
    pub fn new(model_name: String) -> (r: Self)
        ensures
            r@.model_name == model_name@,
            r@.operations == Map::<Seq<char>, Seq<char>>::empty(),
            r.wf(),
    {
        let r = DmmfModelOperations { model_name, operations: Vec::new() };
        assert(r.operations.deep_view() =~= Seq::empty());
        r
    }

    /// Records the operation `value` under `key`, in place of what was recorded under it.
    pub fn add_operation(&mut self, key: String, value: String)
        requires
            old(self).wf(),
        ensures
            final(self).wf(),
            final(self)@.model_name == old(self)@.model_name,
            final(self)@.operations == old(self)@.operations.insert(key@, value@),
    {
        insert_sorted(&mut self.operations, key, value);
    }

    /// The operations together with the model's name, which stands under the key `model`, in
    /// the ascending order of the keys.
    pub fn finalize(&self) -> (r: Vec<(String, String)>)
        requires
            self.wf(),
        ensures
            sorted_keys(r.deep_view()),
            entries_map(r.deep_view()) == self@.operations.insert("model"@, self@.model_name),
    {
        let mut map: Vec<(String, String)> = Vec::new();
        let mut i: usize = 0;
        while i < self.operations.len()
            invariant
                i <= self.operations.len(),
                map.len() == i,
                forall|j: int|
                    0 <= j < i ==> map[j].0@ == self.operations[j].0@ && map[j].1@
                        == self.operations[j].1@,
            decreases self.operations.len() - i,
        {
            map.push((self.operations[i].0.clone(), self.operations[i].1.clone()));
            i += 1;
        }
        assert(map.deep_view() =~= self.operations.deep_view());
        insert_sorted(&mut map, String::from_str("model"), self.model_name.clone());
        map
    }
}

impl DmmfModelOperations {
    /// The entries in the order in which they are written out: the model's name first, under
    /// the key `model`, then the operations under other keys in the ascending order of the keys.
    pub fn serialization_order(&self) -> (r: Vec<(String, String)>)
        requires
            self.wf(),
        ensures
            r.len() >= 1,
            r.deep_view()[0] == ("model"@, self@.model_name),
            sorted_keys(r.deep_view().skip(1)),
            entries_map(r.deep_view().skip(1)) == self@.operations.remove("model"@),
    {
        let ghost all = self.operations.deep_view();
        let ghost expected = self@.operations.remove("model"@);
        let model = String::from_str("model");
        let mut out: Vec<(String, String)> = Vec::new();
        out.push((String::from_str("model"), self.model_name.clone()));
        // `origin[j]` is the place in `all` of the entry at place `j + 1` of `out`.
        let ghost mut origin: Seq<int> = Seq::empty();
        let mut i: usize = 0;
        while i < self.operations.len()
            invariant
                i <= self.operations.len(),
                all == self.operations.deep_view(),
                model@ == "model"@,
                out.len() == origin.len() + 1,
                out.deep_view()[0] == ("model"@, self@.model_name),
                forall|j: int|
                    0 <= j < origin.len() ==> 0 <= (#[trigger] origin[j]) < i && out.deep_view()[j
                        + 1] == all[origin[j]] && all[origin[j]].0 != "model"@,
                forall|j: int, k: int|
                    0 <= j < k < origin.len() ==> (#[trigger] origin[j]) < (#[trigger] origin[k]),
                forall|a: int|
                    0 <= a < i && (#[trigger] all[a]).0 != "model"@ ==> exists|j: int|
                        0 <= j < origin.len() && (#[trigger] origin[j]) == a,
            decreases self.operations.len() - i,
        {
            if self.operations[i].0 != model {
                let ghost before = out.deep_view();
                let ghost places = origin;
                out.push((self.operations[i].0.clone(), self.operations[i].1.clone()));
                proof {
                    origin = origin.push(i as int);
                    assert(out.deep_view() =~= before.push(all[i as int]));
                    assert forall|a: int|
                        0 <= a < i + 1 && (#[trigger] all[a]).0 != "model"@ implies exists|j: int|
                        0 <= j < origin.len() && (#[trigger] origin[j]) == a by {
                        if a < i {
                            let j = choose|j: int|
                                0 <= j < places.len() && (#[trigger] places[j]) == a;
                            assert(origin[j] == a);
                        } else {
                            assert(origin[places.len() as int] == a);
                        }
                    }
                }
            }
            i += 1;
        }
        proof {
            let rest = out.deep_view().skip(1);
            lemma_entries_map(all);
            assert forall|j: int, k: int| 0 <= j < k < rest.len() implies key_less(
                (#[trigger] rest[j]).0,
                (#[trigger] rest[k]).0,
            ) by {
                assert(rest[j] == all[origin[j]]);
                assert(rest[k] == all[origin[k]]);
                assert(origin[j] < origin[k]);
            }
            assert forall|j: int| 0 <= j < rest.len() implies expected.contains_pair(
                (#[trigger] rest[j]).0,
                rest[j].1,
            ) by {
                assert(rest[j] == all[origin[j]]);
                assert(entries_map(all).contains_pair(all[origin[j]].0, all[origin[j]].1));
            }
            assert forall|k: Seq<char>| #[trigger] expected.dom().contains(k) implies exists|
                j: int,
            |
                0 <= j < rest.len() && (#[trigger] rest[j]).0 == k by {
                let a = choose|a: int| 0 <= a < all.len() && (#[trigger] all[a]).0 == k;
                let j = choose|j: int| 0 <= j < origin.len() && (#[trigger] origin[j]) == a;
                assert(rest[j] == all[origin[j]]);
            }
            lemma_same_entries_same_map(rest, expected);
        }
        out
    }
}

/// The operations of each model, and those that belong to no model.
#[derive(Debug, PartialEq, Eq)]
pub struct DmmfOperationMappings {
    pub model_operations: Vec<DmmfModelOperations>,
    pub other_operations: DmmfNonModelOperations,
}

impl Default for DmmfOperationMappings {
    fn default() -> (r: Self)
        ensures
            r.model_operations@.len() == 0,
            r.other_operations.read@.len() == 0,
            r.other_operations.write@.len() == 0,
    {
        DmmfOperationMappings {
            model_operations: Vec::new(),
            other_operations: DmmfNonModelOperations::default(),
        }
    }
}

} // verus!
