//! A table from names to values that keeps its entries in name order, so that
//! walking it gives the same sequence whatever order the entries came in.
use vstd::prelude::*;

verus! {

/// Lexicographic order of names, character by character.
pub open spec fn name_less(a: Seq<char>, b: Seq<char>) -> bool
    decreases a.len(),
{
    if b.len() == 0 {
        false
    } else if a.len() == 0 {
        true
    } else if a[0] != b[0] {
        (a[0] as int) < (b[0] as int)
    } else {
        name_less(a.drop_first(), b.drop_first())
    }
}

proof fn lemma_name_less_irreflexive(a: Seq<char>)
    ensures
        !name_less(a, a),
    decreases a.len(),
{
    if a.len() > 0 {
        lemma_name_less_irreflexive(a.drop_first());
    }
}

proof fn lemma_name_less_transitive(a: Seq<char>, b: Seq<char>, c: Seq<char>)
    requires
        name_less(a, b),
        name_less(b, c),
    ensures
        name_less(a, c),
    decreases a.len(),
{
    if a.len() > 0 && b.len() > 0 && c.len() > 0 && a[0] == b[0] && b[0] == c[0] {
        lemma_name_less_transitive(a.drop_first(), b.drop_first(), c.drop_first());
    }
}

proof fn lemma_name_less_total(a: Seq<char>, b: Seq<char>)
    ensures
        a == b || name_less(a, b) || name_less(b, a),
    decreases a.len(),
{
    if a.len() == 0 && b.len() == 0 {
        assert(a =~= b);
    } else if a.len() > 0 && b.len() > 0 && a[0] == b[0] {
        lemma_name_less_total(a.drop_first(), b.drop_first());
        if a.drop_first() == b.drop_first() {
            assert(a =~= seq![a[0]] + a.drop_first());
            assert(b =~= seq![b[0]] + b.drop_first());
        }
    }
}

/// Whether `a` comes before `b` in name order.
pub fn is_name_less(a: &str, b: &str) -> (less: bool)
    ensures
        less == name_less(a@, b@),
{
    let mut left = a.chars();
    let mut right = b.chars();
    let mut answer: Option<bool> = None;
    proof {
        assert(vstd::std_specs::iter::IteratorSpec::remaining(&left) == a@);
        assert(vstd::std_specs::iter::IteratorSpec::remaining(&right) == b@);
    }
    let ghost mut fuel: nat = a@.len();
    while answer.is_none()
        invariant
            answer is None ==> name_less(a@, b@) == name_less(vstd::std_specs::iter::IteratorSpec::remaining(&left), vstd::std_specs::iter::IteratorSpec::remaining(&right)),
            answer is Some ==> answer->0 == name_less(a@, b@),
            answer is None ==> fuel == vstd::std_specs::iter::IteratorSpec::remaining(&left).len(),
        decreases (if answer is None { fuel + 1 } else { 0 }),
    {
        match right.next() {
            None => {
                answer = Some(false);
            },
            Some(r) => match left.next() {
                None => {
                    answer = Some(true);
                },
                Some(l) => {
                    if l != r {
                        answer = Some(l < r);
                    } else {
                        proof {
                            fuel = (fuel - 1) as nat;
                        }
                    }
                },
            },
        }
    }
    match answer {
        Some(value) => value,
        None => false,
    }
}

/// Whether two texts are the same.
pub fn same_text(a: &str, b: &str) -> (same: bool)
    ensures
        same == (a@ == b@),
{
    proof {
        lemma_name_less_total(a@, b@);
        lemma_name_less_irreflexive(a@);
    }
    !is_name_less(a, b) && !is_name_less(b, a)
}

/// Entries in strictly increasing name order.
#[derive(Debug)]
pub struct NameTable<V> {
    pub entries: Vec<(String, V)>,
}

/// Whether the names of `entries` strictly increase.
pub open spec fn names_increase<V>(entries: Seq<(String, V)>) -> bool {
    forall|i: int, j: int|
        0 <= i < j < entries.len() ==> name_less(#[trigger] entries[i].0@, #[trigger] entries[j].0@)
}

/// Whether `name` is the name of some entry.
pub open spec fn has_name<V>(entries: Seq<(String, V)>, name: Seq<char>) -> bool {
    exists|i: int| 0 <= i < entries.len() && (#[trigger] entries[i]).0@ == name
}

/// A position of `name` in `entries`.
pub open spec fn name_position<V>(entries: Seq<(String, V)>, name: Seq<char>) -> int {
    choose|i: int| 0 <= i < entries.len() && (#[trigger] entries[i]).0@ == name
}

/// The map that `entries` stand for.
pub open spec fn entries_map<V>(entries: Seq<(String, V)>) -> Map<Seq<char>, V> {
    Map::new(
        |name: Seq<char>| has_name(entries, name),
        |name: Seq<char>| entries[name_position(entries, name)].1,
    )
}

proof fn lemma_entry_value<V>(entries: Seq<(String, V)>, i: int)
    requires
        names_increase(entries),
        0 <= i < entries.len(),
    ensures
        entries_map(entries).dom().contains(entries[i].0@),
        entries_map(entries)[entries[i].0@] == entries[i].1,
{
    let name = entries[i].0@;
    assert(has_name(entries, name));
    let p = name_position(entries, name);
    lemma_name_less_irreflexive(name);
    assert(p == i);
}

/// A name stands at one position only.
pub proof fn lemma_entry_position<V>(entries: Seq<(String, V)>, i: int)
    requires
        names_increase(entries),
        0 <= i < entries.len(),
    ensures
        has_name(entries, entries[i].0@),
        name_position(entries, entries[i].0@) == i,
{
    let name = entries[i].0@;
    assert(has_name(entries, name));
    lemma_name_less_irreflexive(name);
}

proof fn lemma_entry_count<V>(entries: Seq<(String, V)>)
    requires
        names_increase(entries),
    ensures
        entries_map(entries).dom().finite(),
        entries_map(entries).dom().len() == entries.len(),
    decreases entries.len(),
{
    let names = entries_map(entries).dom();
    if entries.len() == 0 {
        assert(names =~= Set::empty());
    } else {
        let rest = entries.drop_last();
        let last = entries.last().0@;
        lemma_entry_count(rest);
        lemma_entry_value(entries, entries.len() - 1);
        lemma_name_less_irreflexive(last);
        let fewer = entries_map(rest).dom();
        assert forall|name: Seq<char>| names.contains(name) == fewer.insert(last).contains(name) by {
            if has_name(entries, name) && name != last {
                let p = name_position(entries, name);
                assert(rest[p].0@ == name);
                assert(has_name(rest, name));
            }
            if has_name(rest, name) {
                let p = name_position(rest, name);
                assert(entries[p].0@ == name);
                assert(has_name(entries, name));
            }
        }
        assert(names =~= fewer.insert(last));
        if has_name(rest, last) {
            let p = name_position(rest, last);
            assert(name_less(entries[p].0@, entries[entries.len() - 1].0@));
        }
        assert(!fewer.contains(last));
    }
}

impl<V> View for NameTable<V> {
    type V = Map<Seq<char>, V>;

    open spec fn view(&self) -> Map<Seq<char>, V> {
        entries_map(self.entries@)
    }
}

impl<V> NameTable<V> {
    /// Names strictly increase, so each occurs once.
    pub open spec fn wf(&self) -> bool {
        names_increase(self.entries@)
    }

    /// A table without entries.
    pub fn new() -> (table: Self)
        ensures
            table.wf(),
            table@ == Map::<Seq<char>, V>::empty(),
    {
        let table = NameTable { entries: Vec::new() };
        proof {
            assert(table@ =~= Map::<Seq<char>, V>::empty());
        }
        table
    }

    /// The number of entries.
    pub fn len(&self) -> (n: usize)
        requires
            self.wf(),
        ensures
            n == self@.dom().len(),
            n == self.entries@.len(),
    {
        proof {
            lemma_entry_count(self.entries@);
        }
        self.entries.len()
    }

    /// How many names come before `name`.
    fn rank(&self, name: &str) -> (at: usize)
        requires
            self.wf(),
        ensures
            at <= self.entries@.len(),
            forall|i: int| 0 <= i < at ==> name_less(#[trigger] self.entries@[i].0@, name@),
            forall|i: int|
                at <= i < self.entries@.len() ==> !name_less(#[trigger] self.entries@[i].0@, name@),
    {
        let mut lo: usize = 0;
        let mut hi: usize = self.entries.len();
        while lo < hi
            invariant
                self.wf(),
                lo <= hi <= self.entries@.len(),
                forall|i: int| 0 <= i < lo ==> name_less(#[trigger] self.entries@[i].0@, name@),
                forall|i: int|
                    hi <= i < self.entries@.len() ==> !name_less(
                        #[trigger] self.entries@[i].0@,
                        name@,
                    ),
            decreases hi - lo,
        {
            let mid: usize = lo + (hi - lo) / 2;
            let ghost pivot = self.entries@[mid as int].0@;
            if is_name_less(self.entries[mid].0.as_str(), name) {
                proof {
                    assert forall|i: int| 0 <= i < mid + 1 implies name_less(
                        #[trigger] self.entries@[i].0@,
                        name@,
                    ) by {
                        if i < mid {
                            lemma_name_less_transitive(self.entries@[i].0@, pivot, name@);
                        }
                    }
                }
                lo = mid + 1;
            } else {
                proof {
                    assert forall|i: int| mid <= i < self.entries@.len() implies !name_less(
                        #[trigger] self.entries@[i].0@,
                        name@,
                    ) by {
                        if i > mid && name_less(self.entries@[i].0@, name@) {
                            lemma_name_less_transitive(pivot, self.entries@[i].0@, name@);
                        }
                    }
                }
                hi = mid;
            }
        }
        lo
    }

    /// The value under `name`.
    pub fn get(&self, name: &str) -> (value: Option<&V>)
        requires
            self.wf(),
        ensures
            value == (if self@.dom().contains(name@) {
                Some(&self@[name@])
            } else {
                None
            }),
    {
        let at = self.rank(name);
        if at < self.entries.len() && !is_name_less(name, self.entries[at].0.as_str()) {
            proof {
                lemma_name_less_total(self.entries@[at as int].0@, name@);
                lemma_entry_value(self.entries@, at as int);
            }
            Some(&self.entries[at].1)
        } else {
            proof {
                if has_name(self.entries@, name@) {
                    let p = name_position(self.entries@, name@);
                    lemma_name_less_irreflexive(name@);
                    assert(p >= at);
                    if p > at {
                        assert(name_less(self.entries@[at as int].0@, name@));
                    }
                }
            }
            None
        }
    }

    /// Whether `name` has a value.
    pub fn contains(&self, name: &str) -> (found: bool)
        requires
            self.wf(),
        ensures
            found == self@.dom().contains(name@),
    {
        self.get(name).is_some()
    }

    /// Puts `value` under `name`, in place of what stood there.
    pub fn insert(&mut self, name: String, value: V)
        requires
            old(self).wf(),
        ensures
            final(self).wf(),
            final(self)@ == old(self)@.insert(name@, value),
    {
        let at = self.rank(name.as_str());
        let ghost before = self.entries@;
        if at < self.entries.len() && !is_name_less(name.as_str(), self.entries[at].0.as_str()) {
            proof {
                lemma_name_less_total(before[at as int].0@, name@);
            }
            let ghost entry = (name, value);
            self.entries.set(at, (name, value));
            proof {
                let after = self.entries@;
                assert(names_increase(after));
                lemma_insert_at(before, after, at as int, entry);
            }
        } else {
            let ghost entry = (name, value);
            proof {
                assert forall|i: int| at <= i < before.len() implies name_less(
                    name@,
                    #[trigger] before[i].0@,
                ) by {
                    if i > at {
                        lemma_name_less_transitive(name@, before[at as int].0@, before[i].0@);
                    }
                }
            }
            self.entries.insert(at, (name, value));
            proof {
                let after = self.entries@;
                assert forall|i: int, j: int| 0 <= i < j < after.len() implies name_less(
                    #[trigger] after[i].0@,
                    #[trigger] after[j].0@,
                ) by {
                    let bi = if i < at { i } else { i - 1 };
                    let bj = if j < at { j } else { j - 1 };
                    if i != at && j != at {
                        assert(name_less(before[bi].0@, before[bj].0@));
                    } else if i == at {
                        assert(name_less(entry.0@, before[bj].0@));
                    } else {
                        assert(name_less(before[bi].0@, entry.0@));
                    }
                }
                lemma_insert_at(before, after, at as int, entry);
            }
        }
    }
}

/// Putting `entry` at `at`, over an entry of its name or between others, adds
/// exactly that name to the map.
proof fn lemma_insert_at<V>(
    before: Seq<(String, V)>,
    after: Seq<(String, V)>,
    at: int,
    entry: (String, V),
)
    requires
        names_increase(before),
        names_increase(after),
        0 <= at <= before.len(),
        after == before.insert(at, entry) || (at < before.len() && before[at].0@ == entry.0@
            && after == before.update(at, entry)),
    ensures
        entries_map(after) == entries_map(before).insert(entry.0@, entry.1),
{
    let shifted = after == before.insert(at, entry);
    let left = entries_map(after);
    let right = entries_map(before).insert(entry.0@, entry.1);
    assert forall|name: Seq<char>| left.dom().contains(name) == right.dom().contains(name) by {
        if has_name(after, name) {
            let p = name_position(after, name);
            if p != at {
                let q = if shifted && p > at { p - 1 } else { p };
                assert(before[q] == after[p]);
                assert(has_name(before, name));
            }
        }
        if has_name(before, name) {
            let p = name_position(before, name);
            let q = if shifted && p >= at { p + 1 } else { p };
            assert(after[q].0@ == name);
            assert(has_name(after, name));
        }
        if name == entry.0@ {
            assert(after[at].0@ == name);
            assert(has_name(after, name));
        }
    }
    assert forall|name: Seq<char>| left.dom().contains(name) implies left[name] == right[name] by {
        let p = name_position(after, name);
        if p == at {
            assert(name == entry.0@);
        } else {
            let q = if shifted && p > at { p - 1 } else { p };
            assert(before[q] == after[p]);
            lemma_entry_value(before, q);
            lemma_name_less_irreflexive(name);
            assert(after[at].0@ != name);
        }
    }
    assert(left =~= right);
}

/// Two tables with the same names hold them in the same order.
pub proof fn lemma_same_names<V>(
    a: Seq<(String, V)>,
    b: Seq<(String, V)>,
    names: spec_fn(Seq<char>) -> bool,
)
    requires
        names_increase(a),
        names_increase(b),
        forall|name: Seq<char>| #[trigger] has_name(a, name) == names(name),
        forall|name: Seq<char>| #[trigger] has_name(b, name) == names(name),
    ensures
        a.len() == b.len(),
        forall|i: int| 0 <= i < a.len() ==> (#[trigger] a[i]).0@ == b[i].0@,
{
    lemma_same_prefix(a, b, names, a.len());
    lemma_same_prefix(b, a, names, b.len());
}

/// Two tables with the same names and values hold the same entries in the same
/// order, by name and value.
pub proof fn law_order_is_canonical<V>(a: NameTable<V>, b: NameTable<V>)
    requires
        a.wf(),
        b.wf(),
        a@ == b@,
    ensures
        a.entries@.len() == b.entries@.len(),
        forall|i: int|
            0 <= i < a.entries@.len() ==> (#[trigger] a.entries@[i]).0@ == b.entries@[i].0@
                && a.entries@[i].1 == b.entries@[i].1,
{
    assert forall|name: Seq<char>| #[trigger] has_name(a.entries@, name) == a@.dom().contains(
        name,
    ) by {}
    assert forall|name: Seq<char>| #[trigger] has_name(b.entries@, name) == a@.dom().contains(
        name,
    ) by {
        assert(b@.dom().contains(name) == has_name(b.entries@, name));
    }
    lemma_same_names(a.entries@, b.entries@, |name: Seq<char>| a@.dom().contains(name));
    assert forall|i: int| 0 <= i < a.entries@.len() implies a.entries@[i].1 == b.entries@[i].1 by {
        lemma_entry_value(a.entries@, i);
        lemma_entry_value(b.entries@, i);
    }
}

/// The first `n` names of `a` are the first `n` names of `b`.
proof fn lemma_same_prefix<V>(
    a: Seq<(String, V)>,
    b: Seq<(String, V)>,
    names: spec_fn(Seq<char>) -> bool,
    n: nat,
)
    requires
        names_increase(a),
        names_increase(b),
        forall|name: Seq<char>| #[trigger] has_name(a, name) == names(name),
        forall|name: Seq<char>| #[trigger] has_name(b, name) == names(name),
        n <= a.len(),
    ensures
        n <= b.len(),
        forall|i: int| 0 <= i < n ==> (#[trigger] a[i]).0@ == b[i].0@,
    decreases n,
{
    if n > 0 {
        lemma_same_prefix(a, b, names, (n - 1) as nat);
        let last = n - 1;
        let name = a[last].0@;
        lemma_entry_position(a, last);
        assert(has_name(b, name));
        let p = name_position(b, name);
        lemma_name_less_irreflexive(name);
        if p < last {
            assert(a[p].0@ == b[p].0@);
            assert(name_less(a[p].0@, a[last].0@));
        }
        if p > last {
            let other = b[last].0@;
            lemma_entry_position(b, last);
            assert(has_name(a, other));
            let q = name_position(a, other);
            assert(name_less(other, name));
            if q < last {
                assert(a[q].0@ == b[q].0@);
                assert(name_less(b[q].0@, b[last].0@));
                lemma_name_less_irreflexive(other);
            } else if q > last {
                assert(name_less(name, other));
                lemma_name_less_transitive(name, other, name);
            } else {
                lemma_name_less_irreflexive(other);
            }
        }
    }
}

/// Names are ordered as texts are: by the first character in which they differ, and a
/// beginning before what it begins.
pub proof fn law_names_are_ordered_as_texts(a: Seq<char>, b: Seq<char>, n: nat)
    requires
        n <= a.len(),
        n <= b.len(),
        forall|i: int| 0 <= i < n ==> #[trigger] a[i] == b[i],
    ensures
        n == a.len() && n < b.len() ==> name_less(a, b) && !name_less(b, a),
        n < a.len() && n < b.len() && (a[n as int] as int) < (b[n as int] as int) ==> name_less(a, b)
            && !name_less(b, a),
        a == b ==> !name_less(a, b),
    decreases n,
{
    if a == b {
        lemma_name_less_irreflexive(a);
    }
    if n > 0 {
        let x = a.drop_first();
        let y = b.drop_first();
        assert(a[0] == b[0]);
        assert forall|i: int| 0 <= i < n - 1 implies #[trigger] x[i] == y[i] by {
            assert(x[i] == a[i + 1] && y[i] == b[i + 1]);
        }
        law_names_are_ordered_as_texts(x, y, (n - 1) as nat);
        if n < a.len() && n < b.len() {
            assert(x[n - 1] == a[n as int] && y[n - 1] == b[n as int]);
        }
    }
}

} // verus!
