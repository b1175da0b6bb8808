use vstd::prelude::*;
use crate::name_order::{compare_names, lemma_name_lt_strict, name_lt, NameOrder};

verus! {

/// A field as the contracts see it: its name and its rendered value.
pub type FieldView = (Seq<char>, Seq<char>);

/// The names stand in strictly ascending order, so none occurs twice.
pub open spec fn ascending(fields: Seq<FieldView>) -> bool {
    forall|i: int, j: int|
        0 <= i < j < fields.len() ==> name_lt((#[trigger] fields[i]).0, (#[trigger] fields[j]).0)
}

/// Whether some field of the sequence has the name.
pub open spec fn has_name(fields: Seq<FieldView>, name: Seq<char>) -> bool {
    exists|i: int| 0 <= i < fields.len() && (#[trigger] fields[i]).0 == name
}

/// A place at which the name stands, where it stands anywhere.
pub open spec fn place_of(fields: Seq<FieldView>, name: Seq<char>) -> int {
    choose|i: int| 0 <= i < fields.len() && (#[trigger] fields[i]).0 == name
}

/// The mapping from names to values that a sequence of fields stands for.
pub open spec fn map_of(fields: Seq<FieldView>) -> Map<Seq<char>, Seq<char>> {
    Map::new(|name: Seq<char>| has_name(fields, name), |name: Seq<char>| fields[place_of(fields, name)].1)
}

/// In an ascending sequence a name stands at one place only, and the
/// mapping has the value found there.
pub proof fn lemma_map_of_at(fields: Seq<FieldView>, i: int)
    requires
        ascending(fields),
        0 <= i < fields.len(),
    ensures
        map_of(fields).contains_key(fields[i].0),
        map_of(fields)[fields[i].0] == fields[i].1,
{
    let name = fields[i].0;
    let p = place_of(fields, name);
    assert(has_name(fields, name));
    if p < i {
        lemma_name_lt_strict(fields[p].0, fields[i].0, fields[i].0);
    } else if i < p {
        lemma_name_lt_strict(fields[i].0, fields[p].0, fields[p].0);
    }
}

/// Putting a new name at its place in an ascending sequence keeps the
/// sequence ascending and adds the field to the mapping.
pub proof fn lemma_insert_at(fields: Seq<FieldView>, at: int, field: FieldView)
    requires
        ascending(fields),
        0 <= at <= fields.len(),
        forall|j: int| 0 <= j < at ==> name_lt((#[trigger] fields[j]).0, field.0),
        at < fields.len() ==> name_lt(field.0, fields[at].0),
    ensures
        ascending(fields.insert(at, field)),
        map_of(fields.insert(at, field)) == map_of(fields).insert(field.0, field.1),
{
    let after = fields.insert(at, field);
    assert forall|j: int| at <= j < fields.len() implies name_lt(field.0, (#[trigger] fields[j]).0) by {
        if at < j {
            lemma_name_lt_strict(field.0, fields[at].0, fields[j].0);
        }
    }
    assert forall|i: int, j: int| 0 <= i < j < after.len() implies name_lt(
        (#[trigger] after[i]).0,
        (#[trigger] after[j]).0,
    ) by {
        if i < at && j > at {
            assert(after[i] == fields[i]);
            assert(after[j] == fields[j - 1]);
        } else if i < at && j < at {
            assert(after[i] == fields[i]);
            assert(after[j] == fields[j]);
        } else if i > at {
            assert(after[i] == fields[i - 1]);
            assert(after[j] == fields[j - 1]);
        } else if i == at {
            assert(after[j] == fields[j - 1]);
        } else {
            assert(after[i] == fields[i]);
        }
    }
    let want = map_of(fields).insert(field.0, field.1);
    assert forall|name: Seq<char>| map_of(after).contains_key(name) == want.contains_key(name) by {
        if has_name(after, name) {
            let p = place_of(after, name);
            if p < at {
                assert(after[p] == fields[p]);
            } else if p > at {
                assert(after[p] == fields[p - 1]);
            }
        }
        if has_name(fields, name) {
            let p = place_of(fields, name);
            if p < at {
                assert(after[p] == fields[p]);
            } else {
                assert(after[p + 1] == fields[p]);
            }
        }
        if name == field.0 {
            assert(after[at] == field);
        }
    }
    assert forall|name: Seq<char>| map_of(after).contains_key(name) implies map_of(after)[name]
        == want[name] by {
        let p = place_of(after, name);
        lemma_map_of_at(after, p);
        if p < at {
            assert(after[p] == fields[p]);
            lemma_map_of_at(fields, p);
            lemma_name_lt_strict(fields[p].0, field.0, field.0);
        } else if p > at {
            assert(after[p] == fields[p - 1]);
            lemma_map_of_at(fields, p - 1);
            lemma_name_lt_strict(field.0, fields[p - 1].0, field.0);
        }
    }
    assert(map_of(after) =~= want);
}

/// Replacing the value at a place keeps the sequence ascending and
/// overwrites the name's value in the mapping.
pub proof fn lemma_update_at(fields: Seq<FieldView>, at: int, value: Seq<char>)
    requires
        ascending(fields),
        0 <= at < fields.len(),
    ensures
        ascending(fields.update(at, (fields[at].0, value))),
        map_of(fields.update(at, (fields[at].0, value))) == map_of(fields).insert(
            fields[at].0,
            value,
        ),
{
    let name = fields[at].0;
    let after = fields.update(at, (name, value));
    assert forall|i: int, j: int| 0 <= i < j < after.len() implies name_lt(
        (#[trigger] after[i]).0,
        (#[trigger] after[j]).0,
    ) by {
        assert(after[i].0 == fields[i].0);
        assert(after[j].0 == fields[j].0);
    }
    let want = map_of(fields).insert(name, value);
    assert forall|n: Seq<char>| map_of(after).contains_key(n) == want.contains_key(n) by {
        if has_name(after, n) {
            let p = place_of(after, n);
            assert(after[p].0 == fields[p].0);
        }
        if has_name(fields, n) {
            let p = place_of(fields, n);
            assert(after[p].0 == fields[p].0);
        }
        lemma_map_of_at(fields, at);
    }
    assert forall|n: Seq<char>| map_of(after).contains_key(n) implies map_of(after)[n]
        == want[n] by {
        let p = place_of(after, n);
        lemma_map_of_at(after, p);
        if p != at {
            assert(after[p] == fields[p]);
            lemma_map_of_at(fields, p);
            if p < at {
                lemma_name_lt_strict(fields[p].0, fields[at].0, fields[at].0);
            } else {
                lemma_name_lt_strict(fields[at].0, fields[p].0, fields[p].0);
            }
        }
    }
    assert(map_of(after) =~= want);
}

/// The fields of a span or of an event: rendered values by name, kept in
/// the order of names.
#[derive(Debug)]
pub struct FieldMap {
    entries: Vec<(String, String)>,
}

impl View for FieldMap {
    type V = Map<Seq<char>, Seq<char>>;

    closed spec fn view(&self) -> Map<Seq<char>, Seq<char>> {
        map_of(self.fields())
    }
}

impl FieldMap {
    /// The fields in the order in which they are kept.
    pub closed spec fn fields(&self) -> Seq<FieldView> {
        self.entries@.map_values(|e: (String, String)| (e.0@, e.1@))
    }

    #[verifier::type_invariant]
    spec fn in_order(self) -> bool {
        ascending(self.fields())
    }

    /// A map without fields.
    pub fn new() -> (r: Self)
        ensures
            r@ == Map::<Seq<char>, Seq<char>>::empty(),
            r.fields() == Seq::<FieldView>::empty(),
    {
        let r = FieldMap { entries: Vec::new() };
        assert(r.fields() =~= Seq::<FieldView>::empty());
        assert(r@ =~= Map::<Seq<char>, Seq<char>>::empty());
        r
    }

    /// The number of fields.
    pub fn len(&self) -> (n: usize)
        ensures
            n == self.fields().len(),
            n == self@.len(),
            self@.dom().finite(),
    {
        proof {
            use_type_invariant(self);
            lemma_map_of_len(self.fields());
        }
        self.entries.len()
    }

    /// The name and the value of the field at a place of the kept order.
    pub fn entry(&self, i: usize) -> (r: (&str, &str))
        requires
            i < self.fields().len(),
        ensures
            r.0@ == self.fields()[i as int].0,
            r.1@ == self.fields()[i as int].1,
            ascending(self.fields()),
            self@ == map_of(self.fields()),
    {
        proof {
            use_type_invariant(self);
        }
        (self.entries[i].0.as_str(), self.entries[i].1.as_str())
    }

    /// The place of `name` in the kept order, or the place at which it
    /// would have to stand.
    fn locate(&self, name: &str) -> (r: (usize, bool))
        ensures
            r.0 <= self.fields().len(),
            forall|j: int| 0 <= j < r.0 ==> name_lt((#[trigger] self.fields()[j]).0, name@),
            r.1 ==> r.0 < self.fields().len() && self.fields()[r.0 as int].0 == name@,
            !r.1 && r.0 < self.fields().len() ==> name_lt(name@, self.fields()[r.0 as int].0),
            r.1 == self@.contains_key(name@),
    {
        proof {
            use_type_invariant(self);
        }
        let mut i: usize = 0;
        while i < self.entries.len()
            invariant
                i <= self.entries.len(),
                ascending(self.fields()),
                forall|j: int| 0 <= j < i ==> name_lt((#[trigger] self.fields()[j]).0, name@),
            decreases self.entries.len() - i,
        {
            match compare_names(self.entries[i].0.as_str(), name) {
                NameOrder::Before => {},
                NameOrder::Same => {
                    assert(self.fields()[i as int].0 == name@);
                    return (i, true);
                },
                NameOrder::After => {
                    proof {
                        lemma_absent(self.fields(), i as int, name@);
                    }
                    return (i, false);
                },
            }
            i += 1;
        }
        proof {
            lemma_absent(self.fields(), i as int, name@);
        }
        (i, false)
    }

    /// The value recorded under `name`, if there is one.
    pub fn get(&self, name: &str) -> (r: Option<&str>)
        ensures
            r is Some <==> self@.contains_key(name@),
            r is Some ==> r->0@ == self@[name@],
    {
        proof {
            use_type_invariant(self);
        }
        let (at, found) = self.locate(name);
        if found {
            proof {
                lemma_map_of_at(self.fields(), at as int);
            }
            Some(self.entries[at].1.as_str())
        } else {
            None
        }
    }

    /// Whether a value is recorded under `name`.
    pub fn contains_key(&self, name: &str) -> (r: bool)
        ensures
            r == self@.contains_key(name@),
    {
        let (_, found) = self.locate(name);
        found
    }

    /// Sets the value of `name`, replacing the one it had.
    pub fn insert(&mut self, name: &str, value: &str)
        ensures
            final(self)@ == old(self)@.insert(name@, value@),
    {
        proof {
            use_type_invariant(&*self);
        }
        let (at, found) = self.locate(name);
        let ghost before = self.fields();
        let mut entries: Vec<(String, String)> = Vec::new();
        core::mem::swap(&mut self.entries, &mut entries);
        if found {
            entries.set(at, (name.to_owned(), value.to_owned()));
            proof {
                lemma_update_at(before, at as int, value@);
                assert(entries@.map_values(|e: (String, String)| (e.0@, e.1@)) =~= before.update(
                    at as int,
                    (before[at as int].0, value@),
                ));
            }
        } else {
            entries.insert(at, (name.to_owned(), value.to_owned()));
            proof {
                lemma_insert_at(before, at as int, (name@, value@));
                assert(entries@.map_values(|e: (String, String)| (e.0@, e.1@)) =~= before.insert(
                    at as int,
                    (name@, value@),
                ));
            }
        }
        core::mem::swap(&mut self.entries, &mut entries);
    }

    /// Records a value under `name` unless the name has one already: the
    /// first value recorded for a name stays.
    pub fn record(&mut self, name: &str, value: &str)
        ensures
            final(self)@ == if old(self)@.contains_key(name@) {
                old(self)@
            } else {
                old(self)@.insert(name@, value@)
            },
    {
        let (_, found) = self.locate(name);
        if !found {
            self.insert(name, value);
        }
    }

    /// Puts every field of `other` into this map; where both have a name,
    /// the value of `other` replaces the one here.
    pub fn extend(&mut self, other: &FieldMap)
        ensures
            final(self)@ == old(self)@.union_prefer_right(other@),
    {
        proof {
            use_type_invariant(other);
        }
        let n = other.len();
        let mut i: usize = 0;
        assert(other.fields().take(0) =~= Seq::<FieldView>::empty());
        assert(map_of(Seq::<FieldView>::empty()) =~= Map::<Seq<char>, Seq<char>>::empty());
        assert(self@ =~= old(self)@.union_prefer_right(map_of(other.fields().take(0))));
        while i < n
            invariant
                i <= n,
                n == other.fields().len(),
                ascending(other.fields()),
                self@ == old(self)@.union_prefer_right(map_of(other.fields().take(i as int))),
            decreases n - i,
        {
            let (name, value) = other.entry(i);
            let ghost mid = self@;
            self.insert(name, value);
            proof {
                lemma_take_next(other.fields(), i as int);
                assert(mid.insert(name@, value@) =~= old(self)@.union_prefer_right(
                    map_of(other.fields().take(i as int)).insert(name@, value@),
                ));
            }
            i += 1;
        }
        assert(other.fields().take(n as int) =~= other.fields());
    }

    /// The map that recording the given fields one after another gives: of
    /// several values for one name the first stays.
    pub fn from_records(records: &Vec<(String, String)>) -> (r: Self)
        ensures
            r@ == first_wins(records@.map_values(|e: (String, String)| (e.0@, e.1@))),
    {
        let ghost all = records@.map_values(|e: (String, String)| (e.0@, e.1@));
        let mut r = FieldMap::new();
        let mut i: usize = 0;
        assert(all.take(0) =~= Seq::<FieldView>::empty());
        while i < records.len()
            invariant
                i <= records.len(),
                all == records@.map_values(|e: (String, String)| (e.0@, e.1@)),
                r@ == first_wins(all.take(i as int)),
            decreases records.len() - i,
        {
            r.record(records[i].0.as_str(), records[i].1.as_str());
            proof {
                assert(all.take(i + 1).drop_last() =~= all.take(i as int));
                assert(all.take(i + 1).last() == all[i as int]);
            }
            i += 1;
        }
        assert(all.take(i as int) =~= all);
        r
    }
}

impl Clone for FieldMap {
    fn clone(&self) -> (r: Self)
        ensures
            r@ == self@,
            r.fields() == self.fields(),
    {
        proof {
            use_type_invariant(self);
        }
        let mut entries: Vec<(String, String)> = Vec::new();
        let mut i: usize = 0;
        while i < self.entries.len()
            invariant
                i <= self.entries.len(),
                entries@.len() == i,
                forall|j: int| 0 <= j < i ==> entries@[j] == self.entries@[j],
            decreases self.entries.len() - i,
        {
            entries.push((self.entries[i].0.clone(), self.entries[i].1.clone()));
            i += 1;
        }
        assert(entries@ =~= self.entries@);
        FieldMap { entries }
    }
}

/// The mapping that recording the fields one after another gives, where a
/// name keeps the first value recorded for it.
pub open spec fn first_wins(records: Seq<FieldView>) -> Map<Seq<char>, Seq<char>>
    decreases records.len(),
{
    if records.len() == 0 {
        Map::empty()
    } else {
        let before = first_wins(records.drop_last());
        let field = records.last();
        if before.contains_key(field.0) {
            before
        } else {
            before.insert(field.0, field.1)
        }
    }
}

/// The fields visible in a scope: the stores of the enclosing spans laid
/// over one another from the outermost to the innermost, so that an inner
/// span's value replaces an outer one's.
pub open spec fn merged(chain: Seq<Map<Seq<char>, Seq<char>>>) -> Map<Seq<char>, Seq<char>>
    decreases chain.len(),
{
    if chain.len() == 0 {
        Map::empty()
    } else {
        merged(chain.drop_last()).union_prefer_right(chain.last())
    }
}

/// The fields of an event: those of its scope, with the event's own fields
/// laid over them.
pub open spec fn aggregate(
    chain: Seq<Map<Seq<char>, Seq<char>>>,
    own: Map<Seq<char>, Seq<char>>,
) -> Map<Seq<char>, Seq<char>> {
    merged(chain).union_prefer_right(own)
}

/// The place of the innermost span of a scope that has the name, or -1
/// where no span has it.
pub open spec fn innermost_with(chain: Seq<Map<Seq<char>, Seq<char>>>, name: Seq<char>) -> int
    decreases chain.len(),
{
    if chain.len() == 0 {
        -1
    } else if chain.last().contains_key(name) {
        chain.len() - 1
    } else {
        innermost_with(chain.drop_last(), name)
    }
}

/// A name is visible in a scope exactly when a span of the scope has it,
/// and its value is that of the innermost span that has it.
pub proof fn lemma_innermost_wins(chain: Seq<Map<Seq<char>, Seq<char>>>, name: Seq<char>)
    ensures
        -1 <= innermost_with(chain, name) < chain.len(),
        forall|j: int|
            innermost_with(chain, name) < j < chain.len() ==> !(#[trigger] chain[j]).contains_key(
                name,
            ),
        innermost_with(chain, name) >= 0 ==> chain[innermost_with(chain, name)].contains_key(name)
            && merged(chain).contains_key(name) && merged(chain)[name] == chain[innermost_with(
            chain,
            name,
        )][name],
        innermost_with(chain, name) < 0 ==> !merged(chain).contains_key(name),
    decreases chain.len(),
{
    if chain.len() > 0 {
        let front = chain.drop_last();
        lemma_innermost_wins(front, name);
        if !chain.last().contains_key(name) {
            let i = innermost_with(front, name);
            assert forall|j: int| i < j < chain.len() implies !(#[trigger] chain[j]).contains_key(
                name,
            ) by {
                if j < front.len() {
                    assert(front[j] == chain[j]);
                }
            }
            if i >= 0 {
                assert(front[i] == chain[i]);
            }
        }
    }
}

/// Of the fields an event sees, a name that the event gives itself has the
/// event's value, whatever the spans around it hold; every other name is
/// as the scope has it.
pub proof fn lemma_event_fields_win(
    chain: Seq<Map<Seq<char>, Seq<char>>>,
    own: Map<Seq<char>, Seq<char>>,
    name: Seq<char>,
)
    ensures
        aggregate(chain, own).contains_key(name) <==> own.contains_key(name) || merged(
            chain,
        ).contains_key(name),
        own.contains_key(name) ==> aggregate(chain, own)[name] == own[name],
        !own.contains_key(name) && merged(chain).contains_key(name) ==> aggregate(chain, own)[name]
            == merged(chain)[name],
{
}

/// The mappings of a sequence of stores.
pub open spec fn views_of(chain: Seq<&FieldMap>) -> Seq<Map<Seq<char>, Seq<char>>> {
    chain.map_values(|store: &FieldMap| store@)
}

/// Merges the stores of a scope, given from the outermost span to the
/// innermost, and lays the event's own fields over them.
pub fn aggregate_fields(chain: &Vec<&FieldMap>, own: &FieldMap) -> (r: FieldMap)
    ensures
        r@ == aggregate(views_of(chain@), own@),
{
    let ghost maps = views_of(chain@);
    let mut r = FieldMap::new();
    let mut i: usize = 0;
    assert(maps.take(0) =~= Seq::<Map<Seq<char>, Seq<char>>>::empty());
    while i < chain.len()
        invariant
            i <= chain.len(),
            maps == views_of(chain@),
            r@ == merged(maps.take(i as int)),
        decreases chain.len() - i,
    {
        r.extend(chain[i]);
        proof {
            assert(maps.take(i + 1).drop_last() =~= maps.take(i as int));
            assert(maps.take(i + 1).last() == chain@[i as int]@);
        }
        i += 1;
    }
    assert(maps.take(i as int) =~= maps);
    r.extend(own);
    r
}

/// The first `i + 1` fields of an ascending sequence stand for the mapping
/// of the first `i` with the next field added.
pub proof fn lemma_take_next(fields: Seq<FieldView>, i: int)
    requires
        ascending(fields),
        0 <= i < fields.len(),
    ensures
        map_of(fields.take(i + 1)) == map_of(fields.take(i)).insert(fields[i].0, fields[i].1),
{
    let front = fields.take(i);
    assert forall|a: int, b: int| 0 <= a < b < front.len() implies name_lt(
        (#[trigger] front[a]).0,
        (#[trigger] front[b]).0,
    ) by {
        assert(front[a] == fields[a]);
        assert(front[b] == fields[b]);
    }
    assert forall|j: int| 0 <= j < i implies name_lt((#[trigger] front[j]).0, fields[i].0) by {
        assert(front[j] == fields[j]);
    }
    lemma_insert_at(front, i, fields[i]);
    assert(front.insert(i, fields[i]) =~= fields.take(i + 1));
}

/// A name that stands after every field before `at`, and before the field
/// at `at` where there is one, is not in an ascending sequence.
pub proof fn lemma_absent(fields: Seq<FieldView>, at: int, name: Seq<char>)
    requires
        ascending(fields),
        0 <= at <= fields.len(),
        forall|j: int| 0 <= j < at ==> name_lt((#[trigger] fields[j]).0, name),
        at < fields.len() ==> name_lt(name, fields[at].0),
    ensures
        !map_of(fields).contains_key(name),
{
    if has_name(fields, name) {
        let p = place_of(fields, name);
        if p < at {
            lemma_name_lt_strict(fields[p].0, name, name);
        } else if p == at {
            lemma_name_lt_strict(name, fields[at].0, name);
        } else {
            lemma_name_lt_strict(name, fields[at].0, fields[p].0);
            lemma_name_lt_strict(name, fields[p].0, name);
        }
    }
}

/// An ascending sequence stands for a finite mapping with as many names as
/// the sequence has fields.
pub proof fn lemma_map_of_len(fields: Seq<FieldView>)
    requires
        ascending(fields),
    ensures
        map_of(fields).dom().finite(),
        map_of(fields).len() == fields.len(),
    decreases fields.len(),
{
    if fields.len() == 0 {
        assert(map_of(fields) =~= Map::<Seq<char>, Seq<char>>::empty());
    } else {
        let front = fields.drop_last();
        let last = fields.last();
        assert forall|i: int, j: int| 0 <= i < j < front.len() implies name_lt(
            (#[trigger] front[i]).0,
            (#[trigger] front[j]).0,
        ) by {
            assert(front[i] == fields[i]);
            assert(front[j] == fields[j]);
        }
        lemma_map_of_len(front);
        assert forall|j: int| 0 <= j < front.len() implies name_lt(
            (#[trigger] front[j]).0,
            last.0,
        ) by {
            assert(front[j] == fields[j]);
        }
        lemma_insert_at(front, front.len() as int, last);
        lemma_absent(front, front.len() as int, last.0);
        assert(front.insert(front.len() as int, last) =~= fields);
    }
}

} // verus!
