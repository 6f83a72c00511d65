//! A case-insensitive multimap of header names to their values.
use vstd::prelude::*;
use crate::text::{contains_str, views};

verus! {

/// What `str::to_lowercase` makes of `s`.
pub uninterp spec fn lower_of(s: Seq<char>) -> Seq<char>;

/// Relies on `str::to_lowercase`: the result depends on the characters
/// alone, and the empty string stays empty.
#[verifier::external_body]
pub(crate) fn to_lowercase(s: &str) -> (r: String)
    ensures
        r@ == lower_of(s@),
        s@.len() == 0 ==> r@.len() == 0,
{
    s.to_lowercase()
}

/// The views of the entries of a header map.
pub open spec fn entry_views(v: Seq<(String, Vec<String>)>) -> Seq<(Seq<char>, Seq<Seq<char>>)> {
    v.map_values(|e: (String, Vec<String>)| (e.0@, views(e.1@)))
}

/// Some entry is named `name`.
pub open spec fn has_name(entries: Seq<(Seq<char>, Seq<Seq<char>>)>, name: Seq<char>) -> bool {
    exists|i: int| 0 <= i < entries.len() && #[trigger] entries[i].0 == name
}

/// The values of the entry named `name`, if there is one.
pub open spec fn values_of(entries: Seq<(Seq<char>, Seq<Seq<char>>)>, name: Seq<char>) -> Option<
    Seq<Seq<char>>,
> {
    if has_name(entries, name) {
        Some(entries[choose|i: int| 0 <= i < entries.len() && #[trigger] entries[i].0 == name].1)
    } else {
        None
    }
}

/// No two entries share a name.
pub open spec fn names_distinct(entries: Seq<(Seq<char>, Seq<Seq<char>>)>) -> bool {
    forall|i: int, j: int|
        0 <= i < entries.len() && 0 <= j < entries.len() && i != j ==> #[trigger] entries[i].0
            != #[trigger] entries[j].0
}

pub proof fn lemma_values_at(entries: Seq<(Seq<char>, Seq<Seq<char>>)>, i: int)
    requires
        names_distinct(entries),
        0 <= i < entries.len(),
    ensures
        values_of(entries, entries[i].0) == Some(entries[i].1),
{
    assert(has_name(entries, entries[i].0));
}

/// The values of every other name are unchanged from `a` to `b`.
pub open spec fn others_unchanged(
    a: Seq<(Seq<char>, Seq<Seq<char>>)>,
    b: Seq<(Seq<char>, Seq<Seq<char>>)>,
    name: Seq<char>,
) -> bool {
    forall|k: Seq<char>| k != name ==> #[trigger] values_of(b, k) == values_of(a, k)
}

/// The header names and values, in the order the names were first set.
#[derive(Debug)]
pub struct Headers {
    entries: Vec<(String, Vec<String>)>,
}

impl View for Headers {
    type V = Seq<(Seq<char>, Seq<Seq<char>>)>;

    closed spec fn view(&self) -> Seq<(Seq<char>, Seq<Seq<char>>)> {
        entry_views(self.entries@)
    }
}

/// Replacing the entry at `i`, named `name`, sets the values of `name` and
/// leaves every other name alone.
proof fn lemma_replace(
    a: Seq<(Seq<char>, Seq<Seq<char>>)>,
    i: int,
    name: Seq<char>,
    vals: Seq<Seq<char>>,
)
    requires
        names_distinct(a),
        0 <= i < a.len(),
        a[i].0 == name,
    ensures
        names_distinct(a.update(i, (name, vals))),
        values_of(a.update(i, (name, vals)), name) == Some(vals),
        others_unchanged(a, a.update(i, (name, vals)), name),
{
    let b = a.update(i, (name, vals));
    lemma_values_at(b, i);
    assert forall|k: Seq<char>| k != name implies #[trigger] values_of(b, k) == values_of(a, k) by {
        if has_name(a, k) {
            let j = choose|j: int| 0 <= j < a.len() && #[trigger] a[j].0 == k;
            lemma_values_at(a, j);
            assert(b[j].0 == k);
            lemma_values_at(b, j);
        } else if has_name(b, k) {
            let j = choose|j: int| 0 <= j < b.len() && #[trigger] b[j].0 == k;
            assert(a[j].0 == k);
        }
    }
}

proof fn lemma_push(a: Seq<(Seq<char>, Seq<Seq<char>>)>, name: Seq<char>, vals: Seq<Seq<char>>)
    requires
        names_distinct(a),
        !has_name(a, name),
    ensures
        names_distinct(a.push((name, vals))),
        values_of(a.push((name, vals)), name) == Some(vals),
        others_unchanged(a, a.push((name, vals)), name),
{
    let b = a.push((name, vals));
    assert forall|i: int, j: int|
        0 <= i < b.len() && 0 <= j < b.len() && i != j implies #[trigger] b[i].0
        != #[trigger] b[j].0 by {
        if i == a.len() {
            assert(a[j].0 == b[j].0);
        } else if j == a.len() {
            assert(a[i].0 == b[i].0);
        }
    }
    lemma_values_at(b, a.len() as int);
    assert forall|k: Seq<char>| k != name implies #[trigger] values_of(b, k) == values_of(a, k) by {
        if has_name(a, k) {
            let j = choose|j: int| 0 <= j < a.len() && #[trigger] a[j].0 == k;
            lemma_values_at(a, j);
            assert(b[j].0 == k);
            lemma_values_at(b, j);
        } else if has_name(b, k) {
            let j = choose|j: int| 0 <= j < b.len() && #[trigger] b[j].0 == k;
            assert(a[j].0 == k);
        }
    }
}

proof fn lemma_remove(a: Seq<(Seq<char>, Seq<Seq<char>>)>, i: int)
    requires
        names_distinct(a),
        0 <= i < a.len(),
    ensures
        names_distinct(a.remove(i)),
        values_of(a.remove(i), a[i].0) is None,
        others_unchanged(a, a.remove(i), a[i].0),
{
    let b = a.remove(i);
    let name = a[i].0;
    assert forall|p: int, q: int|
        0 <= p < b.len() && 0 <= q < b.len() && p != q implies #[trigger] b[p].0
        != #[trigger] b[q].0 by {
        let pp = if p < i { p } else { p + 1 };
        let qq = if q < i { q } else { q + 1 };
        assert(b[p] == a[pp] && b[q] == a[qq]);
    }
    if has_name(b, name) {
        let j = choose|j: int| 0 <= j < b.len() && #[trigger] b[j].0 == name;
        let jj = if j < i { j } else { j + 1 };
        assert(b[j] == a[jj]);
    }
    assert forall|k: Seq<char>| k != name implies #[trigger] values_of(b, k) == values_of(a, k) by {
        if has_name(a, k) {
            let j = choose|j: int| 0 <= j < a.len() && #[trigger] a[j].0 == k;
            lemma_values_at(a, j);
            let jb = if j < i { j } else { j - 1 };
            assert(b[jb] == a[j]);
            lemma_values_at(b, jb);
        } else if has_name(b, k) {
            let j = choose|j: int| 0 <= j < b.len() && #[trigger] b[j].0 == k;
            let jj = if j < i { j } else { j + 1 };
            assert(b[j] == a[jj]);
        }
    }
}

/// Copies a list of strings.
fn copy_strings(v: &Vec<String>) -> (r: Vec<String>)
    ensures
        views(r@) == views(v@),
{
    let mut r: Vec<String> = Vec::new();
    let mut i: usize = 0;
    while i < v.len()
        invariant
            i <= v.len(),
            views(r@) == views(v@.subrange(0, i as int)),
        decreases v.len() - i,
    {
        let ghost before = views(r@);
        r.push(v[i].clone());
        assert(views(r@) =~= before.push(v@[i as int]@));
        i = i + 1;
        assert(views(r@) =~= views(v@.subrange(0, i as int)));
    }
    assert(v@.subrange(0, i as int) =~= v@);
    r
}

impl Headers {
    #[verifier::type_invariant]
    spec fn distinct(&self) -> bool {
        names_distinct(entry_views(self.entries@))
    }

    /// Empty headers.
    pub fn empty() -> (r: Headers)
        ensures
            r@ == Seq::<(Seq<char>, Seq<Seq<char>>)>::empty(),
    {
        let r = Headers { entries: Vec::new() };
        assert(r@ =~= Seq::<(Seq<char>, Seq<Seq<char>>)>::empty());
        r
    }

    /// Headers holding each pair of `headers`, appended in order.
    pub fn new(headers: Vec<(String, String)>) -> (r: Headers)
        ensures
            names_distinct(r@),
            forall|k: Seq<char>|
                #[trigger] values_of(r@, k) == collected(
                    crate::routing::pattern::pairs(headers@),
                    k,
                ),
    {
        let ghost hs = crate::routing::pattern::pairs(headers@);
        let mut r = Headers::empty();
        let mut i: usize = 0;
        while i < headers.len()
            invariant
                i <= headers.len(),
                hs == crate::routing::pattern::pairs(headers@),
                forall|k: Seq<char>|
                    #[trigger] values_of(r@, k) == collected(hs.subrange(0, i as int), k),
            decreases headers.len() - i,
        {
            let ghost before = r@;
            r.append(headers[i].0.as_str(), headers[i].1.clone());
            assert(hs.subrange(0, i + 1).drop_last() =~= hs.subrange(0, i as int));
            assert(hs[i as int] == (headers@[i as int].0@, headers@[i as int].1@));
            i = i + 1;
        }
        assert(hs.subrange(0, i as int) =~= hs);
        proof {
            use_type_invariant(&r);
        }
        r
    }

    /// The number of distinct names.
    pub fn len(&self) -> (r: usize)
        ensures
            r == self@.len(),
    {
        self.entries.len()
    }

    /// Whether no header is set.
    pub fn is_empty(&self) -> (r: bool)
        ensures
            r == (self@.len() == 0),
    {
        self.entries.len() == 0
    }

    /// The index of the entry named `key`.
    fn position(&self, key: &String) -> (r: Option<usize>)
        ensures
            match r {
                Some(i) => i < self@.len() && self@[i as int].0 == key@,
                None => !has_name(self@, key@),
            },
    {
        let mut i: usize = 0;
        while i < self.entries.len()
            invariant
                i <= self.entries.len(),
                forall|j: int| 0 <= j < i ==> #[trigger] self@[j].0 != key@,
            decreases self.entries.len() - i,
        {
            if self.entries[i].0 == *key {
                return Some(i);
            }
            i = i + 1;
        }
        None
    }

    /// The values set under `header`, compared without case.
    pub fn get(&self, header: &str) -> (r: Option<&Vec<String>>)
        ensures
            match r {
                Some(v) => values_of(self@, lower_of(header@)) == Some(views(v@)),
                None => values_of(self@, lower_of(header@)) is None,
            },
    {
        proof {
            use_type_invariant(self);
        }
        let key = to_lowercase(header);
        match self.position(&key) {
            Some(i) => {
                proof {
                    lemma_values_at(self@, i as int);
                }
                Some(&self.entries[i].1)
            },
            None => None,
        }
    }

    /// The number of values set under `header`; 0 when it is not set.
    pub fn len_of(&self, header: &str) -> (r: usize)
        ensures
            r == match values_of(self@, lower_of(header@)) {
                Some(v) => v.len(),
                None => 0,
            },
    {
        match self.get(header) {
            Some(values) => values.len(),
            None => 0,
        }
    }

    /// Whether `header` is set.
    pub fn has(&self, header: &str) -> (r: bool)
        ensures
            r == (values_of(self@, lower_of(header@)) is Some),
    {
        self.get(header).is_some()
    }

    /// The first value set under `header`.
    pub fn first(&self, header: &str) -> (r: Option<&str>)
        ensures
            match r {
                Some(v) => values_of(self@, lower_of(header@)) matches Some(vs) && vs.len() > 0
                    && vs[0] == v@,
                None => match values_of(self@, lower_of(header@)) {
                    Some(vs) => vs.len() == 0,
                    None => true,
                },
            },
    {
        match self.get(header) {
            Some(values) => {
                if values.len() > 0 {
                    Some(values[0].as_str())
                } else {
                    None
                }
            },
            None => None,
        }
    }

    /// Whether the first value of `header` is exactly `value`.
    pub fn is(&self, header: &str, value: &str) -> (r: bool)
        ensures
            r == (values_of(self@, lower_of(header@)) matches Some(vs) && vs.len() > 0 && vs[0]
                == value@),
    {
        match self.first(header) {
            Some(current) => current.to_owned() == value.to_owned(),
            None => false,
        }
    }

    /// Whether the first value of `header` contains `value`.
    pub fn contains(&self, header: &str, value: &str) -> (r: bool)
        ensures
            r == (values_of(self@, lower_of(header@)) matches Some(vs) && vs.len() > 0
                && crate::text::is_infix(value@, vs[0])),
    {
        match self.first(header) {
            Some(current) => contains_str(current, value),
            None => false,
        }
    }

    /// Every (name, value) pair, names in order, each name's values in
    /// order.
    pub fn iter(&self) -> (r: Vec<(String, String)>)
        ensures
            crate::routing::pattern::pairs(r@) == flatten_entries(self@),
    {
        let mut r: Vec<(String, String)> = Vec::new();
        let mut i: usize = 0;
        while i < self.entries.len()
            invariant
                i <= self.entries.len(),
                crate::routing::pattern::pairs(r@) == flatten_entries(
                    self@.subrange(0, i as int),
                ),
            decreases self.entries.len() - i,
        {
            let values = &self.entries[i].1;
            let ghost base = crate::routing::pattern::pairs(r@);
            let mut j: usize = 0;
            while j < values.len()
                invariant
                    i < self.entries.len(),
                    values == &self.entries@[i as int].1,
                    j <= values.len(),
                    crate::routing::pattern::pairs(r@) == base + pairs_for(
                        self@[i as int].0,
                        self@[i as int].1.subrange(0, j as int),
                    ),
                decreases values.len() - j,
            {
                let ghost before = crate::routing::pattern::pairs(r@);
                r.push((self.entries[i].0.clone(), values[j].clone()));
                assert(crate::routing::pattern::pairs(r@) =~= before.push(
                    (self@[i as int].0, values@[j as int]@),
                ));
                j = j + 1;
                assert(self@[i as int].1.subrange(0, j as int).drop_last() =~= self@[i as int].1.subrange(
                    0,
                    j - 1,
                ));
            }
            assert(self@[i as int].1.subrange(0, j as int) =~= self@[i as int].1);
            assert(self@.subrange(0, i + 1).drop_last() =~= self@.subrange(0, i as int));
            i = i + 1;
        }
        assert(self@.subrange(0, i as int) =~= self@);
        r
    }

    /// Sets `header` to the single value `value`, dropping earlier values.
    pub fn insert(&mut self, header: &str, value: String)
        ensures
            values_of(final(self)@, lower_of(header@)) == Some(seq![value@]),
            others_unchanged(old(self)@, final(self)@, lower_of(header@)),
            final(self)@.len() == old(self)@.len() + if has_name(old(self)@, lower_of(header@)) {
                0int
            } else {
                1int
            },
    {
        let values = vec![value];
        assert(views(values@) =~= seq![value@]);
        self.insert_many(header, values);
    }

    /// Sets `header` to `values`, dropping earlier values.
    pub fn insert_many(&mut self, header: &str, values: Vec<String>)
        ensures
            values_of(final(self)@, lower_of(header@)) == Some(views(values@)),
            others_unchanged(old(self)@, final(self)@, lower_of(header@)),
            final(self)@.len() == old(self)@.len() + if has_name(old(self)@, lower_of(header@)) {
                0int
            } else {
                1int
            },
    {
        proof {
            use_type_invariant(&*self);
        }
        let key = to_lowercase(header);
        let found = self.position(&key);
        let mut entries: Vec<(String, Vec<String>)> = Vec::new();
        std::mem::swap(&mut entries, &mut self.entries);
        let ghost a = entry_views(entries@);
        let ghost vals = views(values@);
        match found {
            Some(i) => {
                entries.remove(i);
                entries.insert(i, (key, values));
                proof {
                    assert(entry_views(entries@) =~= a.update(i as int, (key@, vals)));
                    lemma_replace(a, i as int, key@, vals);
                }
            },
            None => {
                entries.push((key, values));
                proof {
                    assert(entry_views(entries@) =~= a.push((key@, vals)));
                    lemma_push(a, key@, vals);
                }
            },
        }
        self.entries = entries;
    }

    /// Adds `value` after the values of `header`, setting it if absent.
    pub fn append(&mut self, header: &str, value: String)
        ensures
            values_of(final(self)@, lower_of(header@)) == Some(
                match values_of(old(self)@, lower_of(header@)) {
                    Some(vs) => vs,
                    None => Seq::<Seq<char>>::empty(),
                }.push(value@),
            ),
            others_unchanged(old(self)@, final(self)@, lower_of(header@)),
            final(self)@.len() == old(self)@.len() + if has_name(old(self)@, lower_of(header@)) {
                0int
            } else {
                1int
            },
    {
        let values = vec![value];
        assert(views(values@) =~= seq![value@]);
        self.append_many(header, values);
    }

    /// Adds `values` after the values of `header`, setting it if absent.
    pub fn append_many(&mut self, header: &str, values: Vec<String>)
        ensures
            values_of(final(self)@, lower_of(header@)) == Some(
                match values_of(old(self)@, lower_of(header@)) {
                    Some(vs) => vs,
                    None => Seq::<Seq<char>>::empty(),
                } + views(values@),
            ),
            others_unchanged(old(self)@, final(self)@, lower_of(header@)),
            final(self)@.len() == old(self)@.len() + if has_name(old(self)@, lower_of(header@)) {
                0int
            } else {
                1int
            },
    {
        proof {
            use_type_invariant(&*self);
        }
        let key = to_lowercase(header);
        let found = self.position(&key);
        let mut entries: Vec<(String, Vec<String>)> = Vec::new();
        std::mem::swap(&mut entries, &mut self.entries);
        let ghost a = entry_views(entries@);
        match found {
            Some(i) => {
                proof {
                    lemma_values_at(a, i as int);
                }
                let (name, mut current) = entries.remove(i);
                let ghost old_vals = views(current@);
                let mut j: usize = 0;
                while j < values.len()
                    invariant
                        j <= values.len(),
                        views(current@) == old_vals + views(values@.subrange(0, j as int)),
                    decreases values.len() - j,
                {
                    let ghost before = views(current@);
                    current.push(values[j].clone());
                    assert(views(current@) =~= before.push(values@[j as int]@));
                    j = j + 1;
                    assert(views(current@) =~= old_vals + views(values@.subrange(0, j as int)));
                }
                assert(values@.subrange(0, j as int) =~= values@);
                let ghost merged = views(current@);
                entries.insert(i, (name, current));
                proof {
                    assert(entry_views(entries@) =~= a.update(i as int, (key@, merged)));
                    lemma_replace(a, i as int, key@, merged);
                }
            },
            None => {
                let copy = copy_strings(&values);
                entries.push((key, copy));
                proof {
                    assert(Seq::<Seq<char>>::empty() + views(values@) =~= views(values@));
                    assert(entry_views(entries@) =~= a.push((key@, views(values@))));
                    lemma_push(a, key@, views(values@));
                }
            },
        }
        self.entries = entries;
    }

    /// Removes `header` and all its values.
    pub fn remove(&mut self, header: &str)
        ensures
            values_of(final(self)@, lower_of(header@)) is None,
            others_unchanged(old(self)@, final(self)@, lower_of(header@)),
            final(self)@.len() == old(self)@.len() - if has_name(old(self)@, lower_of(header@)) {
                1int
            } else {
                0int
            },
    {
        proof {
            use_type_invariant(&*self);
        }
        let key = to_lowercase(header);
        match self.position(&key) {
            Some(i) => {
                let mut entries: Vec<(String, Vec<String>)> = Vec::new();
                std::mem::swap(&mut entries, &mut self.entries);
                let ghost a = entry_views(entries@);
                entries.remove(i);
                proof {
                    assert(entry_views(entries@) =~= a.remove(i as int));
                    lemma_remove(a, i as int);
                }
                self.entries = entries;
            },
            None => {},
        }
    }

    /// Removes every header.
    pub fn clear(&mut self)
        ensures
            final(self)@.len() == 0,
    {
        self.entries = Vec::new();
        assert(self@ =~= Seq::<(Seq<char>, Seq<Seq<char>>)>::empty());
    }
}

/// The values that appending each pair of `pairs`, in order, leaves under
/// the name `k`.
pub open spec fn collected(pairs: Seq<(Seq<char>, Seq<char>)>, k: Seq<char>) -> Option<
    Seq<Seq<char>>,
>
    decreases pairs.len(),
{
    if pairs.len() == 0 {
        None
    } else {
        let prev = collected(pairs.drop_last(), k);
        if lower_of(pairs.last().0) == k {
            Some(
                match prev {
                    Some(vs) => vs,
                    None => Seq::empty(),
                }.push(pairs.last().1),
            )
        } else {
            prev
        }
    }
}

/// The first pair names `k`, so the values collected under `k` start with
/// its value.
pub proof fn lemma_collected_first(pairs: Seq<(Seq<char>, Seq<char>)>, k: Seq<char>)
    requires
        pairs.len() > 0,
        lower_of(pairs[0].0) == k,
    ensures
        collected(pairs, k) matches Some(vs) && vs.len() > 0 && vs[0] == pairs[0].1,
    decreases pairs.len(),
{
    if pairs.len() > 1 {
        lemma_collected_first(pairs.drop_last(), k);
        assert(pairs.drop_last()[0] == pairs[0]);
        let prev = collected(pairs.drop_last(), k);
        let vs = prev->Some_0;
        if lower_of(pairs.last().0) == k {
            assert(collected(pairs, k) == Some(vs.push(pairs.last().1)));
            assert(vs.push(pairs.last().1)[0] == vs[0]);
        }
    } else {
        assert(pairs.drop_last().len() == 0);
        assert(collected(pairs.drop_last(), k) is None);
        assert(collected(pairs, k) == Some(Seq::<Seq<char>>::empty().push(pairs.last().1)));
        assert(pairs.last() == pairs[0]);
    }
}

/// Each value of `vals` paired with `name`.
pub open spec fn pairs_for(name: Seq<char>, vals: Seq<Seq<char>>) -> Seq<(Seq<char>, Seq<char>)>
    decreases vals.len(),
{
    if vals.len() == 0 {
        Seq::empty()
    } else {
        pairs_for(name, vals.drop_last()).push((name, vals.last()))
    }
}

/// Every (name, value) pair of the entries, in order.
pub open spec fn flatten_entries(entries: Seq<(Seq<char>, Seq<Seq<char>>)>) -> Seq<(Seq<char>, Seq<char>)>
    decreases entries.len(),
{
    if entries.len() == 0 {
        Seq::empty()
    } else {
        flatten_entries(entries.drop_last()) + pairs_for(entries.last().0, entries.last().1)
    }
}

} // verus!
