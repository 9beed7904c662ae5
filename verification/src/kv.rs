use vstd::prelude::*;

use crate::text::str_eq;

verus! {

/// One `key=value` binding. The environment block handed to a launched
/// session and the body of a desktop entry are both ordered lists of these.
#[derive(Clone)]
pub struct KeyValue {
    pub key: String,
    pub value: String,
}

impl KeyValue {
    /// The mathematical value of a binding: the pair of its two texts.
    pub open spec fn pair(&self) -> (Seq<char>, Seq<char>) {
        (self.key@, self.value@)
    }
}

/// The model of a binding list: the bindings in order, as pairs of texts.
pub open spec fn table_view(v: Seq<KeyValue>) -> Seq<(Seq<char>, Seq<char>)> {
    v.map_values(|b: KeyValue| b.pair())
}

/// Binding `key` to `value`: the first binding of `key` is replaced in
/// place; a key bound nowhere is appended at the end.
pub open spec fn spec_set(
    t: Seq<(Seq<char>, Seq<char>)>,
    key: Seq<char>,
    value: Seq<char>,
) -> Seq<(Seq<char>, Seq<char>)>
    decreases t.len(),
{
    if t.len() == 0 {
        seq![(key, value)]
    } else if t[0].0 == key {
        seq![(key, value)] + t.skip(1)
    } else {
        seq![t[0]] + spec_set(t.skip(1), key, value)
    }
}

/// The value bound to `key`: the first binding wins.
pub open spec fn spec_get(t: Seq<(Seq<char>, Seq<char>)>, key: Seq<char>) -> Option<Seq<char>>
    decreases t.len(),
{
    if t.len() == 0 {
        None
    } else if t[0].0 == key {
        Some(t[0].1)
    } else {
        spec_get(t.skip(1), key)
    }
}

proof fn lemma_set_prefix(t: Seq<(Seq<char>, Seq<char>)>, key: Seq<char>, value: Seq<char>, i: int)
    requires
        0 <= i < t.len(),
        forall|j: int| 0 <= j <= i ==> t[j].0 != key,
        spec_set(t, key, value) == t.take(i) + spec_set(t.skip(i), key, value),
    ensures
        spec_set(t, key, value) == t.take(i + 1) + spec_set(t.skip(i + 1), key, value),
{
    assert(t.skip(i).len() > 0);
    assert(t.skip(i)[0] == t[i]);
    assert(t.skip(i).skip(1) =~= t.skip(i + 1));
    assert(spec_set(t.skip(i), key, value) == seq![t[i]] + spec_set(t.skip(i + 1), key, value));
    assert(t.take(i) + (seq![t[i]] + spec_set(t.skip(i + 1), key, value)) =~= t.take(i + 1)
        + spec_set(t.skip(i + 1), key, value));
}

/// Law: after binding `key` to `value`, `key` reads back as `value`, and
/// every other key reads as before.
pub proof fn lemma_get_set(
    t: Seq<(Seq<char>, Seq<char>)>,
    key: Seq<char>,
    value: Seq<char>,
    other: Seq<char>,
)
    ensures
        spec_get(spec_set(t, key, value), key) == Some(value),
        other != key ==> spec_get(spec_set(t, key, value), other) == spec_get(t, other),
    decreases t.len(),
{
    if t.len() == 0 {
        let s = seq![(key, value)];
        assert(spec_set(t, key, value) == s);
        assert(s[0] == (key, value));
        assert(s.skip(1) =~= Seq::<(Seq<char>, Seq<char>)>::empty());
        assert(spec_get(s, key) == Some(value));
        if other != key {
            assert(spec_get(s, other) == spec_get(s.skip(1), other));
            assert(spec_get(s, other) is None);
        }
    } else if t[0].0 == key {
        let s = seq![(key, value)] + t.skip(1);
        assert(spec_set(t, key, value) == s);
        assert(s.len() > 0);
        assert(s[0] == (key, value));
        assert(s.skip(1) =~= t.skip(1));
        assert(spec_get(s, key) == Some(value));
        if other != key {
            assert(spec_get(s, other) == spec_get(t.skip(1), other));
            assert(spec_get(t, other) == spec_get(t.skip(1), other));
        }
    } else {
        lemma_get_set(t.skip(1), key, value, other);
        let s = seq![t[0]] + spec_set(t.skip(1), key, value);
        assert(spec_set(t, key, value) == s);
        assert(s.len() > 0);
        assert(s[0] == t[0]);
        assert(s.skip(1) =~= spec_set(t.skip(1), key, value));
        assert(spec_get(s, key) == spec_get(spec_set(t.skip(1), key, value), key));
        assert(spec_get(s, key) == Some(value));
        if other != key {
            if t[0].0 == other {
                assert(spec_get(s, other) == Some(t[0].1));
                assert(spec_get(t, other) == Some(t[0].1));
            } else {
                assert(spec_get(s, other) == spec_get(spec_set(t.skip(1), key, value), other));
                assert(spec_get(t, other) == spec_get(t.skip(1), other));
            }
        }
    }
}

/// Replace the first binding of `key`, or append one.
pub fn table_set(t: &mut Vec<KeyValue>, key: &str, value: &str)
    ensures
        table_view(final(t)@) == spec_set(table_view(old(t)@), key@, value@),
{
    let ghost full = table_view(t@);
    let n = t.len();
    proof {
        assert(full.take(0) =~= Seq::<(Seq<char>, Seq<char>)>::empty());
        assert(full.skip(0) =~= full);
        assert(full.take(0) + spec_set(full.skip(0), key@, value@) =~= spec_set(
            full,
            key@,
            value@,
        ));
    }
    let mut i: usize = 0;
    while i < n
        invariant
            n == t@.len(),
            i <= n,
            t@ == old(t)@,
            full == table_view(t@),
            forall|j: int| 0 <= j < i ==> full[j].0 != key@,
            spec_set(full, key@, value@) == full.take(i as int) + spec_set(
                full.skip(i as int),
                key@,
                value@,
            ),
        decreases n - i,
    {
        assert(full[i as int] == t@[i as int].pair());
        if str_eq(t[i].key.as_str(), key) {
            let binding = KeyValue { key: key.to_owned(), value: value.to_owned() };
            t.set(i, binding);
            proof {
                assert(full.skip(i as int)[0] == full[i as int]);
                assert(full.skip(i as int).skip(1) =~= full.skip(i as int + 1));
                assert(spec_set(full.skip(i as int), key@, value@) == seq![(key@, value@)]
                    + full.skip(i as int + 1));
                assert(table_view(t@) =~= full.take(i as int) + (seq![(key@, value@)] + full.skip(
                    i as int + 1,
                )));
            }
            return ;
        }
        proof {
            lemma_set_prefix(full, key@, value@, i as int);
        }
        i += 1;
    }
    let binding = KeyValue { key: key.to_owned(), value: value.to_owned() };
    t.push(binding);
    proof {
        assert(full.skip(n as int) =~= Seq::<(Seq<char>, Seq<char>)>::empty());
        assert(spec_set(full.skip(n as int), key@, value@) == seq![(key@, value@)]);
        assert(full.take(n as int) =~= full);
        assert(table_view(t@) =~= full + seq![(key@, value@)]);
        assert(full + seq![(key@, value@)] =~= full.take(n as int) + spec_set(
            full.skip(n as int),
            key@,
            value@,
        ));
    }
}

/// Look up the first binding of `key`.
pub fn table_get<'a>(t: &'a Vec<KeyValue>, key: &str) -> (r: Option<&'a String>)
    ensures
        match r {
            Some(v) => spec_get(table_view(t@), key@) == Some(v@),
            None => spec_get(table_view(t@), key@) is None,
        },
{
    let ghost full = table_view(t@);
    let n = t.len();
    proof {
        assert(full.skip(0) =~= full);
    }
    let mut i: usize = 0;
    while i < n
        invariant
            n == t@.len(),
            i <= n,
            full == table_view(t@),
            spec_get(full, key@) == spec_get(full.skip(i as int), key@),
        decreases n - i,
    {
        assert(full[i as int] == t@[i as int].pair());
        assert(full.skip(i as int)[0] == full[i as int]);
        if str_eq(t[i].key.as_str(), key) {
            return Some(&t[i].value);
        }
        proof {
            assert(full.skip(i as int).skip(1) =~= full.skip(i as int + 1));
        }
        i += 1;
    }
    proof {
        assert(full.skip(n as int) =~= Seq::<(Seq<char>, Seq<char>)>::empty());
    }
    None
}

} // verus!
