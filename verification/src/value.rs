use vstd::prelude::*;

verus! {

/// A tagged value, as carried in token claims and attribute mappings:
/// null, boolean, 64-bit signed integer, string, array or object.
pub enum ClaimValue {
    Null,
    Bool(bool),
    Int(i64),
    Str(String),
    Arr(Vec<ClaimValue>),
    Obj(Vec<ClaimEntry>),
}

/// One named attribute of an object or mapping.
pub struct ClaimEntry {
    pub key: String,
    pub value: ClaimValue,
}

/// Mathematical model of a `ClaimValue`.
pub ghost enum ValueV {
    Null,
    Bool(bool),
    Int(int),
    Str(Seq<char>),
    Arr(Seq<ValueV>),
    Obj(Seq<(Seq<char>, ValueV)>),
}

impl View for ClaimValue {
    type V = ValueV;

    open spec fn view(&self) -> ValueV
        decreases self,
    {
        match self {
            ClaimValue::Null => ValueV::Null,
            ClaimValue::Bool(b) => ValueV::Bool(*b),
            ClaimValue::Int(i) => ValueV::Int(*i as int),
            ClaimValue::Str(s) => ValueV::Str(s@),
            ClaimValue::Arr(items) => ValueV::Arr(list_v(items@)),
            ClaimValue::Obj(entries) => ValueV::Obj(entries_v(entries@)),
        }
    }
}

/// The models of a sequence of values, in order.
pub open spec fn list_v(items: Seq<ClaimValue>) -> Seq<ValueV>
    decreases items,
{
    if items.len() == 0 {
        Seq::empty()
    } else {
        list_v(items.drop_last()).push(items.last()@)
    }
}

/// The model of a sequence of attribute entries: pairs of key and value.
pub open spec fn entries_v(entries: Seq<ClaimEntry>) -> Seq<(Seq<char>, ValueV)>
    decreases entries,
{
    if entries.len() == 0 {
        Seq::empty()
    } else {
        entries_v(entries.drop_last()).push(
            (entries.last().key@, entries.last().value@),
        )
    }
}

/// `list_v` maps each element to its model, keeping length and order.
pub proof fn lemma_list_v(items: Seq<ClaimValue>)
    ensures
        list_v(items).len() == items.len(),
        forall|i: int| 0 <= i < items.len() ==> list_v(items)[i] == (#[trigger] items[i])@,
    decreases items.len(),
{
    if items.len() > 0 {
        lemma_list_v(items.drop_last());
        assert(list_v(items) == list_v(items.drop_last()).push(items.last()@));
        assert forall|i: int| 0 <= i < items.len() implies list_v(items)[i] == (
        #[trigger] items[i])@ by {
            if i < items.len() - 1 {
                assert(items.drop_last()[i] == items[i]);
                assert(list_v(items)[i] == list_v(items.drop_last())[i]);
            } else {
                assert(items.last() == items[i]);
            }
        }
    }
}

/// `entries_v` maps each entry to its model, keeping length and order.
pub proof fn lemma_entries_v(entries: Seq<ClaimEntry>)
    ensures
        entries_v(entries).len() == entries.len(),
        forall|i: int|
            0 <= i < entries.len() ==> entries_v(entries)[i] == ((#[trigger] entries[i]).key@,
            entries[i].value@),
    decreases entries.len(),
{
    if entries.len() > 0 {
        lemma_entries_v(entries.drop_last());
        assert(entries_v(entries) == entries_v(entries.drop_last()).push(
            (entries.last().key@, entries.last().value@),
        ));
        assert forall|i: int| 0 <= i < entries.len() implies entries_v(entries)[i] == ((
        #[trigger] entries[i]).key@, entries[i].value@) by {
            if i < entries.len() - 1 {
                assert(entries.drop_last()[i] == entries[i]);
                assert(entries_v(entries)[i] == entries_v(entries.drop_last())[i]);
            } else {
                assert(entries.last() == entries[i]);
            }
        }
    }
}

/// The model values whose integers fit in `i64`; only these can be
/// rebuilt as `ClaimValue`s by the decoder.
pub open spec fn v_bounded(v: ValueV) -> bool
    decreases v,
{
    match v {
        ValueV::Null => true,
        ValueV::Bool(_) => true,
        ValueV::Int(i) => i64::MIN <= i <= i64::MAX,
        ValueV::Str(_) => true,
        ValueV::Arr(items) => forall|i: int|
            0 <= i < items.len() ==> v_bounded(#[trigger] items[i]),
        ValueV::Obj(entries) => forall|i: int|
            0 <= i < entries.len() ==> v_bounded(#[trigger] entries[i].1),
    }
}

/// An array with an unbounded element is unbounded.
pub proof fn lemma_arr_unbounded(items: Seq<ValueV>, i: int)
    requires
        0 <= i < items.len(),
        !v_bounded(items[i]),
    ensures
        !v_bounded(ValueV::Arr(items)),
{
    if v_bounded(ValueV::Arr(items)) {
        assert(ValueV::Arr(items)->Arr_0 == items);
        assert(v_bounded(items[i]));
    }
}

/// An object with an unbounded value is unbounded.
pub proof fn lemma_obj_unbounded(entries: Seq<(Seq<char>, ValueV)>, i: int)
    requires
        0 <= i < entries.len(),
        !v_bounded(entries[i].1),
    ensures
        !v_bounded(ValueV::Obj(entries)),
{
    if v_bounded(ValueV::Obj(entries)) {
        assert(ValueV::Obj(entries)->Obj_0 == entries);
        assert(v_bounded(entries[i].1));
    }
}

/// Every value a `ClaimValue` models is bounded.
pub proof fn lemma_view_bounded(v: &ClaimValue)
    ensures
        v_bounded(v@),
    decreases v,
{
    match v {
        ClaimValue::Arr(items) => {
            lemma_list_v(items@);
            assert forall|i: int| 0 <= i < list_v(items@).len() implies v_bounded(
                #[trigger] list_v(items@)[i],
            ) by {
                lemma_view_bounded(&items[i]);
            }
        }
        ClaimValue::Obj(entries) => {
            lemma_entries_v(entries@);
            assert forall|i: int| 0 <= i < entries_v(entries@).len() implies v_bounded(
                #[trigger] entries_v(entries@)[i].1,
            ) by {
                lemma_view_bounded(&entries[i].value);
            }
        }
        _ => {}
    }
}

/// Every entry list a `Vec<ClaimEntry>` models is bounded as an object.
pub proof fn lemma_entries_vec_bounded(entries: &Vec<ClaimEntry>)
    ensures
        v_bounded(ValueV::Obj(entries_v(entries@))),
{
    lemma_entries_v(entries@);
    assert forall|i: int| 0 <= i < entries_v(entries@).len() implies v_bounded(
        #[trigger] entries_v(entries@)[i].1,
    ) by {
        lemma_view_bounded(&entries[i].value);
    }
}

/// Looks an attribute up by name; yields the first entry with that key.
pub open spec fn spec_lookup(entries: Seq<(Seq<char>, ValueV)>, key: Seq<char>) -> Option<ValueV>
    decreases entries.len(),
{
    if entries.len() == 0 {
        None
    } else if entries[0].0 == key {
        Some(entries[0].1)
    } else {
        spec_lookup(entries.drop_first(), key)
    }
}

/// True iff some entry has the given key.
pub open spec fn spec_has_key(entries: Seq<(Seq<char>, ValueV)>, key: Seq<char>) -> bool {
    spec_lookup(entries, key) is Some
}

/// No two entries share a key.
pub open spec fn unique_keys(entries: Seq<(Seq<char>, ValueV)>) -> bool {
    forall|i: int, j: int|
        0 <= i < j < entries.len() ==> (#[trigger] entries[i].0) != (#[trigger] entries[j].0)
}

/// Finds the first entry with the given key.
pub fn lookup_entry<'a>(entries: &'a Vec<ClaimEntry>, key: &str) -> (r: Option<&'a ClaimValue>)
    ensures
        match r {
            Some(v) => spec_lookup(entries_v(entries@), key@) == Some(v@),
            None => spec_lookup(entries_v(entries@), key@) is None,
        },
{
    proof {
        lemma_entries_v(entries@);
    }
    let ghost m = entries_v(entries@);
    let n = entries.len();
    let mut i: usize = 0;
    proof {
        assert(m.skip(0) =~= m);
    }
    while i < n
        invariant
            0 <= i <= n,
            n == entries.len(),
            m == entries_v(entries@),
            m.len() == n,
            forall|j: int| 0 <= j < n ==> m[j] == ((#[trigger] entries@[j]).key@, entries@[j].value@),
            spec_lookup(m.skip(i as int), key@) == spec_lookup(m, key@),
        decreases n - i,
    {
        proof {
            assert(m.skip(i as int)[0] == m[i as int]);
        }
        if string_eq_str(&entries[i].key, key) {
            return Some(&entries[i].value);
        }
        proof {
            assert(m.skip(i as int).drop_first() =~= m.skip(i as int + 1));
        }
        i += 1;
    }
    proof {
        assert(m.skip(n as int) =~= Seq::<(Seq<char>, ValueV)>::empty());
    }
    None
}

/// Copies a value; the copy has the same model.
#[verifier::loop_isolation(false)]
pub fn clone_value(v: &ClaimValue) -> (r: ClaimValue)
    ensures
        r@ == v@,
    decreases v,
{
    match v {
        ClaimValue::Null => ClaimValue::Null,
        ClaimValue::Bool(b) => ClaimValue::Bool(*b),
        ClaimValue::Int(i) => ClaimValue::Int(*i),
        ClaimValue::Str(s) => ClaimValue::Str(s.clone()),
        ClaimValue::Arr(items) => {
            let n = items.len();
            let mut out: Vec<ClaimValue> = Vec::new();
            let mut i: usize = 0;
            while i < n
                invariant
                    0 <= i <= n,
                    n == items.len(),
                    out@.len() == i,
                    forall|j: int| 0 <= j < i ==> (#[trigger] out@[j])@ == items@[j]@,
                decreases n - i,
            {
                proof {
                    assert(decreases_to!(items@ => items@[i as int]));
                }
                let c = clone_value(&items[i]);
                out.push(c);
                i += 1;
            }
            proof {
                lemma_list_v(out@);
                lemma_list_v(items@);
                assert forall|k: int| 0 <= k < n implies list_v(out@)[k] == list_v(items@)[k] by {
                    assert(out@[k]@ == items@[k]@);
                }
                assert(list_v(out@) =~= list_v(items@));
            }
            ClaimValue::Arr(out)
        }
        ClaimValue::Obj(entries) => {
            let out = clone_entries(entries);
            ClaimValue::Obj(out)
        }
    }
}

/// Copies a list of entries; the copy has the same model.
#[verifier::loop_isolation(false)]
pub fn clone_entries(entries: &Vec<ClaimEntry>) -> (r: Vec<ClaimEntry>)
    ensures
        entries_v(r@) == entries_v(entries@),
        r@.len() == entries@.len(),
    decreases entries,
{
    let n = entries.len();
    let mut out: Vec<ClaimEntry> = Vec::new();
    let mut i: usize = 0;
    while i < n
        invariant
            0 <= i <= n,
            n == entries.len(),
            out@.len() == i,
            forall|j: int|
                0 <= j < i ==> (#[trigger] out@[j]).key@ == entries@[j].key@ && out@[j].value@
                    == entries@[j].value@,
        decreases n - i,
    {
        let c = clone_value(&entries[i].value);
        let k = entries[i].key.clone();
        out.push(ClaimEntry { key: k, value: c });
        i += 1;
    }
    proof {
        lemma_entries_v(out@);
        lemma_entries_v(entries@);
        assert forall|k: int| 0 <= k < n implies entries_v(out@)[k] == entries_v(entries@)[k] by {
            assert(out@[k].key@ == entries@[k].key@ && out@[k].value@ == entries@[k].value@);
        }
        assert(entries_v(out@) =~= entries_v(entries@));
    }
    out
}

/// True iff two values have the same model: same tag, same contents,
/// element for element.
#[verifier::loop_isolation(false)]
pub fn values_equal(a: &ClaimValue, b: &ClaimValue) -> (r: bool)
    ensures
        r == (a@ == b@),
    decreases a,
{
    match (a, b) {
        (ClaimValue::Null, ClaimValue::Null) => true,
        (ClaimValue::Bool(x), ClaimValue::Bool(y)) => x == y,
        (ClaimValue::Int(x), ClaimValue::Int(y)) => x == y,
        (ClaimValue::Str(x), ClaimValue::Str(y)) => str_eq(x.as_str(), y.as_str()),
        (ClaimValue::Arr(xs), ClaimValue::Arr(ys)) => {
            let n = xs.len();
            if n != ys.len() {
                proof {
                    lemma_list_v(xs@);
                    lemma_list_v(ys@);
                }
                return false;
            }
            let mut i: usize = 0;
            proof {
                lemma_list_v(xs@);
                lemma_list_v(ys@);
            }
            while i < n
                invariant
                    0 <= i <= n,
                    forall|j: int| 0 <= j < i ==> list_v(xs@)[j] == list_v(ys@)[j],
                decreases n - i,
            {
                proof {
                    assert(decreases_to!(xs@ => xs@[i as int]));
                }
                if !values_equal(&xs[i], &ys[i]) {
                    proof {
                        assert(list_v(xs@)[i as int] != list_v(ys@)[i as int]);
                    }
                    return false;
                }
                i += 1;
            }
            proof {
                assert(list_v(xs@) =~= list_v(ys@));
            }
            true
        },
        (ClaimValue::Obj(xs), ClaimValue::Obj(ys)) => {
            let n = xs.len();
            if n != ys.len() {
                proof {
                    lemma_entries_v(xs@);
                    lemma_entries_v(ys@);
                }
                return false;
            }
            let mut i: usize = 0;
            proof {
                lemma_entries_v(xs@);
                lemma_entries_v(ys@);
            }
            while i < n
                invariant
                    0 <= i <= n,
                    forall|j: int| 0 <= j < i ==> entries_v(xs@)[j] == entries_v(ys@)[j],
                decreases n - i,
            {
                proof {
                    assert(decreases_to!(xs@ => xs@[i as int].value));
                }
                if !str_eq(xs[i].key.as_str(), ys[i].key.as_str()) {
                    proof {
                        assert(entries_v(xs@)[i as int] != entries_v(ys@)[i as int]);
                    }
                    return false;
                }
                if !values_equal(&xs[i].value, &ys[i].value) {
                    proof {
                        assert(entries_v(xs@)[i as int] != entries_v(ys@)[i as int]);
                    }
                    return false;
                }
                i += 1;
            }
            proof {
                assert(entries_v(xs@) =~= entries_v(ys@));
            }
            true
        },
        _ => {
            proof {
                assert(a@ != b@);
            }
            false
        },
    }
}

/// True iff the string equals the string slice, character for character.
pub fn string_eq_str(a: &String, b: &str) -> (r: bool)
    ensures
        r == (a@ == b@),
{
    str_eq(a.as_str(), b)
}

/// True iff the two string slices hold the same characters.
pub fn str_eq(a: &str, b: &str) -> (r: bool)
    ensures
        r == (a@ == b@),
{
    let na = a.unicode_len();
    let nb = b.unicode_len();
    if na != nb {
        return false;
    }
    let mut i: usize = 0;
    while i < na
        invariant
            0 <= i <= na,
            na == a@.len(),
            na == b@.len(),
            forall|j: int| 0 <= j < i ==> a@[j] == b@[j],
        decreases na - i,
    {
        if a.get_char(i) != b.get_char(i) {
            proof {
                assert(a@[i as int] != b@[i as int]);
            }
            return false;
        }
        i += 1;
    }
    proof {
        assert(a@ =~= b@);
    }
    true
}

} // verus!
