//! Flattening a document into dotted key paths and scalar texts.
//!
//! Results are two parallel vectors, keys and values; entry `i` of each
//! belongs to the same leaf. Sequence elements add no segment to the path.
use vstd::prelude::*;
use vstd::string::*;
use crate::decimal::{decimal_text, i64_text};
use crate::node::{FlattenError, Node};

verus! {

/// Text of a boolean as YAML writes it.
pub open spec fn bool_text(b: bool) -> Seq<char> {
    if b {
        "true"@
    } else {
        "false"@
    }
}

/// The (key path, value text) pairs held by two parallel vectors.
pub open spec fn table(keys: Seq<String>, values: Seq<String>) -> Seq<(Seq<char>, Seq<char>)> {
    Seq::new(keys.len(), |i: int| (keys[i]@, values[i]@))
}

/// Both parts, one after the other; `None` (a non-string key) wins.
pub open spec fn join(
    a: Option<Seq<(Seq<char>, Seq<char>)>>,
    b: Option<Seq<(Seq<char>, Seq<char>)>>,
) -> Option<Seq<(Seq<char>, Seq<char>)>> {
    match (a, b) {
        (Some(x), Some(y)) => Some(x + y),
        _ => None,
    }
}

/// The path of a mapping entry under the path `key`.
pub open spec fn child_key(key: Seq<char>, sub: Seq<char>) -> Seq<char> {
    key + seq!['.'] + sub
}

/// The entry of `v` under `key` when `v` is a boolean.
pub open spec fn bool_entries(key: Seq<char>, v: Node) -> Seq<(Seq<char>, Seq<char>)> {
    match v {
        Node::Bool(b) => seq![(key, bool_text(b))],
        _ => seq![],
    }
}

/// The entry of `v` under `key` when `v` is an integer or a float.
pub open spec fn number_entries(key: Seq<char>, v: Node) -> Seq<(Seq<char>, Seq<char>)> {
    match v {
        Node::Integer(n) => seq![(key, decimal_text(n as int))],
        Node::Float(t) => seq![(key, t@)],
        _ => seq![],
    }
}

/// The entry of `v` under `key` when `v` is a string.
pub open spec fn string_entries(key: Seq<char>, v: Node) -> Seq<(Seq<char>, Seq<char>)> {
    match v {
        Node::Str(s) => seq![(key, s@)],
        _ => seq![],
    }
}

/// The entry of `v` under `key` when `v` is a scalar that is emitted.
pub open spec fn scalar_entries(key: Seq<char>, v: Node) -> Seq<(Seq<char>, Seq<char>)> {
    bool_entries(key, v) + number_entries(key, v) + string_entries(key, v)
}

/// Everything found under `key` in `v`: its scalar, then its mapping
/// entries, then its sequence elements. `None` when a key on the way is not
/// a string.
pub open spec fn value_entries(key: Seq<char>, v: Node) -> Option<Seq<(Seq<char>, Seq<char>)>>
    decreases v, 2int, 0int,
{
    join(join(Some(scalar_entries(key, v)), mapping_entries(key, v)), sequence_entries(key, v))
}

/// The entries found in `v` under `key` when `v` is a mapping, else none.
pub open spec fn mapping_entries(key: Seq<char>, v: Node) -> Option<Seq<(Seq<char>, Seq<char>)>>
    decreases v, 1int, 0int,
{
    match v {
        Node::Mapping(pairs) => pairs_entries(key, v, pairs@.len() as int),
        _ => Some(seq![]),
    }
}

/// The entries of the first `n` pairs of the mapping `v`, each under the
/// path of its own key.
pub open spec fn pairs_entries(key: Seq<char>, v: Node, n: int) -> Option<
    Seq<(Seq<char>, Seq<char>)>,
>
    decreases v, 0int, n,
{
    match v {
        Node::Mapping(pairs) => {
            if n <= 0 || n > pairs@.len() {
                Some(seq![])
            } else {
                join(
                    pairs_entries(key, v, n - 1),
                    match pairs@[n - 1].0 {
                        Node::Str(s) => value_entries(child_key(key, s@), pairs@[n - 1].1),
                        _ => None,
                    },
                )
            }
        },
        _ => Some(seq![]),
    }
}

/// The entries found in `v` under `key` when `v` is a sequence, else none.
pub open spec fn sequence_entries(key: Seq<char>, v: Node) -> Option<Seq<(Seq<char>, Seq<char>)>>
    decreases v, 1int, 0int,
{
    match v {
        Node::Sequence(items) => items_entries(key, v, items@.len() as int),
        _ => Some(seq![]),
    }
}

/// The entries of the first `n` elements of the sequence `v`, all under
/// `key` itself. Elements that are neither sequences nor mappings give none.
pub open spec fn items_entries(key: Seq<char>, v: Node, n: int) -> Option<
    Seq<(Seq<char>, Seq<char>)>,
>
    decreases v, 0int, n,
{
    match v {
        Node::Sequence(items) => {
            if n <= 0 || n > items@.len() {
                Some(seq![])
            } else {
                join(
                    items_entries(key, v, n - 1),
                    match items@[n - 1] {
                        Node::Sequence(_) => sequence_entries(key, items@[n - 1]),
                        Node::Mapping(_) => mapping_entries(key, items@[n - 1]),
                        _ => Some(seq![]),
                    },
                )
            }
        },
        _ => Some(seq![]),
    }
}

/// What a document flattens to: its root must be a mapping, and each root
/// entry is flattened under its own key, in order.
pub open spec fn document_entries(doc: Node) -> Result<Seq<(Seq<char>, Seq<char>)>, FlattenError> {
    match doc {
        Node::Mapping(pairs) => match root_entries(doc, pairs@.len() as int) {
            Some(es) => Ok(es),
            None => Err(FlattenError::NonStringKey),
        },
        _ => Err(FlattenError::RootNotMapping),
    }
}

/// The entries of one root pair: its value under its key, which must be a
/// string.
pub open spec fn root_pair_entries(k: Node, v: Node) -> Option<Seq<(Seq<char>, Seq<char>)>> {
    match k {
        Node::Str(s) => value_entries(s@, v),
        _ => None,
    }
}

/// The entries of the first `n` pairs of the root mapping `doc`.
pub open spec fn root_entries(doc: Node, n: int) -> Option<Seq<(Seq<char>, Seq<char>)>>
    decreases n,
{
    match doc {
        Node::Mapping(pairs) => {
            if n <= 0 || n > pairs@.len() {
                Some(seq![])
            } else {
                join(root_entries(doc, n - 1), root_pair_entries(pairs@[n - 1].0, pairs@[n - 1].1))
            }
        },
        _ => Some(seq![]),
    }
}

/// After a handler: the vectors are still parallel, and either the model's
/// entries were appended, or the model holds a non-string key and so does
/// the error.
pub open spec fn appended(
    r: Result<(), FlattenError>,
    k0: Seq<String>,
    v0: Seq<String>,
    k1: Seq<String>,
    v1: Seq<String>,
    model: Option<Seq<(Seq<char>, Seq<char>)>>,
) -> bool {
    &&& k1.len() == v1.len()
    &&& match model {
        Some(es) => r is Ok && table(k1, v1) == table(k0, v0) + es,
        None => r == Err::<(), FlattenError>(FlattenError::NonStringKey),
    }
}

proof fn lemma_pairs_none_stays(key: Seq<char>, v: Node, m: int, n: int)
    requires
        v is Mapping,
        0 < m <= n <= v->Mapping_0@.len(),
        pairs_entries(key, v, m) is None,
    ensures
        pairs_entries(key, v, n) is None,
    decreases n - m,
{
    if m < n {
        lemma_pairs_none_stays(key, v, m, n - 1);
    }
}

proof fn lemma_items_none_stays(key: Seq<char>, v: Node, m: int, n: int)
    requires
        v is Sequence,
        0 < m <= n <= v->Sequence_0@.len(),
        items_entries(key, v, m) is None,
    ensures
        items_entries(key, v, n) is None,
    decreases n - m,
{
    if m < n {
        lemma_items_none_stays(key, v, m, n - 1);
    }
}

proof fn lemma_root_none_stays(doc: Node, m: int, n: int)
    requires
        doc is Mapping,
        0 < m <= n <= doc->Mapping_0@.len(),
        root_entries(doc, m) is None,
    ensures
        root_entries(doc, n) is None,
    decreases n - m,
{
    if m < n {
        lemma_root_none_stays(doc, m, n - 1);
    }
}

fn bool_string(b: bool) -> (r: String)
    ensures
        r@ == bool_text(b),
{
    if b {
        String::from_str("true")
    } else {
        String::from_str("false")
    }
}

/// The path `key.sub`.
fn child_path(key: &str, sub: &str) -> (r: String)
    ensures
        r@ == child_key(key@, sub@),
{
    let mut path = String::from_str(key);
    path.append(".");
    path.append(sub);
    proof {
        reveal_strlit(".");
    }
    path
}

fn push_entry(key: &str, text: String, keys: &mut Vec<String>, values: &mut Vec<String>)
    requires
        old(keys)@.len() == old(values)@.len(),
    ensures
        final(keys)@.len() == final(values)@.len(),
        table(final(keys)@, final(values)@) == table(old(keys)@, old(values)@).push(
            (key@, text@),
        ),
{
    let ghost t = text@;
    values.push(text);
    keys.push(String::from_str(key));
    assert(table(keys@, values@) =~= table(old(keys)@, old(values)@).push((key@, t)));
}

/// Appends `key` and `"true"` or `"false"` when `value` is a boolean.
pub fn handle_root_bool_value_type(
    key: &str,
    value: &Node,
    keys_result: &mut Vec<String>,
    values_result: &mut Vec<String>,
)
    requires
        old(keys_result)@.len() == old(values_result)@.len(),
    ensures
        final(keys_result)@.len() == final(values_result)@.len(),
        table(final(keys_result)@, final(values_result)@) == table(
            old(keys_result)@,
            old(values_result)@,
        ) + bool_entries(key@, *value),
{
    if let Node::Bool(b) = value {
        push_entry(key, bool_string(*b), keys_result, values_result);
    }
    assert(table(keys_result@, values_result@) =~= table(old(keys_result)@, old(values_result)@)
        + bool_entries(key@, *value));
}

/// Appends `key` and the string when `value` is a string.
pub fn handle_root_string_value_type(
    key: &str,
    value: &Node,
    keys_result: &mut Vec<String>,
    values_result: &mut Vec<String>,
)
    requires
        old(keys_result)@.len() == old(values_result)@.len(),
    ensures
        final(keys_result)@.len() == final(values_result)@.len(),
        table(final(keys_result)@, final(values_result)@) == table(
            old(keys_result)@,
            old(values_result)@,
        ) + string_entries(key@, *value),
{
    if let Node::Str(s) = value {
        push_entry(key, s.clone(), keys_result, values_result);
    }
    assert(table(keys_result@, values_result@) =~= table(old(keys_result)@, old(values_result)@)
        + string_entries(key@, *value));
}

/// Appends `key` and the number's decimal text when `value` is an integer or
/// a float.
pub fn handle_root_number_value_type(
    key: &str,
    value: &Node,
    keys_result: &mut Vec<String>,
    values_result: &mut Vec<String>,
)
    requires
        old(keys_result)@.len() == old(values_result)@.len(),
    ensures
        final(keys_result)@.len() == final(values_result)@.len(),
        table(final(keys_result)@, final(values_result)@) == table(
            old(keys_result)@,
            old(values_result)@,
        ) + number_entries(key@, *value),
{
    match value {
        Node::Integer(n) => push_entry(key, i64_text(*n), keys_result, values_result),
        Node::Float(t) => push_entry(key, t.clone(), keys_result, values_result),
        _ => {},
    }
    assert(table(keys_result@, values_result@) =~= table(old(keys_result)@, old(values_result)@)
        + number_entries(key@, *value));
}

/// When `value` is a sequence, flattens each element that is a sequence or a
/// mapping under `key` itself; other elements are skipped.
pub fn handle_root_sequence_value_type_recursively(
    key: &str,
    value: &Node,
    keys_result: &mut Vec<String>,
    values_result: &mut Vec<String>,
) -> (r: Result<(), FlattenError>)
    requires
        old(keys_result)@.len() == old(values_result)@.len(),
    ensures
        appended(
            r,
            old(keys_result)@,
            old(values_result)@,
            final(keys_result)@,
            final(values_result)@,
            sequence_entries(key@, *value),
        ),
    decreases *value, 1int, 0int,
{
    if let Node::Sequence(items) = value {
        let mut i: usize = 0;
        while i < items.len()
            invariant
                *value == Node::Sequence(*items),
                i <= items@.len(),
                keys_result@.len() == values_result@.len(),
                items_entries(key@, *value, i as int) matches Some(es) && table(
                    keys_result@,
                    values_result@,
                ) == table(old(keys_result)@, old(values_result)@) + es,
            decreases items@.len() - i,
        {
            let item = &items[i];
            let r = match item {
                Node::Sequence(_) => handle_root_sequence_value_type_recursively(
                    key,
                    item,
                    keys_result,
                    values_result,
                ),
                Node::Mapping(_) => handle_root_mapping_value_type_recursively(
                    key,
                    item,
                    keys_result,
                    values_result,
                ),
                _ => Ok(()),
            };
            if r.is_err() {
                proof {
                    lemma_items_none_stays(key@, *value, i + 1, items@.len() as int);
                }
                return r;
            }
            proof {
                assert(table(keys_result@, values_result@) =~= table(
                    old(keys_result)@,
                    old(values_result)@,
                ) + items_entries(key@, *value, i + 1)->Some_0);
            }
            i = i + 1;
        }
    }
    Ok(())
}

/// When `map_value` is a mapping, flattens each entry under `key.sub_key`:
/// its scalar first, then its own mapping, then its sequence.
pub fn handle_root_mapping_value_type_recursively(
    key: &str,
    map_value: &Node,
    keys_result: &mut Vec<String>,
    values_result: &mut Vec<String>,
) -> (r: Result<(), FlattenError>)
    requires
        old(keys_result)@.len() == old(values_result)@.len(),
    ensures
        appended(
            r,
            old(keys_result)@,
            old(values_result)@,
            final(keys_result)@,
            final(values_result)@,
            mapping_entries(key@, *map_value),
        ),
    decreases *map_value, 1int, 0int,
{
    if let Node::Mapping(pairs) = map_value {
        let mut i: usize = 0;
        while i < pairs.len()
            invariant
                *map_value == Node::Mapping(*pairs),
                i <= pairs@.len(),
                keys_result@.len() == values_result@.len(),
                pairs_entries(key@, *map_value, i as int) matches Some(es) && table(
                    keys_result@,
                    values_result@,
                ) == table(old(keys_result)@, old(values_result)@) + es,
            decreases pairs@.len() - i,
        {
            let sub_key = &pairs[i].0;
            let sub_value = &pairs[i].1;
            let new_sub_key = match sub_key {
                Node::Str(s) => {
                    assert(pairs@[i as int].0 == Node::Str(*s));
                    child_path(key, s.as_str())
                },
                _ => {
                    proof {
                        lemma_pairs_none_stays(key@, *map_value, i + 1, pairs@.len() as int);
                    }
                    return Err(FlattenError::NonStringKey);
                },
            };
            let ghost t0 = table(keys_result@, values_result@);
            let ghost sub = value_entries(new_sub_key@, *sub_value);
            assert(pairs_entries(key@, *map_value, i + 1) == join(
                pairs_entries(key@, *map_value, i as int),
                sub,
            ));
            handle_root_bool_value_type(new_sub_key.as_str(), sub_value, keys_result, values_result);
            handle_root_number_value_type(new_sub_key.as_str(), sub_value, keys_result, values_result);
            handle_root_string_value_type(new_sub_key.as_str(), sub_value, keys_result, values_result);
            let r = handle_root_mapping_value_type_recursively(
                new_sub_key.as_str(),
                sub_value,
                keys_result,
                values_result,
            );
            if r.is_err() {
                proof {
                    lemma_pairs_none_stays(key@, *map_value, i + 1, pairs@.len() as int);
                }
                return r;
            }
            let r = handle_root_sequence_value_type_recursively(
                new_sub_key.as_str(),
                sub_value,
                keys_result,
                values_result,
            );
            if r.is_err() {
                proof {
                    lemma_pairs_none_stays(key@, *map_value, i + 1, pairs@.len() as int);
                }
                return r;
            }
            assert(table(keys_result@, values_result@) =~= t0 + sub->Some_0);
            assert(table(keys_result@, values_result@) =~= table(
                old(keys_result)@,
                old(values_result)@,
            ) + pairs_entries(key@, *map_value, i + 1)->Some_0);
            i = i + 1;
        }
    }
    Ok(())
}

/// Flattens one root entry: `value` under `key`, which must be a string.
pub fn handle_all_root_value_types(
    key: &Node,
    value: &Node,
    keys_result: &mut Vec<String>,
    values_result: &mut Vec<String>,
) -> (r: Result<(), FlattenError>)
    requires
        old(keys_result)@.len() == old(values_result)@.len(),
    ensures
        appended(
            r,
            old(keys_result)@,
            old(values_result)@,
            final(keys_result)@,
            final(values_result)@,
            root_pair_entries(*key, *value),
        ),
{
    let new_key = match key {
        Node::Str(s) => s.as_str(),
        _ => return Err(FlattenError::NonStringKey),
    };
    let ghost t0 = table(keys_result@, values_result@);
    handle_root_bool_value_type(new_key, value, keys_result, values_result);
    handle_root_number_value_type(new_key, value, keys_result, values_result);
    handle_root_string_value_type(new_key, value, keys_result, values_result);
    let r = handle_root_sequence_value_type_recursively(new_key, value, keys_result, values_result);
    if r.is_err() {
        return r;
    }
    let r = handle_root_mapping_value_type_recursively(new_key, value, keys_result, values_result);
    if r.is_err() {
        return r;
    }
    proof {
        // A node is a sequence or a mapping, never both, so the order of the
        // last two handlers does not show.
        assert(sequence_entries(new_key@, *value) == Some(Seq::<(Seq<char>, Seq<char>)>::empty())
            || mapping_entries(new_key@, *value) == Some(
            Seq::<(Seq<char>, Seq<char>)>::empty(),
        ));
        assert(table(keys_result@, values_result@) =~= t0 + value_entries(
            new_key@,
            *value,
        )->Some_0);
    }
    Ok(())
}

/// Flattens a document whose root is a mapping into parallel vectors of key
/// paths and value texts.
pub fn flatten(doc: &Node) -> (r: Result<(Vec<String>, Vec<String>), FlattenError>)
    ensures
        match document_entries(*doc) {
            Ok(es) => r matches Ok((keys, values)) && keys@.len() == values@.len() && table(
                keys@,
                values@,
            ) == es,
            Err(e) => r == Err::<(Vec<String>, Vec<String>), FlattenError>(e),
        },
{
    match doc {
        Node::Mapping(pairs) => {
            let mut keys_result: Vec<String> = Vec::new();
            let mut values_result: Vec<String> = Vec::new();
            let mut i: usize = 0;
            while i < pairs.len()
                invariant
                    *doc == Node::Mapping(*pairs),
                    i <= pairs@.len(),
                    keys_result@.len() == values_result@.len(),
                    root_entries(*doc, i as int) matches Some(es) && table(
                        keys_result@,
                        values_result@,
                    ) == es,
                decreases pairs@.len() - i,
            {
                let r = handle_all_root_value_types(
                    &pairs[i].0,
                    &pairs[i].1,
                    &mut keys_result,
                    &mut values_result,
                );
                if r.is_err() {
                    proof {
                        lemma_root_none_stays(*doc, i + 1, pairs@.len() as int);
                    }
                    return Err(FlattenError::NonStringKey);
                }
                assert(table(keys_result@, values_result@) =~= root_entries(
                    *doc,
                    i + 1,
                )->Some_0);
                i = i + 1;
            }
            Ok((keys_result, values_result))
        },
        _ => Err(FlattenError::RootNotMapping),
    }
}

/// A document whose root is not a mapping, a bare scalar or a sequence,
/// fails with `RootNotMapping` and flattens to nothing.
pub proof fn lemma_root_must_be_mapping(doc: Node)
    requires
        !(doc is Mapping),
    ensures
        document_entries(doc) == Err::<Seq<(Seq<char>, Seq<char>)>, FlattenError>(
            FlattenError::RootNotMapping,
        ),
{
}

} // verus!
