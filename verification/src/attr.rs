//! The open attribute bag: a tagged value type for the heterogeneous details
//! that events and proofs carry, with a deterministic textual rendering.
use vstd::prelude::*;
use crate::numfmt::{dec_of_signed, i64_to_dec};

verus! {

broadcast use vstd::std_specs::vec::axiom_vec_decreases_to_view, vstd::seq::axiom_seq_index_decreases, vstd::seq::axiom_seq_subrange_decreases;

/// A heterogeneous attribute value: null, boolean, integer, string, array or
/// object. Event and proof shapes differ by type, so the bag stays open.
pub enum AttrValue {
    Null,
    Bool(bool),
    Int(i64),
    Str(String),
    Arr(Vec<AttrValue>),
    Obj(Vec<(String, AttrValue)>),
}

/// An attribute bag: string keys mapped to attribute values. A later entry
/// with the same key shadows an earlier one.
pub type AttrBag = Vec<(String, AttrValue)>;

/// The mathematical model of an attribute value.
pub enum AttrModel {
    Null,
    Bool(bool),
    Int(int),
    Str(Seq<char>),
    Arr(Seq<AttrModel>),
    Obj(Seq<(Seq<char>, AttrModel)>),
}

/// The model of an attribute value.
pub open spec fn model_of(v: AttrValue) -> AttrModel
    decreases v,
{
    match v {
        AttrValue::Null => AttrModel::Null,
        AttrValue::Bool(b) => AttrModel::Bool(b),
        AttrValue::Int(n) => AttrModel::Int(n as int),
        AttrValue::Str(s) => AttrModel::Str(s@),
        AttrValue::Arr(items) => AttrModel::Arr(models_of(items@)),
        AttrValue::Obj(pairs) => AttrModel::Obj(pair_models_of(pairs@)),
    }
}

/// The models of a sequence of attribute values, in order.
pub open spec fn models_of(s: Seq<AttrValue>) -> Seq<AttrModel>
    decreases s,
{
    if s.len() == 0 {
        Seq::empty()
    } else {
        models_of(s.drop_last()).push(model_of(s.last()))
    }
}

/// The models of a sequence of key/value pairs, in order.
pub open spec fn pair_models_of(s: Seq<(String, AttrValue)>) -> Seq<(Seq<char>, AttrModel)>
    decreases s,
{
    if s.len() == 0 {
        Seq::empty()
    } else {
        pair_models_of(s.drop_last()).push((s.last().0@, model_of(s.last().1)))
    }
}

/// The model of a whole bag.
pub open spec fn bag_model(bag: AttrBag) -> Seq<(Seq<char>, AttrModel)> {
    pair_models_of(bag@)
}

pub broadcast proof fn lemma_models_of_len(s: Seq<AttrValue>)
    ensures
        #[trigger] models_of(s).len() == s.len(),
    decreases s,
{
    if s.len() > 0 {
        lemma_models_of_len(s.drop_last());
    }
}

pub broadcast proof fn lemma_models_of_index(s: Seq<AttrValue>, i: int)
    requires
        0 <= i < s.len(),
    ensures
        #[trigger] models_of(s)[i] == model_of(s[i]),
    decreases s,
{
    lemma_models_of_len(s);
    if i < s.len() - 1 {
        lemma_models_of_index(s.drop_last(), i);
        lemma_models_of_len(s.drop_last());
    }
}

pub broadcast proof fn lemma_pair_models_of_len(s: Seq<(String, AttrValue)>)
    ensures
        #[trigger] pair_models_of(s).len() == s.len(),
    decreases s,
{
    if s.len() > 0 {
        lemma_pair_models_of_len(s.drop_last());
    }
}

pub broadcast proof fn lemma_pair_models_of_index(s: Seq<(String, AttrValue)>, i: int)
    requires
        0 <= i < s.len(),
    ensures
        #[trigger] pair_models_of(s)[i] == (s[i].0@, model_of(s[i].1)),
    decreases s,
{
    lemma_pair_models_of_len(s);
    if i < s.len() - 1 {
        lemma_pair_models_of_index(s.drop_last(), i);
        lemma_pair_models_of_len(s.drop_last());
    }
}

/// Looks a key up in a bag model; the latest entry with the key wins,
/// mirroring overwrite-on-insert semantics.
pub open spec fn bag_get(s: Seq<(Seq<char>, AttrModel)>, key: Seq<char>) -> Option<AttrModel>
    decreases s,
{
    if s.len() == 0 {
        Option::None
    } else if s.last().0 == key {
        Option::Some(s.last().1)
    } else {
        bag_get(s.drop_last(), key)
    }
}

/// The integer stored under a key, or zero when the key is absent or holds
/// a value of another shape.
pub open spec fn bag_int_or_zero(s: Seq<(Seq<char>, AttrModel)>, key: Seq<char>) -> int {
    match bag_get(s, key) {
        Option::Some(AttrModel::Int(n)) => n,
        _ => 0,
    }
}

/// Looks a key up in a bag; the latest entry with the key wins.
#[verifier::loop_isolation(false)]
pub fn bag_lookup<'a>(bag: &'a AttrBag, key: &str) -> (r: Option<&'a AttrValue>)
    ensures
        match r {
            Option::Some(v) => bag_get(bag_model(*bag), key@) == Option::Some(model_of(*v)),
            Option::None => bag_get(bag_model(*bag), key@) is None,
        },
{
    let wanted: String = key.to_owned();
    let mut i: usize = bag.len();
    assert(bag@.subrange(0, bag@.len() as int) =~= bag@);
    while i > 0
        invariant
            i <= bag.len(),
            bag_get(pair_models_of(bag@.subrange(0, i as int)), key@) == bag_get(
                bag_model(*bag),
                key@,
            ),
        decreases i,
    {
        i = i - 1;
        let ghost pm_full = pair_models_of(bag@.subrange(0, i + 1));
        proof {
            lemma_pair_models_of_len(bag@.subrange(0, i + 1));
            assert(bag@.subrange(0, i + 1).drop_last() =~= bag@.subrange(0, i as int));
            assert(bag@.subrange(0, i + 1).last() == bag@[i as int]);
            assert(pm_full == pair_models_of(bag@.subrange(0, i as int)).push(
                (bag@[i as int].0@, model_of(bag@[i as int].1)),
            ));
            assert(pm_full.drop_last() =~= pair_models_of(bag@.subrange(0, i as int)));
            assert(pm_full.last() == (bag@[i as int].0@, model_of(bag@[i as int].1)));
        }
        if bag[i].0 == wanted {
            return Option::Some(&bag[i].1);
        }
        assert(bag_get(pm_full, key@) == bag_get(pm_full.drop_last(), key@));
    }
    assert(bag@.subrange(0, 0) =~= Seq::<(String, AttrValue)>::empty());
    Option::None
}

/// The integer stored under a key, or zero when the key is absent or holds
/// a value of another shape.
pub fn bag_int(bag: &AttrBag, key: &str) -> (r: i64)
    ensures
        r as int == bag_int_or_zero(bag_model(*bag), key@),
{
    match bag_lookup(bag, key) {
        Option::Some(AttrValue::Int(n)) => *n,
        _ => 0,
    }
}

/// The escaped form of one character inside a rendered string.
pub open spec fn esc_char(c: char) -> Seq<char> {
    if c == '"' {
        seq!['\\', '"']
    } else if c == '\\' {
        seq!['\\', '\\']
    } else if c == '\n' {
        seq!['\\', 'n']
    } else if c == '\r' {
        seq!['\\', 'r']
    } else if c == '\t' {
        seq!['\\', 't']
    } else {
        seq![c]
    }
}

/// The escaped form of a whole string.
pub open spec fn escape_of(s: Seq<char>) -> Seq<char>
    decreases s,
{
    if s.len() == 0 {
        Seq::empty()
    } else {
        escape_of(s.drop_last()) + esc_char(s.last())
    }
}

/// The rendering of an attribute value, a deterministic textual form used
/// for export and for hashing.
pub open spec fn json_of(m: AttrModel) -> Seq<char>
    decreases m,
{
    match m {
        AttrModel::Null => seq!['n', 'u', 'l', 'l'],
        AttrModel::Bool(b) => if b {
            seq!['t', 'r', 'u', 'e']
        } else {
            seq!['f', 'a', 'l', 's', 'e']
        },
        AttrModel::Int(n) => dec_of_signed(n),
        AttrModel::Str(s) => seq!['"'] + escape_of(s) + seq!['"'],
        AttrModel::Arr(items) => seq!['['] + json_seq_of(items) + seq![']'],
        AttrModel::Obj(pairs) => seq!['{'] + json_pairs_of(pairs) + seq!['}'],
    }
}

/// The comma-separated rendering of a sequence of values.
pub open spec fn json_seq_of(s: Seq<AttrModel>) -> Seq<char>
    decreases s,
{
    if s.len() == 0 {
        Seq::empty()
    } else if s.len() == 1 {
        json_of(s.last())
    } else {
        json_seq_of(s.drop_last()) + seq![','] + json_of(s.last())
    }
}

/// The comma-separated rendering of a sequence of key/value pairs.
pub open spec fn json_pairs_of(s: Seq<(Seq<char>, AttrModel)>) -> Seq<char>
    decreases s,
{
    if s.len() == 0 {
        Seq::empty()
    } else if s.len() == 1 {
        json_pair_of(s.last())
    } else {
        json_pairs_of(s.drop_last()) + seq![','] + json_pair_of(s.last())
    }
}

/// The rendering of one key/value pair.
pub open spec fn json_pair_of(p: (Seq<char>, AttrModel)) -> Seq<char>
    decreases p,
{
    seq!['"'] + escape_of(p.0) + seq!['"', ':'] + json_of(p.1)
}

/// Appends the escaped form of a string.
#[verifier::loop_isolation(false)]
fn append_escaped(out: &mut String, s: &str)
    ensures
        final(out)@ == old(out)@ + escape_of(s@),
{
    let n = s.unicode_len();
    let mut i: usize = 0;
    assert(s@.subrange(0, 0) =~= Seq::<char>::empty());
    while i < n
        invariant
            n == s@.len(),
            i <= n,
            out@ == old(out)@ + escape_of(s@.subrange(0, i as int)),
        decreases n - i,
    {
        let c = s.get_char(i);
        proof {
            reveal_strlit("\\\"");
            reveal_strlit("\\\\");
            reveal_strlit("\\n");
            reveal_strlit("\\r");
            reveal_strlit("\\t");
        }
        if c == '"' {
            out.append("\\\"");
        } else if c == '\\' {
            out.append("\\\\");
        } else if c == '\n' {
            out.append("\\n");
        } else if c == '\r' {
            out.append("\\r");
        } else if c == '\t' {
            out.append("\\t");
        } else {
            push_char(out, c);
        }
        proof {
            assert(s@.subrange(0, i + 1).drop_last() =~= s@.subrange(0, i as int));
            assert(s@.subrange(0, i + 1).last() == s@[i as int]);
        }
        i = i + 1;
    }
    assert(s@.subrange(0, n as int) =~= s@);
}

/// Appends a single character.
pub fn push_char(out: &mut String, c: char)
    ensures
        final(out)@ == old(out)@ + seq![c],
{
    out.push(c);
}

/// Appends the rendering of an attribute value.
#[verifier::loop_isolation(false)]
pub fn append_json(out: &mut String, v: &AttrValue)
    ensures
        final(out)@ == old(out)@ + json_of(model_of(*v)),
    decreases v,
{
    proof {
        reveal_strlit("null");
        reveal_strlit("true");
        reveal_strlit("false");
        reveal_strlit("\"");
        reveal_strlit("[");
        reveal_strlit("]");
        reveal_strlit("{");
        reveal_strlit("}");
        reveal_strlit(",");
        reveal_strlit(":");
    }
    match v {
        AttrValue::Null => {
            out.append("null");
            assert(out@ =~= old(out)@ + json_of(model_of(*v)));
        },
        AttrValue::Bool(b) => {
            if *b {
                out.append("true");
            } else {
                out.append("false");
            }
            assert(out@ =~= old(out)@ + json_of(model_of(*v)));
        },
        AttrValue::Int(n) => {
            let rendered = i64_to_dec(*n);
            out.append(rendered.as_str());
        },
        AttrValue::Str(s) => {
            out.append("\"");
            append_escaped(out, s.as_str());
            out.append("\"");
            assert(out@ =~= old(out)@ + json_of(model_of(*v)));
        },
        AttrValue::Arr(items) => {
            out.append("[");
            let ghost ms = models_of(items@);
            proof {
                lemma_models_of_len(items@);
            }
            let mut i: usize = 0;
            while i < items.len()
                invariant
                    i <= items.len(),
                    ms == models_of(items@),
                    ms.len() == items@.len(),
                    out@ == old(out)@ + seq!['['] + json_seq_of(ms.subrange(0, i as int)),
                decreases items.len() - i,
            {
                if i > 0 {
                    out.append(",");
                }
                append_json(out, &items[i]);
                proof {
                    lemma_models_of_index(items@, i as int);
                    assert(ms.subrange(0, i + 1).drop_last() =~= ms.subrange(0, i as int));
                    assert(ms.subrange(0, i + 1).last() == ms[i as int]);
                }
                i = i + 1;
            }
            out.append("]");
            proof {
                assert(ms.subrange(0, items@.len() as int) =~= ms);
            }
            assert(out@ =~= old(out)@ + json_of(model_of(*v)));
        },
        AttrValue::Obj(pairs) => {
            append_json_object(out, pairs);
            assert(out@ =~= old(out)@ + json_of(model_of(*v)));
        },
    }
}

/// Appends the rendering of an attribute bag as an object.
#[verifier::loop_isolation(false)]
pub fn append_json_object(out: &mut String, pairs: &AttrBag)
    ensures
        final(out)@ == old(out)@ + json_of(AttrModel::Obj(bag_model(*pairs))),
    decreases pairs,
{
    proof {
        reveal_strlit("\"");
        reveal_strlit("{");
        reveal_strlit("}");
        reveal_strlit(",");
        reveal_strlit(":");
    }
    {
        {
            out.append("{");
            let ghost ms = pair_models_of(pairs@);
            proof {
                lemma_pair_models_of_len(pairs@);
            }
            let mut i: usize = 0;
            while i < pairs.len()
                invariant
                    i <= pairs.len(),
                    ms == pair_models_of(pairs@),
                    ms.len() == pairs@.len(),
                    out@ == old(out)@ + seq!['{'] + json_pairs_of(ms.subrange(0, i as int)),
                decreases pairs.len() - i,
            {
                if i > 0 {
                    out.append(",");
                }
                out.append("\"");
                append_escaped(out, pairs[i].0.as_str());
                out.append("\"");
                out.append(":");
                append_json(out, &pairs[i].1);
                proof {
                    lemma_pair_models_of_index(pairs@, i as int);
                    assert(ms.subrange(0, i + 1).drop_last() =~= ms.subrange(0, i as int));
                    assert(ms.subrange(0, i + 1).last() == ms[i as int]);
                    assert(json_pair_of(ms[i as int]) == seq!['"'] + escape_of(pairs@[i as int].0@)
                        + seq!['"', ':'] + json_of(model_of(pairs@[i as int].1)));
                    if i == 0 {
                        assert(json_pairs_of(ms.subrange(0, 1)) == json_pair_of(ms[0]));
                    } else {
                        assert(json_pairs_of(ms.subrange(0, i + 1)) == json_pairs_of(
                            ms.subrange(0, i as int),
                        ) + seq![','] + json_pair_of(ms[i as int]));
                    }
                    assert(out@ =~= old(out)@ + seq!['{'] + json_pairs_of(
                        ms.subrange(0, i + 1),
                    ));
                }
                i = i + 1;
            }
            out.append("}");
            proof {
                assert(ms.subrange(0, pairs@.len() as int) =~= ms);
            }
            assert(out@ =~= old(out)@ + json_of(AttrModel::Obj(bag_model(*pairs))));
        }
    }
}

/// Renders an attribute value as text.
pub fn render_json(v: &AttrValue) -> (r: String)
    ensures
        r@ == json_of(model_of(*v)),
{
    let mut out = String::new();
    append_json(&mut out, v);
    out
}

/// A deep copy of an attribute value, equal to the original in its model.
#[verifier::loop_isolation(false)]
pub fn duplicate_value(v: &AttrValue) -> (r: AttrValue)
    ensures
        model_of(r) == model_of(*v),
    decreases v,
{
    match v {
        AttrValue::Null => AttrValue::Null,
        AttrValue::Bool(b) => AttrValue::Bool(*b),
        AttrValue::Int(n) => AttrValue::Int(*n),
        AttrValue::Str(s) => AttrValue::Str(s.clone()),
        AttrValue::Arr(items) => {
            let mut copied: Vec<AttrValue> = Vec::new();
            let mut i: usize = 0;
            while i < items.len()
                invariant
                    i <= items.len(),
                    copied@.len() == i,
                    models_of(copied@) =~= models_of(items@.subrange(0, i as int)),
                decreases items.len() - i,
            {
                let duplicated = duplicate_value(&items[i]);
                let ghost pre = copied@;
                copied.push(duplicated);
                proof {
                    assert(items@.subrange(0, i + 1).drop_last() =~= items@.subrange(
                        0,
                        i as int,
                    ));
                    assert(items@.subrange(0, i + 1).last() == items@[i as int]);
                    assert(copied@.drop_last() =~= pre);
                    assert(models_of(copied@) == models_of(pre).push(model_of(items@[i as int])));
                }
                i = i + 1;
            }
            proof {
                assert(items@.subrange(0, items@.len() as int) =~= items@);
            }
            AttrValue::Arr(copied)
        },
        AttrValue::Obj(pairs) => {
            AttrValue::Obj(duplicate_bag(pairs))
        },
    }
}

/// A deep copy of an attribute bag, equal to the original in its model.
#[verifier::loop_isolation(false)]
pub fn duplicate_bag(bag: &AttrBag) -> (r: AttrBag)
    ensures
        bag_model(r) == bag_model(*bag),
    decreases bag,
{
    let mut copied: AttrBag = Vec::new();
    let mut i: usize = 0;
    while i < bag.len()
        invariant
            i <= bag.len(),
            copied@.len() == i,
            pair_models_of(copied@) =~= pair_models_of(bag@.subrange(0, i as int)),
        decreases bag.len() - i,
    {
        let pair = (bag[i].0.clone(), duplicate_value(&bag[i].1));
        let ghost pre = copied@;
        copied.push(pair);
        proof {
            assert(bag@.subrange(0, i + 1).drop_last() =~= bag@.subrange(0, i as int));
            assert(bag@.subrange(0, i + 1).last() == bag@[i as int]);
            assert(copied@.drop_last() =~= pre);
            assert(pair_models_of(copied@) == pair_models_of(pre).push(
                (bag@[i as int].0@, model_of(bag@[i as int].1)),
            ));
        }
        i = i + 1;
    }
    proof {
        assert(bag@.subrange(0, bag@.len() as int) =~= bag@);
    }
    copied
}

} // verus!
