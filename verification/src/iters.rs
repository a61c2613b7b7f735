//! The five value generators. Each evaluation takes the generator's
//! specification and the current context and returns the finite binding
//! sequence for this (re)start; a fresh evaluation is made whenever the
//! iterator restarts a position, because the specification's templates
//! may reference values bound by earlier positions.
//!
//! The range and fixed-list kinds depend on the context alone, and their
//! results are pinned to a model; the glob- and JSON-driven kinds depend
//! on what is on disk, so only the shape of their bindings is promised.

use vstd::map::*;
use vstd::prelude::*;

use crate::ctx::ItemData;
use crate::fsio::{glob_paths, read_text_file};
use crate::jsonio::{parse_json, select_values, value_to_string};
use crate::models::{IterGlobJsonPattern, IterJsonRangePattern, IterList, IterPattern, IterRange,
    IterRangePattern, TaskIter};
use crate::text::{dec_str, parse_usize_spec, parse_usize, usize_to_dec};
use crate::utils::{get_handlebars, get_json_val, render_of};

verus! {

/// The views of a binding list.
pub open spec fn views_of(s: Seq<ItemData>) -> Seq<Map<Seq<char>, Seq<char>>> {
    Seq::new(s.len(), |i: int| s[i]@)
}

/// Every binding in the list has unique keys.
pub open spec fn all_wf(s: Seq<ItemData>) -> bool {
    forall|i: int| 0 <= i < s.len() ==> (#[trigger] s[i]).wf()
}

/// The bindings of a numeric range: one per integer, in ascending
/// order, each binding the name to the integer's decimal string.
pub open spec fn range_model(name: Seq<char>, offset: nat, take: nat) -> Seq<
    Map<Seq<char>, Seq<char>>,
> {
    Seq::new(take, |i: int| Map::empty().insert(name, dec_str((offset + i) as nat)))
}

/// The bindings of a fixed list: one per element, in order.
pub open spec fn list_model(name: Seq<char>, vals: Seq<Seq<char>>) -> Seq<
    Map<Seq<char>, Seq<char>>,
> {
    Seq::new(vals.len(), |i: int| Map::empty().insert(name, vals[i]))
}

/// What a range generator yields under a context: both templates must
/// resolve and parse as non-negative integers whose sum stays
/// representable; any failure yields the empty sequence.
pub open spec fn range_eval(
    name: Seq<char>,
    offset_t: Seq<char>,
    take_t: Seq<char>,
    env: Map<Seq<char>, Seq<char>>,
) -> Seq<Map<Seq<char>, Seq<char>>> {
    match render_of(offset_t, env) {
        Some(os) => match render_of(take_t, env) {
            Some(ts) => match parse_usize_spec(os) {
                Some(o) => match parse_usize_spec(ts) {
                    Some(t) => if o + t <= usize::MAX {
                        range_model(name, o as nat, t as nat)
                    } else {
                        Seq::empty()
                    },
                    None => Seq::empty(),
                },
                None => Seq::empty(),
            },
            None => Seq::empty(),
        },
        None => Seq::empty(),
    }
}

/// The generator kinds whose evaluation depends on the context alone.
pub open spec fn det_gen(g: TaskIter) -> bool {
    g matches TaskIter::Range(_) || g matches TaskIter::Vec(_)
}

/// What a context-only generator yields under a context.
pub open spec fn gen_model(g: TaskIter, env: Map<Seq<char>, Seq<char>>) -> Seq<
    Map<Seq<char>, Seq<char>>,
> {
    match g {
        TaskIter::Range(ir) => range_eval(ir.name@, ir.offset@, ir.take@, env),
        TaskIter::Vec(il) => list_model(il.name@, il.val.deep_view()),
        _ => Seq::empty(),
    }
}

/// Evaluate a fixed-list generator.
pub fn get_iter_vec(iter_vec: &IterList) -> (r: Vec<ItemData>)
    ensures
        views_of(r@) == list_model(iter_vec.name@, iter_vec.val.deep_view()),
        all_wf(r@),
{
    let n = iter_vec.val.len();
    let mut out: Vec<ItemData> = Vec::new();
    let mut i: usize = 0;
    while i < n
        invariant
            0 <= i <= n,
            n == iter_vec.val@.len(),
            out@.len() == i,
            all_wf(out@),
            forall|t: int|
                0 <= t < i ==> (#[trigger] out@[t])@ == Map::<Seq<char>, Seq<char>>::empty().insert(
                    iter_vec.name@,
                    iter_vec.val@[t]@,
                ),
        decreases n - i,
    {
        out.push(ItemData::from_pair(iter_vec.name.clone(), iter_vec.val[i].clone()));
        i = i + 1;
    }
    proof {
        assert(views_of(out@) =~= list_model(iter_vec.name@, iter_vec.val.deep_view()));
    }
    out
}

fn expand_range(name: &str, offset: usize, take: usize) -> (r: Vec<ItemData>)
    requires
        offset + take <= usize::MAX,
    ensures
        views_of(r@) == range_model(name@, offset as nat, take as nat),
        all_wf(r@),
{
    let mut out: Vec<ItemData> = Vec::new();
    let mut i: usize = 0;
    while i < take
        invariant
            0 <= i <= take,
            offset + take <= usize::MAX,
            out@.len() == i,
            all_wf(out@),
            forall|t: int|
                0 <= t < i ==> (#[trigger] out@[t])@ == Map::<Seq<char>, Seq<char>>::empty().insert(
                    name@,
                    dec_str((offset + t) as nat),
                ),
        decreases take - i,
    {
        let v = usize_to_dec(offset + i);
        out.push(ItemData::from_pair(name.to_owned(), v));
        i = i + 1;
    }
    proof {
        assert(views_of(out@) =~= range_model(name@, offset as nat, take as nat));
    }
    out
}

/// Evaluate a range generator against the context.
pub fn get_iter_range(iter_range: &IterRange, env: &ItemData) -> (r: Vec<ItemData>)
    ensures
        views_of(r@) == range_eval(iter_range.name@, iter_range.offset@, iter_range.take@, env@),
        all_wf(r@),
{
    let empty: Vec<ItemData> = Vec::new();
    proof {
        assert(views_of(empty@) =~= Seq::<Map<Seq<char>, Seq<char>>>::empty());
    }
    let offset_str = match get_handlebars(iter_range.offset.as_str(), env) {
        Ok(s) => s,
        Err(_) => {
            return empty;
        },
    };
    let take_str = match get_handlebars(iter_range.take.as_str(), env) {
        Ok(s) => s,
        Err(_) => {
            return empty;
        },
    };
    let offset = match parse_usize(offset_str.as_str()) {
        Some(o) => o,
        None => {
            return empty;
        },
    };
    let take = match parse_usize(take_str.as_str()) {
        Some(t) => t,
        None => {
            return empty;
        },
    };
    match offset.checked_add(take) {
        Some(_) => expand_range(iter_range.name.as_str(), offset, take),
        None => empty,
    }
}

/// Build the bindings for a list of selected values: one binding per
/// value, in order, each binding the one declared name to the value.
/// This is the whole of what the glob/JSONPath generator does with the
/// values its path selected.
pub fn append_pattern_bindings(name: &str, values: &Vec<String>, out: &mut Vec<ItemData>)
    ensures
        final(out)@.len() == old(out)@.len() + values@.len(),
        forall|t: int| 0 <= t < old(out)@.len() ==> final(out)@[t] == old(out)@[t],
        forall|t: int|
            0 <= t < values@.len() ==> (#[trigger] final(out)@[old(out)@.len() + t])@
                == Map::<Seq<char>, Seq<char>>::empty().insert(name@, values@[t]@)
                && final(out)@[old(out)@.len() + t].wf(),
{
    let n = values.len();
    let ghost base = out@.len();
    let mut i: usize = 0;
    while i < n
        invariant
            0 <= i <= n,
            n == values@.len(),
            out@.len() == base + i,
            base == old(out)@.len(),
            forall|t: int| 0 <= t < base ==> out@[t] == old(out)@[t],
            forall|t: int|
                0 <= t < i ==> (#[trigger] out@[base + t])@ == Map::<Seq<char>,
                Seq<char>>::empty().insert(name@, values@[t]@) && out@[base + t].wf(),
        decreases n - i,
    {
        out.push(ItemData::from_pair(name.to_owned(), values[i].clone()));
        i = i + 1;
    }
}

/// Evaluate a glob/JSONPath generator: one binding per selected value
/// per matched file, in file-match order, each binding the one declared
/// name to the value's serialization.
pub fn get_iter_pattern(iter_pattern: &IterPattern) -> (r: Vec<ItemData>)
    ensures
        all_wf(r@),
        forall|i: int|
            0 <= i < r@.len() ==> (#[trigger] r@[i])@.dom() == Set::<Seq<char>>::empty().insert(
                iter_pattern.name@,
            ),
{
    let mut out: Vec<ItemData> = Vec::new();
    let entries = match glob_paths(iter_pattern.glob_pattern.as_str()) {
        Ok(es) => es,
        Err(_) => {
            return out;
        },
    };
    let ne = entries.len();
    let mut e: usize = 0;
    while e < ne
        invariant
            ne == entries@.len(),
            all_wf(out@),
            forall|i: int|
                0 <= i < out@.len() ==> (#[trigger] out@[i])@.dom()
                    == Set::<Seq<char>>::empty().insert(iter_pattern.name@),
        decreases ne - e,
    {
        let path: Option<&String> = match &entries[e] {
            Ok(p) => Some(p),
            Err(_) => None,
        };
        match path {
            None => (),
            Some(p) => {
                match read_text_file(p.as_str()) {
                    Err(_) => (),
                    Ok(json_str) => {
                        match parse_json(json_str.as_str()) {
                            Err(_) => (),
                            Ok(json) => {
                                match select_values(&json, iter_pattern.content_pattern.as_str()) {
                                    Err(_) => (),
                                    Ok(values) => {
                                        let nv = values.len();
                                        let mut texts: Vec<String> = Vec::new();
                                        let mut v: usize = 0;
                                        while v < nv
                                            invariant
                                                nv == values@.len(),
                                            decreases nv - v,
                                        {
                                            texts.push(value_to_string(&values[v]));
                                            v = v + 1;
                                        }
                                        let ghost before = out@.len();
                                        append_pattern_bindings(
                                            iter_pattern.name.as_str(),
                                            &texts,
                                            &mut out,
                                        );
                                        proof {
                                            assert forall|i: int|
                                                0 <= i < out@.len() implies (
                                            #[trigger] out@[i]).wf() && out@[i]@.dom() == Set::<
                                                Seq<char>,
                                            >::empty().insert(iter_pattern.name@) by {
                                                if i >= before {
                                                    let t = i - before;
                                                    assert(out@[before + t]@ == Map::<Seq<char>,
                                                    Seq<char>>::empty().insert(
                                                        iter_pattern.name@,
                                                        texts@[t]@,
                                                    ) && out@[before + t].wf());
                                                    assert(before + t == i);
                                                    assert(out@[i]@.dom() =~= Set::<
                                                        Seq<char>,
                                                    >::empty().insert(iter_pattern.name@));
                                                }
                                            }
                                        }
                                    },
                                }
                            },
                        }
                    },
                }
            },
        }
        e = e + 1;
    }
    out
}

/// A contiguous ascending integer range bound to one name: the shape
/// every JSON-driven range generator yields.
pub open spec fn is_range_shape(r: Seq<Map<Seq<char>, Seq<char>>>, name: Seq<char>) -> bool {
    exists|o: nat| r == range_model(name, o, r.len() as nat)
}

/// Evaluate a JSON-driven range generator: the offset and take
/// templates are resolved, then overridden by JSONPath extraction from
/// the resolved file when extraction succeeds, and the resulting range
/// is expanded as the plain range generator expands it.
pub fn get_iter_range_pattern(iter_range_pattern: &IterRangePattern, env: &ItemData) -> (r: Vec<
    ItemData,
>)
    ensures
        all_wf(r@),
        is_range_shape(views_of(r@), iter_range_pattern.name@),
        (render_of(iter_range_pattern.glob_pattern@, env@) is None || render_of(
            iter_range_pattern.offset@,
            env@,
        ) is None || render_of(iter_range_pattern.take@, env@) is None) ==> r@.len() == 0,
{
    let empty: Vec<ItemData> = Vec::new();
    proof {
        assert(views_of(empty@) =~= range_model(iter_range_pattern.name@, 0, 0));
        assert(views_of(empty@).len() == 0);
    }
    let file_path = match get_handlebars(iter_range_pattern.glob_pattern.as_str(), env) {
        Ok(s) => s,
        Err(_) => {
            return empty;
        },
    };
    let mut offset_str = match get_handlebars(iter_range_pattern.offset.as_str(), env) {
        Ok(s) => s,
        Err(_) => {
            return empty;
        },
    };
    let mut take_str = match get_handlebars(iter_range_pattern.take.as_str(), env) {
        Ok(s) => s,
        Err(_) => {
            return empty;
        },
    };
    let json_str = match read_text_file(file_path.as_str()) {
        Ok(s) => s,
        Err(_) => {
            return empty;
        },
    };
    let json = match parse_json(json_str.as_str()) {
        Ok(j) => j,
        Err(_) => {
            return empty;
        },
    };
    match get_json_val(&json, offset_str.as_str()) {
        Some(val) => {
            offset_str = val;
        },
        None => (),
    }
    match get_json_val(&json, take_str.as_str()) {
        Some(val) => {
            take_str = val;
        },
        None => (),
    }
    let offset = match parse_usize(offset_str.as_str()) {
        Some(o) => o,
        None => {
            return empty;
        },
    };
    let take = match parse_usize(take_str.as_str()) {
        Some(t) => t,
        None => {
            return empty;
        },
    };
    match offset.checked_add(take) {
        Some(_) => {
            let out = expand_range(iter_range_pattern.name.as_str(), offset, take);
            proof {
                assert(views_of(out@).len() == take as nat);
            }
            out
        },
        None => empty,
    }
}

/// Evaluate a first-glob-match JSON range generator: like the
/// JSON-driven range, but the file is the first glob match and the
/// offset/take patterns are dedicated fields.
pub fn get_iter_glob_json_range_pattern(
    iter_glob_json_range_pattern: &IterJsonRangePattern,
    env: &ItemData,
) -> (r: Vec<ItemData>)
    ensures
        all_wf(r@),
        is_range_shape(views_of(r@), iter_glob_json_range_pattern.name@),
        (render_of(iter_glob_json_range_pattern.file_pattern@, env@) is None || render_of(
            iter_glob_json_range_pattern.offset_pattern@,
            env@,
        ) is None || render_of(iter_glob_json_range_pattern.take_pattern@, env@) is None)
            ==> r@.len() == 0,
{
    let empty: Vec<ItemData> = Vec::new();
    proof {
        assert(views_of(empty@) =~= range_model(iter_glob_json_range_pattern.name@, 0, 0));
        assert(views_of(empty@).len() == 0);
    }
    let file_pattern = match get_handlebars(
        iter_glob_json_range_pattern.file_pattern.as_str(),
        env,
    ) {
        Ok(s) => s,
        Err(_) => {
            return empty;
        },
    };
    let offset_pattern = match get_handlebars(
        iter_glob_json_range_pattern.offset_pattern.as_str(),
        env,
    ) {
        Ok(s) => s,
        Err(_) => {
            return empty;
        },
    };
    let take_pattern = match get_handlebars(
        iter_glob_json_range_pattern.take_pattern.as_str(),
        env,
    ) {
        Ok(s) => s,
        Err(_) => {
            return empty;
        },
    };
    let entries = match glob_paths(file_pattern.as_str()) {
        Ok(es) => es,
        Err(_) => {
            return empty;
        },
    };
    if entries.len() == 0 {
        return empty;
    }
    let first: Option<&String> = match &entries[0] {
        Ok(p) => Some(p),
        Err(_) => None,
    };
    let p = match first {
        Some(p) => p,
        None => {
            return empty;
        },
    };
    let json_str = match read_text_file(p.as_str()) {
        Ok(s) => s,
        Err(_) => {
            return empty;
        },
    };
    let json = match parse_json(json_str.as_str()) {
        Ok(j) => j,
        Err(_) => {
            return empty;
        },
    };
    let offset_str = match get_json_val(&json, offset_pattern.as_str()) {
        Some(v) => v,
        None => offset_pattern,
    };
    let take_str = match get_json_val(&json, take_pattern.as_str()) {
        Some(v) => v,
        None => take_pattern,
    };
    let offset = match parse_usize(offset_str.as_str()) {
        Some(o) => o,
        None => {
            return empty;
        },
    };
    let take = match parse_usize(take_str.as_str()) {
        Some(t) => t,
        None => {
            return empty;
        },
    };
    match offset.checked_add(take) {
        Some(_) => {
            let out = expand_range(iter_glob_json_range_pattern.name.as_str(), offset, take);
            proof {
                assert(views_of(out@).len() == take as nat);
            }
            out
        },
        None => empty,
    }
}

/// The view of a list of extracted fields: each declared name beside
/// the value its path produced, or nothing where extraction failed.
pub open spec fn fields_view(v: Seq<(String, Option<String>)>) -> Seq<
    (Seq<char>, Option<Seq<char>>),
> {
    Seq::new(
        v.len(),
        |i: int|
            (
                v[i].0@,
                match v[i].1 {
                    Some(s) => Some(s@),
                    None => None::<Seq<char>>,
                },
            ),
    )
}

/// The binding one item contributes: every field whose extraction
/// produced a value, bound under its declared name, later fields
/// winning on a repeated name; a field whose extraction failed is
/// absent.
pub open spec fn binding_map_spec(fields: Seq<(Seq<char>, Option<Seq<char>>)>) -> Map<
    Seq<char>,
    Seq<char>,
>
    decreases fields.len(),
{
    if fields.len() == 0 {
        Map::<Seq<char>, Seq<char>>::empty()
    } else {
        let m = binding_map_spec(fields.drop_last());
        match fields.last().1 {
            Some(v) => m.insert(fields.last().0, v),
            None => m,
        }
    }
}

/// Build the binding for one selected item from its extracted fields.
/// This is the whole of what the glob/JSONPath item generator does
/// with the values extracted from one item.
pub fn item_binding(fields: &Vec<(String, Option<String>)>) -> (r: ItemData)
    ensures
        r.wf(),
        r@ == binding_map_spec(fields_view(fields@)),
        forall|k: Seq<char>|
            #[trigger] r@.contains_key(k) ==> exists|t: int|
                0 <= t < fields@.len() && (#[trigger] fields@[t]).0@ == k,
{
    let n = fields.len();
    let mut out = ItemData::new();
    let mut i: usize = 0;
    while i < n
        invariant
            0 <= i <= n,
            n == fields@.len(),
            out.wf(),
            out@ == binding_map_spec(fields_view(fields@).take(i as int)),
            forall|k: Seq<char>|
                #[trigger] out@.contains_key(k) ==> exists|t: int|
                    0 <= t < fields@.len() && (#[trigger] fields@[t]).0@ == k,
        decreases n - i,
    {
        proof {
            let fv = fields_view(fields@);
            assert(fv.take(i + 1).drop_last() =~= fv.take(i as int));
            assert(fv.take(i + 1).last() == fv[i as int]);
        }
        match &fields[i].1 {
            Some(v) => {
                out.insert_pair(fields[i].0.clone(), v.clone());
                proof {
                    assert(fields@[i as int].0@ == fields@[i as int].0@);
                }
            },
            None => (),
        }
        i = i + 1;
    }
    proof {
        assert(fields_view(fields@).take(n as int) =~= fields_view(fields@));
    }
    out
}

/// Evaluate a glob/JSONPath item generator: the glob and item patterns
/// are resolved against the context, each per-item field pattern is
/// resolved too, and every item selected from every matched file yields
/// one multi-key binding; a field whose extraction fails is absent from
/// that binding.
pub fn get_iter_glob_json_pattern(
    iter_glob_json_pattern: &IterGlobJsonPattern,
    env: &ItemData,
) -> (r: Vec<ItemData>)
    requires
        iter_glob_json_pattern.env_pattern.wf(),
    ensures
        all_wf(r@),
        forall|i: int, k: Seq<char>|
            0 <= i < r@.len() && #[trigger] r@[i]@.contains_key(k)
                ==> iter_glob_json_pattern.env_pattern@.contains_key(k),
        (render_of(iter_glob_json_pattern.glob_pattern@, env@) is None || render_of(
            iter_glob_json_pattern.item_pattern@,
            env@,
        ) is None) ==> r@.len() == 0,
{
    let mut out: Vec<ItemData> = Vec::new();
    let glob_pattern = match get_handlebars(iter_glob_json_pattern.glob_pattern.as_str(), env) {
        Ok(s) => s,
        Err(_) => {
            return out;
        },
    };
    let item_pattern = match get_handlebars(iter_glob_json_pattern.item_pattern.as_str(), env) {
        Ok(s) => s,
        Err(_) => {
            return out;
        },
    };
    // Resolve each field pattern against the context, keeping the
    // unresolved pattern text when resolution fails.
    let src = &iter_glob_json_pattern.env_pattern;
    let np = src.pairs.len();
    let mut env_pattern = ItemData::new();
    let mut t: usize = 0;
    while t < np
        invariant
            0 <= t <= np,
            np == src.pairs@.len(),
            src.wf(),
            env_pattern.wf(),
            forall|k: Seq<char>|
                env_pattern@.contains_key(k) ==> #[trigger] src@.contains_key(k),
        decreases np - t,
    {
        let k = src.pairs[t].0.clone();
        let v = match get_handlebars(src.pairs[t].1.as_str(), env) {
            Ok(nv) => nv,
            Err(_) => src.pairs[t].1.clone(),
        };
        proof {
            crate::ctx::lemma_pairs_map_index(src.pairs@, t as int);
        }
        env_pattern.insert_pair(k, v);
        t = t + 1;
    }
    let entries = match glob_paths(glob_pattern.as_str()) {
        Ok(es) => es,
        Err(_) => {
            return out;
        },
    };
    let ne = entries.len();
    let mut e: usize = 0;
    while e < ne
        invariant
            ne == entries@.len(),
            env_pattern.wf(),
            src.wf(),
            forall|k: Seq<char>|
                env_pattern@.contains_key(k) ==> #[trigger] src@.contains_key(k),
            all_wf(out@),
            forall|i: int, k: Seq<char>|
                0 <= i < out@.len() && #[trigger] out@[i]@.contains_key(k) ==> src@.contains_key(
                    k,
                ),
        decreases ne - e,
    {
        let path: Option<&String> = match &entries[e] {
            Ok(p) => Some(p),
            Err(_) => None,
        };
        match path {
            None => (),
            Some(p) => {
                match read_text_file(p.as_str()) {
                    Err(_) => (),
                    Ok(json_str) => {
                        match parse_json(json_str.as_str()) {
                            Err(_) => (),
                            Ok(json) => {
                                match select_values(&json, item_pattern.as_str()) {
                                    Err(_) => (),
                                    Ok(items) => {
                                        let ni = items.len();
                                        let mut a: usize = 0;
                                        while a < ni
                                            invariant
                                                ni == items@.len(),
                                                env_pattern.wf(),
                                                src.wf(),
                                                forall|k: Seq<char>|
                                                    env_pattern@.contains_key(k)
                                                        ==> #[trigger] src@.contains_key(k),
                                                all_wf(out@),
                                                forall|i: int, k: Seq<char>|
                                                    0 <= i < out@.len() && #[trigger] out@[i]@.contains_key(k)
                                                        ==> src@.contains_key(k),
                                            decreases ni - a,
                                        {
                                            let nf = env_pattern.pairs.len();
                                            let mut fields: Vec<(String, Option<String>)> =
                                                Vec::new();
                                            let mut f: usize = 0;
                                            while f < nf
                                                invariant
                                                    0 <= f <= nf,
                                                    nf == env_pattern.pairs@.len(),
                                                    a < items@.len(),
                                                    env_pattern.wf(),
                                                    src.wf(),
                                                    forall|k: Seq<char>|
                                                        env_pattern@.contains_key(k)
                                                            ==> #[trigger] src@.contains_key(k),
                                                    fields@.len() == f,
                                                    forall|t: int|
                                                        0 <= t < f ==> (
                                                        #[trigger] fields@[t]).0@
                                                            == env_pattern.pairs@[t].0@,
                                                decreases nf - f,
                                            {
                                                let extracted = get_json_val(
                                                    &items[a],
                                                    env_pattern.pairs[f].1.as_str(),
                                                );
                                                fields.push(
                                                    (env_pattern.pairs[f].0.clone(), extracted),
                                                );
                                                f = f + 1;
                                            }
                                            let env_item = item_binding(&fields);
                                            proof {
                                                assert forall|k: Seq<char>|
                                                    #[trigger] env_item@.contains_key(k) implies
                                                src@.contains_key(k) by {
                                                    let t = choose|t: int|
                                                        0 <= t < fields@.len() && (
                                                        #[trigger] fields@[t]).0@ == k;
                                                    crate::ctx::lemma_pairs_map_index(
                                                        env_pattern.pairs@,
                                                        t,
                                                    );
                                                }
                                            }
                                            out.push(env_item);
                                            a = a + 1;
                                        }
                                    },
                                }
                            },
                        }
                    },
                }
            },
        }
        e = e + 1;
    }
    out
}

/// Evaluate one generator of any kind against the context.
pub fn get_iter(task_iter: &TaskIter, env: &ItemData) -> (r: Vec<ItemData>)
    requires
        task_iter matches TaskIter::GlobJsonPattern(g) ==> g.env_pattern.wf(),
    ensures
        all_wf(r@),
        det_gen(*task_iter) ==> views_of(r@) == gen_model(*task_iter, env@),
{
    match task_iter {
        TaskIter::Vec(iter_vec) => get_iter_vec(iter_vec),
        TaskIter::Range(iter_range) => get_iter_range(iter_range, env),
        TaskIter::Pattern(iter_pattern) => get_iter_pattern(iter_pattern),
        TaskIter::RangePattern(iter_range_pattern) => get_iter_range_pattern(
            iter_range_pattern,
            env,
        ),
        TaskIter::GlobJsonPattern(iter_glob_json_pattern) => get_iter_glob_json_pattern(
            iter_glob_json_pattern,
            env,
        ),
        TaskIter::GlobJsonRangePattern(iter_glob_json_range_pattern) => {
            get_iter_glob_json_range_pattern(iter_glob_json_range_pattern, env)
        },
    }
}

} // verus!
verus! {

/// A restart of a range generator resolves its bounds against the
/// context it is restarted with: two contexts under which the offset
/// template resolves to different integers shift the emitted range
/// accordingly, while an equal take keeps its length.
pub proof fn lemma_range_follows_context(
    g: IterRange,
    env1: Map<Seq<char>, Seq<char>>,
    env2: Map<Seq<char>, Seq<char>>,
    o1: usize,
    o2: usize,
    t: usize,
)
    requires
        render_of(g.offset@, env1) matches Some(s1) && parse_usize_spec(s1) == Some(o1),
        render_of(g.take@, env1) matches Some(u1) && parse_usize_spec(u1) == Some(t),
        render_of(g.offset@, env2) matches Some(s2) && parse_usize_spec(s2) == Some(o2),
        render_of(g.take@, env2) matches Some(u2) && parse_usize_spec(u2) == Some(t),
        o1 + t <= usize::MAX,
        o2 + t <= usize::MAX,
    ensures
        gen_model(TaskIter::Range(g), env1) == range_model(g.name@, o1 as nat, t as nat),
        gen_model(TaskIter::Range(g), env2) == range_model(g.name@, o2 as nat, t as nat),
{
}

} // verus!
