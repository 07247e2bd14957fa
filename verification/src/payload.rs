//! The payload transformer: the rules that rewrite a JSON request body so
//! that its `system` instruction list always opens with the fixed prompt and
//! holds at least two entries, and a reasoning budget is always requested.
//!
//! The rules are stated once, over document models, by the `..._model` spec
//! functions below; the executable functions implement them and the proof
//! functions state the laws the rules obey.

use vstd::prelude::*;

verus! {

use crate::constants::DEFAULT_THINKING_BUDGET;
use crate::constants::SYSTEM_FALLBACK_TEXT;
use crate::constants::SYSTEM_PROMPT_TEXT;
use crate::json::Json;
use crate::json::JModel;
use crate::json::doc_bytes;
use crate::json::elems_view;
use crate::json::elems_view_index;
use crate::json::elems_view_len;
use crate::json::jview;
use crate::json::pairs_view;
use crate::json::pairs_view_index;
use crate::json::pairs_view_len;
use crate::json::parse_doc;
use crate::json::parse_json;
use crate::json::render_json;

/// The index of the first field named `k`, or -1 where there is none.
pub open spec fn find_key(fs: Seq<(Seq<char>, JModel)>, k: Seq<char>) -> int
    decreases fs,
{
    if fs.len() == 0 {
        -1
    } else if fs[0].0 == k {
        0
    } else {
        let r = find_key(fs.drop_first(), k);
        if r < 0 {
            -1
        } else {
            r + 1
        }
    }
}

/// The value of the first field named `k`, where there is one.
pub open spec fn obj_get(fs: Seq<(Seq<char>, JModel)>, k: Seq<char>) -> Option<JModel> {
    let i = find_key(fs, k);
    if i >= 0 {
        Some(fs[i].1)
    } else {
        None
    }
}

/// What `find_key` returns is a position of `k`, and the first one.
pub proof fn lemma_find_key_props(fs: Seq<(Seq<char>, JModel)>, k: Seq<char>)
    ensures
        find_key(fs, k) >= 0 ==> {
            &&& find_key(fs, k) < fs.len()
            &&& fs[find_key(fs, k)].0 == k
            &&& forall|j: int| 0 <= j < find_key(fs, k) ==> fs[j].0 != k
        },
        find_key(fs, k) < 0 ==> forall|j: int| 0 <= j < fs.len() ==> fs[j].0 != k,
    decreases fs,
{
    if fs.len() > 0 && fs[0].0 != k {
        let rest = fs.drop_first();
        lemma_find_key_props(rest, k);
        let r = find_key(rest, k);
        if r >= 0 {
            assert(fs[r + 1] == rest[r]);
            assert forall|j: int| 0 <= j < r + 1 implies fs[j].0 != k by {
                if j >= 1 {
                    assert(fs[j] == rest[j - 1]);
                }
            }
        } else {
            assert forall|j: int| 0 <= j < fs.len() implies fs[j].0 != k by {
                if j >= 1 {
                    assert(fs[j] == rest[j - 1]);
                }
            }
        }
    }
}

/// A position of `k` before which `k` does not occur is what `find_key`
/// returns.
pub proof fn lemma_find_key_at(fs: Seq<(Seq<char>, JModel)>, k: Seq<char>, i: int)
    requires
        0 <= i < fs.len(),
        fs[i].0 == k,
        forall|j: int| 0 <= j < i ==> fs[j].0 != k,
    ensures
        find_key(fs, k) == i,
    decreases fs,
{
    if i > 0 {
        lemma_find_key_at(fs.drop_first(), k, i - 1);
    }
}

/// Where `k` occurs nowhere, `find_key` reports so.
pub proof fn lemma_find_key_none(fs: Seq<(Seq<char>, JModel)>, k: Seq<char>)
    requires
        forall|j: int| 0 <= j < fs.len() ==> fs[j].0 != k,
    ensures
        find_key(fs, k) < 0,
    decreases fs,
{
    if fs.len() > 0 {
        lemma_find_key_none(fs.drop_first(), k);
    }
}

/// An instruction entry whose whole content is the text `t`.
pub open spec fn text_entry(t: Seq<char>) -> JModel {
    JModel::Obj(seq![("type"@, JModel::Str("text"@)), ("text"@, JModel::Str(t))])
}

/// The entry carrying the fixed system prompt.
pub open spec fn prompt_entry_model() -> JModel {
    text_entry(SYSTEM_PROMPT_TEXT@)
}

/// The entry appended when the instruction list would stay shorter than two.
pub open spec fn fallback_entry_model() -> JModel {
    text_entry(SYSTEM_FALLBACK_TEXT@)
}

/// The textual content of an instruction entry: the string itself for a bare
/// string, the `text` field for an object that carries one as a string, and
/// nothing otherwise.
pub open spec fn entry_text(e: JModel) -> Option<Seq<char>> {
    match e {
        JModel::Str(s) => Some(s),
        JModel::Obj(fs) => match obj_get(fs, "text"@) {
            Some(JModel::Str(t)) => Some(t),
            _ => None,
        },
        _ => None,
    }
}

/// Whether an entry is an object with string `text` but no `type`: the one
/// shape of object that normalization completes.
pub open spec fn entry_untyped_text(fs: Seq<(Seq<char>, JModel)>) -> bool {
    (obj_get(fs, "text"@) matches Some(JModel::Str(_))) && find_key(fs, "type"@) < 0
}

/// Normalizing one instruction entry: a bare string becomes the equivalent
/// text object, and an object with a string `text` but no `type` gains
/// `type: "text"`. Every other entry is left as it stands.
pub open spec fn normalize_entry(e: JModel) -> JModel {
    match e {
        JModel::Str(s) => text_entry(s),
        JModel::Obj(fs) => if entry_untyped_text(fs) {
            JModel::Obj(fs.push(("type"@, JModel::Str("text"@))))
        } else {
            e
        },
        _ => e,
    }
}

/// Normalizing the instruction list: the fixed prompt is prepended unless it
/// already opens the list, the fallback entry pads the list to length two,
/// and the first two slots are normalized in place. Entries past the second
/// are caller content, passed through verbatim.
pub open spec fn normalize_system_list(es: Seq<JModel>) -> Seq<JModel> {
    let led = if es.len() == 0 || entry_text(es[0]) != Some(SYSTEM_PROMPT_TEXT@) {
        seq![prompt_entry_model()] + es
    } else {
        es
    };
    let padded = if led.len() < 2 {
        led.push(fallback_entry_model())
    } else {
        led
    };
    padded.update(0, normalize_entry(padded[0])).update(1, normalize_entry(padded[1]))
}

/// The `system` list installed when the field was absent.
pub open spec fn default_system() -> JModel {
    JModel::Arr(seq![prompt_entry_model(), fallback_entry_model()])
}

/// What becomes of a present `system` value: a list is normalized, a bare
/// string is kept as the second entry behind the fixed prompt (or replaced
/// by the fallback where it already was the prompt), and any other value is
/// left untouched.
pub open spec fn patched_system(v: JModel) -> JModel {
    match v {
        JModel::Arr(es) => JModel::Arr(normalize_system_list(es)),
        JModel::Str(s) => JModel::Arr(
            seq![
                prompt_entry_model(),
                if s == SYSTEM_PROMPT_TEXT@ {
                    fallback_entry_model()
                } else {
                    text_entry(s)
                },
            ],
        ),
        _ => v,
    }
}

/// The `system` step over a document's fields.
pub open spec fn ensure_system_model(fs: Seq<(Seq<char>, JModel)>) -> Seq<(Seq<char>, JModel)> {
    let i = find_key(fs, "system"@);
    if i < 0 {
        fs.push(("system"@, default_system()))
    } else {
        fs.update(i, ("system"@, patched_system(fs[i].1)))
    }
}

/// The reasoning budget requested for a declared ceiling of `m` tokens: one
/// below the ceiling, capped by the default budget, and never below one.
pub open spec fn budget_for(m: u64) -> u64 {
    vstd::math::max(1, vstd::math::min(DEFAULT_THINKING_BUDGET as int, m as int - 1)) as u64
}

/// The ceiling the budget computation works from: `max_tokens` where it is
/// present as an unsigned integer, and one above the default budget — an
/// unconstraining stand-in — otherwise.
pub open spec fn declared_ceiling(fs: Seq<(Seq<char>, JModel)>) -> u64 {
    match obj_get(fs, "max_tokens"@) {
        Some(JModel::UInt(u)) => u,
        _ => (DEFAULT_THINKING_BUDGET + 1) as u64,
    }
}

/// The synthesized `thinking` value.
pub open spec fn thinking_value(budget: u64) -> JModel {
    JModel::Obj(seq![("type"@, JModel::Str("enabled"@)), ("budget_tokens"@, JModel::UInt(budget))])
}

/// The `thinking` step over a document's fields: a caller who sent a
/// `thinking` field owns it and it is left untouched; otherwise one is
/// synthesized from the declared ceiling.
pub open spec fn ensure_thinking_model(fs: Seq<(Seq<char>, JModel)>) -> Seq<(Seq<char>, JModel)> {
    if find_key(fs, "thinking"@) >= 0 {
        fs
    } else {
        fs.push(("thinking"@, thinking_value(budget_for(declared_ceiling(fs)))))
    }
}

/// The whole transformation over a document model: both steps for a
/// top-level object, identity for everything else.
pub open spec fn patch_model(m: JModel) -> JModel {
    match m {
        JModel::Obj(fs) => JModel::Obj(ensure_thinking_model(ensure_system_model(fs))),
        _ => m,
    }
}

/// The transformation at the byte level: bytes that do not decode pass
/// through unchanged; a decoded document is patched and re-encoded.
pub open spec fn transform_bytes(b: Seq<u8>) -> Seq<u8> {
    match parse_doc(b) {
        Some(m) => doc_bytes(patch_model(m)),
        None => b,
    }
}

/// A sequence of entries whose members model `b` pointwise has `b` as its
/// model.
proof fn lemma_elems_view_is(a: Seq<Json>, b: Seq<JModel>)
    requires
        a.len() == b.len(),
        forall|i: int| 0 <= i < a.len() ==> jview(#[trigger] a[i]) == b[i],
    ensures
        elems_view(a) == b,
{
    elems_view_len(a);
    assert forall|i: int| 0 <= i < a.len() implies elems_view(a)[i] == b[i] by {
        elems_view_index(a, i);
    }
    assert(elems_view(a) =~= b);
}

/// A sequence of fields whose names and values model `b` pointwise has `b`
/// as its model.
proof fn lemma_pairs_view_is(a: Seq<(String, Json)>, b: Seq<(Seq<char>, JModel)>)
    requires
        a.len() == b.len(),
        forall|i: int|
            0 <= i < a.len() ==> (#[trigger] a[i]).0@ == b[i].0 && jview(a[i].1) == b[i].1,
    ensures
        pairs_view(a) == b,
{
    pairs_view_len(a);
    assert forall|i: int| 0 <= i < a.len() implies pairs_view(a)[i] == b[i] by {
        pairs_view_index(a, i);
    }
    assert(pairs_view(a) =~= b);
}

/// Taking an element out and putting another back in its place is an update.
proof fn lemma_remove_insert_is_update<T>(s: Seq<T>, k: int, x: T)
    requires
        0 <= k < s.len(),
    ensures
        s.remove(k).insert(k, x) =~= s.update(k, x),
{
}

/// The position of the first field named `k`, where there is one.
fn find_key_vec(fields: &Vec<(String, Json)>, k: &str) -> (r: Option<usize>)
    ensures
        match r {
            Some(i) => i < fields@.len() && find_key(pairs_view(fields@), k@) == i as int,
            None => find_key(pairs_view(fields@), k@) < 0,
        },
{
    let ghost fsm = pairs_view(fields@);
    proof {
        pairs_view_len(fields@);
    }
    let mut i: usize = 0;
    while i < fields.len()
        invariant
            i <= fields@.len(),
            fsm == pairs_view(fields@),
            fsm.len() == fields@.len(),
            forall|j: int| 0 <= j < i ==> fsm[j].0 != k@,
        decreases fields@.len() - i,
    {
        proof {
            pairs_view_index(fields@, i as int);
        }
        if crate::proxy_core::str_eq(fields[i].0.as_str(), k) {
            proof {
                lemma_find_key_at(fsm, k@, i as int);
            }
            return Some(i);
        }
        i += 1;
    }
    proof {
        lemma_find_key_none(fsm, k@);
    }
    None
}

/// Builds the entry object `{type: "text", text: t}`.
fn make_text_entry(t: String) -> (r: Json)
    ensures
        jview(r) == text_entry(t@),
{
    let mut fs: Vec<(String, Json)> = Vec::new();
    fs.push(("type".to_owned(), Json::Str("text".to_owned())));
    fs.push(("text".to_owned(), Json::Str(t)));
    proof {
        pairs_view_len(fs@);
        pairs_view_index(fs@, 0);
        pairs_view_index(fs@, 1);
        assert(pairs_view(fs@) =~= seq![
            ("type"@, JModel::Str("text"@)),
            ("text"@, JModel::Str(t@)),
        ]);
    }
    Json::Obj(fs)
}

/// Whether an entry's textual content is exactly the fixed prompt.
fn entry_matches_prompt(e: &Json) -> (r: bool)
    ensures
        r == (entry_text(jview(*e)) == Some(SYSTEM_PROMPT_TEXT@)),
{
    match e {
        Json::Str(s) => crate::proxy_core::str_eq(s.as_str(), SYSTEM_PROMPT_TEXT),
        Json::Obj(fs) => {
            proof {
                lemma_find_key_props(pairs_view(fs@), "text"@);
            }
            match find_key_vec(fs, "text") {
                Some(i) => {
                    proof {
                        pairs_view_index(fs@, i as int);
                    }
                    match &fs[i].1 {
                        Json::Str(t) => crate::proxy_core::str_eq(
                            t.as_str(),
                            SYSTEM_PROMPT_TEXT,
                        ),
                        _ => false,
                    }
                },
                None => false,
            }
        },
        _ => false,
    }
}

/// Normalizes one instruction entry, as `normalize_entry` states.
fn normalize_entry_exec(e: Json) -> (r: Json)
    ensures
        jview(r) == normalize_entry(jview(e)),
{
    match e {
        Json::Str(s) => make_text_entry(s),
        Json::Obj(fs) => {
            let mut fs = fs;
            let ghost fsm = pairs_view(fs@);
            let text_is_str = match find_key_vec(&fs, "text") {
                Some(i) => {
                    proof {
                        pairs_view_index(fs@, i as int);
                    }
                    matches!(&fs[i].1, Json::Str(_))
                },
                None => false,
            };
            let has_type = find_key_vec(&fs, "type").is_some();
            if text_is_str && !has_type {
                let ghost before = fs@;
                fs.push(("type".to_owned(), Json::Str("text".to_owned())));
                proof {
                    pairs_view_len(fs@);
                    pairs_view_len(before);
                    assert forall|j: int| 0 <= j < fs@.len() implies #[trigger] pairs_view(
                        fs@,
                    )[j] == pairs_view(before).push(("type"@, JModel::Str("text"@)))[j] by {
                        pairs_view_index(fs@, j);
                        if j < before.len() {
                            assert(fs@[j] == before[j]);
                            pairs_view_index(before, j);
                        }
                    }
                    assert(pairs_view(fs@) =~= pairs_view(before).push(
                        ("type"@, JModel::Str("text"@)),
                    ));
                }
                Json::Obj(fs)
            } else {
                Json::Obj(fs)
            }
        },
        other => other,
    }
}

/// Builds the entry carrying the fixed system prompt.
fn prompt_entry() -> (r: Json)
    ensures
        jview(r) == prompt_entry_model(),
{
    make_text_entry(SYSTEM_PROMPT_TEXT.to_owned())
}

/// Builds the fallback entry.
fn fallback_entry() -> (r: Json)
    ensures
        jview(r) == fallback_entry_model(),
{
    make_text_entry(SYSTEM_FALLBACK_TEXT.to_owned())
}

/// Normalizes the instruction list, as `normalize_system_list` states.
fn normalize_system_list_exec(es: Vec<Json>) -> (r: Vec<Json>)
    ensures
        elems_view(r@) == normalize_system_list(elems_view(es@)),
{
    let ghost esm = elems_view(es@);
    proof {
        elems_view_len(es@);
    }
    let mut es = es;
    let needs_prompt = if es.len() == 0 {
        true
    } else {
        proof {
            elems_view_index(es@, 0);
        }
        !entry_matches_prompt(&es[0])
    };
    let ghost led = if needs_prompt {
        seq![prompt_entry_model()] + esm
    } else {
        esm
    };
    if needs_prompt {
        let ghost before = es@;
        let p = prompt_entry();
        es.insert(0, p);
        proof {
            assert forall|i: int| 0 <= i < es@.len() implies jview(#[trigger] es@[i])
                == led[i] by {
                if i > 0 {
                    assert(es@[i] == before[i - 1]);
                    elems_view_index(before, i - 1);
                }
            }
            lemma_elems_view_is(es@, led);
        }
    }
    proof {
        assert(elems_view(es@) == led);
        elems_view_len(es@);
    }
    let ghost padded = if led.len() < 2 {
        led.push(fallback_entry_model())
    } else {
        led
    };
    if es.len() < 2 {
        let ghost before = es@;
        let f = fallback_entry();
        es.push(f);
        proof {
            assert forall|i: int| 0 <= i < es@.len() implies jview(#[trigger] es@[i])
                == padded[i] by {
                if i < before.len() {
                    assert(es@[i] == before[i]);
                    elems_view_index(before, i);
                }
            }
            lemma_elems_view_is(es@, padded);
        }
    }
    proof {
        assert(elems_view(es@) == padded);
        elems_view_len(es@);
        assert(es@.len() >= 2);
    }
    let ghost before0 = es@;
    let e0 = es.remove(0);
    let e0n = normalize_entry_exec(e0);
    es.insert(0, e0n);
    proof {
        lemma_remove_insert_is_update(before0, 0, e0n);
        elems_view_index(before0, 0);
        assert forall|i: int| 0 <= i < es@.len() implies jview(#[trigger] es@[i])
            == padded.update(0, normalize_entry(padded[0]))[i] by {
            if i > 0 {
                elems_view_index(before0, i);
            }
        }
        lemma_elems_view_is(es@, padded.update(0, normalize_entry(padded[0])));
    }
    let ghost prev = es@;
    let ghost mid = padded.update(0, normalize_entry(padded[0]));
    let e1 = es.remove(1);
    let e1n = normalize_entry_exec(e1);
    es.insert(1, e1n);
    proof {
        lemma_remove_insert_is_update(prev, 1, e1n);
        elems_view_len(prev);
        elems_view_index(prev, 1);
        assert forall|i: int| 0 <= i < es@.len() implies jview(#[trigger] es@[i])
            == mid.update(1, normalize_entry(mid[1]))[i] by {
            if i != 1 {
                assert(es@[i] == prev[i]);
                elems_view_index(prev, i);
            }
        }
        lemma_elems_view_is(es@, mid.update(1, normalize_entry(mid[1])));
        assert(padded[1] == mid[1]);
    }
    es
}

/// Rewrites a present `system` value, as `patched_system` states.
fn patch_system_value(v: Json) -> (r: Json)
    ensures
        jview(r) == patched_system(jview(v)),
{
    match v {
        Json::Arr(es) => Json::Arr(normalize_system_list_exec(es)),
        Json::Str(s) => {
            let ghost sm = s@;
            let mut es: Vec<Json> = Vec::new();
            es.push(prompt_entry());
            if crate::proxy_core::str_eq(s.as_str(), SYSTEM_PROMPT_TEXT) {
                es.push(fallback_entry());
            } else {
                es.push(make_text_entry(s));
            }
            proof {
                let second = if sm == SYSTEM_PROMPT_TEXT@ {
                    fallback_entry_model()
                } else {
                    text_entry(sm)
                };
                lemma_elems_view_is(es@, seq![prompt_entry_model(), second]);
            }
            Json::Arr(es)
        },
        other => other,
    }
}

/// The `system` step: installs the default list where the field is absent,
/// and rewrites the present value in place otherwise.
fn ensure_system(fields: Vec<(String, Json)>) -> (r: Vec<(String, Json)>)
    ensures
        pairs_view(r@) == ensure_system_model(pairs_view(fields@)),
{
    let ghost fsm = pairs_view(fields@);
    proof {
        pairs_view_len(fields@);
    }
    let mut fields = fields;
    match find_key_vec(&fields, "system") {
        None => {
            let mut es: Vec<Json> = Vec::new();
            es.push(prompt_entry());
            es.push(fallback_entry());
            proof {
                lemma_elems_view_is(es@, seq![prompt_entry_model(), fallback_entry_model()]);
            }
            let ghost before = fields@;
            fields.push(("system".to_owned(), Json::Arr(es)));
            proof {
                assert forall|i: int| 0 <= i < fields@.len() implies (
                    #[trigger] fields@[i]).0@ == fsm.push(("system"@, default_system()))[i].0
                    && jview(fields@[i].1) == fsm.push(("system"@, default_system()))[i].1 by {
                    if i < before.len() {
                        assert(fields@[i] == before[i]);
                        pairs_view_index(before, i);
                    }
                }
                lemma_pairs_view_is(fields@, fsm.push(("system"@, default_system())));
            }
        },
        Some(i) => {
            proof {
                lemma_find_key_props(fsm, "system"@);
                pairs_view_index(fields@, i as int);
            }
            let ghost before = fields@;
            let pair = fields.remove(i);
            let newv = patch_system_value(pair.1);
            fields.insert(i, (pair.0, newv));
            proof {
                lemma_remove_insert_is_update(before, i as int, (pair.0, newv));
                let target = fsm.update(i as int, ("system"@, patched_system(fsm[i as int].1)));
                assert forall|j: int| 0 <= j < fields@.len() implies (
                    #[trigger] fields@[j]).0@ == target[j].0 && jview(fields@[j].1)
                    == target[j].1 by {
                    if j != i {
                        pairs_view_index(before, j);
                    }
                }
                lemma_pairs_view_is(fields@, target);
            }
        },
    }
    fields
}

/// The `thinking` step: synthesizes the reasoning directive where the caller
/// sent none.
fn ensure_thinking(fields: Vec<(String, Json)>) -> (r: Vec<(String, Json)>)
    ensures
        pairs_view(r@) == ensure_thinking_model(pairs_view(fields@)),
{
    let ghost fsm = pairs_view(fields@);
    proof {
        pairs_view_len(fields@);
    }
    let mut fields = fields;
    if find_key_vec(&fields, "thinking").is_none() {
        let ceiling: u64 = match find_key_vec(&fields, "max_tokens") {
            Some(i) => {
                proof {
                    pairs_view_index(fields@, i as int);
                }
                match &fields[i].1 {
                    Json::UInt(u) => *u,
                    _ => DEFAULT_THINKING_BUDGET + 1,
                }
            },
            None => DEFAULT_THINKING_BUDGET + 1,
        };
        assert(ceiling == declared_ceiling(fsm));
        let capped: u64 = if ceiling == 0 {
            0
        } else {
            ceiling - 1
        };
        let budget: u64 = if DEFAULT_THINKING_BUDGET < capped {
            DEFAULT_THINKING_BUDGET
        } else {
            capped
        };
        let budget: u64 = if budget < 1 {
            1
        } else {
            budget
        };
        assert(budget == budget_for(ceiling));
        let mut tv: Vec<(String, Json)> = Vec::new();
        tv.push(("type".to_owned(), Json::Str("enabled".to_owned())));
        tv.push(("budget_tokens".to_owned(), Json::UInt(budget)));
        proof {
            lemma_pairs_view_is(
                tv@,
                seq![("type"@, JModel::Str("enabled"@)), ("budget_tokens"@, JModel::UInt(budget))],
            );
        }
        let ghost before = fields@;
        fields.push(("thinking".to_owned(), Json::Obj(tv)));
        proof {
            let target = fsm.push(("thinking"@, thinking_value(budget_for(declared_ceiling(fsm)))));
            assert forall|j: int| 0 <= j < fields@.len() implies (
                #[trigger] fields@[j]).0@ == target[j].0 && jview(fields@[j].1) == target[j].1 by {
                if j < before.len() {
                    assert(fields@[j] == before[j]);
                    pairs_view_index(before, j);
                }
            }
            lemma_pairs_view_is(fields@, target);
        }
    }
    fields
}

/// Applies both steps to a decoded document: the fields of a top-level
/// object are rewritten, and any other document is returned as it came.
pub fn patch_doc(j: Json) -> (r: Json)
    ensures
        jview(r) == patch_model(jview(j)),
{
    match j {
        Json::Obj(fields) => Json::Obj(ensure_thinking(ensure_system(fields))),
        other => other,
    }
}

/// Law: bytes that do not decode as JSON pass through the transformation
/// byte-identical.
pub proof fn lemma_unparsed_passthrough(b: Seq<u8>)
    requires
        parse_doc(b) is None,
    ensures
        transform_bytes(b) == b,
{
}

/// Law: the requested budget is at least one, at most the default budget,
/// and strictly below any declared ceiling of at least two tokens.
pub proof fn lemma_budget_bounds(m: u64)
    ensures
        1 <= budget_for(m) <= DEFAULT_THINKING_BUDGET,
        m >= 2 ==> budget_for(m) < m,
{
}

/// A text entry's content is its text, and normalization leaves it as it
/// stands.
proof fn lemma_text_entry_props(t: Seq<char>)
    ensures
        entry_text(text_entry(t)) == Some(t),
        normalize_entry(text_entry(t)) == text_entry(t),
{
    reveal_strlit("type");
    reveal_strlit("text");
    reveal_with_fuel(find_key, 4);
    let fs = seq![("type"@, JModel::Str("text"@)), ("text"@, JModel::Str(t))];
    assert("type"@[1] == 'y' && "text"@[1] == 'e');
    assert("type"@ != "text"@);
    assert(fs.drop_first() =~= seq![("text"@, JModel::Str(t))]);
    assert(fs.drop_first().drop_first() =~= Seq::<(Seq<char>, JModel)>::empty());
    assert(find_key(fs, "text"@) == 1);
    assert(find_key(fs, "type"@) == 0);
}

/// Normalization does not change what an entry says: its textual content is
/// kept word for word.
proof fn lemma_entry_text_normalize(e: JModel)
    ensures
        entry_text(normalize_entry(e)) == entry_text(e),
{
    match e {
        JModel::Str(s) => {
            lemma_text_entry_props(s);
        },
        JModel::Obj(fs) => {
            if entry_untyped_text(fs) {
                let g = fs.push(("type"@, JModel::Str("text"@)));
                let i = find_key(fs, "text"@);
                lemma_find_key_props(fs, "text"@);
                assert forall|j: int| 0 <= j < i implies g[j].0 != "text"@ by {
                    assert(g[j] == fs[j]);
                }
                lemma_find_key_at(g, "text"@, i);
            }
        },
        _ => {},
    }
}

/// Normalizing an entry twice is normalizing it once.
proof fn lemma_normalize_entry_idem(e: JModel)
    ensures
        normalize_entry(normalize_entry(e)) == normalize_entry(e),
{
    match e {
        JModel::Str(s) => {
            lemma_text_entry_props(s);
        },
        JModel::Obj(fs) => {
            if entry_untyped_text(fs) {
                let g = fs.push(("type"@, JModel::Str("text"@)));
                lemma_find_key_props(fs, "type"@);
                lemma_find_key_at(g, "type"@, fs.len() as int);
            }
        },
        _ => {},
    }
}

/// Appending a field of another name moves no key and no value.
proof fn lemma_push_preserves_key(
    fs: Seq<(Seq<char>, JModel)>,
    p: (Seq<char>, JModel),
    k: Seq<char>,
)
    requires
        p.0 != k,
    ensures
        find_key(fs.push(p), k) == find_key(fs, k),
        obj_get(fs.push(p), k) == obj_get(fs, k),
{
    let g = fs.push(p);
    lemma_find_key_props(fs, k);
    let i = find_key(fs, k);
    if i >= 0 {
        assert forall|j: int| 0 <= j < i implies g[j].0 != k by {
            assert(g[j] == fs[j]);
        }
        assert(g[i] == fs[i]);
        lemma_find_key_at(g, k, i);
    } else {
        assert forall|j: int| 0 <= j < g.len() implies g[j].0 != k by {
            if j < fs.len() {
                assert(g[j] == fs[j]);
            }
        }
        lemma_find_key_none(g, k);
    }
}

/// Rewriting a field in place, under its own name, moves no other field.
proof fn lemma_update_preserves_key(
    fs: Seq<(Seq<char>, JModel)>,
    i: int,
    p: (Seq<char>, JModel),
    k: Seq<char>,
)
    requires
        0 <= i < fs.len(),
        fs[i].0 == p.0,
        p.0 != k,
    ensures
        find_key(fs.update(i, p), k) == find_key(fs, k),
        obj_get(fs.update(i, p), k) == obj_get(fs, k),
{
    let g = fs.update(i, p);
    lemma_find_key_props(fs, k);
    let r = find_key(fs, k);
    if r >= 0 {
        assert(fs[r].0 == k);
        assert(r != i);
        assert forall|j: int| 0 <= j < r implies g[j].0 != k by {
            assert(g[j].0 == fs[j].0);
        }
        lemma_find_key_at(g, k, r);
    } else {
        assert forall|j: int| 0 <= j < g.len() implies g[j].0 != k by {
            assert(g[j].0 == fs[j].0);
        }
        lemma_find_key_none(g, k);
    }
}

/// The distinct top-level key names the transformer speaks of.
proof fn lemma_distinct_keys()
    ensures
        "system"@ != "thinking"@,
        "max_tokens"@ != "thinking"@,
        "max_tokens"@ != "system"@,
{
    reveal_strlit("system");
    reveal_strlit("thinking");
    reveal_strlit("max_tokens");
    assert("system"@.len() == 6 && "thinking"@.len() == 8 && "max_tokens"@.len() == 10);
}

/// After the instruction list is normalized, it holds at least two entries,
/// it opens with the fixed prompt's text, and its first two entries are in
/// normal form.
proof fn lemma_normalize_system_props(es: Seq<JModel>)
    ensures
        normalize_system_list(es).len() >= 2,
        entry_text(normalize_system_list(es)[0]) == Some(SYSTEM_PROMPT_TEXT@),
        normalize_entry(normalize_system_list(es)[0]) == normalize_system_list(es)[0],
        normalize_entry(normalize_system_list(es)[1]) == normalize_system_list(es)[1],
{
    let led = if es.len() == 0 || entry_text(es[0]) != Some(SYSTEM_PROMPT_TEXT@) {
        seq![prompt_entry_model()] + es
    } else {
        es
    };
    let padded = if led.len() < 2 {
        led.push(fallback_entry_model())
    } else {
        led
    };
    let l = normalize_system_list(es);
    assert(l[0] == normalize_entry(padded[0]));
    assert(l[1] == normalize_entry(padded[1]));
    if es.len() == 0 || entry_text(es[0]) != Some(SYSTEM_PROMPT_TEXT@) {
        assert(padded[0] == prompt_entry_model());
        lemma_text_entry_props(SYSTEM_PROMPT_TEXT@);
    }
    lemma_entry_text_normalize(padded[0]);
    lemma_normalize_entry_idem(padded[0]);
    lemma_normalize_entry_idem(padded[1]);
}

/// Normalizing the instruction list twice is normalizing it once: running
/// the transformer over its own output duplicates no prompt.
proof fn lemma_normalize_system_idem(es: Seq<JModel>)
    ensures
        normalize_system_list(normalize_system_list(es)) == normalize_system_list(es),
{
    let l = normalize_system_list(es);
    lemma_normalize_system_props(es);
    assert(l.update(0, normalize_entry(l[0])).update(1, normalize_entry(l[1])) =~= l);
}

/// Rewriting a present `system` value twice is rewriting it once.
proof fn lemma_patched_system_idem(v: JModel)
    ensures
        patched_system(patched_system(v)) == patched_system(v),
{
    match v {
        JModel::Arr(es) => {
            lemma_normalize_system_idem(es);
        },
        JModel::Str(s) => {
            let second = if s == SYSTEM_PROMPT_TEXT@ {
                fallback_entry_model()
            } else {
                text_entry(s)
            };
            let es = seq![prompt_entry_model(), second];
            lemma_text_entry_props(SYSTEM_PROMPT_TEXT@);
            lemma_text_entry_props(SYSTEM_FALLBACK_TEXT@);
            if s != SYSTEM_PROMPT_TEXT@ {
                lemma_text_entry_props(s);
            }
            assert(normalize_system_list(es) =~= es);
        },
        _ => {},
    }
}

/// The installed default `system` list is already in normal form.
proof fn lemma_default_system_fixed()
    ensures
        patched_system(default_system()) == default_system(),
{
    let es = seq![prompt_entry_model(), fallback_entry_model()];
    lemma_text_entry_props(SYSTEM_PROMPT_TEXT@);
    lemma_text_entry_props(SYSTEM_FALLBACK_TEXT@);
    assert(normalize_system_list(es) =~= es);
}

/// Where the patched fields carry `system` afterwards, and what they carry:
/// the default list where the field was absent, the rewritten value where it
/// was present — at the field's own place.
proof fn lemma_patched_fields_system(fs: Seq<(Seq<char>, JModel)>)
    ensures
        ({
            let pf = ensure_thinking_model(ensure_system_model(fs));
            let i0 = find_key(fs, "system"@);
            &&& i0 < 0 ==> obj_get(pf, "system"@) == Some(default_system())
            &&& i0 >= 0 ==> obj_get(pf, "system"@) == Some(patched_system(fs[i0].1))
        }),
{
    lemma_distinct_keys();
    let fs1 = ensure_system_model(fs);
    let i0 = find_key(fs, "system"@);
    lemma_find_key_props(fs, "system"@);
    if i0 < 0 {
        let g = fs.push(("system"@, default_system()));
        assert forall|j: int| 0 <= j < fs.len() implies g[j].0 != "system"@ by {
            assert(g[j] == fs[j]);
        }
        lemma_find_key_at(g, "system"@, fs.len() as int);
    } else {
        let p = ("system"@, patched_system(fs[i0].1));
        let g = fs.update(i0, p);
        assert forall|j: int| 0 <= j < i0 implies g[j].0 != "system"@ by {
            assert(g[j] == fs[j]);
        }
        lemma_find_key_at(g, "system"@, i0);
    }
    if find_key(fs1, "thinking"@) < 0 {
        lemma_push_preserves_key(
            fs1,
            ("thinking"@, thinking_value(budget_for(declared_ceiling(fs1)))),
            "system"@,
        );
    }
}

/// Law: the transformation is idempotent on documents — patching a patched
/// document changes nothing, and in particular the fixed prompt is never
/// duplicated.
pub proof fn lemma_patch_idempotent(m: JModel)
    ensures
        patch_model(patch_model(m)) == patch_model(m),
{
    if m is Obj {
        let fs = m->Obj_0;
        lemma_distinct_keys();
        let fs1 = ensure_system_model(fs);
        let fs2 = ensure_thinking_model(fs1);
        let i0 = find_key(fs, "system"@);
        lemma_find_key_props(fs, "system"@);
        let i = if i0 < 0 {
            fs.len() as int
        } else {
            i0
        };
        let v2 = if i0 < 0 {
            default_system()
        } else {
            patched_system(fs[i0].1)
        };
        // `system` stands at `i` in the fields after the system step.
        if i0 < 0 {
            let g = fs.push(("system"@, v2));
            assert forall|j: int| 0 <= j < fs.len() implies g[j].0 != "system"@ by {
                assert(g[j] == fs[j]);
            }
            lemma_find_key_at(g, "system"@, i);
        } else {
            let g = fs.update(i0, ("system"@, v2));
            assert forall|j: int| 0 <= j < i0 implies g[j].0 != "system"@ by {
                assert(g[j] == fs[j]);
            }
            lemma_find_key_at(g, "system"@, i);
        }
        assert(find_key(fs1, "system"@) == i && fs1[i] == ("system"@, v2));
        // ... and still after the thinking step.
        let t = find_key(fs1, "thinking"@);
        lemma_find_key_props(fs1, "thinking"@);
        if t < 0 {
            lemma_push_preserves_key(
                fs1,
                ("thinking"@, thinking_value(budget_for(declared_ceiling(fs1)))),
                "system"@,
            );
            assert(fs2[i] == fs1[i]);
        }
        assert(find_key(fs2, "system"@) == i && fs2[i] == ("system"@, v2));
        // Rewriting it again changes nothing.
        if i0 < 0 {
            lemma_default_system_fixed();
        } else {
            lemma_patched_system_idem(fs[i0].1);
        }
        assert(ensure_system_model(fs2) =~= fs2);
        // The thinking field is present after the first pass, so the second
        // leaves the fields alone.
        if t < 0 {
            let p = ("thinking"@, thinking_value(budget_for(declared_ceiling(fs1))));
            let g = fs1.push(p);
            assert forall|j: int| 0 <= j < fs1.len() implies g[j].0 != "thinking"@ by {
                assert(g[j] == fs1[j]);
            }
            lemma_find_key_at(g, "thinking"@, fs1.len() as int);
        }
        assert(find_key(fs2, "thinking"@) >= 0);
        assert(ensure_thinking_model(ensure_system_model(fs2)) == fs2);
    }
}

/// Law: after the transformation, a document whose `system` field was
/// absent, a list, or a bare string carries a `system` list of at least two
/// entries whose first entry's text is exactly the fixed prompt. A document
/// without a `system` field gets exactly the default list.
pub proof fn lemma_system_normalized(fs: Seq<(Seq<char>, JModel)>)
    ensures
        ({
            let pf = ensure_thinking_model(ensure_system_model(fs));
            let i0 = find_key(fs, "system"@);
            &&& i0 < 0 ==> obj_get(pf, "system"@) == Some(default_system())
            &&& (i0 < 0 || fs[i0].1 is Arr || fs[i0].1 is Str) ==> match obj_get(
                pf,
                "system"@,
            ) {
                Some(JModel::Arr(l)) => l.len() >= 2 && entry_text(l[0]) == Some(
                    SYSTEM_PROMPT_TEXT@,
                ),
                _ => false,
            }
        }),
{
    lemma_patched_fields_system(fs);
    let i0 = find_key(fs, "system"@);
    lemma_text_entry_props(SYSTEM_PROMPT_TEXT@);
    if i0 >= 0 {
        match fs[i0].1 {
            JModel::Arr(es) => {
                lemma_normalize_system_props(es);
            },
            JModel::Str(s) => {},
            _ => {},
        }
    }
}

/// Law: normalization drops no caller content. Where the fixed prompt is
/// prepended, every caller entry shifts right by one and stands unchanged
/// from the third slot on; where the list already opens with the prompt's
/// text, every entry from the third slot on stands unchanged in place.
pub proof fn lemma_caller_entries_kept(es: Seq<JModel>)
    ensures
        ({
            let l = normalize_system_list(es);
            &&& (es.len() == 0 || entry_text(es[0]) != Some(SYSTEM_PROMPT_TEXT@)) ==> {
                &&& l.len() == vstd::math::max(es.len() as int + 1, 2)
                &&& forall|i: int| 2 <= i < l.len() ==> l[i] == es[i - 1]
            }
            &&& !(es.len() == 0 || entry_text(es[0]) != Some(SYSTEM_PROMPT_TEXT@)) ==> {
                &&& l.len() == vstd::math::max(es.len() as int, 2)
                &&& forall|i: int| 2 <= i < l.len() ==> l[i] == es[i]
            }
        }),
{
}

/// Law: a caller who sent a `thinking` field owns it — the transformation
/// leaves that field exactly as it came, whatever it holds.
pub proof fn lemma_thinking_owned(fs: Seq<(Seq<char>, JModel)>)
    requires
        find_key(fs, "thinking"@) >= 0,
    ensures
        obj_get(ensure_thinking_model(ensure_system_model(fs)), "thinking"@) == obj_get(
            fs,
            "thinking"@,
        ),
{
    lemma_distinct_keys();
    let fs1 = ensure_system_model(fs);
    let i0 = find_key(fs, "system"@);
    lemma_find_key_props(fs, "system"@);
    if i0 < 0 {
        lemma_push_preserves_key(fs, ("system"@, default_system()), "thinking"@);
    } else {
        lemma_update_preserves_key(
            fs,
            i0,
            ("system"@, patched_system(fs[i0].1)),
            "thinking"@,
        );
    }
    assert(find_key(fs1, "thinking"@) >= 0);
}

/// Rewrites a request body: bytes that do not decode as JSON pass through
/// byte-identical, and a decoded document is patched and re-encoded.
pub fn patch_request_body(body: &[u8]) -> (r: Vec<u8>)
    ensures
        r@ == transform_bytes(body@),
{
    match parse_json(body) {
        Some(j) => render_json(patch_doc(j)),
        None => vstd::slice::slice_to_vec(body),
    }
}

} // verus!
