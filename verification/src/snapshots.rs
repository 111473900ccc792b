//! Run snapshots recorded with AI requests: JSON documents that must stay
//! small, must not carry secrets or binary payloads, and are stored in a
//! canonical form with object keys in ascending order.

use vstd::prelude::*;

use crate::error::{AppError, ErrorCode};
use crate::text::{
    chars_of, chars_eq_str, contains_exec, contains_seq, is_control, lower_ascii, lower_char_exec,
    occurs_at_exec, starts_with_seq, str_eq,
};

verus! {

/// A parsed JSON document. Numbers keep their literal text.
#[derive(Debug)]
pub enum JsonValue {
    Null,
    Bool(bool),
    Number(String),
    Text(String),
    Array(Vec<JsonValue>),
    Object(Vec<(String, JsonValue)>),
}

/// A JSON document as mathematical values.
pub enum JView {
    Null,
    Bool(bool),
    Number(Seq<char>),
    Text(Seq<char>),
    Array(Seq<JView>),
    Object(Seq<(Seq<char>, JView)>),
}

pub open spec fn jview(v: JsonValue) -> JView
    decreases v,
{
    match v {
        JsonValue::Null => JView::Null,
        JsonValue::Bool(b) => JView::Bool(b),
        JsonValue::Number(n) => JView::Number(n@),
        JsonValue::Text(t) => JView::Text(t@),
        JsonValue::Array(items) => JView::Array(items_jview(items@)),
        JsonValue::Object(entries) => JView::Object(entries_jview(entries@)),
    }
}

pub open spec fn items_jview(s: Seq<JsonValue>) -> Seq<JView>
    decreases s,
{
    if s.len() == 0 {
        Seq::empty()
    } else {
        items_jview(s.drop_last()).push(jview(s.last()))
    }
}

pub open spec fn entries_jview(s: Seq<(String, JsonValue)>) -> Seq<(Seq<char>, JView)>
    decreases s,
{
    if s.len() == 0 {
        Seq::empty()
    } else {
        entries_jview(s.drop_last()).push((s.last().0@, jview(s.last().1)))
    }
}

/// The most bytes a snapshot may take, raw or canonical.
pub open spec fn max_snapshot_bytes() -> nat {
    65536
}

/// The deepest nesting a snapshot may have.
pub open spec fn max_snapshot_depth() -> nat {
    8
}

/// The most values a snapshot may hold.
pub open spec fn max_snapshot_nodes() -> nat {
    1024
}

/// The most bytes a string inside a snapshot may take.
pub open spec fn max_snapshot_text_bytes() -> nat {
    4096
}

/// The number of values in a document, itself included.
pub open spec fn node_count(v: JView) -> nat
    decreases v,
{
    match v {
        JView::Array(items) => 1 + items_count(items),
        JView::Object(entries) => 1 + entries_count(entries),
        _ => 1,
    }
}

pub open spec fn items_count(s: Seq<JView>) -> nat
    decreases s,
{
    if s.len() == 0 {
        0
    } else {
        items_count(s.drop_last()) + node_count(s.last())
    }
}

pub open spec fn entries_count(s: Seq<(Seq<char>, JView)>) -> nat
    decreases s,
{
    if s.len() == 0 {
        0
    } else {
        entries_count(s.drop_last()) + node_count(s.last().1)
    }
}

/// The length of a text in bytes of UTF-8, as `str::len` reports it.
pub open spec fn byte_len(s: Seq<char>) -> usize {
    vstd::utf8::encode_utf8(s).len() as usize
}

/// Whether a string may stand in a snapshot: at most 4096 bytes (its UTF-8
/// length as `str::len` reports it), no control characters, and nothing that
/// looks like a data URL, credentials or base64.
pub open spec fn text_allowed(s: Seq<char>) -> bool {
    let lower = lower_ascii(s);
    &&& byte_len(s) <= max_snapshot_text_bytes()
    &&& forall|i: int| 0 <= i < s.len() ==> !is_control(#[trigger] s[i])
    &&& !starts_with_seq(lower, "data:"@)
    &&& !contains_seq(lower, "authorization:"@)
    &&& !contains_seq(lower, "bearer "@)
    &&& !contains_seq(lower, "cookie:"@)
    &&& !contains_seq(lower, "base64,"@)
}

/// Words that may not occur in a snapshot key, in any case.
pub open spec fn forbidden_key_words() -> Seq<Seq<char>> {
    seq![
        "authorization"@,
        "token"@,
        "cookie"@,
        "secret"@,
        "headers"@,
        "request"@,
        "response"@,
        "bytes"@,
        "base64"@,
    ]
}

/// Keys that may hold a forbidden word for the given snapshot kind.
pub open spec fn key_exempt(kind: Seq<char>, key: Seq<char>) -> bool {
    ||| (kind == "consent"@ && key == "requestContentConfirmed"@)
    ||| (kind == "provider_usage"@ && (key == "input_tokens_by_modality"@ || key
        == "output_tokens_by_modality"@ || key == "total_thought_tokens"@ || key
        == "total_tokens"@))
}

/// Whether a key may stand in a snapshot of the given kind.
pub open spec fn key_allowed(kind: Seq<char>, key: Seq<char>) -> bool {
    key_exempt(kind, key) || forall|w: int|
        0 <= w < forbidden_key_words().len() ==> !contains_seq(
            lower_ascii(key),
            #[trigger] forbidden_key_words()[w],
        )
}

/// Whether every value of a document at nesting `depth` passes the snapshot rules.
pub open spec fn value_ok(kind: Seq<char>, v: JView, depth: nat) -> bool
    decreases v,
{
    depth <= max_snapshot_depth() && match v {
        JView::Text(s) => text_allowed(s),
        JView::Array(items) => items_ok(kind, items, depth + 1),
        JView::Object(entries) => entries_ok(kind, entries, depth + 1),
        _ => true,
    }
}

pub open spec fn items_ok(kind: Seq<char>, s: Seq<JView>, depth: nat) -> bool
    decreases s,
{
    s.len() == 0 || (items_ok(kind, s.drop_last(), depth) && value_ok(kind, s.last(), depth))
}

pub open spec fn entries_ok(kind: Seq<char>, s: Seq<(Seq<char>, JView)>, depth: nat) -> bool
    decreases s,
{
    s.len() == 0 || (entries_ok(kind, s.drop_last(), depth) && key_allowed(kind, s.last().0)
        && value_ok(kind, s.last().1, depth))
}

/// The top-level fields a snapshot of the given kind may have, or `None` for
/// a kind the library does not know.
pub open spec fn allowed_fields(kind: Seq<char>) -> Option<Seq<Seq<char>>> {
    if kind == "capability"@ {
        Some(
            seq![
                "schema"@,
                "provider"@,
                "serviceSurface"@,
                "source"@,
                "supports"@,
                "limitations"@,
            ],
        )
    } else if kind == "data_tier"@ {
        Some(seq!["schema"@, "source"@, "tier"@])
    } else if kind == "retention"@ {
        Some(seq!["schema"@, "source"@, "retention"@])
    } else if kind == "consent"@ {
        Some(
            seq![
                "schema"@,
                "source"@,
                "confirmed"@,
                "humanActionConfirmed"@,
                "rightsConfirmed"@,
                "costConfirmed"@,
                "requestContentConfirmed"@,
                "contractOverrideConfirmed"@,
                "adultConfirmed"@,
                "under18AudienceExcludedConfirmed"@,
                "professionalBusinessConfirmed"@,
                "supportedRegionConfirmed"@,
                "paidServiceConfirmed"@,
            ],
        )
    } else if kind == "prompt_options"@ {
        Some(
            seq![
                "schema"@,
                "importedResultOnly"@,
                "operation"@,
                "provider"@,
                "model"@,
                "action"@,
                "prompt"@,
                "negativePrompt"@,
                "seed"@,
                "width"@,
                "height"@,
                "steps"@,
                "scale"@,
                "strength"@,
                "noise"@,
                "outputCount"@,
                "gridLayout"@,
            ],
        )
    } else if kind == "provider_usage"@ {
        Some(
            seq![
                "schema"@,
                "provider"@,
                "candidateIndex"@,
                "seed"@,
                "input_tokens_by_modality"@,
                "output_tokens_by_modality"@,
                "total_thought_tokens"@,
                "total_tokens"@,
            ],
        )
    } else {
        None
    }
}

/// Whether every field of an object is one of `fields`.
pub open spec fn fields_within(fields: Seq<Seq<char>>, entries: Seq<(Seq<char>, JView)>) -> bool {
    forall|i: int| 0 <= i < entries.len() ==> fields.contains(#[trigger] entries[i].0)
}

/// Whether the top level of a snapshot fits its kind: policy references are an
/// array; every other known kind is an object with only its allowed fields.
pub open spec fn root_ok(kind: Seq<char>, v: JView) -> bool {
    if kind == "policy_refs"@ {
        v is Array
    } else {
        &&& v is Object
        &&& allowed_fields(kind) is Some
        &&& fields_within(allowed_fields(kind)->0, v->Object_0)
    }
}

/// What a refused top level is answered: the message for each way the top
/// level can fail to fit its kind.
pub open spec fn root_refusal(kind: Seq<char>, v: JView) -> Option<Seq<char>> {
    if root_ok(kind, v) {
        None
    } else if kind == "policy_refs"@ {
        Some("정책 참조 스냅샷은 배열이어야 합니다."@)
    } else if !(v is Object) {
        Some("AI 실행 스냅샷은 객체여야 합니다."@)
    } else if allowed_fields(kind) is None {
        Some("알 수 없는 AI 스냅샷 종류입니다."@)
    } else {
        Some("허용되지 않은 AI 스냅샷 필드가 포함되어 있습니다."@)
    }
}

/// The message for a snapshot nested too deep or holding too many values.
pub open spec fn too_complex_message() -> Seq<char> {
    "AI 실행 스냅샷 구조가 너무 복잡합니다."@
}

/// The message for a string that may not stand in a snapshot.
pub open spec fn refused_text_message() -> Seq<char> {
    "AI 실행 스냅샷에 비밀값 또는 바이너리 payload를 넣을 수 없습니다."@
}

/// The message for a key that may not stand in a snapshot.
pub open spec fn refused_key_message() -> Seq<char> {
    "AI 실행 스냅샷에 비밀값 또는 전체 요청/응답 필드를 넣을 수 없습니다."@
}

/// Checking a value at nesting `depth` after `nodes` values were counted,
/// walking the document in order (an object's key before its value): the
/// count after the value, or the message of the first rule it breaks.
pub open spec fn walk_value(kind: Seq<char>, v: JView, depth: nat, nodes: nat) -> Result<
    nat,
    Seq<char>,
>
    decreases v,
{
    if depth > max_snapshot_depth() || nodes + 1 > max_snapshot_nodes() {
        Err(too_complex_message())
    } else {
        match v {
            JView::Text(t) => if text_allowed(t) {
                Ok(nodes + 1)
            } else {
                Err(refused_text_message())
            },
            JView::Array(items) => walk_items(kind, items, depth + 1, nodes + 1),
            JView::Object(entries) => walk_entries(kind, entries, depth + 1, nodes + 1),
            _ => Ok(nodes + 1),
        }
    }
}

pub open spec fn walk_items(kind: Seq<char>, s: Seq<JView>, depth: nat, nodes: nat) -> Result<
    nat,
    Seq<char>,
>
    decreases s,
{
    if s.len() == 0 {
        Ok(nodes)
    } else {
        match walk_items(kind, s.drop_last(), depth, nodes) {
            Ok(k) => walk_value(kind, s.last(), depth, k),
            Err(m) => Err(m),
        }
    }
}

pub open spec fn walk_entries(
    kind: Seq<char>,
    s: Seq<(Seq<char>, JView)>,
    depth: nat,
    nodes: nat,
) -> Result<nat, Seq<char>>
    decreases s,
{
    if s.len() == 0 {
        Ok(nodes)
    } else {
        match walk_entries(kind, s.drop_last(), depth, nodes) {
            Ok(k) => if key_allowed(kind, s.last().0) {
                walk_value(kind, s.last().1, depth, k)
            } else {
                Err(refused_key_message())
            },
            Err(m) => Err(m),
        }
    }
}

proof fn lemma_walk_items_prefix_err(kind: Seq<char>, s: Seq<JView>, depth: nat, nodes: nat, j: int)
    requires
        0 <= j <= s.len(),
        walk_items(kind, s.subrange(0, j), depth, nodes) is Err,
    ensures
        walk_items(kind, s, depth, nodes) == walk_items(kind, s.subrange(0, j), depth, nodes),
    decreases s.len(),
{
    if j == s.len() {
        assert(s.subrange(0, j) =~= s);
    } else {
        assert(s.drop_last().subrange(0, j) =~= s.subrange(0, j));
        lemma_walk_items_prefix_err(kind, s.drop_last(), depth, nodes, j);
    }
}

proof fn lemma_walk_entries_prefix_err(
    kind: Seq<char>,
    s: Seq<(Seq<char>, JView)>,
    depth: nat,
    nodes: nat,
    j: int,
)
    requires
        0 <= j <= s.len(),
        walk_entries(kind, s.subrange(0, j), depth, nodes) is Err,
    ensures
        walk_entries(kind, s, depth, nodes) == walk_entries(kind, s.subrange(0, j), depth, nodes),
    decreases s.len(),
{
    if j == s.len() {
        assert(s.subrange(0, j) =~= s);
    } else {
        assert(s.drop_last().subrange(0, j) =~= s.subrange(0, j));
        lemma_walk_entries_prefix_err(kind, s.drop_last(), depth, nodes, j);
    }
}

proof fn lemma_root_field(kind: Seq<char>, all: Seq<(Seq<char>, JView)>, i: int)
    requires
        kind != "policy_refs"@,
        allowed_fields(kind) is Some,
        root_ok(kind, JView::Object(all)),
        0 <= i < all.len(),
    ensures
        allowed_fields(kind)->0.contains(all[i].0),
{
}

/// Strict order of keys: by characters, as `String`'s order compares UTF-8
/// bytes, which order code points the same way.
pub open spec fn key_lt(a: Seq<char>, b: Seq<char>) -> bool
    decreases a.len(),
{
    if b.len() == 0 {
        false
    } else if a.len() == 0 {
        true
    } else if a[0] < b[0] {
        true
    } else if b[0] < a[0] {
        false
    } else {
        key_lt(a.drop_first(), b.drop_first())
    }
}

/// Puts an entry into key order: it replaces an entry with the same key, or
/// goes before the first larger key.
pub open spec fn insert_entry(s: Seq<(Seq<char>, JView)>, e: (Seq<char>, JView)) -> Seq<
    (Seq<char>, JView),
>
    decreases s.len(),
{
    if s.len() == 0 {
        seq![e]
    } else if s[0].0 == e.0 {
        seq![e] + s.drop_first()
    } else if key_lt(e.0, s[0].0) {
        seq![e] + s
    } else {
        seq![s[0]] + insert_entry(s.drop_first(), e)
    }
}

/// The entries of an object in key order, a later entry replacing an earlier
/// one with the same key, as collecting them into a `BTreeMap` does.
pub open spec fn sorted_entries(s: Seq<(Seq<char>, JView)>) -> Seq<(Seq<char>, JView)>
    decreases s.len(),
{
    if s.len() == 0 {
        Seq::empty()
    } else {
        insert_entry(sorted_entries(s.drop_last()), s.last())
    }
}

/// The canonical form of a document: every object's entries in key order,
/// recursively.
pub open spec fn canonical(v: JView) -> JView
    decreases v,
{
    match v {
        JView::Array(items) => JView::Array(canonical_items(items)),
        JView::Object(entries) => JView::Object(sorted_entries(canonical_entries(entries))),
        _ => v,
    }
}

pub open spec fn canonical_items(s: Seq<JView>) -> Seq<JView>
    decreases s,
{
    if s.len() == 0 {
        Seq::empty()
    } else {
        canonical_items(s.drop_last()).push(canonical(s.last()))
    }
}

pub open spec fn canonical_entries(s: Seq<(Seq<char>, JView)>) -> Seq<(Seq<char>, JView)>
    decreases s,
{
    if s.len() == 0 {
        Seq::empty()
    } else {
        canonical_entries(s.drop_last()).push((s.last().0, canonical(s.last().1)))
    }
}

/// Whether the entries' keys strictly increase.
pub open spec fn keys_increasing(s: Seq<(Seq<char>, JView)>) -> bool {
    forall|i: int, j: int| 0 <= i < j < s.len() ==> key_lt(#[trigger] s[i].0, #[trigger] s[j].0)
}

pub(crate) proof fn lemma_key_lt_irreflexive(a: Seq<char>)
    ensures
        !key_lt(a, a),
    decreases a.len(),
{
    if a.len() > 0 {
        lemma_key_lt_irreflexive(a.drop_first());
    }
}

pub(crate) proof fn lemma_key_lt_total(a: Seq<char>, b: Seq<char>)
    ensures
        a == b || key_lt(a, b) || key_lt(b, a),
        !(key_lt(a, b) && key_lt(b, a)),
    decreases a.len(),
{
    if a.len() > 0 && b.len() > 0 && a[0] == b[0] {
        lemma_key_lt_total(a.drop_first(), b.drop_first());
        if a.drop_first() == b.drop_first() {
            assert(a =~= seq![a[0]] + a.drop_first());
            assert(b =~= seq![b[0]] + b.drop_first());
        }
    } else if a.len() == 0 && b.len() == 0 {
        assert(a =~= b);
    }
}

pub(crate) proof fn lemma_key_lt_transitive(a: Seq<char>, b: Seq<char>, c: Seq<char>)
    requires
        key_lt(a, b),
        key_lt(b, c),
    ensures
        key_lt(a, c),
    decreases a.len(),
{
    if a.len() > 0 && b.len() > 0 && c.len() > 0 && a[0] == b[0] && b[0] == c[0] {
        lemma_key_lt_transitive(a.drop_first(), b.drop_first(), c.drop_first());
    }
}

proof fn lemma_insert_entry_sorted(s: Seq<(Seq<char>, JView)>, e: (Seq<char>, JView))
    requires
        keys_increasing(s),
    ensures
        keys_increasing(insert_entry(s, e)),
        forall|k: int|
            0 <= k < insert_entry(s, e).len() ==> (#[trigger] insert_entry(s, e)[k]).0 == e.0
                || exists|m: int| 0 <= m < s.len() && s[m].0 == insert_entry(s, e)[k].0,
    decreases s.len(),
{
    let r = insert_entry(s, e);
    if s.len() == 0 {
    } else if s[0].0 == e.0 {
        assert forall|i: int, j: int| 0 <= i < j < r.len() implies key_lt(
            #[trigger] r[i].0,
            #[trigger] r[j].0,
        ) by {
            assert(r[j] == s[j]);
            if i > 0 {
                assert(r[i] == s[i]);
            }
        }
        assert forall|k: int| 0 <= k < r.len() implies (#[trigger] r[k]).0 == e.0 || exists|m: int|
            0 <= m < s.len() && s[m].0 == r[k].0 by {
            if k > 0 {
                assert(r[k] == s[k]);
            }
        }
    } else if key_lt(e.0, s[0].0) {
        assert forall|i: int, j: int| 0 <= i < j < r.len() implies key_lt(
            #[trigger] r[i].0,
            #[trigger] r[j].0,
        ) by {
            assert(r[j] == s[j - 1]);
            if i > 0 {
                assert(r[i] == s[i - 1]);
            } else if j - 1 > 0 {
                lemma_key_lt_transitive(e.0, s[0].0, s[j - 1].0);
            }
        }
        assert forall|k: int| 0 <= k < r.len() implies (#[trigger] r[k]).0 == e.0 || exists|m: int|
            0 <= m < s.len() && s[m].0 == r[k].0 by {
            if k > 0 {
                assert(r[k] == s[k - 1]);
            }
        }
    } else {
        let t = s.drop_first();
        assert forall|i: int, j: int| 0 <= i < j < t.len() implies key_lt(
            #[trigger] t[i].0,
            #[trigger] t[j].0,
        ) by {
            assert(t[i] == s[i + 1]);
            assert(t[j] == s[j + 1]);
        }
        lemma_insert_entry_sorted(t, e);
        let rt = insert_entry(t, e);
        lemma_key_lt_total(e.0, s[0].0);
        assert forall|k: int| 0 <= k < r.len() implies (#[trigger] r[k]).0 == e.0 || exists|m: int|
            0 <= m < s.len() && s[m].0 == r[k].0 by {
            if k > 0 {
                assert(r[k] == rt[k - 1]);
                if rt[k - 1].0 != e.0 {
                    let m = choose|m: int| 0 <= m < t.len() && t[m].0 == rt[k - 1].0;
                    assert(s[m + 1] == t[m]);
                }
            }
        }
        assert forall|i: int, j: int| 0 <= i < j < r.len() implies key_lt(
            #[trigger] r[i].0,
            #[trigger] r[j].0,
        ) by {
            assert(r[j] == rt[j - 1]);
            if i > 0 {
                assert(r[i] == rt[i - 1]);
            } else {
                assert(r[0] == s[0]);
                if rt[j - 1].0 == e.0 {
                } else {
                    let m = choose|m: int| 0 <= m < t.len() && t[m].0 == rt[j - 1].0;
                    assert(s[m + 1] == t[m]);
                }
            }
        }
    }
}

/// The entries of a canonical object have strictly increasing keys: no key
/// occurs twice and they are in ascending order.
pub proof fn lemma_sorted_entries_increasing(s: Seq<(Seq<char>, JView)>)
    ensures
        keys_increasing(sorted_entries(s)),
    decreases s.len(),
{
    if s.len() > 0 {
        lemma_sorted_entries_increasing(s.drop_last());
        lemma_insert_entry_sorted(sorted_entries(s.drop_last()), s.last());
    }
}

proof fn lemma_canonical_items_index(s: Seq<JView>)
    ensures
        canonical_items(s).len() == s.len(),
        forall|i: int| 0 <= i < s.len() ==> #[trigger] canonical_items(s)[i] == canonical(s[i]),
    decreases s.len(),
{
    if s.len() > 0 {
        lemma_canonical_items_index(s.drop_last());
    }
}

proof fn lemma_canonical_entries_index(s: Seq<(Seq<char>, JView)>)
    ensures
        canonical_entries(s).len() == s.len(),
        forall|i: int|
            0 <= i < s.len() ==> #[trigger] canonical_entries(s)[i] == (s[i].0, canonical(s[i].1)),
    decreases s.len(),
{
    if s.len() > 0 {
        lemma_canonical_entries_index(s.drop_last());
    }
}

proof fn lemma_insert_entry_from(s: Seq<(Seq<char>, JView)>, e: (Seq<char>, JView))
    ensures
        forall|k: int|
            0 <= k < insert_entry(s, e).len() ==> #[trigger] insert_entry(s, e)[k] == e
                || s.contains(insert_entry(s, e)[k]),
    decreases s.len(),
{
    let r = insert_entry(s, e);
    if s.len() == 0 {
    } else if s[0].0 == e.0 {
        assert forall|k: int| 0 <= k < r.len() implies #[trigger] r[k] == e || s.contains(r[k]) by {
            if k > 0 {
                assert(r[k] == s[k]);
            }
        }
    } else if key_lt(e.0, s[0].0) {
        assert forall|k: int| 0 <= k < r.len() implies #[trigger] r[k] == e || s.contains(r[k]) by {
            if k > 0 {
                assert(r[k] == s[k - 1]);
            }
        }
    } else {
        let t = s.drop_first();
        lemma_insert_entry_from(t, e);
        let rt = insert_entry(t, e);
        assert forall|k: int| 0 <= k < r.len() implies #[trigger] r[k] == e || s.contains(r[k]) by {
            if k == 0 {
                assert(r[0] == s[0]);
            } else {
                assert(r[k] == rt[k - 1]);
                if rt[k - 1] != e {
                    let m = choose|m: int| 0 <= m < t.len() && t[m] == rt[k - 1];
                    assert(s[m + 1] == t[m]);
                }
            }
        }
    }
}

proof fn lemma_sorted_entries_from(s: Seq<(Seq<char>, JView)>)
    ensures
        forall|k: int|
            0 <= k < sorted_entries(s).len() ==> s.contains(#[trigger] sorted_entries(s)[k]),
    decreases s.len(),
{
    if s.len() > 0 {
        let prev = s.drop_last();
        lemma_sorted_entries_from(prev);
        lemma_insert_entry_from(sorted_entries(prev), s.last());
        let r = sorted_entries(s);
        assert forall|k: int| 0 <= k < r.len() implies s.contains(#[trigger] r[k]) by {
            if r[k] == s.last() {
                assert(s[s.len() - 1] == s.last());
            } else {
                let sp = sorted_entries(prev);
                let m = choose|m: int| 0 <= m < sp.len() && sp[m] == r[k];
                let n = choose|n: int| 0 <= n < prev.len() && prev[n] == sp[m];
                assert(s[n] == prev[n]);
            }
        }
    }
}

proof fn lemma_insert_entry_last(s: Seq<(Seq<char>, JView)>, e: (Seq<char>, JView))
    requires
        forall|k: int| 0 <= k < s.len() ==> key_lt(#[trigger] s[k].0, e.0),
    ensures
        insert_entry(s, e) == s.push(e),
    decreases s.len(),
{
    if s.len() > 0 {
        lemma_key_lt_irreflexive(e.0);
        lemma_key_lt_total(s[0].0, e.0);
        let t = s.drop_first();
        assert forall|k: int| 0 <= k < t.len() implies key_lt(#[trigger] t[k].0, e.0) by {
            assert(t[k] == s[k + 1]);
        }
        lemma_insert_entry_last(t, e);
        assert(seq![s[0]] + t.push(e) =~= s.push(e));
    }
}

proof fn lemma_sorted_entries_of_sorted(s: Seq<(Seq<char>, JView)>)
    requires
        keys_increasing(s),
    ensures
        sorted_entries(s) == s,
    decreases s.len(),
{
    if s.len() > 0 {
        let prev = s.drop_last();
        assert forall|i: int, j: int| 0 <= i < j < prev.len() implies key_lt(
            #[trigger] prev[i].0,
            #[trigger] prev[j].0,
        ) by {
            assert(prev[i] == s[i]);
            assert(prev[j] == s[j]);
        }
        lemma_sorted_entries_of_sorted(prev);
        assert forall|k: int| 0 <= k < prev.len() implies key_lt(#[trigger] prev[k].0, s.last().0) by {
            assert(prev[k] == s[k]);
        }
        lemma_insert_entry_last(prev, s.last());
        assert(prev.push(s.last()) =~= s);
    }
}

/// Canonical form is stable: putting a canonical document into canonical
/// form again changes nothing.
pub proof fn lemma_canonical_idempotent(v: JView)
    ensures
        canonical(canonical(v)) == canonical(v),
    decreases v,
{
    match v {
        JView::Array(items) => {
            let c = canonical_items(items);
            lemma_canonical_items_index(items);
            lemma_canonical_items_index(c);
            assert forall|i: int| 0 <= i < c.len() implies #[trigger] canonical_items(c)[i] == c[i] by {
                assert(decreases_to!(v => items));
                assert(decreases_to!(items => items[i]));
                lemma_canonical_idempotent(items[i]);
            }
            assert(canonical_items(c) =~= c);
        },
        JView::Object(entries) => {
            let c = canonical_entries(entries);
            let y = sorted_entries(c);
            lemma_canonical_entries_index(entries);
            lemma_sorted_entries_from(c);
            lemma_canonical_entries_index(y);
            assert forall|k: int| 0 <= k < y.len() implies #[trigger] canonical_entries(y)[k]
                == y[k] by {
                let m = choose|m: int| 0 <= m < c.len() && c[m] == y[k];
                assert(c[m] == (entries[m].0, canonical(entries[m].1)));
                assert(decreases_to!(v => entries));
                assert(decreases_to!(entries => entries[m]));
                assert(decreases_to!(entries[m] => entries[m].1));
                lemma_canonical_idempotent(entries[m].1);
            }
            assert(canonical_entries(y) =~= y);
            lemma_sorted_entries_increasing(c);
            lemma_sorted_entries_of_sorted(y);
        },
        _ => {},
    }
}

proof fn lemma_entries_ok_all(kind: Seq<char>, s: Seq<(Seq<char>, JView)>, depth: nat)
    ensures
        entries_ok(kind, s, depth) <==> forall|i: int|
            0 <= i < s.len() ==> key_allowed(kind, #[trigger] s[i].0) && value_ok(
                kind,
                s[i].1,
                depth,
            ),
    decreases s.len(),
{
    if s.len() > 0 {
        let p = s.drop_last();
        lemma_entries_ok_all(kind, p, depth);
        if entries_ok(kind, s, depth) {
            assert forall|i: int| 0 <= i < s.len() implies key_allowed(kind, #[trigger] s[i].0)
                && value_ok(kind, s[i].1, depth) by {
                if i < p.len() {
                    assert(p[i] == s[i]);
                    assert(key_allowed(kind, p[i].0));
                }
            }
        }
        if forall|i: int|
            0 <= i < s.len() ==> key_allowed(kind, #[trigger] s[i].0) && value_ok(
                kind,
                s[i].1,
                depth,
            ) {
            assert forall|i: int| 0 <= i < p.len() implies key_allowed(kind, #[trigger] p[i].0)
                && value_ok(kind, p[i].1, depth) by {
                assert(p[i] == s[i]);
                assert(key_allowed(kind, s[i].0));
            }
            assert(key_allowed(kind, s[s.len() - 1].0));
            assert(value_ok(kind, s[s.len() - 1].1, depth));
            assert(s.last() == s[s.len() - 1]);
            assert(entries_ok(kind, p, depth));
            assert(entries_ok(kind, s, depth));
        }
    }
}

proof fn lemma_items_ok_all(kind: Seq<char>, s: Seq<JView>, depth: nat)
    ensures
        items_ok(kind, s, depth) <==> forall|i: int|
            0 <= i < s.len() ==> value_ok(kind, #[trigger] s[i], depth),
    decreases s.len(),
{
    if s.len() > 0 {
        let p = s.drop_last();
        lemma_items_ok_all(kind, p, depth);
        if items_ok(kind, s, depth) {
            assert forall|i: int| 0 <= i < s.len() implies value_ok(kind, #[trigger] s[i], depth) by {
                if i < p.len() {
                    assert(p[i] == s[i]);
                    assert(value_ok(kind, p[i], depth));
                }
            }
        }
        if forall|i: int| 0 <= i < s.len() ==> value_ok(kind, #[trigger] s[i], depth) {
            assert forall|i: int| 0 <= i < p.len() implies value_ok(kind, #[trigger] p[i], depth) by {
                assert(p[i] == s[i]);
                assert(value_ok(kind, s[i], depth));
            }
            assert(value_ok(kind, s[s.len() - 1], depth));
            assert(items_ok(kind, s, depth));
        }
    }
}

proof fn lemma_entries_count_front(x: (Seq<char>, JView), s: Seq<(Seq<char>, JView)>)
    ensures
        entries_count(seq![x] + s) == node_count(x.1) + entries_count(s),
    decreases s.len(),
{
    let w = seq![x] + s;
    if s.len() == 0 {
        assert(w.drop_last() =~= Seq::<(Seq<char>, JView)>::empty());
        assert(w.last() == x);
        assert(entries_count(w) == entries_count(w.drop_last()) + node_count(w.last().1));
    } else {
        assert(w.drop_last() =~= seq![x] + s.drop_last());
        assert(w.last() == s.last());
        lemma_entries_count_front(x, s.drop_last());
        assert(entries_count(w) == entries_count(w.drop_last()) + node_count(w.last().1));
        assert(entries_count(s) == entries_count(s.drop_last()) + node_count(s.last().1));
    }
}

proof fn lemma_insert_entry_count(s: Seq<(Seq<char>, JView)>, e: (Seq<char>, JView))
    ensures
        entries_count(insert_entry(s, e)) <= entries_count(s) + node_count(e.1),
    decreases s.len(),
{
    if s.len() == 0 {
        lemma_entries_count_front(e, s);
    } else {
        let t = s.drop_first();
        assert(s =~= seq![s[0]] + t);
        lemma_entries_count_front(s[0], t);
        if s[0].0 == e.0 {
            lemma_entries_count_front(e, t);
        } else if key_lt(e.0, s[0].0) {
            lemma_entries_count_front(e, s);
        } else {
            lemma_insert_entry_count(t, e);
            lemma_entries_count_front(s[0], insert_entry(t, e));
        }
    }
}

proof fn lemma_sorted_entries_count(s: Seq<(Seq<char>, JView)>)
    ensures
        entries_count(sorted_entries(s)) <= entries_count(s),
    decreases s.len(),
{
    if s.len() > 0 {
        lemma_sorted_entries_count(s.drop_last());
        lemma_insert_entry_count(sorted_entries(s.drop_last()), s.last());
    }
}

proof fn lemma_canonical_count(v: JView)
    ensures
        node_count(canonical(v)) <= node_count(v),
    decreases v,
{
    match v {
        JView::Array(items) => {
            lemma_canonical_items_count(items);
        },
        JView::Object(entries) => {
            lemma_canonical_entries_count(entries);
            lemma_sorted_entries_count(canonical_entries(entries));
        },
        _ => {},
    }
}

proof fn lemma_canonical_items_count(s: Seq<JView>)
    ensures
        items_count(canonical_items(s)) <= items_count(s),
    decreases s,
{
    if s.len() > 0 {
        lemma_canonical_items_count(s.drop_last());
        lemma_canonical_count(s.last());
        assert(canonical_items(s).drop_last() =~= canonical_items(s.drop_last()));
    }
}

proof fn lemma_canonical_entries_count(s: Seq<(Seq<char>, JView)>)
    ensures
        entries_count(canonical_entries(s)) <= entries_count(s),
    decreases s,
{
    if s.len() > 0 {
        lemma_canonical_entries_count(s.drop_last());
        lemma_canonical_count(s.last().1);
        assert(canonical_entries(s).drop_last() =~= canonical_entries(s.drop_last()));
    }
}

proof fn lemma_canonical_value_ok(kind: Seq<char>, v: JView, depth: nat)
    requires
        value_ok(kind, v, depth),
    ensures
        value_ok(kind, canonical(v), depth),
    decreases v,
{
    match v {
        JView::Array(items) => {
            let c = canonical_items(items);
            lemma_canonical_items_index(items);
            lemma_items_ok_all(kind, items, depth + 1);
            lemma_items_ok_all(kind, c, depth + 1);
            assert forall|i: int| 0 <= i < c.len() implies value_ok(kind, #[trigger] c[i], depth + 1) by {
                assert(decreases_to!(v => items));
                assert(decreases_to!(items => items[i]));
                lemma_canonical_value_ok(kind, items[i], depth + 1);
            }
        },
        JView::Object(entries) => {
            let c = canonical_entries(entries);
            let y = sorted_entries(c);
            lemma_canonical_entries_index(entries);
            lemma_sorted_entries_from(c);
            lemma_entries_ok_all(kind, entries, depth + 1);
            lemma_entries_ok_all(kind, y, depth + 1);
            assert forall|k: int| 0 <= k < y.len() implies key_allowed(kind, #[trigger] y[k].0)
                && value_ok(kind, y[k].1, depth + 1) by {
                let m = choose|m: int| 0 <= m < c.len() && c[m] == y[k];
                assert(c[m] == (entries[m].0, canonical(entries[m].1)));
                assert(key_allowed(kind, entries[m].0));
                assert(decreases_to!(v => entries));
                assert(decreases_to!(entries => entries[m]));
                assert(decreases_to!(entries[m] => entries[m].1));
                lemma_canonical_value_ok(kind, entries[m].1, depth + 1);
            }
        },
        _ => {},
    }
}

/// A snapshot accepted for storage is accepted again in canonical form: its
/// top level still fits its kind, it holds no more values than before, and
/// every value and key still passes the rules.
pub proof fn lemma_canonical_accepted(kind: Seq<char>, v: JView)
    requires
        root_ok(kind, v),
        node_count(v) <= max_snapshot_nodes(),
        value_ok(kind, v, 0),
    ensures
        root_ok(kind, canonical(v)),
        node_count(canonical(v)) <= max_snapshot_nodes(),
        value_ok(kind, canonical(v), 0),
{
    lemma_canonical_count(v);
    lemma_canonical_value_ok(kind, v, 0);
    if let JView::Object(entries) = v {
        if kind != "policy_refs"@ {
            let c = canonical_entries(entries);
            let y = sorted_entries(c);
            lemma_canonical_entries_index(entries);
            lemma_sorted_entries_from(c);
            let fields = allowed_fields(kind)->0;
            assert forall|k: int| 0 <= k < y.len() implies fields.contains(#[trigger] y[k].0) by {
                let m = choose|m: int| 0 <= m < c.len() && c[m] == y[k];
                assert(c[m] == (entries[m].0, canonical(entries[m].1)));
                assert(fields.contains(entries[m].0));
            }
        }
    }
}

/// The top level a snapshot of each kind may have. Policy references are an
/// array; every other known kind is an object whose keys all come from its
/// own list of fields, and a kind outside these lists is refused:
/// - `capability`: schema, provider, serviceSurface, source, supports,
///   limitations;
/// - `data_tier`: schema, source, tier;
/// - `retention`: schema, source, retention;
/// - `consent`: schema, source and the confirmations (confirmed,
///   humanActionConfirmed, rightsConfirmed, costConfirmed,
///   requestContentConfirmed, contractOverrideConfirmed, adultConfirmed,
///   under18AudienceExcludedConfirmed, professionalBusinessConfirmed,
///   supportedRegionConfirmed, paidServiceConfirmed);
/// - `prompt_options`: schema, importedResultOnly, operation, provider,
///   model, action, prompt, negativePrompt, seed, width, height, steps,
///   scale, strength, noise, outputCount, gridLayout;
/// - `provider_usage`: schema, provider, candidateIndex, seed and the token
///   counts (input_tokens_by_modality, output_tokens_by_modality,
///   total_thought_tokens, total_tokens).
pub proof fn lemma_snapshot_top_level_fields(
    kind: Seq<char>,
    items: Seq<JView>,
    entries: Seq<(Seq<char>, JView)>,
)
    ensures
        root_ok("policy_refs"@, JView::Array(items)),
        !root_ok("policy_refs"@, JView::Object(entries)),
        root_ok("capability"@, JView::Object(entries)) <==> forall|i: int|
            0 <= i < entries.len() ==> seq![
                "schema"@, "provider"@, "serviceSurface"@, "source"@, "supports"@,
                "limitations"@
            ].contains(#[trigger] entries[i].0),
        root_ok("data_tier"@, JView::Object(entries)) <==> forall|i: int|
            0 <= i < entries.len() ==> seq!["schema"@, "source"@, "tier"@].contains(
                #[trigger] entries[i].0,
            ),
        root_ok("retention"@, JView::Object(entries)) <==> forall|i: int|
            0 <= i < entries.len() ==> seq!["schema"@, "source"@, "retention"@].contains(
                #[trigger] entries[i].0,
            ),
        root_ok("consent"@, JView::Object(entries)) <==> forall|i: int|
            0 <= i < entries.len() ==> seq![
                "schema"@, "source"@, "confirmed"@, "humanActionConfirmed"@,
                "rightsConfirmed"@, "costConfirmed"@, "requestContentConfirmed"@,
                "contractOverrideConfirmed"@, "adultConfirmed"@,
                "under18AudienceExcludedConfirmed"@, "professionalBusinessConfirmed"@,
                "supportedRegionConfirmed"@, "paidServiceConfirmed"@
            ].contains(#[trigger] entries[i].0),
        root_ok("prompt_options"@, JView::Object(entries)) <==> forall|i: int|
            0 <= i < entries.len() ==> seq![
                "schema"@, "importedResultOnly"@, "operation"@, "provider"@, "model"@,
                "action"@, "prompt"@, "negativePrompt"@, "seed"@, "width"@, "height"@,
                "steps"@, "scale"@, "strength"@, "noise"@, "outputCount"@, "gridLayout"@
            ].contains(#[trigger] entries[i].0),
        root_ok("provider_usage"@, JView::Object(entries)) <==> forall|i: int|
            0 <= i < entries.len() ==> seq![
                "schema"@, "provider"@, "candidateIndex"@, "seed"@,
                "input_tokens_by_modality"@, "output_tokens_by_modality"@,
                "total_thought_tokens"@, "total_tokens"@
            ].contains(#[trigger] entries[i].0),
        (kind != "policy_refs"@ && kind != "capability"@ && kind != "data_tier"@ && kind
            != "retention"@ && kind != "consent"@ && kind != "prompt_options"@ && kind
            != "provider_usage"@) ==> !root_ok(kind, JView::Object(entries)),
{
    reveal_strlit("policy_refs");
    reveal_strlit("capability");
    reveal_strlit("data_tier");
    reveal_strlit("retention");
    reveal_strlit("consent");
    reveal_strlit("prompt_options");
    reveal_strlit("provider_usage");
    assert("capability"@.len() != "policy_refs"@.len());
    assert("data_tier"@.len() != "policy_refs"@.len());
    assert("retention"@[0] != "policy_refs"@[0]);
    assert("consent"@.len() != "policy_refs"@.len());
    assert("prompt_options"@.len() != "policy_refs"@.len());
    assert("provider_usage"@.len() != "policy_refs"@.len());
    assert("provider_usage"@[3] != "prompt_options"@[3]);
}

/// Every prompt option field may stand at the top level of a prompt options
/// snapshot: such a snapshot whose keys all name prompt options, within the
/// node limit and with values that pass the value rules, is stored.
pub proof fn lemma_prompt_options_accepted(entries: Seq<(Seq<char>, JView)>)
    requires
        forall|i: int|
            0 <= i < entries.len() ==> seq![
                "schema"@, "importedResultOnly"@, "operation"@, "provider"@, "model"@,
                "action"@, "prompt"@, "negativePrompt"@, "seed"@, "width"@, "height"@,
                "steps"@, "scale"@, "strength"@, "noise"@, "outputCount"@, "gridLayout"@
            ].contains(#[trigger] entries[i].0),
        node_count(JView::Object(entries)) <= max_snapshot_nodes(),
        value_ok("prompt_options"@, JView::Object(entries), 0),
    ensures
        document_accepted("prompt_options"@, JView::Object(entries)),
{
    lemma_snapshot_top_level_fields("prompt_options"@, seq![], entries);
}

/// The words a snapshot key may not hold, in any case: authorization, token,
/// cookie, secret, headers, request, response, bytes and base64. The only
/// keys that may hold one are the consent kind's `requestContentConfirmed`
/// and the provider usage kind's token counts.
pub proof fn lemma_forbidden_key_words(kind: Seq<char>, key: Seq<char>)
    ensures
        key_allowed(kind, key) <==> (key_exempt(kind, key) || !(contains_seq(
            lower_ascii(key),
            "authorization"@,
        ) || contains_seq(lower_ascii(key), "token"@) || contains_seq(lower_ascii(key), "cookie"@)
            || contains_seq(lower_ascii(key), "secret"@) || contains_seq(
            lower_ascii(key),
            "headers"@,
        ) || contains_seq(lower_ascii(key), "request"@) || contains_seq(
            lower_ascii(key),
            "response"@,
        ) || contains_seq(lower_ascii(key), "bytes"@) || contains_seq(lower_ascii(key), "base64"@))),
        key_exempt(kind, key) <==> ((kind == "consent"@ && key == "requestContentConfirmed"@) || (
        kind == "provider_usage"@ && (key == "input_tokens_by_modality"@ || key
            == "output_tokens_by_modality"@ || key == "total_thought_tokens"@ || key
            == "total_tokens"@))),
{
    let words = forbidden_key_words();
    let l = lower_ascii(key);
    if !key_exempt(kind, key) {
        if forall|w: int| 0 <= w < words.len() ==> !contains_seq(l, #[trigger] words[w]) {
            assert(!contains_seq(l, words[0]));
            assert(!contains_seq(l, words[1]));
            assert(!contains_seq(l, words[2]));
            assert(!contains_seq(l, words[3]));
            assert(!contains_seq(l, words[4]));
            assert(!contains_seq(l, words[5]));
            assert(!contains_seq(l, words[6]));
            assert(!contains_seq(l, words[7]));
            assert(!contains_seq(l, words[8]));
        } else {
            let w = choose|w: int| 0 <= w < words.len() && contains_seq(l, #[trigger] words[w]);
            assert(0 <= w < 9);
        }
    }
}

/// The limits of a stored snapshot: its raw and canonical texts take at most
/// 64KiB, it holds at most 1024 values nested at most 8 deep, and a string
/// in it takes at most 4096 bytes, holds no control character, does not
/// start like a data URL and holds nothing that looks like credentials or
/// base64 (`authorization:`, `bearer `, `cookie:`, `base64,`), in any case.
pub proof fn lemma_snapshot_limits(kind: Seq<char>, raw: Seq<char>, text: Seq<char>, v: JView, depth: nat)
    ensures
        canonical_snapshot(kind, raw) matches Some(t) ==> byte_len(raw) <= 65536 && byte_len(t)
            <= 65536,
        document_accepted(kind, v) ==> node_count(v) <= 1024,
        value_ok(kind, v, depth) ==> depth <= 8,
        depth <= 8 && (v is Null || v is Bool || v is Number) ==> value_ok(kind, v, depth),
        text_allowed(text) <==> {
            &&& byte_len(text) <= 4096
            &&& forall|i: int| 0 <= i < text.len() ==> !is_control(#[trigger] text[i])
            &&& !starts_with_seq(lower_ascii(text), "data:"@)
            &&& !contains_seq(lower_ascii(text), "authorization:"@)
            &&& !contains_seq(lower_ascii(text), "bearer "@)
            &&& !contains_seq(lower_ascii(text), "cookie:"@)
            &&& !contains_seq(lower_ascii(text), "base64,"@)
        },
{
}

pub(crate) fn key_less(a: &str, b: &str) -> (r: bool)
    ensures
        r == key_lt(a@, b@),
{
    let x = chars_of(a);
    let y = chars_of(b);
    assert(x@.subrange(0, x@.len() as int) =~= x@);
    assert(y@.subrange(0, y@.len() as int) =~= y@);
    let mut i: usize = 0;
    while i < x.len() && i < y.len() && x[i] == y[i]
        invariant
            i <= x.len(),
            i <= y.len(),
            x@ == a@,
            y@ == b@,
            forall|j: int| 0 <= j < i ==> x@[j] == y@[j],
            key_lt(a@, b@) == key_lt(x@.subrange(i as int, x@.len() as int), y@.subrange(
                i as int,
                y@.len() as int,
            )),
        decreases x.len() - i,
    {
        proof {
            let xs = x@.subrange(i as int, x@.len() as int);
            let ys = y@.subrange(i as int, y@.len() as int);
            assert(xs.drop_first() =~= x@.subrange(i + 1, x@.len() as int));
            assert(ys.drop_first() =~= y@.subrange(i + 1, y@.len() as int));
        }
        i = i + 1;
    }
    if i == y.len() {
        false
    } else if i == x.len() {
        true
    } else {
        x[i] < y[i]
    }
}

fn copy_text(s: &String) -> (r: String)
    ensures
        r@ == s@,
{
    crate::text::owned(s.as_str())
}

/// Inserts an entry into key-ordered entries, replacing an entry with its key.
fn insert_sorted(out: &mut Vec<(String, JsonValue)>, key: String, value: JsonValue)
    ensures
        entries_jview(final(out)@) == insert_entry(entries_jview(old(out)@), (key@, jview(value))),
{
    let ghost s = entries_jview(out@);
    let ghost e = (key@, jview(value));
    proof {
        lemma_entries_view_len(out@);
        assert(s.subrange(0, s.len() as int) =~= s);
        assert(s.subrange(0, 0) + insert_entry(s, e) =~= insert_entry(s, e));
    }
    let mut j: usize = 0;
    while j < out.len()
        invariant
            j <= out.len(),
            s == entries_jview(out@),
            s.len() == out@.len(),
            e == (key@, jview(value)),
            insert_entry(s, e) == s.subrange(0, j as int) + insert_entry(
                s.subrange(j as int, s.len() as int),
                e,
            ),
        ensures
            j <= out.len(),
            s == entries_jview(out@),
            s.len() == out@.len(),
            insert_entry(s, e) == s.subrange(0, j as int) + insert_entry(
                s.subrange(j as int, s.len() as int),
                e,
            ),
            j < out.len() ==> (s[j as int].0 == e.0 || key_lt(e.0, s[j as int].0)),
        decreases out.len() - j,
    {
        proof {
            lemma_entries_view_index(out@, j as int);
        }
        let same = str_eq(out[j].0.as_str(), key.as_str());
        let before = !same && key_less(key.as_str(), out[j].0.as_str());
        if same || before {
            break;
        }
        proof {
            let t = s.subrange(j as int, s.len() as int);
            assert(t[0] == s[j as int]);
            assert(t.drop_first() =~= s.subrange(j + 1, s.len() as int));
            assert(s.subrange(0, j + 1) =~= s.subrange(0, j as int) + seq![s[j as int]]);
        }
        j = j + 1;
    }
    let ghost old_v = out@;
    if j < out.len() && str_eq(out[j].0.as_str(), key.as_str()) {
        proof {
            lemma_entries_view_index(out@, j as int);
            let t = s.subrange(j as int, s.len() as int);
            assert(t[0] == s[j as int]);
            assert(t.drop_first() =~= s.subrange(j + 1, s.len() as int));
            assert(insert_entry(s, e) =~= s.subrange(0, j as int) + seq![e] + s.subrange(
                j + 1,
                s.len() as int,
            ));
        }
        let _ = out.remove(j);
        out.insert(j, (key, value));
        proof {
            lemma_entries_view_len(out@);
            assert forall|k: int| 0 <= k < out@.len() implies #[trigger] entries_jview(out@)[k]
                == insert_entry(s, e)[k] by {
                lemma_entries_view_index(out@, k);
                if k != j {
                    lemma_entries_view_index(old_v, k);
                }
            }
            assert(entries_jview(out@) =~= insert_entry(s, e));
        }
    } else {
        proof {
            if j < out.len() {
                lemma_entries_view_index(out@, j as int);
                let t = s.subrange(j as int, s.len() as int);
                assert(t[0] == s[j as int]);
            } else {
                assert(s.subrange(j as int, s.len() as int) =~= Seq::<(Seq<char>, JView)>::empty());
            }
            assert(insert_entry(s, e) =~= s.subrange(0, j as int) + seq![e] + s.subrange(
                j as int,
                s.len() as int,
            ));
        }
        out.insert(j, (key, value));
        proof {
            lemma_entries_view_len(out@);
            assert forall|k: int| 0 <= k < out@.len() implies #[trigger] entries_jview(out@)[k]
                == insert_entry(s, e)[k] by {
                lemma_entries_view_index(out@, k);
                if k < j {
                    lemma_entries_view_index(old_v, k);
                } else if k > j {
                    lemma_entries_view_index(old_v, k - 1);
                }
            }
            assert(entries_jview(out@) =~= insert_entry(s, e));
        }
    }
}

/// The canonical form of a document: objects' entries sorted by key (a later
/// entry replacing an earlier one with the same key), recursively.
pub fn sort_json(value: &JsonValue) -> (r: JsonValue)
    ensures
        jview(r) == canonical(jview(*value)),
    decreases value,
{
    match value {
        JsonValue::Null => JsonValue::Null,
        JsonValue::Bool(b) => JsonValue::Bool(*b),
        JsonValue::Number(n) => JsonValue::Number(copy_text(n)),
        JsonValue::Text(t) => JsonValue::Text(copy_text(t)),
        JsonValue::Array(items) => {
            let mut out: Vec<JsonValue> = Vec::new();
            let mut i: usize = 0;
            while i < items.len()
                invariant
                    i <= items.len(),
                    *value == JsonValue::Array(*items),
                    items_jview(out@) == canonical_items(items_jview(items@.subrange(0, i as int))),
                decreases items.len() - i,
            {
                proof {
                    assert(decreases_to!(*value => value->Array_0));
                    assert(value->Array_0 == *items);
                    assert(decreases_to!(*items => items@));
                    assert(decreases_to!(items@ => items@[i as int]));
                }
                let item = sort_json(&items[i]);
                let ghost before = out@;
                out.push(item);
                proof {
                    assert(out@.drop_last() =~= before);
                    lemma_items_view_step(items@, i as int);
                    let p = items_jview(items@.subrange(0, i + 1));
                    assert(p.drop_last() =~= items_jview(items@.subrange(0, i as int)));
                }
                i = i + 1;
            }
            assert(items@.subrange(0, i as int) =~= items@);
            JsonValue::Array(out)
        },
        JsonValue::Object(entries) => {
            let mut out: Vec<(String, JsonValue)> = Vec::new();
            let mut i: usize = 0;
            while i < entries.len()
                invariant
                    i <= entries.len(),
                    *value == JsonValue::Object(*entries),
                    entries_jview(out@) == sorted_entries(
                        canonical_entries(entries_jview(entries@.subrange(0, i as int))),
                    ),
                decreases entries.len() - i,
            {
                proof {
                    assert(decreases_to!(*value => value->Object_0));
                    assert(value->Object_0 == *entries);
                    assert(decreases_to!(*entries => entries@));
                    assert(decreases_to!(entries@ => entries@[i as int]));
                    assert(decreases_to!(entries@[i as int] => entries@[i as int].1));
                }
                let sorted_value = sort_json(&entries[i].1);
                let key = copy_text(&entries[i].0);
                insert_sorted(&mut out, key, sorted_value);
                proof {
                    lemma_entries_view_step(entries@, i as int);
                    let p = entries_jview(entries@.subrange(0, i + 1));
                    assert(p.drop_last() == entries_jview(entries@.subrange(0, i as int)));
                    assert(canonical_entries(p).drop_last() =~= canonical_entries(p.drop_last()));
                }
                i = i + 1;
            }
            assert(entries@.subrange(0, i as int) =~= entries@);
            JsonValue::Object(out)
        },
    }
}

/// An error about a run snapshot.
pub fn snapshot_error(message: &str) -> (e: AppError)
    ensures
        e.code == ErrorCode::AiSnapshot,
        e.message@ == message@,
{
    AppError::new(ErrorCode::AiSnapshot, message)
}

proof fn lemma_items_view_step(s: Seq<JsonValue>, i: int)
    requires
        0 <= i < s.len(),
    ensures
        items_jview(s.subrange(0, i + 1)) == items_jview(s.subrange(0, i)).push(jview(s[i])),
        items_jview(s.subrange(0, i)).len() == i,
{
    assert(s.subrange(0, i + 1).drop_last() =~= s.subrange(0, i));
    lemma_items_view_len(s.subrange(0, i));
}

proof fn lemma_items_view_len(s: Seq<JsonValue>)
    ensures
        items_jview(s).len() == s.len(),
    decreases s.len(),
{
    if s.len() > 0 {
        lemma_items_view_len(s.drop_last());
    }
}

proof fn lemma_entries_view_len(s: Seq<(String, JsonValue)>)
    ensures
        entries_jview(s).len() == s.len(),
    decreases s.len(),
{
    if s.len() > 0 {
        lemma_entries_view_len(s.drop_last());
    }
}

proof fn lemma_items_view_index(s: Seq<JsonValue>, i: int)
    requires
        0 <= i < s.len(),
    ensures
        items_jview(s)[i] == jview(s[i]),
    decreases s.len(),
{
    lemma_items_view_len(s);
    if i < s.len() - 1 {
        lemma_items_view_index(s.drop_last(), i);
    }
}

proof fn lemma_entries_view_step(s: Seq<(String, JsonValue)>, i: int)
    requires
        0 <= i < s.len(),
    ensures
        entries_jview(s.subrange(0, i + 1)) == entries_jview(s.subrange(0, i)).push(
            (s[i].0@, jview(s[i].1)),
        ),
{
    assert(s.subrange(0, i + 1).drop_last() =~= s.subrange(0, i));
}

proof fn lemma_entries_view_index(s: Seq<(String, JsonValue)>, i: int)
    requires
        0 <= i < s.len(),
    ensures
        entries_jview(s)[i] == (s[i].0@, jview(s[i].1)),
    decreases s.len(),
{
    lemma_entries_view_len(s);
    if i < s.len() - 1 {
        lemma_entries_view_index(s.drop_last(), i);
    }
}

proof fn lemma_items_count_mono(s: Seq<JView>, i: int)
    requires
        0 <= i <= s.len(),
    ensures
        items_count(s.subrange(0, i)) <= items_count(s),
    decreases s.len(),
{
    if i < s.len() {
        assert(s.subrange(0, i) =~= s.drop_last().subrange(0, i));
        lemma_items_count_mono(s.drop_last(), i);
    } else {
        assert(s.subrange(0, i) =~= s);
    }
}

proof fn lemma_entries_count_mono(s: Seq<(Seq<char>, JView)>, i: int)
    requires
        0 <= i <= s.len(),
    ensures
        entries_count(s.subrange(0, i)) <= entries_count(s),
    decreases s.len(),
{
    if i < s.len() {
        assert(s.subrange(0, i) =~= s.drop_last().subrange(0, i));
        lemma_entries_count_mono(s.drop_last(), i);
    } else {
        assert(s.subrange(0, i) =~= s);
    }
}

proof fn lemma_items_ok_prefix(kind: Seq<char>, s: Seq<JView>, depth: nat, i: int)
    requires
        0 <= i <= s.len(),
        items_ok(kind, s, depth),
    ensures
        items_ok(kind, s.subrange(0, i), depth),
        i < s.len() ==> value_ok(kind, s[i], depth),
    decreases s.len(),
{
    if i < s.len() {
        if i == s.len() - 1 {
            assert(s.subrange(0, i) =~= s.drop_last());
        } else {
            assert(s.subrange(0, i) =~= s.drop_last().subrange(0, i));
            lemma_items_ok_prefix(kind, s.drop_last(), depth, i);
            assert(s.drop_last()[i] == s[i]);
        }
    } else {
        assert(s.subrange(0, i) =~= s);
    }
}

proof fn lemma_entries_ok_prefix(kind: Seq<char>, s: Seq<(Seq<char>, JView)>, depth: nat, i: int)
    requires
        0 <= i <= s.len(),
        entries_ok(kind, s, depth),
    ensures
        entries_ok(kind, s.subrange(0, i), depth),
        i < s.len() ==> key_allowed(kind, s[i].0) && value_ok(kind, s[i].1, depth),
    decreases s.len(),
{
    if i < s.len() {
        if i == s.len() - 1 {
            assert(s.subrange(0, i) =~= s.drop_last());
        } else {
            assert(s.subrange(0, i) =~= s.drop_last().subrange(0, i));
            lemma_entries_ok_prefix(kind, s.drop_last(), depth, i);
            assert(s.drop_last()[i] == s[i]);
        }
    } else {
        assert(s.subrange(0, i) =~= s);
    }
}

/// `s.as_str().to_ascii_lowercase()` as characters.
fn lower_chars(s: &str) -> (r: Vec<char>)
    ensures
        r@ == lower_ascii(s@),
{
    let v = chars_of(s);
    let mut r: Vec<char> = Vec::new();
    let mut i: usize = 0;
    while i < v.len()
        invariant
            i <= v.len(),
            v@ == s@,
            r@ == lower_ascii(v@.subrange(0, i as int)),
        decreases v.len() - i,
    {
        r.push(lower_char_exec(v[i]));
        assert(r@ =~= lower_ascii(v@.subrange(0, i + 1)));
        i = i + 1;
    }
    assert(v@.subrange(0, v@.len() as int) =~= v@);
    r
}

fn is_control_char(c: char) -> (r: bool)
    ensures
        r == is_control(c),
{
    c <= '\u{1f}' || ('\u{7f}' <= c && c <= '\u{9f}')
}

fn lit_contains(v: &Vec<char>, lit: &str) -> (r: bool)
    ensures
        r == contains_seq(v@, lit@),
{
    let needle = chars_of(lit);
    contains_exec(v, &needle)
}

/// Whether a string may stand in a snapshot.
pub fn text_is_allowed(s: &str) -> (r: bool)
    ensures
        r == text_allowed(s@),
{
    if s.len() > 4096 {
        return false;
    }
    let v = chars_of(s);
    let mut i: usize = 0;
    while i < v.len()
        invariant
            i <= v.len(),
            v@ == s@,
            forall|j: int| 0 <= j < i ==> !is_control(#[trigger] v@[j]),
        decreases v.len() - i,
    {
        if is_control_char(v[i]) {
            return false;
        }
        i = i + 1;
    }
    assert(forall|j: int| 0 <= j < s@.len() ==> !is_control(#[trigger] s@[j]));
    let lower = lower_chars(s);
    let data = chars_of("data:");
    if occurs_at_exec(&lower, &data, 0) {
        assert(starts_with_seq(lower_ascii(s@), "data:"@));
        return false;
    }
    let a = lit_contains(&lower, "authorization:");
    let b = lit_contains(&lower, "bearer ");
    let c = lit_contains(&lower, "cookie:");
    let d = lit_contains(&lower, "base64,");
    assert(!starts_with_seq(lower_ascii(s@), "data:"@));
    !(a || b || c || d)
}

fn key_is_exempt(kind: &str, key: &str) -> (r: bool)
    ensures
        r == key_exempt(kind@, key@),
{
    (str_eq(kind, "consent") && str_eq(key, "requestContentConfirmed")) || (str_eq(
        kind,
        "provider_usage",
    ) && (str_eq(key, "input_tokens_by_modality") || str_eq(key, "output_tokens_by_modality")
        || str_eq(key, "total_thought_tokens") || str_eq(key, "total_tokens")))
}

/// Whether a key may stand in a snapshot of the given kind.
pub fn key_is_allowed(kind: &str, key: &str) -> (r: bool)
    ensures
        r == key_allowed(kind@, key@),
{
    if key_is_exempt(kind, key) {
        return true;
    }
    let lower = lower_chars(key);
    let words: Vec<&str> = vec![
        "authorization",
        "token",
        "cookie",
        "secret",
        "headers",
        "request",
        "response",
        "bytes",
        "base64",
    ];
    assert(words@.map_values(|w: &str| w@) =~= forbidden_key_words());
    let mut i: usize = 0;
    while i < words.len()
        invariant
            i <= words.len(),
            lower@ == lower_ascii(key@),
            !key_exempt(kind@, key@),
            words@.map_values(|w: &str| w@) == forbidden_key_words(),
            forall|w: int| 0 <= w < i ==> !contains_seq(lower@, #[trigger] forbidden_key_words()[w]),
        decreases words.len() - i,
    {
        let word = words[i];
        assert(forbidden_key_words()[i as int] == word@);
        if lit_contains(&lower, word) {
            assert(contains_seq(lower_ascii(key@), forbidden_key_words()[i as int]));
            return false;
        }
        i = i + 1;
    }
    true
}

/// Checks a value of a snapshot and everything inside it, counting values in
/// `nodes`: refused when a value sits deeper than eight levels, when more than
/// 1024 values were counted, or when a string or a key breaks the rules.
pub fn validate_value(kind: &str, value: &JsonValue, depth: usize, nodes: &mut usize) -> (r: Result<
    (),
    AppError,
>)
    requires
        *old(nodes) <= max_snapshot_nodes(),
        depth <= max_snapshot_depth() + 1,
    ensures
        r is Ok <==> (old(nodes) + node_count(jview(*value)) <= max_snapshot_nodes() && value_ok(
            kind@,
            jview(*value),
            depth as nat,
        )),
        r is Ok ==> *final(nodes) == old(nodes) + node_count(jview(*value)),
        r is Err ==> r->Err_0.code == ErrorCode::AiSnapshot,
        r is Ok ==> walk_value(kind@, jview(*value), depth as nat, *old(nodes) as nat) == Ok::<
            nat,
            Seq<char>,
        >(*final(nodes) as nat),
        r matches Err(e) ==> walk_value(kind@, jview(*value), depth as nat, *old(nodes) as nat)
            == Err::<nat, Seq<char>>(e.message@),
    decreases value,
{
    *nodes = *nodes + 1;
    if depth > 8 || *nodes > 1024 {
        return Err(snapshot_error("AI 실행 스냅샷 구조가 너무 복잡합니다."));
    }
    match value {
        JsonValue::Null | JsonValue::Bool(_) | JsonValue::Number(_) => Ok(()),
        JsonValue::Text(text) => {
            if !text_is_allowed(text.as_str()) {
                return Err(
                    snapshot_error(
                        "AI 실행 스냅샷에 비밀값 또는 바이너리 payload를 넣을 수 없습니다.",
                    ),
                );
            }
            Ok(())
        },
        JsonValue::Array(items) => {
            let ghost start = *old(nodes);
            let ghost all = items_jview(items@);
            proof {
                lemma_items_view_len(items@);
                assert(jview(*value) == JView::Array(all));
            }
            let mut i: usize = 0;
            while i < items.len()
                invariant
                    i <= items.len(),
                    *value == JsonValue::Array(*items),
                    jview(*value) == JView::Array(all),
                    start == *old(nodes),
                    depth <= max_snapshot_depth(),
                    all == items_jview(items@),
                    all.len() == items@.len(),
                    *nodes == start + 1 + items_count(all.subrange(0, i as int)),
                    *nodes <= max_snapshot_nodes(),
                    items_ok(kind@, all.subrange(0, i as int), depth as nat + 1),
                    walk_items(kind@, all.subrange(0, i as int), depth as nat + 1, (start + 1) as nat)
                        == Ok::<nat, Seq<char>>(*nodes as nat),
                decreases items.len() - i,
            {
                proof {
                    lemma_items_view_step(items@, i as int);
                    assert(items_jview(items@.subrange(0, i as int)) =~= all.subrange(0, i as int))
                        by {
                        lemma_items_subrange_view(items@, i as int);
                    }
                    lemma_items_subrange_view(items@, i as int + 1);
                    assert(all.subrange(0, i + 1).drop_last() =~= all.subrange(0, i as int));
                    lemma_items_view_index(items@, i as int);
                    assert(all.subrange(0, i + 1).last() == all[i as int]);
                    assert(decreases_to!(*value => *items));
                    assert(decreases_to!(*items => items@));
                    assert(decreases_to!(items@ => items@[i as int]));
                }
                let child = validate_value(kind, &items[i], depth + 1, nodes);
                if child.is_err() {
                    proof {
                        lemma_walk_items_prefix_err(
                            kind@,
                            all,
                            depth as nat + 1,
                            (start + 1) as nat,
                            i + 1,
                        );
                        lemma_items_count_mono(all, i + 1);
                        if items_ok(kind@, all, depth as nat + 1) {
                            lemma_items_ok_prefix(kind@, all, depth as nat + 1, i as int);
                        }
                    }
                    return child;
                }
                i = i + 1;
            }
            assert(all.subrange(0, i as int) =~= all);
            Ok(())
        },
        JsonValue::Object(entries) => {
            let ghost start = *old(nodes);
            let ghost all = entries_jview(entries@);
            proof {
                lemma_entries_view_len(entries@);
                assert(jview(*value) == JView::Object(all));
            }
            let mut i: usize = 0;
            while i < entries.len()
                invariant
                    i <= entries.len(),
                    *value == JsonValue::Object(*entries),
                    jview(*value) == JView::Object(all),
                    start == *old(nodes),
                    depth <= max_snapshot_depth(),
                    all == entries_jview(entries@),
                    all.len() == entries@.len(),
                    *nodes == start + 1 + entries_count(all.subrange(0, i as int)),
                    *nodes <= max_snapshot_nodes(),
                    entries_ok(kind@, all.subrange(0, i as int), depth as nat + 1),
                    walk_entries(kind@, all.subrange(0, i as int), depth as nat + 1, (start + 1) as nat)
                        == Ok::<nat, Seq<char>>(*nodes as nat),
                decreases entries.len() - i,
            {
                proof {
                    lemma_entries_view_index(entries@, i as int);
                    assert(all.subrange(0, i + 1).drop_last() =~= all.subrange(0, i as int));
                    assert(all.subrange(0, i + 1).last() == all[i as int]);
                    assert(decreases_to!(*value => *entries));
                    assert(decreases_to!(*entries => entries@));
                    assert(decreases_to!(entries@ => entries@[i as int]));
                    assert(decreases_to!(entries@[i as int] => entries@[i as int].1));
                }
                let key_ok = key_is_allowed(kind, entries[i].0.as_str());
                if !key_ok {
                    proof {
                        lemma_walk_entries_prefix_err(
                            kind@,
                            all,
                            depth as nat + 1,
                            (start + 1) as nat,
                            i + 1,
                        );
                        if entries_ok(kind@, all, depth as nat + 1) {
                            lemma_entries_ok_prefix(kind@, all, depth as nat + 1, i as int);
                        }
                    }
                    return Err(
                        snapshot_error(
                            "AI 실행 스냅샷에 비밀값 또는 전체 요청/응답 필드를 넣을 수 없습니다.",
                        ),
                    );
                }
                let child = validate_value(kind, &entries[i].1, depth + 1, nodes);
                if child.is_err() {
                    proof {
                        lemma_walk_entries_prefix_err(
                            kind@,
                            all,
                            depth as nat + 1,
                            (start + 1) as nat,
                            i + 1,
                        );
                        lemma_entries_count_mono(all, i + 1);
                        if entries_ok(kind@, all, depth as nat + 1) {
                            lemma_entries_ok_prefix(kind@, all, depth as nat + 1, i as int);
                        }
                    }
                    return child;
                }
                i = i + 1;
            }
            assert(all.subrange(0, i as int) =~= all);
            Ok(())
        },
    }
}

proof fn lemma_items_subrange_view(s: Seq<JsonValue>, i: int)
    requires
        0 <= i <= s.len(),
    ensures
        items_jview(s.subrange(0, i)) == items_jview(s).subrange(0, i),
    decreases s.len(),
{
    lemma_items_view_len(s);
    lemma_items_view_len(s.subrange(0, i));
    if i < s.len() {
        assert(s.subrange(0, i) =~= s.drop_last().subrange(0, i));
        lemma_items_subrange_view(s.drop_last(), i);
        assert(items_jview(s).subrange(0, i) =~= items_jview(s.drop_last()).subrange(0, i));
    } else {
        assert(s.subrange(0, i) =~= s);
        assert(items_jview(s).subrange(0, i) =~= items_jview(s));
    }
}

/// Checks the top level of a snapshot against its kind.
pub fn validate_root(kind: &str, value: &JsonValue) -> (r: Result<(), AppError>)
    ensures
        r is Ok <==> root_ok(kind@, jview(*value)),
        r is Err ==> r->Err_0.code == ErrorCode::AiSnapshot,
        r is Err ==> Some(r->Err_0.message@) == root_refusal(kind@, jview(*value)),
{
    if str_eq(kind, "policy_refs") {
        return match value {
            JsonValue::Array(_) => Ok(()),
            _ => Err(snapshot_error("정책 참조 스냅샷은 배열이어야 합니다.")),
        };
    }
    let entries = match value {
        JsonValue::Object(entries) => entries,
        _ => {
            return Err(snapshot_error("AI 실행 스냅샷은 객체여야 합니다."));
        },
    };
    let allowed: Vec<&str> = if str_eq(kind, "capability") {
        vec!["schema", "provider", "serviceSurface", "source", "supports", "limitations"]
    } else if str_eq(kind, "data_tier") {
        vec!["schema", "source", "tier"]
    } else if str_eq(kind, "retention") {
        vec!["schema", "source", "retention"]
    } else if str_eq(kind, "consent") {
        vec![
            "schema",
            "source",
            "confirmed",
            "humanActionConfirmed",
            "rightsConfirmed",
            "costConfirmed",
            "requestContentConfirmed",
            "contractOverrideConfirmed",
            "adultConfirmed",
            "under18AudienceExcludedConfirmed",
            "professionalBusinessConfirmed",
            "supportedRegionConfirmed",
            "paidServiceConfirmed",
        ]
    } else if str_eq(kind, "prompt_options") {
        vec![
            "schema",
            "importedResultOnly",
            "operation",
            "provider",
            "model",
            "action",
            "prompt",
            "negativePrompt",
            "seed",
            "width",
            "height",
            "steps",
            "scale",
            "strength",
            "noise",
            "outputCount",
            "gridLayout",
        ]
    } else if str_eq(kind, "provider_usage") {
        vec![
            "schema",
            "provider",
            "candidateIndex",
            "seed",
            "input_tokens_by_modality",
            "output_tokens_by_modality",
            "total_thought_tokens",
            "total_tokens",
        ]
    } else {
        return Err(snapshot_error("알 수 없는 AI 스냅샷 종류입니다."));
    };
    let ghost fields = allowed_fields(kind@)->0;
    assert(allowed@.map_values(|w: &str| w@) =~= fields);
    let ghost all = entries_jview(entries@);
    proof {
        lemma_entries_view_len(entries@);
        assert(jview(*value) == JView::Object(all));
    }
    let mut i: usize = 0;
    while i < entries.len()
        invariant
            i <= entries.len(),
            all == entries_jview(entries@),
            jview(*value) == JView::Object(all),
            fields == allowed_fields(kind@)->0,
            allowed_fields(kind@) is Some,
            !(kind@ == "policy_refs"@),
            all.len() == entries@.len(),
            allowed@.map_values(|w: &str| w@) == fields,
            forall|j: int| 0 <= j < i ==> fields.contains(#[trigger] all[j].0),
        decreases entries.len() - i,
    {
        proof {
            lemma_entries_view_index(entries@, i as int);
        }
        let key = entries[i].0.as_str();
        let mut found = false;
        let mut w: usize = 0;
        while w < allowed.len()
            invariant
                w <= allowed.len(),
                allowed@.map_values(|x: &str| x@) == fields,
                found ==> fields.contains(key@),
                !found ==> forall|q: int| 0 <= q < w ==> fields[q] != key@,
            decreases allowed.len() - w,
        {
            assert(fields[w as int] == allowed@[w as int]@);
            if str_eq(allowed[w], key) {
                found = true;
            }
            w = w + 1;
        }
        if !found {
            proof {
                assert(fields.len() == allowed@.len());
                assert(!fields.contains(key@));
                assert(all[i as int].0 == key@);
                assert(!fields.contains(all[i as int].0));
                assert(allowed_fields(kind@) == Some(fields));
                assert(!(forall|j: int| 0 <= j < all.len() ==> fields.contains(#[trigger] all[j].0)));
                assert(kind@ != "policy_refs"@);
                if root_ok(kind@, jview(*value)) {
                    lemma_root_field(kind@, all, i as int);
                }
                assert(!root_ok(kind@, jview(*value)));
            }
            return Err(snapshot_error("허용되지 않은 AI 스냅샷 필드가 포함되어 있습니다."));
        }
        i = i + 1;
    }
    Ok(())
}

/// Validates a snapshot document for storage: refused when the raw text is
/// larger than 64KiB, when it did not parse (`parsed` is `None`), when its
/// top level does not fit the kind, or when a value breaks the rules. On
/// success gives the document in canonical form.
pub fn canonical_document(kind: &str, raw: &str, parsed: Option<JsonValue>) -> (r: Result<
    JsonValue,
    AppError,
>)
    ensures
        r is Ok <==> (byte_len(raw@) <= max_snapshot_bytes() && parsed is Some && root_ok(
            kind@,
            jview(parsed->0),
        ) && node_count(jview(parsed->0)) <= max_snapshot_nodes() && value_ok(
            kind@,
            jview(parsed->0),
            0,
        )),
        r is Ok ==> jview(r->Ok_0) == canonical(jview(parsed->0)),
        r is Err ==> r->Err_0.code == ErrorCode::AiSnapshot,
        byte_len(raw@) > max_snapshot_bytes() ==> (r matches Err(e) && e.message@
            == "AI 실행 스냅샷은 64KiB를 넘을 수 없습니다."@),
        byte_len(raw@) <= max_snapshot_bytes() && parsed is None ==> (r matches Err(e)
            && e.message@ == "AI 실행 스냅샷 JSON이 올바르지 않습니다."@),
        byte_len(raw@) <= max_snapshot_bytes() && parsed is Some && !root_ok(
            kind@,
            jview(parsed->0),
        ) ==> (r matches Err(e) && Some(e.message@) == root_refusal(kind@, jview(parsed->0))),
        byte_len(raw@) <= max_snapshot_bytes() && parsed is Some && root_ok(
            kind@,
            jview(parsed->0),
        ) ==> (r matches Err(e) ==> walk_value(kind@, jview(parsed->0), 0, 0) == Err::<
            nat,
            Seq<char>,
        >(e.message@)),
{
    if raw.len() > 65536 {
        return Err(snapshot_error("AI 실행 스냅샷은 64KiB를 넘을 수 없습니다."));
    }
    let value = match parsed {
        Some(v) => v,
        None => {
            return Err(snapshot_error("AI 실행 스냅샷 JSON이 올바르지 않습니다."));
        },
    };
    validate_root(kind, &value)?;
    let mut nodes: usize = 0;
    validate_value(kind, &value, 0, &mut nodes)?;
    Ok(sort_json(&value))
}

/// Checks the size of the canonical text of a snapshot.
pub fn check_canonical_size(canonical_text: String) -> (r: Result<String, AppError>)
    ensures
        byte_len(canonical_text@) <= max_snapshot_bytes() ==> (r matches Ok(s) && s
            == canonical_text),
        byte_len(canonical_text@) > max_snapshot_bytes() ==> (r matches Err(e) && e.code
            == ErrorCode::AiSnapshot && e.message@
            == "정규화된 AI 실행 스냅샷은 64KiB를 넘을 수 없습니다."@),
{
    if canonical_text.as_str().len() > 65536 {
        return Err(snapshot_error("정규화된 AI 실행 스냅샷은 64KiB를 넘을 수 없습니다."));
    }
    Ok(canonical_text)
}

// ---------------------------------------------------------------------------
// Snapshot text

/// `serde_json::Value`, carried only as an opaque value between `serde_json`
/// and the library's own `JsonValue`.
#[verifier::external_type_specification]
#[verifier::external_body]
pub struct ExSerdeJsonValue(serde_json::Value);

/// The document `serde_json::from_str::<serde_json::Value>` reads from a
/// text, taken variant for variant as a `JView` (numbers by the text
/// `serde_json` prints for them), or `None` where the text is not JSON.
pub uninterp spec fn json_document(text: Seq<char>) -> Option<JView>;

/// The text `serde_json::to_string` prints for a document, each number
/// read back by `serde_json` from its text, or `None` where a number's text
/// is not one `serde_json` reads.
pub uninterp spec fn json_print(v: JView) -> Option<Seq<char>>;

/// Whether a text is an integer as `serde_json` prints one: an optional `-`
/// and at least one digit.
pub open spec fn integer_text(t: Seq<char>) -> bool {
    let digits = if t.len() > 0 && t[0] == '-' {
        t.drop_first()
    } else {
        t
    };
    &&& digits.len() > 0
    &&& forall|i: int| 0 <= i < digits.len() ==> '0' <= #[trigger] digits[i] <= '9'
}

/// Whether every number of a document is an integer.
pub open spec fn integer_numbers(v: JView) -> bool
    decreases v,
{
    match v {
        JView::Number(t) => integer_text(t),
        JView::Array(items) => integer_items(items),
        JView::Object(entries) => integer_entries(entries),
        _ => true,
    }
}

pub open spec fn integer_items(s: Seq<JView>) -> bool
    decreases s,
{
    s.len() == 0 || (integer_items(s.drop_last()) && integer_numbers(s.last()))
}

pub open spec fn integer_entries(s: Seq<(Seq<char>, JView)>) -> bool
    decreases s,
{
    s.len() == 0 || (integer_entries(s.drop_last()) && integer_numbers(s.last().1))
}

/// A `serde_json::Value` as the library's `JsonValue`, variant for variant.
#[verifier::external_body]
fn json_value_of(v: serde_json::Value) -> JsonValue {
    match v {
        serde_json::Value::Null => JsonValue::Null,
        serde_json::Value::Bool(b) => JsonValue::Bool(b),
        serde_json::Value::Number(n) => JsonValue::Number(n.to_string()),
        serde_json::Value::String(t) => JsonValue::Text(t),
        serde_json::Value::Array(a) => JsonValue::Array(a.into_iter().map(json_value_of).collect()),
        serde_json::Value::Object(m) => JsonValue::Object(
            m.into_iter().map(|(k, x)| (k, json_value_of(x))).collect(),
        ),
    }
}

/// The library's `JsonValue` as a `serde_json::Value`, variant for variant;
/// `None` where a number's text is not one `serde_json` reads.
#[verifier::external_body]
fn serde_value_of(v: &JsonValue) -> Option<serde_json::Value> {
    Some(match v {
        JsonValue::Null => serde_json::Value::Null,
        JsonValue::Bool(b) => serde_json::Value::Bool(*b),
        JsonValue::Number(n) => serde_json::Value::Number(serde_json::from_str(n).ok()?),
        JsonValue::Text(t) => serde_json::Value::String(t.clone()),
        JsonValue::Array(a) => serde_json::Value::Array(a.iter().map(serde_value_of).collect::<Option<Vec<_>>>()?),
        JsonValue::Object(m) => serde_json::Value::Object(
            m.iter().map(|(k, x)| Some((k.clone(), serde_value_of(x)?))).collect::<Option<_>>()?,
        ),
    })
}

/// `serde_json::from_str::<serde_json::Value>`, its error dropped, the
/// document taken as the library's `JsonValue`. Claimed besides, of a
/// document it reads: its canonical form prints (each number is held as the
/// text `serde_json` printed for it, which it reads back); and when all its
/// numbers are integers, the printed canonical form reads back as that
/// canonical form (strings and integers round-trip exactly, and objects are
/// read into a map ordered by key, the order of the canonical form). Floats
/// are read without the `float_roundtrip` feature, so for them the second
/// claim is not made.
#[verifier::external_body]
fn parse_json(text: &str) -> (r: Option<JsonValue>)
    ensures
        match r {
            Some(v) => json_document(text@) == Some(jview(v)),
            None => json_document(text@) is None,
        },
        r is Some ==> json_print(canonical(jview(r->0))) is Some,
        r is Some && integer_numbers(jview(r->0)) ==> json_document(
            json_print(canonical(jview(r->0)))->0,
        ) == Some(canonical(jview(r->0))),
{
    match serde_json::from_str::<serde_json::Value>(text) {
        Ok(v) => Some(json_value_of(v)),
        Err(_) => None,
    }
}

/// `serde_json::to_string` of a document, its numbers read by `serde_json`
/// from their texts: `json_print` of it. (Printing a `serde_json::Value`
/// does not fail; only a number text `serde_json` does not read gives
/// `None`.)
#[verifier::external_body]
fn print_json(v: &JsonValue) -> (r: Option<String>)
    ensures
        r is Some <==> json_print(jview(*v)) is Some,
        r is Some ==> json_print(jview(*v)) == Some(r->0@),
{
    serde_value_of(v).and_then(|value| serde_json::to_string(&value).ok())
}

/// Whether a parsed document passes every check a snapshot of `kind` is
/// stored under.
pub open spec fn document_accepted(kind: Seq<char>, x: JView) -> bool {
    &&& root_ok(kind, x)
    &&& node_count(x) <= max_snapshot_nodes()
    &&& value_ok(kind, x, 0)
}

/// The canonical text of a snapshot: its raw text within 64KiB parses to an
/// accepted document, whose canonical form prints within 64KiB.
pub open spec fn canonical_snapshot(kind: Seq<char>, raw: Seq<char>) -> Option<Seq<char>> {
    if byte_len(raw) <= max_snapshot_bytes() && json_document(raw) is Some && document_accepted(
        kind,
        json_document(raw)->0,
    ) && json_print(canonical(json_document(raw)->0)) is Some && byte_len(
        json_print(canonical(json_document(raw)->0))->0,
    ) <= max_snapshot_bytes() {
        json_print(canonical(json_document(raw)->0))
    } else {
        None
    }
}

/// A run snapshot of the given kind as canonical JSON text, or why it may
/// not be stored: too large, not JSON, a top level that does not fit the
/// kind, a value that breaks the rules, or a canonical text over 64KiB.
/// A document that passes the checks always prints, and a canonical text
/// of integer-only numbers is a fixed point: stored again it comes out
/// unchanged.
pub fn canonicalize(kind: &str, raw: &str) -> (r: Result<String, AppError>)
    ensures
        r is Ok <==> canonical_snapshot(kind@, raw@) is Some,
        r is Ok ==> Some(r->Ok_0@) == canonical_snapshot(kind@, raw@),
        r is Err ==> r->Err_0.code == ErrorCode::AiSnapshot,
        byte_len(raw@) <= max_snapshot_bytes() && json_document(raw@) is Some && document_accepted(
            kind@,
            json_document(raw@)->0,
        ) ==> json_print(canonical(json_document(raw@)->0)) is Some,
        byte_len(raw@) > max_snapshot_bytes() ==> (r matches Err(e) && e.message@
            == "AI 실행 스냅샷은 64KiB를 넘을 수 없습니다."@),
        byte_len(raw@) <= max_snapshot_bytes() && json_document(raw@) is None ==> (r matches Err(e)
            && e.message@ == "AI 실행 스냅샷 JSON이 올바르지 않습니다."@),
        byte_len(raw@) <= max_snapshot_bytes() && json_document(raw@) is Some && !root_ok(
            kind@,
            json_document(raw@)->0,
        ) ==> (r matches Err(e) && Some(e.message@) == root_refusal(
            kind@,
            json_document(raw@)->0,
        )),
        byte_len(raw@) <= max_snapshot_bytes() && json_document(raw@) is Some && root_ok(
            kind@,
            json_document(raw@)->0,
        ) && !(node_count(json_document(raw@)->0) <= max_snapshot_nodes() && value_ok(
            kind@,
            json_document(raw@)->0,
            0,
        )) ==> (r matches Err(e) && walk_value(kind@, json_document(raw@)->0, 0, 0) == Err::<
            nat,
            Seq<char>,
        >(e.message@)),
        byte_len(raw@) <= max_snapshot_bytes() && json_document(raw@) is Some && document_accepted(
            kind@,
            json_document(raw@)->0,
        ) && byte_len(json_print(canonical(json_document(raw@)->0))->0) > max_snapshot_bytes()
            ==> (r matches Err(e) && e.message@
            == "정규화된 AI 실행 스냅샷은 64KiB를 넘을 수 없습니다."@),
        r is Ok && integer_numbers(json_document(raw@)->0) ==> canonical_snapshot(
            kind@,
            r->Ok_0@,
        ) == Some(r->Ok_0@),
{
    let parsed = if raw.len() > 65536 {
        None
    } else {
        parse_json(raw)
    };
    let ghost doc = parsed;
    let value = canonical_document(kind, raw, parsed)?;
    proof {
        let x = jview(doc->0);
        lemma_canonical_accepted(kind@, x);
        lemma_canonical_idempotent(x);
    }
    let text = match print_json(&value) {
        Some(t) => t,
        None => {
            return Err(snapshot_error("AI 실행 스냅샷을 정규화할 수 없습니다."));
        },
    };
    check_canonical_size(text)
}

} // verus!
