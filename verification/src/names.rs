//! Names, labels, notes and alt texts as the user types them and as they are
//! stored: trimming, defaults, numbered copies and fresh alt texts.

use vstd::prelude::*;

use crate::error::{AppError, ErrorCode};
use crate::ids::{holds_id, texts};
use crate::paths::{path_components, portable_path_text};
use crate::text::{
    chars_of, decimal, is_white_space, owned, push_decimal, push_str, string_from_range, trim,
    trim_bounds, trimmed,
};

verus! {

/// A collection name as stored: the trimmed text, or nothing when it is blank.
pub fn normalized_name(name: Option<String>) -> (r: Option<String>)
    ensures
        match name {
            None => r is None,
            Some(n) => if trim(n@).len() == 0 {
                r is None
            } else {
                (r matches Some(t) && t@ == trim(n@))
            },
        },
{
    match name {
        None => None,
        Some(n) => {
            let t = trimmed(n.as_str());
            if t.as_str().unicode_len() == 0 {
                None
            } else {
                Some(t)
            }
        },
    }
}

/// The name a renamed collection gets: the trimmed text, or the untitled name
/// when it is blank.
pub fn collection_name_or_untitled(name: String) -> (r: String)
    ensures
        trim(name@).len() == 0 ==> r@ == "이름 없는 모음"@,
        trim(name@).len() > 0 ==> r@ == trim(name@),
{
    match normalized_name(Some(name)) {
        Some(n) => n,
        None => owned("이름 없는 모음"),
    }
}

/// The default name of the `next_number`-th collection.
pub fn default_collection_name(next_number: i64) -> (r: String)
    ensures
        r@ == "디시콘 모음 "@ + crate::text::signed_decimal(next_number as int),
{
    let mut s = owned("디시콘 모음 ");
    crate::text::push_signed_decimal(&mut s, next_number);
    s
}

/// An alt text as stored: the trimmed text.
pub fn normalized_alt_text(alt_text: String) -> (r: String)
    ensures
        r@ == trim(alt_text@),
{
    trimmed(alt_text.as_str())
}

/// An icon note as stored: the trimmed text; an empty result clears the note.
pub fn normalized_note(note: String) -> (r: String)
    ensures
        r@ == trim(note@),
{
    trimmed(note.as_str())
}

/// An icon's display name as stored: the trimmed text, or the unnamed-icon
/// name when it is blank.
pub fn normalized_display_name(display_name: String) -> (r: String)
    ensures
        trim(display_name@).len() == 0 ==> r@ == "이름 없는 아이콘"@,
        trim(display_name@).len() > 0 ==> r@ == trim(display_name@),
{
    let t = trimmed(display_name.as_str());
    if t.as_str().unicode_len() == 0 {
        owned("이름 없는 아이콘")
    } else {
        t
    }
}

/// The most characters a placeholder label keeps.
pub open spec fn placeholder_label_limit() -> nat {
    40
}

/// A placeholder icon's label as stored: the trimmed text cut to its first
/// forty characters, or the blank-icon label when it is blank.
pub fn normalized_placeholder_label(label: String) -> (r: String)
    ensures
        trim(label@).len() == 0 ==> r@ == "빈 디시콘"@,
        0 < trim(label@).len() <= placeholder_label_limit() ==> r@ == trim(label@),
        trim(label@).len() > placeholder_label_limit() ==> r@ == trim(label@).subrange(
            0,
            placeholder_label_limit() as int,
        ),
{
    let v = chars_of(label.as_str());
    let (a, b) = trim_bounds(&v);
    if a == b {
        return owned("빈 디시콘");
    }
    let end = if b - a > 40 {
        a + 40
    } else {
        b
    };
    let r = string_from_range(&v, a, end);
    proof {
        let t = v@.subrange(a as int, b as int);
        if b - a > 40 {
            assert(v@.subrange(a as int, end as int) =~= t.subrange(0, 40));
        }
    }
    r
}

/// Whether a readiness value is one the library knows.
pub open spec fn is_known_readiness(r: Seq<char>) -> bool {
    r == "complete"@ || r == "working"@
}

/// The readiness values an icon may have are `complete` and `working`, and
/// nothing else.
pub proof fn lemma_known_readiness(r: Seq<char>)
    ensures
        is_known_readiness(r) <==> (r == "complete"@ || r == "working"@),
        is_known_readiness("complete"@),
        is_known_readiness("working"@),
{
}

/// Accepts the readiness values `complete` and `working` and refuses others.
pub fn normalized_readiness(readiness: String) -> (r: Result<String, AppError>)
    ensures
        is_known_readiness(readiness@) ==> (r matches Ok(s) && s@ == readiness@),
        !is_known_readiness(readiness@) ==> (r matches Err(e) && e.code == ErrorCode::Validation
            && e.message@ == "지원하지 않는 아이콘 상태입니다."@),
{
    if crate::text::str_eq(readiness.as_str(), "complete") || crate::text::str_eq(
        readiness.as_str(),
        "working",
    ) {
        Ok(readiness)
    } else {
        Err(AppError::validation("지원하지 않는 아이콘 상태입니다."))
    }
}

/// The display name made from a file's stem: the trimmed stem, or the
/// new-icon name when there is no stem or it is blank.
pub fn display_name_from_stem(stem: Option<&str>) -> (r: String)
    ensures
        match stem {
            Some(s) if trim(s@).len() > 0 => r@ == trim(s@),
            _ => r@ == "새 아이콘"@,
        },
{
    match stem {
        Some(s) => {
            let t = trimmed(s);
            if t.as_str().unicode_len() == 0 {
                owned("새 아이콘")
            } else {
                t
            }
        },
        None => owned("새 아이콘"),
    }
}

/// A file name that every platform reads as one plain path component.
pub open spec fn is_plain_name(s: Seq<char>) -> bool {
    &&& s.len() > 0
    &&& s != seq!['.']
    &&& s != seq!['.', '.']
    &&& forall|i: int| 0 <= i < s.len() ==> #[trigger] s[i] != '/' && s[i] != '\\' && s[i] != ':'
}

/// The stem of a plain file name, as `Path::file_stem` documents it: the part
/// before the last `.`, or the whole name when it has no `.` or its only `.`
/// leads it.
pub open spec fn plain_file_stem(s: Seq<char>) -> Seq<char> {
    if exists|k: int| 0 < k < s.len() && s[k] == '.' {
        let k = choose|k: int|
            0 < k < s.len() && s[k] == '.' && forall|j: int| k < j < s.len() ==> s[j] != '.';
        s.subrange(0, k)
    } else {
        s
    }
}

/// The file name `Path::file_name` documents for a path text every platform
/// parses alike: its last component when that is a plain one.
pub open spec fn path_file_name(t: Seq<char>) -> Option<Seq<char>> {
    let parts = path_components(t);
    if parts.len() > 0 && parts.last() is Normal {
        Some(parts.last()->Normal_0)
    } else {
        None
    }
}

/// The display name of an icon imported from a file: the trimmed stem of its
/// file name, or the new-icon name when it has none or it is blank.
pub open spec fn file_display_name(t: Seq<char>) -> Seq<char> {
    if path_file_name(t) is Some && trim(plain_file_stem(path_file_name(t)->0)).len() > 0 {
        trim(plain_file_stem(path_file_name(t)->0))
    } else {
        "새 아이콘"@
    }
}

/// `Path::file_stem` of a file name, as text. Path parsing differs between
/// platforms, so the stem is stated for texts every platform parses alike:
/// there is one exactly when the path ends in a plain component, and it is
/// that name's stem as the documentation of `Path::file_stem` gives it.
#[verifier::external_body]
fn path_file_stem(filename: &str) -> (stem: Option<String>)
    ensures
        portable_path_text(filename@) ==> (stem is Some <==> path_file_name(filename@) is Some),
        portable_path_text(filename@) && stem is Some ==> stem->0@ == plain_file_stem(
            path_file_name(filename@)->0,
        ),
{
    std::path::Path::new(filename).file_stem().map(|stem| stem.to_string_lossy().to_string())
}

/// The display name of an icon imported from a file: its trimmed stem, or the
/// new-icon name when that is blank.
pub fn display_name_from_filename(filename: &str) -> (r: String)
    ensures
        portable_path_text(filename@) ==> r@ == file_display_name(filename@),
{
    let stem = path_file_stem(filename);
    match stem {
        Some(s) => display_name_from_stem(Some(s.as_str())),
        None => display_name_from_stem(None),
    }
}

/// The name of a collection's first copy.
pub open spec fn copy_base(original: Seq<char>) -> Seq<char> {
    original + " 복사본"@
}

/// The name of a collection's `n`-th copy.
pub open spec fn numbered_copy(base: Seq<char>, n: nat) -> Seq<char> {
    base + seq![' '] + decimal(n)
}

/// The first copy number that tried names exceed.
pub open spec fn copy_number_limit() -> nat {
    10000
}

/// The name of the next copy of a collection: `"<name> 복사본"` when no active
/// collection has it, otherwise `"<name> 복사본 <n>"` with the least `n` from 2
/// whose name is free; refused when every number below the limit is taken.
pub fn next_duplicate_collection_name(original_name: &str, existing_names: &Vec<String>) -> (r:
    Result<String, AppError>)
    ensures
        !texts(existing_names@).contains(copy_base(original_name@)) ==> (r matches Ok(s) && s@
            == copy_base(original_name@)),
        texts(existing_names@).contains(copy_base(original_name@)) ==> (r is Ok <==> exists|n: nat|
            2 <= n < copy_number_limit() && !texts(existing_names@).contains(
                #[trigger] numbered_copy(copy_base(original_name@), n),
            )),
        texts(existing_names@).contains(copy_base(original_name@)) && r is Ok ==> exists|n: nat|
            2 <= n < copy_number_limit() && r->Ok_0@ == #[trigger] numbered_copy(
                copy_base(original_name@),
                n,
            ) && !texts(existing_names@).contains(r->Ok_0@) && forall|m: nat|
                2 <= m < n ==> texts(existing_names@).contains(
                    #[trigger] numbered_copy(copy_base(original_name@), m),
                ),
        r is Err ==> r->Err_0.code == ErrorCode::Validation && r->Err_0.message@
            == "복제할 모음 이름을 만들 수 없습니다."@,
{
    let mut base = owned(original_name);
    push_str(&mut base, " 복사본");
    if !holds_id(existing_names, base.as_str()) {
        return Ok(base);
    }
    let ghost b = base@;
    let mut n: u64 = 2;
    while n < 10000
        invariant
            2 <= n <= 10000,
            b == copy_base(original_name@),
            base@ == b,
            texts(existing_names@).contains(b),
            forall|m: nat| 2 <= m < n ==> texts(existing_names@).contains(
                #[trigger] numbered_copy(b, m),
            ),
        decreases 10000 - n,
    {
        let mut candidate = owned(base.as_str());
        push_str(&mut candidate, " ");
        push_decimal(&mut candidate, n);
        proof {
            reveal_strlit(" ");
            assert(candidate@ =~= numbered_copy(b, n as nat));
        }
        if !holds_id(existing_names, candidate.as_str()) {
            return Ok(candidate);
        }
        n = n + 1;
    }
    Err(AppError::validation("복제할 모음 이름을 만들 수 없습니다."))
}

/// The alt texts offered first for a piece with the given role.
pub open spec fn preferred_alts(role: Seq<char>) -> Seq<Seq<char>> {
    if role == "left"@ {
        seq!["좌"@, "왼"@, "가"@]
    } else if role == "right"@ {
        seq!["우"@, "오"@, "나"@]
    } else if role == "top"@ {
        seq!["상"@, "위"@, "가"@]
    } else if role == "bottom"@ {
        seq!["하"@, "아"@, "나"@]
    } else {
        seq!["가"@, "나"@, "다"@]
    }
}

/// The alt texts offered after the preferred ones.
pub open spec fn fallback_alts() -> Seq<Seq<char>> {
    seq![
        "다"@,
        "라"@,
        "마"@,
        "바"@,
        "사"@,
        "자"@,
        "차"@,
        "카"@,
        "타"@,
        "파"@,
        "A"@,
        "B"@,
        "C"@,
    ]
}

/// The first of `candidates` not in `used`.
pub open spec fn first_unused(candidates: Seq<Seq<char>>, used: Seq<Seq<char>>) -> Option<
    Seq<char>,
>
    decreases candidates.len(),
{
    if candidates.len() == 0 {
        None
    } else if !used.contains(candidates[0]) {
        Some(candidates[0])
    } else {
        first_unused(candidates.drop_first(), used)
    }
}

/// The alt text a new piece with the given role receives, given the alt texts in use.
pub open spec fn fresh_alt(role: Seq<char>, used: Seq<Seq<char>>) -> Seq<char> {
    match first_unused(preferred_alts(role) + fallback_alts(), used) {
        Some(a) => a,
        None => "가"@,
    }
}

proof fn lemma_first_unused_skip(c: Seq<Seq<char>>, used: Seq<Seq<char>>, i: int)
    requires
        0 <= i <= c.len(),
        forall|j: int| 0 <= j < i ==> used.contains(#[trigger] c[j]),
    ensures
        first_unused(c, used) == first_unused(c.subrange(i, c.len() as int), used),
    decreases i,
{
    if i == 0 {
        assert(c.subrange(0, c.len() as int) =~= c);
    } else {
        let d = c.drop_first();
        assert forall|j: int| 0 <= j < i - 1 implies used.contains(#[trigger] d[j]) by {
            assert(d[j] == c[j + 1]);
        }
        lemma_first_unused_skip(d, used, i - 1);
        assert(d.subrange(i - 1, d.len() as int) =~= c.subrange(i, c.len() as int));
    }
}

proof fn lemma_first_unused_is_unused(c: Seq<Seq<char>>, used: Seq<Seq<char>>)
    ensures
        first_unused(c, used) matches Some(a) ==> !used.contains(a),
        first_unused(c, used) is None ==> forall|j: int| 0 <= j < c.len() ==> used.contains(
            #[trigger] c[j],
        ),
    decreases c.len(),
{
    if c.len() > 0 {
        lemma_first_unused_is_unused(c.drop_first(), used);
        if first_unused(c, used) is None {
            assert forall|j: int| 0 <= j < c.len() implies used.contains(#[trigger] c[j]) by {
                if j > 0 {
                    assert(c[j] == c.drop_first()[j - 1]);
                }
            }
        }
    }
}

/// The candidates for a role, as literals.
fn alt_candidates(role: &str) -> (v: Vec<&'static str>)
    ensures
        v@.map_values(|s: &str| s@) == preferred_alts(role@) + fallback_alts(),
{
    let mut v: Vec<&'static str> = if crate::text::str_eq(role, "left") {
        vec!["좌", "왼", "가"]
    } else if crate::text::str_eq(role, "right") {
        vec!["우", "오", "나"]
    } else if crate::text::str_eq(role, "top") {
        vec!["상", "위", "가"]
    } else if crate::text::str_eq(role, "bottom") {
        vec!["하", "아", "나"]
    } else {
        vec!["가", "나", "다"]
    };
    let fallback: Vec<&'static str> = vec![
        "다", "라", "마", "바", "사", "자", "차", "카", "타", "파", "A", "B", "C",
    ];
    let ghost pre = v@;
    let mut i: usize = 0;
    while i < fallback.len()
        invariant
            i <= fallback.len(),
            v@ == pre + fallback@.subrange(0, i as int),
        decreases fallback.len() - i,
    {
        v.push(fallback[i]);
        assert(v@ =~= pre + fallback@.subrange(0, i + 1));
        i = i + 1;
    }
    assert(fallback@.subrange(0, fallback@.len() as int) =~= fallback@);
    assert(v@.map_values(|s: &str| s@) =~= preferred_alts(role@) + fallback_alts());
    v
}

/// Picks the alt text for a new piece with the given role: the first of the
/// role's preferred texts and then the fallback texts that is not in use, which
/// is then recorded as in use; `가` when all of them are taken.
pub fn next_unique_alt(used_alt_texts: &mut Vec<String>, role: &str) -> (r: String)
    ensures
        r@ == fresh_alt(role@, texts(old(used_alt_texts)@)),
        first_unused(preferred_alts(role@) + fallback_alts(), texts(old(used_alt_texts)@)) is Some
            ==> texts(final(used_alt_texts)@) == texts(old(used_alt_texts)@).push(r@),
        first_unused(preferred_alts(role@) + fallback_alts(), texts(old(used_alt_texts)@)) is None
            ==> texts(final(used_alt_texts)@) == texts(old(used_alt_texts)@),
{
    let candidates = alt_candidates(role);
    let ghost c = candidates@.map_values(|s: &str| s@);
    let ghost used = texts(used_alt_texts@);
    let mut i: usize = 0;
    while i < candidates.len()
        invariant
            i <= candidates.len(),
            c == candidates@.map_values(|s: &str| s@),
            c == preferred_alts(role@) + fallback_alts(),
            used == texts(old(used_alt_texts)@),
            used_alt_texts@ == old(used_alt_texts)@,
            forall|j: int| 0 <= j < i ==> used.contains(#[trigger] c[j]),
        decreases candidates.len() - i,
    {
        let candidate = candidates[i];
        assert(c[i as int] == candidate@);
        if !holds_id(used_alt_texts, candidate) {
            proof {
                lemma_first_unused_skip(c, used, i as int);
                assert(c.subrange(i as int, c.len() as int)[0] == candidate@);
            }
            let chosen = owned(candidate);
            used_alt_texts.push(owned(candidate));
            assert(texts(used_alt_texts@) =~= used.push(chosen@));
            return chosen;
        }
        i = i + 1;
    }
    proof {
        lemma_first_unused_skip(c, used, i as int);
        assert(c.subrange(i as int, c.len() as int) =~= Seq::<Seq<char>>::empty());
    }
    owned("가")
}

/// The alt text a new piece receives once its role's preferred texts are all
/// in use: the first free one of 다, 라, 마, 바, 사, 자, 차, 카, 타, 파, A, B,
/// C, or 가 when all of them are taken too.
pub open spec fn alt_after_preferred(used: Seq<Seq<char>>) -> Seq<char> {
    match first_unused(
        seq![
            "다"@,
            "라"@,
            "마"@,
            "바"@,
            "사"@,
            "자"@,
            "차"@,
            "카"@,
            "타"@,
            "파"@,
            "A"@,
            "B"@,
            "C"@,
        ],
        used,
    ) {
        Some(x) => x,
        None => "가"@,
    }
}

proof fn lemma_alt_triple(
    role: Seq<char>,
    a: Seq<char>,
    b: Seq<char>,
    c: Seq<char>,
    used: Seq<Seq<char>>,
)
    requires
        preferred_alts(role) == seq![a, b, c],
    ensures
        !used.contains(a) ==> fresh_alt(role, used) == a,
        used.contains(a) && !used.contains(b) ==> fresh_alt(role, used) == b,
        used.contains(a) && used.contains(b) && !used.contains(c) ==> fresh_alt(role, used) == c,
        used.contains(a) && used.contains(b) && used.contains(c) ==> fresh_alt(role, used)
            == alt_after_preferred(used),
{
    let all = preferred_alts(role) + fallback_alts();
    assert(all[0] == a);
    assert(all[1] == b);
    assert(all[2] == c);
    let d1 = all.drop_first();
    let d2 = d1.drop_first();
    assert(d1[0] == b);
    assert(d2[0] == c);
    assert(all.len() == 16);
    if !used.contains(a) {
        assert(first_unused(all, used) == Some(a));
    } else if !used.contains(b) {
        assert(first_unused(all, used) == first_unused(d1, used));
        assert(first_unused(d1, used) == Some(b));
    } else if !used.contains(c) {
        assert(first_unused(all, used) == first_unused(d1, used));
        assert(first_unused(d1, used) == first_unused(d2, used));
        assert(first_unused(d2, used) == Some(c));
    }
    if used.contains(a) && used.contains(b) && used.contains(c) {
        lemma_first_unused_skip(all, used, 3);
        assert(all.subrange(3, all.len() as int) =~= fallback_alts());
    }
}

/// The alt texts a new piece is offered, by role, in order: a left piece
/// 좌, 왼, 가; a right piece 우, 오, 나; a top piece 상, 위, 가; a bottom piece
/// 하, 아, 나; a piece of any other role 가, 나, 다. It receives the first of
/// them not in use, and once all three are in use, the first free fallback
/// text (`alt_after_preferred`).
pub proof fn lemma_alt_order_by_role(role: Seq<char>, used: Seq<Seq<char>>)
    ensures
        !used.contains("좌"@) ==> fresh_alt("left"@, used) == "좌"@,
        used.contains("좌"@) && !used.contains("왼"@) ==> fresh_alt("left"@, used) == "왼"@,
        used.contains("좌"@) && used.contains("왼"@) && !used.contains("가"@) ==> fresh_alt(
            "left"@,
            used,
        ) == "가"@,
        used.contains("좌"@) && used.contains("왼"@) && used.contains("가"@) ==> fresh_alt(
            "left"@,
            used,
        ) == alt_after_preferred(used),
        !used.contains("우"@) ==> fresh_alt("right"@, used) == "우"@,
        used.contains("우"@) && !used.contains("오"@) ==> fresh_alt("right"@, used) == "오"@,
        used.contains("우"@) && used.contains("오"@) && !used.contains("나"@) ==> fresh_alt(
            "right"@,
            used,
        ) == "나"@,
        used.contains("우"@) && used.contains("오"@) && used.contains("나"@) ==> fresh_alt(
            "right"@,
            used,
        ) == alt_after_preferred(used),
        !used.contains("상"@) ==> fresh_alt("top"@, used) == "상"@,
        used.contains("상"@) && !used.contains("위"@) ==> fresh_alt("top"@, used) == "위"@,
        used.contains("상"@) && used.contains("위"@) && !used.contains("가"@) ==> fresh_alt(
            "top"@,
            used,
        ) == "가"@,
        used.contains("상"@) && used.contains("위"@) && used.contains("가"@) ==> fresh_alt(
            "top"@,
            used,
        ) == alt_after_preferred(used),
        !used.contains("하"@) ==> fresh_alt("bottom"@, used) == "하"@,
        used.contains("하"@) && !used.contains("아"@) ==> fresh_alt("bottom"@, used) == "아"@,
        used.contains("하"@) && used.contains("아"@) && !used.contains("나"@) ==> fresh_alt(
            "bottom"@,
            used,
        ) == "나"@,
        used.contains("하"@) && used.contains("아"@) && used.contains("나"@) ==> fresh_alt(
            "bottom"@,
            used,
        ) == alt_after_preferred(used),
        role != "left"@ && role != "right"@ && role != "top"@ && role != "bottom"@ ==> {
            &&& !used.contains("가"@) ==> fresh_alt(role, used) == "가"@
            &&& used.contains("가"@) && !used.contains("나"@) ==> fresh_alt(role, used) == "나"@
            &&& used.contains("가"@) && used.contains("나"@) && !used.contains("다"@) ==> fresh_alt(
                role,
                used,
            ) == "다"@
            &&& used.contains("가"@) && used.contains("나"@) && used.contains("다"@) ==> fresh_alt(
                role,
                used,
            ) == alt_after_preferred(used)
        },
{
    reveal_strlit("left");
    reveal_strlit("right");
    reveal_strlit("top");
    reveal_strlit("bottom");
    assert("left"@.len() != "right"@.len());
    assert("top"@.len() != "left"@.len() && "top"@.len() != "right"@.len());
    assert("bottom"@.len() != "left"@.len() && "bottom"@.len() != "right"@.len() && "bottom"@.len()
        != "top"@.len());
    lemma_alt_triple("left"@, "좌"@, "왼"@, "가"@, used);
    lemma_alt_triple("right"@, "우"@, "오"@, "나"@, used);
    lemma_alt_triple("top"@, "상"@, "위"@, "가"@, used);
    lemma_alt_triple("bottom"@, "하"@, "아"@, "나"@, used);
    if role != "left"@ && role != "right"@ && role != "top"@ && role != "bottom"@ {
        lemma_alt_triple(role, "가"@, "나"@, "다"@, used);
    }
}

/// A fresh alt text is never one already in use, unless every candidate is taken.
pub proof fn lemma_fresh_alt_unused(role: Seq<char>, used: Seq<Seq<char>>)
    ensures
        first_unused(preferred_alts(role) + fallback_alts(), used) is Some ==> !used.contains(
            fresh_alt(role, used),
        ),
{
    lemma_first_unused_is_unused(preferred_alts(role) + fallback_alts(), used);
}

} // verus!
