//! Reconciling an icon's stored pieces with the pieces a new shape needs:
//! which stored piece takes each position, and which positions get a new
//! piece with a fresh alt text.

use vstd::prelude::*;

use crate::error::{AppError, ErrorCode};
use crate::ids::{holds_id, texts};
use crate::names::{fallback_alts, first_unused, fresh_alt, next_unique_alt, preferred_alts};

verus! {

/// A stored piece of an icon.
#[derive(Debug)]
pub struct PieceRecord {
    pub id: String,
    pub piece_index: i64,
    pub alt_text: String,
}

/// What a position of the reconciled icon holds.
#[derive(Debug)]
pub enum PiecePlan {
    /// A stored piece moves to this position and keeps its alt text.
    Reuse { piece_id: String },
    /// A new piece is made for this position with the given alt text.
    Create { alt_text: String },
}

/// A position's plan, as texts.
pub enum PlanView {
    Reuse(Seq<char>),
    Create(Seq<char>),
}

pub open spec fn plan_view(p: PiecePlan) -> PlanView {
    match p {
        PiecePlan::Reuse { piece_id } => PlanView::Reuse(piece_id@),
        PiecePlan::Create { alt_text } => PlanView::Create(alt_text@),
    }
}

pub open spec fn plans_view(v: Seq<PiecePlan>) -> Seq<PlanView> {
    v.map_values(|p: PiecePlan| plan_view(p))
}

/// The first position in `e` from which `p` holds.
pub open spec fn first_where(e: Seq<PieceRecord>, p: spec_fn(PieceRecord) -> bool) -> Option<int>
    decreases e.len(),
{
    if e.len() == 0 {
        None
    } else if p(e[0]) {
        Some(0)
    } else {
        match first_where(e.drop_first(), p) {
            Some(k) => Some(k + 1),
            None => None,
        }
    }
}

proof fn lemma_first_where_at(e: Seq<PieceRecord>, p: spec_fn(PieceRecord) -> bool, i: int)
    requires
        0 <= i <= e.len(),
        forall|j: int| 0 <= j < i ==> !p(#[trigger] e[j]),
        i == e.len() || p(e[i]),
    ensures
        first_where(e, p) == (if i == e.len() {
            None
        } else {
            Some(i)
        }),
    decreases i,
{
    if i > 0 {
        let d = e.drop_first();
        assert forall|j: int| 0 <= j < i - 1 implies !p(#[trigger] d[j]) by {
            assert(d[j] == e[j + 1]);
        }
        if i < e.len() {
            assert(d[i - 1] == e[i]);
        }
        lemma_first_where_at(d, p, i - 1);
    }
}

proof fn lemma_first_where_found(e: Seq<PieceRecord>, p: spec_fn(PieceRecord) -> bool)
    ensures
        first_where(e, p) matches Some(k) ==> 0 <= k < e.len() && p(e[k]),
        first_where(e, p) is None ==> forall|j: int| 0 <= j < e.len() ==> !p(#[trigger] e[j]),
    decreases e.len(),
{
    if e.len() > 0 {
        lemma_first_where_found(e.drop_first(), p);
        if first_where(e, p) is None {
            assert forall|j: int| 0 <= j < e.len() implies !p(#[trigger] e[j]) by {
                if j > 0 {
                    assert(e[j] == e.drop_first()[j - 1]);
                }
            }
        }
    }
}

/// Whether a stored piece has the id `id`.
pub open spec fn has_id(id: Seq<char>) -> spec_fn(PieceRecord) -> bool {
    |p: PieceRecord| p.id@ == id
}

/// Whether a stored piece sits at `index` and is not taken yet.
pub open spec fn free_at(index: int, used: Seq<Seq<char>>) -> spec_fn(PieceRecord) -> bool {
    |p: PieceRecord| p.piece_index == index && !used.contains(p.id@)
}

/// Whether a stored piece is not taken yet.
pub open spec fn free(used: Seq<Seq<char>>) -> spec_fn(PieceRecord) -> bool {
    |p: PieceRecord| !used.contains(p.id@)
}

/// The stored piece that takes position `i`: the requested piece for the
/// position when there is one, else an unused piece stored at that position,
/// else the first unused piece.
pub open spec fn picked_piece(
    existing: Seq<PieceRecord>,
    requested: Seq<Seq<char>>,
    used: Seq<Seq<char>>,
    i: int,
) -> Option<int> {
    let by_request = if 0 <= i < requested.len() {
        first_where(existing, has_id(requested[i]))
    } else {
        None
    };
    match by_request {
        Some(k) => Some(k),
        None => match first_where(existing, free_at(i, used)) {
            Some(k) => Some(k),
            None => first_where(existing, free(used)),
        },
    }
}

/// The alt texts in use once a new piece for `role` took its alt text.
pub open spec fn alts_after(role: Seq<char>, used: Seq<Seq<char>>) -> Seq<Seq<char>> {
    if first_unused(preferred_alts(role) + fallback_alts(), used) is Some {
        used.push(fresh_alt(role, used))
    } else {
        used
    }
}

/// The plans of positions `i..roles.len()`, given the stored pieces already
/// taken and the alt texts in use.
pub open spec fn plans_from(
    existing: Seq<PieceRecord>,
    requested: Seq<Seq<char>>,
    roles: Seq<Seq<char>>,
    i: nat,
    used_ids: Seq<Seq<char>>,
    used_alts: Seq<Seq<char>>,
) -> Seq<PlanView>
    decreases roles.len() - i,
{
    if i >= roles.len() {
        Seq::empty()
    } else {
        match picked_piece(existing, requested, used_ids, i as int) {
            Some(k) => seq![PlanView::Reuse(existing[k].id@)] + plans_from(
                existing,
                requested,
                roles,
                i + 1,
                used_ids.push(existing[k].id@),
                used_alts,
            ),
            None => seq![PlanView::Create(fresh_alt(roles[i as int], used_alts))] + plans_from(
                existing,
                requested,
                roles,
                i + 1,
                used_ids,
                alts_after(roles[i as int], used_alts),
            ),
        }
    }
}

/// The alt texts of the stored pieces.
pub open spec fn piece_alts(existing: Seq<PieceRecord>) -> Seq<Seq<char>> {
    existing.map_values(|p: PieceRecord| p.alt_text@)
}

/// Whether `id` is the id of one of the stored pieces.
pub open spec fn is_stored_piece(existing: Seq<PieceRecord>, id: Seq<char>) -> bool {
    exists|k: int| 0 <= k < existing.len() && #[trigger] existing[k].id@ == id
}

/// Whether every requested piece is one of the stored pieces.
pub open spec fn requests_known(existing: Seq<PieceRecord>, requested: Seq<Seq<char>>) -> bool {
    forall|j: int| 0 <= j < requested.len() ==> is_stored_piece(existing, #[trigger] requested[j])
}

fn find_requested(existing: &Vec<PieceRecord>, id: &str) -> (r: Option<usize>)
    ensures
        r matches Some(k) ==> first_where(existing@, has_id(id@)) == Some(k as int),
        r is None ==> first_where(existing@, has_id(id@)) is None,
{
    let ghost p = has_id(id@);
    let mut k: usize = 0;
    while k < existing.len()
        invariant
            k <= existing.len(),
            p == has_id(id@),
            forall|j: int| 0 <= j < k ==> !p(#[trigger] existing@[j]),
        decreases existing.len() - k,
    {
        if crate::text::str_eq(existing[k].id.as_str(), id) {
            proof {
                assert(p(existing@[k as int]));
                lemma_first_where_at(existing@, p, k as int);
            }
            return Some(k);
        }
        k = k + 1;
    }
    proof {
        lemma_first_where_at(existing@, p, k as int);
    }
    None
}

fn find_unused_at(existing: &Vec<PieceRecord>, used: &Vec<String>, index: usize) -> (r: Option<
    usize,
>)
    ensures
        r matches Some(k) ==> first_where(existing@, free_at(index as int, texts(used@))) == Some(
            k as int,
        ),
        r is None ==> first_where(existing@, free_at(index as int, texts(used@))) is None,
{
    let ghost p = free_at(index as int, texts(used@));
    let mut k: usize = 0;
    while k < existing.len()
        invariant
            k <= existing.len(),
            p == free_at(index as int, texts(used@)),
            forall|j: int| 0 <= j < k ==> !p(#[trigger] existing@[j]),
        decreases existing.len() - k,
    {
        if existing[k].piece_index as i128 == index as i128 && !holds_id(
            used,
            existing[k].id.as_str(),
        ) {
            proof {
                assert(p(existing@[k as int]));
                lemma_first_where_at(existing@, p, k as int);
            }
            return Some(k);
        }
        k = k + 1;
    }
    proof {
        lemma_first_where_at(existing@, p, k as int);
    }
    None
}

fn find_unused(existing: &Vec<PieceRecord>, used: &Vec<String>) -> (r: Option<usize>)
    ensures
        r matches Some(k) ==> first_where(existing@, free(texts(used@))) == Some(k as int),
        r is None ==> first_where(existing@, free(texts(used@))) is None,
{
    let ghost p = free(texts(used@));
    let mut k: usize = 0;
    while k < existing.len()
        invariant
            k <= existing.len(),
            p == free(texts(used@)),
            forall|j: int| 0 <= j < k ==> !p(#[trigger] existing@[j]),
        decreases existing.len() - k,
    {
        if !holds_id(used, existing[k].id.as_str()) {
            proof {
                assert(p(existing@[k as int]));
                lemma_first_where_at(existing@, p, k as int);
            }
            return Some(k);
        }
        k = k + 1;
    }
    proof {
        lemma_first_where_at(existing@, p, k as int);
    }
    None
}

/// Plans the pieces of an icon whose shape needs `roles`, after its preview
/// produced `generated_piece_count` piece images. Refused when the counts
/// differ, or when a requested piece is not one of the icon's stored pieces.
/// Otherwise position `i` takes the requested piece for `i` if any, else an
/// unused stored piece at index `i`, else the first unused stored piece, else a
/// new piece whose alt text is fresh among `collection_alts` (those of the
/// collection's other icons) and the stored pieces' alt texts. Stored pieces
/// that no position takes are to be removed.
pub fn plan_icon_pieces(
    roles: &Vec<String>,
    generated_piece_count: usize,
    existing: &Vec<PieceRecord>,
    requested_ids: &Vec<String>,
    collection_alts: &Vec<String>,
) -> (r: Result<Vec<PiecePlan>, AppError>)
    ensures
        r is Ok <==> (roles@.len() == generated_piece_count && requests_known(
            existing@,
            texts(requested_ids@),
        )),
        r is Err ==> r->Err_0.code == ErrorCode::Validation,
        roles@.len() != generated_piece_count ==> r is Err && r->Err_0.message@
            == "아이콘 조각 수와 생성된 미리보기 수가 일치하지 않습니다."@,
        roles@.len() == generated_piece_count && r is Err ==> r->Err_0.message@
            == "다른 아이콘의 조각은 이 아이콘에 배치할 수 없습니다."@,
        r is Ok ==> plans_view(r->Ok_0@) == plans_from(
            existing@,
            texts(requested_ids@),
            texts(roles@),
            0,
            Seq::empty(),
            texts(collection_alts@) + piece_alts(existing@),
        ),
{
    if roles.len() != generated_piece_count {
        return Err(
            AppError::validation("아이콘 조각 수와 생성된 미리보기 수가 일치하지 않습니다."),
        );
    }
    let mut j: usize = 0;
    while j < requested_ids.len()
        invariant
            j <= requested_ids.len(),
            roles@.len() == generated_piece_count,
            forall|q: int|
                0 <= q < j ==> is_stored_piece(existing@, #[trigger] texts(requested_ids@)[q]),
        decreases requested_ids.len() - j,
    {
        let found = find_requested(existing, requested_ids[j].as_str());
        proof {
            lemma_first_where_found(existing@, has_id(requested_ids@[j as int]@));
            assert(texts(requested_ids@)[j as int] == requested_ids@[j as int]@);
        }
        match found {
            None => {
                proof {
                    if requests_known(existing@, texts(requested_ids@)) {
                        assert(is_stored_piece(existing@, texts(requested_ids@)[j as int]));
                        let k = choose|k: int|
                            0 <= k < existing@.len() && #[trigger] existing@[k].id@ == texts(
                                requested_ids@,
                            )[j as int];
                        assert(has_id(requested_ids@[j as int]@)(existing@[k]));
                    }
                }
                return Err(
                    AppError::validation("다른 아이콘의 조각은 이 아이콘에 배치할 수 없습니다."),
                );
            },
            Some(k) => {
                proof {
                    assert(has_id(requested_ids@[j as int]@)(existing@[k as int]));
                    assert(existing@[k as int].id@ == texts(requested_ids@)[j as int]);
                }
            },
        }
        j = j + 1;
    }
    let mut used_alts: Vec<String> = crate::ids::copy_ids(collection_alts);
    let mut a: usize = 0;
    while a < existing.len()
        invariant
            a <= existing.len(),
            texts(used_alts@) == texts(collection_alts@) + piece_alts(existing@).subrange(
                0,
                a as int,
            ),
        decreases existing.len() - a,
    {
        let ghost before = texts(used_alts@);
        used_alts.push(crate::text::owned(existing[a].alt_text.as_str()));
        assert(texts(used_alts@) =~= before.push(existing@[a as int].alt_text@));
        assert(texts(used_alts@) =~= texts(collection_alts@) + piece_alts(existing@).subrange(
            0,
            a + 1,
        ));
        a = a + 1;
    }
    assert(piece_alts(existing@).subrange(0, existing@.len() as int) =~= piece_alts(existing@));
    let ghost existing_v = existing@;
    let ghost requested = texts(requested_ids@);
    let ghost role_texts = texts(roles@);
    let ghost initial_alts = texts(used_alts@);
    let mut used_ids: Vec<String> = Vec::new();
    let mut plans: Vec<PiecePlan> = Vec::new();
    assert(texts(used_ids@) =~= Seq::<Seq<char>>::empty());
    assert(plans_view(plans@) =~= Seq::<PlanView>::empty());
    assert(requests_known(existing@, texts(requested_ids@)));
    let mut i: usize = 0;
    while i < roles.len()
        invariant
            i <= roles.len(),
            existing_v == existing@,
            requested == texts(requested_ids@),
            role_texts == texts(roles@),
            initial_alts == texts(collection_alts@) + piece_alts(existing@),
            plans_view(plans@) + plans_from(
                existing_v,
                requested,
                role_texts,
                i as nat,
                texts(used_ids@),
                texts(used_alts@),
            ) == plans_from(existing_v, requested, role_texts, 0, Seq::empty(), initial_alts),
        decreases roles.len() - i,
    {
        let ghost used_before = texts(used_ids@);
        let ghost alts_before = texts(used_alts@);
        let ghost plans_before = plans@;
        let by_request = if i < requested_ids.len() {
            find_requested(existing, requested_ids[i].as_str())
        } else {
            None
        };
        let picked = match by_request {
            Some(k) => Some(k),
            None => match find_unused_at(existing, &used_ids, i) {
                Some(k) => Some(k),
                None => find_unused(existing, &used_ids),
            },
        };
        proof {
            if i < requested_ids.len() {
                assert(requested[i as int] == requested_ids@[i as int]@);
            }
            let pk = picked_piece(existing_v, requested, used_before, i as int);
            assert(picked matches Some(k) ==> pk == Some(k as int));
            assert(picked is None ==> pk is None);
            lemma_first_where_found(existing_v, free_at(i as int, used_before));
            lemma_first_where_found(existing_v, free(used_before));
            if i < requested.len() {
                lemma_first_where_found(existing_v, has_id(requested[i as int]));
            }
        }
        match picked {
            Some(k) => {
                let id = crate::text::owned(existing[k].id.as_str());
                used_ids.push(crate::text::owned(existing[k].id.as_str()));
                plans.push(PiecePlan::Reuse { piece_id: id });
                proof {
                    assert(texts(used_ids@) =~= used_before.push(existing_v[k as int].id@));
                    assert(plans_view(plans@) =~= plans_view(plans_before).push(
                        PlanView::Reuse(existing_v[k as int].id@),
                    ));
                    let rest = plans_from(
                        existing_v,
                        requested,
                        role_texts,
                        (i + 1) as nat,
                        texts(used_ids@),
                        texts(used_alts@),
                    );
                    assert(plans_from(
                        existing_v,
                        requested,
                        role_texts,
                        i as nat,
                        used_before,
                        alts_before,
                    ) == seq![PlanView::Reuse(existing_v[k as int].id@)] + rest);
                    assert(plans_view(plans@) + rest =~= plans_view(plans_before) + plans_from(
                        existing_v,
                        requested,
                        role_texts,
                        i as nat,
                        used_before,
                        alts_before,
                    ));
                }
            },
            None => {
                let alt = next_unique_alt(&mut used_alts, roles[i].as_str());
                plans.push(PiecePlan::Create { alt_text: alt });
                proof {
                    assert(role_texts[i as int] == roles@[i as int]@);
                    assert(texts(used_alts@) == alts_after(role_texts[i as int], alts_before));
                    assert(plans_view(plans@) =~= plans_view(plans_before).push(
                        PlanView::Create(fresh_alt(role_texts[i as int], alts_before)),
                    ));
                    let rest = plans_from(
                        existing_v,
                        requested,
                        role_texts,
                        (i + 1) as nat,
                        texts(used_ids@),
                        texts(used_alts@),
                    );
                    assert(plans_view(plans@) + rest =~= plans_view(plans_before) + plans_from(
                        existing_v,
                        requested,
                        role_texts,
                        i as nat,
                        used_before,
                        alts_before,
                    ));
                }
            },
        }
        i = i + 1;
    }
    assert(plans_view(plans@) =~= plans_view(plans@) + plans_from(
        existing_v,
        requested,
        role_texts,
        i as nat,
        texts(used_ids@),
        texts(used_alts@),
    ));
    Ok(plans)
}

proof fn lemma_request_found(existing: Seq<PieceRecord>, id: Seq<char>)
    requires
        is_stored_piece(existing, id),
    ensures
        first_where(existing, has_id(id)) matches Some(k) && 0 <= k < existing.len()
            && existing[k].id@ == id,
{
    lemma_first_where_found(existing, has_id(id));
    let k = choose|k: int| 0 <= k < existing.len() && #[trigger] existing[k].id@ == id;
    assert(has_id(id)(existing[k]));
}

/// Every position that has a requested piece receives that piece, provided the
/// requested pieces are stored pieces of the icon.
pub proof fn lemma_requested_pieces_land_in_place(
    existing: Seq<PieceRecord>,
    requested: Seq<Seq<char>>,
    roles: Seq<Seq<char>>,
    i: nat,
    used_ids: Seq<Seq<char>>,
    used_alts: Seq<Seq<char>>,
)
    requires
        requests_known(existing, requested),
        i <= roles.len(),
    ensures
        plans_from(existing, requested, roles, i, used_ids, used_alts).len() == roles.len() - i,
        forall|j: int|
            i <= j < roles.len() && j < requested.len() ==> #[trigger] plans_from(
                existing,
                requested,
                roles,
                i,
                used_ids,
                used_alts,
            )[j - i] == PlanView::Reuse(requested[j]),
    decreases roles.len() - i,
{
    if i < roles.len() {
        let plans = plans_from(existing, requested, roles, i, used_ids, used_alts);
        if i < requested.len() {
            lemma_request_found(existing, requested[i as int]);
        }
        lemma_first_where_found(existing, free_at(i as int, used_ids));
        lemma_first_where_found(existing, free(used_ids));
        match picked_piece(existing, requested, used_ids, i as int) {
            Some(k) => {
                let next_used = used_ids.push(existing[k].id@);
                if i < requested.len() {
                    assert(existing[k].id@ == requested[i as int]);
                }
                lemma_requested_pieces_land_in_place(
                    existing,
                    requested,
                    roles,
                    i + 1,
                    next_used,
                    used_alts,
                );
                let rest = plans_from(existing, requested, roles, i + 1, next_used, used_alts);
                assert(plans == seq![PlanView::Reuse(existing[k].id@)] + rest);
                assert forall|j: int| i <= j < roles.len() && j < requested.len() implies #[trigger] plans[j
                    - i] == PlanView::Reuse(requested[j]) by {
                    if j > i {
                        assert(rest[j - (i + 1)] == PlanView::Reuse(requested[j]));
                        assert(plans[j - i] == rest[j - i - 1]);
                    } else {
                        assert(plans[0] == PlanView::Reuse(existing[k].id@));
                    }
                }
            },
            None => {
                let next_alts = alts_after(roles[i as int], used_alts);
                lemma_requested_pieces_land_in_place(
                    existing,
                    requested,
                    roles,
                    i + 1,
                    used_ids,
                    next_alts,
                );
                let rest = plans_from(existing, requested, roles, i + 1, used_ids, next_alts);
                assert forall|j: int| i <= j < roles.len() && j < requested.len() implies #[trigger] plans[j
                    - i] == PlanView::Reuse(requested[j]) by {
                    assert(j > i);
                    assert(rest[j - (i + 1)] == PlanView::Reuse(requested[j]));
                    assert(plans[j - i] == rest[j - i - 1]);
                }
            },
        }
    }
}

/// No stored piece is given two positions, provided the requested pieces are
/// distinct stored pieces of the icon; and none that was already taken.
pub proof fn lemma_pieces_reused_once(
    existing: Seq<PieceRecord>,
    requested: Seq<Seq<char>>,
    roles: Seq<Seq<char>>,
    i: nat,
    used_ids: Seq<Seq<char>>,
    used_alts: Seq<Seq<char>>,
)
    requires
        requests_known(existing, requested),
        requested.no_duplicates(),
        forall|j: int| i <= j < requested.len() ==> !used_ids.contains(#[trigger] requested[j]),
    ensures
        ({
            let plans = plans_from(existing, requested, roles, i, used_ids, used_alts);
            &&& forall|a: int|
                0 <= a < plans.len() && #[trigger] plans[a] is Reuse ==> !used_ids.contains(
                    plans[a]->Reuse_0,
                )
            &&& forall|a: int, b: int|
                0 <= a < b < plans.len() && #[trigger] plans[a] is Reuse && #[trigger] plans[b] is Reuse
                    ==> plans[a]->Reuse_0 != plans[b]->Reuse_0
        }),
    decreases roles.len() - i,
{
    if i < roles.len() {
        let plans = plans_from(existing, requested, roles, i, used_ids, used_alts);
        if i < requested.len() {
            lemma_request_found(existing, requested[i as int]);
        }
        lemma_first_where_found(existing, free_at(i as int, used_ids));
        lemma_first_where_found(existing, free(used_ids));
        match picked_piece(existing, requested, used_ids, i as int) {
            Some(k) => {
                let x = existing[k].id@;
                let next_used = used_ids.push(x);
                if i < requested.len() {
                    assert(x == requested[i as int]);
                } else {
                    assert(!used_ids.contains(x)) by {
                        if first_where(existing, free_at(i as int, used_ids)) is Some {
                            assert(free_at(i as int, used_ids)(existing[k]));
                        } else {
                            assert(free(used_ids)(existing[k]));
                        }
                    }
                }
                assert(!used_ids.contains(x));
                assert forall|j: int| i + 1 <= j < requested.len() implies !next_used.contains(
                    #[trigger] requested[j],
                ) by {
                    if next_used.contains(requested[j]) {
                        let m = choose|m: int| 0 <= m < next_used.len() && next_used[m] == requested[j];
                        if m == used_ids.len() {
                            assert(requested[j] == x);
                            assert(x == requested[i as int]);
                        } else {
                            assert(used_ids[m] == requested[j]);
                        }
                    }
                }
                lemma_pieces_reused_once(existing, requested, roles, i + 1, next_used, used_alts);
                let rest = plans_from(existing, requested, roles, i + 1, next_used, used_alts);
                assert(plans == seq![PlanView::Reuse(x)] + rest);
                assert forall|a: int|
                    0 <= a < plans.len() && #[trigger] plans[a] is Reuse implies !used_ids.contains(
                    plans[a]->Reuse_0,
                ) by {
                    if a > 0 {
                        assert(plans[a] == rest[a - 1]);
                        assert(!next_used.contains(rest[a - 1]->Reuse_0));
                        if used_ids.contains(plans[a]->Reuse_0) {
                            let m = choose|m: int|
                                0 <= m < used_ids.len() && used_ids[m] == plans[a]->Reuse_0;
                            assert(next_used[m] == used_ids[m]);
                        }
                    }
                }
                assert forall|a: int, b: int|
                    0 <= a < b < plans.len() && #[trigger] plans[a] is Reuse
                        && #[trigger] plans[b] is Reuse implies plans[a]->Reuse_0
                    != plans[b]->Reuse_0 by {
                    assert(plans[b] == rest[b - 1]);
                    if a == 0 {
                        assert(!next_used.contains(rest[b - 1]->Reuse_0));
                        assert(next_used[used_ids.len() as int] == x);
                    } else {
                        assert(plans[a] == rest[a - 1]);
                    }
                }
            },
            None => {
                let next_alts = alts_after(roles[i as int], used_alts);
                if i < requested.len() {
                    assert(false);
                }
                lemma_pieces_reused_once(existing, requested, roles, i + 1, used_ids, next_alts);
                let rest = plans_from(existing, requested, roles, i + 1, used_ids, next_alts);
                assert(plans == seq![PlanView::Create(fresh_alt(roles[i as int], used_alts))] + rest);
                assert forall|a: int|
                    0 <= a < plans.len() && #[trigger] plans[a] is Reuse implies !used_ids.contains(
                    plans[a]->Reuse_0,
                ) by {
                    assert(a > 0);
                    assert(plans[a] == rest[a - 1]);
                }
                assert forall|a: int, b: int|
                    0 <= a < b < plans.len() && #[trigger] plans[a] is Reuse
                        && #[trigger] plans[b] is Reuse implies plans[a]->Reuse_0
                    != plans[b]->Reuse_0 by {
                    assert(a > 0);
                    assert(plans[a] == rest[a - 1]);
                    assert(plans[b] == rest[b - 1]);
                }
            },
        }
    }
}

} // verus!
