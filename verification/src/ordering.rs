//! Display order of icons in a collection and the collection cover:
//! reordering, compaction after deletion, appending imported icons and
//! repairing a cover whose icon was deleted.

use vstd::prelude::*;

use crate::error::{AppError, ErrorCode};
use crate::ids::{all_held, holds_id, texts};

verus! {

/// One icon and the position it is given.
#[derive(Debug)]
pub struct OrderAssignment {
    pub icon_id: String,
    pub order_index: i64,
}

/// `a` gives the `i`-th identifier of `ids` the position `i`, and nothing else.
pub open spec fn assigns_positions(ids: Seq<Seq<char>>, a: Seq<OrderAssignment>) -> bool {
    &&& a.len() == ids.len()
    &&& forall|i: int| 0 <= i < a.len() ==> (#[trigger] a[i]).icon_id@ == ids[i] && a[i].order_index == i
}

/// Positions `0, 1, 2, ...` for the identifiers in the order given; this is
/// how a new order is stored and how the order is compacted after deletions.
pub fn order_assignments(ids: &Vec<String>) -> (a: Vec<OrderAssignment>)
    requires
        ids@.len() <= i64::MAX,
    ensures
        assigns_positions(texts(ids@), a@),
{
    let mut a: Vec<OrderAssignment> = Vec::new();
    let mut i: usize = 0;
    while i < ids.len()
        invariant
            i <= ids.len() <= i64::MAX,
            a@.len() == i,
            forall|j: int| 0 <= j < i ==> #[trigger] a@[j].icon_id@ == ids@[j]@ && a@[j].order_index == j,
        decreases ids.len() - i,
    {
        a.push(OrderAssignment { icon_id: crate::text::owned(ids[i].as_str()), order_index: i as i64 });
        i = i + 1;
    }
    assert forall|i: int| 0 <= i < a@.len() implies (#[trigger] a@[i]).icon_id@ == texts(ids@)[i]
        && a@[i].order_index == i by {
        assert(a@[i].icon_id@ == ids@[i]@);
    }
    a
}

/// The members of an identifier list.
pub open spec fn members(v: Seq<String>) -> Set<Seq<char>> {
    texts(v).to_set()
}

proof fn lemma_members_equal(a: Seq<String>, b: Seq<String>)
    requires
        forall|x: Seq<char>| texts(a).contains(x) ==> texts(b).contains(x),
        forall|x: Seq<char>| texts(b).contains(x) ==> texts(a).contains(x),
    ensures
        members(a) == members(b),
{
    assert(members(a) =~= members(b));
}

/// Checks a requested order against the icons the collection holds and
/// returns the positions to store. The request must name exactly the
/// collection's icons, as many as there are.
pub fn plan_reorder(current_ids: &Vec<String>, requested_ids: &Vec<String>) -> (r: Result<
    Vec<OrderAssignment>,
    AppError,
>)
    requires
        requested_ids@.len() <= i64::MAX,
    ensures
        r is Ok <==> (current_ids@.len() == requested_ids@.len() && members(current_ids@)
            == members(requested_ids@)),
        r is Err ==> r->Err_0.code == ErrorCode::Validation,
        current_ids@.len() != requested_ids@.len() ==> r is Err && r->Err_0.message@
            == "아이콘 순서 저장 목록이 현재 모음과 일치하지 않습니다."@,
        current_ids@.len() == requested_ids@.len() && r is Err ==> r->Err_0.message@
            == "다른 모음의 아이콘은 이 순서에 포함할 수 없습니다."@,
        r is Ok ==> assigns_positions(texts(requested_ids@), r->Ok_0@),
{
    if current_ids.len() != requested_ids.len() {
        return Err(
            AppError::validation("아이콘 순서 저장 목록이 현재 모음과 일치하지 않습니다."),
        );
    }
    let forward = all_held(current_ids, requested_ids);
    let backward = all_held(requested_ids, current_ids);
    if !(forward && backward) {
        proof {
            if members(current_ids@) == members(requested_ids@) {
                assert forall|x: Seq<char>|
                    texts(current_ids@).contains(x) implies texts(requested_ids@).contains(x) by {
                    assert(members(current_ids@).contains(x));
                }
                assert forall|x: Seq<char>|
                    texts(requested_ids@).contains(x) implies texts(current_ids@).contains(x) by {
                    assert(members(requested_ids@).contains(x));
                }
            }
        }
        return Err(AppError::validation("다른 모음의 아이콘은 이 순서에 포함할 수 없습니다."));
    }
    proof {
        lemma_members_equal(current_ids@, requested_ids@);
    }
    Ok(order_assignments(requested_ids))
}

/// A stored order is a permutation of the collection: every icon of the
/// collection gets exactly one position, the positions are `0..n`, and no
/// other icon gets one.
pub proof fn lemma_reorder_is_permutation(
    current_ids: Seq<String>,
    requested_ids: Seq<String>,
    a: Seq<OrderAssignment>,
)
    requires
        current_ids.len() == requested_ids.len(),
        members(current_ids) == members(requested_ids),
        assigns_positions(texts(requested_ids), a),
    ensures
        forall|x: Seq<char>|
            texts(current_ids).contains(x) <==> exists|i: int| 0 <= i < a.len() && #[trigger] a[i].icon_id@ == x,
        forall|i: int| 0 <= i < a.len() ==> 0 <= (#[trigger] a[i]).order_index < current_ids.len(),
        forall|i: int, j: int| 0 <= i < j < a.len() ==> (#[trigger] a[i]).order_index != (#[trigger] a[j]).order_index,
{
    assert forall|x: Seq<char>|
        texts(current_ids).contains(x) <==> exists|i: int| 0 <= i < a.len() && #[trigger] a[i].icon_id@ == x by {
        if texts(current_ids).contains(x) {
            assert(members(current_ids).contains(x));
            assert(members(requested_ids).contains(x));
            let k = choose|k: int| 0 <= k < texts(requested_ids).len() && texts(requested_ids)[k] == x;
            assert(a[k].icon_id@ == x);
        }
        if exists|i: int| 0 <= i < a.len() && #[trigger] a[i].icon_id@ == x {
            let i = choose|i: int| 0 <= i < a.len() && #[trigger] a[i].icon_id@ == x;
            assert(texts(requested_ids)[i] == x);
            assert(members(requested_ids).contains(x));
            assert(members(current_ids).contains(x));
        }
    }
}

/// The position for an icon appended after the current ones: one past the
/// largest position, or zero in an empty collection; `None` when the largest
/// position leaves no room.
pub fn next_order_index(max_order_index: Option<i64>) -> (r: Option<i64>)
    ensures
        r == (match max_order_index {
            None => Some(0i64),
            Some(m) => if m < i64::MAX {
                Some((m + 1) as i64)
            } else {
                None
            },
        }),
{
    match max_order_index {
        None => Some(0),
        Some(m) => m.checked_add(1),
    }
}

/// What becomes of a collection's cover after some of its icons were deleted.
#[derive(Debug)]
pub enum CoverRepair {
    /// The cover was not among the deleted icons.
    Keep,
    /// The cover was deleted; the first remaining icon takes its place.
    Replace { icon_id: String, source_file_id: String },
    /// The cover was deleted and no icon remains.
    Clear,
}

/// Decides the cover after deleting `deleted_ids`, given the current cover icon
/// and the first icon that remains in display order (its id and source file).
pub fn cover_repair_after_delete(
    cover_icon_id: &Option<String>,
    deleted_ids: &Vec<String>,
    first_remaining: Option<(String, String)>,
) -> (r: CoverRepair)
    ensures
        match cover_icon_id {
            Some(c) if texts(deleted_ids@).contains(c@) => match first_remaining {
                Some(f) => r matches CoverRepair::Replace { icon_id, source_file_id } && icon_id@
                    == f.0@ && source_file_id@ == f.1@,
                None => r is Clear,
            },
            _ => r is Keep,
        },
{
    let deleted = match cover_icon_id {
        Some(c) => holds_id(deleted_ids, c.as_str()),
        None => false,
    };
    if !deleted {
        return CoverRepair::Keep;
    }
    match first_remaining {
        Some((icon_id, source_file_id)) => CoverRepair::Replace { icon_id, source_file_id },
        None => CoverRepair::Clear,
    }
}

/// The cover icon once a repair is carried out.
pub open spec fn cover_after(cover_icon_id: Option<Seq<char>>, r: CoverRepair) -> Option<Seq<char>> {
    match r {
        CoverRepair::Keep => cover_icon_id,
        CoverRepair::Replace { icon_id, .. } => Some(icon_id@),
        CoverRepair::Clear => None,
    }
}

/// After a deletion the cover never names a deleted icon, provided the
/// replacement offered is an icon that remains.
pub proof fn lemma_cover_survives_delete(
    cover_icon_id: Option<String>,
    deleted_ids: Seq<String>,
    first_remaining: Option<(String, String)>,
    r: CoverRepair,
)
    requires
        first_remaining matches Some(f) ==> !texts(deleted_ids).contains(f.0@),
        match cover_icon_id {
            Some(c) if texts(deleted_ids).contains(c@) => match first_remaining {
                Some(f) => r matches CoverRepair::Replace { icon_id, source_file_id } && icon_id@
                    == f.0@ && source_file_id@ == f.1@,
                None => r is Clear,
            },
            _ => r is Keep,
        },
    ensures
        match cover_after(
            match cover_icon_id {
                Some(c) => Some(c@),
                None => None,
            },
            r,
        ) {
            Some(c) => !texts(deleted_ids).contains(c),
            None => true,
        },
{
}

/// Where the next accepted file of an import goes.
#[derive(Debug, Clone, Copy)]
pub struct ImportSlot {
    pub order_index: i64,
    pub becomes_cover: bool,
}

/// Progress of an import: the next free position and whether the collection
/// has a cover yet.
#[derive(Debug, Clone, Copy)]
pub struct ImportProgress {
    pub next_order_index: i64,
    pub has_cover: bool,
}

impl ImportProgress {
    /// Starts an import at the given free position; the collection has a cover
    /// when it names a cover icon or a cover source file.
    pub fn start(
        next_order_index: i64,
        cover_icon_id: &Option<String>,
        cover_source_file_id: &Option<String>,
    ) -> (p: ImportProgress)
        ensures
            p.next_order_index == next_order_index,
            p.has_cover == (cover_icon_id is Some || cover_source_file_id is Some),
    {
        ImportProgress {
            next_order_index,
            has_cover: cover_icon_id.is_some() || cover_source_file_id.is_some(),
        }
    }

    /// Records one accepted file: it takes the next position and becomes the
    /// cover when the collection has none.
    pub fn accept(&mut self) -> (slot: ImportSlot)
        requires
            old(self).next_order_index < i64::MAX,
        ensures
            slot.order_index == old(self).next_order_index,
            slot.becomes_cover == !old(self).has_cover,
            final(self).next_order_index == old(self).next_order_index + 1,
            final(self).has_cover,
    {
        let slot = ImportSlot { order_index: self.next_order_index, becomes_cover: !self.has_cover };
        self.next_order_index = self.next_order_index + 1;
        self.has_cover = true;
        slot
    }
}

/// The slots that `n` accepted files receive, starting from a progress state.
pub open spec fn import_slots(next: int, has_cover: bool, n: nat) -> Seq<(int, bool)>
    decreases n,
{
    if n == 0 {
        Seq::empty()
    } else {
        seq![(next, !has_cover)] + import_slots(next + 1, true, (n - 1) as nat)
    }
}

/// Accepted files take consecutive positions from the first free one, and only
/// the first of them becomes the cover, and only if the collection had none.
pub proof fn lemma_import_slots(next: int, has_cover: bool, n: nat)
    ensures
        import_slots(next, has_cover, n).len() == n,
        forall|i: int|
            0 <= i < n ==> #[trigger] import_slots(next, has_cover, n)[i] == (next + i, !has_cover && i
                == 0),
    decreases n,
{
    if n > 0 {
        lemma_import_slots(next + 1, true, (n - 1) as nat);
        let rest = import_slots(next + 1, true, (n - 1) as nat);
        assert forall|i: int| 0 <= i < n implies #[trigger] import_slots(next, has_cover, n)[i] == (
            next + i,
            !has_cover && i == 0,
        ) by {
            if i > 0 {
                assert(import_slots(next, has_cover, n)[i] == rest[i - 1]);
            }
        }
    }
}

} // verus!
