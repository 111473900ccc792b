use pmtconcon::error::ErrorCode;
use pmtconcon::names::next_unique_alt;
use pmtconcon::pieces::{plan_icon_pieces, PiecePlan, PieceRecord};

fn strings(v: &[&str]) -> Vec<String> {
    v.iter().map(|s| s.to_string()).collect()
}

fn piece(id: &str, index: i64, alt: &str) -> PieceRecord {
    PieceRecord { id: id.to_string(), piece_index: index, alt_text: alt.to_string() }
}

fn describe(plans: &[PiecePlan]) -> Vec<String> {
    plans
        .iter()
        .map(|plan| match plan {
            PiecePlan::Reuse { piece_id } => format!("reuse {piece_id}"),
            PiecePlan::Create { alt_text } => format!("create {alt_text}"),
        })
        .collect()
}

#[test]
fn stored_pieces_keep_their_positions() {
    let existing = vec![piece("p1", 0, "좌"), piece("p2", 1, "우")];
    let plans = plan_icon_pieces(&strings(&["left", "right"]), 2, &existing, &vec![], &vec![]).unwrap();
    assert_eq!(describe(&plans), vec!["reuse p1", "reuse p2"]);
}

#[test]
fn requested_pieces_land_in_the_requested_positions() {
    let existing = vec![piece("p1", 0, "좌"), piece("p2", 1, "우")];
    let plans =
        plan_icon_pieces(&strings(&["left", "right"]), 2, &existing, &strings(&["p2", "p1"]), &vec![])
            .unwrap();
    assert_eq!(describe(&plans), vec!["reuse p2", "reuse p1"]);
}

#[test]
fn missing_pieces_are_created_with_fresh_alt_texts() {
    let existing = vec![piece("p1", 0, "좌")];
    let plans = plan_icon_pieces(
        &strings(&["left", "center", "right"]),
        3,
        &existing,
        &vec![],
        &strings(&["가"]),
    )
    .unwrap();
    assert_eq!(describe(&plans), vec!["reuse p1", "create 나", "create 우"]);
}

#[test]
fn a_single_piece_icon_reuses_the_first_free_piece() {
    let existing = vec![piece("p7", 3, "상")];
    let plans = plan_icon_pieces(&strings(&["single"]), 1, &existing, &vec![], &vec![]).unwrap();
    assert_eq!(describe(&plans), vec!["reuse p7"]);
}

#[test]
fn piece_plans_are_refused_on_count_mismatch_and_foreign_requests() {
    let existing = vec![piece("p1", 0, "좌"), piece("p2", 1, "우")];
    let error = plan_icon_pieces(&strings(&["left", "right"]), 1, &existing, &vec![], &vec![]).unwrap_err();
    assert_eq!(error.code, ErrorCode::Validation);
    assert_eq!(error.message, "아이콘 조각 수와 생성된 미리보기 수가 일치하지 않습니다.");
    let error =
        plan_icon_pieces(&strings(&["left", "right"]), 2, &existing, &strings(&["other"]), &vec![])
            .unwrap_err();
    assert_eq!(error.code, ErrorCode::Validation);
    assert_eq!(error.message, "다른 아이콘의 조각은 이 아이콘에 배치할 수 없습니다.");
}

#[test]
fn unique_alt_texts_follow_the_role_preferences() {
    let mut used = strings(&["좌"]);
    assert_eq!(next_unique_alt(&mut used, "left"), "왼");
    assert_eq!(next_unique_alt(&mut used, "left"), "가");
    assert_eq!(next_unique_alt(&mut used, "left"), "다");
    assert_eq!(used, strings(&["좌", "왼", "가", "다"]));
    let mut used = vec![];
    assert_eq!(next_unique_alt(&mut used, "bottom"), "하");
}
