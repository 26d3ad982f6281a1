use listing_ledger::tips::{annotate, flag, note_if, retain_sticky, CLEAR, DRAFT, NEEDS_REVIEW};

#[test]
fn flags_are_encoded_as_ordinals() {
    assert_eq!(DRAFT, -2);
    assert_eq!(NEEDS_REVIEW, -1);
    assert_eq!(CLEAR, 0);
}

#[test]
fn only_a_clear_listing_is_flagged() {
    assert_eq!(flag(CLEAR), NEEDS_REVIEW);
    assert_eq!(flag(NEEDS_REVIEW), NEEDS_REVIEW);
    assert_eq!(flag(DRAFT), DRAFT);
    assert_eq!(flag(3), 3);
}

#[test]
fn clearing_keeps_the_sticky_tips() {
    assert_eq!(retain_sticky("!draft;price changed;sku changed;"), "!draft;");
}

#[test]
fn clearing_edge_cases() {
    assert_eq!(retain_sticky(""), "");
    assert_eq!(retain_sticky(";"), "");
    assert_eq!(retain_sticky("a;b;"), "");
    assert_eq!(retain_sticky("!a"), "!a;");
    assert_eq!(retain_sticky("!a;x;!b;"), "!a;!b;");
    assert_eq!(retain_sticky("x;!b"), "!b;");
    assert_eq!(retain_sticky("!;"), "!;");
    assert_eq!(retain_sticky("x!;!y;;"), "!y;");
    assert_eq!(retain_sticky("!草稿箱;SKU变更;"), "!草稿箱;");
}

#[test]
fn annotate_appends_and_flags() {
    let mut tips = String::from("!draft;");
    let mut pending = CLEAR;
    annotate(&mut tips, &mut pending, "price changed");
    assert_eq!(tips, "!draft;price changed;");
    assert_eq!(pending, NEEDS_REVIEW);
    let mut pending = DRAFT;
    annotate(&mut tips, &mut pending, "sku changed");
    assert_eq!(tips, "!draft;price changed;sku changed;");
    assert_eq!(pending, DRAFT);
}

#[test]
fn note_if_appends_only_where_due() {
    let mut tips = String::new();
    note_if(&mut tips, false, "a");
    assert_eq!(tips, "");
    note_if(&mut tips, true, "a");
    assert_eq!(tips, "a;");
}
