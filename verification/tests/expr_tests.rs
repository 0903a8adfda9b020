use cronframe::CronFrameExpr;

#[test]
fn expr_joins_the_fields() {
    let e = CronFrameExpr::new("0", "5", "10-14", "*", "*", "Sun", "*", 0);
    assert_eq!(e.expr(), "0 5 10-14 * * Sun *");
    assert_eq!(e.timeout(), 0);
}

#[test]
fn expr_from_text() {
    let e = CronFrameExpr::from("0/5 * * * * * * 15000");
    assert_eq!(e.expr(), "0/5 * * * * * *");
    assert_eq!(e.timeout(), 15000);
    // items past the eighth are ignored
    let e = CronFrameExpr::from("1 2 3 4 5 6 7 8 nine");
    assert_eq!(e.expr(), "1 2 3 4 5 6 7");
    assert_eq!(e.timeout(), 8);
}

#[test]
fn expr_try_from_text_refuses() {
    assert!(CronFrameExpr::try_from_text("0 * * * * * *").is_none());
    assert!(CronFrameExpr::try_from_text("0 * * * * * * soon").is_none());
    assert!(CronFrameExpr::try_from_text("0 * * * * * * -1").is_none());
    assert!(CronFrameExpr::try_from_text("0 * * * * * * 1").is_some());
}

#[test]
fn expr_round_trip() {
    let e = CronFrameExpr::new("0/10", "*", "*", "*", "*", "*", "*", 20000);
    let line = format!("{} {}", e.expr(), e.timeout());
    let back = CronFrameExpr::from(&line);
    assert_eq!(back.expr(), e.expr());
    assert_eq!(back.timeout(), e.timeout());
}

#[test]
fn expr_default_is_empty() {
    let e = CronFrameExpr::default();
    assert_eq!(e.expr(), "      ");
    assert_eq!(e.timeout(), 0);
}
