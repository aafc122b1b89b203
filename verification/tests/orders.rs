use rust_study::orders::DraftOrder;

#[test]
fn order_flows_from_draft_to_shipped() {
    let draft = DraftOrder::new().add_item("机械键盘").add_item("鼠标垫");
    assert_eq!(draft.item_count(), 2);
    let shipped = draft.submit().pay().ship();
    assert_eq!(shipped, 2);
}

#[test]
fn empty_order_ships_nothing() {
    assert_eq!(DraftOrder::default().item_count(), 0);
    assert_eq!(DraftOrder::new().submit().pay().ship(), 0);
}
