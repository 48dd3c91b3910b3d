use zkay_ast::shared_cell::RRWrapper;

#[test]
fn wrapper_holds_its_value() {
    let w = RRWrapper::new(5u32);
    assert_eq!(*w.borrow(), 5);
    *w.borrow_mut() = 7;
    assert_eq!(*w.borrow(), 7);
}

#[test]
fn clones_share_the_cell() {
    let w = RRWrapper::new(String::from("a"));
    let c = w.clone();
    c.borrow_mut().push('b');
    assert_eq!(*w.borrow(), "ab");
    assert_eq!(w, c);
}
