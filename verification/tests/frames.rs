use stack_vm::frame::Frame;
use stack_vm::stackobj::StackObj;

fn number(x: f32) -> StackObj {
    StackObj::Num(x.to_bits())
}

#[test]
fn an_unbound_name_reads_as_zero() {
    let frame = Frame::new(0);
    assert_eq!(frame.get_var("never_set"), number(0.0));
    assert_eq!(frame.get_var(""), number(0.0));
}

#[test]
fn a_bound_name_reads_as_bound() {
    let mut frame = Frame::new(7);
    frame.set_var("x", number(4.5));
    frame.set_var("y", StackObj::Ref(9));
    assert_eq!(frame.get_var("x"), number(4.5));
    assert_eq!(frame.get_var("y"), StackObj::Ref(9));
    assert_eq!(frame.get_var("z"), number(0.0));
    assert_eq!(frame.return_address, 7);
}

#[test]
fn binding_again_overwrites() {
    let mut frame = Frame::new(0);
    frame.set_var("x", number(1.0));
    frame.set_var("x", number(2.0));
    assert_eq!(frame.get_var("x"), number(2.0));
    assert_eq!(frame.vars.len(), 1);
}

#[test]
fn names_are_told_apart_exactly() {
    let mut frame = Frame::new(0);
    frame.set_var("var1", number(2.0));
    frame.set_var("var2", number(3.0));
    assert_eq!(frame.get_var("var1"), number(2.0));
    assert_eq!(frame.get_var("var2"), number(3.0));
    assert_eq!(frame.get_var("var"), number(0.0));
    assert_eq!(frame.get_var("VAR1"), number(0.0));
}

#[test]
fn a_new_frame_is_empty() {
    let frame = Frame::new(-3);
    assert!(frame.vars.is_empty());
    assert_eq!(frame.return_address, -3);
}
