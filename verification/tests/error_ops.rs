use arrayvec::ArrayVec;

#[test]
fn element_recovers_the_rejected_value() {
    let mut v: ArrayVec<String> = ArrayVec::new(0);
    let err = v.push(String::from("kept")).unwrap_err();
    assert_eq!(err.element(), "kept");
}

#[test]
fn simplify_discards_the_payload() {
    let mut v: ArrayVec<i32> = ArrayVec::new(0);
    let a = v.push(1).unwrap_err().simplify();
    let b = v.push(2).unwrap_err().simplify();
    assert_eq!(a, b);
}

#[test]
fn description_names_the_failure() {
    let mut v: ArrayVec<i32> = ArrayVec::new(0);
    let err = v.push(1).unwrap_err();
    assert_eq!(err.description(), "insufficient capacity");
    assert_eq!(err.simplify().description(), "insufficient capacity");
}

#[test]
fn capacity_errors_compare_by_element() {
    let mut v: ArrayVec<i32> = ArrayVec::new(0);
    let a = v.push(5).unwrap_err();
    let b = v.push(5).unwrap_err();
    let c = v.push(6).unwrap_err();
    assert_eq!(a, b);
    assert_ne!(a, c);
}
