use brush::send::WasmNotSend;

fn takes_sendable<T: WasmNotSend>(v: T) -> T {
    v
}

#[test]
fn sendable_values_qualify() {
    assert_eq!(takes_sendable(5u32), 5);
    assert_eq!(takes_sendable(String::from("x")), "x");
}
