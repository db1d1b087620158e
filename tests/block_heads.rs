use closure::{decimal_string, head_message, next_step, HeadEvent, HeadStep};

#[test]
fn head_line_carries_block_number() {
    assert_eq!(head_message(0), "BLOCK EVENT #0");
    assert_eq!(head_message(12345), "BLOCK EVENT #12345");
    assert_eq!(head_message(u64::MAX), "BLOCK EVENT #18446744073709551615");
}

#[test]
fn decimal_has_no_leading_zeros() {
    assert_eq!(decimal_string(7), "7");
    assert_eq!(decimal_string(10), "10");
    assert_eq!(decimal_string(1000000), "1000000");
}

#[test]
fn each_head_is_printed() {
    assert_eq!(
        next_step(HeadEvent::Head(42)),
        HeadStep::Print("BLOCK EVENT #42".to_string())
    );
}

#[test]
fn failure_or_end_stops_the_loop() {
    assert_eq!(next_step(HeadEvent::Failed), HeadStep::Stop);
    assert_eq!(next_step(HeadEvent::Ended), HeadStep::Stop);
}
