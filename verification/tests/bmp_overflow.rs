/// Test that proves overflow occurs with these dimensions on 32-bit
///
/// On 32-bit: 16384 * 16384 * 8 = 2,147,483,648 which is exactly 2^31
/// This fits in u32 but 16384 * 16384 * 32 = 8,589,934,592 overflows
#[test]
fn test_overflow_would_occur_on_32bit() {
    let width: usize = 16384;
    let height: usize = 16384;
    let depth: usize = 32;

    // Simulate what happens on 32-bit by using u32
    let width_32 = width as u32;
    let height_32 = height as u32;
    let depth_32 = depth as u32;

    // The unchecked calculation
    let unchecked_result = width_32.wrapping_mul(height_32).wrapping_mul(depth_32);

    // The checked calculation
    let checked_result = width_32
        .checked_mul(height_32)
        .and_then(|v| v.checked_mul(depth_32));

    println!("width={width}, height={height}, depth={depth}");
    println!("Unchecked (wrapping): {unchecked_result}");
    println!("Checked: {:?}", checked_result);

    assert!(checked_result.is_none(), "Should overflow on 32-bit");
    assert_eq!(unchecked_result, 0, "Wrapping multiplication should produce 0");
}

/// Mathematical proof that overflow occurs on 32-bit
#[test]
fn test_overflow_math_proof() {
    let width: u32 = 16384;
    let height: u32 = 16384;
    let depth: u32 = 32;

    let result = width
        .checked_mul(height)
        .and_then(|v| v.checked_mul(depth));

    assert!(
        result.is_none(),
        "16384 * 16384 * 32 should overflow u32"
    );

    let actual: u64 = (width as u64) * (height as u64) * (depth as u64);
    assert_eq!(actual, 8_589_934_592);
    println!("Overflow proven: {} > u32::MAX ({})", actual, u32::MAX);
}
