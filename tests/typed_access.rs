use std::cell::Cell;

use proc_memory::outcome::{exact_transfer, settle_read, settle_sequence, settle_validated};
use proc_memory::{Flat, LoopbackTarget, ProcError, ProcT};

const BASE: usize = 0x7FF4_9E87_2000;

fn target() -> LoopbackTarget {
    LoopbackTarget::new(4242, BASE, 64)
}

#[test]
fn read_write_read_u64_scenario() {
    let mut p = target();
    assert_eq!(p.write(BASE + 8, &100u64), (true, 8));
    assert_eq!(p.read::<u64>(BASE + 8), Some(100));
    assert_eq!(p.write(BASE + 8, &180u64), (true, 8));
    assert_eq!(p.read::<u64>(BASE + 8), Some(180));
}

#[test]
fn round_trip_each_shape() {
    let mut p = target();
    assert_eq!(p.write(BASE, &0xABu8), (true, 1));
    assert_eq!(p.read::<u8>(BASE), Some(0xAB));
    assert_eq!(p.write(BASE + 2, &0xBEEFu16), (true, 2));
    assert_eq!(p.read::<u16>(BASE + 2), Some(0xBEEF));
    assert_eq!(p.write(BASE + 4, &0xDEAD_BEEFu32), (true, 4));
    assert_eq!(p.read::<u32>(BASE + 4), Some(0xDEAD_BEEF));
    assert_eq!(p.write(BASE + 8, &-123_456i32), (true, 4));
    assert_eq!(p.read::<i32>(BASE + 8), Some(-123_456));
    assert_eq!(p.write(BASE + 16, &i64::MIN), (true, 8));
    assert_eq!(p.read::<i64>(BASE + 16), Some(i64::MIN));
    assert_eq!(p.write(BASE + 56, &u64::MAX), (true, 8));
    assert_eq!(p.read::<u64>(BASE + 56), Some(u64::MAX));
}

#[test]
fn bytes_are_stored_least_significant_first() {
    let mut p = target();
    assert_eq!(p.write(BASE, &0x0102_0304u32), (true, 4));
    assert_eq!(p.memory[0..4].to_vec(), vec![4u8, 3, 2, 1]);
    assert_eq!(0x0102u16.to_bytes(), vec![2u8, 1]);
    assert_eq!((-2i32).to_bytes(), vec![0xFEu8, 0xFF, 0xFF, 0xFF]);
}

#[test]
fn fresh_target_reads_zero() {
    let p = target();
    assert_eq!(p.read::<u64>(BASE), Some(0));
    assert_eq!(p.pid(), 4242);
}

#[test]
fn unmapped_address_fails() {
    let mut p = target();
    assert_eq!(p.read::<u64>(0), None);
    assert_eq!(p.read_valid(0, |_: &u64| true), None);
    assert_eq!(p.read_vec(0, 2, || 0u64), None);
    assert_eq!(p.write(0, &1u64), (false, 0));
    assert_eq!(p.memory, vec![0u8; 64]);
}

#[test]
fn range_past_the_end_fails_whole() {
    let mut p = target();
    assert_eq!(p.write(BASE + 60, &7u64), (false, 0));
    assert_eq!(p.memory, vec![0u8; 64]);
    assert_eq!(p.read::<u64>(BASE + 60), None);
    assert_eq!(p.read::<u32>(BASE + 60), Some(0));
    assert_eq!(p.read_vec(BASE + 48, 3, || 0u64), None);
}

#[test]
fn rejecting_validator_never_yields() {
    let mut p = target();
    assert_eq!(p.write(BASE, &5i64), (true, 8));
    assert_eq!(p.read_valid(BASE, |_: &i64| false), None);
    assert_eq!(p.read_valid(BASE, |v: &i64| *v > 0), Some(5));
    assert_eq!(p.read_valid(BASE, |v: &i64| *v < 0), None);
}

#[test]
fn validator_not_called_on_failed_read() {
    let p = target();
    let calls = Cell::new(0usize);
    let r = p.read_valid(0, |_: &u64| {
        calls.set(calls.get() + 1);
        true
    });
    assert_eq!(r, None);
    assert_eq!(calls.get(), 0);
}

#[test]
fn read_vec_zero_count_is_empty() {
    let p = target();
    let calls = Cell::new(0usize);
    let r = p.read_vec(BASE, 0, || {
        calls.set(calls.get() + 1);
        9u64
    });
    assert_eq!(r, Some(Vec::new()));
    assert_eq!(calls.get(), 0);
    assert_eq!(p.read_vec(0, 0, || 9u64), Some(Vec::new()));
}

#[test]
fn read_vec_calls_factory_once_per_element() {
    let mut p = target();
    assert_eq!(p.write(BASE, &-1i64), (true, 8));
    assert_eq!(p.write(BASE + 8, &2i64), (true, 8));
    let calls = Cell::new(0usize);
    let r = p.read_vec(BASE, 3, || {
        calls.set(calls.get() + 1);
        77i64
    });
    assert_eq!(calls.get(), 3);
    assert_eq!(r, Some(vec![-1i64, 2, 0]));
}

#[test]
fn read_vec_factory_runs_even_when_transfer_fails() {
    let p = target();
    let calls = Cell::new(0usize);
    let r = p.read_vec(0, 4, || {
        calls.set(calls.get() + 1);
        0u32
    });
    assert_eq!(r, None);
    assert_eq!(calls.get(), 4);
}

#[test]
fn settle_read_requires_full_transfer() {
    let buf = vec![100u8, 0, 0, 0, 0, 0, 0, 0];
    assert_eq!(settle_read::<u64>((true, 8), &buf), Ok(100));
    assert_eq!(settle_read::<u64>((true, 7), &buf), Err(ProcError::TransferFailed));
    assert_eq!(settle_read::<u64>((false, 8), &buf), Err(ProcError::TransferFailed));
    assert_eq!(settle_read::<u32>((true, 4), &buf), Err(ProcError::TransferFailed));
}

#[test]
fn settle_validated_distinguishes_kinds() {
    let buf = vec![3u8, 0];
    assert_eq!(settle_validated::<u16, _>((true, 2), &buf, |v: &u16| *v == 3), Ok(3));
    assert_eq!(
        settle_validated::<u16, _>((true, 2), &buf, |_: &u16| false),
        Err(ProcError::ValidationRejected)
    );
    assert_eq!(
        settle_validated::<u16, _>((true, 1), &buf, |_: &u16| true),
        Err(ProcError::TransferFailed)
    );
}

#[test]
fn settle_sequence_overwrites_prefill() {
    let buf = vec![1u8, 0, 2, 0, 3, 0];
    assert_eq!(settle_sequence::<u16>((true, 6), &buf, vec![9, 9, 9]), Ok(vec![1u16, 2, 3]));
    assert_eq!(
        settle_sequence::<u16>((true, 4), &buf, vec![9, 9, 9]),
        Err(ProcError::TransferFailed)
    );
    assert_eq!(
        settle_sequence::<u16>((true, 6), &buf, vec![9, 9]),
        Err(ProcError::TransferFailed)
    );
}

#[test]
fn exact_transfer_is_all_or_nothing() {
    assert_eq!(exact_transfer(true, 16), (true, 16));
    assert_eq!(exact_transfer(false, 16), (false, 0));
}

#[test]
fn read_vec_oversized_count_is_none_without_calls() {
    let p = target();
    let calls = Cell::new(0usize);
    let r = p.read_vec(BASE, usize::MAX / 4, || {
        calls.set(calls.get() + 1);
        0u64
    });
    assert_eq!(r, None);
    assert_eq!(calls.get(), 0);
}
