use sysmon::process::{cpu_reading_is_nan, sort_by_cpu, uses_more_cpu};
use sysmon::ProcessInfo;

fn proc_with(pid: u32, cpu: f32) -> ProcessInfo {
    ProcessInfo { pid, name: format!("p{}", pid), cpu_bits: cpu.to_bits(), memory: pid as u64 * 1024 }
}

fn pids(v: &[ProcessInfo]) -> Vec<u32> {
    v.iter().map(|p| p.pid).collect()
}

#[test]
fn sorts_descending_by_cpu() {
    let mut v = vec![proc_with(1, 0.5), proc_with(2, 12.0), proc_with(3, 3.25), proc_with(4, 99.9)];
    sort_by_cpu(&mut v);
    assert_eq!(pids(&v), vec![4, 2, 3, 1]);
    for w in v.windows(2) {
        assert!(f32::from_bits(w[0].cpu_bits) >= f32::from_bits(w[1].cpu_bits));
    }
}

#[test]
fn equal_cpu_keeps_enumeration_order() {
    let mut v = vec![proc_with(7, 1.0), proc_with(3, 5.0), proc_with(9, 1.0), proc_with(1, 5.0), proc_with(4, 1.0)];
    sort_by_cpu(&mut v);
    assert_eq!(pids(&v), vec![3, 1, 7, 9, 4]);
}

#[test]
fn both_zeros_compare_equal() {
    let mut v = vec![proc_with(1, -0.0), proc_with(2, 0.0)];
    sort_by_cpu(&mut v);
    assert_eq!(pids(&v), vec![1, 2]);
}

#[test]
fn negative_readings_sort_below_zero() {
    let mut v = vec![proc_with(1, -2.0), proc_with(2, 0.0), proc_with(3, -0.5), proc_with(4, 1.0)];
    sort_by_cpu(&mut v);
    assert_eq!(pids(&v), vec![4, 2, 3, 1]);
}

#[test]
fn sort_of_empty_list_is_empty() {
    let mut v: Vec<ProcessInfo> = Vec::new();
    sort_by_cpu(&mut v);
    assert!(v.is_empty());
}

#[test]
fn nan_reading_keeps_every_entry() {
    let mut v = vec![proc_with(1, 1.0), proc_with(2, f32::NAN), proc_with(3, 4.0)];
    sort_by_cpu(&mut v);
    let mut got = pids(&v);
    got.sort();
    assert_eq!(got, vec![1, 2, 3]);
    assert_eq!(v.len(), 3);
}

#[test]
fn nan_detection() {
    assert!(cpu_reading_is_nan(f32::NAN.to_bits()));
    assert!(cpu_reading_is_nan((-f32::NAN).to_bits()));
    assert!(!cpu_reading_is_nan(f32::INFINITY.to_bits()));
    assert!(!cpu_reading_is_nan(f32::NEG_INFINITY.to_bits()));
    assert!(!cpu_reading_is_nan(37.5f32.to_bits()));
}

#[test]
fn cpu_comparison() {
    assert!(uses_more_cpu(&proc_with(1, 2.0), &proc_with(2, 1.5)));
    assert!(!uses_more_cpu(&proc_with(1, 1.5), &proc_with(2, 2.0)));
    assert!(!uses_more_cpu(&proc_with(1, 2.0), &proc_with(2, 2.0)));
    assert!(!uses_more_cpu(&proc_with(1, f32::NAN), &proc_with(2, 2.0)));
    assert!(!uses_more_cpu(&proc_with(1, 2.0), &proc_with(2, f32::NAN)));
    assert!(uses_more_cpu(&proc_with(1, f32::INFINITY), &proc_with(2, 1.0e30)));
    assert!(uses_more_cpu(&proc_with(1, -1.0), &proc_with(2, -3.0)));
}
