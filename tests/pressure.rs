use cgroupv2::cpu::Cpu;
use cgroupv2::error::CGroupError;
use cgroupv2::memory::Memory;
use cgroupv2::psi::{CPUPressure, MemoryPressure, PSIMetric};

fn avg(text: &Option<String>) -> f32 {
    text.as_deref().unwrap_or("0").parse::<f32>().unwrap()
}

#[test]
fn cpu_pressure_some_line() {
    let cpu = Cpu::new(String::from("/sys/fs/cgroup/test"));
    let p = cpu.pressure("some avg10=0.00 avg60=1.50 avg300=0.00 total=42\n").unwrap();
    assert_eq!(p.some.key, "some");
    assert_eq!(avg(&p.some.avg60), 1.5);
    assert_eq!(avg(&p.some.avg10), 0.0);
    assert_eq!(p.some.avg60.as_deref(), Some("1.50"));
    assert_eq!(p.some.total, 42);
}

#[test]
fn cpu_pressure_errors() {
    let cpu = Cpu::new(String::from("/c"));
    assert_eq!(cpu.pressure(""), Err(CGroupError::EmptyFileErr));
    let text = "some avg10=0.00 total=x\n";
    assert_eq!(cpu.pressure(text), Err(CGroupError::UnknownFieldErr(text.to_string())));
    let text = "some avg10\n";
    assert_eq!(cpu.pressure(text), Err(CGroupError::UnknownFieldErr(text.to_string())));
    assert_eq!(CPUPressure::from_str("   "), Err(CGroupError::UnknownFieldErr("   ".to_string())));
}

#[test]
fn memory_pressure_both_lines() {
    let memory = Memory::new(String::from("/m"));
    let text = "some avg10=0.00 avg60=0.00 avg300=0.00 total=0\nfull avg10=0.25 avg60=0.00 avg300=0.00 total=7\n";
    let p = memory.pressure(text).unwrap();
    assert_eq!(p.some.key, "some");
    assert_eq!(p.some.total, 0);
    assert_eq!(p.full.key, "full");
    assert_eq!(avg(&p.full.avg10), 0.25);
    assert_eq!(p.full.total, 7);
    let only_some = MemoryPressure::from_str("some total=3\n").unwrap();
    assert_eq!(only_some.some.total, 3);
    assert_eq!(only_some.some.avg10, None);
    assert_eq!(only_some.full.key, "");
    assert_eq!(memory.pressure(""), Err(CGroupError::EmptyFileErr));
    assert_eq!(
        memory.pressure("some total=1\nfull avg10\n"),
        Err(CGroupError::UnknownFieldErr("full avg10".to_string()))
    );
    assert_eq!(
        MemoryPressure::from_str("full total=x\n"),
        Err(CGroupError::UnknownFieldErr("x".to_string()))
    );
}

#[test]
fn psi_metric_set_fields() {
    let mut m = PSIMetric::from_str("full").unwrap();
    assert_eq!(m.set("avg300", "2.00"), Ok(()));
    assert_eq!(m.set("total", "9"), Ok(()));
    assert_eq!(m.set("other", "x"), Ok(()));
    assert_eq!(m.set("total", "-1"), Err(CGroupError::UnknownFieldErr("-1".to_string())));
    assert_eq!(m.avg300.as_deref(), Some("2.00"));
    assert_eq!(m.total, 9);
    assert_eq!(
        PSIMetric::from_str("some avg10=0.00 total=x"),
        Err(CGroupError::UnknownFieldErr("x".to_string()))
    );
}
