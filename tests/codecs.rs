use cgroupv2::cgroup::{CGroup, CGroupEvent, CGroupStat, CGroupType, Freeze};
use cgroupv2::common::Max;
use cgroupv2::controller::ControllerType;
use cgroupv2::cpu::{CPUMax, Cpu, Stat};
use cgroupv2::error::{write_outcome, CGroupError};
use cgroupv2::io::{Ctrl, DeviceNumber, IO};
use cgroupv2::manager::{get_delegate_path, Manager, DEFAULT_MOUNT_POINT};
use cgroupv2::memory::{Event, Memory, SwapEvent};
use cgroupv2::util::{
    read_flat_keyed_file_map, read_nested_keyed_file_to_map, read_single_value, read_value,
};
use cgroupv2::FieldValue;

fn group() -> CGroup {
    CGroup::new(String::from("/sys/fs/cgroup/test"))
}

fn malformed(text: &str) -> CGroupError {
    CGroupError::UnknownFieldErr(text.to_string())
}

#[test]
fn it_works() {
    assert_eq!(2 + 2, 4);
}

#[test]
fn enabled_controllers() {
    let manager = Manager::delegated(DEFAULT_MOUNT_POINT, 1000);
    let c_group = manager.cgroup();
    let result = c_group.controllers("cpu io memory pids\n");
    assert_eq!(
        result,
        vec![ControllerType::CPU, ControllerType::IO, ControllerType::MEMORY, ControllerType::PIDS]
    );
}

#[test]
fn max_round_trips() {
    for v in [Max::Max, Max::Val(0), Max::Val(15), Max::Val(8192), Max::Val(u32::MAX)] {
        let text = v.to_string();
        assert_eq!(Max::parse(&text), Some(v));
    }
    assert_eq!(Max::Val(15).to_string(), "15");
    assert_eq!(Max::Max.to_string(), "max");
}

#[test]
fn controller_round_trips() {
    for c in ControllerType::all() {
        assert_eq!(ControllerType::parse(&c.to_string()), Some(c));
    }
    assert_eq!(ControllerType::CPUSET.to_string(), "cpuset");
    assert_eq!(ControllerType::all().len(), 5);
}

#[test]
fn cgroup_type_domain_and_bogus() {
    let cg = group();
    assert_eq!(cg.cg_type("domain\n"), Ok(CGroupType::Domain));
    assert_eq!(cg.cg_type("domain threaded\n"), Ok(CGroupType::DomainThreaded));
    assert_eq!(cg.cg_type("domain invalid\n"), Ok(CGroupType::DomainInvalid));
    assert_eq!(cg.cg_type("threaded\n"), Ok(CGroupType::Threaded));
    assert_eq!(cg.cg_type("bogus\n"), Err(malformed("bogus\n")));
    assert_eq!(cg.cg_type("domain"), Ok(CGroupType::Domain));
    assert_eq!(cg.cg_type("domain\nfoo"), Err(malformed("domain\nfoo")));
    assert_eq!(cg.cg_type("domain\n\n"), Err(malformed("domain\n\n")));
}

#[test]
fn cgroup_events_decode() {
    let cg = group();
    assert_eq!(
        cg.events("populated 1\nfrozen 0\n"),
        Ok(CGroupEvent { populated: true, frozen: false })
    );
    assert_eq!(
        cg.events("populated 0\nfrozen 0\n"),
        Ok(CGroupEvent { populated: false, frozen: false })
    );
    assert_eq!(cg.events("populated x\n"), Err(malformed("populated x\n")));
    assert_eq!(cg.events("populated\n"), Err(malformed("populated\n")));
    assert_eq!(
        cg.events("unknown x\nfrozen 1\n"),
        Ok(CGroupEvent { populated: false, frozen: true })
    );
}

#[test]
fn controllers_keep_file_order_and_drop_unknown() {
    let cg = group();
    assert_eq!(
        cg.controllers("cpu io memory\n"),
        vec![ControllerType::CPU, ControllerType::IO, ControllerType::MEMORY]
    );
    assert_eq!(
        cg.controllers("cpu bogus memory\n"),
        vec![ControllerType::CPU, ControllerType::MEMORY]
    );
    assert_eq!(cg.subtree_control(""), vec![]);
}

#[test]
fn subtree_control_write_line() {
    let cg = group();
    let w = cg.set_subtree_control(
        vec![ControllerType::MEMORY, ControllerType::PIDS],
        Some(vec![ControllerType::IO]),
    );
    assert_eq!(w.content, "+memory +pids -io");
    assert_eq!(w.path, "/sys/fs/cgroup/test/cgroup.subtree_control");
    let w = cg.set_subtree_control(vec![ControllerType::CPU], None);
    assert_eq!(w.content, "+cpu");
    let w = cg.set_subtree_control(vec![ControllerType::CPU], Some(vec![]));
    assert_eq!(w.content, "+cpu");
    let w = cg.set_subtree_control(vec![], Some(vec![ControllerType::IO]));
    assert_eq!(w.content, "-io");
}

#[test]
fn io_stat_one_device() {
    let io = IO::new(String::from("/sys/fs/cgroup/test"));
    let stat = io.stat("8:0 rbytes=512 wbytes=0 rios=1 wios=0 dbytes=0 dios=0\n").unwrap();
    assert_eq!(stat.len(), 1);
    assert_eq!(stat[0].0, DeviceNumber { maj: 8, min: 0 });
    assert_eq!(
        stat[0].1,
        cgroupv2::io::Stat { rbytes: 512, wbytes: 0, rios: 1, wios: 0, dbytes: 0, dios: 0 }
    );
}

#[test]
fn io_stat_devices_and_errors() {
    let io = IO::new(String::from("/d"));
    let text = "8:0 rbytes=1 wbytes=2\n8:16 rios=3 other=x\n8:0 dios=4\n";
    let stat = io.stat(text).unwrap();
    assert_eq!(stat.len(), 2);
    assert_eq!(stat[0].0, DeviceNumber { maj: 8, min: 0 });
    assert_eq!(stat[0].1.dios, 4);
    assert_eq!(stat[0].1.rbytes, 0);
    assert_eq!(stat[1].0, DeviceNumber { maj: 8, min: 16 });
    assert_eq!(stat[1].1.rios, 3);
    assert_eq!(io.stat("8-0 rbytes=1\n"), Err(malformed("8-0")));
    assert_eq!(io.stat("8:x rbytes=1\n"), Err(malformed("8:x")));
    assert_eq!(io.stat("8:0 rbytes=x\n"), Err(malformed("x")));
    assert_eq!(io.stat("8:0 wios=1 rbytes\n"), Err(malformed("wios=1 rbytes")));
    assert_eq!(io.stat("8:0\n"), Err(malformed("8:0\n")));
    assert_eq!(io.stat(""), Ok(vec![]));
}

#[test]
fn empty_file_is_empty_file_error() {
    let cg = group();
    let cpu = cg.cpu();
    let memory = cg.memory();
    assert_eq!(cg.cg_type(""), Err(CGroupError::EmptyFileErr));
    assert_eq!(cg.max_depth(""), Err(CGroupError::EmptyFileErr));
    assert_eq!(cg.max_descendants(""), Err(CGroupError::EmptyFileErr));
    assert_eq!(cg.freeze(""), Err(CGroupError::EmptyFileErr));
    assert_eq!(cpu.weight(""), Err(CGroupError::EmptyFileErr));
    assert_eq!(cpu.weight_nice(""), Err(CGroupError::EmptyFileErr));
    assert_eq!(cpu.max(""), Err(CGroupError::EmptyFileErr));
    assert_eq!(memory.current(""), Err(CGroupError::EmptyFileErr));
    assert_eq!(memory.max(""), Err(CGroupError::EmptyFileErr));
    assert_eq!(memory.oom_group(""), Err(CGroupError::EmptyFileErr));
    assert_eq!(read_single_value::<u64>(""), Err(CGroupError::EmptyFileErr));
    assert_eq!(read_value::<u64>(""), Err(CGroupError::EmptyFileErr));
}

#[test]
fn zero_byte_write_is_its_own_error() {
    assert_eq!(write_outcome(Ok(0)), Err(CGroupError::WriteZeroByteErr));
    assert_eq!(write_outcome(Ok(4)), Ok(()));
    assert_eq!(
        write_outcome(Err(std::io::ErrorKind::PermissionDenied)),
        Err(CGroupError::FSErr(std::io::ErrorKind::PermissionDenied))
    );
    assert_ne!(write_outcome(Ok(0)), Err(CGroupError::FSErr(std::io::ErrorKind::WriteZero)));
}

#[test]
fn cgroup_scalar_files() {
    let cg = group();
    assert_eq!(cg.max_descendants("max\n"), Ok(Max::Max));
    assert_eq!(cg.max_descendants("15\n"), Ok(Max::Val(15)));
    assert_eq!(cg.max_depth("16\n"), Ok(Max::Val(16)));
    assert_eq!(cg.max_depth("-1\n"), Err(malformed("-1")));
    assert_eq!(cg.max_descendants("many\n"), Err(malformed("many")));
    assert_eq!(cg.freeze("0\n"), Ok(Freeze(false)));
    assert_eq!(cg.freeze("1\n"), Ok(Freeze(true)));
    assert_eq!(cg.freeze("2\n"), Err(malformed("2")));
    assert_eq!(
        cg.stat("nr_descendants 2\nnr_dying_descendants 1\n"),
        Ok(CGroupStat { nr_descendants: 2, nr_dying_descendants: 1 })
    );
    assert_eq!(cg.procs("1234\n5678\n"), vec![1234, 5678]);
    assert_eq!(cg.threads(""), vec![]);
}

#[test]
fn cgroup_writes() {
    let cg = group();
    let w = cg.add_pid(1234);
    assert_eq!(w.path, "/sys/fs/cgroup/test/cgroup.procs");
    assert_eq!(w.content, "1234");
    assert_eq!(cg.add_tid(7).path, "/sys/fs/cgroup/test/cgroup.threads");
    assert_eq!(cg.set_max_descendants(15).content, "15");
    assert_eq!(cg.set_max_depth(16).path, "/sys/fs/cgroup/test/cgroup.max.depth");
    assert_eq!(cg.set_freeze().content, "1");
    assert_eq!(cg.file("cgroup.type"), "/sys/fs/cgroup/test/cgroup.type");
    assert_eq!(CGroup::new(String::from("/a/")).file("b"), "/a/b");
}

#[test]
fn cpu_files() {
    let cpu = Cpu::new(String::from("/sys/fs/cgroup/test"));
    assert_eq!(
        cpu.stat("usage_usec 10\nuser_usec 4\nsystem_usec 6\n"),
        Ok(Stat {
            usage_usec: 10,
            user_usec: 4,
            system_usec: 6,
            nr_periods: 0,
            nr_throttled: 0,
            throttled_usec: 0
        })
    );
    assert_eq!(cpu.weight("100\n"), Ok(100));
    assert_eq!(cpu.weight("70000\n"), Err(malformed("70000\n")));
    assert_eq!(cpu.weight_nice("-1\n"), Ok(-1));
    assert_eq!(cpu.weight_nice("-128\n"), Ok(-128));
    assert_eq!(cpu.max("max 100000\n"), Ok(CPUMax { max: Max::Max, period: Some(100000) }));
    assert_eq!(cpu.max("max\n"), Ok(CPUMax { max: Max::Max, period: None }));
    assert_eq!(cpu.max("50000 x\n"), Err(malformed("50000 x\n")));
    assert_eq!(cpu.set_weight(20).content, "20");
    assert_eq!(cpu.set_weight(20).path, "/sys/fs/cgroup/test/cpu.weight");
    assert_eq!(cpu.set_weight_nice(-1).content, "-1");
    assert_eq!(cpu.set_max(u32::MAX, None).content, "4294967295");
    assert_eq!(cpu.set_max(50000, Some(100000)).content, "50000 100000");
}

#[test]
fn memory_files() {
    let memory = Memory::new(String::from("/m"));
    assert_eq!(memory.current("8192\n"), Ok(8192));
    assert_eq!(memory.max("max\n"), Ok(Max::Max));
    assert_eq!(memory.swap_high("8192\n"), Ok(Max::Val(8192)));
    assert_eq!(memory.swap_max("max\n"), Ok(Max::Max));
    assert_eq!(memory.oom_group("1\n"), Ok(1));
    assert_eq!(memory.set_min(4096).content, "4096");
    assert_eq!(memory.set_max(8192).path, "/m/memory.max");
    assert_eq!(memory.set_swap_max(8192).path, "/m/memory.swap.max");
    assert_eq!(
        memory.events("low 1\nhigh 2\nmax 3\noom 4\noom_kill 5\n"),
        Ok(Event { low: 1, high: 2, max: 3, oom: 4, oom_kill: 5 })
    );
    assert_eq!(
        memory.swap_events("high 0\nmax 0\nfail 0\n"),
        Ok(SwapEvent { high: 0, max: 0, fail: 0 })
    );
    let stat = memory.stat("anon 4096\nfile 0\n\nignored line\n").unwrap();
    assert_eq!(stat, vec![(String::from("anon"), 4096), (String::from("file"), 0)]);
    assert_eq!(memory.stat("anon x\n"), Err(malformed("anon x\n")));
}

#[test]
fn flat_map_later_lines_override() {
    let map = read_flat_keyed_file_map::<u64>("a 1\nb 2\na 3\n").unwrap();
    assert_eq!(map, vec![(String::from("a"), 3), (String::from("b"), 2)]);
}

#[test]
fn nested_two_level_table() {
    let text = "8:0 1:1=10 1:2=20\n   \n9:1 1:1=5\n";
    let table = read_nested_keyed_file_to_map::<DeviceNumber, DeviceNumber, u64>(text).unwrap();
    assert_eq!(table.len(), 2);
    assert_eq!(table[0].0, DeviceNumber { maj: 8, min: 0 });
    assert_eq!(
        table[0].1,
        vec![(DeviceNumber { maj: 1, min: 1 }, 10), (DeviceNumber { maj: 1, min: 2 }, 20)]
    );
    assert_eq!(table[1].1, vec![(DeviceNumber { maj: 1, min: 1 }, 5)]);
    assert_eq!(
        read_nested_keyed_file_to_map::<DeviceNumber, DeviceNumber, u64>("8:0 1:1\n"),
        Err(malformed("8:0 1:1\n"))
    );
}

#[test]
fn integer_tokens() {
    assert_eq!(u8::parse("255"), Some(255));
    assert_eq!(u8::parse("256"), None);
    assert_eq!(u32::parse("+5"), Some(5));
    assert_eq!(u32::parse("-0"), None);
    assert_eq!(u32::parse(""), None);
    assert_eq!(u32::parse("+"), None);
    assert_eq!(i32::parse("-2147483648"), Some(i32::MIN));
    assert_eq!(i8::parse("128"), None);
    assert_eq!(u64::parse("18446744073709551615"), Some(u64::MAX));
    assert_eq!(u64::parse("18446744073709551616"), None);
    assert_eq!(bool::parse("1"), Some(true));
    assert_eq!(Ctrl::parse("auto"), Some(Ctrl::Auto));
    assert_eq!(Ctrl::parse("manual"), None);
    assert_eq!(DeviceNumber::parse("259:3"), Some(DeviceNumber { maj: 259, min: 3 }));
    assert_eq!(DeviceNumber::parse("259"), None);
}

#[test]
fn delegated_path() {
    assert_eq!(
        get_delegate_path("/sys/fs/cgroup/", 1000),
        "/sys/fs/cgroup//user.slice/user-1000.slice/user@1000.service/"
    );
    let m = Manager::delegated("/mnt", 0);
    assert_eq!(m.path(), "/mnt/user.slice/user-0.slice/user@0.service/");
    assert_eq!(m.child("cgv2").path(), "/mnt/user.slice/user-0.slice/user@0.service/cgv2");
}

#[test]
fn cost_qos_table() {
    let io = IO::new(String::from("/sys/fs/cgroup"));
    let text = "8:16 enable=1 ctrl=user rpct=95.00 rlat=5000 wpct=90.50 wlat=10000 min=50 max=150\n";
    let table = io.cost_qos(text).unwrap();
    assert_eq!(table.len(), 1);
    assert_eq!(table[0].0, DeviceNumber { maj: 8, min: 16 });
    let q = &table[0].1;
    assert_eq!(q.enable, 1);
    assert_eq!(q.ctrl, Ctrl::User);
    assert_eq!(q.rpct.as_deref(), Some("95.00"));
    assert_eq!(q.wpct.as_deref().map(|t| t.parse::<f32>().unwrap()), Some(90.5));
    assert_eq!(q.rlat, 5000);
    assert_eq!(q.wlat, 10000);
    assert_eq!((q.min, q.max), (50, 150));
    assert_eq!(io.cost_qos("8:16 ctrl=manual\n"), Err(malformed("manual")));
    assert_eq!(io.cost_qos("8:16 rlat\n"), Err(malformed("rlat")));
    assert_eq!(io.cost_qos("8:16\n"), Err(malformed("8:16\n")));
    let lenient = io.cost_qos("8:0 other=1 rlat=7\n").unwrap();
    assert_eq!(lenient[0].1.rlat, 7);
    assert_eq!(lenient[0].1.ctrl, Ctrl::Auto);
    assert_eq!(lenient[0].1.rpct, None);
}

#[test]
fn cpu_max_text_reads_back() {
    let cpu = Cpu::new(String::from("/c"));
    for m in [
        CPUMax { max: Max::Max, period: Some(100000) },
        CPUMax { max: Max::Val(u32::MAX), period: None },
        CPUMax { max: Max::Val(0), period: Some(0) },
    ] {
        assert_eq!(cpu.max(&m.to_string()), Ok(m));
    }
}
