use machine_id::source::{CTL_KERN, KERN_HOSTUUID};
use machine_id::unix::text_until_nul;
use machine_id::{host_uuid, sysctl, AccessError, KernelReply, Location, Platform, Source};
use std::cell::Cell;

fn reply(status: i32, len: usize, bytes: &[u8]) -> KernelReply {
    KernelReply { status, len, bytes: bytes.to_vec() }
}

#[test]
fn sysctl_asks_for_the_length_and_then_for_the_value() {
    let calls = Cell::new(Vec::new());
    let kernel = |mib: [i32; 3], room: Option<usize>| {
        let mut seen = calls.take();
        seen.push((mib, room));
        calls.set(seen);
        match room {
            None => reply(0, 5, b""),
            Some(n) => reply(0, n, b"hello"),
        }
    };
    assert_eq!(sysctl([1, 2, 3], kernel), Ok(b"hello".to_vec()));
    assert_eq!(calls.take(), vec![([1, 2, 3], None), ([1, 2, 3], Some(5))]);
}

#[test]
fn sysctl_reports_the_code_of_the_first_call_as_it_came() {
    let calls = Cell::new(0u32);
    let kernel = |_: [i32; 2], room: Option<usize>| {
        calls.set(calls.get() + 1);
        match room {
            None => reply(-1, 0, b""),
            Some(_) => reply(0, 3, b"abc"),
        }
    };
    assert_eq!(sysctl([1, 36], kernel), Err(AccessError::Os(-1)));
    assert_eq!(calls.get(), 1);
}

#[test]
fn sysctl_reports_the_code_of_the_second_call_as_it_came() {
    let kernel = |_: [i32; 2], room: Option<usize>| match room {
        None => reply(0, 3, b""),
        Some(_) => reply(12, 3, b"abc"),
    };
    assert_eq!(sysctl([1, 36], kernel), Err(AccessError::Os(12)));
}

#[test]
fn sysctl_keeps_the_reported_length() {
    let kernel = |_: [i32; 1], room: Option<usize>| match room {
        None => reply(0, 8, b""),
        Some(_) => reply(0, 3, b"abcdefgh"),
    };
    assert_eq!(sysctl([7], kernel), Ok(b"abc".to_vec()));
    let kernel = |_: [i32; 1], room: Option<usize>| match room {
        None => reply(0, 0, b""),
        Some(n) => reply(0, n, b""),
    };
    assert_eq!(sysctl([7], kernel), Ok(Vec::new()));
}

#[test]
fn kernel_reply_steps() {
    assert_eq!(reply(0, 37, b"").needed(), Ok(37));
    assert_eq!(reply(22, 37, b"").needed(), Err(AccessError::Os(22)));
    assert_eq!(reply(-1, 0, b"").needed(), Err(AccessError::Os(-1)));
    assert_eq!(reply(0, 2, b"abc").into_value(), Ok(b"ab".to_vec()));
    assert_eq!(reply(0, 3, b"abc").into_value(), Ok(b"abc".to_vec()));
    assert_eq!(reply(0, 9, b"abc").into_value(), Ok(b"abc".to_vec()));
    assert_eq!(reply(1, 3, b"abc").into_value(), Err(AccessError::Os(1)));
}

#[test]
fn text_ends_at_the_first_nul() {
    assert_eq!(text_until_nul(b"abc\0def\0"), "abc");
    assert_eq!(text_until_nul(b"abc"), "abc");
    assert_eq!(text_until_nul(b"\0abc"), "");
    assert_eq!(text_until_nul(b""), "");
    assert_eq!(
        text_until_nul(b"4c4c4544-0046-3410-8051-b3c04f325233\0"),
        "4c4c4544-0046-3410-8051-b3c04f325233"
    );
}

#[test]
fn bytes_are_taken_as_character_codes() {
    assert_eq!(text_until_nul(&[0x41, 0xe9, 0xff, 0x7f, 0x80]), "A\u{e9}\u{ff}\u{7f}\u{80}");
}

#[test]
fn host_uuid_reads_the_selector_of_the_host_uuid() {
    let kernel = |mib: [i32; 2], room: Option<usize>| {
        assert_eq!(mib, [1, 0x24]);
        match room {
            None => reply(0, 37, b""),
            Some(n) => {
                assert_eq!(n, 37);
                reply(0, 37, b"4c4c4544-0046-3410-8051-b3c04f325233\0")
            }
        }
    };
    assert_eq!(host_uuid(kernel), Ok("4c4c4544-0046-3410-8051-b3c04f325233".to_string()));
}

#[test]
fn host_uuid_passes_the_error_code_on() {
    assert_eq!(
        host_uuid(|_: [i32; 2], _: Option<usize>| reply(-1, 0, b"")),
        Err(AccessError::Os(-1))
    );
}

#[test]
fn selector_constants() {
    assert_eq!(CTL_KERN, 1);
    assert_eq!(KERN_HOSTUUID, 0x24);
    assert_eq!(KERN_HOSTUUID, 36);
}

#[test]
fn locations_of_the_stores() {
    match Source::MachineGuid.location() {
        Location::RegistryValue { key, name } => {
            assert_eq!(key, "SOFTWARE\\Microsoft\\Cryptography");
            assert_eq!(name, "MachineGuid");
        }
        other => panic!("{:?}", other),
    }
    match Source::MachineIdFile.location() {
        Location::File { path } => assert_eq!(path, "/etc/machine-id"),
        other => panic!("{:?}", other),
    }
    match Source::DbusMachineIdFile.location() {
        Location::File { path } => assert_eq!(path, "/var/lib/dbus/machine-id"),
        other => panic!("{:?}", other),
    }
    match Source::KernelHostUuid.location() {
        Location::KernelControl { selector } => assert_eq!(selector, [1, 0x24]),
        other => panic!("{:?}", other),
    }
    match Source::HostIdFile.location() {
        Location::File { path } => assert_eq!(path, "/etc/hostid"),
        other => panic!("{:?}", other),
    }
    match Source::PlatformUuid.location() {
        Location::RegistryProperty { entry, name } => {
            assert_eq!(entry, "IOService:/");
            assert_eq!(name, "IOPlatformUUID");
        }
        other => panic!("{:?}", other),
    }
}

#[test]
fn stores_of_each_platform() {
    assert_eq!(Platform::Windows.first_source(), Source::MachineGuid);
    assert_eq!(Platform::Windows.source_at(0), Some(Source::MachineGuid));
    assert_eq!(Platform::Windows.source_at(1), None);
    assert_eq!(Platform::Linux.first_source(), Source::MachineIdFile);
    assert_eq!(Platform::Linux.source_at(0), Some(Source::MachineIdFile));
    assert_eq!(Platform::Linux.source_at(1), Some(Source::DbusMachineIdFile));
    assert_eq!(Platform::Linux.source_at(2), None);
    assert_eq!(Platform::Unix.first_source(), Source::KernelHostUuid);
    assert_eq!(Platform::Unix.source_at(0), Some(Source::KernelHostUuid));
    assert_eq!(Platform::Unix.source_at(1), Some(Source::HostIdFile));
    assert_eq!(Platform::Unix.source_at(2), None);
    assert_eq!(Platform::MacOs.first_source(), Source::PlatformUuid);
    assert_eq!(Platform::MacOs.source_at(0), Some(Source::PlatformUuid));
    assert_eq!(Platform::MacOs.source_at(1), None);
    assert_eq!(Platform::MacOs.source_at(usize::MAX), None);
}
