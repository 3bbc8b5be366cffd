use machine_id::{AccessError, Chain, Error, MachineId, Outcome, Platform, Source, Step};
use std::cell::Cell;

const HYPHENATED: &str = "4c4c4544-0046-3410-8051-b3c04f325233\n";
const BARE: &str = "abcdef12345678901234567890123456";

fn text(raw: &str) -> Outcome {
    Ok(raw.to_string())
}

fn missing() -> Outcome {
    Err(AccessError::Os(2))
}

fn denied() -> Outcome {
    Err(AccessError::Os(13))
}

fn linux(primary: Outcome, secondary: Outcome) -> impl Fn(Source) -> Outcome {
    move |source| match source {
        Source::MachineIdFile => primary.clone(),
        Source::DbusMachineIdFile => secondary.clone(),
        _ => panic!("no store of Linux: {:?}", source),
    }
}

fn unix(kernel: Outcome, file: Outcome) -> impl Fn(Source) -> Outcome {
    move |source| match source {
        Source::KernelHostUuid => kernel.clone(),
        Source::HostIdFile => file.clone(),
        _ => panic!("no store of the other Unix systems: {:?}", source),
    }
}

#[test]
fn test_get_machine_id() {
    let first = MachineId::new(Platform::Linux, linux(text(HYPHENATED), missing())).unwrap();
    let second = MachineId::new(Platform::Linux, linux(text(HYPHENATED), missing())).unwrap();

    {
        let first = first.to_string();
        println!("Machine id: {first}");
    }

    assert_eq!(first, second);
}

#[test]
fn test_serde() {
    let id = MachineId::new(Platform::Linux, linux(text(HYPHENATED), missing())).unwrap();
    let s = serde_json::to_string(&id.to_string()).unwrap();

    let decoded: String = serde_json::from_str(&s).unwrap();
    let de = MachineId::parse(&decoded).unwrap();
    assert_eq!(id, de);
}

#[test]
fn serialized_form_is_the_canonical_text_as_a_json_string() {
    let id = MachineId::parse(HYPHENATED).unwrap();
    let s = serde_json::to_string(&id.to_string()).unwrap();
    assert_eq!(s, "\"4C4C4544-0046-3410-8051-B3C04F325233\"");
}

#[test]
fn decoding_a_malformed_scalar_fails_as_parsing_does() {
    let decoded: String = serde_json::from_str("\"4c4c4544-0046-3410-8051\"").unwrap();
    assert_eq!(MachineId::parse(&decoded), Err(Error::InvalidUuid));
}

#[test]
fn hyphenated_text_with_newline_resolves_to_upper_case_form() {
    let id = MachineId::new(Platform::Windows, |_| text(HYPHENATED)).unwrap();
    assert_eq!(id.to_string(), "4C4C4544-0046-3410-8051-B3C04F325233");
}

#[test]
fn empty_primary_falls_back_to_secondary() {
    let id = MachineId::new(Platform::Linux, linux(text(""), text(BARE))).unwrap();
    assert_eq!(id.to_string(), "ABCDEF12-3456-7890-1234-567890123456");
}

#[test]
fn missing_primary_falls_back_to_secondary() {
    let id = MachineId::new(Platform::Linux, linux(missing(), text(BARE))).unwrap();
    assert_eq!(id.to_string(), "ABCDEF12-3456-7890-1234-567890123456");
}

#[test]
fn malformed_primary_is_final_and_secondary_is_not_read() {
    let asked = Cell::new(0u32);
    let read = |source: Source| match source {
        Source::MachineIdFile => text("not an identifier\n"),
        _ => {
            asked.set(asked.get() + 1);
            text(BARE)
        }
    };
    assert_eq!(MachineId::new(Platform::Linux, read), Err(Error::InvalidUuid));
    assert_eq!(asked.get(), 0);
}

#[test]
fn usable_primary_is_read_once_and_secondary_never() {
    let primary = Cell::new(0u32);
    let secondary = Cell::new(0u32);
    let read = |source: Source| match source {
        Source::MachineIdFile => {
            primary.set(primary.get() + 1);
            text(BARE)
        }
        _ => {
            secondary.set(secondary.get() + 1);
            text(HYPHENATED)
        }
    };
    let id = MachineId::new(Platform::Linux, read).unwrap();
    assert_eq!(id.to_string(), "ABCDEF12-3456-7890-1234-567890123456");
    assert_eq!((primary.get(), secondary.get()), (1, 0));
}

#[test]
fn stores_are_read_in_order() {
    let order = Cell::new(Vec::new());
    let read = |source: Source| {
        let mut seen = order.take();
        seen.push(source);
        order.set(seen);
        missing()
    };
    assert!(MachineId::new(Platform::Unix, read).is_err());
    assert_eq!(order.take(), vec![Source::KernelHostUuid, Source::HostIdFile]);
}

#[test]
fn all_sources_failing_is_an_access_error_of_the_last_source() {
    assert_eq!(
        MachineId::new(Platform::Linux, linux(missing(), denied())),
        Err(Error::IoError(AccessError::Os(13)))
    );
    assert_eq!(
        MachineId::new(Platform::Unix, unix(Err(AccessError::Os(-1)), missing())),
        Err(Error::IoError(AccessError::Os(2)))
    );
    assert_eq!(
        MachineId::new(Platform::Windows, |_| denied()),
        Err(Error::IoError(AccessError::Os(13)))
    );
    assert_eq!(
        MachineId::new(Platform::MacOs, |_| Err(AccessError::Unavailable)),
        Err(Error::IoError(AccessError::Unavailable))
    );
}

#[test]
fn empty_primary_and_failing_secondary_report_the_secondary() {
    assert_eq!(
        MachineId::new(Platform::Linux, linux(text(""), missing())),
        Err(Error::IoError(AccessError::Os(2)))
    );
}

#[test]
fn empty_secondary_is_a_format_error() {
    assert_eq!(
        MachineId::new(Platform::Linux, linux(missing(), text(""))),
        Err(Error::InvalidUuid)
    );
}

#[test]
fn only_the_machine_id_file_rejects_empty_text() {
    assert_eq!(Source::MachineIdFile.check(text("")), Err(AccessError::InvalidData));
    assert_eq!(Source::MachineIdFile.check(text("\n")), text("\n"));
    assert_eq!(Source::MachineIdFile.check(missing()), missing());
    for source in [
        Source::MachineGuid,
        Source::DbusMachineIdFile,
        Source::KernelHostUuid,
        Source::HostIdFile,
        Source::PlatformUuid,
    ] {
        assert_eq!(source.check(text("")), text(""));
        assert_eq!(source.check(denied()), denied());
    }
}

#[test]
fn kernel_failure_of_any_kind_falls_back_to_the_file() {
    for failure in [AccessError::Os(-1), AccessError::Os(2), AccessError::Unavailable] {
        let id = MachineId::new(Platform::Unix, unix(Err(failure), text(HYPHENATED))).unwrap();
        assert_eq!(id.to_string(), "4C4C4544-0046-3410-8051-B3C04F325233");
    }
}

#[test]
fn kernel_text_decides_without_the_file() {
    let read = |source: Source| match source {
        Source::KernelHostUuid => text("4c4c4544-0046-3410-8051-b3c04f325233"),
        _ => panic!("the file is not to be read"),
    };
    let id = MachineId::new(Platform::Unix, read).unwrap();
    assert_eq!(id.to_string(), "4C4C4544-0046-3410-8051-B3C04F325233");
    let read = |source: Source| match source {
        Source::KernelHostUuid => text(""),
        _ => panic!("the file is not to be read"),
    };
    assert_eq!(MachineId::new(Platform::Unix, read), Err(Error::InvalidUuid));
}

#[test]
fn resolving_twice_gives_identical_bytes() {
    let read = linux(text(""), text(BARE));
    let first = MachineId::new(Platform::Linux, &read).unwrap();
    let second = MachineId::new(Platform::Linux, &read).unwrap();
    let first_bytes: &[u8] = first.as_ref();
    let second_bytes: &[u8] = second.as_ref();
    assert_eq!(first_bytes, second_bytes);
    assert_eq!(first, second);
}

#[test]
fn chain_steps_follow_the_outcomes() {
    let chain = Chain::begin(Platform::Linux);
    assert_eq!(chain.source(), Source::MachineIdFile);
    let chain = match chain.advance(text("")) {
        Step::Read(next) => next,
        Step::Done(result) => panic!("ended early: {:?}", result),
    };
    assert_eq!(chain.source(), Source::DbusMachineIdFile);
    match chain.advance(text(BARE)) {
        Step::Done(Ok(id)) => assert_eq!(id.to_string(), "ABCDEF12-3456-7890-1234-567890123456"),
        other => panic!("not resolved: {:?}", other),
    }
}

#[test]
fn chain_ends_on_the_last_failure() {
    let chain = Chain::begin(Platform::Unix);
    assert_eq!(chain.source(), Source::KernelHostUuid);
    let chain = match chain.advance(Err(AccessError::Os(-1))) {
        Step::Read(next) => next,
        Step::Done(result) => panic!("ended early: {:?}", result),
    };
    assert_eq!(chain.source(), Source::HostIdFile);
    match chain.advance(denied()) {
        Step::Done(Err(e)) => assert_eq!(e, Error::IoError(AccessError::Os(13))),
        other => panic!("not failed: {:?}", other),
    }
    let chain = Chain::begin(Platform::Windows);
    assert_eq!(chain.source(), Source::MachineGuid);
    match chain.advance(missing()) {
        Step::Done(Err(e)) => assert_eq!(e, Error::IoError(AccessError::Os(2))),
        other => panic!("not failed: {:?}", other),
    }
}

#[test]
fn chain_ends_on_malformed_text() {
    match Chain::begin(Platform::Linux).advance(text("zz")) {
        Step::Done(Err(e)) => assert_eq!(e, Error::InvalidUuid),
        other => panic!("not refused: {:?}", other),
    }
}
