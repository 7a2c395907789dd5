use restify::method::{documented_kind, method_of, MethodFilter, MethodType, OperationType};

#[test]
fn method_names_are_read_in_lower_case_only() {
    assert_eq!(MethodType::from_path("get"), Ok(MethodType::Get));
    assert_eq!(MethodType::from_path("post"), Ok(MethodType::Post));
    assert_eq!(MethodType::from_path("put"), Ok(MethodType::Put));
    assert_eq!(MethodType::from_path("delete"), Ok(MethodType::Delete));
    assert_eq!(MethodType::from_path("head"), Ok(MethodType::Head));
    assert_eq!(MethodType::from_path("connect"), Ok(MethodType::Connect));
    assert_eq!(MethodType::from_path("options"), Ok(MethodType::Options));
    assert_eq!(MethodType::from_path("trace"), Ok(MethodType::Trace));
    assert_eq!(MethodType::from_path("patch"), Ok(MethodType::Patch));
    assert_eq!(MethodType::from_path("GET"), Err(()));
    assert_eq!(MethodType::from_path("doc"), Err(()));
    assert_eq!(MethodType::from_path(""), Err(()));
    assert_eq!(MethodType::from_path("gets"), Err(()));
}

#[test]
fn method_names_round_trip() {
    let all = [
        MethodType::Get,
        MethodType::Post,
        MethodType::Put,
        MethodType::Delete,
        MethodType::Head,
        MethodType::Connect,
        MethodType::Options,
        MethodType::Trace,
        MethodType::Patch,
    ];
    for method in all {
        assert_eq!(MethodType::from_path(method.as_lower_str()), Ok(method));
    }
}

#[test]
fn operation_kinds_have_lower_case_names() {
    assert_eq!(OperationType::Get.as_lower_str(), "get");
    assert_eq!(OperationType::Put.as_lower_str(), "put");
    assert_eq!(OperationType::Post.as_lower_str(), "post");
    assert_eq!(OperationType::Delete.as_lower_str(), "delete");
    assert_eq!(OperationType::Options.as_lower_str(), "options");
    assert_eq!(OperationType::Head.as_lower_str(), "head");
    assert_eq!(OperationType::Patch.as_lower_str(), "patch");
    assert_eq!(OperationType::Trace.as_lower_str(), "trace");
}

#[test]
fn filters_hold_one_bit_for_each_method() {
    assert_eq!(MethodFilter::connect().bits, 0b0_0000_0001);
    assert_eq!(MethodFilter::delete().bits, 0b0_0000_0010);
    assert_eq!(MethodFilter::get().bits, 0b0_0000_0100);
    assert_eq!(MethodFilter::head().bits, 0b0_0000_1000);
    assert_eq!(MethodFilter::options().bits, 0b0_0001_0000);
    assert_eq!(MethodFilter::patch().bits, 0b0_0010_0000);
    assert_eq!(MethodFilter::post().bits, 0b0_0100_0000);
    assert_eq!(MethodFilter::put().bits, 0b0_1000_0000);
    assert_eq!(MethodFilter::trace().bits, 0b1_0000_0000);
    assert_eq!(MethodType::Get.filter(), MethodFilter::get());
    assert_eq!(MethodType::Connect.filter(), MethodFilter::connect());
}

#[test]
fn filters_combine_and_contain() {
    let both = MethodFilter::get().or(MethodFilter::post());
    assert_eq!(both.bits, 0b0_0100_0100);
    assert!(both.contains(MethodFilter::get()));
    assert!(both.contains(MethodFilter::post()));
    assert!(!both.contains(MethodFilter::put()));
    assert!(both.contains(both));
    assert!(!MethodFilter::get().contains(both));
}

#[test]
fn documented_kinds_come_in_registration_order() {
    let kinds: Vec<OperationType> = (0..8).map(documented_kind).collect();
    assert_eq!(
        kinds,
        vec![
            OperationType::Get,
            OperationType::Delete,
            OperationType::Head,
            OperationType::Options,
            OperationType::Patch,
            OperationType::Post,
            OperationType::Put,
            OperationType::Trace,
        ]
    );
    assert_eq!(method_of(OperationType::Patch), MethodType::Patch);
    assert_eq!(method_of(OperationType::Get), MethodType::Get);
}
