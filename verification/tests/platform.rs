use litebox::platform::trivial_providers::IgnoredPunchthroughProvider;
use litebox::platform::trivial_providers::ImpossiblePunchthroughProvider;
use litebox::platform::Punchthrough;
use litebox::platform::PunchthroughError;
use litebox::platform::PunchthroughProvider;

#[test]
fn impossible_provider_never_hands_a_token_out() {
    let provider = ImpossiblePunchthroughProvider {};
    // no code path can construct an impossible token: the only source of
    // tokens for this provider yields none, on every attempt
    for _ in 0..32 {
        assert!(provider.get_punchthrough().is_none());
    }
}

#[test]
fn ignored_execute_reports_the_exact_label() {
    let provider = IgnoredPunchthroughProvider::new("network.connect");
    let token = match provider.get_punchthrough() {
        Some(t) => t,
        None => panic!("an ignored provider always hands a token out"),
    };
    match token.execute() {
        Err(PunchthroughError::Unimplemented(label)) => assert_eq!(label, "network.connect"),
        Err(PunchthroughError::Failure(_)) => panic!("the ignored token carries no payload"),
        Ok(_) => panic!("the ignored token never succeeds"),
    }
}

#[test]
fn each_provider_keeps_its_own_label() {
    let a = IgnoredPunchthroughProvider::new("fs.mount");
    let b = IgnoredPunchthroughProvider::new("clock.set");
    let ta = a.get_punchthrough().unwrap();
    let tb = b.get_punchthrough().unwrap();
    match (ta.execute(), tb.execute()) {
        (
            Err(PunchthroughError::Unimplemented(la)),
            Err(PunchthroughError::Unimplemented(lb)),
        ) => {
            assert_eq!(la, "fs.mount");
            assert_eq!(lb, "clock.set");
        },
        _ => panic!("ignored tokens always fail as unimplemented"),
    }
}
