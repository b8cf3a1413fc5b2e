use nao::cancellation::CancellationToken;

#[test]
fn cloned_tokens_observe_cancellation() {
    let token = CancellationToken::new();
    let clone = token.clone();

    assert!(!clone.is_cancelled());

    token.cancel();

    assert!(clone.is_cancelled());
}
