use rclrs::{TokenEffect, TokenOp, WakeToken};

#[test]
fn new_token_holds_one_reference() {
    let token = WakeToken::new();
    assert_eq!(token.references(), 1);
    assert!(token.is_live());
}

#[test]
fn clone_counts_one_more_reference() {
    let mut token = WakeToken::new();
    assert_eq!(token.clone_handle(), TokenEffect::Shared);
    assert_eq!(token.clone_handle(), TokenEffect::Shared);
    assert_eq!(token.references(), 3);
}

#[test]
fn wake_gives_up_a_reference() {
    let mut token = WakeToken::new();
    token.clone_handle();
    assert_eq!(token.wake(), TokenEffect::Released);
    assert_eq!(token.references(), 1);
}

#[test]
fn wake_by_ref_gives_up_a_reference_too() {
    let mut token = WakeToken::new();
    token.clone_handle();
    assert_eq!(token.wake_by_ref(), TokenEffect::Released);
    assert_eq!(token.references(), 1);
}

#[test]
fn last_drop_frees_the_token() {
    let mut token = WakeToken::new();
    assert_eq!(token.drop_handle(), TokenEffect::Freed);
    assert_eq!(token.references(), 0);
    assert!(!token.is_live());
}

#[test]
fn gone_token_refuses_everything() {
    let mut token = WakeToken::new();
    assert_eq!(token.wake(), TokenEffect::Freed);
    assert_eq!(token.wake(), TokenEffect::Refused);
    assert_eq!(token.wake_by_ref(), TokenEffect::Refused);
    assert_eq!(token.drop_handle(), TokenEffect::Refused);
    assert_eq!(token.clone_handle(), TokenEffect::Refused);
    assert_eq!(token.references(), 0);
}

#[test]
fn balanced_clones_and_consumptions_leave_the_count() {
    let ops = [
        TokenOp::Clone,
        TokenOp::Clone,
        TokenOp::Wake,
        TokenOp::Clone,
        TokenOp::Drop,
        TokenOp::WakeByRef,
    ];
    let mut token = WakeToken::new();
    let mut freed = 0;
    for op in ops {
        if token.apply(op) == TokenEffect::Freed {
            freed += 1;
        }
    }
    assert_eq!(token.references(), 1);
    assert_eq!(freed, 0);
    assert_eq!(token.drop_handle(), TokenEffect::Freed);
}

#[test]
fn early_release_frees_once_and_only_once() {
    let ops = [TokenOp::WakeByRef, TokenOp::Clone, TokenOp::Drop, TokenOp::Clone, TokenOp::Wake];
    let mut token = WakeToken::new();
    let effects: Vec<TokenEffect> = ops.iter().map(|op| token.apply(*op)).collect();
    assert_eq!(
        effects,
        vec![
            TokenEffect::Freed,
            TokenEffect::Refused,
            TokenEffect::Refused,
            TokenEffect::Refused,
            TokenEffect::Refused,
        ]
    );
    assert_eq!(token.references(), 0);
}

#[test]
fn apply_does_what_the_named_operation_does() {
    let mut token = WakeToken::new();
    assert_eq!(token.apply(TokenOp::Clone), TokenEffect::Shared);
    assert_eq!(token.apply(TokenOp::Wake), TokenEffect::Released);
    assert_eq!(token.apply(TokenOp::Clone), TokenEffect::Shared);
    assert_eq!(token.apply(TokenOp::WakeByRef), TokenEffect::Released);
    assert_eq!(token.apply(TokenOp::Drop), TokenEffect::Freed);
}
