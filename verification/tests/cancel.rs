use voice_transcription::cancel::CancelFlag;

/// The flag answers the question it was asked, and lowering it works.
#[test]
fn raised_then_lowered() {
    let mut flag = CancelFlag::new();
    flag.clear_cancel();
    assert!(!flag.cancel_requested());
    flag.request_cancel();
    assert!(flag.cancel_requested());
    flag.clear_cancel();
    assert!(!flag.cancel_requested());
}

#[test]
fn stays_raised_until_cleared() {
    let mut flag = CancelFlag::new();
    assert!(!flag.cancel_requested());
    flag.request_cancel();
    flag.request_cancel();
    assert!(flag.cancel_requested());
    assert!(flag.cancel_requested());
}

/// After any run of calls the flag is what the last request or clear made
/// it; reads change nothing.
#[test]
fn flag_follows_the_last_change() {
    let mut flag = CancelFlag::new();
    flag.request_cancel();
    assert!(flag.cancel_requested());
    flag.clear_cancel();
    flag.clear_cancel();
    assert!(!flag.cancel_requested());
    assert!(!flag.cancel_requested());
    flag.request_cancel();
    assert!(flag.cancel_requested());
    flag.request_cancel();
    assert!(flag.cancel_requested());
    flag.clear_cancel();
    assert!(!flag.cancel_requested());
}
