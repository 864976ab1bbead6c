use papermono::firmware::nfc_poll::{
    outcome_card, poll_step, PollAction, PollEvent, PollOp, PollOutcome, PollState, FIELD_ON_BUDGET_MS,
};

/// Runs a poll, answering each step with `answer`; returns the steps handed
/// out and the milliseconds waited with the field on.
fn run(mut answer: impl FnMut(&PollOp) -> PollEvent) -> (Vec<PollAction>, u32, PollOutcome) {
    let mut state = PollState::Begin;
    let mut event = PollEvent::Done;
    let mut steps = Vec::new();
    let mut field_on = false;
    let mut lit_ms = 0u32;
    for _ in 0..200 {
        let (next, action) = poll_step(state, event);
        if field_on {
            lit_ms += action.wait_ms;
        }
        steps.push(action);
        state = next;
        if let PollOp::Finish(o) = action.op {
            assert!(!field_on);
            return (steps, lit_ms, o);
        }
        event = answer(&action.op);
        match action.op {
            PollOp::EnableField => field_on = event == PollEvent::Done,
            PollOp::DisableField => field_on = false,
            _ => {}
        }
    }
    panic!("poll did not finish");
}

#[test]
fn poll_without_a_tag_spends_every_attempt() {
    let (steps, lit_ms, outcome) = run(|op| match op {
        PollOp::ReadIdentity => PollEvent::Identity(true),
        PollOp::ReadAtqa => PollEvent::Atqa(None),
        _ => PollEvent::Done,
    });
    assert_eq!(outcome, PollOutcome::NoCard);
    assert_eq!(lit_ms, FIELD_ON_BUDGET_MS);
    assert_eq!(steps.iter().filter(|a| a.op == PollOp::SendReqa).count(), 35);
    assert_eq!(steps.iter().filter(|a| a.op == PollOp::SendWupa).count(), 35);
    assert_eq!(steps[0], PollAction { wait_ms: 0, op: PollOp::GateOn });
    assert_eq!(steps[1], PollAction { wait_ms: 120, op: PollOp::ReadIdentity });
    let n = steps.len();
    assert_eq!(steps[n - 3].op, PollOp::DisableField);
    assert_eq!(steps[n - 2].op, PollOp::GateOff);
    assert_eq!(outcome_card(outcome), None);
}

#[test]
fn poll_of_another_chip_only_toggles_the_gate() {
    let (steps, lit_ms, outcome) = run(|op| match op {
        PollOp::ReadIdentity => PollEvent::Identity(false),
        _ => PollEvent::Done,
    });
    assert_eq!(outcome, PollOutcome::NoCard);
    assert_eq!(lit_ms, 0);
    let ops: Vec<PollOp> = steps.iter().map(|a| a.op).collect();
    assert_eq!(
        ops,
        vec![PollOp::GateOn, PollOp::ReadIdentity, PollOp::GateOff, PollOp::Finish(PollOutcome::NoCard)]
    );
}

#[test]
fn poll_finds_a_single_size_uid_on_the_second_attempt() {
    let mut reads = 0;
    let (steps, lit_ms, outcome) = run(|op| match op {
        PollOp::ReadIdentity => PollEvent::Identity(true),
        PollOp::ReadAtqa => {
            reads += 1;
            if reads == 4 { PollEvent::Atqa(Some([0x44, 0x00])) } else { PollEvent::Atqa(None) }
        },
        PollOp::AnticollisionCl1 => PollEvent::Frame(Some([0x04, 0xA1, 0xB2, 0xC3, 0xD4])),
        PollOp::SelectCl1(_) => PollEvent::Sak(Some(0x08)),
        _ => PollEvent::Done,
    });
    assert_eq!(
        outcome,
        PollOutcome::Single { atqa: [0x44, 0x00], cl1: [0x04, 0xA1, 0xB2, 0xC3, 0xD4], sak: 0x08 }
    );
    // 150 settle, attempt 1 (5 + 5 + 60), attempt 2 REQA (5) and WUPA
    // (5), then 5 before the anticollision and 5 before the select.
    assert_eq!(lit_ms, 150 + 70 + 10 + 10);
    assert!(steps.iter().any(|a| a.op == PollOp::SelectCl1([0x04, 0xA1, 0xB2, 0xC3, 0xD4])));
    let card = outcome_card(outcome).unwrap();
    assert_eq!(card.uid_len, 4);
    assert_eq!(card.sak, 0x08);
    assert_eq!(card.atqa, [0x44, 0x00]);
    assert_eq!(card.uid, [0x04, 0xA1, 0xB2, 0xC3, 0, 0, 0, 0, 0, 0]);
}

#[test]
fn poll_finds_a_double_size_uid() {
    let (_, _, outcome) = run(|op| match op {
        PollOp::ReadIdentity => PollEvent::Identity(true),
        PollOp::ReadAtqa => PollEvent::Atqa(Some([0x44, 0x00])),
        PollOp::AnticollisionCl1 => PollEvent::Frame(Some([0x88, 0x04, 0x11, 0x22, 0xBF])),
        PollOp::SelectCl1(_) => PollEvent::Sak(Some(0x04)),
        PollOp::AnticollisionCl2 => PollEvent::Frame(Some([0x33, 0x44, 0x55, 0x66, 0x00])),
        PollOp::SelectCl2(_) => PollEvent::Sak(Some(0x00)),
        _ => PollEvent::Done,
    });
    let card = outcome_card(outcome).unwrap();
    assert_eq!(card.uid_len, 7);
    assert_eq!(card.sak, 0x00);
    assert_eq!(card.uid, [0x04, 0x11, 0x22, 0x33, 0x44, 0x55, 0x66, 0, 0, 0]);
}

#[test]
fn poll_gives_up_when_the_select_fails() {
    let (steps, _, outcome) = run(|op| match op {
        PollOp::ReadIdentity => PollEvent::Identity(true),
        PollOp::ReadAtqa => PollEvent::Atqa(Some([0x44, 0x00])),
        PollOp::AnticollisionCl1 => PollEvent::Frame(Some([0x04, 0x01, 0x02, 0x03, 0x04])),
        PollOp::SelectCl1(_) => PollEvent::Failed,
        _ => PollEvent::Done,
    });
    assert_eq!(outcome, PollOutcome::NoCard);
    let n = steps.len();
    assert_eq!(steps[n - 3].op, PollOp::DisableField);
    // A field that never came on is not switched off.
    let (steps, lit_ms, _) = run(|op| match op {
        PollOp::ReadIdentity => PollEvent::Identity(true),
        PollOp::EnableField => PollEvent::Failed,
        _ => PollEvent::Done,
    });
    assert_eq!(lit_ms, 0);
    assert!(!steps.iter().any(|a| a.op == PollOp::DisableField));
}
