use printing_press::peephole::{run, IrInstr, IrLabel};

// --- Self-move elimination ---

#[test]
fn test_self_move_dropped() {
    let input = vec![IrInstr::Move { dst: 1, src: 1 }];
    assert!(run(input).is_empty());
}

#[test]
fn test_non_self_move_preserved() {
    let input = vec![IrInstr::Move { dst: 1, src: 2 }];
    let output = run(input);
    assert!(matches!(output[..], [IrInstr::Move { dst: 1, src: 2 }]));
}

#[test]
fn test_multiple_self_moves_all_dropped() {
    let input = vec![
        IrInstr::Move { dst: 1, src: 1 },
        IrInstr::Move { dst: 2, src: 2 },
        IrInstr::Move { dst: 3, src: 3 },
    ];
    assert!(run(input).is_empty());
}

#[test]
fn test_mixed_moves_self_dropped_real_kept() {
    let input = vec![
        IrInstr::Move { dst: 1, src: 1 },
        IrInstr::Move { dst: 2, src: 3 },
        IrInstr::Move { dst: 4, src: 4 },
    ];
    let output = run(input);
    assert_eq!(output.len(), 1);
    assert!(matches!(output[0], IrInstr::Move { dst: 2, src: 3 }));
}

#[test]
fn test_self_move_among_other_instrs() {
    let input = vec![
        IrInstr::LoadImm { dst: 0, index: 0 },
        IrInstr::Move { dst: 1, src: 1 },
        IrInstr::Return { src: 0 },
    ];
    let output = run(input);
    assert_eq!(output.len(), 2);
    assert!(matches!(output[0], IrInstr::LoadImm { dst: 0, index: 0 }));
    assert!(matches!(output[1], IrInstr::Return { src: 0 }));
}

// --- Jump-to-next elimination ---

#[test]
fn test_jump_to_next_label_dropped() {
    let input = vec![
        IrInstr::Jump { target: IrLabel(0) },
        IrInstr::Label { label: IrLabel(0) },
    ];
    let output = run(input);
    assert_eq!(output.len(), 1);
    assert!(matches!(output[0], IrInstr::Label { label: IrLabel(0) }));
}

#[test]
fn test_jump_with_intervening_labels_dropped() {
    // Jump{L1}, Label{L0}, Label{L1} — L1 is the target, found after only Labels
    let input = vec![
        IrInstr::Jump { target: IrLabel(1) },
        IrInstr::Label { label: IrLabel(0) },
        IrInstr::Label { label: IrLabel(1) },
    ];
    let output = run(input);
    assert_eq!(output.len(), 2);
    assert!(matches!(output[0], IrInstr::Label { label: IrLabel(0) }));
    assert!(matches!(output[1], IrInstr::Label { label: IrLabel(1) }));
}

#[test]
fn test_jump_to_distant_label_preserved() {
    let input = vec![
        IrInstr::Jump { target: IrLabel(0) },
        IrInstr::LoadImm { dst: 0, index: 0 },
        IrInstr::Label { label: IrLabel(0) },
    ];
    let output = run(input.clone());
    assert_eq!(output.len(), 3);
    assert_eq!(output, input);
}

#[test]
fn test_jump_if_false_never_eliminated() {
    // JumpIfFalse is conditional — never eliminate even if label is next
    let input = vec![
        IrInstr::JumpIfFalse { src: 0, target: IrLabel(0) },
        IrInstr::Label { label: IrLabel(0) },
    ];
    let output = run(input);
    assert_eq!(output.len(), 2);
    assert!(matches!(output[0], IrInstr::JumpIfFalse { src: 0, target: IrLabel(0) }));
}

#[test]
fn test_jump_dangling_no_target_preserved() {
    let input = vec![IrInstr::Jump { target: IrLabel(99) }];
    let output = run(input);
    assert_eq!(output.len(), 1);
    assert!(matches!(output[0], IrInstr::Jump { target: IrLabel(99) }));
}

#[test]
fn test_two_consecutive_redundant_jumps_both_dropped() {
    let input = vec![
        IrInstr::Jump { target: IrLabel(0) },
        IrInstr::Label { label: IrLabel(0) },
        IrInstr::Jump { target: IrLabel(1) },
        IrInstr::Label { label: IrLabel(1) },
    ];
    let output = run(input);
    assert_eq!(output.len(), 2);
    assert!(matches!(output[0], IrInstr::Label { label: IrLabel(0) }));
    assert!(matches!(output[1], IrInstr::Label { label: IrLabel(1) }));
}

#[test]
fn test_unreachable_jump_both_preserved() {
    // Jump{L0}, Jump{L1}, Label{L1} — second jump is unreachable dead code.
    // Dead code elimination is out of scope; both jumps are preserved.
    let input = vec![
        IrInstr::Jump { target: IrLabel(0) },
        IrInstr::Jump { target: IrLabel(1) },
        IrInstr::Label { label: IrLabel(1) },
    ];
    let output = run(input);
    assert_eq!(output.len(), 3);
}

#[test]
fn test_jump_after_return_dropped() {
    // Only a jump right after another unconditional jump is kept.
    let input = vec![
        IrInstr::Return { src: 0 },
        IrInstr::Jump { target: IrLabel(0) },
        IrInstr::Label { label: IrLabel(0) },
    ];
    assert_eq!(
        run(input),
        vec![IrInstr::Return { src: 0 }, IrInstr::Label { label: IrLabel(0) }]
    );
}

#[test]
fn test_jump_after_label_dropped() {
    let input = vec![
        IrInstr::Label { label: IrLabel(3) },
        IrInstr::Jump { target: IrLabel(0) },
        IrInstr::Label { label: IrLabel(0) },
    ];
    assert_eq!(
        run(input),
        vec![IrInstr::Label { label: IrLabel(3) }, IrInstr::Label { label: IrLabel(0) }]
    );
}

// --- Combined ---

#[test]
fn test_combined_self_move_and_jump_to_next() {
    let input = vec![
        IrInstr::Move { dst: 1, src: 1 },
        IrInstr::Jump { target: IrLabel(0) },
        IrInstr::Label { label: IrLabel(0) },
    ];
    let output = run(input);
    assert_eq!(output.len(), 1);
    assert!(matches!(output[0], IrInstr::Label { label: IrLabel(0) }));
}

#[test]
fn test_empty_input() {
    assert!(run(vec![]).is_empty());
}

#[test]
fn test_no_optimizable_patterns() {
    let input = vec![
        IrInstr::LoadImm { dst: 0, index: 0 },
        IrInstr::Return { src: 0 },
    ];
    let output = run(input);
    assert_eq!(output.len(), 2);
    assert!(matches!(output[0], IrInstr::LoadImm { dst: 0, index: 0 }));
    assert!(matches!(output[1], IrInstr::Return { src: 0 }));
}

// --- Further cases ---

#[test]
fn test_jump_to_other_label_next_preserved() {
    // Jump L1; Label L2 (different labels) -> unchanged
    let input = vec![
        IrInstr::Jump { target: IrLabel(1) },
        IrInstr::Label { label: IrLabel(2) },
    ];
    assert_eq!(run(input.clone()), input);
}

#[test]
fn test_jump_judged_on_original_stream() {
    // The self-move between the jump and its label is dropped in the same
    // pass, but the jump is judged on the stream it was given, so it stays;
    // a second pass then removes it.
    let input = vec![
        IrInstr::Jump { target: IrLabel(0) },
        IrInstr::Move { dst: 1, src: 1 },
        IrInstr::Label { label: IrLabel(0) },
    ];
    let once = run(input);
    assert_eq!(
        once,
        vec![IrInstr::Jump { target: IrLabel(0) }, IrInstr::Label { label: IrLabel(0) }]
    );
    assert_eq!(run(once), vec![IrInstr::Label { label: IrLabel(0) }]);
}

#[test]
fn test_non_jumps_survive_in_order() {
    let input = vec![
        IrInstr::LoadImm { dst: 0, index: 3 },
        IrInstr::Jump { target: IrLabel(5) },
        IrInstr::Label { label: IrLabel(4) },
        IrInstr::Label { label: IrLabel(5) },
        IrInstr::Move { dst: 0, src: 0 },
        IrInstr::Move { dst: 2, src: 0 },
        IrInstr::JumpIfFalse { src: 2, target: IrLabel(4) },
        IrInstr::Return { src: 2 },
    ];
    let expected = vec![
        IrInstr::LoadImm { dst: 0, index: 3 },
        IrInstr::Label { label: IrLabel(4) },
        IrInstr::Label { label: IrLabel(5) },
        IrInstr::Move { dst: 2, src: 0 },
        IrInstr::JumpIfFalse { src: 2, target: IrLabel(4) },
        IrInstr::Return { src: 2 },
    ];
    assert_eq!(run(input), expected);
}
