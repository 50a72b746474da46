use parser::{SyntaxKind, SyntaxNodeKind, COMMAND_FLAG};

#[test]
fn fixed_kinds_keep_their_index() {
    assert_eq!(SyntaxNodeKind::Syntax(SyntaxKind::EOF).to_raw(), rowan::SyntaxKind(0));
    assert_eq!(SyntaxNodeKind::Syntax(SyntaxKind::L_CURLY).to_raw(), rowan::SyntaxKind(3));
    assert_eq!(SyntaxNodeKind::Syntax(SyntaxKind::ROOT).to_raw(), rowan::SyntaxKind(22));
}

#[test]
fn commands_set_the_flag() {
    assert_eq!(SyntaxNodeKind::Command(5).to_raw(), rowan::SyntaxKind(0x8005));
    assert_eq!(SyntaxNodeKind::Command(0x7fff).to_raw(), rowan::SyntaxKind(0xffff));
    assert_eq!(COMMAND_FLAG, 0x8000);
}

#[test]
fn round_trip() {
    let mut kinds = Vec::new();
    for i in 0..=22u16 {
        kinds.push(SyntaxNodeKind::Syntax(SyntaxKind::from_index(i).unwrap()));
    }
    for id in [0u16, 1, 22, 23, 1000, 0x7fff] {
        kinds.push(SyntaxNodeKind::Command(id));
    }
    for k in &kinds {
        assert_eq!(SyntaxNodeKind::from_raw(k.to_raw()), Some(*k));
    }
    for (i, a) in kinds.iter().enumerate() {
        for b in &kinds[i + 1..] {
            assert_ne!(a.to_raw(), b.to_raw());
        }
    }
}

#[test]
fn raw_values_past_root_are_refused() {
    assert_eq!(SyntaxNodeKind::from_raw(rowan::SyntaxKind(23)), None);
    assert_eq!(SyntaxNodeKind::from_raw(rowan::SyntaxKind(0x7fff)), None);
    assert_eq!(
        SyntaxNodeKind::from_raw(rowan::SyntaxKind(0x8000)),
        Some(SyntaxNodeKind::Command(0))
    );
}

#[test]
fn index_matches_declaration() {
    assert_eq!(SyntaxKind::QUOTED_STRING.index(), 19);
    assert_eq!(SyntaxKind::from_index(17), Some(SyntaxKind::FLOAT));
    assert_eq!(SyntaxKind::from_index(23), None);
}
