use cli_daw::voices::VoiceSet;

fn notes(vs: &VoiceSet<u32>) -> Vec<u8> {
    let mut r = Vec::new();
    for i in 0..vs.len() {
        r.push(vs.note_at(i));
    }
    r
}

#[test]
fn oldest_voice_is_stolen_when_full() {
    let mut vs: VoiceSet<u32> = VoiceSet::new(2);
    vs.note_on(60, 1);
    vs.note_on(64, 2);
    vs.note_on(67, 3);
    assert_eq!(notes(&vs), vec![64, 67]);
    assert_eq!(vs.state_at(0), 2);
    assert_eq!(vs.state_at(1), 3);
}

#[test]
fn note_off_removes_every_instance() {
    let mut vs: VoiceSet<u32> = VoiceSet::new(16);
    vs.note_on(60, 1);
    vs.note_on(60, 2);
    vs.note_off(60);
    assert_eq!(vs.len(), 0);
}

#[test]
fn note_off_keeps_other_notes_in_order() {
    let mut vs: VoiceSet<u32> = VoiceSet::new(8);
    vs.note_on(60, 1);
    vs.note_on(62, 2);
    vs.note_on(60, 3);
    vs.note_on(64, 4);
    vs.note_off(60);
    assert_eq!(notes(&vs), vec![62, 64]);
    assert_eq!(vs.state_at(0), 2);
    assert_eq!(vs.state_at(1), 4);
}

#[test]
fn note_off_of_silent_note_changes_nothing() {
    let mut vs: VoiceSet<u32> = VoiceSet::new(4);
    vs.note_on(60, 1);
    vs.note_off(61);
    assert_eq!(notes(&vs), vec![60]);
}

#[test]
fn polyphony_is_never_exceeded() {
    let mut vs: VoiceSet<u32> = VoiceSet::new(4);
    for n in 0..20u8 {
        vs.note_on(n, n as u32);
        assert!(vs.len() <= vs.max_poly());
    }
    assert_eq!(notes(&vs), vec![16, 17, 18, 19]);
}

#[test]
fn set_state_replaces_only_the_state() {
    let mut vs: VoiceSet<u32> = VoiceSet::new(4);
    vs.note_on(69, 0);
    vs.note_on(70, 0);
    vs.set_state(1, 42);
    assert_eq!(vs.note_at(1), 70);
    assert_eq!(vs.state_at(1), 42);
    assert_eq!(vs.state_at(0), 0);
}
