use midi_cc_override::inject::collect_cc_messages;
use midi_cc_override::inject::CcMessage;
use midi_cc_override::inject::MIDI_CC_COMMAND;
use midi_cc_override::parse::apply_directives;
use midi_cc_override::parse::apply_global_options;
use midi_cc_override::parse::GlobalCcOptions;
use midi_cc_override::state::CcStateManager;
use midi_cc_override::state::CcType;

#[test]
fn command_byte_is_control_change() {
    assert_eq!(MIDI_CC_COMMAND, 0xB0);
}

#[test]
fn global_only_volume_reaches_all_16_channels() {
    let mut store = CcStateManager::new();
    store.set_global_cc(CcType::Volume, 100);
    let msgs = collect_cc_messages(&store);
    assert_eq!(msgs.len(), 16);
    for (i, msg) in msgs.iter().enumerate() {
        assert_eq!(
            *msg,
            CcMessage { channel: i as u8, command: 0xB0, data1: 7, data2: 100 }
        );
    }
}

#[test]
fn channel_directive_narrows_injection_to_that_channel() {
    // A global volume plus one channel directive: the directive makes
    // channel 0 the only active channel, and its own value wins there.
    let mut store = CcStateManager::new();
    store.set_global_cc(CcType::Volume, 100);
    let directives = vec![String::from("0:volume:64")];
    assert_eq!(apply_directives(&mut store, &directives), Ok(()));
    let msgs = collect_cc_messages(&store);
    assert_eq!(
        msgs,
        vec![CcMessage { channel: 0, command: 0xB0, data1: 7, data2: 64 }]
    );
}

#[test]
fn injection_is_idempotent_on_an_unchanged_store() {
    let mut store = CcStateManager::new();
    apply_global_options(&mut store, &GlobalCcOptions::none());
    let directives = vec![String::from("3:pan:9"), String::from("11:sustain:on")];
    assert_eq!(apply_directives(&mut store, &directives), Ok(()));
    let first = collect_cc_messages(&store);
    let second = collect_cc_messages(&store);
    assert_eq!(first, second);
}

#[test]
fn messages_follow_the_fixed_priority_order() {
    let mut store = CcStateManager::new();
    for cc_type in [
        CcType::Volume,
        CcType::Pan,
        CcType::Reverb,
        CcType::Chorus,
        CcType::Modulation,
        CcType::Expression,
        CcType::Sustain,
    ] {
        store.set_channel_cc(6, cc_type, 50);
    }
    let msgs = collect_cc_messages(&store);
    let controllers: Vec<u8> = msgs.iter().map(|m| m.data1).collect();
    // volume, expression, pan, modulation, reverb, chorus, sustain
    assert_eq!(controllers, vec![7, 11, 10, 1, 91, 93, 64]);
    assert!(msgs.iter().all(|m| m.channel == 6 && m.command == 0xB0 && m.data2 == 50));
}

#[test]
fn unset_pairs_emit_no_message() {
    let mut store = CcStateManager::new();
    store.set_channel_cc(1, CcType::Chorus, 44);
    store.set_channel_cc(14, CcType::Volume, 33);
    let msgs = collect_cc_messages(&store);
    assert_eq!(
        msgs,
        vec![
            CcMessage { channel: 1, command: 0xB0, data1: 93, data2: 44 },
            CcMessage { channel: 14, command: 0xB0, data1: 7, data2: 33 },
        ]
    );
}

#[test]
fn defaults_plus_directive_inject_all_seven_for_the_active_channel() {
    let mut store = CcStateManager::new();
    apply_global_options(&mut store, &GlobalCcOptions::none());
    let directives = vec![String::from("0:volume:64")];
    assert_eq!(apply_directives(&mut store, &directives), Ok(()));
    let msgs = collect_cc_messages(&store);
    assert_eq!(
        msgs,
        vec![
            CcMessage { channel: 0, command: 0xB0, data1: 7, data2: 64 },
            CcMessage { channel: 0, command: 0xB0, data1: 11, data2: 127 },
            CcMessage { channel: 0, command: 0xB0, data1: 10, data2: 64 },
            CcMessage { channel: 0, command: 0xB0, data1: 1, data2: 0 },
            CcMessage { channel: 0, command: 0xB0, data1: 91, data2: 0 },
            CcMessage { channel: 0, command: 0xB0, data1: 93, data2: 0 },
            CcMessage { channel: 0, command: 0xB0, data1: 64, data2: 0 },
        ]
    );
}

#[test]
fn empty_store_injects_nothing_even_with_16_active_channels() {
    let store = CcStateManager::new();
    let msgs = collect_cc_messages(&store);
    assert!(msgs.is_empty());
}
