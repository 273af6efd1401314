use midi_cc_override::state::CcStateManager;
use midi_cc_override::state::CcType;
use midi_cc_override::state::ChannelCcState;

#[test]
fn unset_parameter_resolves_to_none_everywhere() {
    let store = CcStateManager::new();
    for channel in 0..16u8 {
        assert_eq!(store.get_cc_value(channel, CcType::Volume), None);
        assert_eq!(store.get_cc_value(channel, CcType::Sustain), None);
    }
}

#[test]
fn global_only_value_reaches_every_channel() {
    let mut store = CcStateManager::new();
    store.set_global_cc(CcType::Volume, 88);
    for channel in 0..16u8 {
        assert_eq!(store.get_cc_value(channel, CcType::Volume), Some(88));
    }
    // Other parameters stay unset.
    assert_eq!(store.get_cc_value(3, CcType::Pan), None);
}

#[test]
fn channel_value_wins_over_global_on_its_channel_only() {
    let mut store = CcStateManager::new();
    store.set_global_cc(CcType::Volume, 70);
    store.set_channel_cc(4, CcType::Volume, 20);
    assert_eq!(store.get_cc_value(4, CcType::Volume), Some(20));
    for channel in 0..16u8 {
        if channel != 4 {
            assert_eq!(store.get_cc_value(channel, CcType::Volume), Some(70));
        }
    }
}

#[test]
fn channel_entry_without_the_asked_field_falls_back_to_global() {
    let mut store = CcStateManager::new();
    store.set_global_cc(CcType::Pan, 32);
    store.set_channel_cc(2, CcType::Volume, 90);
    // Channel 2 has an entry, but no pan value of its own.
    assert_eq!(store.get_cc_value(2, CcType::Pan), Some(32));
    assert_eq!(store.get_cc_value(2, CcType::Volume), Some(90));
}

#[test]
fn active_channels_is_all_16_when_no_channel_entry_exists() {
    let mut store = CcStateManager::new();
    store.set_global_cc(CcType::Volume, 100);
    let active = store.get_active_channels();
    let expected: Vec<u8> = (0..16).collect();
    assert_eq!(active, expected);
}

#[test]
fn active_channels_is_the_sorted_entry_keys_otherwise() {
    let mut store = CcStateManager::new();
    store.set_channel_cc(9, CcType::Volume, 1);
    store.set_channel_cc(2, CcType::Pan, 2);
    store.set_channel_cc(9, CcType::Pan, 3);
    assert_eq!(store.get_active_channels(), vec![2u8, 9u8]);
}

#[test]
fn later_write_to_same_field_replaces_earlier_one() {
    let mut store = CcStateManager::new();
    store.set_channel_cc(1, CcType::Reverb, 10);
    store.set_channel_cc(1, CcType::Reverb, 20);
    assert_eq!(store.get_cc_value(1, CcType::Reverb), Some(20));
    store.set_global_cc(CcType::Chorus, 5);
    store.set_global_cc(CcType::Chorus, 6);
    assert_eq!(store.get_cc_value(0, CcType::Chorus), Some(6));
}

#[test]
fn channel_state_get_set_roundtrip() {
    let mut st = ChannelCcState::empty();
    assert_eq!(st.get(CcType::Modulation), None);
    st.set(CcType::Modulation, 77);
    assert_eq!(st.get(CcType::Modulation), Some(77));
    // The other six fields are untouched.
    assert_eq!(st.get(CcType::Volume), None);
    assert_eq!(st.get(CcType::Pan), None);
    assert_eq!(st.get(CcType::Reverb), None);
    assert_eq!(st.get(CcType::Chorus), None);
    assert_eq!(st.get(CcType::Expression), None);
    assert_eq!(st.get(CcType::Sustain), None);
}

#[test]
fn controller_numbers_are_the_midi_standard_ones() {
    assert_eq!(CcType::Volume.controller_number(), 7);
    assert_eq!(CcType::Pan.controller_number(), 10);
    assert_eq!(CcType::Reverb.controller_number(), 91);
    assert_eq!(CcType::Chorus.controller_number(), 93);
    assert_eq!(CcType::Modulation.controller_number(), 1);
    assert_eq!(CcType::Expression.controller_number(), 11);
    assert_eq!(CcType::Sustain.controller_number(), 64);
}
