//! The override injector: turns a CC store into the exact sequence of
//! control-change messages to push into a live synthesizer after each
//! rendered buffer, so operator overrides win over file-authored CC events.

use vstd::prelude::*;

use crate::state::CcStateManager;
use crate::state::CcType;

verus! {

/// The MIDI status byte of a control-change message.
pub const MIDI_CC_COMMAND: u8 = 0xB0;

/// One raw channel-voice message: `data1` is the controller number,
/// `data2` the controller value.
#[derive(Clone, Copy, Debug, PartialEq, Eq, Structural)]
pub struct CcMessage {
    pub channel: u8,
    pub command: u8,
    pub data1: u8,
    pub data2: u8,
}

/// The control-change message for one resolved value, or nothing when the
/// value is unset.
pub open spec fn opt_message(channel: u8, cc_type: CcType, value: Option<u8>) -> Seq<CcMessage> {
    match value {
        Some(v) => seq![
            CcMessage {
                channel,
                command: MIDI_CC_COMMAND,
                data1: cc_type.spec_controller_number(),
                data2: v,
            },
        ],
        None => Seq::empty(),
    }
}

/// The fixed priority order in which the seven parameters are injected.
pub open spec fn cc_priority_order() -> Seq<CcType> {
    seq![
        CcType::Volume,
        CcType::Expression,
        CcType::Pan,
        CcType::Modulation,
        CcType::Reverb,
        CcType::Chorus,
        CcType::Sustain,
    ]
}

/// The messages for the first `k` parameters (in priority order) of one
/// channel.
pub open spec fn channel_messages_upto(store: CcStateManager, channel: u8, k: int) -> Seq<
    CcMessage,
>
    decreases k,
{
    if k <= 0 {
        Seq::empty()
    } else {
        channel_messages_upto(store, channel, k - 1) + opt_message(
            channel,
            cc_priority_order()[k - 1],
            store.spec_resolve(channel as int, cc_priority_order()[k - 1]),
        )
    }
}

/// All messages for one channel: one per set parameter, in priority order.
pub open spec fn channel_messages(store: CcStateManager, channel: u8) -> Seq<CcMessage> {
    channel_messages_upto(store, channel, 7)
}

/// The messages for the first `n` channels of `chans`, concatenated.
pub open spec fn messages_for_prefix(store: CcStateManager, chans: Seq<u8>, n: int) -> Seq<
    CcMessage,
>
    decreases n,
{
    if n <= 0 {
        Seq::empty()
    } else {
        messages_for_prefix(store, chans, n - 1) + channel_messages(store, chans[n - 1])
    }
}

/// The full injection sequence of a store: for each active channel, in
/// ascending order, one message per set parameter in priority order.
pub open spec fn spec_cc_messages(store: CcStateManager) -> Seq<CcMessage> {
    messages_for_prefix(
        store,
        store.spec_active_channels(),
        store.spec_active_channels().len() as int,
    )
}

/// The messages for one channel, computed.
fn collect_channel_messages(store: &CcStateManager, channel: u8) -> (msgs: Vec<CcMessage>)
    requires
        store.wf(),
        channel < 16,
    ensures
        msgs@ == channel_messages(*store, channel),
{
    let mut order: Vec<CcType> = Vec::new();
    order.push(CcType::Volume);
    order.push(CcType::Expression);
    order.push(CcType::Pan);
    order.push(CcType::Modulation);
    order.push(CcType::Reverb);
    order.push(CcType::Chorus);
    order.push(CcType::Sustain);
    proof {
        assert(order@ =~= cc_priority_order());
    }
    let mut msgs: Vec<CcMessage> = Vec::new();
    let mut k: usize = 0;
    while k < 7
        invariant
            store.wf(),
            channel < 16,
            k <= 7,
            order@ == cc_priority_order(),
            msgs@ == channel_messages_upto(*store, channel, k as int),
        decreases 7 - k,
    {
        let cc_type = order[k];
        match store.get_cc_value(channel, cc_type) {
            Some(v) => {
                msgs.push(
                    CcMessage {
                        channel,
                        command: MIDI_CC_COMMAND,
                        data1: cc_type.controller_number(),
                        data2: v,
                    },
                );
            },
            None => {},
        }
        proof {
            assert(msgs@ =~= channel_messages_upto(*store, channel, k as int + 1));
        }
        k = k + 1;
    }
    msgs
}

/// The exact sequence of control-change messages that injecting `store`
/// emits, in order.
pub fn collect_cc_messages(store: &CcStateManager) -> (msgs: Vec<CcMessage>)
    requires
        store.wf(),
    ensures
        msgs@ == spec_cc_messages(*store),
{
    let active = store.get_active_channels();
    let mut msgs: Vec<CcMessage> = Vec::new();
    let mut i: usize = 0;
    while i < active.len()
        invariant
            store.wf(),
            active@ == store.spec_active_channels(),
            forall|k: int| 0 <= k < active@.len() ==> #[trigger] active@[k] < 16,
            i <= active@.len(),
            msgs@ == messages_for_prefix(*store, active@, i as int),
        decreases active@.len() - i,
    {
        let mut part = collect_channel_messages(store, active[i]);
        msgs.append(&mut part);
        i = i + 1;
    }
    msgs
}

/// The injection sequence is a function of the store alone: two injections
/// from an unchanged store emit the same messages in the same order.
pub proof fn lemma_injection_idempotent(
    first: Seq<CcMessage>,
    second: Seq<CcMessage>,
    store: CcStateManager,
)
    requires
        first == spec_cc_messages(store),
        second == spec_cc_messages(store),
    ensures
        first == second,
{
}

#[verifier::external_type_specification]
#[verifier::external_body]
pub struct ExSynthesizer(rustysynth::Synthesizer);

/// Relies on rustysynth's `Synthesizer::process_midi_message`: it hands one
/// raw channel-voice message to the synthesizer, which updates its internal
/// per-channel controller state; it ignores out-of-range channels and does
/// not panic.
#[verifier::external_body]
fn send_midi_message(synth: &mut rustysynth::Synthesizer, msg: CcMessage) {
    synth.process_midi_message(
        msg.channel as i32,
        msg.command as i32,
        msg.data1 as i32,
        msg.data2 as i32,
    );
}

/// Push the resolved CC state into a live synthesizer: one control-change
/// call per message of `spec_cc_messages(*cc_state)`, in that order. The
/// caller must hold whatever exclusive access protects the synthesizer for
/// the whole render-plus-override span.
pub fn send_cc_messages_from_state(
    cc_state: &CcStateManager,
    synth: &mut rustysynth::Synthesizer,
)
    requires
        cc_state.wf(),
{
    let msgs = collect_cc_messages(cc_state);
    let mut i: usize = 0;
    while i < msgs.len()
        decreases msgs@.len() - i,
    {
        send_midi_message(synth, msgs[i]);
        i = i + 1;
    }
}

} // verus!
