//! The CC state model: per-channel values with global-default fallback.

use vstd::prelude::*;

verus! {

/// The seven control-change parameters the engine understands.
#[derive(Clone, Copy, Debug, PartialEq, Eq, Structural)]
pub enum CcType {
    Volume,
    Pan,
    Reverb,
    Chorus,
    Modulation,
    Expression,
    Sustain,
}

impl CcType {
    /// The standard MIDI controller number for this parameter.
    pub fn controller_number(self) -> (n: u8)
        ensures
            n == self.spec_controller_number(),
    {
        match self {
            CcType::Volume => 7,
            CcType::Pan => 10,
            CcType::Reverb => 91,
            CcType::Chorus => 93,
            CcType::Modulation => 1,
            CcType::Expression => 11,
            CcType::Sustain => 64,
        }
    }

    pub open spec fn spec_controller_number(self) -> u8 {
        match self {
            CcType::Volume => 7,
            CcType::Pan => 10,
            CcType::Reverb => 91,
            CcType::Chorus => 93,
            CcType::Modulation => 1,
            CcType::Expression => 11,
            CcType::Sustain => 64,
        }
    }
}

/// The optional CC values held at one scope (one channel, or the global
/// default). `None` means "not explicitly set at this scope".
#[derive(Clone, Copy, Debug, PartialEq, Eq, Structural)]
pub struct ChannelCcState {
    pub volume: Option<u8>,
    pub pan: Option<u8>,
    pub reverb: Option<u8>,
    pub chorus: Option<u8>,
    pub modulation: Option<u8>,
    pub expression: Option<u8>,
    pub sustain: Option<u8>,
}

impl ChannelCcState {
    /// All seven values in [0, 127] where set.
    pub open spec fn wf(self) -> bool {
        &&& (self.volume matches Some(v) ==> v <= 127)
        &&& (self.pan matches Some(v) ==> v <= 127)
        &&& (self.reverb matches Some(v) ==> v <= 127)
        &&& (self.chorus matches Some(v) ==> v <= 127)
        &&& (self.modulation matches Some(v) ==> v <= 127)
        &&& (self.expression matches Some(v) ==> v <= 127)
        &&& (self.sustain matches Some(v) ==> v <= 127)
    }

    /// The field that stores the given parameter.
    pub open spec fn spec_get(self, cc_type: CcType) -> Option<u8> {
        match cc_type {
            CcType::Volume => self.volume,
            CcType::Pan => self.pan,
            CcType::Reverb => self.reverb,
            CcType::Chorus => self.chorus,
            CcType::Modulation => self.modulation,
            CcType::Expression => self.expression,
            CcType::Sustain => self.sustain,
        }
    }

    /// The same state with the given parameter set to the given value.
    pub open spec fn spec_set(self, cc_type: CcType, value: u8) -> ChannelCcState {
        match cc_type {
            CcType::Volume => ChannelCcState { volume: Some(value), ..self },
            CcType::Pan => ChannelCcState { pan: Some(value), ..self },
            CcType::Reverb => ChannelCcState { reverb: Some(value), ..self },
            CcType::Chorus => ChannelCcState { chorus: Some(value), ..self },
            CcType::Modulation => ChannelCcState { modulation: Some(value), ..self },
            CcType::Expression => ChannelCcState { expression: Some(value), ..self },
            CcType::Sustain => ChannelCcState { sustain: Some(value), ..self },
        }
    }

    /// A state with nothing set at this scope.
    pub fn empty() -> (s: ChannelCcState)
        ensures
            s == ChannelCcState::spec_empty(),
    {
        ChannelCcState {
            volume: None,
            pan: None,
            reverb: None,
            chorus: None,
            modulation: None,
            expression: None,
            sustain: None,
        }
    }

    pub open spec fn spec_empty() -> ChannelCcState {
        ChannelCcState {
            volume: None,
            pan: None,
            reverb: None,
            chorus: None,
            modulation: None,
            expression: None,
            sustain: None,
        }
    }

    /// Read the stored value for one parameter.
    pub fn get(&self, cc_type: CcType) -> (r: Option<u8>)
        ensures
            r == self.spec_get(cc_type),
    {
        match cc_type {
            CcType::Volume => self.volume,
            CcType::Pan => self.pan,
            CcType::Reverb => self.reverb,
            CcType::Chorus => self.chorus,
            CcType::Modulation => self.modulation,
            CcType::Expression => self.expression,
            CcType::Sustain => self.sustain,
        }
    }

    /// Overwrite the stored value for one parameter; the other six keep
    /// their values.
    pub fn set(&mut self, cc_type: CcType, value: u8)
        ensures
            *final(self) == old(self).spec_set(cc_type, value),
    {
        match cc_type {
            CcType::Volume => self.volume = Some(value),
            CcType::Pan => self.pan = Some(value),
            CcType::Reverb => self.reverb = Some(value),
            CcType::Chorus => self.chorus = Some(value),
            CcType::Modulation => self.modulation = Some(value),
            CcType::Expression => self.expression = Some(value),
            CcType::Sustain => self.sustain = Some(value),
        }
    }
}

/// Operator CC intent for all 16 MIDI channels: one optional state per
/// channel (present only for channels that got at least one explicit
/// value) plus one global-default state that every channel falls back to.
pub struct CcStateManager {
    /// Indexed by channel number; always 16 entries.
    pub channels: Vec<Option<ChannelCcState>>,
    /// The fallback values shared by all channels.
    pub global_defaults: ChannelCcState,
}

impl CcStateManager {
    pub open spec fn wf(self) -> bool {
        &&& self.channels@.len() == 16
        &&& forall|c: int|
            0 <= c < 16 ==> (#[trigger] self.channels@[c] matches Some(st) ==> st.wf())
        &&& self.global_defaults.wf()
    }

    /// The per-channel state stored for channel `c`, if any.
    pub open spec fn channel_entry(self, c: int) -> Option<ChannelCcState> {
        self.channels@[c]
    }

    /// The stored state of channel `c`, or the empty state if the channel
    /// has no entry.
    pub open spec fn entry_or_empty(self, c: int) -> ChannelCcState {
        match self.channel_entry(c) {
            Some(st) => st,
            None => ChannelCcState::spec_empty(),
        }
    }

    /// The effective value of `cc_type` on channel `c`: the channel's own
    /// value if one was set, else the global default, else nothing.
    pub open spec fn spec_resolve(self, c: int, cc_type: CcType) -> Option<u8> {
        match self.channel_entry(c) {
            Some(st) => if st.spec_get(cc_type) is Some {
                st.spec_get(cc_type)
            } else {
                self.global_defaults.spec_get(cc_type)
            },
            None => self.global_defaults.spec_get(cc_type),
        }
    }

    /// True if at least one channel has an explicit entry.
    pub open spec fn has_explicit_channels(self) -> bool {
        exists|c: int| 0 <= c < 16 && self.channel_entry(c) is Some
    }

    /// The ascending list of channels below `n` that have an explicit entry.
    pub open spec fn explicit_channels_upto(self, n: int) -> Seq<u8>
        decreases n,
    {
        if n <= 0 {
            Seq::empty()
        } else if self.channel_entry(n - 1) is Some {
            self.explicit_channels_upto(n - 1).push((n - 1) as u8)
        } else {
            self.explicit_channels_upto(n - 1)
        }
    }

    /// The channels override injection applies to: the ascending list of
    /// channels with explicit entries, or all 16 channels if there is none
    /// (global defaults must still reach every channel).
    pub open spec fn spec_active_channels(self) -> Seq<u8> {
        if self.has_explicit_channels() {
            self.explicit_channels_upto(16)
        } else {
            Seq::new(16, |i: int| i as u8)
        }
    }

    /// An empty store: no per-channel entries, nothing set globally.
    pub fn new() -> (s: Self)
        ensures
            s.wf(),
            forall|c: int| 0 <= c < 16 ==> s.channel_entry(c) is None,
            s.global_defaults == ChannelCcState::spec_empty(),
    {
        let mut channels: Vec<Option<ChannelCcState>> = Vec::new();
        let mut i: usize = 0;
        while i < 16
            invariant
                i <= 16,
                channels@.len() == i,
                forall|c: int| 0 <= c < i ==> channels@[c] is None,
            decreases 16 - i,
        {
            channels.push(None);
            i = i + 1;
        }
        CcStateManager { channels, global_defaults: ChannelCcState::empty() }
    }

    /// Set one parameter for one channel, creating the channel's entry if
    /// it is absent. Only the named field changes; the other channels and
    /// the global defaults are untouched.
    pub fn set_channel_cc(&mut self, channel: u8, cc_type: CcType, value: u8)
        requires
            old(self).wf(),
            channel < 16,
            value <= 127,
        ensures
            final(self).wf(),
            final(self).channels@ == old(self).channels@.update(
                channel as int,
                Some(old(self).entry_or_empty(channel as int).spec_set(cc_type, value)),
            ),
            final(self).global_defaults == old(self).global_defaults,
    {
        let mut st = match self.channels[channel as usize] {
            Some(s) => s,
            None => ChannelCcState::empty(),
        };
        st.set(cc_type, value);
        self.channels.set(channel as usize, Some(st));
    }

    /// Set one parameter in the global defaults. The per-channel entries
    /// are untouched.
    pub fn set_global_cc(&mut self, cc_type: CcType, value: u8)
        requires
            old(self).wf(),
            value <= 127,
        ensures
            final(self).wf(),
            final(self).global_defaults == old(self).global_defaults.spec_set(cc_type, value),
            final(self).channels@ == old(self).channels@,
    {
        self.global_defaults.set(cc_type, value);
    }

    /// The effective value of `cc_type` on `channel`: the channel-specific
    /// value if set, else the global default, else `None`.
    pub fn get_cc_value(&self, channel: u8, cc_type: CcType) -> (r: Option<u8>)
        requires
            self.wf(),
            channel < 16,
        ensures
            r == self.spec_resolve(channel as int, cc_type),
            r matches Some(v) ==> v <= 127,
    {
        let channel_value = match &self.channels[channel as usize] {
            Some(st) => st.get(cc_type),
            None => None,
        };
        match channel_value {
            Some(v) => Some(v),
            None => self.global_defaults.get(cc_type),
        }
    }

    proof fn lemma_explicit_channels_upto(self, n: int)
        requires
            0 <= n <= 16,
        ensures
            self.explicit_channels_upto(n).len() <= n,
            forall|k: int|
                0 <= k < self.explicit_channels_upto(n).len() ==> (
                    #[trigger] self.explicit_channels_upto(n)[k] < n
                    && self.channel_entry(self.explicit_channels_upto(n)[k] as int) is Some
                ),
            forall|c: u8|
                #[trigger] self.explicit_channels_upto(n).contains(c) <==> (
                    c < n && self.channel_entry(c as int) is Some
                ),
            forall|k1: int, k2: int|
                0 <= k1 < k2 < self.explicit_channels_upto(n).len() ==>
                    #[trigger] self.explicit_channels_upto(n)[k1]
                    < #[trigger] self.explicit_channels_upto(n)[k2],
        decreases n,
    {
        if n > 0 {
            self.lemma_explicit_channels_upto(n - 1);
            let pre = self.explicit_channels_upto(n - 1);
            let cur = self.explicit_channels_upto(n);
            if self.channel_entry(n - 1) is Some {
                assert forall|c: u8| #[trigger] cur.contains(c) implies (
                    c < n && self.channel_entry(c as int) is Some
                ) by {
                    let k = choose|k: int| 0 <= k < cur.len() && cur[k] == c;
                    if k < pre.len() {
                        assert(pre.contains(c));
                    }
                }
                assert forall|c: u8| c < n && self.channel_entry(c as int) is Some
                    implies #[trigger] cur.contains(c) by {
                    if c < n - 1 {
                        assert(pre.contains(c));
                        let k = choose|k: int| 0 <= k < pre.len() && pre[k] == c;
                        assert(cur[k] == c);
                    } else {
                        assert(cur[cur.len() - 1] == c);
                    }
                }
            } else {
                assert forall|c: u8| #[trigger] cur.contains(c) implies (
                    c < n && self.channel_entry(c as int) is Some
                ) by {
                    assert(pre.contains(c));
                }
                assert forall|c: u8| c < n && self.channel_entry(c as int) is Some
                    implies #[trigger] cur.contains(c) by {
                    assert(pre.contains(c));
                }
            }
        }
    }

    /// The channels to inject overrides into, ascending. All 16 channels
    /// when no channel has an explicit entry, else exactly the channels
    /// that have one.
    pub fn get_active_channels(&self) -> (r: Vec<u8>)
        requires
            self.wf(),
        ensures
            r@ == self.spec_active_channels(),
            forall|k: int| 0 <= k < r@.len() ==> #[trigger] r@[k] < 16,
    {
        let mut v: Vec<u8> = Vec::new();
        let mut i: usize = 0;
        while i < 16
            invariant
                self.wf(),
                i <= 16,
                v@ == self.explicit_channels_upto(i as int),
            decreases 16 - i,
        {
            if self.channels[i].is_some() {
                v.push(i as u8);
            }
            i = i + 1;
        }
        proof {
            self.lemma_explicit_channels_upto(16);
        }
        if v.len() == 0 {
            proof {
                assert forall|c: int| 0 <= c < 16 implies self.channel_entry(c) is None by {
                    if self.channel_entry(c) is Some {
                        assert(self.explicit_channels_upto(16).contains(c as u8));
                    }
                }
            }
            let mut all: Vec<u8> = Vec::new();
            let mut c: usize = 0;
            while c < 16
                invariant
                    c <= 16,
                    all@.len() == c,
                    forall|k: int| 0 <= k < c ==> #[trigger] all@[k] == k as u8,
                decreases 16 - c,
            {
                all.push(c as u8);
                c = c + 1;
            }
            proof {
                assert(all@ =~= Seq::new(16, |i: int| i as u8));
            }
            all
        } else {
            proof {
                let c0 = self.explicit_channels_upto(16)[0];
                assert(self.channel_entry(c0 as int) is Some);
            }
            v
        }
    }
}

/// The mathematical content of a store: what each channel holds and what
/// the global defaults hold.
#[verifier::ext_equal]
pub struct CcModel {
    pub channels: Seq<Option<ChannelCcState>>,
    pub global: ChannelCcState,
}

impl CcStateManager {
    pub open spec fn model(self) -> CcModel {
        CcModel { channels: self.channels@, global: self.global_defaults }
    }
}

/// `model` after one per-channel write.
pub open spec fn model_set_channel(m: CcModel, channel: int, cc_type: CcType, value: u8) -> CcModel {
    CcModel {
        channels: m.channels.update(
            channel,
            Some(
                (match m.channels[channel] {
                    Some(st) => st,
                    None => ChannelCcState::spec_empty(),
                }).spec_set(cc_type, value),
            ),
        ),
        global: m.global,
    }
}

/// The active channel set is exactly the 16 channels 0..15 when no channel
/// has an explicit entry, and otherwise exactly the channels that have
/// one, in strictly ascending order (hence without duplicates).
pub proof fn lemma_active_channels_exact(store: CcStateManager)
    requires
        store.wf(),
    ensures
        !store.has_explicit_channels() ==> store.spec_active_channels() == Seq::new(
            16,
            |i: int| i as u8,
        ),
        store.has_explicit_channels() ==> forall|c: u8|
            #[trigger] store.spec_active_channels().contains(c) <==> (c < 16
                && store.channel_entry(c as int) is Some),
        forall|k1: int, k2: int|
            0 <= k1 < k2 < store.spec_active_channels().len()
                ==> #[trigger] store.spec_active_channels()[k1]
                < #[trigger] store.spec_active_channels()[k2],
{
    store.lemma_explicit_channels_upto(16);
}

/// A parameter never set at any scope resolves to nothing: if no channel
/// entry and not the global default holds a value for `cc_type`, then
/// `resolve` yields `None` on every channel.
pub proof fn lemma_resolve_unset(store: CcStateManager, cc_type: CcType)
    requires
        store.wf(),
        store.global_defaults.spec_get(cc_type) is None,
        forall|c: int|
            0 <= c < 16 ==> (#[trigger] store.channel_entry(c) matches Some(st)
                ==> st.spec_get(cc_type) is None),
    ensures
        forall|c: int| 0 <= c < 16 ==> #[trigger] store.spec_resolve(c, cc_type) is None,
{
}

/// A parameter set only globally resolves to the global value on every
/// channel: the fallback reaches all 16 channels.
pub proof fn lemma_resolve_global_only(store: CcStateManager, cc_type: CcType, v: u8)
    requires
        store.wf(),
        store.global_defaults.spec_get(cc_type) == Some(v),
        forall|c: int|
            0 <= c < 16 ==> (#[trigger] store.channel_entry(c) matches Some(st)
                ==> st.spec_get(cc_type) is None),
    ensures
        forall|c: int| 0 <= c < 16 ==> #[trigger] store.spec_resolve(c, cc_type) == Some(v),
{
}

/// A channel-specific value wins over the global default on its own
/// channel, while every other channel still resolves to the global value.
pub proof fn lemma_resolve_channel_wins(
    store: CcStateManager,
    cc_type: CcType,
    c: int,
    g: u8,
    v: u8,
)
    requires
        store.wf(),
        0 <= c < 16,
        store.global_defaults.spec_get(cc_type) == Some(g),
        store.channel_entry(c) matches Some(st) && st.spec_get(cc_type) == Some(v),
        forall|c2: int|
            0 <= c2 < 16 && c2 != c ==> (#[trigger] store.channel_entry(c2) matches Some(st)
                ==> st.spec_get(cc_type) is None),
    ensures
        store.spec_resolve(c, cc_type) == Some(v),
        forall|c2: int|
            0 <= c2 < 16 && c2 != c ==> #[trigger] store.spec_resolve(c2, cc_type) == Some(g),
{
}

} // verus!
