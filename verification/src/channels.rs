//! Characteristic resolver: identifies the command and status channels among a
//! peripheral's discovered characteristics and decides eligibility for the
//! notification loop.

use vstd::prelude::*;

verus! {

/// Identifier of the advertised service that marks an eligible peripheral.
pub const PERIPHERAL_SERVICE_UUID: u128 = 0x0000ffe0_0000_1000_8000_00805f9b34fb;

/// Identifier of the command channel: the characteristic whose notifications
/// carry script-selection payloads.
pub const SCRIPT_CHARACTERISTIC_UUID: u128 = 0x0000ffe1_0000_1000_8000_00805f9b34fb;

/// Identifier of the optional status channel, used to report script outcomes.
pub const STATUS_CHARACTERISTIC_UUID: u128 = 0x0000ffe2_0000_1000_8000_00805f9b34fb;

/// Capability flags of a characteristic, as far as the protocol reads them.
#[derive(Clone, Copy, PartialEq, Eq, Structural, Debug)]
pub struct CharProps {
    pub notify: bool,
    pub read: bool,
    pub write_without_response: bool,
}

/// A discovered characteristic: its 128-bit identifier, the service that owns
/// it, and its capability flags.
#[derive(Clone, Copy, PartialEq, Eq, Structural, Debug)]
pub struct Characteristic {
    pub uuid: u128,
    pub service_uuid: u128,
    pub properties: CharProps,
}

/// The two logical channels resolved from a peripheral's characteristic set.
/// An absent command channel makes the peripheral ineligible; an absent status
/// channel only degrades status reporting to a no-op.
#[derive(Clone, Copy, PartialEq, Eq, Debug)]
pub struct ResolvedChannels {
    pub command: Option<Characteristic>,
    pub status: Option<Characteristic>,
}

/// The characteristic with the given identifier, taking the last match so that
/// a duplicated identifier resolves the same way as a map filled in order.
pub open spec fn spec_find_channel(cs: Seq<Characteristic>, id: u128) -> Option<Characteristic>
    decreases cs.len(),
{
    if cs.len() == 0 {
        None
    } else if cs.last().uuid == id {
        Some(cs.last())
    } else {
        spec_find_channel(cs.drop_last(), id)
    }
}

/// Channel resolution as a mathematical function of the characteristic set.
pub open spec fn spec_resolve(cs: Seq<Characteristic>) -> ResolvedChannels {
    ResolvedChannels {
        command: spec_find_channel(cs, SCRIPT_CHARACTERISTIC_UUID),
        status: spec_find_channel(cs, STATUS_CHARACTERISTIC_UUID),
    }
}

/// The single eligibility gate for the notification loop: the command channel
/// is present and can push notifications.
pub open spec fn spec_command_usable(ch: ResolvedChannels) -> bool {
    match ch.command {
        Some(c) => c.properties.notify,
        None => false,
    }
}

pub proof fn lemma_find_channel_props(cs: Seq<Characteristic>, id: u128)
    ensures
        spec_find_channel(cs, id) matches Some(c) ==> c.uuid == id && cs.contains(c),
        spec_find_channel(cs, id) is Some <==> exists|i: int|
            0 <= i < cs.len() && cs[i].uuid == id,
    decreases cs.len(),
{
    if cs.len() > 0 {
        if cs.last().uuid == id {
            assert(cs[cs.len() - 1].uuid == id);
        } else {
            lemma_find_channel_props(cs.drop_last(), id);
            if spec_find_channel(cs.drop_last(), id) is Some {
                let c = spec_find_channel(cs.drop_last(), id).unwrap();
                let i = choose|i: int| 0 <= i < cs.drop_last().len() && cs.drop_last()[i] == c;
                assert(cs.drop_last().contains(c));
                assert(cs[i] == c);
                assert(cs.contains(c));
            }
            if exists|i: int| 0 <= i < cs.len() && cs[i].uuid == id {
                let i = choose|i: int| 0 <= i < cs.len() && cs[i].uuid == id;
                assert(i < cs.len() - 1);
                assert(cs.drop_last()[i].uuid == id);
            }
        }
    }
}

fn find_channel(cs: &Vec<Characteristic>, id: u128) -> (r: Option<Characteristic>)
    ensures
        r == spec_find_channel(cs@, id),
{
    let mut found: Option<Characteristic> = None;
    let mut i: usize = 0;
    while i < cs.len()
        invariant
            i <= cs@.len(),
            found == spec_find_channel(cs@.take(i as int), id),
        decreases cs@.len() - i,
    {
        if cs[i].uuid == id {
            found = Some(cs[i]);
        }
        proof {
            let pre = cs@.take(i as int);
            let post = cs@.take(i + 1int);
            assert(post.last() == cs@[i as int]);
            assert(post.drop_last() =~= pre);
        }
        i += 1;
    }
    proof {
        assert(cs@.take(cs@.len() as int) =~= cs@);
    }
    found
}

/// Maps a discovered characteristic set onto the command and status channels.
/// Absence of either produces `None` for that slot; resolution never errors.
pub fn resolve(characteristics: &Vec<Characteristic>) -> (r: ResolvedChannels)
    ensures
        r == spec_resolve(characteristics@),
        r.command matches Some(c) ==> c.uuid == SCRIPT_CHARACTERISTIC_UUID
            && characteristics@.contains(c),
        r.command is Some <==> exists|i: int|
            0 <= i < characteristics@.len()
                && characteristics@[i].uuid == SCRIPT_CHARACTERISTIC_UUID,
        r.status matches Some(c) ==> c.uuid == STATUS_CHARACTERISTIC_UUID
            && characteristics@.contains(c),
        r.status is Some <==> exists|i: int|
            0 <= i < characteristics@.len()
                && characteristics@[i].uuid == STATUS_CHARACTERISTIC_UUID,
{
    proof {
        lemma_find_channel_props(characteristics@, SCRIPT_CHARACTERISTIC_UUID);
        lemma_find_channel_props(characteristics@, STATUS_CHARACTERISTIC_UUID);
    }
    ResolvedChannels {
        command: find_channel(characteristics, SCRIPT_CHARACTERISTIC_UUID),
        status: find_channel(characteristics, STATUS_CHARACTERISTIC_UUID),
    }
}

/// True iff the command channel is present and its flags include notify.
pub fn command_usable(channels: &ResolvedChannels) -> (r: bool)
    ensures
        r == spec_command_usable(*channels),
{
    match channels.command {
        Some(c) => c.properties.notify,
        None => false,
    }
}

/// True iff the target service identifier occurs in the discovered service set.
pub fn service_present(services: &Vec<u128>, target: u128) -> (r: bool)
    ensures
        r == services@.contains(target),
{
    let mut i: usize = 0;
    while i < services.len()
        invariant
            i <= services@.len(),
            forall|j: int| 0 <= j < i ==> services@[j] != target,
        decreases services@.len() - i,
    {
        if services[i] == target {
            return true;
        }
        i += 1;
    }
    false
}

/// Resolution is a pure function of the characteristic set: two resolutions of
/// the same set yield identical channels.
pub proof fn lemma_resolve_idempotent(
    cs: Seq<Characteristic>,
    r1: ResolvedChannels,
    r2: ResolvedChannels,
)
    requires
        r1 == spec_resolve(cs),
        r2 == spec_resolve(cs),
    ensures
        r1 == r2,
{
}

} // verus!
