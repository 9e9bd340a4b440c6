//! The spatial flag tables of the device protocol, and the fixed effect group
//! played when the link comes up.
//!
//! The shake flag field is 8 bytes wide and fine-grained: each mapped
//! actuator index owns one dedicated bit (counting from the least
//! significant bit of the big-endian field), and indices outside the table's
//! domain are silently dropped by the encoder.  The electrical flag field is
//! 4 bytes wide and coarse: an index only selects its zone, front (below
//! 100) or back (100 and above), and each zone owns one nibble of the field.

use vstd::prelude::*;
use vstd::string::StringExecFns;

use crate::command::ActionType;
use crate::command::ControlCommand;
use crate::command::ControlCommandBody;
use crate::command::ControlCommandTrack;
use crate::command::IntensityMode;
use crate::encode::spec_electrical_object;
use crate::encode::spec_message_bytes;
use crate::encode::spec_message_encodable;
use crate::encode::spec_shake_object;
use crate::encode::spec_tracks_bytes;
use crate::encode::spec_tracks_count;
use crate::encode::IntensityModeSingleTrack;

verus! {

/// The shake flag table: actuator index to bit position in the 64-bit flag
/// field.  Indices 0-19 address the front zone, 100-119 the back zone; all
/// other indices are unmapped.
pub open spec fn spec_shake_flag_shift(i: u8) -> Option<u8> {
    if i == 0 { Some(0x3F) } else if i == 4 { Some(0x3E) } else if i == 8 { Some(0x3D) }
    else if i == 12 { Some(0x3C) } else if i == 16 { Some(0x3B) } else if i == 1 { Some(0x3A) }
    else if i == 5 { Some(0x39) } else if i == 9 { Some(0x38) } else if i == 13 { Some(0x37) }
    else if i == 17 { Some(0x36) } else if i == 100 { Some(0x2F) } else if i == 104 { Some(0x2E) }
    else if i == 108 { Some(0x2D) } else if i == 112 { Some(0x2C) } else if i == 116 { Some(0x2B) }
    else if i == 101 { Some(0x2A) } else if i == 105 { Some(0x29) } else if i == 109 { Some(0x28) }
    else if i == 113 { Some(0x27) } else if i == 117 { Some(0x26) } else if i == 102 { Some(0x1F) }
    else if i == 106 { Some(0x1E) } else if i == 110 { Some(0x1D) } else if i == 114 { Some(0x1C) }
    else if i == 118 { Some(0x1B) } else if i == 103 { Some(0x1A) } else if i == 107 { Some(0x19) }
    else if i == 111 { Some(0x18) } else if i == 115 { Some(0x17) } else if i == 119 { Some(0x16) }
    else if i == 2 { Some(0x0F) } else if i == 6 { Some(0x0E) } else if i == 10 { Some(0x0D) }
    else if i == 14 { Some(0x0C) } else if i == 18 { Some(0x0B) } else if i == 3 { Some(0x0A) }
    else if i == 7 { Some(0x09) } else if i == 11 { Some(0x08) } else if i == 15 { Some(0x07) }
    else if i == 19 { Some(0x06) } else { None }
}

/// Looks up the shake flag bit position of one actuator index.
pub fn shake_flag_shift(i: u8) -> (r: Option<u8>)
    ensures
        r == spec_shake_flag_shift(i),
        r matches Some(s) ==> s < 64,
{
    match i {
        0 => Some(0x3F), 4 => Some(0x3E), 8 => Some(0x3D), 12 => Some(0x3C), 16 => Some(0x3B),
        1 => Some(0x3A), 5 => Some(0x39), 9 => Some(0x38), 13 => Some(0x37), 17 => Some(0x36),
        100 => Some(0x2F), 104 => Some(0x2E), 108 => Some(0x2D), 112 => Some(0x2C), 116 => Some(0x2B),
        101 => Some(0x2A), 105 => Some(0x29), 109 => Some(0x28), 113 => Some(0x27), 117 => Some(0x26),
        102 => Some(0x1F), 106 => Some(0x1E), 110 => Some(0x1D), 114 => Some(0x1C), 118 => Some(0x1B),
        103 => Some(0x1A), 107 => Some(0x19), 111 => Some(0x18), 115 => Some(0x17), 119 => Some(0x16),
        2 => Some(0x0F), 6 => Some(0x0E), 10 => Some(0x0D), 14 => Some(0x0C), 18 => Some(0x0B),
        3 => Some(0x0A), 7 => Some(0x09), 11 => Some(0x08), 15 => Some(0x07), 19 => Some(0x06),
        _ => None,
    }
}

/// The shake flag table as a list of `(index, bit position)` pairs, in the
/// order of the device documentation.
pub open spec fn spec_shake_flag_table() -> Seq<(u8, u8)> {
    seq![
        (0u8, 0x3Fu8), (4u8, 0x3Eu8), (8u8, 0x3Du8), (12u8, 0x3Cu8), (16u8, 0x3Bu8),
        (1u8, 0x3Au8), (5u8, 0x39u8), (9u8, 0x38u8), (13u8, 0x37u8), (17u8, 0x36u8),
        (100u8, 0x2Fu8), (104u8, 0x2Eu8), (108u8, 0x2Du8), (112u8, 0x2Cu8), (116u8, 0x2Bu8),
        (101u8, 0x2Au8), (105u8, 0x29u8), (109u8, 0x28u8), (113u8, 0x27u8), (117u8, 0x26u8),
        (102u8, 0x1Fu8), (106u8, 0x1Eu8), (110u8, 0x1Du8), (114u8, 0x1Cu8), (118u8, 0x1Bu8),
        (103u8, 0x1Au8), (107u8, 0x19u8), (111u8, 0x18u8), (115u8, 0x17u8), (119u8, 0x16u8),
        (2u8, 0x0Fu8), (6u8, 0x0Eu8), (10u8, 0x0Du8), (14u8, 0x0Cu8), (18u8, 0x0Bu8),
        (3u8, 0x0Au8), (7u8, 0x09u8), (11u8, 0x08u8), (15u8, 0x07u8), (19u8, 0x06u8),
    ]
}

/// Builds the shake flag table.  Every pair agrees with the lookup function,
/// and every mapped index appears exactly once.
pub fn shake_flag_shift_map() -> (m: Vec<(u8, u8)>)
    ensures
        m@ == spec_shake_flag_table(),
{
    let mut m: Vec<(u8, u8)> = Vec::new();
    m.push((0, 0x3F)); m.push((4, 0x3E)); m.push((8, 0x3D)); m.push((12, 0x3C)); m.push((16, 0x3B));
    m.push((1, 0x3A)); m.push((5, 0x39)); m.push((9, 0x38)); m.push((13, 0x37)); m.push((17, 0x36));
    m.push((100, 0x2F)); m.push((104, 0x2E)); m.push((108, 0x2D)); m.push((112, 0x2C)); m.push((116, 0x2B));
    m.push((101, 0x2A)); m.push((105, 0x29)); m.push((109, 0x28)); m.push((113, 0x27)); m.push((117, 0x26));
    m.push((102, 0x1F)); m.push((106, 0x1E)); m.push((110, 0x1D)); m.push((114, 0x1C)); m.push((118, 0x1B));
    m.push((103, 0x1A)); m.push((107, 0x19)); m.push((111, 0x18)); m.push((115, 0x17)); m.push((119, 0x16));
    m.push((2, 0x0F)); m.push((6, 0x0E)); m.push((10, 0x0D)); m.push((14, 0x0C)); m.push((18, 0x0B));
    m.push((3, 0x0A)); m.push((7, 0x09)); m.push((11, 0x08)); m.push((15, 0x07)); m.push((19, 0x06));
    proof {
        assert(m@ =~= spec_shake_flag_table());
    }
    m
}

/// Every entry of the shake flag table agrees with the lookup function, and
/// every mapped index stands in the table.
pub proof fn lemma_shake_flag_table_complete()
    ensures
        forall|k: int| 0 <= k < spec_shake_flag_table().len()
            ==> spec_shake_flag_shift(#[trigger] spec_shake_flag_table()[k].0)
                == Some(spec_shake_flag_table()[k].1),
        forall|i: u8| spec_shake_flag_shift(i) is Some
            ==> exists|k: int| 0 <= k < spec_shake_flag_table().len()
                && #[trigger] spec_shake_flag_table()[k]
                    == (i, spec_shake_flag_shift(i)->Some_0),
{
    assert forall|i: u8| spec_shake_flag_shift(i) is Some
        implies exists|k: int| 0 <= k < spec_shake_flag_table().len()
            && #[trigger] spec_shake_flag_table()[k] == (i, spec_shake_flag_shift(i)->Some_0) by {
        if i == 0 { assert(spec_shake_flag_table()[0] == (i, spec_shake_flag_shift(i)->Some_0)); }
        else if i == 4 { assert(spec_shake_flag_table()[1] == (i, spec_shake_flag_shift(i)->Some_0)); }
        else if i == 8 { assert(spec_shake_flag_table()[2] == (i, spec_shake_flag_shift(i)->Some_0)); }
        else if i == 12 { assert(spec_shake_flag_table()[3] == (i, spec_shake_flag_shift(i)->Some_0)); }
        else if i == 16 { assert(spec_shake_flag_table()[4] == (i, spec_shake_flag_shift(i)->Some_0)); }
        else if i == 1 { assert(spec_shake_flag_table()[5] == (i, spec_shake_flag_shift(i)->Some_0)); }
        else if i == 5 { assert(spec_shake_flag_table()[6] == (i, spec_shake_flag_shift(i)->Some_0)); }
        else if i == 9 { assert(spec_shake_flag_table()[7] == (i, spec_shake_flag_shift(i)->Some_0)); }
        else if i == 13 { assert(spec_shake_flag_table()[8] == (i, spec_shake_flag_shift(i)->Some_0)); }
        else if i == 17 { assert(spec_shake_flag_table()[9] == (i, spec_shake_flag_shift(i)->Some_0)); }
        else if i == 100 { assert(spec_shake_flag_table()[10] == (i, spec_shake_flag_shift(i)->Some_0)); }
        else if i == 104 { assert(spec_shake_flag_table()[11] == (i, spec_shake_flag_shift(i)->Some_0)); }
        else if i == 108 { assert(spec_shake_flag_table()[12] == (i, spec_shake_flag_shift(i)->Some_0)); }
        else if i == 112 { assert(spec_shake_flag_table()[13] == (i, spec_shake_flag_shift(i)->Some_0)); }
        else if i == 116 { assert(spec_shake_flag_table()[14] == (i, spec_shake_flag_shift(i)->Some_0)); }
        else if i == 101 { assert(spec_shake_flag_table()[15] == (i, spec_shake_flag_shift(i)->Some_0)); }
        else if i == 105 { assert(spec_shake_flag_table()[16] == (i, spec_shake_flag_shift(i)->Some_0)); }
        else if i == 109 { assert(spec_shake_flag_table()[17] == (i, spec_shake_flag_shift(i)->Some_0)); }
        else if i == 113 { assert(spec_shake_flag_table()[18] == (i, spec_shake_flag_shift(i)->Some_0)); }
        else if i == 117 { assert(spec_shake_flag_table()[19] == (i, spec_shake_flag_shift(i)->Some_0)); }
        else if i == 102 { assert(spec_shake_flag_table()[20] == (i, spec_shake_flag_shift(i)->Some_0)); }
        else if i == 106 { assert(spec_shake_flag_table()[21] == (i, spec_shake_flag_shift(i)->Some_0)); }
        else if i == 110 { assert(spec_shake_flag_table()[22] == (i, spec_shake_flag_shift(i)->Some_0)); }
        else if i == 114 { assert(spec_shake_flag_table()[23] == (i, spec_shake_flag_shift(i)->Some_0)); }
        else if i == 118 { assert(spec_shake_flag_table()[24] == (i, spec_shake_flag_shift(i)->Some_0)); }
        else if i == 103 { assert(spec_shake_flag_table()[25] == (i, spec_shake_flag_shift(i)->Some_0)); }
        else if i == 107 { assert(spec_shake_flag_table()[26] == (i, spec_shake_flag_shift(i)->Some_0)); }
        else if i == 111 { assert(spec_shake_flag_table()[27] == (i, spec_shake_flag_shift(i)->Some_0)); }
        else if i == 115 { assert(spec_shake_flag_table()[28] == (i, spec_shake_flag_shift(i)->Some_0)); }
        else if i == 119 { assert(spec_shake_flag_table()[29] == (i, spec_shake_flag_shift(i)->Some_0)); }
        else if i == 2 { assert(spec_shake_flag_table()[30] == (i, spec_shake_flag_shift(i)->Some_0)); }
        else if i == 6 { assert(spec_shake_flag_table()[31] == (i, spec_shake_flag_shift(i)->Some_0)); }
        else if i == 10 { assert(spec_shake_flag_table()[32] == (i, spec_shake_flag_shift(i)->Some_0)); }
        else if i == 14 { assert(spec_shake_flag_table()[33] == (i, spec_shake_flag_shift(i)->Some_0)); }
        else if i == 18 { assert(spec_shake_flag_table()[34] == (i, spec_shake_flag_shift(i)->Some_0)); }
        else if i == 3 { assert(spec_shake_flag_table()[35] == (i, spec_shake_flag_shift(i)->Some_0)); }
        else if i == 7 { assert(spec_shake_flag_table()[36] == (i, spec_shake_flag_shift(i)->Some_0)); }
        else if i == 11 { assert(spec_shake_flag_table()[37] == (i, spec_shake_flag_shift(i)->Some_0)); }
        else if i == 15 { assert(spec_shake_flag_table()[38] == (i, spec_shake_flag_shift(i)->Some_0)); }
        else { assert(spec_shake_flag_table()[39] == (i, spec_shake_flag_shift(i)->Some_0)); }
    }
}

/// No two mapped actuator indices share a bit position: the shake flag
/// table is injective on its domain.
pub proof fn lemma_shake_flag_shift_injective(i1: u8, i2: u8)
    requires
        spec_shake_flag_shift(i1) is Some,
        spec_shake_flag_shift(i2) is Some,
        i1 != i2,
    ensures
        spec_shake_flag_shift(i1) != spec_shake_flag_shift(i2),
{
}

/// The far corner of each zone resolves to its own bit: back index 119 and
/// front index 19 are both mapped, to distinct bit positions whose flag
/// bits do not collide.
pub proof fn lemma_zone_corners_distinct()
    ensures
        spec_shake_flag_shift(119) == Some(0x16u8),
        spec_shake_flag_shift(19) == Some(0x06u8),
        spec_shake_flag_shift(119) != spec_shake_flag_shift(19),
        (1u64 << 0x16u64) & (1u64 << 0x06u64) == 0,
{
    assert((1u64 << 0x16u64) & (1u64 << 0x06u64) == 0) by (bit_vector);
}

/// The electrical flag field is coarse: any front-zone index (below 100)
/// sets bits 28-31 of the 32-bit field, any back-zone index (100 and above)
/// sets bits 12-15.
pub open spec fn spec_electrical_flag_mask(i: u8) -> u32 {
    if i < 100 {
        (1u32 << 0x1F) | (1u32 << 0x1E) | (1u32 << 0x1D) | (1u32 << 0x1C)
    } else {
        (1u32 << 0x0F) | (1u32 << 0x0E) | (1u32 << 0x0D) | (1u32 << 0x0C)
    }
}

/// The electrical flag bits an actuator index contributes, as a 32-bit
/// mask: its zone's nibble.
pub fn electrical_flag_mask(i: u8) -> (r: u32)
    ensures
        r == spec_electrical_flag_mask(i),
{
    if i < 100 {
        (1u32 << 0x1F) | (1u32 << 0x1E) | (1u32 << 0x1D) | (1u32 << 0x1C)
    } else {
        (1u32 << 0x0F) | (1u32 << 0x0E) | (1u32 << 0x0D) | (1u32 << 0x0C)
    }
}

/// The electrical zone table as `(zone anchor index, bit positions)` pairs:
/// the front zone's bits under its anchor 0, the back zone's under 100.
/// Every index of a zone contributes exactly its zone's bits.
pub fn electrical_flag_shift_map() -> (m: Vec<(u8, [u8; 4])>)
    ensures
        m@.len() == 2,
        m@[0] == (0u8, [0x1Fu8, 0x1Eu8, 0x1Du8, 0x1Cu8]),
        m@[1] == (100u8, [0x0Fu8, 0x0Eu8, 0x0Du8, 0x0Cu8]),
        forall|i: u8|
            i < 100 ==> #[trigger] spec_electrical_flag_mask(i) == spec_electrical_flag_mask(0),
        forall|i: u8|
            i >= 100 ==> #[trigger] spec_electrical_flag_mask(i) == spec_electrical_flag_mask(
                100,
            ),
{
    let mut m: Vec<(u8, [u8; 4])> = Vec::new();
    m.push((0, [0x1F, 0x1E, 0x1D, 0x1C]));
    m.push((100, [0x0F, 0x0E, 0x0D, 0x0C]));
    m
}

/// Every actuator index of both zones: 0-19 in front, 100-119 in back.
pub open spec fn spec_all_actuator_indices() -> Seq<u8> {
    Seq::new(
        40,
        |k: int|
            if k < 20 {
                k as u8
            } else {
                (80 + k) as u8
            },
    )
}

/// Builds the list of every actuator index of both zones.
fn all_actuator_indices() -> (r: Vec<u8>)
    ensures
        r@ == spec_all_actuator_indices(),
{
    let mut r: Vec<u8> = Vec::new();
    let mut i: u8 = 0;
    while i < 20
        invariant
            i <= 20,
            r@.len() == i as int,
            forall|k: int| 0 <= k < i ==> r@[k] == k as u8,
        decreases 20 - i,
    {
        r.push(i);
        i = i + 1;
    }
    let mut j: u8 = 100;
    while j < 120
        invariant
            100 <= j <= 120,
            r@.len() == 20 + (j - 100),
            forall|k: int| 0 <= k < 20 ==> r@[k] == k as u8,
            forall|k: int| 20 <= k < r@.len() ==> r@[k] == (80 + k) as u8,
        decreases 120 - j,
    {
        r.push(j);
        j = j + 1;
    }
    proof {
        assert(r@ =~= spec_all_actuator_indices());
    }
    r
}

/// The full-vest shake pulse of the greeting: a tenth of a second at a
/// gentle constant intensity on every actuator.
pub open spec fn spec_connected_shake_track(t: ControlCommandTrack) -> bool {
    &&& t.start_time == 0
    &&& t.end_time == 100
    &&& t.stop_name@ == ""@
    &&& t.start_intensity == 20
    &&& t.end_intensity == 20
    &&& t.intensity_mode is Const
    &&& t.action_type is Shake
    &&& !t.once
    &&& t.interval == 0
    &&& t.index@ == spec_all_actuator_indices()
}

/// The electrical tap of the greeting: a single momentary pulse fading from
/// a low intensity to nothing, with one index in each zone.
pub open spec fn spec_connected_electrical_track(t: ControlCommandTrack) -> bool {
    &&& t.start_time == 0
    &&& t.end_time == 0
    &&& t.stop_name@ == ""@
    &&& t.start_intensity == 30
    &&& t.end_intensity == 0
    &&& t.intensity_mode is Fade
    &&& t.action_type is Electrical
    &&& t.once
    &&& t.interval == 0
    &&& t.index@ == seq![0u8, 100u8]
}

/// What every message of the greeting group has in common.
pub open spec fn spec_connected_message(m: ControlCommand) -> bool {
    &&& m.method@ == "play_no_registered"@
    &&& m.body.name@ == "Connected"@
    &&& m.body.uuid@ == "Connected"@
    &&& !m.body.keep
    &&& m.body.priority == 0
    &&& m.body.tracks@.len() == 1
}

/// The short full-vest shake pulse of the greeting pattern.
fn connected_shake_message() -> (m: ControlCommand)
    ensures
        spec_connected_message(m),
        spec_connected_shake_track(m.body.tracks@[0]),
        spec_message_encodable(m),
{
    let mut tracks: Vec<ControlCommandTrack> = Vec::new();
    tracks.push(
        ControlCommandTrack {
            start_time: 0,
            end_time: 100,
            stop_name: String::from_str(""),
            start_intensity: 20,
            end_intensity: 20,
            intensity_mode: IntensityMode::Const,
            action_type: ActionType::Shake,
            once: false,
            interval: 0,
            index: all_actuator_indices(),
        },
    );
    proof {
        assert(spec_tracks_count(Seq::<ControlCommandTrack>::empty()) == 0);
        assert(tracks@.drop_last() =~= Seq::<ControlCommandTrack>::empty());
        assert(spec_tracks_count(tracks@) == 1);
    }
    ControlCommand {
        method: String::from_str("play_no_registered"),
        body: ControlCommandBody {
            name: String::from_str("Connected"),
            uuid: String::from_str("Connected"),
            keep: false,
            priority: 0,
            tracks,
        },
    }
}

/// The single electrical tap of the greeting pattern, one index per zone.
fn connected_electrical_message() -> (m: ControlCommand)
    ensures
        spec_connected_message(m),
        spec_connected_electrical_track(m.body.tracks@[0]),
        spec_message_encodable(m),
{
    let mut index: Vec<u8> = Vec::new();
    index.push(0);
    index.push(100);
    proof {
        assert(index@ =~= seq![0u8, 100u8]);
    }
    let mut tracks: Vec<ControlCommandTrack> = Vec::new();
    tracks.push(
        ControlCommandTrack {
            start_time: 0,
            end_time: 0,
            stop_name: String::from_str(""),
            start_intensity: 30,
            end_intensity: 0,
            intensity_mode: IntensityMode::Fade,
            action_type: ActionType::Electrical,
            once: true,
            interval: 0,
            index,
        },
    );
    proof {
        assert(spec_tracks_count(Seq::<ControlCommandTrack>::empty()) == 0);
        assert(tracks@.drop_last() =~= Seq::<ControlCommandTrack>::empty());
        assert(spec_tracks_count(tracks@) == 1);
    }
    ControlCommand {
        method: String::from_str("play_no_registered"),
        body: ControlCommandBody {
            name: String::from_str("Connected"),
            uuid: String::from_str("Connected"),
            keep: false,
            priority: 0,
            tracks,
        },
    }
}

/// The frame the full-vest shake of the greeting encodes to.
pub open spec fn spec_connected_shake_frame(ratio_permille: u32) -> Seq<u8> {
    seq![0x68u8, 0x68u8, 1u8] + spec_shake_object(
        IntensityModeSingleTrack::Const,
        0,
        false,
        0,
        100,
        20,
        20,
        spec_all_actuator_indices(),
    ) + seq![0x16u8]
}

/// The frame the electrical tap of the greeting encodes to.
pub open spec fn spec_connected_electrical_frame(ratio_permille: u32) -> Seq<u8> {
    seq![0x68u8, 0x68u8, 1u8] + spec_electrical_object(
        IntensityModeSingleTrack::Fade,
        true,
        0,
        0,
        0,
        30,
        0,
        seq![0u8, 100u8],
        ratio_permille,
    ) + seq![0x16u8]
}

/// A message of the greeting group with the shake track encodes to the
/// shake frame.
pub proof fn lemma_connected_shake_frame(m: ControlCommand, ratio_permille: u32)
    requires
        spec_connected_message(m),
        spec_connected_shake_track(m.body.tracks@[0]),
    ensures
        spec_message_bytes(m, ratio_permille) == spec_connected_shake_frame(ratio_permille),
{
    let ts = m.body.tracks@;
    assert(ts.drop_last() =~= Seq::<ControlCommandTrack>::empty());
    assert(spec_tracks_count(Seq::<ControlCommandTrack>::empty()) == 0);
    assert(spec_tracks_bytes(Seq::<ControlCommandTrack>::empty(), m.body.keep, ratio_permille)
        =~= Seq::<u8>::empty());
    assert(spec_message_bytes(m, ratio_permille) =~= spec_connected_shake_frame(ratio_permille));
}

/// A message of the greeting group with the electrical track encodes to the
/// electrical frame.
pub proof fn lemma_connected_electrical_frame(m: ControlCommand, ratio_permille: u32)
    requires
        spec_connected_message(m),
        spec_connected_electrical_track(m.body.tracks@[0]),
    ensures
        spec_message_bytes(m, ratio_permille) == spec_connected_electrical_frame(ratio_permille),
{
    let ts = m.body.tracks@;
    assert(ts.drop_last() =~= Seq::<ControlCommandTrack>::empty());
    assert(spec_tracks_count(Seq::<ControlCommandTrack>::empty()) == 0);
    assert(spec_tracks_bytes(Seq::<ControlCommandTrack>::empty(), m.body.keep, ratio_permille)
        =~= Seq::<u8>::empty());
    assert(((0u16 & 0xFF) as u8) == 0u8) by (bit_vector);
    assert(spec_message_bytes(m, ratio_permille) =~= spec_connected_electrical_frame(
        ratio_permille,
    ));
}

/// The whole greeting group encodes to its four frames back to back.
pub open spec fn spec_connected_greeting_bytes(ratio_permille: u32) -> Seq<u8> {
    spec_connected_shake_frame(ratio_permille) + spec_connected_electrical_frame(ratio_permille)
        + spec_connected_shake_frame(ratio_permille) + spec_connected_electrical_frame(
        ratio_permille,
    )
}

/// The fixed greeting played when the link comes up: a full-vest shake, an
/// electrical tap, and the same pair once more.
pub fn on_connected_message() -> (r: Vec<ControlCommand>)
    ensures
        r@.len() == 4,
        forall|k: int| 0 <= k < r@.len() ==> spec_message_encodable(#[trigger] r@[k]),
        forall|k: int| 0 <= k < r@.len() ==> spec_connected_message(#[trigger] r@[k]),
        spec_connected_shake_track(r@[0].body.tracks@[0]),
        spec_connected_electrical_track(r@[1].body.tracks@[0]),
        spec_connected_shake_track(r@[2].body.tracks@[0]),
        spec_connected_electrical_track(r@[3].body.tracks@[0]),
{
    let mut r: Vec<ControlCommand> = Vec::new();
    r.push(connected_shake_message());
    r.push(connected_electrical_message());
    r.push(connected_shake_message());
    r.push(connected_electrical_message());
    r
}

} // verus!
