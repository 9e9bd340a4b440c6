//! The command encoder: turns an effect into the device's framed byte
//! protocol.
//!
//! Frame layout per effect: `0x68 0x68 <object count> <objects> 0x16`.  A
//! track normally becomes one protocol object; a track in fade-in-and-out
//! mode becomes two fade objects split at the midpoint of its time span.
//! Every protocol object is 16 bytes long.

use vstd::prelude::*;

use crate::ble_notify_parser::spec_is_echo_object;
use crate::ble_notify_parser::spec_parse_frames;
use crate::ble_notify_parser::spec_parse_object;
use crate::ble_notify_parser::spec_parse_objects;
use crate::ble_notify_parser::DeviceStatus;
use crate::ble_notify_parser::ProtocolError;
use crate::command::ActionType;
use crate::command::ControlCommand;
use crate::command::ControlCommandBody;
use crate::command::ControlCommandTrack;
use crate::command::IntensityMode;
use crate::predefined::electrical_flag_mask;
use crate::predefined::shake_flag_shift;
use crate::predefined::spec_electrical_flag_mask;
use crate::predefined::spec_shake_flag_shift;

verus! {

/// A track's intensity course once fade-in-and-out has been split in two:
/// each emitted protocol object is either constant or a single fade.
#[derive(Clone, Copy, Debug, PartialEq, Eq, Structural)]
pub enum IntensityModeSingleTrack {
    Const,
    Fade,
}

/// A 16-bit value as two big-endian bytes.
pub open spec fn spec_u16_be(x: u16) -> Seq<u8> {
    seq![((x >> 8) & 0xFF) as u8, (x & 0xFF) as u8]
}

/// A 64-bit value as eight big-endian bytes.
pub open spec fn spec_u64_be(w: u64) -> Seq<u8> {
    seq![
        ((w >> 56) & 0xFF) as u8, ((w >> 48) & 0xFF) as u8,
        ((w >> 40) & 0xFF) as u8, ((w >> 32) & 0xFF) as u8,
        ((w >> 24) & 0xFF) as u8, ((w >> 16) & 0xFF) as u8,
        ((w >> 8) & 0xFF) as u8, (w & 0xFF) as u8,
    ]
}

/// A 32-bit value as four big-endian bytes.
pub open spec fn spec_u32_be(w: u32) -> Seq<u8> {
    seq![
        ((w >> 24) & 0xFF) as u8, ((w >> 16) & 0xFF) as u8,
        ((w >> 8) & 0xFF) as u8, (w & 0xFF) as u8,
    ]
}

/// The shake flag word: one bit per mapped actuator index, unmapped indices
/// contribute nothing.
pub open spec fn spec_shake_flag_word(index: Seq<u8>) -> u64
    decreases index.len(),
{
    if index.len() == 0 {
        0u64
    } else {
        let w = spec_shake_flag_word(index.drop_last());
        match spec_shake_flag_shift(index.last()) {
            Some(s) => w | (1u64 << (s as u64)),
            None => w,
        }
    }
}

/// The electrical flag word: the union of the zone masks of the indices.
pub open spec fn spec_electrical_flag_word(index: Seq<u8>) -> u32
    decreases index.len(),
{
    if index.len() == 0 {
        0u32
    } else {
        spec_electrical_flag_word(index.drop_last()) | spec_electrical_flag_mask(index.last())
    }
}

/// The header byte of a shake object, chosen from the intensity course and
/// the effect's keep flag.
pub open spec fn spec_shake_header(mode: IntensityModeSingleTrack, keep: bool) -> u8 {
    match (mode, keep) {
        (IntensityModeSingleTrack::Const, false) => 0x01u8,
        (IntensityModeSingleTrack::Fade, false) => 0x02u8,
        (IntensityModeSingleTrack::Const, true) => 0x03u8,
        (IntensityModeSingleTrack::Fade, true) => 0x04u8,
    }
}

/// The header byte of an electrical object: `once` overrides the intensity
/// course.
pub open spec fn spec_electrical_header(mode: IntensityModeSingleTrack, once: bool) -> u8 {
    if once {
        0x10u8
    } else {
        match mode {
            IntensityModeSingleTrack::Const => 0x11u8,
            IntensityModeSingleTrack::Fade => 0x12u8,
        }
    }
}

/// An electrical intensity scaled by the ratio, given in thousandths, with
/// truncating division and saturation at the 16-bit limit.
pub open spec fn spec_scaled_intensity(i: u16, ratio_permille: u32) -> u16 {
    let v = (i * ratio_permille) / 1000;
    if v > 0xFFFF {
        0xFFFFu16
    } else {
        v as u16
    }
}

/// One 16-byte shake object.
pub open spec fn spec_shake_object(
    mode: IntensityModeSingleTrack,
    id: u8,
    keep: bool,
    time_start: u16,
    time_end: u16,
    intensity_start: u16,
    intensity_end: u16,
    index: Seq<u8>,
) -> Seq<u8> {
    seq![spec_shake_header(mode, keep), id] + spec_u16_be(time_start) + spec_u16_be(time_end)
        + seq![(intensity_start & 0xFF) as u8, (intensity_end & 0xFF) as u8]
        + spec_u64_be(spec_shake_flag_word(index))
}

/// One 16-byte electrical object; intensities are scaled by the ratio.
pub open spec fn spec_electrical_object(
    mode: IntensityModeSingleTrack,
    once: bool,
    time_start: u16,
    time_end: u16,
    interval: u8,
    intensity_start: u16,
    intensity_end: u16,
    index: Seq<u8>,
    ratio_permille: u32,
) -> Seq<u8> {
    seq![spec_electrical_header(mode, once), 0u8] + spec_u16_be(time_start)
        + spec_u16_be(time_end) + seq![interval, 0u8]
        + spec_u16_be(spec_scaled_intensity(intensity_start, ratio_permille))
        + spec_u16_be(spec_scaled_intensity(intensity_end, ratio_permille))
        + spec_u32_be(spec_electrical_flag_word(index))
}

/// The midpoint at which a fade-in-and-out track is split in two.
pub open spec fn spec_track_midpoint(t: ControlCommandTrack) -> u16 {
    ((t.start_time + t.end_time) / 2) as u16
}

/// How many protocol objects one track becomes.
pub open spec fn spec_track_object_count(t: ControlCommandTrack) -> int {
    if t.intensity_mode is FadeInAndOut {
        2
    } else {
        1
    }
}

/// The bytes one track contributes to its effect's frame.
pub open spec fn spec_track_bytes(t: ControlCommandTrack, keep: bool, ratio_permille: u32) -> Seq<
    u8,
> {
    match t.action_type {
        ActionType::Shake => {
            if t.intensity_mode is FadeInAndOut {
                spec_shake_object(
                    IntensityModeSingleTrack::Fade,
                    0,
                    keep,
                    t.start_time,
                    spec_track_midpoint(t),
                    t.start_intensity,
                    t.end_intensity,
                    t.index@,
                ) + spec_shake_object(
                    IntensityModeSingleTrack::Fade,
                    0,
                    keep,
                    spec_track_midpoint(t),
                    t.end_time,
                    t.end_intensity,
                    t.start_intensity,
                    t.index@,
                )
            } else if t.intensity_mode is Const {
                spec_shake_object(
                    IntensityModeSingleTrack::Const,
                    0,
                    keep,
                    t.start_time,
                    t.end_time,
                    t.start_intensity,
                    t.start_intensity,
                    t.index@,
                )
            } else {
                spec_shake_object(
                    IntensityModeSingleTrack::Fade,
                    0,
                    keep,
                    t.start_time,
                    t.end_time,
                    t.start_intensity,
                    t.end_intensity,
                    t.index@,
                )
            }
        },
        ActionType::Electrical => {
            let interval = (t.interval & 0xFF) as u8;
            if t.intensity_mode is FadeInAndOut {
                spec_electrical_object(
                    IntensityModeSingleTrack::Fade,
                    t.once,
                    t.start_time,
                    spec_track_midpoint(t),
                    interval,
                    t.start_intensity,
                    t.end_intensity,
                    t.index@,
                    ratio_permille,
                ) + spec_electrical_object(
                    IntensityModeSingleTrack::Fade,
                    t.once,
                    spec_track_midpoint(t),
                    t.end_time,
                    interval,
                    t.end_intensity,
                    t.start_intensity,
                    t.index@,
                    ratio_permille,
                )
            } else if t.intensity_mode is Const {
                spec_electrical_object(
                    IntensityModeSingleTrack::Const,
                    t.once,
                    t.start_time,
                    t.end_time,
                    interval,
                    t.start_intensity,
                    t.start_intensity,
                    t.index@,
                    ratio_permille,
                )
            } else {
                spec_electrical_object(
                    IntensityModeSingleTrack::Fade,
                    t.once,
                    t.start_time,
                    t.end_time,
                    interval,
                    t.start_intensity,
                    t.end_intensity,
                    t.index@,
                    ratio_permille,
                )
            }
        },
    }
}

/// The bytes of a whole track list, in order.
pub open spec fn spec_tracks_bytes(
    ts: Seq<ControlCommandTrack>,
    keep: bool,
    ratio_permille: u32,
) -> Seq<u8>
    decreases ts.len(),
{
    if ts.len() == 0 {
        Seq::empty()
    } else {
        spec_tracks_bytes(ts.drop_last(), keep, ratio_permille) + spec_track_bytes(
            ts.last(),
            keep,
            ratio_permille,
        )
    }
}

/// How many protocol objects a track list becomes in all.
pub open spec fn spec_tracks_count(ts: Seq<ControlCommandTrack>) -> int
    decreases ts.len(),
{
    if ts.len() == 0 {
        0
    } else {
        spec_tracks_count(ts.drop_last()) + spec_track_object_count(ts.last())
    }
}

/// An effect fits in one frame only while its object count fits the count
/// byte.
pub open spec fn spec_effect_encodable(e: ControlCommandBody) -> bool {
    spec_tracks_count(e.tracks@) <= 255
}

/// The full frame of one effect.
pub open spec fn spec_effect_bytes(e: ControlCommandBody, ratio_permille: u32) -> Seq<u8> {
    seq![0x68u8, 0x68u8, spec_tracks_count(e.tracks@) as u8] + spec_tracks_bytes(
        e.tracks@,
        e.keep,
        ratio_permille,
    ) + seq![0x16u8]
}

/// A command encodes as its body's frame.
pub open spec fn spec_message_encodable(m: ControlCommand) -> bool {
    spec_effect_encodable(m.body)
}

/// The frame of one command.
pub open spec fn spec_message_bytes(m: ControlCommand, ratio_permille: u32) -> Seq<u8> {
    spec_effect_bytes(m.body, ratio_permille)
}

/// The concatenated frames of a command list.
pub open spec fn spec_messages_bytes(ms: Seq<ControlCommand>, ratio_permille: u32) -> Seq<u8>
    decreases ms.len(),
{
    if ms.len() == 0 {
        Seq::empty()
    } else {
        spec_messages_bytes(ms.drop_last(), ratio_permille) + spec_message_bytes(
            ms.last(),
            ratio_permille,
        )
    }
}

/// Every command of a list fits its frame's count byte.
pub open spec fn spec_messages_encodable(ms: Seq<ControlCommand>) -> bool {
    forall|k: int| 0 <= k < ms.len() ==> spec_message_encodable(#[trigger] ms[k])
}

/// Each track becomes at least one and at most two objects.
pub proof fn lemma_tracks_count_bounds(ts: Seq<ControlCommandTrack>)
    ensures
        ts.len() <= spec_tracks_count(ts) <= 2 * ts.len(),
    decreases ts.len(),
{
    if ts.len() > 0 {
        lemma_tracks_count_bounds(ts.drop_last());
    }
}

/// The object count of a prefix never exceeds that of a longer prefix.
pub proof fn lemma_tracks_count_mono(ts: Seq<ControlCommandTrack>, i: int, j: int)
    requires
        0 <= i <= j <= ts.len(),
    ensures
        spec_tracks_count(ts.take(i)) <= spec_tracks_count(ts.take(j)),
    decreases j - i,
{
    if i < j {
        lemma_tracks_count_mono(ts, i, j - 1);
        assert(ts.take(j).drop_last() =~= ts.take(j - 1));
    }
}

/// A fade-in-and-out track becomes exactly two protocol objects, and the
/// object count of a frame that gains such a track rises by exactly two.
pub proof fn lemma_fade_in_and_out_two_objects(
    t: ControlCommandTrack,
    ts: Seq<ControlCommandTrack>,
    keep: bool,
    ratio_permille: u32,
)
    requires
        t.intensity_mode is FadeInAndOut,
    ensures
        spec_track_object_count(t) == 2,
        spec_track_bytes(t, keep, ratio_permille).len() == 32,
        spec_tracks_count(ts.push(t)) == spec_tracks_count(ts) + 2,
{
    assert(ts.push(t).drop_last() =~= ts);
}

/// Any track that is not fade-in-and-out becomes exactly one 16-byte
/// protocol object, and a frame that gains it counts one more object.
pub proof fn lemma_plain_track_one_object(
    t: ControlCommandTrack,
    ts: Seq<ControlCommandTrack>,
    keep: bool,
    ratio_permille: u32,
)
    requires
        !(t.intensity_mode is FadeInAndOut),
    ensures
        spec_track_object_count(t) == 1,
        spec_track_bytes(t, keep, ratio_permille).len() == 16,
        spec_tracks_count(ts.push(t)) == spec_tracks_count(ts) + 1,
{
    assert(ts.push(t).drop_last() =~= ts);
}

/// A constant-intensity track is encoded with its end intensity equal to
/// its start intensity: the shake object repeats the intensity byte, the
/// electrical object repeats the scaled intensity pair.
pub proof fn lemma_const_collapses_end_intensity(
    t: ControlCommandTrack,
    keep: bool,
    ratio_permille: u32,
)
    requires
        t.intensity_mode is Const,
    ensures
        ({
            let b = spec_track_bytes(t, keep, ratio_permille);
            match t.action_type {
                ActionType::Shake => b[7] == b[6],
                ActionType::Electrical => b[8] == b[10] && b[9] == b[11],
            }
        }),
{
}

/// Scales an electrical intensity by the ratio given in thousandths.
pub fn scaled_intensity(i: u16, ratio_permille: u32) -> (r: u16)
    ensures
        r == spec_scaled_intensity(i, ratio_permille),
{
    proof {
        assert((i as u64) * (ratio_permille as u64) <= 0xFFFFu64 * 0xFFFF_FFFFu64)
            by (nonlinear_arith)
            requires
                i as u64 <= 0xFFFFu64,
                ratio_permille as u64 <= 0xFFFF_FFFFu64,
        ;
    }
    let v: u64 = ((i as u64) * (ratio_permille as u64)) / 1000;
    if v > 0xFFFF {
        0xFFFF
    } else {
        v as u16
    }
}

/// The shake flag word of an index list.
fn shake_flag_word(index: &[u8]) -> (w: u64)
    ensures
        w == spec_shake_flag_word(index@),
{
    let mut w: u64 = 0;
    let mut k: usize = 0;
    while k < index.len()
        invariant
            k <= index@.len(),
            w == spec_shake_flag_word(index@.take(k as int)),
        decreases index@.len() - k,
    {
        match shake_flag_shift(index[k]) {
            Some(s) => {
                w = w | (1u64 << (s as u64));
            },
            None => {},
        }
        proof {
            assert(index@.take(k + 1).drop_last() =~= index@.take(k as int));
            assert(index@.take(k + 1).last() == index@[k as int]);
        }
        k = k + 1;
    }
    proof {
        assert(index@.take(index@.len() as int) =~= index@);
    }
    w
}

/// The electrical flag word of an index list.
fn electrical_flag_word(index: &[u8]) -> (w: u32)
    ensures
        w == spec_electrical_flag_word(index@),
{
    let mut w: u32 = 0;
    let mut k: usize = 0;
    while k < index.len()
        invariant
            k <= index@.len(),
            w == spec_electrical_flag_word(index@.take(k as int)),
        decreases index@.len() - k,
    {
        w = w | electrical_flag_mask(index[k]);
        proof {
            assert(index@.take(k + 1).drop_last() =~= index@.take(k as int));
            assert(index@.take(k + 1).last() == index@[k as int]);
        }
        k = k + 1;
    }
    proof {
        assert(index@.take(index@.len() as int) =~= index@);
    }
    w
}

impl ControlCommandTrack {
    /// Appends one shake object to the buffer.
    pub fn write_ble_track_object_shake(
        buffer: &mut Vec<u8>,
        intensity_mode: IntensityModeSingleTrack,
        id: u8,
        keep: bool,
        time_start: u16,
        time_end: u16,
        intensity_start: u16,
        intensity_end: u16,
        index: &[u8],
    )
        ensures
            final(buffer)@ == old(buffer)@ + spec_shake_object(
                intensity_mode,
                id,
                keep,
                time_start,
                time_end,
                intensity_start,
                intensity_end,
                index@,
            ),
    {
        let header: u8 = match (intensity_mode, keep) {
            (IntensityModeSingleTrack::Const, false) => 0x01,
            (IntensityModeSingleTrack::Fade, false) => 0x02,
            (IntensityModeSingleTrack::Const, true) => 0x03,
            (IntensityModeSingleTrack::Fade, true) => 0x04,
        };
        buffer.push(header);
        buffer.push(id);
        buffer.push(((time_start >> 8) & 0xFF) as u8);
        buffer.push((time_start & 0xFF) as u8);
        buffer.push(((time_end >> 8) & 0xFF) as u8);
        buffer.push((time_end & 0xFF) as u8);
        buffer.push((intensity_start & 0xFF) as u8);
        buffer.push((intensity_end & 0xFF) as u8);
        let w = shake_flag_word(index);
        buffer.push(((w >> 56) & 0xFF) as u8);
        buffer.push(((w >> 48) & 0xFF) as u8);
        buffer.push(((w >> 40) & 0xFF) as u8);
        buffer.push(((w >> 32) & 0xFF) as u8);
        buffer.push(((w >> 24) & 0xFF) as u8);
        buffer.push(((w >> 16) & 0xFF) as u8);
        buffer.push(((w >> 8) & 0xFF) as u8);
        buffer.push((w & 0xFF) as u8);
        proof {
            assert(buffer@ =~= old(buffer)@ + spec_shake_object(
                intensity_mode,
                id,
                keep,
                time_start,
                time_end,
                intensity_start,
                intensity_end,
                index@,
            ));
        }
    }

    /// Appends one electrical object to the buffer.
    pub fn write_ble_track_object_electrical(
        buffer: &mut Vec<u8>,
        intensity_mode: IntensityModeSingleTrack,
        once: bool,
        time_start: u16,
        time_end: u16,
        interval: u8,
        intensity_start: u16,
        intensity_end: u16,
        index: &[u8],
        ratio_permille: u32,
    )
        ensures
            final(buffer)@ == old(buffer)@ + spec_electrical_object(
                intensity_mode,
                once,
                time_start,
                time_end,
                interval,
                intensity_start,
                intensity_end,
                index@,
                ratio_permille,
            ),
    {
        let header: u8 = if once {
            0x10
        } else {
            match intensity_mode {
                IntensityModeSingleTrack::Const => 0x11,
                IntensityModeSingleTrack::Fade => 0x12,
            }
        };
        let scaled_start = scaled_intensity(intensity_start, ratio_permille);
        let scaled_end = scaled_intensity(intensity_end, ratio_permille);
        buffer.push(header);
        buffer.push(0x00);
        buffer.push(((time_start >> 8) & 0xFF) as u8);
        buffer.push((time_start & 0xFF) as u8);
        buffer.push(((time_end >> 8) & 0xFF) as u8);
        buffer.push((time_end & 0xFF) as u8);
        buffer.push(interval);
        buffer.push(0x00);
        buffer.push(((scaled_start >> 8) & 0xFF) as u8);
        buffer.push((scaled_start & 0xFF) as u8);
        buffer.push(((scaled_end >> 8) & 0xFF) as u8);
        buffer.push((scaled_end & 0xFF) as u8);
        let w = electrical_flag_word(index);
        buffer.push(((w >> 24) & 0xFF) as u8);
        buffer.push(((w >> 16) & 0xFF) as u8);
        buffer.push(((w >> 8) & 0xFF) as u8);
        buffer.push((w & 0xFF) as u8);
        proof {
            assert(buffer@ =~= old(buffer)@ + spec_electrical_object(
                intensity_mode,
                once,
                time_start,
                time_end,
                interval,
                intensity_start,
                intensity_end,
                index@,
                ratio_permille,
            ));
        }
    }

    /// Appends this track's one or two protocol objects to the buffer and
    /// says how many were written.
    pub fn write_ble_bytes_to(
        &self,
        buffer: &mut Vec<u8>,
        keep: bool,
        ratio_permille: u32,
    ) -> (count: u8)
        ensures
            final(buffer)@ == old(buffer)@ + spec_track_bytes(*self, keep, ratio_permille),
            count as int == spec_track_object_count(*self),
    {
        let single = match self.intensity_mode {
            IntensityMode::Const => IntensityModeSingleTrack::Const,
            IntensityMode::Fade => IntensityModeSingleTrack::Fade,
            IntensityMode::FadeInAndOut => IntensityModeSingleTrack::Fade,
        };
        let mid: u16 = (((self.start_time as u32) + (self.end_time as u32)) / 2) as u16;
        proof {
            assert((self.start_time + self.end_time) / 2 <= 0xFFFF);
            assert(mid == spec_track_midpoint(*self));
        }
        let end_first: u16 = match self.intensity_mode {
            IntensityMode::FadeInAndOut => mid,
            _ => self.end_time,
        };
        match self.action_type {
            ActionType::Shake => {
                let end_intensity_first: u16 = match self.intensity_mode {
                    IntensityMode::Const => self.start_intensity,
                    _ => self.end_intensity,
                };
                ControlCommandTrack::write_ble_track_object_shake(
                    buffer,
                    single,
                    0x00,
                    keep,
                    self.start_time,
                    end_first,
                    self.start_intensity,
                    end_intensity_first,
                    self.index.as_slice(),
                );
                match self.intensity_mode {
                    IntensityMode::FadeInAndOut => {
                        ControlCommandTrack::write_ble_track_object_shake(
                            buffer,
                            IntensityModeSingleTrack::Fade,
                            0x00,
                            keep,
                            mid,
                            self.end_time,
                            self.end_intensity,
                            self.start_intensity,
                            self.index.as_slice(),
                        );
                        proof {
                            assert(buffer@ =~= old(buffer)@ + spec_track_bytes(
                                *self,
                                keep,
                                ratio_permille,
                            ));
                        }
                        2
                    },
                    _ => 1,
                }
            },
            ActionType::Electrical => {
                let interval: u8 = (self.interval & 0xFF) as u8;
                let end_intensity_first: u16 = match self.intensity_mode {
                    IntensityMode::Const => self.start_intensity,
                    _ => self.end_intensity,
                };
                ControlCommandTrack::write_ble_track_object_electrical(
                    buffer,
                    single,
                    self.once,
                    self.start_time,
                    end_first,
                    interval,
                    self.start_intensity,
                    end_intensity_first,
                    self.index.as_slice(),
                    ratio_permille,
                );
                match self.intensity_mode {
                    IntensityMode::FadeInAndOut => {
                        ControlCommandTrack::write_ble_track_object_electrical(
                            buffer,
                            IntensityModeSingleTrack::Fade,
                            self.once,
                            mid,
                            self.end_time,
                            interval,
                            self.end_intensity,
                            self.start_intensity,
                            self.index.as_slice(),
                            ratio_permille,
                        );
                        proof {
                            assert(buffer@ =~= old(buffer)@ + spec_track_bytes(
                                *self,
                                keep,
                                ratio_permille,
                            ));
                        }
                        2
                    },
                    _ => 1,
                }
            },
        }
    }
}

impl ControlCommandBody {
    /// Encodes this effect as one full frame appended to the buffer: the two
    /// head marker bytes, the object count, every track's objects, and the
    /// tail marker byte.
    pub fn write_ble_bytes_to(&self, buffer: &mut Vec<u8>, ratio_permille: u32)
        requires
            spec_effect_encodable(*self),
        ensures
            final(buffer)@ == old(buffer)@ + spec_effect_bytes(*self, ratio_permille),
    {
        let ghost orig: Seq<u8> = buffer@;
        let ghost ts = self.tracks@;
        let base: usize = buffer.len();
        buffer.push(0x68);
        buffer.push(0x68);
        buffer.push(0x00);
        let mut count: u8 = 0;
        let mut k: usize = 0;
        proof {
            assert(ts.take(0) =~= Seq::<ControlCommandTrack>::empty());
        }
        while k < self.tracks.len()
            invariant
                ts == self.tracks@,
                spec_tracks_count(ts) <= 255,
                k <= ts.len(),
                base == orig.len(),
                count as int == spec_tracks_count(ts.take(k as int)),
                buffer@ == orig + seq![0x68u8, 0x68u8] + seq![count] + spec_tracks_bytes(
                    ts.take(k as int),
                    self.keep,
                    ratio_permille,
                ),
            decreases ts.len() - k,
        {
            let t = &self.tracks[k];
            let n = t.write_ble_bytes_to(buffer, self.keep, ratio_permille);
            proof {
                assert(ts.take(k + 1).drop_last() =~= ts.take(k as int));
                assert(ts.take(k + 1).last() == ts[k as int]);
                lemma_tracks_count_mono(ts, k + 1, ts.len() as int);
                assert(ts.take(ts.len() as int) =~= ts);
            }
            let new_count: u8 = count + n;
            let filled = buffer.len();
            assert(base + 3 <= filled);
            buffer.set(base + 2, new_count);
            count = new_count;
            proof {
                assert(buffer@ =~= orig + seq![0x68u8, 0x68u8] + seq![count]
                    + spec_tracks_bytes(ts.take(k + 1), self.keep, ratio_permille));
            }
            k = k + 1;
        }
        buffer.push(0x16);
        proof {
            assert(ts.take(ts.len() as int) =~= ts);
            assert(buffer@ =~= orig + spec_effect_bytes(*self, ratio_permille));
        }
    }
}

impl ControlCommand {
    /// Encodes this command's effect as one frame appended to the buffer.
    pub fn write_ble_bytes_to(&self, buffer: &mut Vec<u8>, ratio_permille: u32)
        requires
            spec_message_encodable(*self),
        ensures
            final(buffer)@ == old(buffer)@ + spec_message_bytes(*self, ratio_permille),
    {
        self.body.write_ble_bytes_to(buffer, ratio_permille);
    }
}

/// A track list's encoding spans exactly 16 bytes per protocol object.
pub proof fn lemma_tracks_bytes_len(ts: Seq<ControlCommandTrack>, keep: bool, ratio_permille: u32)
    ensures
        spec_tracks_bytes(ts, keep, ratio_permille).len() == 16 * spec_tracks_count(ts),
    decreases ts.len(),
{
    if ts.len() > 0 {
        lemma_tracks_bytes_len(ts.drop_last(), keep, ratio_permille);
    }
}

/// An echoed effect object at the head of a buffer parses to no status,
/// whatever follows it.
proof fn lemma_parse_echo_object(obj: Seq<u8>, rest: Seq<u8>)
    requires
        obj.len() == 16,
        spec_is_echo_object(obj[0]),
    ensures
        spec_parse_object(obj + rest) == Ok::<Option<DeviceStatus>, ProtocolError>(None),
        (obj + rest).skip(16) == rest,
{
    assert((obj + rest)[0] == obj[0]);
    assert((obj + rest).skip(16) =~= rest);
}

/// Parsing steps over one leading echo object and goes on with the rest.
proof fn lemma_parse_one_echo(obj: Seq<u8>, rest: Seq<u8>, extra: nat)
    requires
        obj.len() == 16,
        spec_is_echo_object(obj[0]),
    ensures
        spec_parse_objects(obj + rest, (1 + extra) as nat) == spec_parse_objects(rest, extra),
{
    lemma_parse_echo_object(obj, rest);
    let rr = spec_parse_objects(rest, extra);
    if rr is Ok {
        assert(spec_parse_objects(obj + rest, (1 + extra) as nat) == rr);
    } else {
        assert(spec_parse_objects(obj + rest, (1 + extra) as nat) == rr);
    }
}

/// The same for two leading echo objects.
proof fn lemma_parse_two_echo(o1: Seq<u8>, o2: Seq<u8>, rest: Seq<u8>, extra: nat)
    requires
        o1.len() == 16,
        o2.len() == 16,
        spec_is_echo_object(o1[0]),
        spec_is_echo_object(o2[0]),
    ensures
        spec_parse_objects((o1 + o2) + rest, (2 + extra) as nat) == spec_parse_objects(
            rest,
            extra,
        ),
{
    assert((o1 + o2) + rest =~= o1 + (o2 + rest));
    lemma_parse_one_echo(o2, rest, extra);
    lemma_parse_one_echo(o1, o2 + rest, (1 + extra) as nat);
}

/// Every object a track encodes to carries an echo discriminator, so the
/// parser steps over one encoded track exactly and yields nothing for it.
proof fn lemma_parse_track_objects(
    t: ControlCommandTrack,
    keep: bool,
    ratio_permille: u32,
    rest: Seq<u8>,
    extra: nat,
)
    ensures
        spec_parse_objects(
            spec_track_bytes(t, keep, ratio_permille) + rest,
            (spec_track_object_count(t) + extra) as nat,
        ) == spec_parse_objects(rest, extra),
{
    let mid = spec_track_midpoint(t);
    match t.action_type {
        ActionType::Shake => {
            if t.intensity_mode is FadeInAndOut {
                let o1 = spec_shake_object(
                    IntensityModeSingleTrack::Fade,
                    0,
                    keep,
                    t.start_time,
                    mid,
                    t.start_intensity,
                    t.end_intensity,
                    t.index@,
                );
                let o2 = spec_shake_object(
                    IntensityModeSingleTrack::Fade,
                    0,
                    keep,
                    mid,
                    t.end_time,
                    t.end_intensity,
                    t.start_intensity,
                    t.index@,
                );
                assert(o1[0] == spec_shake_header(IntensityModeSingleTrack::Fade, keep));
                assert(o2[0] == spec_shake_header(IntensityModeSingleTrack::Fade, keep));
                lemma_parse_two_echo(o1, o2, rest, extra);
            } else {
                let mode = if t.intensity_mode is Const {
                    IntensityModeSingleTrack::Const
                } else {
                    IntensityModeSingleTrack::Fade
                };
                let obj = spec_track_bytes(t, keep, ratio_permille);
                assert(obj[0] == spec_shake_header(mode, keep));
                lemma_parse_one_echo(obj, rest, extra);
            }
        },
        ActionType::Electrical => {
            let interval = (t.interval & 0xFF) as u8;
            if t.intensity_mode is FadeInAndOut {
                let o1 = spec_electrical_object(
                    IntensityModeSingleTrack::Fade,
                    t.once,
                    t.start_time,
                    mid,
                    interval,
                    t.start_intensity,
                    t.end_intensity,
                    t.index@,
                    ratio_permille,
                );
                let o2 = spec_electrical_object(
                    IntensityModeSingleTrack::Fade,
                    t.once,
                    mid,
                    t.end_time,
                    interval,
                    t.end_intensity,
                    t.start_intensity,
                    t.index@,
                    ratio_permille,
                );
                assert(o1[0] == spec_electrical_header(IntensityModeSingleTrack::Fade, t.once));
                assert(o2[0] == spec_electrical_header(IntensityModeSingleTrack::Fade, t.once));
                lemma_parse_two_echo(o1, o2, rest, extra);
            } else {
                let mode = if t.intensity_mode is Const {
                    IntensityModeSingleTrack::Const
                } else {
                    IntensityModeSingleTrack::Fade
                };
                let obj = spec_track_bytes(t, keep, ratio_permille);
                assert(obj[0] == spec_electrical_header(mode, t.once));
                lemma_parse_one_echo(obj, rest, extra);
            }
        },
    }
}

/// The parser steps over a whole encoded track list and yields nothing.
proof fn lemma_parse_tracks(
    ts: Seq<ControlCommandTrack>,
    keep: bool,
    ratio_permille: u32,
    rest: Seq<u8>,
    extra: nat,
)
    ensures
        spec_parse_objects(
            spec_tracks_bytes(ts, keep, ratio_permille) + rest,
            (spec_tracks_count(ts) + extra) as nat,
        ) == spec_parse_objects(rest, extra),
    decreases ts.len(),
{
    lemma_tracks_count_bounds(ts);
    if ts.len() == 0 {
        assert(spec_tracks_bytes(ts, keep, ratio_permille) + rest =~= rest);
    } else {
        let dl = ts.drop_last();
        let last = ts.last();
        lemma_tracks_count_bounds(dl);
        assert((spec_tracks_bytes(dl, keep, ratio_permille) + spec_track_bytes(
            last,
            keep,
            ratio_permille,
        )) + rest =~= spec_tracks_bytes(dl, keep, ratio_permille) + (spec_track_bytes(
            last,
            keep,
            ratio_permille,
        ) + rest));
        lemma_parse_track_objects(last, keep, ratio_permille, rest, extra);
        lemma_parse_tracks(
            dl,
            keep,
            ratio_permille,
            spec_track_bytes(last, keep, ratio_permille) + rest,
            (spec_track_object_count(last) + extra) as nat,
        );
    }
}

/// An encoded effect is one well-formed frame: the parser consumes exactly
/// the count byte's worth of objects, finds the tail marker, yields no
/// telemetry for it, and goes on with whatever follows.
#[verifier::rlimit(50)]
pub proof fn lemma_encoded_frame_parses(e: ControlCommandBody, ratio_permille: u32, rest: Seq<u8>)
    requires
        spec_effect_encodable(e),
    ensures
        spec_parse_frames(spec_effect_bytes(e, ratio_permille) + rest) == spec_parse_frames(rest),
{
    let count = spec_tracks_count(e.tracks@);
    lemma_tracks_count_bounds(e.tracks@);
    lemma_tracks_bytes_len(e.tracks@, e.keep, ratio_permille);
    let tb = spec_tracks_bytes(e.tracks@, e.keep, ratio_permille);
    let s = spec_effect_bytes(e, ratio_permille) + rest;
    assert(s.len() == 4 + tb.len() + rest.len());
    assert(s[0] == 0x68 && s[1] == 0x68);
    assert(s[2] == count as u8);
    assert((count as u8) as nat == count);
    assert(s.skip(3) =~= tb + (seq![0x16u8] + rest));
    lemma_parse_tracks(e.tracks@, e.keep, ratio_permille, seq![0x16u8] + rest, 0);
    assert(spec_parse_objects(s.skip(3), count as nat) == Ok::<_, ProtocolError>(
        Seq::<DeviceStatus>::empty(),
    ));
    let tail = 3 + 16 * count;
    assert(s.len() > tail);
    assert(s[tail] == 0x16);
    assert(s.skip(tail + 1) =~= rest);
    let rr = spec_parse_frames(rest);
    if rr is Ok {
        assert(Seq::<DeviceStatus>::empty() + rr->Ok_0 =~= rr->Ok_0);
        assert(spec_parse_frames(s) == rr);
    } else {
        assert(spec_parse_frames(s) == rr);
    }
}

/// Round trip of one effect: its encoding reads back as a well-formed
/// notification stream carrying no telemetry.
pub proof fn lemma_encoded_effect_round_trip(e: ControlCommandBody, ratio_permille: u32)
    requires
        spec_effect_encodable(e),
    ensures
        spec_parse_frames(spec_effect_bytes(e, ratio_permille)) == Ok::<_, ProtocolError>(
            Seq::<DeviceStatus>::empty(),
        ),
{
    lemma_encoded_frame_parses(e, ratio_permille, Seq::empty());
    assert(spec_effect_bytes(e, ratio_permille) + Seq::<u8>::empty() =~= spec_effect_bytes(
        e,
        ratio_permille,
    ));
}

/// Round trip of a command list: the concatenated frames read back as a
/// well-formed notification stream carrying no telemetry.
pub proof fn lemma_encoded_messages_round_trip(ms: Seq<ControlCommand>, ratio_permille: u32)
    requires
        spec_messages_encodable(ms),
    ensures
        spec_parse_frames(spec_messages_bytes(ms, ratio_permille)) == Ok::<_, ProtocolError>(
            Seq::<DeviceStatus>::empty(),
        ),
{
    lemma_messages_frames_parse(ms, ratio_permille, Seq::empty());
    assert(spec_messages_bytes(ms, ratio_permille) + Seq::<u8>::empty() =~= spec_messages_bytes(
        ms,
        ratio_permille,
    ));
}

/// The parser steps over a whole encoded command list and goes on with
/// whatever follows.
pub proof fn lemma_messages_frames_parse(
    ms: Seq<ControlCommand>,
    ratio_permille: u32,
    rest: Seq<u8>,
)
    requires
        spec_messages_encodable(ms),
    ensures
        spec_parse_frames(spec_messages_bytes(ms, ratio_permille) + rest) == spec_parse_frames(
            rest,
        ),
    decreases ms.len(),
{
    if ms.len() == 0 {
        assert(spec_messages_bytes(ms, ratio_permille) + rest =~= rest);
    } else {
        let dl = ms.drop_last();
        let last = ms.last();
        assert(spec_message_encodable(ms[ms.len() - 1]));
        assert(spec_messages_encodable(dl)) by {
            assert forall|k: int| 0 <= k < dl.len() implies spec_message_encodable(
                #[trigger] dl[k],
            ) by {
                assert(dl[k] == ms[k]);
            }
        }
        assert((spec_messages_bytes(dl, ratio_permille) + spec_message_bytes(
            last,
            ratio_permille,
        )) + rest =~= spec_messages_bytes(dl, ratio_permille) + (spec_message_bytes(
            last,
            ratio_permille,
        ) + rest));
        lemma_encoded_frame_parses(last.body, ratio_permille, rest);
        lemma_messages_frames_parse(dl, ratio_permille, spec_message_bytes(last, ratio_permille) + rest);
    }
}

} // verus!
