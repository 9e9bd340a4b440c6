//! The notification parser: reads the device's framed notification stream.
//!
//! Framing mirrors the command side: each frame is `0x68 0x68 <object count>
//! <objects> 0x16`, and the buffer may hold several frames back to back.
//! Echoed effect objects are skipped; device-status objects carry model and
//! battery telemetry for the main, left and right units.

use vstd::prelude::*;

verus! {

/// Why a notification buffer was rejected.
#[derive(Clone, Copy, Debug, PartialEq, Eq, Structural)]
pub enum ProtocolError {
    /// A byte did not match the marker expected at its position.
    UnexpectedByte,
    /// The buffer ended before a field was complete.
    IncompleteData,
    /// An object discriminator byte that the protocol does not define.
    UnknownObjectType,
}

/// The telemetry carried by one device-status object: a model word and a
/// raw battery voltage in millivolts for each of the three units.
#[derive(Clone, Copy, Debug, PartialEq, Eq, Structural)]
pub struct DeviceStatus {
    pub main_model: u16,
    pub main_battery_mv: u16,
    pub left_model: u16,
    pub left_battery_mv: u16,
    pub right_model: u16,
    pub right_battery_mv: u16,
}

/// Two big-endian bytes as a 16-bit value.
pub open spec fn spec_u16_from_be(hi: u8, lo: u8) -> u16 {
    ((hi as u16) << 8) | (lo as u16)
}

/// The discriminators of echoed effect objects, whose payload is skipped.
pub open spec fn spec_is_echo_object(b: u8) -> bool {
    b == 0x01 || b == 0x02 || b == 0x03 || b == 0x04 || b == 0x10 || b == 0x11 || b == 0x12
}

/// Parses the payload of a device-status object: the fixed marker bytes
/// `0x02 0x03 0x04`, then three big-endian `(model, battery)` pairs in the
/// order main, left, right.  `s` starts right after the discriminator.
pub open spec fn spec_parse_status(s: Seq<u8>) -> Result<DeviceStatus, ProtocolError> {
    if s.len() == 0 {
        Err(ProtocolError::IncompleteData)
    } else if s[0] != 0x02 {
        Err(ProtocolError::UnexpectedByte)
    } else if s.len() == 1 {
        Err(ProtocolError::IncompleteData)
    } else if s[1] != 0x03 {
        Err(ProtocolError::UnexpectedByte)
    } else if s.len() == 2 {
        Err(ProtocolError::IncompleteData)
    } else if s[2] != 0x04 {
        Err(ProtocolError::UnexpectedByte)
    } else if s.len() < 15 {
        Err(ProtocolError::IncompleteData)
    } else {
        Ok(
            DeviceStatus {
                main_model: spec_u16_from_be(s[3], s[4]),
                main_battery_mv: spec_u16_from_be(s[5], s[6]),
                left_model: spec_u16_from_be(s[7], s[8]),
                left_battery_mv: spec_u16_from_be(s[9], s[10]),
                right_model: spec_u16_from_be(s[11], s[12]),
                right_battery_mv: spec_u16_from_be(s[13], s[14]),
            },
        )
    }
}

/// Parses one 16-byte object at the start of `s`.  An echoed effect object
/// yields no status; a device-status object yields one; any other
/// discriminator is an error.
pub open spec fn spec_parse_object(s: Seq<u8>) -> Result<Option<DeviceStatus>, ProtocolError> {
    if s.len() == 0 {
        Err(ProtocolError::IncompleteData)
    } else if spec_is_echo_object(s[0]) {
        if s.len() < 16 {
            Err(ProtocolError::IncompleteData)
        } else {
            Ok(None)
        }
    } else if s[0] == 0x81 {
        match spec_parse_status(s.skip(1)) {
            Ok(d) => Ok(Some(d)),
            Err(e) => Err(e),
        }
    } else {
        Err(ProtocolError::UnknownObjectType)
    }
}

/// Parses `n` objects back to back at the start of `s`, collecting the
/// device-status values among them in order.
pub open spec fn spec_parse_objects(s: Seq<u8>, n: nat) -> Result<Seq<DeviceStatus>, ProtocolError>
    decreases n,
{
    if n == 0 {
        Ok(Seq::empty())
    } else {
        match spec_parse_object(s) {
            Err(e) => Err(e),
            Ok(opt) => match spec_parse_objects(s.skip(16), (n - 1) as nat) {
                Err(e) => Err(e),
                Ok(rest) => Ok(
                    match opt {
                        Some(d) => seq![d] + rest,
                        None => rest,
                    },
                ),
            },
        }
    }
}

/// Parses a whole notification buffer: frames back to back until the buffer
/// is exhausted, each `0x68 0x68 <count> <objects> 0x16`.
pub open spec fn spec_parse_frames(s: Seq<u8>) -> Result<Seq<DeviceStatus>, ProtocolError>
    decreases s.len(),
{
    if s.len() == 0 {
        Ok(Seq::empty())
    } else if s[0] != 0x68 {
        Err(ProtocolError::UnexpectedByte)
    } else if s.len() == 1 {
        Err(ProtocolError::IncompleteData)
    } else if s[1] != 0x68 {
        Err(ProtocolError::UnexpectedByte)
    } else if s.len() == 2 {
        Err(ProtocolError::IncompleteData)
    } else {
        let n = s[2] as nat;
        match spec_parse_objects(s.skip(3), n) {
            Err(e) => Err(e),
            Ok(sts) => {
                let tail = 3 + 16 * n;
                if s.len() <= tail {
                    Err(ProtocolError::IncompleteData)
                } else if s[tail as int] != 0x16 {
                    Err(ProtocolError::UnexpectedByte)
                } else {
                    match spec_parse_frames(s.skip(tail as int + 1)) {
                        Err(e) => Err(e),
                        Ok(more) => Ok(sts + more),
                    }
                }
            },
        }
    }
}

/// What remains to be shown of a partly parsed object list: if the rest
/// parses, the whole list parses to what was collected plus the rest, and an
/// error in the rest is the whole list's error.
spec fn objects_continue(
    whole: Seq<u8>,
    n: nat,
    done: Seq<DeviceStatus>,
    rest: Seq<u8>,
    remaining: nat,
) -> bool {
    match spec_parse_objects(rest, remaining) {
        Ok(sts) => spec_parse_objects(whole, n) == Ok::<_, ProtocolError>(done + sts),
        Err(e) => spec_parse_objects(whole, n) == Err::<Seq<DeviceStatus>, _>(e),
    }
}

/// The frame-level analogue: if the unread tail parses, the whole buffer
/// parses to what was collected plus the tail's yield.
spec fn frames_continue(whole: Seq<u8>, done: Seq<DeviceStatus>, rest: Seq<u8>) -> bool {
    match spec_parse_frames(rest) {
        Ok(more) => spec_parse_frames(whole) == Ok::<_, ProtocolError>(done + more),
        Err(e) => spec_parse_frames(whole) == Err::<Seq<DeviceStatus>, _>(e),
    }
}

/// The notification parser.  It holds no state: each buffer is parsed on its
/// own, and a frame error never outlives the buffer that carried it.
#[derive(Clone, Copy)]
pub struct BleNotifyParser {}

impl BleNotifyParser {
    /// Makes a parser.
    pub fn new() -> (p: BleNotifyParser) {
        BleNotifyParser {  }
    }

    /// Parses the payload of a device-status object starting at `pos`, which
    /// sits right after the `0x81` discriminator.
    pub fn parse_device_status_notify_object(&self, data: &[u8], pos: usize) -> (r: Result<
        DeviceStatus,
        ProtocolError,
    >)
        requires
            pos <= data@.len(),
        ensures
            r == spec_parse_status(data@.skip(pos as int)),
            r is Ok ==> pos + 15 <= data@.len(),
    {
        let len = data.len();
        if pos >= len {
            return Err(ProtocolError::IncompleteData);
        }
        if data[pos] != 0x02 {
            return Err(ProtocolError::UnexpectedByte);
        }
        if pos + 1 >= len {
            return Err(ProtocolError::IncompleteData);
        }
        if data[pos + 1] != 0x03 {
            return Err(ProtocolError::UnexpectedByte);
        }
        if pos + 2 >= len {
            return Err(ProtocolError::IncompleteData);
        }
        if data[pos + 2] != 0x04 {
            return Err(ProtocolError::UnexpectedByte);
        }
        if len - pos < 15 {
            return Err(ProtocolError::IncompleteData);
        }
        Ok(
            DeviceStatus {
                main_model: u16_from_be(data[pos + 3], data[pos + 4]),
                main_battery_mv: u16_from_be(data[pos + 5], data[pos + 6]),
                left_model: u16_from_be(data[pos + 7], data[pos + 8]),
                left_battery_mv: u16_from_be(data[pos + 9], data[pos + 10]),
                right_model: u16_from_be(data[pos + 11], data[pos + 12]),
                right_battery_mv: u16_from_be(data[pos + 13], data[pos + 14]),
            },
        )
    }

    /// Parses one object at `pos` and says where the next one starts.
    pub fn parse_notify_object(&self, data: &[u8], pos: usize) -> (r: Result<
        (Option<DeviceStatus>, usize),
        ProtocolError,
    >)
        requires
            pos <= data@.len(),
        ensures
            match r {
                Ok(p) => spec_parse_object(data@.skip(pos as int)) == Ok::<
                    _,
                    ProtocolError,
                >(p.0) && p.1 == pos + 16 && p.1 <= data@.len(),
                Err(e) => spec_parse_object(data@.skip(pos as int)) == Err::<
                    Option<DeviceStatus>,
                    _,
                >(e),
            },
    {
        let len = data.len();
        if pos >= len {
            return Err(ProtocolError::IncompleteData);
        }
        let b = data[pos];
        if b == 0x01 || b == 0x02 || b == 0x03 || b == 0x04 || b == 0x10 || b == 0x11 || b == 0x12 {
            if len - pos < 16 {
                Err(ProtocolError::IncompleteData)
            } else {
                Ok((None, pos + 16))
            }
        } else if b == 0x81 {
            proof {
                assert(data@.skip(pos as int).skip(1) =~= data@.skip(pos as int + 1));
            }
            match self.parse_device_status_notify_object(data, pos + 1) {
                Ok(d) => Ok((Some(d), pos + 16)),
                Err(e) => Err(e),
            }
        } else {
            Err(ProtocolError::UnknownObjectType)
        }
    }

    /// Parses a whole notification buffer and returns the device-status
    /// values it carried, in order.  The first malformed byte aborts the
    /// parse with its error; a well-formed buffer is consumed entirely.
    #[verifier::rlimit(50)]
    pub fn on_message_received(&self, data: &[u8]) -> (r: Result<Vec<DeviceStatus>, ProtocolError>)
        ensures
            match r {
                Ok(v) => spec_parse_frames(data@) == Ok::<_, ProtocolError>(v@),
                Err(e) => spec_parse_frames(data@) == Err::<Seq<DeviceStatus>, _>(e),
            },
    {
        let len = data.len();
        let mut pos: usize = 0;
        let mut out: Vec<DeviceStatus> = Vec::new();
        proof {
            assert(data@.skip(0) =~= data@);
            let r0 = spec_parse_frames(data@);
            if r0 is Ok {
                assert(Seq::<DeviceStatus>::empty() + r0->Ok_0 =~= r0->Ok_0);
            }
        }
        while pos < len
            invariant
                len == data@.len(),
                pos <= len,
                frames_continue(data@, out@, data@.skip(pos as int)),
            decreases len - pos,
        {
            let ghost s_frame = data@.skip(pos as int);
            let ghost out0 = out@;
            if data[pos] != 0x68 {
                return Err(ProtocolError::UnexpectedByte);
            }
            if pos + 1 >= len {
                return Err(ProtocolError::IncompleteData);
            }
            if data[pos + 1] != 0x68 {
                return Err(ProtocolError::UnexpectedByte);
            }
            if pos + 2 >= len {
                return Err(ProtocolError::IncompleteData);
            }
            let n = data[pos + 2];
            proof {
                assert(s_frame.skip(3) =~= data@.skip(pos as int + 3));
                let r_obj = spec_parse_objects(data@.skip(pos as int + 3), n as nat);
                if r_obj is Ok {
                    assert(Seq::<DeviceStatus>::empty() + r_obj->Ok_0 =~= r_obj->Ok_0);
                }
            }
            let mut q: usize = pos + 3;
            let mut j: u8 = 0;
            let ghost mut done: Seq<DeviceStatus> = Seq::empty();
            while j < n
                invariant
                    len == data@.len(),
                    pos + 2 < len,
                    data@[pos as int] == 0x68,
                    data@[pos as int + 1] == 0x68,
                    data@[pos as int + 2] == n,
                    j <= n,
                    q == pos + 3 + 16 * (j as int),
                    q <= len,
                    out@ == out0 + done,
                    objects_continue(
                        data@.skip(pos as int + 3),
                        n as nat,
                        done,
                        data@.skip(q as int),
                        (n - j) as nat,
                    ),
                    frames_continue(data@, out0, data@.skip(pos as int)),
                decreases n - j,
            {
                match self.parse_notify_object(data, q) {
                    Err(e) => {
                        proof {
                            assert(spec_parse_objects(data@.skip(q as int), (n - j) as nat)
                                == Err::<Seq<DeviceStatus>, _>(e));
                            assert(spec_parse_objects(data@.skip(pos as int + 3), n as nat)
                                == Err::<Seq<DeviceStatus>, _>(e));
                            assert(data@.skip(pos as int).skip(3) =~= data@.skip(pos as int + 3));
                            assert(spec_parse_frames(data@.skip(pos as int))
                                == Err::<Seq<DeviceStatus>, _>(e));
                        }
                        return Err(e);
                    },
                    Ok(p) => {
                        let (st, next) = p;
                        let ghost q_old = q as int;
                        let ghost j_old = j;
                        let ghost done_old = done;
                        proof {
                            assert(data@.skip(q_old).skip(16) =~= data@.skip(q_old + 16));
                        }
                        match st {
                            Some(d) => {
                                out.push(d);
                                proof {
                                    done = done + seq![d];
                                    assert(out@ =~= out0 + done);
                                }
                            },
                            None => {},
                        }
                        q = next;
                        j = j + 1;
                        proof {
                            let r_rest = spec_parse_objects(
                                data@.skip(q_old + 16),
                                (n - j_old - 1) as nat,
                            );
                            if r_rest is Ok {
                                let sts = r_rest->Ok_0;
                                assert(done + sts =~= done_old + (
                                match st {
                                    Some(d) => seq![d] + sts,
                                    None => sts,
                                }));
                            }
                            assert(objects_continue(
                                data@.skip(pos as int + 3),
                                n as nat,
                                done,
                                data@.skip(q as int),
                                (n - j) as nat,
                            ));
                        }
                    },
                }
            }
            proof {
                assert(spec_parse_objects(data@.skip(q as int), 0) == Ok::<_, ProtocolError>(
                    Seq::<DeviceStatus>::empty(),
                ));
                assert(done + Seq::<DeviceStatus>::empty() =~= done);
                assert(spec_parse_objects(data@.skip(pos as int + 3), n as nat) == Ok::<
                    _,
                    ProtocolError,
                >(done));
                assert(data@.skip(pos as int).skip(3) =~= data@.skip(pos as int + 3));
            }
            if q >= len {
                return Err(ProtocolError::IncompleteData);
            }
            if data[q] != 0x16 {
                return Err(ProtocolError::UnexpectedByte);
            }
            proof {
                assert(data@.skip(pos as int).skip(q - pos + 1) =~= data@.skip(q as int + 1));
            }
            pos = q + 1;
            proof {
                let r_tail = spec_parse_frames(data@.skip(pos as int));
                if r_tail is Ok {
                    let more = r_tail->Ok_0;
                    assert((out0 + done) + more =~= out0 + (done + more));
                }
                assert(frames_continue(data@, out@, data@.skip(pos as int)));
            }
        }
        proof {
            assert(data@.skip(len as int).len() == 0);
            assert(out@ + Seq::<DeviceStatus>::empty() =~= out@);
        }
        Ok(out)
    }
}

/// Reads a big-endian 16-bit value from two bytes.
fn u16_from_be(hi: u8, lo: u8) -> (x: u16)
    ensures
        x == spec_u16_from_be(hi, lo),
{
    ((hi as u16) << 8) | (lo as u16)
}

} // verus!
