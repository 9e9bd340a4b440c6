//! The controller: composes the link state machine with the command encoder.
//!
//! A send first encodes the commands into one byte stream, then steps the
//! link: only a live link hands the bytes on; otherwise the caller gets the
//! link's error and, at most once, the order to start the background search.

use vstd::prelude::*;

use crate::ble::spec_ensure_connected;
use crate::ble::LinkAction;
use crate::ble::LinkError;
use crate::ble::TrueGearConnection;
use crate::ble_notify_parser::BleNotifyParser;
use crate::command::ControlCommand;
use crate::encode::spec_message_bytes;
use crate::encode::spec_message_encodable;
use crate::encode::spec_messages_bytes;
use crate::encode::spec_messages_encodable;
use crate::predefined::lemma_connected_electrical_frame;
use crate::predefined::lemma_connected_shake_frame;
use crate::predefined::on_connected_message;
use crate::predefined::spec_connected_electrical_frame;
use crate::predefined::spec_connected_greeting_bytes;
use crate::predefined::spec_connected_shake_frame;

verus! {

/// The gateway's device-facing half: the one link, the electrical intensity
/// ratio in thousandths, and the notification parser.
pub struct TrueGearBLEController {
    pub true_gear_connection: TrueGearConnection,
    pub electical_effect_ratio_permille: u32,
    pub ble_notify_parser: BleNotifyParser,
}

impl TrueGearBLEController {
    /// Makes a controller with the given electrical ratio and a fresh,
    /// disconnected link.
    pub fn build(electical_effect_ratio_permille: u32) -> (c: TrueGearBLEController)
        ensures
            c.electical_effect_ratio_permille == electical_effect_ratio_permille,
            !c.true_gear_connection.connected,
            !c.true_gear_connection.searching,
    {
        TrueGearBLEController {
            true_gear_connection: TrueGearConnection::new(),
            electical_effect_ratio_permille,
            ble_notify_parser: BleNotifyParser::new(),
        }
    }

    /// The electrical intensity ratio, in thousandths.
    pub fn electical_effect_ratio(&self) -> (r: u32)
        ensures
            r == self.electical_effect_ratio_permille,
    {
        self.electical_effect_ratio_permille
    }

    /// Replaces the electrical intensity ratio, in thousandths.
    pub fn set_electical_effect_ratio(&mut self, ratio_permille: u32)
        ensures
            final(self).electical_effect_ratio_permille == ratio_permille,
            final(self).true_gear_connection == old(self).true_gear_connection,
    {
        self.electical_effect_ratio_permille = ratio_permille;
    }

    /// Starts the controller: one link step that may order the background
    /// search.
    pub fn start(&mut self, link_alive: bool) -> (a: LinkAction)
        ensures
            final(self).electical_effect_ratio_permille == old(
                self,
            ).electical_effect_ratio_permille,
            ({
                let (s2, a2, _r2) = spec_ensure_connected(
                    old(self).true_gear_connection,
                    link_alive,
                );
                final(self).true_gear_connection == s2 && a == a2
            }),
    {
        self.true_gear_connection.start(link_alive)
    }

    /// Shuts the link down.  Idempotent.
    pub fn close(&mut self)
        ensures
            !final(self).true_gear_connection.connected,
            final(self).true_gear_connection.searching == old(
                self,
            ).true_gear_connection.searching,
            final(self).electical_effect_ratio_permille == old(
                self,
            ).electical_effect_ratio_permille,
    {
        self.true_gear_connection.disconnect();
    }

    /// Encodes the commands into one byte stream and steps the link.  With a
    /// live link the stream is handed back for the radio; without one the
    /// caller gets the link's error, and nothing is queued.
    pub fn send_ble_messages(&mut self, messages: &[ControlCommand], link_alive: bool) -> (r: (
        LinkAction,
        Result<Vec<u8>, LinkError>,
    ))
        requires
            spec_messages_encodable(messages@),
        ensures
            final(self).electical_effect_ratio_permille == old(
                self,
            ).electical_effect_ratio_permille,
            ({
                let (s2, a, res) = spec_ensure_connected(
                    old(self).true_gear_connection,
                    link_alive,
                );
                &&& final(self).true_gear_connection == s2
                &&& r.0 == a
                &&& (match r.1 {
                    Ok(buf) => res == Ok::<(), LinkError>(()) && buf@ == spec_messages_bytes(
                        messages@,
                        old(self).electical_effect_ratio_permille,
                    ),
                    Err(e) => res == Err::<(), LinkError>(e),
                })
            }),
    {
        let ghost ms = messages@;
        let ratio = self.electical_effect_ratio_permille;
        let mut buffer: Vec<u8> = Vec::new();
        let mut k: usize = 0;
        proof {
            assert(ms.take(0) =~= Seq::<ControlCommand>::empty());
        }
        while k < messages.len()
            invariant
                ms == messages@,
                spec_messages_encodable(ms),
                k <= ms.len(),
                buffer@ == spec_messages_bytes(ms.take(k as int), ratio),
            decreases ms.len() - k,
        {
            let m = &messages[k];
            m.write_ble_bytes_to(&mut buffer, ratio);
            proof {
                assert(ms.take(k + 1).drop_last() =~= ms.take(k as int));
                assert(ms.take(k + 1).last() == ms[k as int]);
            }
            k = k + 1;
        }
        proof {
            assert(ms.take(ms.len() as int) =~= ms);
        }
        let (action, res) = self.true_gear_connection.send_data(link_alive);
        match res {
            Ok(_) => (action, Ok(buffer)),
            Err(e) => (action, Err(e)),
        }
    }

    /// Encodes one command and steps the link, as `send_ble_messages` does
    /// for a list.
    pub fn send_ble_message(&mut self, message: &ControlCommand, link_alive: bool) -> (r: (
        LinkAction,
        Result<Vec<u8>, LinkError>,
    ))
        requires
            spec_message_encodable(*message),
        ensures
            final(self).electical_effect_ratio_permille == old(
                self,
            ).electical_effect_ratio_permille,
            ({
                let (s2, a, res) = spec_ensure_connected(
                    old(self).true_gear_connection,
                    link_alive,
                );
                &&& final(self).true_gear_connection == s2
                &&& r.0 == a
                &&& (match r.1 {
                    Ok(buf) => res == Ok::<(), LinkError>(()) && buf@ == spec_message_bytes(
                        *message,
                        old(self).electical_effect_ratio_permille,
                    ),
                    Err(e) => res == Err::<(), LinkError>(e),
                })
            }),
    {
        let ratio = self.electical_effect_ratio_permille;
        let mut buffer: Vec<u8> = Vec::new();
        message.write_ble_bytes_to(&mut buffer, ratio);
        let (action, res) = self.true_gear_connection.send_data(link_alive);
        match res {
            Ok(_) => (action, Ok(buffer)),
            Err(e) => (action, Err(e)),
        }
    }

    /// The greeting on connect: encodes the fixed pattern group and steps
    /// the link so a live link plays it.
    pub fn on_connected(&mut self, link_alive: bool) -> (r: (
        LinkAction,
        Result<Vec<u8>, LinkError>,
    ))
        ensures
            final(self).electical_effect_ratio_permille == old(
                self,
            ).electical_effect_ratio_permille,
            ({
                let (s2, a, res) = spec_ensure_connected(
                    old(self).true_gear_connection,
                    link_alive,
                );
                &&& final(self).true_gear_connection == s2
                &&& r.0 == a
                &&& (match r.1 {
                    Ok(buf) => res == Ok::<(), LinkError>(()) && buf@
                        == spec_connected_greeting_bytes(
                        old(self).electical_effect_ratio_permille,
                    ),
                    Err(e) => res == Err::<(), LinkError>(e),
                })
            }),
    {
        let messages = on_connected_message();
        proof {
            let ms = messages@;
            let ratio = self.electical_effect_ratio_permille;
            let d3 = ms.drop_last();
            let d2 = d3.drop_last();
            let d1 = d2.drop_last();
            let d0 = d1.drop_last();
            assert(ms.last() == ms[3]);
            assert(d3.last() == ms[2]);
            assert(d2.last() == ms[1]);
            assert(d1.last() == ms[0]);
            lemma_connected_shake_frame(ms[0], ratio);
            lemma_connected_electrical_frame(ms[1], ratio);
            lemma_connected_shake_frame(ms[2], ratio);
            lemma_connected_electrical_frame(ms[3], ratio);
            assert(d0 =~= Seq::<ControlCommand>::empty());
            assert(spec_messages_bytes(d0, ratio) =~= Seq::<u8>::empty());
            assert(spec_messages_bytes(d1, ratio) =~= spec_connected_shake_frame(ratio));
            assert(spec_messages_bytes(d2, ratio) =~= spec_connected_shake_frame(ratio)
                + spec_connected_electrical_frame(ratio));
            assert(spec_messages_bytes(d3, ratio) =~= spec_connected_shake_frame(ratio)
                + spec_connected_electrical_frame(ratio) + spec_connected_shake_frame(ratio));
            assert(spec_messages_bytes(ms, ratio) =~= spec_connected_greeting_bytes(ratio));
        }
        self.send_ble_messages(messages.as_slice(), link_alive)
    }
}

} // verus!
