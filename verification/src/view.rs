use vstd::prelude::*;

use crate::state::HandlerMessage;

verus! {

/// At most this many readings are listed, newest first.
pub const MAX_LISTED_READINGS: usize = 20;

/// What the readings panel shows for a number of stored readings.
#[derive(Debug, PartialEq, Eq)]
pub enum ReadingsPanel {
    /// No readings yet: the panel invites the user to connect.
    Empty,
    /// The listed readings, as indices into the stored readings, newest
    /// first, and how many older ones are left out, if any.
    Recent { newest_first: Vec<usize>, more: Option<usize> },
}

/// The number of readings listed out of `count`.
pub open spec fn listed_count(count: nat) -> nat {
    if count < MAX_LISTED_READINGS {
        count
    } else {
        MAX_LISTED_READINGS as nat
    }
}

/// Nothing is lost between what is listed and what is counted as more: up to
/// twenty readings are all listed, and beyond twenty exactly twenty are.
pub proof fn lemma_listed_count(count: nat)
    ensures
        count <= 20 ==> listed_count(count) == count,
        count > 20 ==> listed_count(count) == 20,
        listed_count(count) <= count,
{
}

/// Lays out the readings panel for `count` stored readings: the newest
/// twenty, newest first, and a note of how many more there are.
pub fn readings_panel(count: usize) -> (panel: ReadingsPanel)
    ensures
        count == 0 <==> panel is Empty,
        panel matches ReadingsPanel::Recent { newest_first, more } ==> {
            &&& newest_first@.len() == listed_count(count as nat)
            &&& newest_first@.len() == (if count < 20 {
                count as nat
            } else {
                20
            })
            &&& more matches Some(m) ==> newest_first@.len() + m == count
            &&& more is None ==> newest_first@.len() == count
            &&& forall|i: int|
                0 <= i < newest_first@.len() ==> #[trigger] newest_first@[i] == count - 1 - i
            &&& more == if count > MAX_LISTED_READINGS {
                Some((count - MAX_LISTED_READINGS) as usize)
            } else {
                None
            }
        },
{
    if count == 0 {
        return ReadingsPanel::Empty;
    }
    let listed: usize = if count < MAX_LISTED_READINGS {
        count
    } else {
        MAX_LISTED_READINGS
    };
    let mut newest_first: Vec<usize> = Vec::new();
    for i in 0..listed
        invariant
            listed <= count,
            newest_first@.len() == i,
            forall|j: int| 0 <= j < i ==> #[trigger] newest_first@[j] == count - 1 - j,
    {
        newest_first.push(count - 1 - i);
    }
    let more = if count > MAX_LISTED_READINGS {
        Some(count - MAX_LISTED_READINGS)
    } else {
        None
    };
    ReadingsPanel::Recent { newest_first, more }
}

/// The buttons the control panel offers, in order: `Disconnect` and
/// `RequestStatus` while connected, `Connect` otherwise, and always
/// `ClearReadings` last.
pub open spec fn spec_control_buttons(is_connected: bool) -> Seq<HandlerMessage> {
    if is_connected {
        seq![HandlerMessage::Disconnect, HandlerMessage::RequestStatus, HandlerMessage::ClearReadings]
    } else {
        seq![HandlerMessage::Connect, HandlerMessage::ClearReadings]
    }
}

/// The buttons of the control panel, each with the message it sends.
pub fn control_buttons(is_connected: bool) -> (buttons: Vec<HandlerMessage>)
    ensures
        buttons@ == spec_control_buttons(is_connected),
{
    let mut buttons: Vec<HandlerMessage> = Vec::new();
    if is_connected {
        buttons.push(HandlerMessage::Disconnect);
        buttons.push(HandlerMessage::RequestStatus);
    } else {
        buttons.push(HandlerMessage::Connect);
    }
    buttons.push(HandlerMessage::ClearReadings);
    assert(buttons@ =~= spec_control_buttons(is_connected));
    buttons
}

} // verus!
