use vstd::prelude::*;

verus! {

/// One value received from a characteristic of the pack.
#[derive(Clone, Debug)]
pub struct Reading {
    /// Name the device advertised (empty when it has none).
    pub device: String,
    /// UUID of the GATT service the characteristic belongs to.
    pub service: String,
    /// UUID of the characteristic the value came from.
    pub characteristic: String,
    /// The raw value as space-separated two-digit hex.
    pub value_hex: String,
    /// An interpretation of the value, when one is known.
    pub value_text: Option<String>,
    /// Wall-clock time of reception, in milliseconds since the Unix epoch.
    pub ts_ms: u64,
}

impl Reading {
    /// A reading of `value_hex` from `characteristic` of `service` on
    /// `device`, received at `ts_ms`, with no interpretation attached.
    pub fn new(
        device: String,
        service: String,
        characteristic: String,
        value_hex: String,
        ts_ms: u64,
    ) -> (r: Reading)
        ensures
            r.device == device,
            r.service == service,
            r.characteristic == characteristic,
            r.value_hex == value_hex,
            r.value_text is None,
            r.ts_ms == ts_ms,
    {
        Reading { device, service, characteristic, value_hex, value_text: None, ts_ms }
    }
}

/// Event emitted by a connected Daly device.
#[derive(Clone, Debug)]
pub enum DalyBtleEvent {
    Received(Reading),
}

/// Requests the user interface sends to the connection handler.
#[derive(Clone, Copy, Debug, PartialEq, Eq, Structural)]
pub enum HandlerMessage {
    Connect,
    Disconnect,
    RequestStatus,
    ClearReadings,
}

/// Outside work the handler has to carry out after a message.
#[derive(Clone, Copy, Debug, PartialEq, Eq, Structural)]
pub enum HandlerCommand {
    /// Ask the browser for a device, connect to it and subscribe to its values.
    OpenDevice,
    /// Disconnect the stored device, if any, and drop it with its command characteristic.
    CloseDevice,
    /// Write the status request to the stored device.
    SendStatusRequest,
    /// Nothing to do outside the state.
    Nothing,
}

/// What handling a message asks of the handler.
#[derive(Clone, Copy, Debug, PartialEq, Eq, Structural)]
pub struct Step {
    pub command: HandlerCommand,
    /// Whether the time of the last update is to be set to now.
    pub refresh_timestamp: bool,
}

/// State shared between the handler and the user interface.
#[derive(Clone, Debug)]
pub struct AppState {
    /// Every reading received since the last clear, oldest first.
    pub readings: Vec<Reading>,
    pub is_connected: bool,
    pub device_name: Option<String>,
    pub status_message: String,
}

/// The abstract content of the shared state.
pub struct StateView {
    pub readings: Seq<Reading>,
    pub is_connected: bool,
    pub device_name: Option<String>,
    pub status: Seq<char>,
}

impl StateView {
    /// A device name is only known while connected.
    pub open spec fn consistent(self) -> bool {
        !self.is_connected ==> self.device_name is None
    }
}

impl View for AppState {
    type V = StateView;

    open spec fn view(&self) -> StateView {
        StateView {
            readings: self.readings@,
            is_connected: self.is_connected,
            device_name: self.device_name,
            status: self.status_message@,
        }
    }
}

/// Everything that changes the shared state: a message from the user
/// interface (with whether a device is stored), the outcome of a connection
/// attempt, or an event from the device.
pub enum HandlerInput {
    Message(HandlerMessage, bool),
    Connected(Option<String>),
    ConnectFailed(String),
    Event(DalyBtleEvent),
}

/// The reading an event carries.
pub open spec fn event_reading(e: DalyBtleEvent) -> Reading {
    match e {
        DalyBtleEvent::Received(r) => r,
    }
}

/// The state after one input.
pub open spec fn after_input(s: StateView, input: HandlerInput) -> StateView {
    match input {
        HandlerInput::Message(HandlerMessage::Connect, _) => s,
        HandlerInput::Message(HandlerMessage::Disconnect, _) => StateView {
            is_connected: false,
            device_name: None,
            status: "Disconnected"@,
            ..s
        },
        HandlerInput::Message(HandlerMessage::RequestStatus, present) => if present {
            StateView { status: "Requested status"@, ..s }
        } else {
            s
        },
        HandlerInput::Message(HandlerMessage::ClearReadings, _) => StateView {
            readings: Seq::empty(),
            status: "Readings cleared"@,
            ..s
        },
        HandlerInput::Connected(name) => StateView {
            is_connected: true,
            device_name: name,
            status: connected_status(name),
            ..s
        },
        HandlerInput::ConnectFailed(error) => StateView {
            status: "Connection failed: "@ + error@,
            ..s
        },
        HandlerInput::Event(e) => StateView { readings: s.readings.push(event_reading(e)), ..s },
    }
}

/// The state after a sequence of inputs, handled in order.
pub open spec fn after_inputs(s: StateView, inputs: Seq<HandlerInput>) -> StateView
    decreases inputs.len(),
{
    if inputs.len() == 0 {
        s
    } else {
        after_input(after_inputs(s, inputs.drop_last()), inputs.last())
    }
}

/// Whether handling an input sets the time of the last update to now:
/// everything but a `Connect` request and a status request with no device
/// stored does.
pub open spec fn refreshes_timestamp(input: HandlerInput) -> bool {
    match input {
        HandlerInput::Message(HandlerMessage::Connect, _) => false,
        HandlerInput::Message(HandlerMessage::RequestStatus, present) => present,
        _ => true,
    }
}

/// Whether an input is the request to clear the readings.
pub open spec fn is_clear(input: HandlerInput) -> bool {
    input matches HandlerInput::Message(HandlerMessage::ClearReadings, _)
}

/// The readings carried by the device events among `inputs`, in order.
pub open spec fn received(inputs: Seq<HandlerInput>) -> Seq<Reading>
    decreases inputs.len(),
{
    if inputs.len() == 0 {
        Seq::empty()
    } else {
        match inputs.last() {
            HandlerInput::Event(e) => received(inputs.drop_last()).push(event_reading(e)),
            _ => received(inputs.drop_last()),
        }
    }
}

/// Handling inputs one after another is handling their concatenation.
pub proof fn lemma_after_inputs_concat(s: StateView, a: Seq<HandlerInput>, b: Seq<HandlerInput>)
    ensures
        after_inputs(s, a + b) == after_inputs(after_inputs(s, a), b),
    decreases b.len(),
{
    if b.len() == 0 {
        assert(a + b =~= a);
    } else {
        lemma_after_inputs_concat(s, a, b.drop_last());
        assert((a + b).drop_last() =~= a + b.drop_last());
        assert((a + b).last() == b.last());
    }
}

/// Whatever inputs arrive, a device name is only known while connected.
pub proof fn lemma_inputs_keep_consistency(s: StateView, inputs: Seq<HandlerInput>)
    requires
        s.consistent(),
    ensures
        after_inputs(s, inputs).consistent(),
    decreases inputs.len(),
{
    if inputs.len() > 0 {
        lemma_inputs_keep_consistency(s, inputs.drop_last());
    }
}

/// As long as no clear is requested, every received reading is appended
/// exactly once, at the end, in arrival order, and no reading is lost or
/// reordered.
pub proof fn lemma_readings_append(s: StateView, inputs: Seq<HandlerInput>)
    requires
        forall|k: int| 0 <= k < inputs.len() ==> !is_clear(#[trigger] inputs[k]),
    ensures
        after_inputs(s, inputs).readings == s.readings + received(inputs),
    decreases inputs.len(),
{
    if inputs.len() == 0 {
        assert(s.readings + received(inputs) =~= s.readings);
    } else {
        let init = inputs.drop_last();
        assert forall|k: int| 0 <= k < init.len() implies !is_clear(#[trigger] init[k]) by {
            assert(init[k] == inputs[k]);
        }
        lemma_readings_append(s, init);
        assert(!is_clear(inputs[inputs.len() - 1]));
        match inputs.last() {
            HandlerInput::Event(e) => {
                assert(s.readings + received(inputs) =~= (s.readings + received(init)).push(
                    event_reading(e),
                ));
            },
            _ => {},
        }
    }
}

/// After the last clear, the readings are exactly those received since.
pub proof fn lemma_readings_since_clear(s: StateView, inputs: Seq<HandlerInput>, k: int)
    requires
        0 <= k < inputs.len(),
        is_clear(inputs[k]),
        forall|j: int| k < j < inputs.len() ==> !is_clear(#[trigger] inputs[j]),
    ensures
        after_inputs(s, inputs).readings == received(inputs.skip(k + 1)),
{
    let head = inputs.take(k + 1);
    let tail = inputs.skip(k + 1);
    assert(head + tail =~= inputs);
    lemma_after_inputs_concat(s, head, tail);
    let mid = after_inputs(s, head);
    assert(head.last() == inputs[k]);
    assert(mid.readings =~= Seq::<Reading>::empty());
    assert forall|j: int| 0 <= j < tail.len() implies !is_clear(#[trigger] tail[j]) by {
        assert(tail[j] == inputs[k + 1 + j]);
    }
    lemma_readings_append(mid, tail);
    assert(mid.readings + received(tail) =~= received(tail));
}

/// The status line after a successful connection.
pub open spec fn connected_status(device_name: Option<String>) -> Seq<char> {
    "Connected to "@ + match device_name {
        Some(name) => name@,
        None => "device"@,
    }
}

impl AppState {
    /// A device name is only known while connected.
    pub open spec fn consistent(&self) -> bool {
        !self.is_connected ==> self.device_name is None
    }

    /// The state before anything happened: no readings, not connected, no
    /// device name, empty status line.
    pub fn new() -> (s: AppState)
        ensures
            s.readings@.len() == 0,
            !s.is_connected,
            s.device_name is None,
            s.status_message@.len() == 0,
            s.consistent(),
    {
        AppState {
            readings: Vec::new(),
            is_connected: false,
            device_name: None,
            status_message: String::new(),
        }
    }

    /// Handles a request from the user interface. `device_present` tells
    /// whether a connected device is currently stored.
    ///
    /// - `Connect` leaves the state alone and asks for a device to be opened.
    /// - `Disconnect` marks the state disconnected and asks for the device to be closed.
    /// - `RequestStatus` asks for the status request to be written when a
    ///   device is stored, and is ignored otherwise.
    /// - `ClearReadings` drops every reading.
    pub fn handle_message(&mut self, msg: HandlerMessage, device_present: bool) -> (step: Step)
        ensures
            old(self).consistent() ==> final(self).consistent(),
            final(self)@ == after_input(old(self)@, HandlerInput::Message(msg, device_present)),
            step.refresh_timestamp == refreshes_timestamp(HandlerInput::Message(msg, device_present)),
            msg == HandlerMessage::Connect ==> {
                &&& step == Step { command: HandlerCommand::OpenDevice, refresh_timestamp: false }
                &&& *final(self) == *old(self)
            },
            msg == HandlerMessage::Disconnect ==> {
                &&& step == Step { command: HandlerCommand::CloseDevice, refresh_timestamp: true }
                &&& final(self).readings@ == old(self).readings@
                &&& !final(self).is_connected
                &&& final(self).device_name is None
                &&& final(self).status_message@ == "Disconnected"@
            },
            msg == HandlerMessage::RequestStatus && device_present ==> {
                &&& step == Step {
                    command: HandlerCommand::SendStatusRequest,
                    refresh_timestamp: true,
                }
                &&& final(self).readings@ == old(self).readings@
                &&& final(self).is_connected == old(self).is_connected
                &&& final(self).device_name == old(self).device_name
                &&& final(self).status_message@ == "Requested status"@
            },
            msg == HandlerMessage::RequestStatus && !device_present ==> {
                &&& step == Step { command: HandlerCommand::Nothing, refresh_timestamp: false }
                &&& *final(self) == *old(self)
            },
            msg == HandlerMessage::ClearReadings ==> {
                &&& step == Step { command: HandlerCommand::Nothing, refresh_timestamp: true }
                &&& final(self).readings@.len() == 0
                &&& final(self).is_connected == old(self).is_connected
                &&& final(self).device_name == old(self).device_name
                &&& final(self).status_message@ == "Readings cleared"@
            },
    {
        match msg {
            HandlerMessage::Connect => Step {
                command: HandlerCommand::OpenDevice,
                refresh_timestamp: false,
            },
            HandlerMessage::Disconnect => {
                self.is_connected = false;
                self.device_name = None;
                self.status_message = String::from_str("Disconnected");
                Step { command: HandlerCommand::CloseDevice, refresh_timestamp: true }
            },
            HandlerMessage::RequestStatus => {
                if device_present {
                    self.status_message = String::from_str("Requested status");
                    Step { command: HandlerCommand::SendStatusRequest, refresh_timestamp: true }
                } else {
                    Step { command: HandlerCommand::Nothing, refresh_timestamp: false }
                }
            },
            HandlerMessage::ClearReadings => {
                self.readings.clear();
                self.status_message = String::from_str("Readings cleared");
                Step { command: HandlerCommand::Nothing, refresh_timestamp: true }
            },
        }
    }

    /// Records a successful connection to a device advertising `device_name`
    /// (if any). Returns whether the time of the last update is to be set to
    /// now, which it always is.
    pub fn connect_succeeded(&mut self, device_name: Option<String>) -> (refresh_timestamp: bool)
        ensures
            refresh_timestamp == refreshes_timestamp(HandlerInput::Connected(device_name)),
            refresh_timestamp,
            final(self).readings@ == old(self).readings@,
            final(self).is_connected,
            final(self).device_name == device_name,
            final(self).status_message@ == connected_status(device_name),
            final(self).consistent(),
            final(self)@ == after_input(old(self)@, HandlerInput::Connected(device_name)),
    {
        let status = match &device_name {
            Some(name) => String::from_str("Connected to ").concat(name.as_str()),
            None => String::from_str("Connected to ").concat("device"),
        };
        self.is_connected = true;
        self.device_name = device_name;
        self.status_message = status;
        true
    }

    /// Records a failed connection attempt, `error` being the failure's
    /// debug rendering. Returns whether the time of the last update is to be
    /// set to now, which it always is.
    pub fn connect_failed(&mut self, error: String) -> (refresh_timestamp: bool)
        ensures
            refresh_timestamp == refreshes_timestamp(HandlerInput::ConnectFailed(error)),
            refresh_timestamp,
            final(self).readings@ == old(self).readings@,
            final(self).is_connected == old(self).is_connected,
            final(self).device_name == old(self).device_name,
            final(self).status_message@ == "Connection failed: "@ + error@,
            old(self).consistent() ==> final(self).consistent(),
            final(self)@ == after_input(old(self)@, HandlerInput::ConnectFailed(error)),
    {
        self.status_message = String::from_str("Connection failed: ").concat(error.as_str());
        true
    }

    /// Records an event from the device: a received reading is appended,
    /// whatever the connection state. Returns whether the time of the last
    /// update is to be set to now, which it always is.
    pub fn record_event(&mut self, event: DalyBtleEvent) -> (refresh_timestamp: bool)
        ensures
            refresh_timestamp == refreshes_timestamp(HandlerInput::Event(event)),
            refresh_timestamp,
            final(self).readings@ == old(self).readings@.push(
                match event {
                    DalyBtleEvent::Received(r) => r,
                },
            ),
            final(self).is_connected == old(self).is_connected,
            final(self).device_name == old(self).device_name,
            final(self).status_message == old(self).status_message,
            old(self).consistent() ==> final(self).consistent(),
            final(self)@ == after_input(old(self)@, HandlerInput::Event(event)),
    {
        match event {
            DalyBtleEvent::Received(reading) => self.readings.push(reading),
        }
        true
    }
}

} // verus!
