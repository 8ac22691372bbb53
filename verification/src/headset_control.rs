use vstd::prelude::*;
use vstd::string::StringExecFns;
use crate::lang::Key;
use crate::text::{decimal, push_decimal};

verus! {

/// Battery state as the headset library reports it.
#[derive(Debug, Clone, Copy, PartialEq, Eq, Structural)]
pub enum BatteryStatus {
    Unavailable,
    Charging,
    Available,
    HidError,
    Timeout,
}

impl Default for BatteryStatus {
    /// No battery information yet.
    fn default() -> (res: Self)
        ensures
            res == BatteryStatus::Unavailable,
    {
        BatteryStatus::Unavailable
    }
}

/// The headset features that the library knows how to drive.
#[derive(Debug, Clone, Copy, PartialEq, Eq, Structural)]
pub enum Capability {
    Sidetone,
    BatteryStatus,
    InactiveTime,
    MicrophoneMuteLedBrightness,
}

impl Capability {
    /// Position of the capability's bit in the headset library's capability mask.
    pub open spec fn spec_index(self) -> i32 {
        match self {
            Capability::Sidetone => 0,
            Capability::BatteryStatus => 1,
            Capability::InactiveTime => 4,
            Capability::MicrophoneMuteLedBrightness => 11,
        }
    }

    /// The code that identifies the capability in calls to the headset library.
    pub fn code(self) -> (res: i32)
        ensures
            res == self.spec_index(),
    {
        match self {
            Capability::Sidetone => 0,
            Capability::BatteryStatus => 1,
            Capability::InactiveTime => 4,
            Capability::MicrophoneMuteLedBrightness => 11,
        }
    }

    /// The capability's bit in the capability mask.
    pub fn bit(self) -> (res: i32)
        ensures
            res == 1i32 << self.spec_index(),
    {
        1i32 << self.code()
    }
}

/// Which of the controllable features a headset offers.
#[derive(Debug, Clone, Copy, PartialEq, Eq, Structural)]
pub struct ControlCapabilities {
    pub sidetone: bool,
    pub microphone_light: bool,
    pub inactive_time: bool,
}

impl Default for ControlCapabilities {
    /// A headset that offers none of the controls.
    fn default() -> (res: Self)
        ensures
            res == (ControlCapabilities {
                sidetone: false,
                microphone_light: false,
                inactive_time: false,
            }),
    {
        ControlCapabilities { sidetone: false, microphone_light: false, inactive_time: false }
    }
}

/// True when bit `index` of `mask` is set.
pub open spec fn mask_has_bit(mask: i32, index: i32) -> bool {
    mask & (1i32 << index) != 0
}

impl ControlCapabilities {
    /// Reads the controllable features out of the headset library's capability mask.
    pub fn from_mask(mask: i32) -> (res: Self)
        ensures
            res.sidetone == mask_has_bit(mask, 0),
            res.microphone_light == mask_has_bit(mask, 11),
            res.inactive_time == mask_has_bit(mask, 4),
            res.sidetone == (mask & 1 != 0),
            res.microphone_light == (mask & 2048 != 0),
            res.inactive_time == (mask & 16 != 0),
    {
        proof {
            lemma_capability_bits(mask);
        }
        ControlCapabilities {
            sidetone: mask & Capability::Sidetone.bit() != 0,
            microphone_light: mask & Capability::MicrophoneMuteLedBrightness.bit() != 0,
            inactive_time: mask & Capability::InactiveTime.bit() != 0,
        }
    }

    /// True when the headset offers at least one feature the menu can control.
    pub fn has_controls(self) -> (res: bool)
        ensures
            res == (self.sidetone || self.microphone_light || self.inactive_time),
    {
        self.sidetone || self.microphone_light || self.inactive_time
    }
}


/// What the headset library reports about the battery.
#[derive(Debug, Clone, Copy, PartialEq, Eq, Structural)]
pub struct HscBattery {
    pub level_percent: i32,
    pub status: BatteryStatus,
    pub voltage_mv: i32,
    pub time_to_full_min: i32,
    pub time_to_empty_min: i32,
}

/// The battery reading that stands for "nothing known": no charge level,
/// status `Unavailable`, and `-1` for every measurement.
pub open spec fn spec_unavailable_battery() -> HscBattery {
    HscBattery {
        level_percent: 0,
        status: BatteryStatus::Unavailable,
        voltage_mv: -1i32,
        time_to_full_min: -1i32,
        time_to_empty_min: -1i32,
    }
}

/// The battery reading used when the headset gives none.
pub fn unavailable_battery() -> (res: HscBattery)
    ensures
        res == spec_unavailable_battery(),
{
    HscBattery {
        level_percent: 0,
        status: BatteryStatus::Unavailable,
        voltage_mv: -1,
        time_to_full_min: -1,
        time_to_empty_min: -1,
    }
}

/// The controllable features that a capability mask announces.
pub open spec fn capabilities_of(mask: i32) -> ControlCapabilities {
    ControlCapabilities {
        sidetone: mask_has_bit(mask, 0),
        microphone_light: mask_has_bit(mask, 11),
        inactive_time: mask_has_bit(mask, 4),
    }
}

/// The name shown for a headset whose name the library gave as `bytes`: the
/// bytes read as UTF-8, or `Unknown` when there are none or they are not UTF-8.
pub open spec fn product_name_text(bytes: Option<Seq<u8>>) -> Seq<char> {
    match bytes {
        Some(b) => if vstd::utf8::valid_utf8(b) {
            vstd::utf8::decode_utf8(b)
        } else {
            "Unknown"@
        },
        None => "Unknown"@,
    }
}

/// Calls `std::str::from_utf8`, which accepts exactly the well-formed UTF-8
/// byte sequences and then gives the characters that they encode.
#[verifier::external_body]
fn utf8_str(bytes: &[u8]) -> (res: Option<&str>)
    ensures
        res is Some <==> vstd::utf8::valid_utf8(bytes@),
        res matches Some(s) ==> s@ == vstd::utf8::decode_utf8(bytes@),
{
    std::str::from_utf8(bytes).ok()
}

/// The product name of a headset from the bytes of the name that the headset
/// library gives (without the terminating NUL), or `None` when it gives none.
pub fn product_name_from_bytes(bytes: Option<&[u8]>) -> (res: String)
    ensures
        res@ == product_name_text(
            match bytes {
                Some(b) => Some(b@),
                None => None,
            },
        ),
{
    match bytes {
        Some(b) => match utf8_str(b) {
            Some(s) => String::from_str(s),
            None => String::from_str("Unknown"),
        },
        None => String::from_str("Unknown"),
    }
}

/// A connected headset as the indicator shows it.
#[derive(Debug)]
pub struct Device {
    pub product_name: String,
    pub battery: HscBattery,
    pub capabilities: ControlCapabilities,
}

/// The text, if any, that follows the battery level for a battery status.
pub open spec fn status_key(status: BatteryStatus) -> Option<Key> {
    match status {
        BatteryStatus::Charging => Some(Key::DeviceCharging),
        BatteryStatus::Available => None,
        BatteryStatus::Unavailable => Some(Key::BatteryUnavailable),
        _ => Some(Key::DeviceDisconnected),
    }
}

/// The line that describes a device: its name, then `: ` and the level with
/// `%` when the level is above zero, then a space and the status text when
/// there is one.
pub open spec fn device_text(name: Seq<char>, level: i32, status: Option<Seq<char>>) -> Seq<char> {
    let with_level = if level > 0 {
        name + ": "@ + decimal(level as nat) + "%"@
    } else {
        name
    };
    match status {
        Some(t) => with_level + " "@ + t,
        None => with_level,
    }
}

/// The status text for a battery status, picked from the texts for
/// "charging", "battery unavailable" and "disconnected"; none while the
/// battery reports normally.
pub open spec fn status_choice(
    status: BatteryStatus,
    charging: Seq<char>,
    battery_unavailable: Seq<char>,
    disconnected: Seq<char>,
) -> Option<Seq<char>> {
    match status_key(status) {
        Some(Key::DeviceCharging) => Some(charging),
        Some(Key::BatteryUnavailable) => Some(battery_unavailable),
        Some(Key::DeviceDisconnected) => Some(disconnected),
        _ => None,
    }
}

impl Device {
    /// The text key of the status shown after the battery level; none while
    /// the battery reports normally.
    pub fn status_text(&self) -> (res: Option<Key>)
        ensures
            res == status_key(self.battery.status),
    {
        match self.battery.status {
            BatteryStatus::Charging => Some(Key::DeviceCharging),
            BatteryStatus::Available => None,
            BatteryStatus::Unavailable => Some(Key::BatteryUnavailable),
            _ => Some(Key::DeviceDisconnected),
        }
    }

    /// The line that describes the device, given the text of its status (the
    /// translation of `status_text`, or `None` when that is `None`).
    pub fn display_text(&self, status: Option<&str>) -> (res: String)
        ensures
            res@ == device_text(
                self.product_name@,
                self.battery.level_percent,
                match status {
                    Some(t) => Some(t@),
                    None => None,
                },
            ),
    {
        let mut out = String::from_str(self.product_name.as_str());
        if self.battery.level_percent > 0 {
            out.append(": ");
            push_decimal(&mut out, self.battery.level_percent as u64);
            out.append("%");
        }
        if let Some(t) = status {
            out.append(" ");
            out.append(t);
        }
        out
    }

    /// The line that describes the device, with its status given by the
    /// translations of the three status texts.
    pub fn describe(&self, charging: &str, battery_unavailable: &str, disconnected: &str) -> (res:
        String)
        ensures
            res@ == device_text(
                self.product_name@,
                self.battery.level_percent,
                status_choice(self.battery.status, charging@, battery_unavailable@, disconnected@),
            ),
    {
        let status = match self.status_text() {
            Some(Key::DeviceCharging) => Some(charging),
            Some(Key::BatteryUnavailable) => Some(battery_unavailable),
            Some(Key::DeviceDisconnected) => Some(disconnected),
            _ => None,
        };
        self.display_text(status)
    }
}


/// True when discovery found at least one headset: a positive count and a list.
pub open spec fn headset_found(count: i32, headsets_null: bool) -> bool {
    count > 0 && !headsets_null
}

/// A change that the menu asks of the headset.
#[derive(Debug, Clone, Copy, PartialEq, Eq, Structural)]
pub enum ControlRequest {
    Sidetone(bool),
    MicrophoneLight(bool),
    InactiveTime(u8),
}

impl ControlRequest {
    /// The capability that the headset must have for the request.
    pub open spec fn spec_capability(self) -> Capability {
        match self {
            ControlRequest::Sidetone(_) => Capability::Sidetone,
            ControlRequest::MicrophoneLight(_) => Capability::MicrophoneMuteLedBrightness,
            ControlRequest::InactiveTime(_) => Capability::InactiveTime,
        }
    }

    /// The value handed to the headset library: sidetone level 128 or 0,
    /// microphone light brightness 3 or 0, or the minutes of inactivity.
    pub open spec fn spec_level(self) -> u8 {
        match self {
            ControlRequest::Sidetone(on) => if on { 128 } else { 0 },
            ControlRequest::MicrophoneLight(on) => if on { 3 } else { 0 },
            ControlRequest::InactiveTime(minutes) => minutes,
        }
    }

    pub fn capability(self) -> (res: Capability)
        ensures
            res == self.spec_capability(),
    {
        match self {
            ControlRequest::Sidetone(_) => Capability::Sidetone,
            ControlRequest::MicrophoneLight(_) => Capability::MicrophoneMuteLedBrightness,
            ControlRequest::InactiveTime(_) => Capability::InactiveTime,
        }
    }

    pub fn level(self) -> (res: u8)
        ensures
            res == self.spec_level(),
    {
        match self {
            ControlRequest::Sidetone(on) => if on { 128 } else { 0 },
            ControlRequest::MicrophoneLight(on) => if on { 3 } else { 0 },
            ControlRequest::InactiveTime(minutes) => minutes,
        }
    }

    /// What the request does, as an error names it.
    pub fn action_description(self) -> (res: &'static str)
        ensures
            res@ == match self {
                ControlRequest::Sidetone(_) => "setting sidetone"@,
                ControlRequest::MicrophoneLight(_) => "setting microphone light"@,
                ControlRequest::InactiveTime(_) => "setting inactive time"@,
            },
    {
        match self {
            ControlRequest::Sidetone(_) => "setting sidetone",
            ControlRequest::MicrophoneLight(_) => "setting microphone light",
            ControlRequest::InactiveTime(_) => "setting inactive time",
        }
    }
}

/// Why a headset that was found did not take a request.
#[derive(Debug, Clone, Copy, PartialEq, Eq, Structural)]
pub enum ControlFailure {
    /// The headset lacks the capability; nothing was sent to it.
    Unsupported,
    /// The headset library returned this non-zero code.
    Returned(i32),
}

/// Why a request to the headset failed.
#[derive(Debug, Clone, Copy, PartialEq, Eq, Structural)]
pub enum ControlError {
    /// No headset was found.
    NoHeadset,
    /// The headset that was found did not take the request.
    Failed { request: ControlRequest, failure: ControlFailure },
}

impl ControlError {
    /// The outer description of the error: what was being done.
    pub fn context_text(self) -> (res: &'static str)
        ensures
            res@ == match self {
                ControlError::NoHeadset => "discovering headset"@,
                ControlError::Failed { request, .. } => match request {
                    ControlRequest::Sidetone(_) => "setting sidetone"@,
                    ControlRequest::MicrophoneLight(_) => "setting microphone light"@,
                    ControlRequest::InactiveTime(_) => "setting inactive time"@,
                },
            },
    {
        match self {
            ControlError::NoHeadset => "discovering headset",
            ControlError::Failed { request, .. } => request.action_description(),
        }
    }

    /// The inner cause of the error, where there is one.
    pub fn cause_text(self) -> (res: Option<String>)
        ensures
            match self {
                ControlError::NoHeadset => res is None,
                ControlError::Failed { failure, .. } => res matches Some(t) && t@ == match failure {
                    ControlFailure::Unsupported => "capability is not supported"@,
                    ControlFailure::Returned(code) => "HeadsetControl returned "@
                        + crate::text::signed_decimal(code as int),
                },
            },
    {
        match self {
            ControlError::NoHeadset => None,
            ControlError::Failed { failure, .. } => match failure {
                ControlFailure::Unsupported => Some(String::from_str("capability is not supported")),
                ControlFailure::Returned(code) => {
                    let mut t = String::from_str("HeadsetControl returned ");
                    crate::text::push_signed_decimal(&mut t, code);
                    Some(t)
                },
            },
        }
    }
}

/// Where a request to the headset stands.
#[derive(Debug, Clone, Copy)]
pub enum ControlSession {
    /// The headsets are being discovered.
    Discovering { request: ControlRequest },
    /// A headset was found; whether it has the capability is being checked.
    CheckingSupport { request: ControlRequest, count: i32 },
    /// The request is being applied to the headset.
    Applying { request: ControlRequest, count: i32 },
    /// The discovered headsets are being released; the outcome is known.
    Releasing { request: ControlRequest, count: i32, outcome: Result<(), ControlFailure> },
    /// The session is over.
    Finished,
}

/// What the headset library answered.
#[derive(Debug, Clone, Copy, PartialEq, Eq, Structural)]
pub enum ControlEvent {
    Discovered { count: i32, headsets_null: bool },
    SupportChecked { supported: bool },
    Applied { code: i32 },
    Released,
}

/// What must be asked of the headset library next.
#[derive(Debug, Clone, Copy)]
pub enum ControlStep {
    /// Discover the connected headsets.
    Discover,
    /// Ask whether the first headset has the capability.
    CheckSupport { capability: Capability },
    /// Send the request to the first headset.
    Apply { request: ControlRequest },
    /// Free the discovered headsets, of which there are `count`.
    Release { count: i32 },
    /// Hand the result to the caller.
    Finish { result: Result<(), ControlError> },
}

/// The result handed back once the headsets are released.
pub open spec fn control_result(
    request: ControlRequest,
    outcome: Result<(), ControlFailure>,
) -> Result<(), ControlError> {
    match outcome {
        Ok(()) => Ok(()),
        Err(failure) => Err(ControlError::Failed { request, failure }),
    }
}

impl ControlSession {
    /// True when `event` answers the step that this state waits for.
    pub open spec fn accepts(self, event: ControlEvent) -> bool {
        match (self, event) {
            (ControlSession::Discovering { .. }, ControlEvent::Discovered { .. }) => true,
            (ControlSession::CheckingSupport { .. }, ControlEvent::SupportChecked { .. }) => true,
            (ControlSession::Applying { .. }, ControlEvent::Applied { .. }) => true,
            (ControlSession::Releasing { .. }, ControlEvent::Released) => true,
            _ => false,
        }
    }

    /// The next state and step after `event` (for an event that the state
    /// does not accept, which `advance` never receives, the state is kept).
    pub open spec fn next(self, event: ControlEvent) -> (ControlSession, ControlStep) {
        match (self, event) {
            (
                ControlSession::Discovering { request },
                ControlEvent::Discovered { count, headsets_null },
            ) => if headset_found(count, headsets_null) {
                (
                    ControlSession::CheckingSupport { request, count },
                    ControlStep::CheckSupport { capability: request.spec_capability() },
                )
            } else {
                (ControlSession::Finished, ControlStep::Finish { result: Err(ControlError::NoHeadset) })
            },
            (
                ControlSession::CheckingSupport { request, count },
                ControlEvent::SupportChecked { supported },
            ) => if supported {
                (ControlSession::Applying { request, count }, ControlStep::Apply { request })
            } else {
                (
                    ControlSession::Releasing {
                        request,
                        count,
                        outcome: Err(ControlFailure::Unsupported),
                    },
                    ControlStep::Release { count },
                )
            },
            (ControlSession::Applying { request, count }, ControlEvent::Applied { code }) => (
                ControlSession::Releasing {
                    request,
                    count,
                    outcome: if code == 0 {
                        Ok(())
                    } else {
                        Err(ControlFailure::Returned(code))
                    },
                },
                ControlStep::Release { count },
            ),
            (ControlSession::Releasing { request, outcome, .. }, ControlEvent::Released) => (
                ControlSession::Finished,
                ControlStep::Finish { result: control_result(request, outcome) },
            ),
            _ => (self, ControlStep::Finish { result: Err(ControlError::NoHeadset) }),
        }
    }

    /// Starts a session for `request`: the headsets are discovered first.
    pub fn start(request: ControlRequest) -> (res: (ControlSession, ControlStep))
        ensures
            res == (ControlSession::Discovering { request }, ControlStep::Discover),
    {
        (ControlSession::Discovering { request }, ControlStep::Discover)
    }

    /// True when `event` answers the step that this state waits for.
    pub fn accepts_event(&self, event: &ControlEvent) -> (res: bool)
        ensures
            res == self.accepts(*event),
    {
        match (self, event) {
            (ControlSession::Discovering { .. }, ControlEvent::Discovered { .. }) => true,
            (ControlSession::CheckingSupport { .. }, ControlEvent::SupportChecked { .. }) => true,
            (ControlSession::Applying { .. }, ControlEvent::Applied { .. }) => true,
            (ControlSession::Releasing { .. }, ControlEvent::Released) => true,
            _ => false,
        }
    }

    /// Takes the library's answer to the last step and says what to do next:
    /// a session that finds no headset fails at once; one that finds a
    /// headset checks the capability, applies the request only when the
    /// capability is there, always releases the headsets, and then hands back
    /// `Ok` exactly when the library returned 0 for the request.
    pub fn advance(self, event: ControlEvent) -> (res: (ControlSession, ControlStep))
        requires
            self.accepts(event),
        ensures
            res == self.next(event),
    {
        match (self, event) {
            (
                ControlSession::Discovering { request },
                ControlEvent::Discovered { count, headsets_null },
            ) => if count > 0 && !headsets_null {
                (
                    ControlSession::CheckingSupport { request, count },
                    ControlStep::CheckSupport { capability: request.capability() },
                )
            } else {
                (ControlSession::Finished, ControlStep::Finish { result: Err(ControlError::NoHeadset) })
            },
            (
                ControlSession::CheckingSupport { request, count },
                ControlEvent::SupportChecked { supported },
            ) => if supported {
                (ControlSession::Applying { request, count }, ControlStep::Apply { request })
            } else {
                (
                    ControlSession::Releasing {
                        request,
                        count,
                        outcome: Err(ControlFailure::Unsupported),
                    },
                    ControlStep::Release { count },
                )
            },
            (ControlSession::Applying { request, count }, ControlEvent::Applied { code }) => (
                ControlSession::Releasing {
                    request,
                    count,
                    outcome: if code == 0 {
                        Ok(())
                    } else {
                        Err(ControlFailure::Returned(code))
                    },
                },
                ControlStep::Release { count },
            ),
            (ControlSession::Releasing { request, outcome, .. }, ControlEvent::Released) => {
                let result = match outcome {
                    Ok(()) => Ok(()),
                    Err(failure) => Err(ControlError::Failed { request, failure }),
                };
                (ControlSession::Finished, ControlStep::Finish { result })
            },
            _ => (self, ControlStep::Finish { result: Err(ControlError::NoHeadset) }),
        }
    }
}


/// Where a query for the connected headset stands.
#[derive(Debug)]
pub enum DeviceQuery {
    /// The headsets are being discovered.
    Discovering,
    /// A headset was found; its name, capabilities and battery support are being read.
    Reading { count: i32 },
    /// The headset reports its battery, which is being read.
    ReadingBattery { count: i32, product_name: String, capabilities: ControlCapabilities },
    /// The discovered headsets are being released; the device is known.
    Releasing { count: i32, device: Device },
    /// The query is over.
    Finished,
}

/// What the headset library answered.
#[derive(Debug)]
pub enum QueryEvent {
    Discovered { count: i32, headsets_null: bool },
    /// The first headset's product name (made with `product_name_from_bytes`),
    /// its capability mask, and whether it supports battery status.
    DeviceRead { product_name: String, capability_mask: i32, battery_supported: bool },
    BatteryRead { code: i32, battery: HscBattery },
    Released,
}

/// What must be asked of the headset library next.
#[derive(Debug)]
pub enum QueryStep {
    /// Discover the connected headsets.
    Discover,
    /// Read the first headset's product name, capability mask, and whether it supports battery status.
    ReadDevice,
    /// Read the first headset's battery.
    ReadBattery,
    /// Free the discovered headsets, of which there are `count`.
    Release { count: i32 },
    /// Hand the device, if one was found, to the caller.
    Finish { device: Option<Device> },
}

/// The battery that the device shows after a battery read: the reading when
/// the library returned 0, else the unavailable battery.
pub open spec fn battery_after_read(code: i32, battery: HscBattery) -> HscBattery {
    if code == 0 {
        battery
    } else {
        spec_unavailable_battery()
    }
}

impl DeviceQuery {
    /// True when `event` answers the step that this state waits for.
    pub open spec fn accepts(&self, event: &QueryEvent) -> bool {
        match (self, event) {
            (DeviceQuery::Discovering, QueryEvent::Discovered { .. }) => true,
            (DeviceQuery::Reading { .. }, QueryEvent::DeviceRead { .. }) => true,
            (DeviceQuery::ReadingBattery { .. }, QueryEvent::BatteryRead { .. }) => true,
            (DeviceQuery::Releasing { .. }, QueryEvent::Released) => true,
            _ => false,
        }
    }

    /// The next state and step after `event` (for an event that the state
    /// does not accept, which `advance` never receives, the state is kept).
    pub open spec fn next(self, event: QueryEvent) -> (DeviceQuery, QueryStep) {
        match (self, event) {
            (DeviceQuery::Discovering, QueryEvent::Discovered { count, headsets_null }) => {
                if headset_found(count, headsets_null) {
                    (DeviceQuery::Reading { count }, QueryStep::ReadDevice)
                } else {
                    (DeviceQuery::Finished, QueryStep::Finish { device: None })
                }
            },
            (
                DeviceQuery::Reading { count },
                QueryEvent::DeviceRead { product_name, capability_mask, battery_supported },
            ) => if battery_supported {
                (
                    DeviceQuery::ReadingBattery {
                        count,
                        product_name,
                        capabilities: capabilities_of(capability_mask),
                    },
                    QueryStep::ReadBattery,
                )
            } else {
                (
                    DeviceQuery::Releasing {
                        count,
                        device: Device {
                            product_name,
                            battery: spec_unavailable_battery(),
                            capabilities: capabilities_of(capability_mask),
                        },
                    },
                    QueryStep::Release { count },
                )
            },
            (
                DeviceQuery::ReadingBattery { count, product_name, capabilities },
                QueryEvent::BatteryRead { code, battery },
            ) => (
                DeviceQuery::Releasing {
                    count,
                    device: Device {
                        product_name,
                        battery: battery_after_read(code, battery),
                        capabilities,
                    },
                },
                QueryStep::Release { count },
            ),
            (DeviceQuery::Releasing { device, .. }, QueryEvent::Released) => (
                DeviceQuery::Finished,
                QueryStep::Finish { device: Some(device) },
            ),
            (state, _) => (state, QueryStep::Finish { device: None }),
        }
    }

    /// Starts a query: the headsets are discovered first.
    pub fn start() -> (res: (DeviceQuery, QueryStep))
        ensures
            res.0 is Discovering,
            res.1 is Discover,
    {
        (DeviceQuery::Discovering, QueryStep::Discover)
    }

    /// True when `event` answers the step that this state waits for.
    pub fn accepts_event(&self, event: &QueryEvent) -> (res: bool)
        ensures
            res == self.accepts(event),
    {
        match (self, event) {
            (DeviceQuery::Discovering, QueryEvent::Discovered { .. }) => true,
            (DeviceQuery::Reading { .. }, QueryEvent::DeviceRead { .. }) => true,
            (DeviceQuery::ReadingBattery { .. }, QueryEvent::BatteryRead { .. }) => true,
            (DeviceQuery::Releasing { .. }, QueryEvent::Released) => true,
            _ => false,
        }
    }

    /// Takes the library's answer to the last step and says what to do next:
    /// no headset gives no device; a found headset has its name and
    /// capabilities read, its battery read only when it supports battery
    /// status (and used only when the read returned 0), and is released before
    /// the device is handed back.
    pub fn advance(self, event: QueryEvent) -> (res: (DeviceQuery, QueryStep))
        requires
            self.accepts(&event),
        ensures
            res == self.next(event),
    {
        match (self, event) {
            (DeviceQuery::Discovering, QueryEvent::Discovered { count, headsets_null }) => {
                if count > 0 && !headsets_null {
                    (DeviceQuery::Reading { count }, QueryStep::ReadDevice)
                } else {
                    (DeviceQuery::Finished, QueryStep::Finish { device: None })
                }
            },
            (
                DeviceQuery::Reading { count },
                QueryEvent::DeviceRead { product_name, capability_mask, battery_supported },
            ) => if battery_supported {
                (
                    DeviceQuery::ReadingBattery {
                        count,
                        product_name,
                        capabilities: ControlCapabilities::from_mask(capability_mask),
                    },
                    QueryStep::ReadBattery,
                )
            } else {
                (
                    DeviceQuery::Releasing {
                        count,
                        device: Device {
                            product_name,
                            battery: unavailable_battery(),
                            capabilities: ControlCapabilities::from_mask(capability_mask),
                        },
                    },
                    QueryStep::Release { count },
                )
            },
            (
                DeviceQuery::ReadingBattery { count, product_name, capabilities },
                QueryEvent::BatteryRead { code, battery },
            ) => {
                let battery = if code == 0 {
                    battery
                } else {
                    unavailable_battery()
                };
                (
                    DeviceQuery::Releasing {
                        count,
                        device: Device { product_name, battery, capabilities },
                    },
                    QueryStep::Release { count },
                )
            },
            (DeviceQuery::Releasing { device, .. }, QueryEvent::Released) => (
                DeviceQuery::Finished,
                QueryStep::Finish { device: Some(device) },
            ),
            (state, _) => (state, QueryStep::Finish { device: None }),
        }
    }
}


/// The request, if the session still has one.
pub open spec fn session_request(s: ControlSession) -> Option<ControlRequest> {
    match s {
        ControlSession::Discovering { request } => Some(request),
        ControlSession::CheckingSupport { request, .. } => Some(request),
        ControlSession::Applying { request, .. } => Some(request),
        ControlSession::Releasing { request, .. } => Some(request),
        ControlSession::Finished => None,
    }
}

/// The count of discovered headsets, once there is one.
pub open spec fn session_count(s: ControlSession) -> Option<i32> {
    match s {
        ControlSession::CheckingSupport { count, .. } => Some(count),
        ControlSession::Applying { count, .. } => Some(count),
        ControlSession::Releasing { count, .. } => Some(count),
        _ => None,
    }
}

/// True for a discovery that found no headset.
pub open spec fn discovered_nothing(e: ControlEvent) -> bool {
    match e {
        ControlEvent::Discovered { count, headsets_null } => !headset_found(count, headsets_null),
        _ => false,
    }
}

/// A request is sent to the headset only after the headset said it has the
/// request's capability, and it is the request the session was started with.
pub proof fn lemma_apply_only_when_supported(s: ControlSession, e: ControlEvent)
    requires
        s.accepts(e),
    ensures
        s.next(e).1 matches ControlStep::Apply { request } ==> {
            &&& s is CheckingSupport
            &&& e == (ControlEvent::SupportChecked { supported: true })
            &&& session_request(s) == Some(request)
        },
{
}

/// Once headsets were discovered, the session keeps its request and their
/// count; it releases them with that count, and it hands back a result only
/// when nothing was found or right after the release.
pub proof fn lemma_release_before_result(s: ControlSession, e: ControlEvent)
    requires
        s.accepts(e),
    ensures
        session_count(s) is Some && session_count(s.next(e).0) is Some ==> session_count(s.next(
            e,
        ).0) == session_count(s),
        session_request(s.next(e).0) is Some ==> session_request(s.next(e).0) == session_request(
            s,
        ),
        s.next(e).1 matches ControlStep::Release { count } ==> session_count(s) == Some(count),
        s.next(e).1 is Finish ==> (s is Discovering && discovered_nothing(e)) || (s is Releasing
            && e is Released),
{
}

/// The whole course of a request: with no headset it fails at once; with a
/// headset that lacks the capability it releases the headsets and fails as
/// unsupported; otherwise it applies the request, releases the headsets, and
/// succeeds exactly when the headset library returned 0.
pub proof fn lemma_control_session_course(
    request: ControlRequest,
    count: i32,
    headsets_null: bool,
    supported: bool,
    code: i32,
)
    ensures
        ({
            let (s1, a1) = (ControlSession::Discovering { request }).next(
                ControlEvent::Discovered { count, headsets_null },
            );
            if !headset_found(count, headsets_null) {
                s1 is Finished && a1 == (ControlStep::Finish { result: Err(ControlError::NoHeadset) })
            } else {
                let (s2, a2) = s1.next(ControlEvent::SupportChecked { supported });
                &&& a1 == (ControlStep::CheckSupport { capability: request.spec_capability() })
                &&& if supported {
                    let (s3, a3) = s2.next(ControlEvent::Applied { code });
                    let (s4, a4) = s3.next(ControlEvent::Released);
                    &&& a2 == (ControlStep::Apply { request })
                    &&& a3 == (ControlStep::Release { count })
                    &&& s4 is Finished
                    &&& a4 == (ControlStep::Finish {
                        result: if code == 0 {
                            Ok(())
                        } else {
                            Err(
                                ControlError::Failed {
                                    request,
                                    failure: ControlFailure::Returned(code),
                                },
                            )
                        },
                    })
                } else {
                    let (s3, a3) = s2.next(ControlEvent::Released);
                    &&& a2 == (ControlStep::Release { count })
                    &&& s3 is Finished
                    &&& a3 == (ControlStep::Finish {
                        result: Err(
                            ControlError::Failed { request, failure: ControlFailure::Unsupported },
                        ),
                    })
                }
            }
        }),
{
}

/// The whole course of a device query: with no headset there is no device;
/// otherwise the headset is read, its battery is read only when it supports
/// battery status, the headsets are released, and the device handed back
/// carries the name and the capabilities that were read and the battery
/// reading when the library returned 0 for it, else the unavailable battery.
pub proof fn lemma_device_query_course(
    count: i32,
    headsets_null: bool,
    product_name: String,
    capability_mask: i32,
    battery_supported: bool,
    code: i32,
    battery: HscBattery,
)
    ensures
        ({
            let (s1, a1) = DeviceQuery::Discovering.next(
                QueryEvent::Discovered { count, headsets_null },
            );
            if !headset_found(count, headsets_null) {
                s1 is Finished && a1 == (QueryStep::Finish { device: None })
            } else {
                let (s2, a2) = s1.next(
                    QueryEvent::DeviceRead { product_name, capability_mask, battery_supported },
                );
                let expected = Device {
                    product_name,
                    battery: if battery_supported {
                        battery_after_read(code, battery)
                    } else {
                        spec_unavailable_battery()
                    },
                    capabilities: capabilities_of(capability_mask),
                };
                &&& a1 is ReadDevice
                &&& if battery_supported {
                    let (s3, a3) = s2.next(QueryEvent::BatteryRead { code, battery });
                    let (s4, a4) = s3.next(QueryEvent::Released);
                    &&& a2 is ReadBattery
                    &&& a3 == (QueryStep::Release { count })
                    &&& s4 is Finished
                    &&& a4 == (QueryStep::Finish { device: Some(expected) })
                } else {
                    let (s3, a3) = s2.next(QueryEvent::Released);
                    &&& a2 == (QueryStep::Release { count })
                    &&& s3 is Finished
                    &&& a3 == (QueryStep::Finish { device: Some(expected) })
                }
            }
        }),
{
}


/// The capability bits are bit 0 (sidetone, value 1), bit 11 (microphone
/// light, value 2048) and bit 4 (inactivity timeout, value 16).
pub proof fn lemma_capability_bits(mask: i32)
    ensures
        mask_has_bit(mask, 0) == (mask & 1 != 0),
        mask_has_bit(mask, 11) == (mask & 2048 != 0),
        mask_has_bit(mask, 4) == (mask & 16 != 0),
        capabilities_of(mask) == (ControlCapabilities {
            sidetone: mask & 1 != 0,
            microphone_light: mask & 2048 != 0,
            inactive_time: mask & 16 != 0,
        }),
{
    assert((1i32 << 0i32) == 1i32) by (bit_vector);
    assert((1i32 << 11i32) == 2048i32) by (bit_vector);
    assert((1i32 << 4i32) == 16i32) by (bit_vector);
}

/// What the headset library is handed for a request: the minutes of an
/// inactivity timeout unchanged, and for sidetone and the microphone light a
/// non-zero level exactly when the switch is turned on; each request needs
/// its own capability.
pub proof fn lemma_request_levels(on: bool, minutes: u8)
    ensures
        ControlRequest::InactiveTime(minutes).spec_level() == minutes,
        (ControlRequest::Sidetone(on).spec_level() != 0) == on,
        (ControlRequest::MicrophoneLight(on).spec_level() != 0) == on,
        ControlRequest::InactiveTime(minutes).spec_capability() == Capability::InactiveTime,
        ControlRequest::Sidetone(on).spec_capability() == Capability::Sidetone,
        ControlRequest::MicrophoneLight(on).spec_capability()
            == Capability::MicrophoneMuteLedBrightness,
{
}

/// The device that a query hands back carries the product name that was read
/// and the controls that the capability mask announces: sidetone for bit 0
/// (value 1), microphone light for bit 11 (value 2048), inactivity timeout for
/// bit 4 (value 16); whether or not the battery could be read.
pub proof fn lemma_query_device_capabilities(
    count: i32,
    product_name: String,
    capability_mask: i32,
    battery_supported: bool,
    code: i32,
    battery: HscBattery,
)
    requires
        count > 0,
    ensures
        ({
            let (s1, _) = DeviceQuery::Discovering.next(
                QueryEvent::Discovered { count, headsets_null: false },
            );
            let (s2, _) = s1.next(
                QueryEvent::DeviceRead { product_name, capability_mask, battery_supported },
            );
            let finish = if battery_supported {
                s2.next(QueryEvent::BatteryRead { code, battery }).0.next(QueryEvent::Released).1
            } else {
                s2.next(QueryEvent::Released).1
            };
            &&& finish is Finish
            &&& finish->device is Some
            &&& finish->device->0.product_name == product_name
            &&& finish->device->0.capabilities.sidetone == (capability_mask & 1 != 0)
            &&& finish->device->0.capabilities.microphone_light == (capability_mask & 2048 != 0)
            &&& finish->device->0.capabilities.inactive_time == (capability_mask & 16 != 0)
        }),
{
    lemma_capability_bits(capability_mask);
}

/// A status text, when there is one, follows the rest of the device line
/// after one space, whatever the battery level; the line starts with the
/// product name, and it is only the name when the level is not above zero
/// and no status is given.
pub proof fn lemma_device_text_status(name: Seq<char>, level: i32, t: Seq<char>)
    ensures
        device_text(name, level, Some(t)) == device_text(name, level, None) + " "@ + t,
        crate::text::ends_with(device_text(name, level, Some(t)), " "@ + t),
        crate::text::starts_with(device_text(name, level, Some(t)), name),
        crate::text::starts_with(device_text(name, level, None), name),
        level <= 0 ==> device_text(name, level, None) == name,
{
    let base = device_text(name, level, None);
    let full = base + " "@ + t;
    assert(full =~= base + (" "@ + t));
    assert(full.skip(full.len() - (" "@ + t).len()) =~= " "@ + t);
    if level > 0 {
        assert(base =~= name + (": "@ + decimal(level as nat) + "%"@));
    } else {
        assert(base == name);
    }
    assert(base.take(name.len() as int) =~= name);
    assert(full.take(name.len() as int) =~= name);
}

} // verus!
