use vstd::prelude::*;

verus! {

/// The texts that the interface shows; each is looked up in the user's language
/// when it is displayed.
#[derive(Debug, Clone, Copy, PartialEq, Eq, Structural)]
pub enum Key {
    Version,
    ShowNotifications,
    ShowTextIcon,
    ViewLogs,
    QuitProgram,
    UpdateAvailable,
    ControlHeadset,
    Sidetone,
    MicrophoneLight,
    InactiveTime,
    DeviceCharging,
    BatteryUnavailable,
    DeviceDisconnected,
}

} // verus!
