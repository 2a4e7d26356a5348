//! What is shown of a device, said of its name and its format.

use crate::service::device::{
    category_of, device_of, rate_text, support_of, CompatibilityModel, DeviceCategory, DeviceFlow,
    DeviceFormatSupport, DeviceStatus,
};
use crate::text::{decimal_text, has_text, lower_text};
use crate::windows::endpoint::{EndpointFlow, EndpointFormat, EndpointInfo};
use vstd::prelude::*;

verus! {

/// What plays is an output. What records is virtual where its name says so, else a loopback where
/// its name says so, and else a microphone; capital letters do not matter.
pub proof fn law_devices_are_told_apart_by_their_names(name: Seq<char>)
    ensures
        ({
            let lower = lower_text(name);
            let kind = category_of(name, DeviceFlow::Capture);
            let is_virtual = has_text(lower, "virtual"@) || has_text(lower, "vb-audio"@)
                || has_text(lower, "voicemeeter"@) || has_text(lower, "cable"@);
            let is_loopback = has_text(lower, "loop"@) || has_text(lower, "loopback"@) || has_text(
                lower,
                "回环"@,
            ) || has_text(lower, "环回"@);
            &&& category_of(name, DeviceFlow::Render) == DeviceCategory::Output
            &&& is_virtual <==> kind == DeviceCategory::InputVirtual
            &&& !is_virtual && is_loopback <==> kind == DeviceCategory::InputLoopback
            &&& !is_virtual && !is_loopback <==> kind == DeviceCategory::InputMic
        }),
{
}

/// A device is active exactly where its format can be used in its direction. It is taken as it is
/// where its format is the one that is mixed in, and otherwise converted.
pub proof fn law_devices_are_active_where_they_can_be_used(format: EndpointFormat)
    requires
        !(format.is_float && format.is_pcm),
    ensures
        ({
            let floats = format.is_float && format.bits_per_sample == 32 && format.channels == 2;
            let mixed = floats && format.sample_rate == 48000;
            let plays = support_of(DeviceFlow::Render, format);
            let records = support_of(DeviceFlow::Capture, format);
            &&& plays.status == DeviceStatus::Active <==> floats
            &&& records.status == DeviceStatus::Active <==> mixed
            &&& plays.compatibility == CompatibilityModel::RenderReady <==> floats
            &&& records.compatibility == CompatibilityModel::CaptureReady <==> mixed
            &&& plays.support == DeviceFormatSupport::Unsupported <==> !floats
            &&& records.support == DeviceFormatSupport::Unsupported <==> !mixed
            &&& mixed ==> plays.support == DeviceFormatSupport::Native && records.support
                == DeviceFormatSupport::Native
            &&& floats && !mixed ==> plays.support == DeviceFormatSupport::ConversionRequired
        }),
{
}

/// A device is shown as what was read of its endpoint; one whose format is not known is not
/// active.
pub proof fn law_devices_are_shown_as_they_are(info: EndpointInfo)
    ensures
        ({
            let device = device_of(info);
            &&& device.id == info.id@
            &&& device.name == info.name@
            &&& device.flow == DeviceFlow::Capture <==> info.flow == EndpointFlow::Capture
            &&& device.native_format == info.format
            &&& device.bits_per_sample == info.bits_per_sample
            &&& device.channel_mask == info.channel_mask
            &&& device.is_float == info.is_float
            &&& device.is_pcm == info.is_pcm
            &&& device.category == category_of(info.name@, device.flow)
            &&& info.format is None ==> device.status != DeviceStatus::Active
                && device.format_support == DeviceFormatSupport::Unknown
                && device.native_format_description is None
            &&& info.known_format() matches Some(format) ==> device.status == support_of(
                device.flow,
                format,
            ).status && device.native_format_description is Some
        }),
{
}

/// A rate is shown in kilohertz, with one digit behind the point where it needs one, and in hertz
/// where that is not enough.
pub proof fn law_rates_are_shown_in_kilohertz(thousands: nat, hundreds: nat, rest: nat)
    requires
        hundreds < 10,
        rest < 100,
    ensures
        rate_text(1000 * thousands) == decimal_text(thousands) + " kHz"@,
        0 < hundreds ==> rate_text(1000 * thousands + 100 * hundreds) == decimal_text(thousands)
            + "."@ + decimal_text(hundreds) + " kHz"@,
        0 < rest ==> rate_text(1000 * thousands + 100 * hundreds + rest) == decimal_text(
            1000 * thousands + 100 * hundreds + rest,
        ) + " Hz"@,
{
    let some = 1000 * thousands + 100 * hundreds;
    assert(1000 * thousands % 1000 == 0 && 1000 * thousands / 1000 == thousands);
    assert(some % 1000 == 100 * hundreds && some / 1000 == thousands && some % 100 == 0);
    assert(100 * hundreds / 100 == hundreds);
    assert((some + rest) % 100 == rest);
    assert(0 < rest ==> (some + rest) % 1000 != 0);
}

} // verus!
