//! # Officially supported DLT service ids
use vstd::prelude::*;

verus! {

/// Name and explanation of a service id, for the ids that are defined.
pub open spec fn spec_service_id_lookup(service_id: u8) -> Option<(&'static str, &'static str)> {
    if service_id == 0x01 {
        Some(("set_log_level", "Set the Log Level"))
    } else if service_id == 0x02 {
        Some(("set_trace_status", "Enable/Disable Trace Messages"))
    } else if service_id == 0x03 {
        Some(("get_log_info", "Returns the LogLevel for registered applications"))
    } else if service_id == 0x04 {
        Some(("get_default_log_level", "Returns the LogLevel for wildcards"))
    } else if service_id == 0x05 {
        Some(("store_configuration", "Stores the current configuration non volatile"))
    } else if service_id == 0x06 {
        Some(("restore_to_factory_default", "Sets the configuration back to default"))
    } else if service_id == 0x07 {
        Some(("set_com_interface_status", "SetComInterfaceStatus -- deprecated"))
    } else if service_id == 0x08 {
        Some(("set_com_interface_max_bandwidth", "SetComInterfaceMaxBandwidth -- deprecated"))
    } else if service_id == 0x09 {
        Some(("set_verbose_mode", "SetVerboseMode -- deprecated"))
    } else if service_id == 0x0A {
        Some(("set_message_filtering", "Enable/Disable message filtering"))
    } else if service_id == 0x0B {
        Some(("set_timing_packets", "SetTimingPackets -- deprecated"))
    } else if service_id == 0x0C {
        Some(("get_local_time", "GetLocalTime -- deprecated"))
    } else if service_id == 0x0D {
        Some(("set_use_ecuid", "SetUseECUID -- deprecated"))
    } else if service_id == 0x0E {
        Some(("set_use_session_id", "SetUseSessionID -- deprecated"))
    } else if service_id == 0x0F {
        Some(("set_use_timestamp", "SetUseTimestamp -- deprecated"))
    } else if service_id == 0x10 {
        Some(("set_use_extended_header", "SetUseExtendedHeader -- deprecated"))
    } else if service_id == 0x11 {
        Some(("set_default_log_level", "Sets the LogLevel for wildcards"))
    } else if service_id == 0x12 {
        Some(("set_default_trace_status", "Enable/Disable TraceMessages for wildcards"))
    } else if service_id == 0x13 {
        Some(("get_software_version", "Get the ECU software version"))
    } else if service_id == 0x14 {
        Some(("message_buffer_overflow", "MessageBufferOverflow -- deprecated"))
    } else if service_id == 0x15 {
        Some(("get_default_trace_status", "Get the current TraceLevel for wildcards"))
    } else if service_id == 0x16 {
        Some(("get_com_interfacel_status", "GetComInterfacelStatus -- deprecated"))
    } else if service_id == 0x17 {
        Some(("get_log_channel_names", "Returns the LogChannel’s name"))
    } else if service_id == 0x18 {
        Some(("get_com_interface_max_bandwidth", "GetComInterfaceMaxBandwidth -- deprecated"))
    } else if service_id == 0x19 {
        Some(("get_verbose_mode_status", "GetVerboseModeStatus -- deprecated"))
    } else if service_id == 0x1A {
        Some(("get_message_filtering_status", "GetMessageFilteringStatus -- deprecated"))
    } else if service_id == 0x1B {
        Some(("get_use_ecuid", "GetUseECUID -- deprecated"))
    } else if service_id == 0x1C {
        Some(("get_use_session_id", "GetUseSessionID -- deprecated"))
    } else if service_id == 0x1D {
        Some(("get_use_timestamp", "GetUseTimestamp -- deprecated"))
    } else if service_id == 0x1E {
        Some(("get_use_extended_header", "GetUseExtendedHeader -- deprecated"))
    } else if service_id == 0x1F {
        Some(("get_trace_status", "Returns the current TraceStatus"))
    } else if service_id == 0x20 {
        Some(("set_log_channel_assignment", "Adds/ Removes the given LogChannel as output path"))
    } else if service_id == 0x21 {
        Some(("set_log_channel_threshold", "Sets the filter threshold for the given LogChannel"))
    } else if service_id == 0x22 {
        Some(("get_log_channel_threshold", "Returns the current LogLevel for a given LogChannel"))
    } else if service_id == 0x23 {
        Some(("buffer_overflow_notification", "Report that a buffer overflow occurred"))
    } else {
        None
    }
}

/// Contains all the official service ids with their `u8` representation.
/// Maps from the `u8` representation to a tuple of the name of the service
/// and an explanation. The ids `0x01` to `0x23` are defined.
pub fn service_id_lookup(service_id: u8) -> (r: Option<(&'static str, &'static str)>)
    ensures
        r == spec_service_id_lookup(service_id),
        r is Some <==> 0x01 <= service_id <= 0x23,
{
    match service_id {
        0x01 => Some(("set_log_level", "Set the Log Level")),
        0x02 => Some(("set_trace_status", "Enable/Disable Trace Messages")),
        0x03 => Some(("get_log_info", "Returns the LogLevel for registered applications")),
        0x04 => Some(("get_default_log_level", "Returns the LogLevel for wildcards")),
        0x05 => Some(("store_configuration", "Stores the current configuration non volatile")),
        0x06 => Some(("restore_to_factory_default", "Sets the configuration back to default")),
        0x07 => Some(("set_com_interface_status", "SetComInterfaceStatus -- deprecated")),
        0x08 => Some(
            ("set_com_interface_max_bandwidth", "SetComInterfaceMaxBandwidth -- deprecated"),
        ),
        0x09 => Some(("set_verbose_mode", "SetVerboseMode -- deprecated")),
        0x0A => Some(("set_message_filtering", "Enable/Disable message filtering")),
        0x0B => Some(("set_timing_packets", "SetTimingPackets -- deprecated")),
        0x0C => Some(("get_local_time", "GetLocalTime -- deprecated")),
        0x0D => Some(("set_use_ecuid", "SetUseECUID -- deprecated")),
        0x0E => Some(("set_use_session_id", "SetUseSessionID -- deprecated")),
        0x0F => Some(("set_use_timestamp", "SetUseTimestamp -- deprecated")),
        0x10 => Some(("set_use_extended_header", "SetUseExtendedHeader -- deprecated")),
        0x11 => Some(("set_default_log_level", "Sets the LogLevel for wildcards")),
        0x12 => Some(("set_default_trace_status", "Enable/Disable TraceMessages for wildcards")),
        0x13 => Some(("get_software_version", "Get the ECU software version")),
        0x14 => Some(("message_buffer_overflow", "MessageBufferOverflow -- deprecated")),
        0x15 => Some(("get_default_trace_status", "Get the current TraceLevel for wildcards")),
        0x16 => Some(("get_com_interfacel_status", "GetComInterfacelStatus -- deprecated")),
        0x17 => Some(("get_log_channel_names", "Returns the LogChannel’s name")),
        0x18 => Some(
            ("get_com_interface_max_bandwidth", "GetComInterfaceMaxBandwidth -- deprecated"),
        ),
        0x19 => Some(("get_verbose_mode_status", "GetVerboseModeStatus -- deprecated")),
        0x1A => Some(("get_message_filtering_status", "GetMessageFilteringStatus -- deprecated")),
        0x1B => Some(("get_use_ecuid", "GetUseECUID -- deprecated")),
        0x1C => Some(("get_use_session_id", "GetUseSessionID -- deprecated")),
        0x1D => Some(("get_use_timestamp", "GetUseTimestamp -- deprecated")),
        0x1E => Some(("get_use_extended_header", "GetUseExtendedHeader -- deprecated")),
        0x1F => Some(("get_trace_status", "Returns the current TraceStatus")),
        0x20 => Some(
            ("set_log_channel_assignment", "Adds/ Removes the given LogChannel as output path"),
        ),
        0x21 => Some(
            ("set_log_channel_threshold", "Sets the filter threshold for the given LogChannel"),
        ),
        0x22 => Some(
            ("get_log_channel_threshold", "Returns the current LogLevel for a given LogChannel"),
        ),
        0x23 => Some(("buffer_overflow_notification", "Report that a buffer overflow occurred")),
        _ => None,
    }
}

} // verus!
