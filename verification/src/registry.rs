//! Static registry of the recognized protocol clusters and their commands.
//!
//! A numeric cluster identifier maps to at most one cluster name, and a
//! (cluster, command) identifier pair maps to at most one command name.
//! Identifiers outside the fixed table are unrecognized: lookups return
//! `None`, and discovery drops them.

use vstd::prelude::*;

verus! {

/// Name of a recognized cluster, or `None` for any other identifier.
pub open spec fn spec_cluster_name(cluster_id: u32) -> Option<Seq<char>> {
    if cluster_id == 0x06 {
        Some("onoff"@)
    } else if cluster_id == 0x08 {
        Some("levelcontrol"@)
    } else if cluster_id == 0x300 {
        Some("colorcontrol"@)
    } else {
        None
    }
}

/// Name of a recognized command within a cluster, or `None` for any
/// (cluster, command) pair outside the fixed table.
pub open spec fn spec_command_name(cluster_id: u32, command_id: u32) -> Option<Seq<char>> {
    if cluster_id == 0x06 {
        if command_id == 0x00 {
            Some("off"@)
        } else if command_id == 0x01 {
            Some("on"@)
        } else if command_id == 0x02 {
            Some("toggle"@)
        } else {
            None
        }
    } else if cluster_id == 0x08 {
        if command_id == 0x00 {
            Some("move-to-level"@)
        } else if command_id == 0x01 {
            Some("move"@)
        } else if command_id == 0x02 {
            Some("step"@)
        } else if command_id == 0x03 {
            Some("stop"@)
        } else if command_id == 0x04 {
            Some("move-to-level-with-on-off"@)
        } else if command_id == 0x05 {
            Some("move-with-on-off"@)
        } else if command_id == 0x06 {
            Some("step-with-on-off"@)
        } else if command_id == 0x07 {
            Some("stop-with-on-off"@)
        } else if command_id == 0x08 {
            Some("move-to-closest-frequency"@)
        } else {
            None
        }
    } else if cluster_id == 0x300 {
        if command_id == 0x00 {
            Some("move-to-hue"@)
        } else if command_id == 0x01 {
            Some("move-hue"@)
        } else if command_id == 0x02 {
            Some("step-hue"@)
        } else if command_id == 0x03 {
            Some("move-to-saturation"@)
        } else if command_id == 0x04 {
            Some("move-saturation"@)
        } else if command_id == 0x05 {
            Some("step-saturation"@)
        } else if command_id == 0x06 {
            Some("move-to-hue-and-saturation"@)
        } else if command_id == 0x07 {
            Some("move-to-color"@)
        } else if command_id == 0x08 {
            Some("move-color"@)
        } else if command_id == 0x09 {
            Some("step-color"@)
        } else if command_id == 0x0A {
            Some("move-to-color-temperature"@)
        } else if command_id == 0x40 {
            Some("enhanced-move-to-hue"@)
        } else if command_id == 0x41 {
            Some("enhanced-move-hue"@)
        } else if command_id == 0x42 {
            Some("enhanced-step-hue"@)
        } else if command_id == 0x43 {
            Some("enhanced-move-to-hue-and-saturation"@)
        } else if command_id == 0x44 {
            Some("color-loop-set"@)
        } else if command_id == 0x47 {
            Some("stop-move-set"@)
        } else if command_id == 0x4B {
            Some("move-color-temperature"@)
        } else if command_id == 0x4C {
            Some("step-color-temperature"@)
        } else {
            None
        }
    } else {
        None
    }
}

/// Looks a cluster identifier up in the fixed table.
pub fn get_cluster_name(cluster_id: u32) -> (r: Option<&'static str>)
    ensures
        r is Some <==> spec_cluster_name(cluster_id) is Some,
        r matches Some(s) ==> spec_cluster_name(cluster_id) == Some(s@),
{
    if cluster_id == 0x06 {
        Some("onoff")
    } else if cluster_id == 0x08 {
        Some("levelcontrol")
    } else if cluster_id == 0x300 {
        Some("colorcontrol")
    } else {
        None
    }
}

/// Looks a (cluster, command) identifier pair up in the fixed table.
pub fn get_command_name(cluster_id: u32, command_id: u32) -> (r: Option<&'static str>)
    ensures
        r is Some <==> spec_command_name(cluster_id, command_id) is Some,
        r matches Some(s) ==> spec_command_name(cluster_id, command_id) == Some(s@),
{
    if cluster_id == 0x06 {
        if command_id == 0x00 {
            Some("off")
        } else if command_id == 0x01 {
            Some("on")
        } else if command_id == 0x02 {
            Some("toggle")
        } else {
            None
        }
    } else if cluster_id == 0x08 {
        if command_id == 0x00 {
            Some("move-to-level")
        } else if command_id == 0x01 {
            Some("move")
        } else if command_id == 0x02 {
            Some("step")
        } else if command_id == 0x03 {
            Some("stop")
        } else if command_id == 0x04 {
            Some("move-to-level-with-on-off")
        } else if command_id == 0x05 {
            Some("move-with-on-off")
        } else if command_id == 0x06 {
            Some("step-with-on-off")
        } else if command_id == 0x07 {
            Some("stop-with-on-off")
        } else if command_id == 0x08 {
            Some("move-to-closest-frequency")
        } else {
            None
        }
    } else if cluster_id == 0x300 {
        if command_id == 0x00 {
            Some("move-to-hue")
        } else if command_id == 0x01 {
            Some("move-hue")
        } else if command_id == 0x02 {
            Some("step-hue")
        } else if command_id == 0x03 {
            Some("move-to-saturation")
        } else if command_id == 0x04 {
            Some("move-saturation")
        } else if command_id == 0x05 {
            Some("step-saturation")
        } else if command_id == 0x06 {
            Some("move-to-hue-and-saturation")
        } else if command_id == 0x07 {
            Some("move-to-color")
        } else if command_id == 0x08 {
            Some("move-color")
        } else if command_id == 0x09 {
            Some("step-color")
        } else if command_id == 0x0A {
            Some("move-to-color-temperature")
        } else if command_id == 0x40 {
            Some("enhanced-move-to-hue")
        } else if command_id == 0x41 {
            Some("enhanced-move-hue")
        } else if command_id == 0x42 {
            Some("enhanced-step-hue")
        } else if command_id == 0x43 {
            Some("enhanced-move-to-hue-and-saturation")
        } else if command_id == 0x44 {
            Some("color-loop-set")
        } else if command_id == 0x47 {
            Some("stop-move-set")
        } else if command_id == 0x4B {
            Some("move-color-temperature")
        } else if command_id == 0x4C {
            Some("step-color-temperature")
        } else {
            None
        }
    } else {
        None
    }
}

} // verus!
